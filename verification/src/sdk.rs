//! What an extension hands back to the gateway: field outputs, errors, and
//! subscriptions that yield outputs one after another.
use vstd::prelude::*;

use crate::json::JsonValue;

verus! {

/// An error reported by an extension: a message and extension entries.
#[derive(Debug)]
pub struct Error {
    pub extensions: Vec<(String, JsonValue)>,
    pub message: String,
}

/// The values (or errors) an extension produced for a field, in order.
#[derive(Debug)]
pub struct FieldOutput {
    outputs: Vec<Result<JsonValue, Error>>,
}

impl FieldOutput {
    /// The outputs, in the order they were pushed.
    pub closed spec fn outputs_of(&self) -> Seq<Result<JsonValue, Error>> {
        self.outputs@
    }

    /// An output with nothing in it.
    pub fn new() -> (r: FieldOutput)
        ensures
            r.outputs_of().len() == 0,
    {
        FieldOutput { outputs: Vec::new() }
    }

    /// Add a value at the end.
    pub fn push_value(&mut self, value: JsonValue)
        ensures
            final(self).outputs_of() == old(self).outputs_of().push(Ok(value)),
    {
        self.outputs.push(Ok(value));
    }

    /// Add an error at the end.
    pub fn push_error(&mut self, error: Error)
        ensures
            final(self).outputs_of() == old(self).outputs_of().push(Err(error)),
    {
        self.outputs.push(Err(error));
    }

    /// The number of outputs.
    pub fn len(&self) -> (r: usize)
        ensures
            r == self.outputs_of().len(),
    {
        self.outputs.len()
    }

    /// The outputs, in the order they were pushed.
    pub fn into_outputs(self) -> (r: Vec<Result<JsonValue, Error>>)
        ensures
            r@ == self.outputs_of(),
    {
        self.outputs
    }
}

/// A source of field outputs from a stream. `next` gives `Ok(Some(..))`
/// for an output, `Ok(None)` when the subscription has ended normally and
/// `Err(..)` when retrieving the next output failed.
pub trait Subscription {
    /// Retrieves the next field output from the subscription.
    fn next(&mut self) -> Result<Option<FieldOutput>, Error>;
}

} // verus!
