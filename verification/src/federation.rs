//! Preparing the execution of a federation entity resolver: the `_entities`
//! query sent to the subgraph, and the constant fields added to each entity
//! representation.
use vstd::prelude::*;

use crate::json::{json_text, JsonValue, JsonView};
use crate::resolver::{GraphqlEndpointId, GraphqlFederationEntityResolverDefinition};
use crate::util::owned;

verus! {

/// The `_entities` operation built for a plan.
#[derive(Debug)]
pub struct PreparedFederationEntityOperation {
    /// The query text.
    pub query: String,
    /// The name of the variable that holds the entity representations.
    pub entities_variable_name: String,
    /// The operation's own variables, by name, with their values.
    pub variables: Vec<(String, JsonValue)>,
}

/// A federation entity resolver ready to execute.
#[derive(Debug)]
pub struct FederationEntityPreparedExecutor {
    pub subgraph_id: GraphqlEndpointId,
    pub operation: PreparedFederationEntityOperation,
}

/// An executor ready to run.
#[derive(Debug)]
pub enum PreparedExecutor {
    FederationEntity(FederationEntityPreparedExecutor),
}

/// `Failed to build query: <err>`.
pub open spec fn build_failure_message(err: Seq<char>) -> Seq<char> {
    "Failed to build query: "@ + err
}

impl FederationEntityPreparedExecutor {
    /// The executor for the resolver, given the outcome of building its
    /// `_entities` operation: the operation and the resolver's endpoint, or
    /// the build error reported as `Failed to build query: <err>`.
    pub fn prepare(
        resolver: GraphqlFederationEntityResolverDefinition<'_>,
        built: Result<PreparedFederationEntityOperation, String>,
    ) -> (r: Result<PreparedExecutor, String>)
        ensures
            match built {
                Ok(op) => r matches Ok(PreparedExecutor::FederationEntity(e)) && e.subgraph_id
                    == resolver.record_of().endpoint_id && e.operation == op,
                Err(err) => r matches Err(m) && m@ == build_failure_message(err@),
            },
    {
        let subgraph = resolver.endpoint();
        match built {
            Ok(operation) => Ok(PreparedExecutor::FederationEntity(Self { subgraph_id: subgraph.id(), operation })),
            Err(err) => {
                let mut m = owned("Failed to build query: ");
                m.append(err.as_str());
                Err(m)
            },
        }
    }
}

/// The constant field added to every entity representation: `__typename`
/// with the entity's type name.
pub fn typename_field(entity_name: &str) -> (r: (String, JsonValue))
    ensures
        r.0@ == "__typename"@,
        r.1@ == JsonView::String(entity_name@),
{
    (owned("__typename"), JsonValue::String(owned(entity_name)))
}

/// `{"query": <query>, "variables": <variables>}`.
pub open spec fn request_body_view(query: Seq<char>, variables: JsonView) -> JsonView {
    JsonView::Object(seq![("query"@, JsonView::String(query)), ("variables"@, variables)])
}

/// `Failed to serialize query: <err>`.
pub open spec fn serialize_failure_message(err: Seq<char>) -> Seq<char> {
    "Failed to serialize query: "@ + err
}

impl FederationEntityPreparedExecutor {
    /// The body of the request sent to the subgraph: the operation's query
    /// and the variables (the entity representations among them).
    pub fn request_body(&self, variables: JsonValue) -> (r: JsonValue)
        ensures
            r@ == request_body_view(self.operation.query@, variables@),
    {
        let ghost vars = variables@;
        let mut fields: Vec<(String, JsonValue)> = Vec::new();
        let q = JsonValue::String(self.operation.query.clone());
        assert(q@ == JsonView::String(self.operation.query@));
        let ghost qv = q@;
        fields.push((owned("query"), q));
        fields.push((owned("variables"), variables));
        let r = JsonValue::Object(fields);
        proof {
            match r@ {
                JsonView::Object(fs) => {
                    assert(fs =~= seq![("query"@, qv), ("variables"@, vars)]);
                },
                _ => {},
            }
        }
        r
    }

    /// The JSON text of the request sent to the subgraph (the body of
    /// `request_body`), or `Failed to serialize query: <err>` when it cannot
    /// be written (a number of the variables is no JSON number).
    pub fn json_body(&self, variables: JsonValue) -> (r: Result<String, String>)
        ensures
            match json_text(request_body_view(self.operation.query@, variables@)) {
                Some(t) => r matches Ok(b) && b@ == t,
                None => r matches Err(m) && m@ == serialize_failure_message("a number is no JSON number"@),
            },
    {
        let body = self.request_body(variables);
        match body.to_json_text() {
            Some(t) => Ok(t),
            None => Err(Self::serialize_error("a number is no JSON number")),
        }
    }

    /// The error reported when the request body cannot be serialized.
    pub fn serialize_error(err: &str) -> (r: String)
        ensures
            r@ == serialize_failure_message(err@),
    {
        let mut m = owned("Failed to serialize query: ");
        m.append(err);
        m
    }
}

/// The views of named JSON values.
pub open spec fn fields_view(v: Seq<(String, JsonValue)>) -> Seq<(Seq<char>, JsonView)> {
    v.map_values(|e: (String, JsonValue)| (e.0@, e.1@))
}

/// An entity representation with `__typename` added after its fields.
pub open spec fn representation_view(fields: Seq<(Seq<char>, JsonView)>, entity_name: Seq<char>) -> JsonView {
    JsonView::Object(fields.push(("__typename"@, JsonView::String(entity_name))))
}

/// The variables sent with the `_entities` query: the operation's own
/// variables, then, under the entities variable, the list of entity
/// representations, each with `__typename`.
pub open spec fn subgraph_variables_view(
    variables: Seq<(Seq<char>, JsonView)>,
    entities_variable_name: Seq<char>,
    representations: Seq<Seq<(Seq<char>, JsonView)>>,
    entity_name: Seq<char>,
) -> JsonView {
    JsonView::Object(
        variables.push(
            (
                entities_variable_name,
                JsonView::Array(
                    Seq::new(representations.len(), |i: int| representation_view(representations[i], entity_name)),
                ),
            ),
        ),
    )
}

/// A copy of named JSON values.
fn duplicate_fields(v: &Vec<(String, JsonValue)>) -> (r: Vec<(String, JsonValue)>)
    ensures
        fields_view(r@) == fields_view(v@),
{
    let mut out: Vec<(String, JsonValue)> = Vec::new();
    let mut i: usize = 0;
    while i < v.len()
        invariant
            i <= v@.len(),
            fields_view(out@) =~= fields_view(v@.take(i as int)),
        decreases v.len() - i,
    {
        let k = v[i].0.clone();
        let x = v[i].1.duplicate();
        let ghost before = out@;
        out.push((k, x));
        assert(v@.take(i + 1) =~= v@.take(i as int).push(v@[i as int]));
        assert(fields_view(out@) =~= fields_view(before).push((k@, x@)));
        assert(fields_view(v@.take(i + 1)) =~= fields_view(v@.take(i as int)).push((v@[i as int].0@, v@[i as int].1@)));
        i += 1;
    }
    assert(v@.take(i as int) =~= v@);
    out
}

/// The view of a JSON object built from named values.
proof fn lemma_object_view(fields: Vec<(String, JsonValue)>)
    ensures
        JsonValue::Object(fields)@ == JsonView::Object(fields_view(fields@)),
{
    match JsonValue::Object(fields)@ {
        JsonView::Object(a) => {
            assert(a =~= fields_view(fields@));
        },
        _ => {},
    }
}

impl FederationEntityPreparedExecutor {
    /// The variables sent with the `_entities` query: the operation's own
    /// variables, then, under the entities variable, the representations of
    /// the entities to fetch, each with `__typename` set to the entity's
    /// type name after its fields.
    pub fn subgraph_variables(&self, representations: &Vec<Vec<(String, JsonValue)>>, entity_name: &str) -> (r:
        JsonValue)
        ensures
            r@ == subgraph_variables_view(
                fields_view(self.operation.variables@),
                self.operation.entities_variable_name@,
                representations@.map_values(|f: Vec<(String, JsonValue)>| fields_view(f@)),
                entity_name@,
            ),
    {
        let ghost reps = representations@.map_values(|f: Vec<(String, JsonValue)>| fields_view(f@));
        let mut items: Vec<JsonValue> = Vec::new();
        let mut i: usize = 0;
        while i < representations.len()
            invariant
                i <= representations@.len(),
                reps == representations@.map_values(|f: Vec<(String, JsonValue)>| fields_view(f@)),
                items@.len() == i,
                forall|k: int| 0 <= k < i ==> (#[trigger] items@[k])@ == representation_view(reps[k], entity_name@),
            decreases representations.len() - i,
        {
            let mut fields = duplicate_fields(&representations[i]);
            let ghost before = fields@;
            fields.push(typename_field(entity_name));
            assert(fields_view(fields@) =~= fields_view(before).push(("__typename"@, JsonView::String(entity_name@))));
            proof {
                lemma_object_view(fields);
            }
            items.push(JsonValue::Object(fields));
            i += 1;
        }
        let mut variables = duplicate_fields(&self.operation.variables);
        let ghost before = variables@;
        let list = JsonValue::Array(items);
        proof {
            match list@ {
                JsonView::Array(a) => {
                    assert(a =~= Seq::new(reps.len(), |k: int| representation_view(reps[k], entity_name@)));
                },
                _ => {},
            }
        }
        variables.push((self.operation.entities_variable_name.clone(), list));
        assert(fields_view(variables@) =~= fields_view(before).push(
            (self.operation.entities_variable_name@, list@),
        ));
        proof {
            lemma_object_view(variables);
        }
        JsonValue::Object(variables)
    }
}

} // verus!
