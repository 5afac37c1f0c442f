//! The decisions of the NATS extension: which NATS operation a field asks
//! for, what is reported when a provider is unknown or an operation fails,
//! and what a field resolves to from what NATS answered. The host performs
//! each operation and reports its outcome back, one step at a time.
use vstd::prelude::*;

use crate::json::{JsonValue, JsonView};
use crate::sdk::{Error, FieldOutput};
use crate::util::{owned, str_eq};

verus! {

/// The directives of the extension.
#[derive(Debug, Clone, Copy, PartialEq, Eq, Structural)]
pub enum DirectiveKind {
    Publish,
    Request,
    KeyValue,
}

/// What a key-value field does with its key.
#[derive(Debug, Clone, Copy, PartialEq, Eq, Structural)]
pub enum KeyValueAction {
    Create,
    Put,
    Get,
    Delete,
}

/// The arguments of a field's directive, read by the host.
#[derive(Debug)]
pub enum NatsOperation {
    Publish { provider: String, subject: String, body: Option<JsonValue> },
    Request {
        provider: String,
        subject: String,
        body: Option<JsonValue>,
        timeout_ms: u64,
        selection: Option<String>,
    },
    KeyValue {
        provider: String,
        bucket: String,
        key: String,
        action: KeyValueAction,
        body: Option<JsonValue>,
        selection: Option<String>,
    },
}

/// Where the resolution of a field stands.
#[derive(Debug)]
pub enum NatsState {
    AwaitingPublish,
    AwaitingReply { selection: Option<String> },
    AwaitingStore { key: String, action: KeyValueAction, body: Option<JsonValue>, selection: Option<String> },
    AwaitingCreate,
    AwaitingPut,
    AwaitingGet { selection: Option<String> },
    AwaitingDelete,
    AwaitingSelection,
    Finished,
}

/// What the host is asked to do next.
#[derive(Debug)]
pub enum NatsAction {
    /// Publish `body` on `subject` (answer `Published`).
    Publish { provider: String, subject: String, body: JsonValue },
    /// Send a request and wait for the reply (answer `Replied`).
    Request { provider: String, subject: String, body: JsonValue, timeout_ms: u64 },
    /// Open the key-value store `bucket` (answer `StoreOpened`).
    OpenStore { provider: String, bucket: String },
    /// Create `key` (answer `Created`).
    Create { key: String, body: JsonValue },
    /// Put `key` (answer `Put`).
    Put { key: String, body: JsonValue },
    /// Get `key` (answer `Got`).
    Get { key: String },
    /// Delete `key` (answer `Deleted`).
    Delete { key: String },
    /// Run the selection on the value (answer `Selected`).
    Select { selection: String, value: JsonValue },
    /// The field is resolved, with this outcome.
    Finish(Result<FieldOutput, Error>),
}

/// What the host reports back; failures come with their text.
#[derive(Debug)]
pub enum NatsEvent {
    Published(Result<(), String>),
    Replied(Result<JsonValue, String>),
    StoreOpened(Result<(), String>),
    Created(Result<u64, String>),
    Put(Result<u64, String>),
    Got(Result<Option<JsonValue>, String>),
    Deleted(Result<(), String>),
    Selected(Result<Vec<Result<JsonValue, String>>, String>),
}

/// The decimal digit `d` (below ten).
pub open spec fn digit(d: nat) -> char {
    if d == 0 {
        '0'
    } else if d == 1 {
        '1'
    } else if d == 2 {
        '2'
    } else if d == 3 {
        '3'
    } else if d == 4 {
        '4'
    } else if d == 5 {
        '5'
    } else if d == 6 {
        '6'
    } else if d == 7 {
        '7'
    } else if d == 8 {
        '8'
    } else {
        '9'
    }
}

/// How `n` is written in decimal.
pub open spec fn decimal(n: nat) -> Seq<char>
    decreases n,
{
    if n < 10 {
        seq![digit(n)]
    } else {
        decimal(n / 10).push(digit(n % 10))
    }
}

fn digit_str(d: u64) -> (r: &'static str)
    requires
        d < 10,
    ensures
        r@ == seq![digit(d as nat)],
{
    proof {
        reveal_strlit("0");
        reveal_strlit("1");
        reveal_strlit("2");
        reveal_strlit("3");
        reveal_strlit("4");
        reveal_strlit("5");
        reveal_strlit("6");
        reveal_strlit("7");
        reveal_strlit("8");
        reveal_strlit("9");
    }
    if d == 0 {
        "0"
    } else if d == 1 {
        "1"
    } else if d == 2 {
        "2"
    } else if d == 3 {
        "3"
    } else if d == 4 {
        "4"
    } else if d == 5 {
        "5"
    } else if d == 6 {
        "6"
    } else if d == 7 {
        "7"
    } else if d == 8 {
        "8"
    } else {
        "9"
    }
}

/// `n` written in decimal.
pub fn decimal_text(n: u64) -> (r: String)
    ensures
        r@ == decimal(n as nat),
    decreases n,
{
    if n < 10 {
        owned(digit_str(n))
    } else {
        let mut s = decimal_text(n / 10);
        s.append(digit_str(n % 10));
        s
    }
}

/// An error with a message and no extensions.
pub open spec fn plain_error(e: Error, message: Seq<char>) -> bool {
    e.message@ == message && e.extensions@.len() == 0
}

fn error(message: String) -> (r: Error)
    ensures
        plain_error(r, message@),
{
    Error { extensions: Vec::new(), message }
}

/// `<prefix><detail>` as an error.
fn error_with(prefix: &str, detail: &str) -> (r: Error)
    ensures
        plain_error(r, prefix@ + detail@),
{
    let mut m = owned(prefix);
    m.append(detail);
    error(m)
}

/// `{"<field>": <value>}`.
pub open spec fn single_field(field: Seq<char>, value: JsonView) -> JsonView {
    JsonView::Object(seq![(field, value)])
}

/// The field outputs `out` are exactly the values `values`, in order.
pub open spec fn outputs_are(out: FieldOutput, values: Seq<JsonView>) -> bool {
    out.outputs_of().len() == values.len() && forall|i: int|
        0 <= i < values.len() ==> ((#[trigger] out.outputs_of()[i]) matches Ok(v) && v@ == values[i])
}

/// The field resolved to exactly the values `values`.
pub open spec fn resolved_to(a: NatsAction, values: Seq<JsonView>) -> bool {
    a matches NatsAction::Finish(Ok(out)) && outputs_are(out, values)
}

/// The field failed with exactly the message `message`.
pub open spec fn failed(a: NatsAction, message: Seq<char>) -> bool {
    a matches NatsAction::Finish(Err(e)) && plain_error(e, message)
}

/// `NATS provider not found: <provider>`.
pub open spec fn provider_not_found_message(provider: Seq<char>) -> Seq<char> {
    "NATS provider not found: "@ + provider
}

/// `Failed to filter with selection: <error>`.
pub open spec fn filter_message(e: Seq<char>) -> Seq<char> {
    "Failed to filter with selection: "@ + e
}

/// The field outputs for the selection's results: each value as a value,
/// each failure as an error with its text.
pub open spec fn selection_outputs(out: FieldOutput, items: Seq<Result<JsonValue, String>>) -> bool {
    out.outputs_of().len() == items.len() && forall|i: int|
        0 <= i < items.len() ==> match (#[trigger] out.outputs_of()[i], items[i]) {
            (Ok(v), Ok(w)) => v@ == w@,
            (Err(e), Err(m)) => plain_error(e, filter_message(m@)),
            _ => false,
        }
}

/// `{"<field>": <value>}`, built.
fn single_field_value(field: &str, value: JsonValue) -> (r: JsonValue)
    ensures
        r@ == single_field(field@, value@),
{
    let ghost vv = value@;
    let r = JsonValue::Object(vec![(owned(field), value)]);
    proof {
        let x = r@;
        match x {
            JsonView::Object(fs) => {
                assert(fs =~= seq![(field@, vv)]);
            },
            _ => {},
        }
    }
    r
}

fn single_output(value: JsonValue) -> (r: FieldOutput)
    ensures
        outputs_are(r, seq![value@]),
{
    let mut out = FieldOutput::new();
    out.push_value(value);
    out
}

fn selected_output(items: Vec<Result<JsonValue, String>>) -> (r: FieldOutput)
    ensures
        selection_outputs(r, items@),
{
    let mut out = FieldOutput::new();
    let ghost all = items@;
    let n = items.len();
    let mut rest = items;
    let mut i: usize = 0;
    while rest.len() > 0
        invariant
            all.len() == n,
            i + rest@.len() == all.len(),
            rest@ == all.skip(i as int),
            selection_outputs(out, all.take(i as int)),
        decreases rest@.len(),
    {
        let ghost before = out.outputs_of();
        let item = rest.remove(0);
        assert(item == all[i as int]);
        match item {
            Ok(v) => out.push_value(v),
            Err(m) => out.push_error(error_with("Failed to filter with selection: ", m.as_str())),
        }
        i += 1;
        assert(rest@ =~= all.skip(i as int));
        assert forall|k: int| 0 <= k < i implies match (
            #[trigger] out.outputs_of()[k],
            all.take(i as int)[k],
        ) {
            (Ok(v), Ok(w)) => v@ == w@,
            (Err(e), Err(m)) => plain_error(e, filter_message(m@)),
            _ => false,
        } by {
            if k < i - 1 {
                assert(out.outputs_of()[k] == before[k]);
                assert(all.take(i as int)[k] == all.take(i - 1)[k]);
            }
        }
    }
    assert(all.take(i as int) =~= all);
    out
}

fn provider_known(providers: &Vec<String>, provider: &str) -> (r: bool)
    ensures
        r == exists|i: int| 0 <= i < providers@.len() && providers@[i]@ == provider@,
{
    let mut i: usize = 0;
    while i < providers.len()
        invariant
            i <= providers@.len(),
            forall|k: int| 0 <= k < i ==> providers@[k]@ != provider@,
        decreases providers.len() - i,
    {
        if str_eq(providers[i].as_str(), provider) {
            return true;
        }
        i += 1;
    }
    false
}

/// A provider of that name is configured.
pub open spec fn has_provider(providers: Seq<String>, provider: Seq<char>) -> bool {
    exists|i: int| 0 <= i < providers.len() && providers[i]@ == provider
}

/// The body sent: the one given, or `null`.
pub open spec fn body_or_null(body: Option<JsonValue>) -> JsonView {
    match body {
        Some(b) => b@,
        None => JsonView::Null,
    }
}

fn body_or_null_value(body: Option<JsonValue>) -> (r: JsonValue)
    ensures
        r@ == body_or_null(body),
{
    match body {
        Some(b) => b,
        None => JsonValue::Null,
    }
}

/// The event answers what the state waits for.
pub open spec fn nats_answers(state: NatsState, event: NatsEvent) -> bool {
    match (state, event) {
        (NatsState::AwaitingPublish, NatsEvent::Published(_)) => true,
        (NatsState::AwaitingReply { .. }, NatsEvent::Replied(_)) => true,
        (NatsState::AwaitingStore { .. }, NatsEvent::StoreOpened(_)) => true,
        (NatsState::AwaitingCreate, NatsEvent::Created(_)) => true,
        (NatsState::AwaitingPut, NatsEvent::Put(_)) => true,
        (NatsState::AwaitingGet { .. }, NatsEvent::Got(_)) => true,
        (NatsState::AwaitingDelete, NatsEvent::Deleted(_)) => true,
        (NatsState::AwaitingSelection, NatsEvent::Selected(_)) => true,
        _ => false,
    }
}

/// The NATS extension's decisions, for the providers it was configured with.
pub struct Nats {
    /// The names of the configured providers.
    pub providers: Vec<String>,
}

impl Nats {
    /// The operation a field asks for: `Invalid directive: <name>` when the
    /// directive is not one of the extension's, `Error deserializing
    /// directive arguments: <error>` when its arguments cannot be read.
    pub fn resolve_field(
        directive_name: &str,
        kind: Option<DirectiveKind>,
        arguments: Result<NatsOperation, String>,
    ) -> (r: Result<NatsOperation, Error>)
        ensures
            match kind {
                None => r matches Err(e) && plain_error(e, "Invalid directive: "@ + directive_name@),
                Some(_) => match arguments {
                    Err(m) => r matches Err(e) && plain_error(e, "Error deserializing directive arguments: "@ + m@),
                    Ok(op) => r == Ok::<NatsOperation, Error>(op),
                },
            },
    {
        match kind {
            None => Err(error_with("Invalid directive: ", directive_name)),
            Some(_) => match arguments {
                Err(m) => Err(error_with("Error deserializing directive arguments: ", m.as_str())),
                Ok(op) => Ok(op),
            },
        }
    }

    /// The first step of an operation: `NATS provider not found:
    /// <provider>` for an unknown provider; else publish or send the request
    /// (with the body given, or `null`), or open the key-value store.
    pub fn start(&self, op: NatsOperation) -> (r: (NatsState, NatsAction))
        ensures
            match op {
                NatsOperation::Publish { provider, subject, body } => if !has_provider(self.providers@, provider@) {
                    r.0 is Finished && failed(r.1, provider_not_found_message(provider@))
                } else {
                    r.0 is AwaitingPublish && (r.1 matches NatsAction::Publish { provider: p, subject: s, body: b }
                        && p == provider && s == subject && b@ == body_or_null(body))
                },
                NatsOperation::Request { provider, subject, body, timeout_ms, selection } => if !has_provider(
                    self.providers@,
                    provider@,
                ) {
                    r.0 is Finished && failed(r.1, provider_not_found_message(provider@))
                } else {
                    r.0 == NatsState::AwaitingReply { selection } && (r.1 matches NatsAction::Request {
                        provider: p,
                        subject: s,
                        body: b,
                        timeout_ms: t,
                    } && p == provider && s == subject && b@ == body_or_null(body) && t == timeout_ms)
                },
                NatsOperation::KeyValue { provider, bucket, key, action, body, selection } => if !has_provider(
                    self.providers@,
                    provider@,
                ) {
                    r.0 is Finished && failed(r.1, provider_not_found_message(provider@))
                } else {
                    r.0 == NatsState::AwaitingStore { key, action, body, selection } && (r.1 matches NatsAction::OpenStore {
                        provider: p,
                        bucket: b,
                    } && p == provider && b == bucket)
                },
            },
    {
        match op {
            NatsOperation::Publish { provider, subject, body } => {
                if !provider_known(&self.providers, provider.as_str()) {
                    return (
                        NatsState::Finished,
                        NatsAction::Finish(Err(error_with("NATS provider not found: ", provider.as_str()))),
                    );
                }
                (NatsState::AwaitingPublish, NatsAction::Publish { provider, subject, body: body_or_null_value(body) })
            },
            NatsOperation::Request { provider, subject, body, timeout_ms, selection } => {
                if !provider_known(&self.providers, provider.as_str()) {
                    return (
                        NatsState::Finished,
                        NatsAction::Finish(Err(error_with("NATS provider not found: ", provider.as_str()))),
                    );
                }
                (
                    NatsState::AwaitingReply { selection },
                    NatsAction::Request { provider, subject, body: body_or_null_value(body), timeout_ms },
                )
            },
            NatsOperation::KeyValue { provider, bucket, key, action, body, selection } => {
                if !provider_known(&self.providers, provider.as_str()) {
                    return (
                        NatsState::Finished,
                        NatsAction::Finish(Err(error_with("NATS provider not found: ", provider.as_str()))),
                    );
                }
                (NatsState::AwaitingStore { key, action, body, selection }, NatsAction::OpenStore { provider, bucket })
            },
        }
    }

    /// The next step, from what the host reports:
    /// - a publication resolves to `{"success": <whether it succeeded>}`;
    /// - a reply resolves to itself, or is filtered by the selection;
    /// - with the store open, the key is created, put (with the body given,
    ///   or `null`), got or deleted;
    /// - a creation or put resolves to `{"sequence": <n>}`, a deletion to
    ///   `{"success": true}`, a missing key to `null`, a value found to
    ///   itself or is filtered by the selection;
    /// - a selection resolves to its results, a failed result as an error;
    /// - each failure ends the field with its own message.
    pub fn step(state: NatsState, event: NatsEvent) -> (r: (NatsState, NatsAction))
        requires
            nats_answers(state, event),
        ensures
            match (state, event) {
                (NatsState::AwaitingPublish, NatsEvent::Published(p)) => r.0 is Finished && resolved_to(
                    r.1,
                    seq![single_field("success"@, JsonView::Bool(p is Ok))],
                ),
                (NatsState::AwaitingReply { selection }, NatsEvent::Replied(reply)) => match reply {
                    Err(m) => r.0 is Finished && failed(r.1, "Failed to request message: "@ + m@),
                    Ok(v) => match selection {
                        None => r.0 is Finished && resolved_to(r.1, seq![v@]),
                        Some(s) => r.0 is AwaitingSelection && r.1 == NatsAction::Select { selection: s, value: v },
                    },
                },
                (NatsState::AwaitingStore { key, action, body, selection }, NatsEvent::StoreOpened(opened)) => match opened {
                    Err(m) => r.0 is Finished && failed(r.1, "Failed to get key-value store: "@ + m@),
                    Ok(()) => match action {
                        KeyValueAction::Create => r.0 is AwaitingCreate && (r.1 matches NatsAction::Create { key: k, body: b }
                            && k == key && b@ == body_or_null(body)),
                        KeyValueAction::Put => r.0 is AwaitingPut && (r.1 matches NatsAction::Put { key: k, body: b } && k
                            == key && b@ == body_or_null(body)),
                        KeyValueAction::Get => r.0 == NatsState::AwaitingGet { selection } && r.1 == NatsAction::Get {
                            key,
                        },
                        KeyValueAction::Delete => r.0 is AwaitingDelete && r.1 == NatsAction::Delete { key },
                    },
                },
                (NatsState::AwaitingCreate, NatsEvent::Created(c)) => r.0 is Finished && match c {
                    Err(m) => failed(r.1, "Failed to create key-value pair: "@ + m@),
                    Ok(n) => resolved_to(r.1, seq![single_field("sequence"@, JsonView::Number(decimal(n as nat)))]),
                },
                (NatsState::AwaitingPut, NatsEvent::Put(c)) => r.0 is Finished && match c {
                    Err(m) => failed(r.1, "Failed to put key-value pair: "@ + m@),
                    Ok(n) => resolved_to(r.1, seq![single_field("sequence"@, JsonView::Number(decimal(n as nat)))]),
                },
                (NatsState::AwaitingGet { selection }, NatsEvent::Got(g)) => match g {
                    Err(m) => r.0 is Finished && failed(r.1, "Failed to get key-value pair: "@ + m@),
                    Ok(None) => r.0 is Finished && resolved_to(r.1, seq![JsonView::Null]),
                    Ok(Some(v)) => match selection {
                        None => r.0 is Finished && resolved_to(r.1, seq![v@]),
                        Some(s) => r.0 is AwaitingSelection && r.1 == NatsAction::Select { selection: s, value: v },
                    },
                },
                (NatsState::AwaitingDelete, NatsEvent::Deleted(d)) => r.0 is Finished && match d {
                    Err(m) => failed(r.1, "Failed to delete key-value pair: "@ + m@),
                    Ok(()) => resolved_to(r.1, seq![single_field("success"@, JsonView::Bool(true))]),
                },
                (NatsState::AwaitingSelection, NatsEvent::Selected(s)) => r.0 is Finished && match s {
                    Err(m) => failed(r.1, filter_message(m@)),
                    Ok(items) => r.1 matches NatsAction::Finish(Ok(out)) && selection_outputs(out, items@),
                },
                _ => false,
            },
    {
        match (state, event) {
            (NatsState::AwaitingPublish, NatsEvent::Published(p)) => {
                let success = p.is_ok();
                let v = single_field_value("success", JsonValue::Bool(success));
                (NatsState::Finished, NatsAction::Finish(Ok(single_output(v))))
            },
            (NatsState::AwaitingReply { selection }, NatsEvent::Replied(reply)) => match reply {
                Err(m) => (
                    NatsState::Finished,
                    NatsAction::Finish(Err(error_with("Failed to request message: ", m.as_str()))),
                ),
                Ok(v) => match selection {
                    None => (NatsState::Finished, NatsAction::Finish(Ok(single_output(v)))),
                    Some(s) => (NatsState::AwaitingSelection, NatsAction::Select { selection: s, value: v }),
                },
            },
            (NatsState::AwaitingStore { key, action, body, selection }, NatsEvent::StoreOpened(opened)) => match opened {
                Err(m) => (
                    NatsState::Finished,
                    NatsAction::Finish(Err(error_with("Failed to get key-value store: ", m.as_str()))),
                ),
                Ok(()) => match action {
                    KeyValueAction::Create => (
                        NatsState::AwaitingCreate,
                        NatsAction::Create { key, body: body_or_null_value(body) },
                    ),
                    KeyValueAction::Put => (NatsState::AwaitingPut, NatsAction::Put { key, body: body_or_null_value(body) }),
                    KeyValueAction::Get => (NatsState::AwaitingGet { selection }, NatsAction::Get { key }),
                    KeyValueAction::Delete => (NatsState::AwaitingDelete, NatsAction::Delete { key }),
                },
            },
            (NatsState::AwaitingCreate, NatsEvent::Created(c)) => match c {
                Err(m) => (
                    NatsState::Finished,
                    NatsAction::Finish(Err(error_with("Failed to create key-value pair: ", m.as_str()))),
                ),
                Ok(n) => (NatsState::Finished, NatsAction::Finish(Ok(single_output(sequence_result(n))))),
            },
            (NatsState::AwaitingPut, NatsEvent::Put(c)) => match c {
                Err(m) => (
                    NatsState::Finished,
                    NatsAction::Finish(Err(error_with("Failed to put key-value pair: ", m.as_str()))),
                ),
                Ok(n) => (NatsState::Finished, NatsAction::Finish(Ok(single_output(sequence_result(n))))),
            },
            (NatsState::AwaitingGet { selection }, NatsEvent::Got(g)) => match g {
                Err(m) => (
                    NatsState::Finished,
                    NatsAction::Finish(Err(error_with("Failed to get key-value pair: ", m.as_str()))),
                ),
                Ok(None) => (NatsState::Finished, NatsAction::Finish(Ok(single_output(JsonValue::Null)))),
                Ok(Some(v)) => match selection {
                    None => (NatsState::Finished, NatsAction::Finish(Ok(single_output(v)))),
                    Some(s) => (NatsState::AwaitingSelection, NatsAction::Select { selection: s, value: v }),
                },
            },
            (NatsState::AwaitingDelete, NatsEvent::Deleted(d)) => match d {
                Err(m) => (
                    NatsState::Finished,
                    NatsAction::Finish(Err(error_with("Failed to delete key-value pair: ", m.as_str()))),
                ),
                Ok(()) => {
                    let v = single_field_value("success", JsonValue::Bool(true));
                    (NatsState::Finished, NatsAction::Finish(Ok(single_output(v))))
                },
            },
            (NatsState::AwaitingSelection, NatsEvent::Selected(s)) => match s {
                Err(m) => (
                    NatsState::Finished,
                    NatsAction::Finish(Err(error_with("Failed to filter with selection: ", m.as_str()))),
                ),
                Ok(items) => (NatsState::Finished, NatsAction::Finish(Ok(selected_output(items)))),
            },
            _ => {
                proof {
                    assert(false);
                }
                (NatsState::Finished, NatsAction::Finish(Ok(FieldOutput::new())))
            },
        }
    }

    /// The error for a subscription to an unknown provider, if the provider
    /// is unknown.
    pub fn check_subscription_provider(&self, provider: &str) -> (r: Option<Error>)
        ensures
            match r {
                None => has_provider(self.providers@, provider@),
                Some(e) => !has_provider(self.providers@, provider@) && plain_error(
                    e,
                    provider_not_found_message(provider@),
                ),
            },
    {
        if provider_known(&self.providers, provider) {
            None
        } else {
            Some(error_with("NATS provider not found: ", provider))
        }
    }

    /// `Failed to subscribe to subject '<subject>': <error>`.
    pub fn subscribe_error(subject: &str, err: &str) -> (r: Error)
        ensures
            plain_error(r, "Failed to subscribe to subject '"@ + subject@ + "': "@ + err@),
    {
        let mut m = owned("Failed to subscribe to subject '");
        m.append(subject);
        m.append("': ");
        m.append(err);
        error(m)
    }
}

/// How an endpoint authenticates, as configured.
#[derive(Debug)]
pub enum AuthConfig {
    UsernamePassword { username: String, password: String },
    Token { token: String },
    Credentials { credentials: String },
}

/// How the host authenticates a connection.
#[derive(Debug)]
pub enum NatsAuth {
    UsernamePassword((String, String)),
    Token(String),
    Credentials(String),
}

/// A configured endpoint: its name, servers and authentication.
#[derive(Debug)]
pub struct EndpointConfig {
    pub name: String,
    pub servers: Vec<String>,
    pub authentication: Option<AuthConfig>,
}

/// What the host is asked to connect to for an endpoint.
#[derive(Debug)]
pub struct Connection {
    pub name: String,
    pub servers: Vec<String>,
    pub auth: Option<NatsAuth>,
}

impl Nats {
    /// The connections to open for the configured endpoints, in order, each
    /// with the authentication configured for it; the extension then knows
    /// the endpoints' names as providers.
    pub fn new(endpoints: Vec<EndpointConfig>) -> (r: (Nats, Vec<Connection>))
        ensures
            r.1@.len() == endpoints@.len(),
            r.0.providers@.len() == endpoints@.len(),
            forall|i: int|
                0 <= i < endpoints@.len() ==> {
                    let e = endpoints@[i];
                    let c = #[trigger] r.1@[i];
                    &&& c.name == e.name
                    &&& c.servers == e.servers
                    &&& r.0.providers@[i]@ == e.name@
                    &&& match (e.authentication, c.auth) {
                        (None, None) => true,
                        (Some(AuthConfig::UsernamePassword { username, password }), Some(NatsAuth::UsernamePassword((u, p)))) => u
                            == username && p == password,
                        (Some(AuthConfig::Token { token }), Some(NatsAuth::Token(t))) => t == token,
                        (Some(AuthConfig::Credentials { credentials }), Some(NatsAuth::Credentials(c))) => c == credentials,
                        _ => false,
                    }
                },
    {
        let ghost all = endpoints@;
        let n = endpoints.len();
        let mut rest = endpoints;
        let mut providers: Vec<String> = Vec::new();
        let mut connections: Vec<Connection> = Vec::new();
        let mut i: usize = 0;
        while rest.len() > 0
            invariant
                all.len() == n,
                i + rest@.len() == n,
                rest@ == all.skip(i as int),
                connections@.len() == i,
                providers@.len() == i,
                forall|k: int|
                    0 <= k < i ==> {
                        let e = all[k];
                        let c = #[trigger] connections@[k];
                        &&& c.name == e.name
                        &&& c.servers == e.servers
                        &&& providers@[k]@ == e.name@
                        &&& match (e.authentication, c.auth) {
                            (None, None) => true,
                            (
                                Some(AuthConfig::UsernamePassword { username, password }),
                                Some(NatsAuth::UsernamePassword((u, p))),
                            ) => u == username && p == password,
                            (Some(AuthConfig::Token { token }), Some(NatsAuth::Token(t))) => t == token,
                            (Some(AuthConfig::Credentials { credentials }), Some(NatsAuth::Credentials(c))) => c
                                == credentials,
                            _ => false,
                        }
                    },
            decreases rest@.len(),
        {
            let e = rest.remove(0);
            assert(e == all[i as int]);
            let auth = match e.authentication {
                Some(AuthConfig::UsernamePassword { username, password }) => Some(
                    NatsAuth::UsernamePassword((username, password)),
                ),
                Some(AuthConfig::Token { token }) => Some(NatsAuth::Token(token)),
                Some(AuthConfig::Credentials { credentials }) => Some(NatsAuth::Credentials(credentials)),
                None => None,
            };
            providers.push(e.name.clone());
            connections.push(Connection { name: e.name, servers: e.servers, auth });
            i += 1;
            assert(rest@ =~= all.skip(i as int));
        }
        (Nats { providers }, connections)
    }
}

/// `{"sequence": <n>}`.
fn sequence_result(n: u64) -> (r: JsonValue)
    ensures
        r@ == single_field("sequence"@, JsonView::Number(decimal(n as nat))),
{
    single_field_value("sequence", JsonValue::Number(decimal_text(n)))
}

} // verus!
