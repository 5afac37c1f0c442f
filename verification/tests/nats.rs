use grafbase::json::JsonValue;
use grafbase::nats::{
    AuthConfig, EndpointConfig, NatsAuth,
    decimal_text, DirectiveKind, KeyValueAction, Nats, NatsAction, NatsEvent, NatsOperation, NatsState,
};
use grafbase::sdk::Error;

fn nats() -> Nats {
    Nats { providers: vec!["default".to_string(), "other".to_string()] }
}

fn single_field(name: &str, value: JsonValue) -> JsonValue {
    JsonValue::Object(vec![(name.to_string(), value)])
}

fn finished_values(step: (NatsState, NatsAction)) -> Vec<Result<JsonValue, Error>> {
    assert!(matches!(step.0, NatsState::Finished));
    match step.1 {
        NatsAction::Finish(Ok(out)) => out.into_outputs(),
        other => panic!("unexpected {other:?}"),
    }
}

fn finished_error(step: (NatsState, NatsAction)) -> String {
    assert!(matches!(step.0, NatsState::Finished));
    match step.1 {
        NatsAction::Finish(Err(e)) => {
            assert!(e.extensions.is_empty());
            e.message
        }
        other => panic!("unexpected {other:?}"),
    }
}

fn key_value(action: KeyValueAction, selection: Option<&str>) -> NatsOperation {
    NatsOperation::KeyValue {
        provider: "default".to_string(),
        bucket: "users".to_string(),
        key: "u1".to_string(),
        action,
        body: None,
        selection: selection.map(|s| s.to_string()),
    }
}

#[test]
fn decimal_numbers() {
    assert_eq!(decimal_text(0), "0");
    assert_eq!(decimal_text(7), "7");
    assert_eq!(decimal_text(1024), "1024");
    assert_eq!(decimal_text(u64::MAX), "18446744073709551615");
}

#[test]
fn resolve_field_errors() {
    let e = Nats::resolve_field("natsFoo", None, Err("ignored".to_string())).unwrap_err();
    assert_eq!(e.message, "Invalid directive: natsFoo");
    let e = Nats::resolve_field("natsPublish", Some(DirectiveKind::Publish), Err("missing field `subject`".to_string()))
        .unwrap_err();
    assert_eq!(e.message, "Error deserializing directive arguments: missing field `subject`");
    let op = NatsOperation::Publish { provider: "default".to_string(), subject: "s".to_string(), body: None };
    assert!(matches!(
        Nats::resolve_field("natsPublish", Some(DirectiveKind::Publish), Ok(op)),
        Ok(NatsOperation::Publish { .. })
    ));
}

#[test]
fn unknown_provider() {
    let op = NatsOperation::Request {
        provider: "missing".to_string(),
        subject: "s".to_string(),
        body: None,
        timeout_ms: 100,
        selection: None,
    };
    assert_eq!(finished_error(nats().start(op)), "NATS provider not found: missing");
    assert_eq!(nats().check_subscription_provider("nope").unwrap().message, "NATS provider not found: nope");
    assert!(nats().check_subscription_provider("other").is_none());
}

#[test]
fn publish_reports_success() {
    let op = NatsOperation::Publish { provider: "default".to_string(), subject: "events".to_string(), body: None };
    let (state, action) = nats().start(op);
    match &action {
        NatsAction::Publish { provider, subject, body } => {
            assert_eq!(provider, "default");
            assert_eq!(subject, "events");
            assert!(matches!(body, JsonValue::Null));
        }
        other => panic!("unexpected {other:?}"),
    }
    let out = finished_values(Nats::step(state, NatsEvent::Published(Err("closed".to_string()))));
    assert_eq!(out.len(), 1);
    assert_eq!(format!("{:?}", out[0]), format!("{:?}", Ok::<_, Error>(single_field("success", JsonValue::Bool(false)))));
    let out = finished_values(Nats::step(NatsState::AwaitingPublish, NatsEvent::Published(Ok(()))));
    assert_eq!(format!("{:?}", out[0]), format!("{:?}", Ok::<_, Error>(single_field("success", JsonValue::Bool(true)))));
}

#[test]
fn request_with_selection() {
    let op = NatsOperation::Request {
        provider: "default".to_string(),
        subject: "ask".to_string(),
        body: Some(JsonValue::Bool(true)),
        timeout_ms: 250,
        selection: Some(".items[]".to_string()),
    };
    let (state, action) = nats().start(op);
    assert!(matches!(action, NatsAction::Request { timeout_ms: 250, body: JsonValue::Bool(true), .. }));
    let reply = JsonValue::Array(vec![JsonValue::Number("1".to_string())]);
    let (state, action) = Nats::step(state, NatsEvent::Replied(Ok(reply)));
    match &action {
        NatsAction::Select { selection, .. } => assert_eq!(selection, ".items[]"),
        other => panic!("unexpected {other:?}"),
    }
    let out = finished_values(Nats::step(
        state,
        NatsEvent::Selected(Ok(vec![Ok(JsonValue::Number("1".to_string())), Err("bad index".to_string())])),
    ));
    assert_eq!(out.len(), 2);
    assert!(matches!(&out[0], Ok(JsonValue::Number(n)) if n == "1"));
    match &out[1] {
        Err(e) => assert_eq!(e.message, "Failed to filter with selection: bad index"),
        Ok(_) => panic!("expected an error"),
    }
}

#[test]
fn request_failures() {
    let msg = finished_error(Nats::step(
        NatsState::AwaitingReply { selection: None },
        NatsEvent::Replied(Err("timed out".to_string())),
    ));
    assert_eq!(msg, "Failed to request message: timed out");
    let msg = finished_error(Nats::step(NatsState::AwaitingSelection, NatsEvent::Selected(Err("syntax".to_string()))));
    assert_eq!(msg, "Failed to filter with selection: syntax");
    let out = finished_values(Nats::step(
        NatsState::AwaitingReply { selection: None },
        NatsEvent::Replied(Ok(JsonValue::String("pong".to_string()))),
    ));
    assert!(matches!(&out[0], Ok(JsonValue::String(s)) if s == "pong"));
}

#[test]
fn key_value_create_and_put() {
    let (state, action) = nats().start(key_value(KeyValueAction::Create, None));
    match &action {
        NatsAction::OpenStore { provider, bucket } => {
            assert_eq!(provider, "default");
            assert_eq!(bucket, "users");
        }
        other => panic!("unexpected {other:?}"),
    }
    let (state, action) = Nats::step(state, NatsEvent::StoreOpened(Ok(())));
    assert!(matches!(&action, NatsAction::Create { key, body: JsonValue::Null } if key == "u1"));
    let out = finished_values(Nats::step(state, NatsEvent::Created(Ok(42))));
    assert_eq!(
        format!("{:?}", out[0]),
        format!("{:?}", Ok::<_, Error>(single_field("sequence", JsonValue::Number("42".to_string()))))
    );
    let msg = finished_error(Nats::step(NatsState::AwaitingPut, NatsEvent::Put(Err("wrong last sequence".to_string()))));
    assert_eq!(msg, "Failed to put key-value pair: wrong last sequence");
    let msg = finished_error(Nats::step(NatsState::AwaitingCreate, NatsEvent::Created(Err("exists".to_string()))));
    assert_eq!(msg, "Failed to create key-value pair: exists");
}

#[test]
fn key_value_get_and_delete() {
    let (state, _) = nats().start(key_value(KeyValueAction::Get, Some(".name")));
    let (state, action) = Nats::step(state, NatsEvent::StoreOpened(Ok(())));
    assert!(matches!(&action, NatsAction::Get { key } if key == "u1"));
    let (_, action) = Nats::step(state, NatsEvent::Got(Ok(Some(JsonValue::Null))));
    assert!(matches!(action, NatsAction::Select { .. }));
    let out = finished_values(Nats::step(NatsState::AwaitingGet { selection: None }, NatsEvent::Got(Ok(None))));
    assert_eq!(out.len(), 1);
    assert!(matches!(out[0], Ok(JsonValue::Null)));
    let msg = finished_error(Nats::step(NatsState::AwaitingGet { selection: None }, NatsEvent::Got(Err("io".to_string()))));
    assert_eq!(msg, "Failed to get key-value pair: io");
    let out = finished_values(Nats::step(NatsState::AwaitingDelete, NatsEvent::Deleted(Ok(()))));
    assert_eq!(format!("{:?}", out[0]), format!("{:?}", Ok::<_, Error>(single_field("success", JsonValue::Bool(true)))));
    let msg = finished_error(Nats::step(NatsState::AwaitingDelete, NatsEvent::Deleted(Err("gone".to_string()))));
    assert_eq!(msg, "Failed to delete key-value pair: gone");
    let (state, _) = nats().start(key_value(KeyValueAction::Delete, None));
    let msg = finished_error(Nats::step(state, NatsEvent::StoreOpened(Err("no bucket".to_string()))));
    assert_eq!(msg, "Failed to get key-value store: no bucket");
}

#[test]
fn subscription_error_message() {
    assert_eq!(
        Nats::subscribe_error("events.>", "no responders").message,
        "Failed to subscribe to subject 'events.>': no responders"
    );
}

#[test]
fn endpoints_become_connections() {
    let (n, connections) = Nats::new(vec![
        EndpointConfig { name: "default".to_string(), servers: vec!["nats://a:4222".to_string()], authentication: None },
        EndpointConfig {
            name: "secure".to_string(),
            servers: vec![],
            authentication: Some(AuthConfig::UsernamePassword { username: "u".to_string(), password: "p".to_string() }),
        },
        EndpointConfig {
            name: "token".to_string(),
            servers: vec![],
            authentication: Some(AuthConfig::Token { token: "t".to_string() }),
        },
    ]);
    assert_eq!(n.providers, vec!["default", "secure", "token"]);
    assert_eq!(connections.len(), 3);
    assert_eq!(connections[0].servers, vec!["nats://a:4222"]);
    assert!(connections[0].auth.is_none());
    assert!(matches!(&connections[1].auth, Some(NatsAuth::UsernamePassword((u, p))) if u == "u" && p == "p"));
    assert!(matches!(&connections[2].auth, Some(NatsAuth::Token(t)) if t == "t"));
}
