use grafbase::builder::{
    BuildContext, ConfigHeaderRule, ConfigNameOrPattern, HeaderRuleId, HeaderRuleRecord, Interner, NameOrPatternId,
    RegexId, SchemaConfig, DEFAULT_GATEWAY_TIMEOUT_MS,
};
use grafbase::config::{ts_config_outcome, ConfigError, UdfKind};
use grafbase::reporter::{
    server_outcome, LogEventType, LogLevel, NestedEvent, Report, Reporter, ServerMessage, StartError,
};
use grafbase::schema::StringId;

fn strings(items: &[&str]) -> Vec<String> {
    items.iter().map(|s| s.to_string()).collect()
}

#[test]
fn interner_keeps_each_string_once() {
    let mut i = Interner::from_vec(strings(&["a", "b"]));
    assert_eq!(i.get_or_new("b"), 1);
    assert_eq!(i.get_or_new("c"), 2);
    assert_eq!(i.get_or_new("c"), 2);
    assert_eq!(i.get_or_new("a"), 0);
    assert_eq!(i.len(), 3);
    assert_eq!(i.into_vec(), strings(&["a", "b", "c"]));
}

#[test]
fn header_rules_are_interned() {
    let config_strings = strings(&["x-forwarded-for", "authorization", "x-auth", "secret", "none"]);
    let rules = vec![
        ConfigHeaderRule::Forward { name: ConfigNameOrPattern::Name(1), default: Some(4), rename: Some(2) },
        ConfigHeaderRule::Insert { name: 2, value: 3 },
        ConfigHeaderRule::Remove { name: ConfigNameOrPattern::Pattern("^x-.*$".to_string()) },
        ConfigHeaderRule::Forward { name: ConfigNameOrPattern::Pattern("^x-.*$".to_string()), default: None, rename: None },
        ConfigHeaderRule::RenameDuplicate { name: 0, default: None, rename: 1 },
    ];
    let mut ctx = BuildContext::new(strings(&["Query", "authorization"]));
    let records = ctx.header_rules(&config_strings, &rules);
    assert_eq!(
        records,
        vec![
            HeaderRuleRecord::Forward {
                name_id: NameOrPatternId::Name(StringId(1)),
                default_id: Some(StringId(2)),
                rename_id: Some(StringId(3)),
            },
            HeaderRuleRecord::Insert { name_id: StringId(3), value_id: StringId(4) },
            HeaderRuleRecord::Remove { name_id: NameOrPatternId::Pattern(RegexId(0)) },
            HeaderRuleRecord::Forward { name_id: NameOrPatternId::Pattern(RegexId(0)), default_id: None, rename_id: None },
            HeaderRuleRecord::RenameDuplicate { name_id: StringId(5), default_id: None, rename_id: StringId(1) },
        ]
    );
    assert_eq!(
        ctx.strings.into_vec(),
        strings(&["Query", "authorization", "none", "x-auth", "secret", "x-forwarded-for"])
    );
    assert_eq!(ctx.regexps.into_vec(), strings(&["^x-.*$"]));
}

#[test]
fn finalize_settings() {
    let config = SchemaConfig {
        strings: strings(&["a"]),
        header_rules: vec![ConfigHeaderRule::Insert { name: 0, value: 0 }],
        default_header_rules: vec![0, 0],
        timeout_ms: None,
        disable_introspection: true,
        retry: Some(3u32),
        auth: "auth",
        operation_limits: (10u16, 20u16),
    };
    let schema = BuildContext::new(vec![]).finalize(vec!["subgraph"], 7u8, config, vec![1u8, 2]);
    assert_eq!(schema.subgraphs, vec!["subgraph"]);
    assert_eq!(schema.graph, 7);
    assert_eq!(schema.version, vec![1, 2]);
    assert!(schema.urls.is_empty());
    assert_eq!(schema.settings.retry, Some(3));
    assert_eq!(schema.settings.auth_config, "auth");
    assert_eq!(schema.settings.operation_limits, (10, 20));
    assert_eq!(schema.strings, strings(&["a"]));
    assert!(schema.regexps.is_empty());
    assert_eq!(schema.header_rules, vec![HeaderRuleRecord::Insert { name_id: StringId(0), value_id: StringId(0) }]);
    assert_eq!(schema.settings.timeout_ms, DEFAULT_GATEWAY_TIMEOUT_MS);
    assert_eq!(schema.settings.timeout_ms, 30_000);
    assert_eq!(schema.settings.default_header_rules, vec![HeaderRuleId(0), HeaderRuleId(0)]);
    assert!(schema.settings.disable_introspection);
    let config = SchemaConfig {
        strings: vec![],
        header_rules: vec![],
        default_header_rules: vec![],
        timeout_ms: Some(5_000),
        disable_introspection: false,
        retry: None::<u32>,
        auth: (),
        operation_limits: (),
    };
    assert_eq!(BuildContext::new(vec![]).finalize((), (), config, ()).settings.timeout_ms, 5_000);
}

fn udf_log(message: &str) -> NestedEvent {
    NestedEvent::UdfMessage {
        udf_kind: UdfKind::Resolver,
        udf_name: "hello".to_string(),
        level: LogLevel::Info,
        message: message.to_string(),
    }
}

fn nested(request_id: &str, message: &str) -> ServerMessage {
    ServerMessage::RequestScopedMessage {
        event_type: LogEventType::NestedEvent(udf_log(message)),
        request_id: request_id.to_string(),
    }
}

fn completed(request_id: &str) -> ServerMessage {
    ServerMessage::RequestScopedMessage {
        event_type: LogEventType::RequestCompleted {
            name: Some("op".to_string()),
            duration_ms: 12,
            request_completed_type: "success".to_string(),
        },
        request_id: request_id.to_string(),
    }
}

fn messages(report: Option<Report>) -> Vec<String> {
    match report {
        Some(Report::OperationLog { nested_events, duration_ms, .. }) => {
            assert_eq!(duration_ms, 12);
            nested_events
                .into_iter()
                .map(|e| match e {
                    NestedEvent::UdfMessage { message, .. } => message,
                    NestedEvent::NestedRequest { url, .. } => url,
                })
                .collect()
        }
        other => panic!("unexpected {other:?}"),
    }
}

#[test]
fn reporter_groups_nested_events() {
    let mut r = Reporter::new();
    assert!(r.handle(nested("r1", "one"), 0).is_none());
    assert!(r.handle(nested("r2", "other"), 10).is_none());
    assert!(r.handle(nested("r1", "two"), 20).is_none());
    assert_eq!(messages(r.handle(completed("r1"), 30)), vec!["one", "two"]);
    // The group was dropped with the report.
    assert!(messages(r.handle(completed("r1"), 40)).is_empty());
    assert_eq!(messages(r.handle(completed("r2"), 50)), vec!["other"]);
}

#[test]
fn reporter_drops_stale_groups() {
    let mut r = Reporter::new();
    r.handle(nested("old", "a"), 1_000);
    r.handle(nested("new", "b"), 50_000);
    // 61 001 ms after the first group was opened it is dropped; the second is kept.
    r.handle(ServerMessage::Reload(vec![]), 61_001);
    assert!(messages(r.handle(completed("old"), 61_002)).is_empty());
    assert_eq!(messages(r.handle(completed("new"), 61_003)), vec!["b"]);
    // Exactly a minute is not too long.
    r.handle(nested("edge", "c"), 100_000);
    r.handle(ServerMessage::Reload(vec![]), 160_000);
    assert_eq!(messages(r.handle(completed("edge"), 160_000)), vec!["c"]);
}

#[test]
fn reporter_keeps_at_most_1024_requests() {
    let mut r = Reporter::new();
    for i in 0..1025 {
        r.handle(nested(&format!("r{i}"), "x"), 0);
    }
    // The least recently used request was evicted.
    assert!(messages(r.handle(completed("r0"), 0)).is_empty());
    assert_eq!(messages(r.handle(completed("r1"), 0)), vec!["x"]);
    assert_eq!(messages(r.handle(completed("r1024"), 0)), vec!["x"]);
}

#[test]
fn reporter_other_messages() {
    let mut r = Reporter::new();
    assert!(matches!(r.handle(ServerMessage::Ready(4000), 0), Some(Report::StartProdServer { port: 4000 })));
    assert!(matches!(
        r.handle(ServerMessage::StartUdfBuild { udf_kind: UdfKind::Authorizer, udf_name: "auth".to_string() }, 0),
        Some(Report::StartUdfBuild { udf_kind: UdfKind::Authorizer, .. })
    ));
    assert!(matches!(
        r.handle(
            ServerMessage::CompleteUdfBuild { udf_kind: UdfKind::Resolver, udf_name: "r".to_string(), duration_ms: 9 },
            0
        ),
        Some(Report::CompleteUdfBuild { duration_ms: 9, .. })
    ));
    match r.handle(ServerMessage::CompilationError("boom".to_string()), 0) {
        Some(Report::CompilationError(e)) => assert_eq!(e, "boom"),
        other => panic!("unexpected {other:?}"),
    }
}

#[test]
fn ts_config_outcomes() {
    assert_eq!(ts_config_outcome(true, "", Some("/p/schema.graphql")).unwrap(), "/p/schema.graphql");
    assert!(matches!(ts_config_outcome(true, "", None), Err(ConfigError::ProjectPath)));
    match ts_config_outcome(false, "SyntaxError", Some("/p")) {
        Err(ConfigError::LoadTsConfig(m)) => assert_eq!(m, "SyntaxError"),
        other => panic!("unexpected {other:?}"),
    }
}

#[test]
fn server_outcome_cases() {
    assert!(server_outcome::<String>(Ok(Ok(()))).is_ok());
    match server_outcome(Ok(Err(7u8))) {
        Err(StartError::ServerError(e)) => assert_eq!(e, 7),
        other => panic!("unexpected {other:?}"),
    }
    match server_outcome::<u8>(Err(Some("boom".to_string()))) {
        Err(StartError::ServerPanic(m)) => assert_eq!(m, "boom"),
        other => panic!("unexpected {other:?}"),
    }
    match server_outcome::<u8>(Err(None)) {
        Err(StartError::ServerPanic(m)) => assert_eq!(m, "unknown error"),
        other => panic!("unexpected {other:?}"),
    }
}
