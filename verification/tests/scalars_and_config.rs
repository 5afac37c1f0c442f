use grafbase::config::{
    config_parser_script, detect_udf, is_fresh, node_args, registry_mtime, FileTime, ModuleType, UdfKind,
    ESM_COMPILER_OPTIONS,
};
use grafbase::date_scalar::{Date, DateScalar, InputValueError};
use grafbase::gql_types::ConstValue;
use grafbase::json::JsonValue;

fn obj(fields: Vec<(&str, JsonValue)>) -> JsonValue {
    JsonValue::Object(fields.into_iter().map(|(k, v)| (k.to_string(), v)).collect())
}

#[test]
fn date_parse_value() {
    let d = DateScalar::parse_value(JsonValue::String("2007-12-03".to_string())).unwrap();
    assert_eq!(d, Date { year: 2007, month: 12, day: 3 });
    assert!(DateScalar::parse_value(JsonValue::String("2007-13-03".to_string())).is_err());
    let e = DateScalar::parse_value(JsonValue::Number("12".to_string())).unwrap_err();
    assert_eq!(e.message, "invalid type: integer `12`, expected a string");
    let e = DateScalar::parse_value(JsonValue::Number("-1.5".to_string())).unwrap_err();
    assert_eq!(e.message, "invalid type: floating point `-1.5`, expected a string");
    let e = DateScalar::parse_value(JsonValue::Array(vec![])).unwrap_err();
    assert_eq!(e.message, "invalid type: sequence, expected a string");
    let e = DateScalar::parse_value(JsonValue::Bool(true)).unwrap_err();
    assert_eq!(e.message, "invalid type: boolean `true`, expected a string");
    let e = DateScalar::parse_value(JsonValue::Null).unwrap_err();
    assert_eq!(e.message, "invalid type: null, expected a string");
}

#[test]
fn date_metadata() {
    assert_eq!(DateScalar::name(), Some("Date"));
    assert_eq!(DateScalar::specified_by(), Some("https://datatracker.ietf.org/doc/html/rfc3339#appendix-A"));
    assert!(DateScalar::description().unwrap().contains("2007-12-03"));
}

#[test]
fn date_is_valid() {
    assert!(DateScalar::is_valid(&ConstValue::String("2020-02-29".to_string())));
    assert!(!DateScalar::is_valid(&ConstValue::String("2021-02-29".to_string())));
    assert!(!DateScalar::is_valid(&ConstValue::String("03/12/2007".to_string())));
    assert!(!DateScalar::is_valid(&ConstValue::Number("20200229".to_string())));
}

#[test]
fn date_to_value() {
    match DateScalar::to_value(JsonValue::String("1999-01-31".to_string())).unwrap() {
        ConstValue::String(s) => assert_eq!(s, "1999-01-31"),
        _ => panic!("expected a string"),
    }
    let e = DateScalar::to_value(JsonValue::String("1999-01-32".to_string())).unwrap_err();
    assert_eq!(e.message, "Data violation: Cannot coerce the initial value to a Date");
    let e = DateScalar::to_value(JsonValue::Null).unwrap_err();
    assert_eq!(e.message, "Data violation: Cannot coerce the initial value to a Date");
}

#[test]
fn date_parse_input() {
    match DateScalar::parse(ConstValue::String("2024-06-01".to_string())).unwrap() {
        JsonValue::String(s) => assert_eq!(s, "2024-06-01"),
        _ => panic!("expected a string"),
    }
    let e = DateScalar::parse(ConstValue::Boolean(false)).unwrap_err();
    assert_eq!(e.message, "Failed to parse \"Date\": Cannot parse into a Date");
    let e = DateScalar::parse(ConstValue::String("not a date".to_string())).unwrap_err();
    assert_eq!(e.message, "Failed to parse \"Date\": Cannot parse into a Date");
    assert_eq!(InputValueError::ty_custom("Int", "too big").message, "Failed to parse \"Int\": too big");
}

#[test]
fn module_type_from_package_json() {
    let esm = obj(vec![("name", JsonValue::String("app".to_string())), ("type", JsonValue::String("module".to_string()))]);
    assert_eq!(ModuleType::from_package_json(&esm), Some(ModuleType::Esm));
    let cjs = obj(vec![("type", JsonValue::String("commonjs".to_string()))]);
    assert_eq!(ModuleType::from_package_json(&cjs), Some(ModuleType::CommonJS));
    let none = obj(vec![("name", JsonValue::String("app".to_string()))]);
    assert_eq!(ModuleType::from_package_json(&none), None);
    let not_string = obj(vec![("type", JsonValue::Number("1".to_string()))]);
    assert_eq!(ModuleType::from_package_json(&not_string), None);
    let first_wins = obj(vec![
        ("type", JsonValue::String("module".to_string())),
        ("type", JsonValue::String("commonjs".to_string())),
    ]);
    assert_eq!(ModuleType::from_package_json(&first_wins), Some(ModuleType::Esm));
    assert_eq!(ModuleType::default(), ModuleType::CommonJS);
}

#[test]
fn udf_freshness() {
    let t = |secs, nanos| Some(FileTime { secs, nanos });
    assert!(is_fresh(t(10, 0), t(10, 1)));
    assert!(is_fresh(t(10, 5), t(11, 0)));
    assert!(!is_fresh(t(10, 5), t(10, 5)));
    assert!(!is_fresh(t(11, 0), t(10, 999)));
    assert!(!is_fresh(None, t(10, 0)));
    assert!(!is_fresh(t(10, 0), None));
    let udf = detect_udf(UdfKind::Resolver, "hello".to_string(), t(1, 0), t(2, 0));
    assert_eq!(udf.udf_name, "hello");
    assert_eq!(udf.udf_kind, UdfKind::Resolver);
    assert!(udf.fresh);
}

#[test]
fn registry_mtime_from_millis() {
    assert_eq!(registry_mtime(12_345), FileTime { secs: 12, nanos: 345_000_000 });
    assert_eq!(registry_mtime(0), FileTime { secs: 0, nanos: 0 });
}

#[test]
fn config_parser_invocation() {
    assert_eq!(config_parser_script(ModuleType::CommonJS, "cjs", "esm"), "cjs");
    assert_eq!(config_parser_script(ModuleType::Esm, "cjs", "esm"), "esm");
    assert_eq!(
        node_args(ModuleType::CommonJS, "ts-node", "parser.ts", "grafbase.config.ts", "out.graphql"),
        vec!["ts-node", "parser.ts", "grafbase.config.ts", "out.graphql"]
    );
    assert_eq!(
        node_args(ModuleType::Esm, "ts-node", "parser.mts", "grafbase.config.ts", "out.graphql"),
        vec![
            "ts-node",
            "--compilerOptions",
            ESM_COMPILER_OPTIONS,
            "--esm",
            "parser.mts",
            "grafbase.config.ts",
            "out.graphql"
        ]
    );
}

#[test]
fn date_requires_rfc3339_full_date_shape() {
    for lenient in ["2007-1-3", " 2007-12-03", "2007-12-3", "207-12-03", "+2007-12-03", "2007-12-03 "] {
        assert!(!DateScalar::is_valid(&ConstValue::String(lenient.to_string())), "{lenient}");
        assert!(DateScalar::to_value(JsonValue::String(lenient.to_string())).is_err(), "{lenient}");
        assert!(DateScalar::parse(ConstValue::String(lenient.to_string())).is_err(), "{lenient}");
    }
    assert!(DateScalar::is_valid(&ConstValue::String("2007-12-03".to_string())));
    assert!(DateScalar::to_value(JsonValue::String("2007-12-03".to_string())).is_ok());
    assert!(DateScalar::parse(ConstValue::String("2007-12-03".to_string())).is_ok());
}
