use grafbase::json::JsonValue;
use grafbase::response_view::{
    ParentEntity, ResponseData, ResponseObject, ResponseObjectView, ResponseObjectViewWithExtraFields, ResponseValue,
    ResponseValueView, Selection,
};
use grafbase::schema::{ObjectDefinitionId, StringId};

fn render(v: &JsonValue) -> String {
    match v {
        JsonValue::Null => "null".to_string(),
        JsonValue::Bool(b) => b.to_string(),
        JsonValue::Number(n) => n.clone(),
        JsonValue::String(s) => format!("{s:?}"),
        JsonValue::Array(items) => format!("[{}]", items.iter().map(render).collect::<Vec<_>>().join(",")),
        JsonValue::Object(fields) => format!(
            "{{{}}}",
            fields.iter().map(|(k, v)| format!("{k:?}:{}", render(v))).collect::<Vec<_>>().join(",")
        ),
    }
}

fn selection(id: u32, key: &str, parent: ParentEntity, subselection: Vec<Selection>) -> Selection {
    Selection {
        id,
        key: key.to_string(),
        field_name: key.to_string(),
        parent_name: "Node".to_string(),
        parent,
        subselection,
    }
}

fn node_parent() -> ParentEntity {
    ParentEntity::Interface { possible_type_ids: vec![ObjectDefinitionId(0), ObjectDefinitionId(2)] }
}

/// `{ me { id name tags friends { id } } }`
fn data() -> ResponseData {
    ResponseData {
        values: vec![ResponseValue::String { value: "hidden".to_string() }],
        lists: vec![
            vec![ResponseValue::StringId { id: StringId(0) }, ResponseValue::Inaccessible { id: 0 }],
            vec![ResponseValue::Object { id: 1 }],
        ],
        objects: vec![
            ResponseObject {
                definition_id: Some(ObjectDefinitionId(0)),
                fields: vec![
                    (1, ResponseValue::BigInt { value: -12 }),
                    (2, ResponseValue::Float { text: "1.5".to_string() }),
                    (3, ResponseValue::List { id: 0 }),
                    (4, ResponseValue::List { id: 1 }),
                ],
            },
            ResponseObject { definition_id: Some(ObjectDefinitionId(1)), fields: vec![(1, ResponseValue::Int { value: 7 })] },
        ],
        maps: vec![vec![
            ("a".to_string(), ResponseValue::U64 { value: 3 }),
            ("b".to_string(), ResponseValue::Boolean { value: false }),
        ]],
    }
}

fn me_selection() -> Vec<Selection> {
    vec![
        selection(1, "id", node_parent(), vec![]),
        selection(2, "score", node_parent(), vec![]),
        selection(3, "tags", node_parent(), vec![]),
        selection(4, "friends", node_parent(), vec![selection(1, "id", node_parent(), vec![])]),
    ]
}

#[test]
fn value_view_writes_nested_values() {
    let d = data();
    let strings = vec!["admin".to_string()];
    let sel = me_selection();
    let value = ResponseValue::Object { id: 0 };
    let view = ResponseValueView { data: &d, strings: &strings, value: &value, selection_set: &sel };
    let json = view.serialize().unwrap();
    assert_eq!(render(&json), "{\"id\":-12,\"score\":1.5,\"tags\":[\"admin\",\"hidden\"],\"friends\":[{\"id\":7}]}");
}

#[test]
fn value_view_scalars_and_maps() {
    let d = data();
    let strings: Vec<String> = vec![];
    let sel: Vec<Selection> = vec![];
    let cases = [
        (ResponseValue::Null, "null"),
        (ResponseValue::Int { value: i32::MIN }, "-2147483648"),
        (ResponseValue::BigInt { value: i64::MIN }, "-9223372036854775808"),
        (ResponseValue::U64 { value: 18 }, "18"),
        (ResponseValue::StringMap { id: 0 }, "{\"a\":3,\"b\":false}"),
    ];
    for (value, expected) in cases {
        let view = ResponseValueView { data: &d, strings: &strings, value: &value, selection_set: &sel };
        assert_eq!(render(&view.serialize().unwrap()), expected);
    }
    let value = ResponseValue::Unexpected;
    let view = ResponseValueView { data: &d, strings: &strings, value: &value, selection_set: &sel };
    assert_eq!(view.serialize().unwrap_err(), "Unexpected value");
}

#[test]
fn object_view_skips_fields_of_other_types() {
    let d = data();
    let strings: Vec<String> = vec![];
    // Field 9 belongs to an interface that object 1 does not implement.
    let sel = vec![
        selection(9, "extra", node_parent(), vec![]),
        selection(1, "id", ParentEntity::Object { id: ObjectDefinitionId(1) }, vec![]),
    ];
    let view = ResponseObjectView { data: &d, strings: &strings, response_object: &d.objects[1], selection_set: &sel };
    assert_eq!(render(&view.serialize().unwrap()), "{\"id\":7}");
}

#[test]
fn object_view_reports_missing_fields() {
    let d = data();
    let strings: Vec<String> = vec![];
    let sel = vec![selection(9, "email", node_parent(), vec![])];
    let view = ResponseObjectView { data: &d, strings: &strings, response_object: &d.objects[0], selection_set: &sel };
    assert_eq!(view.serialize().unwrap_err(), "Could not retrieve field Node.email");
    let untyped = ResponseObject { definition_id: None, fields: vec![] };
    let view = ResponseObjectView { data: &d, strings: &strings, response_object: &untyped, selection_set: &sel };
    assert_eq!(view.serialize().unwrap_err(), "Could not retrieve field Node.email");
}

#[test]
fn object_view_with_extra_fields() {
    let d = data();
    let strings: Vec<String> = vec![];
    let extra = vec![("__typename".to_string(), JsonValue::String("User".to_string()))];
    let sel = vec![selection(1, "id", ParentEntity::Object { id: ObjectDefinitionId(1) }, vec![])];
    let view = ResponseObjectViewWithExtraFields {
        data: &d,
        strings: &strings,
        response_object: &d.objects[1],
        selection_set: &sel,
        extra_constant_fields: &extra,
    };
    assert_eq!(render(&view.serialize().unwrap()), "{\"__typename\":\"User\",\"id\":7}");
    let sel = vec![selection(5, "name", node_parent(), vec![])];
    let view = ResponseObjectViewWithExtraFields {
        data: &d,
        strings: &strings,
        response_object: &d.objects[1],
        selection_set: &sel,
        extra_constant_fields: &extra,
    };
    assert_eq!(view.serialize().unwrap_err(), "Could not retrieve field name");
}
