use grafbase::dot_graph::Attrs;
use grafbase::elements::{DirectiveSiteRecord, QueryElements, QueryElementsRecord};
use grafbase::federation::{typename_field, FederationEntityPreparedExecutor, PreparedExecutor, PreparedFederationEntityOperation};
use grafbase::json::JsonValue;
use grafbase::resolver::{
    FieldSetId, FieldSetRecord, GraphqlEndpointId, GraphqlEndpointRecord, GraphqlFederationEntityResolverDefinitionRecord,
    ResolverDefinitionId, ResolverDefinitionRecord, ResolverDefinitionVariant,
};
use grafbase::response_view::{contains_sorted, missing_field_error, missing_required_field_error, skip_missing_field, ParentEntity};
use grafbase::schema::{ObjectDefinitionId, Schema, StringId};
use grafbase::sdk::{Error, FieldOutput};

#[test]
fn attrs_display() {
    assert_eq!(Attrs::new("Query".to_string()).to_string(), "label = \"Query\" ");
    let a = Attrs::new("Query".to_string()).with("shape=box".to_string()).with("color=red".to_string());
    assert_eq!(a.to_string(), "label = \"Query\", shape=box, color=red ");
    let b = Attrs::new("root".to_string()).bold().with("style=dashed".to_string());
    assert_eq!(b.to_string(), "label = <<b>root</b>>, style=dashed ");
    assert_eq!(Attrs::new(String::new()).to_string(), "label = \"\" ");
}

fn site(parent: &str, field: &str) -> DirectiveSiteRecord {
    DirectiveSiteRecord { parent_type_name: parent.to_string(), field_name: field.to_string(), arguments: vec![] }
}

fn elements() -> QueryElementsRecord {
    QueryElementsRecord {
        directive_names: vec![("auth".to_string(), 0, 2), ("cache".to_string(), 2, 3), ("none".to_string(), 3, 3)],
        elements: vec![site("Query", "me"), site("User", "email"), site("Query", "posts")],
    }
}

#[test]
fn query_elements_iteration() {
    let record = elements();
    let q = QueryElements::from(&record);
    assert_eq!(q.len(), 3);
    let all: Vec<(u32, &str)> = q.iter().iter().map(|e| (e.ix(), e.site().0.field_name.as_str())).collect();
    assert_eq!(all, vec![(0, "me"), (1, "email"), (2, "posts")]);
}

#[test]
fn query_elements_grouped_by_directive_name() {
    let record = elements();
    let q = QueryElements::from(&record);
    let groups = q.iter_grouped_by_directive_name();
    assert_eq!(groups.len(), 3);
    assert_eq!(groups[0].0, "auth");
    let auth: Vec<u32> = groups[0].1.iter().map(|e| e.ix()).collect();
    assert_eq!(auth, vec![0, 1]);
    assert_eq!(groups[1].0, "cache");
    assert_eq!(groups[1].1.len(), 1);
    assert_eq!(groups[1].1[0].site().0.parent_type_name, "Query");
    assert_eq!(groups[1].1[0].ix(), 2);
    assert_eq!(groups[2].0, "none");
    assert!(groups[2].1.is_empty());
}

#[test]
fn sorted_id_lookup() {
    let ids: Vec<ObjectDefinitionId> = [1u32, 4, 7, 9, 15].iter().map(|&i| ObjectDefinitionId(i)).collect();
    for i in 0..20u32 {
        assert_eq!(contains_sorted(&ids, ObjectDefinitionId(i)), [1, 4, 7, 9, 15].contains(&i));
    }
    assert!(!contains_sorted(&vec![], ObjectDefinitionId(0)));
}

#[test]
fn missing_fields() {
    let interface = ParentEntity::Interface { possible_type_ids: vec![ObjectDefinitionId(2), ObjectDefinitionId(5)] };
    assert!(!skip_missing_field(Some(ObjectDefinitionId(5)), &interface));
    assert!(skip_missing_field(Some(ObjectDefinitionId(3)), &interface));
    assert!(!skip_missing_field(None, &interface));
    let object = ParentEntity::Object { id: ObjectDefinitionId(1) };
    assert!(!skip_missing_field(Some(ObjectDefinitionId(1)), &object));
    assert!(skip_missing_field(Some(ObjectDefinitionId(4)), &object));
    assert_eq!(missing_field_error("User", "email"), "Could not retrieve field User.email");
    assert_eq!(missing_required_field_error("email"), "Could not retrieve field email");
}

fn schema() -> Schema {
    Schema {
        strings: vec!["products".to_string()],
        interface_definitions: vec![],
        scalar_definitions: vec![],
        object_definitions: vec![],
        field_definitions: vec![],
        authorized_directives: vec![],
        required_scopes: vec![],
        resolver_definitions: vec![ResolverDefinitionRecord::GraphqlFederationEntity(
            GraphqlFederationEntityResolverDefinitionRecord { endpoint_id: GraphqlEndpointId(0), key_fields_id: FieldSetId(0) },
        )],
        graphql_endpoints: vec![GraphqlEndpointRecord { subgraph_name_id: StringId(0) }],
        extension_directives: vec![],
        field_sets: vec![FieldSetRecord { field_ids: vec![] }],
    }
}

#[test]
fn prepare_federation_entity() {
    let s = schema();
    let resolver = match ResolverDefinitionId(0).walk(&s).variant() {
        ResolverDefinitionVariant::GraphqlFederationEntity(r) => r,
        _ => panic!("expected a federation entity resolver"),
    };
    let op = PreparedFederationEntityOperation {
        query: "query($representations: [_Any!]!) { _entities(representations: $representations) { __typename } }"
            .to_string(),
        entities_variable_name: "representations".to_string(),
        variables: vec![],
    };
    match FederationEntityPreparedExecutor::prepare(resolver, Ok(op)).unwrap() {
        PreparedExecutor::FederationEntity(e) => {
            assert_eq!(e.subgraph_id, GraphqlEndpointId(0));
            assert_eq!(e.operation.entities_variable_name, "representations");
        }
    }
    let err = FederationEntityPreparedExecutor::prepare(resolver, Err("no key".to_string())).unwrap_err();
    assert_eq!(err, "Failed to build query: no key");
}

#[test]
fn typename_constant_field() {
    let (k, v) = typename_field("Product");
    assert_eq!(k, "__typename");
    match v {
        JsonValue::String(s) => assert_eq!(s, "Product"),
        _ => panic!("expected a string"),
    }
}

#[test]
fn field_output_keeps_order() {
    let mut out = FieldOutput::new();
    assert_eq!(out.len(), 0);
    out.push_value(JsonValue::Bool(true));
    out.push_error(Error { extensions: vec![], message: "boom".to_string() });
    out.push_value(JsonValue::Null);
    assert_eq!(out.len(), 3);
    let items = out.into_outputs();
    assert!(matches!(items[0], Ok(JsonValue::Bool(true))));
    match &items[1] {
        Err(e) => assert_eq!(e.message, "boom"),
        Ok(_) => panic!("expected an error"),
    }
    assert!(matches!(items[2], Ok(JsonValue::Null)));
}

#[test]
fn federation_request_body() {
    let executor = FederationEntityPreparedExecutor {
        subgraph_id: GraphqlEndpointId(0),
        operation: PreparedFederationEntityOperation {
            query: "query { a }".to_string(),
            entities_variable_name: "r".to_string(),
            variables: vec![],
        },
    };
    match executor.request_body(JsonValue::Object(vec![("r".to_string(), JsonValue::Array(vec![]))])) {
        JsonValue::Object(fields) => {
            assert_eq!(fields.len(), 2);
            assert_eq!(fields[0].0, "query");
            assert!(matches!(&fields[0].1, JsonValue::String(q) if q == "query { a }"));
            assert_eq!(fields[1].0, "variables");
            assert!(matches!(&fields[1].1, JsonValue::Object(v) if v.len() == 1 && v[0].0 == "r"));
        }
        _ => panic!("expected an object"),
    }
    assert_eq!(FederationEntityPreparedExecutor::serialize_error("recursion limit"), "Failed to serialize query: recursion limit");
}

#[test]
fn federation_json_body() {
    let executor = FederationEntityPreparedExecutor {
        subgraph_id: GraphqlEndpointId(0),
        operation: PreparedFederationEntityOperation {
            query: "query { a }".to_string(),
            entities_variable_name: "r".to_string(),
            variables: vec![],
        },
    };
    let vars = JsonValue::Object(vec![("r".to_string(), JsonValue::Array(vec![JsonValue::Number("1".to_string())]))]);
    assert_eq!(executor.json_body(vars).unwrap(), r#"{"query":"query { a }","variables":{"r":[1]}}"#);
    let bad = JsonValue::Object(vec![("r".to_string(), JsonValue::Number("x".to_string()))]);
    assert_eq!(
        executor.json_body(bad).unwrap_err(),
        "Failed to serialize query: a number is no JSON number"
    );
}

#[test]
fn federation_subgraph_variables() {
    let executor = FederationEntityPreparedExecutor {
        subgraph_id: GraphqlEndpointId(0),
        operation: PreparedFederationEntityOperation {
            query: "query($r: [_Any!]!, $first: Int) { _entities(representations: $r) { __typename } }".to_string(),
            entities_variable_name: "r".to_string(),
            variables: vec![("first".to_string(), JsonValue::Number("3".to_string()))],
        },
    };
    let representations = vec![
        vec![("id".to_string(), JsonValue::String("1".to_string()))],
        vec![("id".to_string(), JsonValue::String("2".to_string()))],
    ];
    let vars = executor.subgraph_variables(&representations, "User");
    assert_eq!(
        vars.to_json_text().unwrap(),
        r#"{"first":3,"r":[{"__typename":"User","id":"1"},{"__typename":"User","id":"2"}]}"#
    );
    match vars {
        JsonValue::Object(fields) => {
            assert_eq!(fields[1].0, "r");
            match &fields[1].1 {
                JsonValue::Array(items) => match &items[0] {
                    JsonValue::Object(f) => {
                        assert_eq!(f[0].0, "id");
                        assert_eq!(f[1].0, "__typename");
                        assert!(matches!(&f[1].1, JsonValue::String(n) if n == "User"));
                    }
                    other => panic!("unexpected {other:?}"),
                },
                other => panic!("unexpected {other:?}"),
            }
        }
        other => panic!("unexpected {other:?}"),
    }
}
