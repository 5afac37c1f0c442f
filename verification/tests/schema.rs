use grafbase::resolver::{
    ExtensionDirectiveId, ExtensionDirectiveRecord, FieldResolverExtensionDefinitionRecord, FieldSetId,
    FieldSetRecord, GraphqlEndpointId, GraphqlEndpointRecord, GraphqlFederationEntityResolverDefinitionRecord,
    GraphqlRootFieldResolverDefinitionRecord, ResolverDefinitionId, ResolverDefinitionRecord,
    ResolverDefinitionVariant, Subgraph, SubgraphId,
};
use grafbase::schema::{
    AuthorizedDirectiveId, AuthorizedDirectiveRecord, DeprecatedDirectiveRecord, FieldDefinitionId,
    FieldDefinitionRecord, FieldIdRange, InterfaceDefinitionId, InterfaceDefinitionRecord, ObjectDefinitionId,
    ObjectDefinitionRecord, RequiresScopesDirectiveId, RequiresScopesDirectiveRecord, ScalarDefinitionId,
    ScalarDefinitionRecord, ScalarType, Schema, StringId, TypeSystemDirective, TypeSystemDirectiveId,
};

fn schema() -> Schema {
    let strings = [
        "Node",          // 0
        "A node",        // 1
        "id",            // 2
        "User",          // 3
        "DateTime",      // 4
        "https://spec",  // 5
        "accounts",      // 6
        "products",      // 7
        "nats_publish",  // 8
        "gone",          // 9
        "Post",          // 10
        "name",          // 11
    ];
    Schema {
        strings: strings.iter().map(|s| s.to_string()).collect(),
        interface_definitions: vec![InterfaceDefinitionRecord {
            name_id: StringId(0),
            description_id: Some(StringId(1)),
            field_ids: FieldIdRange { start: FieldDefinitionId(0), end: FieldDefinitionId(2) },
            interface_ids: vec![],
            possible_type_ids: vec![ObjectDefinitionId(0), ObjectDefinitionId(1)],
            possible_types_ordered_by_typename_ids: vec![ObjectDefinitionId(1), ObjectDefinitionId(0)],
            directive_ids: vec![
                TypeSystemDirectiveId::Authenticated,
                TypeSystemDirectiveId::Deprecated(DeprecatedDirectiveRecord { reason_id: Some(StringId(9)) }),
            ],
        }],
        scalar_definitions: vec![
            ScalarDefinitionRecord {
                name_id: StringId(4),
                ty: ScalarType::String,
                description_id: None,
                specified_by_url_id: Some(StringId(5)),
                directive_ids: vec![
                    TypeSystemDirectiveId::Authorized(AuthorizedDirectiveId(0)),
                    TypeSystemDirectiveId::RequiresScopes(RequiresScopesDirectiveId(0)),
                ],
            },
        ],
        object_definitions: vec![
            ObjectDefinitionRecord {
                name_id: StringId(3),
                description_id: None,
                interface_ids: vec![InterfaceDefinitionId(0)],
                field_ids: FieldIdRange { start: FieldDefinitionId(0), end: FieldDefinitionId(1) },
            },
            ObjectDefinitionRecord {
                name_id: StringId(10),
                description_id: None,
                interface_ids: vec![InterfaceDefinitionId(0)],
                field_ids: FieldIdRange { start: FieldDefinitionId(1), end: FieldDefinitionId(2) },
            },
        ],
        field_definitions: vec![
            FieldDefinitionRecord { name_id: StringId(2), description_id: None },
            FieldDefinitionRecord { name_id: StringId(11), description_id: None },
        ],
        authorized_directives: vec![AuthorizedDirectiveRecord { metadata_id: None }],
        required_scopes: vec![RequiresScopesDirectiveRecord { scope_ids: vec![StringId(2)] }],
        resolver_definitions: vec![
            ResolverDefinitionRecord::Introspection,
            ResolverDefinitionRecord::GraphqlRootField(GraphqlRootFieldResolverDefinitionRecord {
                endpoint_id: GraphqlEndpointId(0),
            }),
            ResolverDefinitionRecord::GraphqlFederationEntity(GraphqlFederationEntityResolverDefinitionRecord {
                endpoint_id: GraphqlEndpointId(1),
                key_fields_id: FieldSetId(0),
            }),
            ResolverDefinitionRecord::FieldResolverExtension(FieldResolverExtensionDefinitionRecord {
                directive_id: ExtensionDirectiveId(0),
                requirements_id: FieldSetId(1),
            }),
            ResolverDefinitionRecord::FieldResolverExtension(FieldResolverExtensionDefinitionRecord {
                directive_id: ExtensionDirectiveId(1),
                requirements_id: FieldSetId(1),
            }),
        ],
        graphql_endpoints: vec![
            GraphqlEndpointRecord { subgraph_name_id: StringId(6) },
            GraphqlEndpointRecord { subgraph_name_id: StringId(7) },
        ],
        extension_directives: vec![
            ExtensionDirectiveRecord {
                subgraph_id: SubgraphId::GraphqlEndpoint(GraphqlEndpointId(1)),
                name_id: StringId(8),
            },
            ExtensionDirectiveRecord { subgraph_id: SubgraphId::Introspection, name_id: StringId(8) },
        ],
        field_sets: vec![
            FieldSetRecord { field_ids: vec![FieldDefinitionId(0)] },
            FieldSetRecord { field_ids: vec![] },
        ],
    }
}

#[test]
fn interface_definition_walker() {
    let s = schema();
    let i = InterfaceDefinitionId(0).read(&s);
    assert_eq!(i.id(), InterfaceDefinitionId(0));
    assert_eq!(i.name(), "Node");
    assert_eq!(i.description(), Some("A node"));
    assert_eq!(i.as_ref().possible_type_ids.len(), 2);
    let fields: Vec<&str> = i.fields().iter().map(|f| f.name()).collect();
    assert_eq!(fields, vec!["id", "name"]);
    let possible: Vec<&str> = i.possible_types().iter().map(|o| o.name()).collect();
    assert_eq!(possible, vec!["User", "Post"]);
    let ordered: Vec<&str> = i.possible_types_ordered_by_typename().iter().map(|o| o.name()).collect();
    assert_eq!(ordered, vec!["Post", "User"]);
    assert!(i.interfaces().is_empty());
    let directives = i.directives();
    assert_eq!(directives.len(), 2);
    assert!(matches!(directives[0], TypeSystemDirective::Authenticated));
    match directives[1] {
        TypeSystemDirective::Deprecated(d) => assert_eq!(d.reason(), Some("gone")),
        _ => panic!("expected @deprecated"),
    }
}

#[test]
fn scalar_definition_walker() {
    let s = schema();
    let sc = ScalarDefinitionId(0).read(&s);
    assert_eq!(sc.id(), ScalarDefinitionId(0));
    assert_eq!(sc.name(), "DateTime");
    assert_eq!(sc.ty(), ScalarType::String);
    assert_eq!(sc.description(), None);
    assert_eq!(sc.specified_by_url(), Some("https://spec"));
    assert_eq!(sc.as_ref().directive_ids.len(), 2);
    let directives = sc.directives();
    match (directives[0], directives[1]) {
        (TypeSystemDirective::Authorized(a), TypeSystemDirective::RequiresScopes(r)) => {
            assert_eq!(a.id(), AuthorizedDirectiveId(0));
            assert_eq!(r.id(), RequiresScopesDirectiveId(0));
        }
        _ => panic!("unexpected directives"),
    }
}

#[test]
fn type_system_directive_id_from() {
    assert_eq!(
        TypeSystemDirectiveId::from(AuthorizedDirectiveId(3)),
        TypeSystemDirectiveId::Authorized(AuthorizedDirectiveId(3))
    );
    assert_eq!(
        TypeSystemDirectiveId::from(RequiresScopesDirectiveId(1)),
        TypeSystemDirectiveId::RequiresScopes(RequiresScopesDirectiveId(1))
    );
    let d = DeprecatedDirectiveRecord { reason_id: None };
    assert_eq!(TypeSystemDirectiveId::from(d), TypeSystemDirectiveId::Deprecated(d));
}

#[test]
fn resolver_names() {
    let s = schema();
    let names: Vec<String> = (0..5).map(|i| ResolverDefinitionId(i).walk(&s).name()).collect();
    assert_eq!(
        names,
        vec![
            "Introspection".to_string(),
            "Root#accounts".to_string(),
            "FedEntity#products".to_string(),
            "nats_publish#products".to_string(),
            "nats_publish#introspection".to_string(),
        ]
    );
}

#[test]
fn resolver_subgraphs() {
    let s = schema();
    assert_eq!(ResolverDefinitionId(0).walk(&s).subgraph_id(), SubgraphId::Introspection);
    assert_eq!(
        ResolverDefinitionId(1).walk(&s).subgraph_id(),
        SubgraphId::GraphqlEndpoint(GraphqlEndpointId(0))
    );
    assert_eq!(
        ResolverDefinitionId(3).walk(&s).subgraph_id(),
        SubgraphId::GraphqlEndpoint(GraphqlEndpointId(1))
    );
    assert_eq!(ResolverDefinitionId(4).walk(&s).subgraph_id(), SubgraphId::Introspection);
    assert_eq!(ResolverDefinitionId(2).walk(&s).subgraph().name(), "products");
    assert!(matches!(ResolverDefinitionId(0).walk(&s).subgraph(), Subgraph::Introspection));
}

#[test]
fn resolver_required_field_sets() {
    let s = schema();
    assert!(ResolverDefinitionId(0).walk(&s).required_field_set().is_none());
    assert!(ResolverDefinitionId(1).walk(&s).required_field_set().is_none());
    let keys = ResolverDefinitionId(2).walk(&s).required_field_set().unwrap();
    assert_eq!(keys.id(), FieldSetId(0));
    assert_eq!(keys.field_ids(), &vec![FieldDefinitionId(0)]);
    let reqs = ResolverDefinitionId(3).walk(&s).required_field_set().unwrap();
    assert_eq!(reqs.id(), FieldSetId(1));
    assert!(reqs.field_ids().is_empty());
}

#[test]
fn resolver_variants() {
    let s = schema();
    match ResolverDefinitionId(2).walk(&s).variant() {
        ResolverDefinitionVariant::GraphqlFederationEntity(r) => {
            assert_eq!(r.name(), "FedEntity#products");
            assert_eq!(r.endpoint().id(), GraphqlEndpointId(1));
            assert_eq!(r.key_fields().id(), FieldSetId(0));
        }
        _ => panic!("expected a federation entity resolver"),
    }
    match ResolverDefinitionId(1).walk(&s).variant() {
        ResolverDefinitionVariant::GraphqlRootField(r) => assert_eq!(r.name(), "Root#accounts"),
        _ => panic!("expected a root field resolver"),
    }
    match ResolverDefinitionId(3).walk(&s).variant() {
        ResolverDefinitionVariant::FieldResolverExtension(r) => {
            assert_eq!(r.name(), "nats_publish#products");
            assert_eq!(r.directive().name(), "nats_publish");
            assert_eq!(r.requirements().id(), FieldSetId(1));
        }
        _ => panic!("expected an extension resolver"),
    }
}
