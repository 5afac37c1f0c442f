use grafbase::gql_types::{ConstDirective, ConstValue, Pos, Positioned, Type};
use grafbase::relations::{
    is_modelized, relation_name, relation_name_string, FieldDefinition, MetaRelation, MetaRelationKind,
    RelationEngine,
};

fn p<T>(node: T) -> Positioned<T> {
    Positioned::new(node, Pos { line: 1, column: 1 })
}

fn directive(name: &str, args: Vec<(&str, ConstValue)>) -> Positioned<ConstDirective> {
    p(ConstDirective {
        name: p(name.to_string()),
        arguments: args.into_iter().map(|(n, v)| (p(n.to_string()), p(v))).collect(),
    })
}

fn field(directives: Vec<Positioned<ConstDirective>>) -> FieldDefinition {
    FieldDefinition {
        name: p("posts".to_string()),
        ty: p(Type::new("[Post]").unwrap()),
        directives,
    }
}

fn relation(name: &str, kind: MetaRelationKind, from: Option<&str>, to: &str, bidirectional: bool) -> MetaRelation {
    MetaRelation {
        name: name.to_string(),
        kind,
        relation: (from.map(|s| s.to_string()), to.to_string()),
        birectional: bidirectional,
    }
}

#[test]
fn relation_kind_inverse() {
    assert_eq!(MetaRelationKind::OneToMany.inverse(), MetaRelationKind::ManyToOne);
    assert_eq!(MetaRelationKind::ManyToOne.inverse(), MetaRelationKind::OneToMany);
    assert_eq!(MetaRelationKind::OneToOne.inverse(), MetaRelationKind::OneToOne);
    assert_eq!(MetaRelationKind::ManyToMany.inverse(), MetaRelationKind::ManyToMany);
    for k in [MetaRelationKind::OneToOne, MetaRelationKind::OneToMany, MetaRelationKind::ManyToOne] {
        assert_eq!(k.inverse().inverse(), k);
    }
}

#[test]
fn relation_engine_get_same_side() {
    let stored = relation("AuthorPosts", MetaRelationKind::OneToMany, Some("Author"), "Post", true);
    let partial = relation("AuthorPosts", MetaRelationKind::OneToOne, Some("Author"), "Post", false);
    let got = RelationEngine::get(Some(&stored), &partial).unwrap();
    assert_eq!(got.kind, MetaRelationKind::OneToMany);
    assert_eq!(got.relation, (Some("Author".to_string()), "Post".to_string()));
    assert!(got.birectional);
}

#[test]
fn relation_engine_get_other_side() {
    let stored = relation("AuthorPosts", MetaRelationKind::OneToMany, Some("Author"), "Post", true);
    let partial = relation("AuthorPosts", MetaRelationKind::OneToOne, Some("Post"), "Author", false);
    let got = RelationEngine::get(Some(&stored), &partial).unwrap();
    assert_eq!(got.name, "AuthorPosts");
    assert_eq!(got.kind, MetaRelationKind::ManyToOne);
    assert_eq!(got.relation, (Some("Post".to_string()), "Author".to_string()));
    assert!(got.birectional);
    // Looking back from the declaring side gives the stored relation again.
    let back = RelationEngine::get(Some(&got), &stored).unwrap();
    assert_eq!(back.kind, MetaRelationKind::OneToMany);
    assert_eq!(back.relation, stored.relation);
}

#[test]
fn relation_engine_get_unknown() {
    let partial = relation("Nope", MetaRelationKind::OneToOne, Some("Post"), "Author", false);
    assert!(RelationEngine::get(None, &partial).is_none());
}

#[test]
fn relation_names_checked() {
    assert!(RelationEngine::is_valid_name("author_posts_1"));
    assert!(RelationEngine::is_valid_name(""));
    assert!(!RelationEngine::is_valid_name("author-posts"));
    assert!(!RelationEngine::is_valid_name("autor posts"));
    assert_eq!(RelationEngine::check_name("ok_Name"), None);
    assert_eq!(
        RelationEngine::check_name("bad name"),
        Some("Relation names should only contain [_a-zA-Z0-9] but bad name does not".to_string())
    );
    assert_eq!(RelationEngine::issue_message("conflict"), "Relations issues: conflict");
}

#[test]
fn relation_definition_sdl() {
    let sdl = RelationEngine.definition();
    assert!(sdl.contains("directive @relation("));
    assert!(sdl.contains("name: String!"));
    assert!(sdl.contains(") on FIELD_DEFINITION"));
}

#[test]
fn relation_name_of_field() {
    let f = field(vec![
        directive("unique", vec![]),
        directive("relation", vec![("other", ConstValue::Null), ("name", ConstValue::String("posts".to_string()))]),
        directive("relation", vec![("name", ConstValue::String("ignored".to_string()))]),
    ]);
    match &relation_name(&f).unwrap().node {
        ConstValue::String(s) => assert_eq!(s, "posts"),
        _ => panic!("expected a string"),
    }
    assert_eq!(relation_name_string(&f), Some("posts".to_string()));
}

#[test]
fn relation_name_absent_or_not_a_string() {
    let f = field(vec![directive("unique", vec![])]);
    assert!(relation_name(&f).is_none());
    assert_eq!(relation_name_string(&f), None);
    let f = field(vec![directive("relation", vec![])]);
    assert!(relation_name(&f).is_none());
    let f = field(vec![directive("relation", vec![("name", ConstValue::Number("1".to_string()))])]);
    assert!(relation_name(&f).is_some());
    assert_eq!(relation_name_string(&f), None);
}

#[test]
fn modelized_types() {
    assert!(is_modelized(&vec![directive("search", vec![]), directive("model", vec![])]));
    assert!(!is_modelized(&vec![directive("search", vec![])]));
    assert!(!is_modelized(&vec![]));
}
