use grafbase::gql_types::{
    BaseType, ConstDirective, ConstValue, Directive, OperationType, Pos, Positioned, Type, Value,
};

fn pos(line: usize, column: usize) -> Pos {
    Pos { line, column }
}

fn name(s: &str) -> Positioned<String> {
    Positioned::new(s.to_string(), pos(1, 1))
}

#[test]
fn operation_type_display() {
    assert_eq!(OperationType::Query.to_string(), "query");
    assert_eq!(OperationType::Mutation.to_string(), "mutation");
    assert_eq!(OperationType::Subscription.to_string(), "subscription");
}

#[test]
fn type_new_named_nullable() {
    let t = Type::new("String").unwrap();
    assert!(t.nullable);
    match &t.base {
        BaseType::Named(n) => assert_eq!(n, "String"),
        BaseType::List(_) => panic!("expected a named type"),
    }
    assert_eq!(t.to_string(), "String");
}

#[test]
fn type_new_required_list_of_required() {
    let t = Type::new("[String!]!").unwrap();
    assert!(!t.nullable);
    match &t.base {
        BaseType::List(inner) => {
            assert!(!inner.nullable);
            assert_eq!(inner.base.to_base_type_str(), "String");
        }
        BaseType::Named(_) => panic!("expected a list type"),
    }
    assert_eq!(t.to_string(), "[String!]!");
}

#[test]
fn type_new_rejects_unclosed_list() {
    assert!(Type::new("[String").is_none());
    assert!(Type::new("[String!").is_none());
}

#[test]
fn type_round_trip_nested() {
    for s in ["[[Int]!]", "ID!", "[ID]", "[[[A!]!]!]!", ""] {
        let t = Type::new(s).unwrap();
        assert_eq!(t.to_string(), s);
    }
}

#[test]
fn type_required_and_nullable() {
    let t = Type::required(BaseType::named("Int"));
    assert_eq!(t.to_string(), "Int!");
    let t = Type::nullable(BaseType::named("Int"));
    assert_eq!(t.to_string(), "Int");
}

#[test]
fn type_override_base_keeps_wrapping() {
    let t = Type::new("[[Post!]]!").unwrap();
    let o = t.override_base(BaseType::named("Author"));
    assert_eq!(o.to_string(), "[[Author!]]!");
    let t = Type::new("Post").unwrap();
    assert_eq!(t.override_base(BaseType::named("Author")).to_string(), "Author");
}

#[test]
fn base_type_display() {
    let b = BaseType::List(Box::new(Type::new("Int!").unwrap()));
    assert_eq!(b.to_string(), "[Int!]");
    assert_eq!(BaseType::named("Foo").to_base_type_str(), "Foo");
    assert_eq!(b.to_base_type_str(), "Int");
}

fn const_directive() -> ConstDirective {
    ConstDirective {
        name: name("deprecated"),
        arguments: vec![
            (name("reason"), Positioned::new(ConstValue::String("old".to_string()), pos(2, 3))),
            (name("reason"), Positioned::new(ConstValue::String("second".to_string()), pos(4, 5))),
            (name("level"), Positioned::new(ConstValue::Number("3".to_string()), pos(6, 7))),
        ],
    }
}

#[test]
fn const_directive_get_argument_first_match() {
    let d = const_directive();
    let a = d.get_argument("reason").unwrap();
    assert_eq!(a.pos, pos(2, 3));
    match &a.node {
        ConstValue::String(s) => assert_eq!(s, "old"),
        _ => panic!("expected a string"),
    }
    assert!(d.get_argument("missing").is_none());
}

#[test]
fn const_directive_into_directive_and_back() {
    let d = const_directive().into_directive();
    assert_eq!(d.name.node, "deprecated");
    assert_eq!(d.arguments.len(), 3);
    match &d.get_argument("level").unwrap().node {
        Value::Number(n) => assert_eq!(n, "3"),
        _ => panic!("expected a number"),
    }
    let c = d.into_const().unwrap();
    assert_eq!(c.arguments.len(), 3);
    assert_eq!(c.arguments[1].1.pos, pos(4, 5));
}

#[test]
fn directive_with_variable_is_not_const() {
    let d = Directive {
        name: name("cached"),
        arguments: vec![(
            name("ttl"),
            Positioned::new(
                Value::List(vec![Value::Number("1".to_string()), Value::Variable("ttl".to_string())]),
                pos(1, 9),
            ),
        )],
    };
    assert!(d.into_const().is_none());
}

#[test]
fn value_const_conversions() {
    let c = ConstValue::Object(vec![
        ("a".to_string(), ConstValue::Boolean(true)),
        ("b".to_string(), ConstValue::List(vec![ConstValue::Null, ConstValue::Enum("X".to_string())])),
        ("c".to_string(), ConstValue::Binary(vec![1, 2, 3])),
    ]);
    let v = c.to_value();
    let back = v.to_const().unwrap();
    match back {
        ConstValue::Object(fields) => {
            assert_eq!(fields.len(), 3);
            assert_eq!(fields[2].0, "c");
            match &fields[2].1 {
                ConstValue::Binary(b) => assert_eq!(b, &vec![1u8, 2, 3]),
                _ => panic!("expected bytes"),
            }
        }
        _ => panic!("expected an object"),
    }
    assert!(Value::Variable("x".to_string()).into_const().is_none());
    assert!(matches!(ConstValue::Null.into_value(), Value::Null));
}
