//! GraphQL type references (`String`, `[String!]!`), operation types,
//! positioned nodes, values and directives.
use vstd::prelude::*;

use crate::util::{owned, str_eq};

verus! {

/// The type of an operation; `query`, `mutation` or `subscription`.
#[derive(Debug, PartialEq, Eq, Structural, Copy, Clone)]
pub enum OperationType {
    /// A query.
    Query,
    /// A mutation.
    Mutation,
    /// A subscription.
    Subscription,
}

/// The keyword that introduces an operation of the given type.
pub open spec fn operation_keyword(op: OperationType) -> Seq<char> {
    match op {
        OperationType::Query => seq!['q', 'u', 'e', 'r', 'y'],
        OperationType::Mutation => seq!['m', 'u', 't', 'a', 't', 'i', 'o', 'n'],
        OperationType::Subscription => seq![
            's', 'u', 'b', 's', 'c', 'r', 'i', 'p', 't', 'i', 'o', 'n'
        ],
    }
}

impl OperationType {
    /// The keyword of the operation type, as it is written in a document.
    pub fn as_str(&self) -> (r: &'static str)
        ensures
            r@ == operation_keyword(*self),
    {
        match self {
            OperationType::Query => {
                let s = "query";
                proof {
                    reveal_strlit("query");
                }
                s
            },
            OperationType::Mutation => {
                let s = "mutation";
                proof {
                    reveal_strlit("mutation");
                }
                s
            },
            OperationType::Subscription => {
                let s = "subscription";
                proof {
                    reveal_strlit("subscription");
                }
                s
            },
        }
    }

    /// The keyword of the operation type (what `Display` writes).
    pub fn to_string(&self) -> (r: String)
        ensures
            r@ == operation_keyword(*self),
    {
        owned(self.as_str())
    }
}

/// A GraphQL base type, for example `String` or `[String!]`. This does not
/// include whether the type is nullable; for that see [`Type`].
#[derive(Debug)]
pub enum BaseType {
    /// A named type, such as `String`.
    Named(String),
    /// A list type, such as `[String]`.
    List(Box<Type>),
}

/// A GraphQL type, for example `String` or `[String!]!`.
#[derive(Debug)]
pub struct Type {
    /// The base type.
    pub base: BaseType,
    /// Whether the type is nullable.
    pub nullable: bool,
}

/// Mathematical model of a [`BaseType`].
pub enum BaseTypeView {
    Named(Seq<char>),
    List(Box<TypeView>),
}

/// Mathematical model of a [`Type`].
pub struct TypeView {
    pub base: BaseTypeView,
    pub nullable: bool,
}

pub open spec fn type_view(t: Type) -> TypeView
    decreases t,
{
    TypeView { base: base_type_view(t.base), nullable: t.nullable }
}

pub open spec fn base_type_view(b: BaseType) -> BaseTypeView
    decreases b,
{
    match b {
        BaseType::Named(n) => BaseTypeView::Named(n@),
        BaseType::List(inner) => BaseTypeView::List(Box::new(type_view(*inner))),
    }
}

impl View for Type {
    type V = TypeView;

    open spec fn view(&self) -> TypeView {
        type_view(*self)
    }
}

impl View for BaseType {
    type V = BaseTypeView;

    open spec fn view(&self) -> BaseTypeView {
        base_type_view(*self)
    }
}

pub open spec fn opt_type_view(t: Option<Type>) -> Option<TypeView> {
    match t {
        Some(t) => Some(type_view(t)),
        None => None,
    }
}

/// What `Type::new` reads from a type string: an optional trailing `!`
/// makes the type non-null, a surrounding `[` ... `]` makes it a list of the
/// type written inside, anything else is a type name.
pub open spec fn parse_type(s: Seq<char>) -> Option<TypeView>
    decreases s.len(),
{
    let nullable = !(s.len() > 0 && s.last() == '!');
    let ty = if nullable {
        s
    } else {
        s.drop_last()
    };
    if ty.len() > 0 && ty[0] == '[' {
        let rest = ty.drop_first();
        if rest.len() > 0 && rest.last() == ']' {
            match parse_type(rest.drop_last()) {
                Some(inner) => Some(TypeView { base: BaseTypeView::List(Box::new(inner)), nullable }),
                None => None,
            }
        } else {
            None
        }
    } else {
        Some(TypeView { base: BaseTypeView::Named(ty), nullable })
    }
}

/// How a type is written: the base type, then `!` when it is not nullable.
pub open spec fn display_type(t: TypeView) -> Seq<char>
    decreases t,
{
    let b = display_base_type(t.base);
    if t.nullable {
        b
    } else {
        b.push('!')
    }
}

/// How a base type is written: its name, or the element type within `[` `]`.
pub open spec fn display_base_type(b: BaseTypeView) -> Seq<char>
    decreases b,
{
    match b {
        BaseTypeView::Named(n) => n,
        BaseTypeView::List(inner) => seq!['['] + display_type(*inner) + seq![']'],
    }
}

/// The type with its innermost named base replaced by `base`; list levels
/// and their nullability stay as they were.
pub open spec fn override_base_view(t: TypeView, base: BaseTypeView) -> TypeView
    decreases t,
{
    TypeView {
        base: match t.base {
            BaseTypeView::Named(_) => base,
            BaseTypeView::List(inner) => BaseTypeView::List(Box::new(override_base_view(*inner, base))),
        },
        nullable: t.nullable,
    }
}

/// The name at the bottom of a (possibly nested) list type.
pub open spec fn base_type_name(b: BaseTypeView) -> Seq<char>
    decreases b,
{
    match b {
        BaseTypeView::Named(n) => n,
        BaseTypeView::List(inner) => base_type_name(inner.base),
    }
}

/// Every type name occurring in the type can be written back unambiguously:
/// it neither ends with `!` nor starts with `[`.
pub open spec fn names_round_trip(t: TypeView) -> bool
    decreases t,
{
    match t.base {
        BaseTypeView::Named(n) => !(n.len() > 0 && n.last() == '!') && !(n.len() > 0 && n[0] == '['),
        BaseTypeView::List(inner) => names_round_trip(*inner),
    }
}

impl Type {
    /// Create a type from the type string.
    pub fn new(ty: &str) -> (r: Option<Type>)
        ensures
            opt_type_view(r) == parse_type(ty@),
        decreases ty@.len(),
    {
        let n = ty.unicode_len();
        let nullable = !(n > 0 && ty.get_char(n - 1) == '!');
        let body: &str = if nullable {
            ty
        } else {
            ty.substring_char(0, n - 1)
        };
        assert(body@ == (if nullable {
            ty@
        } else {
            ty@.drop_last()
        }));
        let m = body.unicode_len();
        if m > 0 && body.get_char(0) == '[' {
            let rest = body.substring_char(1, m);
            assert(rest@ == body@.drop_first());
            let k = m - 1;
            if k > 0 && rest.get_char(k - 1) == ']' {
                let inner_str = rest.substring_char(0, k - 1);
                assert(inner_str@ == rest@.drop_last());
                match Type::new(inner_str) {
                    Some(inner) => Some(Type { base: BaseType::List(Box::new(inner)), nullable }),
                    None => None,
                }
            } else {
                None
            }
        } else {
            Some(Type { base: BaseType::Named(owned(body)), nullable })
        }
    }

    /// Create a required Type
    pub fn required(base: BaseType) -> (r: Type)
        ensures
            r@ == (TypeView { base: base@, nullable: false }),
    {
        Type { base, nullable: false }
    }

    /// Create a nullable Type
    pub fn nullable(base: BaseType) -> (r: Type)
        ensures
            r@ == (TypeView { base: base@, nullable: true }),
    {
        Type { base, nullable: true }
    }

    /// Create a new Type with its base overridden by the new base type.
    pub fn override_base(&self, base: BaseType) -> (r: Type)
        ensures
            r@ == override_base_view(self@, base@),
        decreases self,
    {
        Type {
            base: match &self.base {
                BaseType::Named(_) => base,
                BaseType::List(list) => BaseType::List(Box::new(list.override_base(base))),
            },
            nullable: self.nullable,
        }
    }

    /// How the type is written (what `Display` writes), e.g. `[String!]!`.
    pub fn to_string(&self) -> (r: String)
        ensures
            r@ == display_type(self@),
        decreases self,
    {
        let mut s = self.base.to_string();
        if !self.nullable {
            s.append("!");
            proof {
                reveal_strlit("!");
            }
        }
        s
    }

    /// A copy of the type.
    pub fn duplicate(&self) -> (r: Type)
        ensures
            r@ == self@,
        decreases self,
    {
        Type { base: self.base.duplicate(), nullable: self.nullable }
    }
}

impl BaseType {
    /// Create a new named BaseType
    pub fn named(name: &str) -> (r: BaseType)
        ensures
            r@ == BaseTypeView::Named(name@),
    {
        BaseType::Named(owned(name))
    }

    /// Get the primitive type from a BaseType
    pub fn to_base_type_str(&self) -> (r: &str)
        ensures
            r@ == base_type_name(self@),
        decreases self,
    {
        match self {
            BaseType::Named(name) => name.as_str(),
            BaseType::List(ty_list) => ty_list.base.to_base_type_str(),
        }
    }

    /// How the base type is written (what `Display` writes), e.g. `[String!]`.
    pub fn to_string(&self) -> (r: String)
        ensures
            r@ == display_base_type(self@),
        decreases self,
    {
        match self {
            BaseType::Named(name) => name.clone(),
            BaseType::List(ty) => {
                let mut s = owned("[");
                proof {
                    reveal_strlit("[");
                    reveal_strlit("]");
                }
                let inner = ty.to_string();
                s.append(inner.as_str());
                s.append("]");
                s
            },
        }
    }

    /// A copy of the base type.
    pub fn duplicate(&self) -> (r: BaseType)
        ensures
            r@ == self@,
        decreases self,
    {
        match self {
            BaseType::Named(name) => BaseType::Named(name.clone()),
            BaseType::List(ty) => BaseType::List(Box::new(ty.duplicate())),
        }
    }
}

/// Writing a type that was read from a string gives that string back.
pub proof fn lemma_parse_then_display(s: Seq<char>)
    requires
        parse_type(s) is Some,
    ensures
        display_type(parse_type(s)->0) == s,
    decreases s.len(),
{
    let nullable = !(s.len() > 0 && s.last() == '!');
    let ty = if nullable {
        s
    } else {
        s.drop_last()
    };
    if ty.len() > 0 && ty[0] == '[' {
        let rest = ty.drop_first();
        let inner_s = rest.drop_last();
        lemma_parse_then_display(inner_s);
        assert(seq!['['] + inner_s + seq![']'] =~= ty);
    }
    if !nullable {
        assert(ty.push('!') =~= s);
    }
}

/// Reading the written form of a type gives the type back, as long as no
/// type name in it ends with `!` or starts with `[`.
pub proof fn lemma_display_then_parse(t: TypeView)
    requires
        names_round_trip(t),
    ensures
        parse_type(display_type(t)) == Some(t),
    decreases t,
{
    let s = display_type(t);
    let b = display_base_type(t.base);
    if t.nullable {
        assert(s == b);
    } else {
        assert(s.drop_last() =~= b);
    }
    match t.base {
        BaseTypeView::Named(n) => {
        },
        BaseTypeView::List(inner) => {
            lemma_display_then_parse(*inner);
            let inner_s = display_type(*inner);
            assert(b.drop_first().drop_last() =~= inner_s);
            assert(b[0] == '[');
            assert(b.drop_first().last() == ']');
        },
    }
}

/// Overriding the base of a type replaces the name at its bottom and keeps
/// the shape: reading that name back gives the new one.
pub proof fn lemma_override_base_name(t: TypeView, name: Seq<char>)
    ensures
        base_type_name(override_base_view(t, BaseTypeView::Named(name)).base) == name,
    decreases t,
{
    match t.base {
        BaseTypeView::Named(_) => {
        },
        BaseTypeView::List(inner) => {
            lemma_override_base_name(*inner, name);
        },
    }
}

/// A position in a GraphQL document: line and column, both starting at 1.
#[derive(Debug, Clone, Copy, PartialEq, Eq, Structural)]
pub struct Pos {
    pub line: usize,
    pub column: usize,
}

/// A node of a GraphQL document together with its position.
#[derive(Debug)]
pub struct Positioned<T> {
    pub pos: Pos,
    pub node: T,
}

impl<T> Positioned<T> {
    /// Wrap a node with its position.
    pub fn new(node: T, pos: Pos) -> (r: Positioned<T>)
        ensures
            r.node == node,
            r.pos == pos,
    {
        Positioned { pos, node }
    }
}

/// A GraphQL input value that holds no variable.
#[derive(Debug)]
pub enum ConstValue {
    /// `null`.
    Null,
    /// A number, kept as the text it was written with.
    Number(String),
    /// A string.
    String(String),
    /// A boolean.
    Boolean(bool),
    /// Raw bytes.
    Binary(Vec<u8>),
    /// An enum value.
    Enum(String),
    /// A list of values.
    List(Vec<ConstValue>),
    /// An object: its fields in order.
    Object(Vec<(String, ConstValue)>),
}

/// A GraphQL input value, which may refer to variables.
#[derive(Debug)]
pub enum Value {
    /// A variable, referred to by its name.
    Variable(String),
    /// `null`.
    Null,
    /// A number, kept as the text it was written with.
    Number(String),
    /// A string.
    String(String),
    /// A boolean.
    Boolean(bool),
    /// Raw bytes.
    Binary(Vec<u8>),
    /// An enum value.
    Enum(String),
    /// A list of values.
    List(Vec<Value>),
    /// An object: its fields in order.
    Object(Vec<(String, Value)>),
}

/// Mathematical model of GraphQL values (both kinds).
pub enum ValueView {
    Variable(Seq<char>),
    Null,
    Number(Seq<char>),
    String(Seq<char>),
    Boolean(bool),
    Binary(Seq<u8>),
    Enum(Seq<char>),
    List(Seq<ValueView>),
    Object(Seq<(Seq<char>, ValueView)>),
}

pub open spec fn const_value_view(v: ConstValue) -> ValueView
    decreases v,
{
    match v {
        ConstValue::Null => ValueView::Null,
        ConstValue::Number(n) => ValueView::Number(n@),
        ConstValue::String(s) => ValueView::String(s@),
        ConstValue::Boolean(b) => ValueView::Boolean(b),
        ConstValue::Binary(b) => ValueView::Binary(b@),
        ConstValue::Enum(e) => ValueView::Enum(e@),
        ConstValue::List(items) => ValueView::List(
            Seq::new(
                items@.len(),
                |i: int|
                    if 0 <= i < items@.len() {
                        const_value_view(items@[i])
                    } else {
                        ValueView::Null
                    },
            ),
        ),
        ConstValue::Object(fields) => ValueView::Object(
            Seq::new(
                fields@.len(),
                |i: int|
                    if 0 <= i < fields@.len() {
                        (fields@[i].0@, const_value_view(fields@[i].1))
                    } else {
                        (Seq::empty(), ValueView::Null)
                    },
            ),
        ),
    }
}

pub open spec fn value_view(v: Value) -> ValueView
    decreases v,
{
    match v {
        Value::Variable(n) => ValueView::Variable(n@),
        Value::Null => ValueView::Null,
        Value::Number(n) => ValueView::Number(n@),
        Value::String(s) => ValueView::String(s@),
        Value::Boolean(b) => ValueView::Boolean(b),
        Value::Binary(b) => ValueView::Binary(b@),
        Value::Enum(e) => ValueView::Enum(e@),
        Value::List(items) => ValueView::List(
            Seq::new(
                items@.len(),
                |i: int|
                    if 0 <= i < items@.len() {
                        value_view(items@[i])
                    } else {
                        ValueView::Null
                    },
            ),
        ),
        Value::Object(fields) => ValueView::Object(
            Seq::new(
                fields@.len(),
                |i: int|
                    if 0 <= i < fields@.len() {
                        (fields@[i].0@, value_view(fields@[i].1))
                    } else {
                        (Seq::empty(), ValueView::Null)
                    },
            ),
        ),
    }
}

impl View for ConstValue {
    type V = ValueView;

    open spec fn view(&self) -> ValueView {
        const_value_view(*self)
    }
}

impl View for Value {
    type V = ValueView;

    open spec fn view(&self) -> ValueView {
        value_view(*self)
    }
}

/// A value mentions no variable, at any depth.
pub open spec fn is_const_view(v: ValueView) -> bool
    decreases v,
{
    match v {
        ValueView::Variable(_) => false,
        ValueView::List(items) => all_const(items),
        ValueView::Object(fields) => all_const_fields(fields),
        _ => true,
    }
}

/// No value of the sequence mentions a variable.
pub open spec fn all_const(items: Seq<ValueView>) -> bool
    decreases items,
{
    if items.len() == 0 {
        true
    } else {
        is_const_view(items[0]) && all_const(items.drop_first())
    }
}

/// No field value of the sequence mentions a variable.
pub open spec fn all_const_fields(fields: Seq<(Seq<char>, ValueView)>) -> bool
    decreases fields,
{
    if fields.len() == 0 {
        true
    } else {
        is_const_view(fields[0].1) && all_const_fields(fields.drop_first())
    }
}

proof fn lemma_const_list(items: Seq<ValueView>)
    ensures
        is_const_view(ValueView::List(items)) <==> forall|i: int|
            0 <= i < items.len() ==> #[trigger] is_const_view(items[i]),
    decreases items.len(),
{
    assert(is_const_view(ValueView::List(items)) == all_const(items));
    if items.len() > 0 {
        assert(all_const(items) == (is_const_view(items[0]) && all_const(items.drop_first())));
        lemma_const_list(items.drop_first());
        assert forall|i: int| 1 <= i < items.len() implies #[trigger] is_const_view(items[i]) == is_const_view(items.drop_first()[i - 1]) by {
        }
    }
}

proof fn lemma_const_object(fields: Seq<(Seq<char>, ValueView)>)
    ensures
        is_const_view(ValueView::Object(fields)) <==> forall|i: int|
            0 <= i < fields.len() ==> #[trigger] is_const_view(fields[i].1),
    decreases fields.len(),
{
    assert(is_const_view(ValueView::Object(fields)) == all_const_fields(fields));
    if fields.len() > 0 {
        assert(all_const_fields(fields) == (is_const_view(fields[0].1) && all_const_fields(fields.drop_first())));
        lemma_const_object(fields.drop_first());
        assert forall|i: int| 1 <= i < fields.len() implies #[trigger] is_const_view(fields[i].1) == is_const_view(fields.drop_first()[i - 1].1) by {
        }
    }
}

fn copy_bytes(b: &Vec<u8>) -> (r: Vec<u8>)
    ensures
        r@ == b@,
{
    let mut r: Vec<u8> = Vec::new();
    let mut i: usize = 0;
    while i < b.len()
        invariant
            i <= b.len(),
            r@ == b@.subrange(0, i as int),
        decreases b.len() - i,
    {
        r.push(b[i]);
        i += 1;
    }
    assert(r@ =~= b@);
    r
}

impl ConstValue {
    /// Convert this constant into a value (which then refers to no variable).
    pub fn into_value(self) -> (r: Value)
        ensures
            r@ == self@,
    {
        self.to_value()
    }

    /// The same value as a [`Value`], leaving `self` in place.
    pub fn to_value(&self) -> (r: Value)
        ensures
            r@ == self@,
        decreases self,
    {
        match self {
            ConstValue::Null => Value::Null,
            ConstValue::Number(n) => Value::Number(n.clone()),
            ConstValue::String(s) => Value::String(s.clone()),
            ConstValue::Boolean(b) => Value::Boolean(*b),
            ConstValue::Binary(b) => Value::Binary(copy_bytes(b)),
            ConstValue::Enum(e) => Value::Enum(e.clone()),
            ConstValue::List(items) => {
                let mut out: Vec<Value> = Vec::new();
                let mut i: usize = 0;
                while i < items.len()
                    invariant
                        i <= items.len(),
                        *self == ConstValue::List(*items),
                        out@.len() == i,
                        forall|j: int| 0 <= j < i ==> #[trigger] value_view(out@[j]) == const_value_view(items@[j]),
                    decreases items.len() - i,
                {
                    proof {
                        assert(decreases_to!(*items => items@));
                        assert(decreases_to!(*self => (*self)->List_0));
                    }
                    let v = items[i].to_value();
                    out.push(v);
                    i += 1;
                }
                let r = Value::List(out);
                assert(value_view(r) == const_value_view(*self)) by {
                    if let ValueView::List(a) = value_view(r) {
                        if let ValueView::List(b) = const_value_view(*self) {
                            assert forall|j: int| 0 <= j < a.len() implies a[j] == b[j] by {
                                assert(value_view(out@[j]) == const_value_view(items@[j]));
                            }
                            assert(a =~= b);
                        }
                    }
                }
                r
            },
            ConstValue::Object(fields) => {
                let mut out: Vec<(String, Value)> = Vec::new();
                let mut i: usize = 0;
                while i < fields.len()
                    invariant
                        i <= fields.len(),
                        *self == ConstValue::Object(*fields),
                        out@.len() == i,
                        forall|j: int| 0 <= j < i ==> (#[trigger] out@[j]).0@ == fields@[j].0@,
                        forall|j: int| 0 <= j < i ==> value_view((#[trigger] out@[j]).1) == const_value_view(fields@[j].1),
                    decreases fields.len() - i,
                {
                    proof {
                        assert(decreases_to!(*fields => fields@));
                        assert(decreases_to!(*self => (*self)->Object_0));
                    }
                    let v = fields[i].1.to_value();
                    let k = fields[i].0.clone();
                    out.push((k, v));
                    i += 1;
                }
                let r = Value::Object(out);
                assert(value_view(r) == const_value_view(*self)) by {
                    if let ValueView::Object(a) = value_view(r) {
                        if let ValueView::Object(b) = const_value_view(*self) {
                            assert forall|j: int| 0 <= j < a.len() implies a[j] == b[j] by {
                                assert(out@[j].0@ == fields@[j].0@);
                            }
                            assert(a =~= b);
                        }
                    }
                }
                r
            },
        }
    }
}

impl Value {
    /// Attempt to convert the value into a const value, which succeeds
    /// exactly when no variable occurs in it.
    pub fn into_const(self) -> (r: Option<ConstValue>)
        ensures
            r is Some <==> is_const_view(self@),
            r matches Some(c) ==> c@ == self@,
    {
        self.to_const()
    }

    /// The same value as a [`ConstValue`], if it holds no variable.
    pub fn to_const(&self) -> (r: Option<ConstValue>)
        ensures
            r is Some <==> is_const_view(self@),
            r matches Some(c) ==> c@ == self@,
        decreases self,
    {
        match self {
            Value::Variable(_) => None,
            Value::Null => Some(ConstValue::Null),
            Value::Number(n) => Some(ConstValue::Number(n.clone())),
            Value::String(s) => Some(ConstValue::String(s.clone())),
            Value::Boolean(b) => Some(ConstValue::Boolean(*b)),
            Value::Binary(b) => Some(ConstValue::Binary(copy_bytes(b))),
            Value::Enum(e) => Some(ConstValue::Enum(e.clone())),
            Value::List(items) => {
                let mut out: Vec<ConstValue> = Vec::new();
                let mut i: usize = 0;
                while i < items.len()
                    invariant
                        i <= items.len(),
                        *self == Value::List(*items),
                        out@.len() == i,
                        forall|j: int| 0 <= j < i ==> #[trigger] const_value_view(out@[j]) == value_view(items@[j]),
                        forall|j: int| 0 <= j < i ==> is_const_view(#[trigger] value_view(items@[j])),
                    decreases items.len() - i,
                {
                    proof {
                        assert(decreases_to!(*items => items@));
                        assert(decreases_to!(*self => (*self)->List_0));
                    }
                    match items[i].to_const() {
                        Some(c) => out.push(c),
                        None => {
                            proof {
                                if let ValueView::List(vs) = value_view(*self) {
                                    assert(vs[i as int] == value_view(items@[i as int]));
                                    assert(!is_const_view(vs[i as int]));
                                    lemma_const_list(vs);
                                }
                                assert(value_view(*self) is List);
                                assert(!is_const_view(value_view(*self)));
                            }
                            return None;
                        },
                    }
                    i += 1;
                }
                let r = ConstValue::List(out);
                proof {
                    if let ValueView::List(a) = const_value_view(r) {
                        if let ValueView::List(b) = value_view(*self) {
                            assert forall|j: int| 0 <= j < a.len() implies a[j] == b[j] by {
                                assert(const_value_view(out@[j]) == value_view(items@[j]));
                            }
                            assert(a =~= b);
                            assert forall|j: int| 0 <= j < b.len() implies #[trigger] is_const_view(b[j]) by {
                                assert(b[j] == value_view(items@[j]));
                            }
                            lemma_const_list(b);
                            assert(is_const_view(value_view(*self)));
                        }
                    }
                }
                Some(r)
            },
            Value::Object(fields) => {
                let mut out: Vec<(String, ConstValue)> = Vec::new();
                let mut i: usize = 0;
                while i < fields.len()
                    invariant
                        i <= fields.len(),
                        *self == Value::Object(*fields),
                        out@.len() == i,
                        forall|j: int| 0 <= j < i ==> (#[trigger] out@[j]).0@ == fields@[j].0@,
                        forall|j: int| 0 <= j < i ==> const_value_view((#[trigger] out@[j]).1) == value_view(fields@[j].1),
                        forall|j: int| 0 <= j < i ==> is_const_view(#[trigger] value_view(fields@[j].1)),
                    decreases fields.len() - i,
                {
                    proof {
                        assert(decreases_to!(*fields => fields@));
                        assert(decreases_to!(*self => (*self)->Object_0));
                    }
                    match fields[i].1.to_const() {
                        Some(c) => {
                            let k = fields[i].0.clone();
                            out.push((k, c));
                        },
                        None => {
                            proof {
                                if let ValueView::Object(vs) = value_view(*self) {
                                    assert(vs[i as int].1 == value_view(fields@[i as int].1));
                                    assert(!is_const_view(vs[i as int].1));
                                    lemma_const_object(vs);
                                }
                                assert(value_view(*self) is Object);
                                assert(!is_const_view(value_view(*self)));
                            }
                            return None;
                        },
                    }
                    i += 1;
                }
                let r = ConstValue::Object(out);
                proof {
                    if let ValueView::Object(a) = const_value_view(r) {
                        if let ValueView::Object(b) = value_view(*self) {
                            assert forall|j: int| 0 <= j < a.len() implies a[j] == b[j] by {
                                assert(out@[j].0@ == fields@[j].0@);
                            }
                            assert(a =~= b);
                            assert forall|j: int| 0 <= j < b.len() implies #[trigger] is_const_view(b[j].1) by {
                                assert(b[j].1 == value_view(fields@[j].1));
                            }
                            lemma_const_object(b);
                            assert(is_const_view(value_view(*self)));
                        }
                    }
                }
                Some(r)
            },
        }
    }
}

/// A const GraphQL directive, such as `@deprecated(reason: "Use the other field")`.
/// This differs from [`Directive`] in that it uses [`ConstValue`] instead of [`Value`].
#[derive(Debug)]
pub struct ConstDirective {
    /// The name of the directive.
    pub name: Positioned<String>,
    /// The arguments to the directive.
    pub arguments: Vec<(Positioned<String>, Positioned<ConstValue>)>,
}

/// A GraphQL directive, such as `@deprecated(reason: "Use the other field")`.
#[derive(Debug)]
pub struct Directive {
    /// The name of the directive.
    pub name: Positioned<String>,
    /// The arguments to the directive.
    pub arguments: Vec<(Positioned<String>, Positioned<Value>)>,
}

/// Mathematical model of one directive argument.
pub struct ArgumentView {
    pub name: Seq<char>,
    pub name_pos: Pos,
    pub value: ValueView,
    pub value_pos: Pos,
}

/// Mathematical model of a directive (of either kind).
pub struct DirectiveView {
    pub name: Seq<char>,
    pub name_pos: Pos,
    pub arguments: Seq<ArgumentView>,
}

pub open spec fn const_argument_view(a: (Positioned<String>, Positioned<ConstValue>)) -> ArgumentView {
    ArgumentView { name: a.0.node@, name_pos: a.0.pos, value: a.1.node@, value_pos: a.1.pos }
}

pub open spec fn argument_view(a: (Positioned<String>, Positioned<Value>)) -> ArgumentView {
    ArgumentView { name: a.0.node@, name_pos: a.0.pos, value: a.1.node@, value_pos: a.1.pos }
}

impl View for ConstDirective {
    type V = DirectiveView;

    open spec fn view(&self) -> DirectiveView {
        DirectiveView {
            name: self.name.node@,
            name_pos: self.name.pos,
            arguments: self.arguments@.map_values(|a: (Positioned<String>, Positioned<ConstValue>)| const_argument_view(a)),
        }
    }
}

impl View for Directive {
    type V = DirectiveView;

    open spec fn view(&self) -> DirectiveView {
        DirectiveView {
            name: self.name.node@,
            name_pos: self.name.pos,
            arguments: self.arguments@.map_values(|a: (Positioned<String>, Positioned<Value>)| argument_view(a)),
        }
    }
}

/// `i` is the first position of the argument list whose name is `name`.
pub open spec fn is_first_named(args: Seq<ArgumentView>, name: Seq<char>, i: int) -> bool {
    &&& 0 <= i < args.len()
    &&& args[i].name == name
    &&& forall|j: int| 0 <= j < i ==> args[j].name != name
}

/// No argument of the list is named `name`.
pub open spec fn no_argument_named(args: Seq<ArgumentView>, name: Seq<char>) -> bool {
    forall|j: int| 0 <= j < args.len() ==> args[j].name != name
}

impl ConstDirective {
    /// Convert this `ConstDirective` into a `Directive`.
    pub fn into_directive(self) -> (r: Directive)
        ensures
            r@ == self@,
    {
        let mut arguments: Vec<(Positioned<String>, Positioned<Value>)> = Vec::new();
        let mut i: usize = 0;
        while i < self.arguments.len()
            invariant
                i <= self.arguments.len(),
                arguments@.len() == i,
                forall|j: int| 0 <= j < i ==> #[trigger] argument_view(arguments@[j]) == const_argument_view(self.arguments@[j]),
            decreases self.arguments.len() - i,
        {
            let name = Positioned { pos: self.arguments[i].0.pos, node: self.arguments[i].0.node.clone() };
            let value = Positioned { pos: self.arguments[i].1.pos, node: self.arguments[i].1.node.to_value() };
            arguments.push((name, value));
            i += 1;
        }
        let r = Directive { name: self.name, arguments };
        assert(r@.arguments =~= self@.arguments) by {
            assert forall|j: int| 0 <= j < r@.arguments.len() implies r@.arguments[j] == self@.arguments[j] by {
                assert(argument_view(arguments@[j]) == const_argument_view(self.arguments@[j]));
            }
        }
        r
    }

    /// Get the argument with the given name.
    pub fn get_argument(&self, name: &str) -> (r: Option<&Positioned<ConstValue>>)
        ensures
            match r {
                None => no_argument_named(self@.arguments, name@),
                Some(p) => exists|i: int| is_first_named(self@.arguments, name@, i) && *p == self.arguments@[i].1,
            },
    {
        let mut i: usize = 0;
        while i < self.arguments.len()
            invariant
                i <= self.arguments.len(),
                forall|j: int| 0 <= j < i ==> self@.arguments[j].name != name@,
            decreases self.arguments.len() - i,
        {
            if str_eq(self.arguments[i].0.node.as_str(), name) {
                assert(is_first_named(self@.arguments, name@, i as int));
                return Some(&self.arguments[i].1);
            }
            i += 1;
        }
        None
    }
}

impl Directive {
    /// Attempt to convert this `Directive` into a `ConstDirective`: this
    /// succeeds exactly when no argument value mentions a variable.
    pub fn into_const(self) -> (r: Option<ConstDirective>)
        ensures
            r is Some <==> forall|j: int| 0 <= j < self@.arguments.len() ==> is_const_view(#[trigger] self@.arguments[j].value),
            r matches Some(c) ==> c@ == self@,
    {
        let mut arguments: Vec<(Positioned<String>, Positioned<ConstValue>)> = Vec::new();
        let mut i: usize = 0;
        while i < self.arguments.len()
            invariant
                i <= self.arguments.len(),
                arguments@.len() == i,
                forall|j: int| 0 <= j < i ==> #[trigger] const_argument_view(arguments@[j]) == argument_view(self.arguments@[j]),
                forall|j: int| 0 <= j < i ==> is_const_view(#[trigger] self@.arguments[j].value),
            decreases self.arguments.len() - i,
        {
            match self.arguments[i].1.node.to_const() {
                Some(c) => {
                    let name = Positioned { pos: self.arguments[i].0.pos, node: self.arguments[i].0.node.clone() };
                    let value = Positioned { pos: self.arguments[i].1.pos, node: c };
                    arguments.push((name, value));
                },
                None => {
                    assert(!is_const_view(self@.arguments[i as int].value));
                    return None;
                },
            }
            i += 1;
        }
        let r = ConstDirective { name: self.name, arguments };
        assert(r@.arguments =~= self@.arguments) by {
            assert forall|j: int| 0 <= j < r@.arguments.len() implies r@.arguments[j] == self@.arguments[j] by {
                assert(const_argument_view(arguments@[j]) == argument_view(self.arguments@[j]));
            }
        }
        Some(r)
    }

    /// Get the argument with the given name.
    pub fn get_argument(&self, name: &str) -> (r: Option<&Positioned<Value>>)
        ensures
            match r {
                None => no_argument_named(self@.arguments, name@),
                Some(p) => exists|i: int| is_first_named(self@.arguments, name@, i) && *p == self.arguments@[i].1,
            },
    {
        let mut i: usize = 0;
        while i < self.arguments.len()
            invariant
                i <= self.arguments.len(),
                forall|j: int| 0 <= j < i ==> self@.arguments[j].name != name@,
            decreases self.arguments.len() - i,
        {
            if str_eq(self.arguments[i].0.node.as_str(), name) {
                assert(is_first_named(self@.arguments, name@, i as int));
                return Some(&self.arguments[i].1);
            }
            i += 1;
        }
        None
    }
}

/// Every constant value is free of variables.
pub proof fn lemma_const_value_is_const(c: ConstValue)
    ensures
        is_const_view(const_value_view(c)),
    decreases c,
{
    match c {
        ConstValue::List(items) => {
            if let ValueView::List(vs) = const_value_view(c) {
                assert forall|i: int| 0 <= i < vs.len() implies #[trigger] is_const_view(vs[i]) by {
                    assert(decreases_to!(items => items@));
                    assert(vs[i] == const_value_view(items@[i]));
                    lemma_const_value_is_const(items@[i]);
                }
                lemma_const_list(vs);
            }
        },
        ConstValue::Object(fields) => {
            if let ValueView::Object(vs) = const_value_view(c) {
                assert forall|i: int| 0 <= i < vs.len() implies #[trigger] is_const_view(vs[i].1) by {
                    assert(decreases_to!(fields => fields@));
                    assert(decreases_to!(fields@ => fields@[i]));
                    assert(decreases_to!(fields@[i] => fields@[i].1));
                    assert(vs[i].1 == const_value_view(fields@[i].1));
                    lemma_const_value_is_const(fields@[i].1);
                }
                lemma_const_object(vs);
            }
        },
        _ => {
        },
    }
}

/// Turning a const directive into a directive and then back into a const
/// directive always succeeds: no argument of it mentions a variable, so
/// `into_const` gives back a directive with the same model.
pub proof fn lemma_into_directive_then_const(c: ConstDirective)
    ensures
        forall|j: int| 0 <= j < c@.arguments.len() ==> is_const_view(#[trigger] c@.arguments[j].value),
{
    assert forall|j: int| 0 <= j < c@.arguments.len() implies is_const_view(#[trigger] c@.arguments[j].value) by {
        lemma_const_value_is_const(c.arguments@[j].1.node);
    }
}

} // verus!
