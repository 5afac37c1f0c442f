//! The relation engine: which schema fields are relations, what a relation
//! is called, which names are acceptable, and how a stored relation is seen
//! from either of its two sides.
use vstd::prelude::*;

use crate::gql_types::{
    ConstDirective, ConstValue, DirectiveView, Positioned, Type, ValueView, is_first_named,
    no_argument_named,
};
use crate::util::{owned, str_eq};

verus! {

/// Implement the Relation Engine
///
/// A relation exists between two modelized nodes. It is either implicit
/// (a field of a modelized node whose type is another modelized node) or
/// explicit (named by the `@relation` directive on the field).
pub struct RelationEngine;

/// The name of the directive that names a relation.
pub const RELATION_DIRECTIVE: &'static str = "relation";

/// The name of the argument of `@relation` that holds the relation's name.
pub const NAME_ARGUMENT: &'static str = "name";

/// The name of the directive that marks a type as a model.
pub const MODEL_DIRECTIVE: &'static str = "model";

/// The characters a relation name may hold, as a regular-expression class.
pub const NAME_CHARS: &'static str = "[_a-zA-Z0-9]";

/// The pattern a relation name must match.
pub const NAME_PATTERN: &'static str = "^[_a-zA-Z0-9]*$";

/// A field of an object type, as far as relations read it.
#[derive(Debug)]
pub struct FieldDefinition {
    /// The field's name.
    pub name: Positioned<String>,
    /// The field's type.
    pub ty: Positioned<Type>,
    /// The directives applied to the field.
    pub directives: Vec<Positioned<ConstDirective>>,
}

/// The kind of a relation, seen from the side that declares it.
#[derive(Debug, Clone, Copy, PartialEq, Eq, Structural)]
pub enum MetaRelationKind {
    OneToOne,
    OneToMany,
    ManyToOne,
    ManyToMany,
}

/// The kind of a relation seen from its other side.
pub open spec fn inverse_kind(k: MetaRelationKind) -> MetaRelationKind {
    match k {
        MetaRelationKind::OneToOne => MetaRelationKind::OneToOne,
        MetaRelationKind::OneToMany => MetaRelationKind::ManyToOne,
        MetaRelationKind::ManyToOne => MetaRelationKind::OneToMany,
        MetaRelationKind::ManyToMany => MetaRelationKind::ManyToMany,
    }
}

impl MetaRelationKind {
    /// The kind of the relation seen from its other side.
    pub fn inverse(&self) -> (r: MetaRelationKind)
        ensures
            r == inverse_kind(*self),
    {
        match self {
            MetaRelationKind::OneToOne => MetaRelationKind::OneToOne,
            MetaRelationKind::OneToMany => MetaRelationKind::ManyToOne,
            MetaRelationKind::ManyToOne => MetaRelationKind::OneToMany,
            MetaRelationKind::ManyToMany => MetaRelationKind::ManyToMany,
        }
    }
}

/// A relation between two modelized types.
#[derive(Debug)]
pub struct MetaRelation {
    /// The relation's name.
    pub name: String,
    /// The relation's kind, from the declaring side.
    pub kind: MetaRelationKind,
    /// The two sides of the relation: the declaring type (if known) and the
    /// related type.
    pub relation: (Option<String>, String),
    /// Whether both sides declare the relation.
    pub birectional: bool,
}

/// Mathematical model of a [`MetaRelation`].
pub struct MetaRelationView {
    pub name: Seq<char>,
    pub kind: MetaRelationKind,
    pub relation: (Option<Seq<char>>, Seq<char>),
    pub birectional: bool,
}

pub open spec fn opt_string_view(s: Option<String>) -> Option<Seq<char>> {
    match s {
        Some(s) => Some(s@),
        None => None,
    }
}

impl View for MetaRelation {
    type V = MetaRelationView;

    open spec fn view(&self) -> MetaRelationView {
        MetaRelationView {
            name: self.name@,
            kind: self.kind,
            relation: (opt_string_view(self.relation.0), self.relation.1@),
            birectional: self.birectional,
        }
    }
}

/// What `RelationEngine::get` gives for the stored relation `stored` and the
/// partial relation built from the side being looked at: the stored one when
/// it was declared from this side, else the stored one turned around.
pub open spec fn relation_seen_from(stored: MetaRelationView, partial: MetaRelationView) -> MetaRelationView {
    if stored.relation == partial.relation {
        stored
    } else {
        MetaRelationView { kind: inverse_kind(stored.kind), relation: partial.relation, ..stored }
    }
}

/// A character a relation name may hold.
pub open spec fn is_name_char(c: char) -> bool {
    ('a' <= c <= 'z') || ('A' <= c <= 'Z') || ('0' <= c <= '9') || c == '_'
}

/// A relation name is acceptable when all its characters are name characters.
pub open spec fn is_valid_relation_name(name: Seq<char>) -> bool {
    forall|i: int| 0 <= i < name.len() ==> is_name_char(#[trigger] name[i])
}

/// Calls `regex::Regex::new(pattern)` and then `Regex::is_match(text)`. The
/// pattern is required to be `^[_a-zA-Z0-9]*$`; by the `regex` crate's
/// documented syntax it matches exactly the texts that consist only of
/// ASCII letters, digits and `_` (the empty text too).
#[verifier::external_body]
fn regex_is_match(pattern: &str, text: &str) -> (r: bool)
    requires
        pattern@ == NAME_PATTERN@,
    ensures
        r == is_valid_relation_name(text@),
{
    match regex::Regex::new(pattern) {
        Ok(re) => re.is_match(text),
        Err(_) => false,
    }
}

/// The directive named `@relation` among the field's directives, if any:
/// `i` is the position of the first one.
pub open spec fn is_first_relation_directive(directives: Seq<Positioned<ConstDirective>>, i: int) -> bool {
    &&& 0 <= i < directives.len()
    &&& directives[i].node@.name == RELATION_DIRECTIVE@
    &&& forall|j: int| 0 <= j < i ==> directives[j].node@.name != RELATION_DIRECTIVE@
}

/// The message reported for a relation name that holds other characters.
pub open spec fn invalid_name_message(name: Seq<char>) -> Seq<char> {
    "Relation names should only contain "@ + NAME_CHARS@ + " but "@ + name + " does not"@
}

/// The message reported when two declarations of a relation conflict.
pub open spec fn relation_issue_message(err: Seq<char>) -> Seq<char> {
    "Relations issues: "@ + err
}

impl RelationEngine {
    /// The relation as seen from the side that `partial` was built from,
    /// given the relation stored under its name (if any): the stored one
    /// when it was declared from this side, else the stored one turned
    /// around (kind inverted, sides as in `partial`).
    pub fn get(stored: Option<&MetaRelation>, partial: &MetaRelation) -> (r: Option<MetaRelation>)
        ensures
            match stored {
                None => r is None,
                Some(s) => r matches Some(x) && x@ == relation_seen_from(s@, partial@),
            },
    {
        match stored {
            None => None,
            Some(relation) => {
                let same = same_sides(&relation.relation, &partial.relation);
                if same {
                    Some(copy_relation(relation))
                } else {
                    Some(
                        MetaRelation {
                            name: relation.name.clone(),
                            kind: relation.kind.inverse(),
                            relation: copy_sides(&partial.relation),
                            birectional: relation.birectional,
                        },
                    )
                }
            },
        }
    }

    /// The definition of the `@relation` directive, in SDL.
    pub fn definition(&self) -> (r: String)
        ensures
            r@ == "
        directive @relation(
          \"\"\"
          The name of the relation
          \"\"\"
          name: String!
        ) on FIELD_DEFINITION
        "@,
    {
        owned(
            "
        directive @relation(
          \"\"\"
          The name of the relation
          \"\"\"
          name: String!
        ) on FIELD_DEFINITION
        ",
        )
    }

    /// Whether a relation name holds only letters, digits and `_`.
    pub fn is_valid_name(name: &str) -> (r: bool)
        ensures
            r == is_valid_relation_name(name@),
    {
        regex_is_match(NAME_PATTERN, name)
    }

    /// The error message for a relation name, if it is not acceptable.
    pub fn check_name(name: &str) -> (r: Option<String>)
        ensures
            match r {
                None => is_valid_relation_name(name@),
                Some(m) => !is_valid_relation_name(name@) && m@ == invalid_name_message(name@),
            },
    {
        if Self::is_valid_name(name) {
            None
        } else {
            let mut m = owned("Relation names should only contain ");
            m.append(NAME_CHARS);
            m.append(" but ");
            m.append(name);
            m.append(" does not");
            Some(m)
        }
    }

    /// The message reported for conflicting declarations of a relation.
    pub fn issue_message(err: &str) -> (r: String)
        ensures
            r@ == relation_issue_message(err@),
    {
        let mut m = owned("Relations issues: ");
        m.append(err);
        m
    }
}

/// Whether a type is modelized: one of its directives is `@model`.
pub fn is_modelized(directives: &Vec<Positioned<ConstDirective>>) -> (r: bool)
    ensures
        r == exists|i: int| 0 <= i < directives@.len() && (#[trigger] directives@[i]).node@.name == MODEL_DIRECTIVE@,
{
    let mut i: usize = 0;
    while i < directives.len()
        invariant
            i <= directives.len(),
            forall|j: int| 0 <= j < i ==> (#[trigger] directives@[j]).node@.name != MODEL_DIRECTIVE@,
        decreases directives.len() - i,
    {
        if str_eq(directives[i].node.name.node.as_str(), MODEL_DIRECTIVE) {
            return true;
        }
        i += 1;
    }
    false
}

/// The `name` argument of the field's first `@relation` directive, if the
/// field has such a directive and it has that argument.
pub fn relation_name(field: &FieldDefinition) -> (r: Option<&Positioned<ConstValue>>)
    ensures
        match r {
            None => (forall|i: int| 0 <= i < field.directives@.len() ==> (#[trigger] field.directives@[i]).node@.name != RELATION_DIRECTIVE@)
                || exists|i: int| is_first_relation_directive(field.directives@, i) && no_argument_named(field.directives@[i].node@.arguments, NAME_ARGUMENT@),
            Some(p) => exists|i: int, k: int| is_first_relation_directive(field.directives@, i)
                && is_first_named(field.directives@[i].node@.arguments, NAME_ARGUMENT@, k)
                && *p == field.directives@[i].node.arguments@[k].1,
        },
{
    let mut i: usize = 0;
    while i < field.directives.len()
        invariant
            i <= field.directives.len(),
            forall|j: int| 0 <= j < i ==> (#[trigger] field.directives@[j]).node@.name != RELATION_DIRECTIVE@,
        decreases field.directives.len() - i,
    {
        if str_eq(field.directives[i].node.name.node.as_str(), RELATION_DIRECTIVE) {
            assert(is_first_relation_directive(field.directives@, i as int));
            return field.directives[i].node.get_argument(NAME_ARGUMENT);
        }
        i += 1;
    }
    None
}

/// The string given as the relation's name, if the `name` argument of the
/// field's `@relation` directive is a string.
pub fn relation_name_string(field: &FieldDefinition) -> (r: Option<String>)
    ensures
        match relation_name_spec(field) {
            Some(ValueView::String(s)) => r matches Some(x) && x@ == s,
            _ => r is None,
        },
{
    match relation_name(field) {
        Some(p) => match &p.node {
            ConstValue::String(inner) => Some(inner.clone()),
            _ => None,
        },
        None => None,
    }
}

/// The value of the field's relation name argument, when there is one.
pub open spec fn relation_name_spec(field: &FieldDefinition) -> Option<ValueView> {
    if exists|i: int, k: int| is_first_relation_directive(field.directives@, i)
        && is_first_named(field.directives@[i].node@.arguments, NAME_ARGUMENT@, k) {
        let (i, k) = choose|i: int, k: int| is_first_relation_directive(field.directives@, i)
            && is_first_named(field.directives@[i].node@.arguments, NAME_ARGUMENT@, k);
        Some(field.directives@[i].node.arguments@[k].1.node@)
    } else {
        None
    }
}

fn same_sides(a: &(Option<String>, String), b: &(Option<String>, String)) -> (r: bool)
    ensures
        r == ((opt_string_view(a.0), a.1@) == (opt_string_view(b.0), b.1@)),
{
    let first = match (&a.0, &b.0) {
        (Some(x), Some(y)) => str_eq(x.as_str(), y.as_str()),
        (None, None) => true,
        _ => false,
    };
    first && str_eq(a.1.as_str(), b.1.as_str())
}

fn copy_sides(a: &(Option<String>, String)) -> (r: (Option<String>, String))
    ensures
        opt_string_view(r.0) == opt_string_view(a.0),
        r.1@ == a.1@,
{
    let first = match &a.0 {
        Some(x) => Some(x.clone()),
        None => None,
    };
    (first, a.1.clone())
}

fn copy_relation(r: &MetaRelation) -> (c: MetaRelation)
    ensures
        c@ == r@,
{
    MetaRelation { name: r.name.clone(), kind: r.kind, relation: copy_sides(&r.relation), birectional: r.birectional }
}

/// Seeing a relation from the other side and then back from the first side
/// gives the stored relation again.
pub proof fn lemma_inverse_involution(k: MetaRelationKind)
    ensures
        inverse_kind(inverse_kind(k)) == k,
{
}

/// Whatever was stored, the relation that `get` gives has the sides of the
/// partial relation it was asked for, and keeps the stored name.
pub proof fn lemma_seen_from_sides(stored: MetaRelationView, partial: MetaRelationView)
    ensures
        relation_seen_from(stored, partial).relation == partial.relation,
        relation_seen_from(stored, partial).name == stored.name,
        relation_seen_from(stored, partial).birectional == stored.birectional,
{
}

/// Looking at a stored relation from the side it was declared from, then
/// from the side it was turned to, gives it back unchanged.
pub proof fn lemma_seen_from_round_trip(stored: MetaRelationView, other: MetaRelationView)
    ensures
        relation_seen_from(relation_seen_from(stored, other), stored) == stored,
{
}

/// A relation seen from its other side keeps a one-to-one or many-to-many
/// kind and swaps one-to-many with many-to-one; seen from its own side it
/// keeps its kind.
pub proof fn lemma_seen_from_kind(stored: MetaRelationView, partial: MetaRelationView)
    ensures
        stored.relation == partial.relation ==> relation_seen_from(stored, partial).kind == stored.kind,
        stored.relation != partial.relation ==> {
            let k = relation_seen_from(stored, partial).kind;
            &&& stored.kind == MetaRelationKind::OneToOne ==> k == MetaRelationKind::OneToOne
            &&& stored.kind == MetaRelationKind::ManyToMany ==> k == MetaRelationKind::ManyToMany
            &&& stored.kind == MetaRelationKind::OneToMany ==> k == MetaRelationKind::ManyToOne
            &&& stored.kind == MetaRelationKind::ManyToOne ==> k == MetaRelationKind::OneToMany
        },
{
}

} // verus!
