//! The gateway's schema: records stored in vectors and referred to by
//! ids, and walkers that pair an id with the schema to read a record.
use vstd::prelude::*;

verus! {

/// Refers to an interned string of the schema.
#[derive(Debug, Clone, Copy, PartialEq, Eq, Structural, PartialOrd, Ord, Hash)]
pub struct StringId(pub u32);

/// Refers to an interface definition of the schema.
#[derive(Debug, Clone, Copy, PartialEq, Eq, Structural, PartialOrd, Ord, Hash)]
pub struct InterfaceDefinitionId(pub u32);

/// Refers to a scalar definition of the schema.
#[derive(Debug, Clone, Copy, PartialEq, Eq, Structural, PartialOrd, Ord, Hash)]
pub struct ScalarDefinitionId(pub u32);

/// Refers to an object definition of the schema.
#[derive(Debug, Clone, Copy, PartialEq, Eq, Structural, PartialOrd, Ord, Hash)]
pub struct ObjectDefinitionId(pub u32);

/// Refers to a field definition of the schema.
#[derive(Debug, Clone, Copy, PartialEq, Eq, Structural, PartialOrd, Ord, Hash)]
pub struct FieldDefinitionId(pub u32);

/// Refers to an `@authorized` directive of the schema.
#[derive(Debug, Clone, Copy, PartialEq, Eq, Structural, PartialOrd, Ord, Hash)]
pub struct AuthorizedDirectiveId(pub u32);

/// Refers to a `@requiresScopes` directive of the schema.
#[derive(Debug, Clone, Copy, PartialEq, Eq, Structural, PartialOrd, Ord, Hash)]
pub struct RequiresScopesDirectiveId(pub u32);

/// A contiguous range of field definitions: `start` included, `end` excluded.
#[derive(Debug, Clone, Copy, PartialEq, Eq, Structural)]
pub struct FieldIdRange {
    pub start: FieldDefinitionId,
    pub end: FieldDefinitionId,
}

/// The `@deprecated` directive, stored in place.
#[derive(Debug, Clone, Copy, PartialEq, Eq, Structural, PartialOrd, Ord, Hash)]
pub struct DeprecatedDirectiveRecord {
    pub reason_id: Option<StringId>,
}

/// A type-system directive as the schema stores it.
#[derive(Debug, Clone, Copy, PartialEq, Eq, Structural, PartialOrd, Ord, Hash)]
pub enum TypeSystemDirectiveId {
    Authenticated,
    Authorized(AuthorizedDirectiveId),
    Deprecated(DeprecatedDirectiveRecord),
    RequiresScopes(RequiresScopesDirectiveId),
}

impl From<AuthorizedDirectiveId> for TypeSystemDirectiveId {
    fn from(value: AuthorizedDirectiveId) -> (r: Self) {
        TypeSystemDirectiveId::Authorized(value)
    }
}

impl vstd::std_specs::convert::FromSpecImpl<AuthorizedDirectiveId> for TypeSystemDirectiveId {
    open spec fn obeys_from_spec() -> bool {
        true
    }

    open spec fn from_spec(value: AuthorizedDirectiveId) -> Self {
        TypeSystemDirectiveId::Authorized(value)
    }
}

impl From<DeprecatedDirectiveRecord> for TypeSystemDirectiveId {
    fn from(value: DeprecatedDirectiveRecord) -> (r: Self) {
        TypeSystemDirectiveId::Deprecated(value)
    }
}

impl vstd::std_specs::convert::FromSpecImpl<DeprecatedDirectiveRecord> for TypeSystemDirectiveId {
    open spec fn obeys_from_spec() -> bool {
        true
    }

    open spec fn from_spec(value: DeprecatedDirectiveRecord) -> Self {
        TypeSystemDirectiveId::Deprecated(value)
    }
}

impl From<RequiresScopesDirectiveId> for TypeSystemDirectiveId {
    fn from(value: RequiresScopesDirectiveId) -> (r: Self) {
        TypeSystemDirectiveId::RequiresScopes(value)
    }
}

impl vstd::std_specs::convert::FromSpecImpl<RequiresScopesDirectiveId> for TypeSystemDirectiveId {
    open spec fn obeys_from_spec() -> bool {
        true
    }

    open spec fn from_spec(value: RequiresScopesDirectiveId) -> Self {
        TypeSystemDirectiveId::RequiresScopes(value)
    }
}

/// The built-in kind of a scalar.
#[derive(Debug, Clone, Copy, PartialEq, Eq, Structural)]
pub enum ScalarType {
    String,
    Float,
    Int,
    BigInt,
    JSON,
    Boolean,
    Unknown,
}

/// An interface definition as the schema stores it.
#[derive(Debug)]
pub struct InterfaceDefinitionRecord {
    pub name_id: StringId,
    pub description_id: Option<StringId>,
    pub field_ids: FieldIdRange,
    pub interface_ids: Vec<InterfaceDefinitionId>,
    /// Sorted by id, each id once.
    pub possible_type_ids: Vec<ObjectDefinitionId>,
    /// The same objects, ordered by their type name.
    pub possible_types_ordered_by_typename_ids: Vec<ObjectDefinitionId>,
    pub directive_ids: Vec<TypeSystemDirectiveId>,
}

/// A scalar definition as the schema stores it.
#[derive(Debug)]
pub struct ScalarDefinitionRecord {
    pub name_id: StringId,
    pub ty: ScalarType,
    pub description_id: Option<StringId>,
    pub specified_by_url_id: Option<StringId>,
    pub directive_ids: Vec<TypeSystemDirectiveId>,
}

/// An object definition as the schema stores it.
#[derive(Debug)]
pub struct ObjectDefinitionRecord {
    pub name_id: StringId,
    pub description_id: Option<StringId>,
    pub interface_ids: Vec<InterfaceDefinitionId>,
    pub field_ids: FieldIdRange,
}

/// A field definition as the schema stores it.
#[derive(Debug)]
pub struct FieldDefinitionRecord {
    pub name_id: StringId,
    pub description_id: Option<StringId>,
}

/// An `@authorized` directive as the schema stores it.
#[derive(Debug)]
pub struct AuthorizedDirectiveRecord {
    pub metadata_id: Option<StringId>,
}

/// A `@requiresScopes` directive as the schema stores it.
#[derive(Debug)]
pub struct RequiresScopesDirectiveRecord {
    pub scope_ids: Vec<StringId>,
}

/// The schema's definitions.
#[derive(Debug)]
pub struct Schema {
    pub strings: Vec<String>,
    pub interface_definitions: Vec<InterfaceDefinitionRecord>,
    pub scalar_definitions: Vec<ScalarDefinitionRecord>,
    pub object_definitions: Vec<ObjectDefinitionRecord>,
    pub field_definitions: Vec<FieldDefinitionRecord>,
    pub authorized_directives: Vec<AuthorizedDirectiveRecord>,
    pub required_scopes: Vec<RequiresScopesDirectiveRecord>,
    pub resolver_definitions: Vec<crate::resolver::ResolverDefinitionRecord>,
    pub graphql_endpoints: Vec<crate::resolver::GraphqlEndpointRecord>,
    pub extension_directives: Vec<crate::resolver::ExtensionDirectiveRecord>,
    pub field_sets: Vec<crate::resolver::FieldSetRecord>,
}

/// `a` comes before `b` in the order of strings, or equals it: compared
/// character by character (which for UTF-8 is the order of their bytes),
/// a prefix first.
pub open spec fn name_le(a: Seq<char>, b: Seq<char>) -> bool
    decreases a.len(),
{
    if a.len() == 0 {
        true
    } else if b.len() == 0 {
        false
    } else if a[0] != b[0] {
        a[0] < b[0]
    } else {
        name_le(a.drop_first(), b.drop_first())
    }
}

impl Schema {
    pub open spec fn valid_string(&self, id: StringId) -> bool {
        id.0 < self.strings@.len()
    }

    pub open spec fn valid_opt_string(&self, id: Option<StringId>) -> bool {
        match id {
            Some(id) => self.valid_string(id),
            None => true,
        }
    }

    pub open spec fn valid_interface(&self, id: InterfaceDefinitionId) -> bool {
        id.0 < self.interface_definitions@.len()
    }

    pub open spec fn valid_scalar(&self, id: ScalarDefinitionId) -> bool {
        id.0 < self.scalar_definitions@.len()
    }

    pub open spec fn valid_object(&self, id: ObjectDefinitionId) -> bool {
        id.0 < self.object_definitions@.len()
    }

    pub open spec fn valid_field_range(&self, r: FieldIdRange) -> bool {
        r.start.0 <= r.end.0 <= self.field_definitions@.len()
    }

    pub open spec fn valid_directive(&self, d: TypeSystemDirectiveId) -> bool {
        match d {
            TypeSystemDirectiveId::Authenticated => true,
            TypeSystemDirectiveId::Authorized(id) => id.0 < self.authorized_directives@.len(),
            TypeSystemDirectiveId::Deprecated(record) => self.valid_opt_string(record.reason_id),
            TypeSystemDirectiveId::RequiresScopes(id) => id.0 < self.required_scopes@.len(),
        }
    }

    pub open spec fn valid_directives(&self, ds: Seq<TypeSystemDirectiveId>) -> bool {
        forall|i: int| 0 <= i < ds.len() ==> self.valid_directive(#[trigger] ds[i])
    }

    /// The name of an object.
    pub open spec fn object_name(&self, id: ObjectDefinitionId) -> Seq<char> {
        self.strings@[self.object_definitions@[id.0 as int].name_id.0 as int]@
    }

    pub open spec fn valid_interface_record(&self, r: InterfaceDefinitionRecord) -> bool {
        &&& self.valid_string(r.name_id)
        &&& self.valid_opt_string(r.description_id)
        &&& self.valid_field_range(r.field_ids)
        &&& forall|i: int| 0 <= i < r.interface_ids@.len() ==> self.valid_interface(#[trigger] r.interface_ids@[i])
        &&& forall|i: int| 0 <= i < r.possible_type_ids@.len() ==> self.valid_object(#[trigger] r.possible_type_ids@[i])
        &&& forall|i: int, j: int|
            0 <= i < j < r.possible_type_ids@.len() ==> (#[trigger] r.possible_type_ids@[i]).0 < (
            #[trigger] r.possible_type_ids@[j]).0
        &&& r.possible_types_ordered_by_typename_ids@.len() == r.possible_type_ids@.len()
        &&& forall|i: int|
            0 <= i < r.possible_types_ordered_by_typename_ids@.len() ==> r.possible_type_ids@.contains(
                #[trigger] r.possible_types_ordered_by_typename_ids@[i],
            )
        &&& forall|i: int|
            0 <= i < r.possible_types_ordered_by_typename_ids@.len() ==> self.valid_object(
                #[trigger] r.possible_types_ordered_by_typename_ids@[i],
            )
        &&& forall|i: int|
            0 <= i < r.possible_type_ids@.len() ==> r.possible_types_ordered_by_typename_ids@.contains(
                #[trigger] r.possible_type_ids@[i],
            )
        &&& forall|i: int, j: int|
            0 <= i < j < r.possible_types_ordered_by_typename_ids@.len() ==> (
            #[trigger] r.possible_types_ordered_by_typename_ids@[i]) != (
            #[trigger] r.possible_types_ordered_by_typename_ids@[j])
        &&& forall|i: int|
            0 <= i < r.possible_types_ordered_by_typename_ids@.len() - 1 ==> name_le(
                self.object_name(#[trigger] r.possible_types_ordered_by_typename_ids@[i]),
                self.object_name(r.possible_types_ordered_by_typename_ids@[i + 1]),
            )
        &&& self.valid_directives(r.directive_ids@)
    }

    pub open spec fn valid_scalar_record(&self, r: ScalarDefinitionRecord) -> bool {
        &&& self.valid_string(r.name_id)
        &&& self.valid_opt_string(r.description_id)
        &&& self.valid_opt_string(r.specified_by_url_id)
        &&& self.valid_directives(r.directive_ids@)
    }

    /// Every id stored in a record refers to an existing record or string.
    pub open spec fn wf(&self) -> bool {
        &&& forall|i: int| 0 <= i < self.interface_definitions@.len() ==> self.valid_interface_record(
            #[trigger] self.interface_definitions@[i],
        )
        &&& forall|i: int| 0 <= i < self.scalar_definitions@.len() ==> self.valid_scalar_record(
            #[trigger] self.scalar_definitions@[i],
        )
        &&& forall|i: int| 0 <= i < self.object_definitions@.len() ==> self.valid_string(
            (#[trigger] self.object_definitions@[i]).name_id,
        )
        &&& forall|i: int| 0 <= i < self.field_definitions@.len() ==> self.valid_string(
            (#[trigger] self.field_definitions@[i]).name_id,
        )
        &&& forall|i: int| 0 <= i < self.resolver_definitions@.len() ==> self.valid_resolver_record(
            #[trigger] self.resolver_definitions@[i],
        )
        &&& forall|i: int| 0 <= i < self.graphql_endpoints@.len() ==> self.valid_string(
            (#[trigger] self.graphql_endpoints@[i]).subgraph_name_id,
        )
        &&& forall|i: int| 0 <= i < self.extension_directives@.len() ==> self.valid_extension_directive(
            #[trigger] self.extension_directives@[i],
        )
    }

    /// The string an id refers to.
    pub fn string(&self, id: StringId) -> (r: &str)
        requires
            self.valid_string(id),
        ensures
            r@ == self.strings@[id.0 as int]@,
    {
        self.strings[id.0 as usize].as_str()
    }

    fn opt_string(&self, id: Option<StringId>) -> (r: Option<&str>)
        requires
            self.valid_opt_string(id),
        ensures
            match id {
                Some(id) => r matches Some(s) && s@ == self.strings@[id.0 as int]@,
                None => r is None,
            },
    {
        match id {
            Some(id) => Some(self.string(id)),
            None => None,
        }
    }
}

/// An interface definition read from a schema.
#[derive(Clone, Copy)]
pub struct InterfaceDefinition<'a> {
    schema: &'a Schema,
    id: InterfaceDefinitionId,
}

/// A scalar definition read from a schema.
#[derive(Clone, Copy)]
pub struct ScalarDefinition<'a> {
    schema: &'a Schema,
    id: ScalarDefinitionId,
}

/// An object definition read from a schema.
#[derive(Clone, Copy)]
pub struct ObjectDefinition<'a> {
    schema: &'a Schema,
    id: ObjectDefinitionId,
}

/// A field definition read from a schema.
#[derive(Clone, Copy)]
pub struct FieldDefinition<'a> {
    schema: &'a Schema,
    id: FieldDefinitionId,
}

/// An `@authorized` directive read from a schema.
#[derive(Clone, Copy)]
pub struct AuthorizedDirective<'a> {
    schema: &'a Schema,
    id: AuthorizedDirectiveId,
}

/// A `@deprecated` directive read from a schema.
#[derive(Clone, Copy)]
pub struct DeprecatedDirective<'a> {
    schema: &'a Schema,
    record: DeprecatedDirectiveRecord,
}

/// A `@requiresScopes` directive read from a schema.
#[derive(Clone, Copy)]
pub struct RequiresScopesDirective<'a> {
    schema: &'a Schema,
    id: RequiresScopesDirectiveId,
}

/// A type-system directive read from a schema.
#[derive(Clone, Copy)]
pub enum TypeSystemDirective<'a> {
    Authenticated,
    Authorized(AuthorizedDirective<'a>),
    Deprecated(DeprecatedDirective<'a>),
    RequiresScopes(RequiresScopesDirective<'a>),
}

impl<'a> InterfaceDefinition<'a> {
    #[verifier::type_invariant]
    spec fn inv(self) -> bool {
        self.schema.wf() && self.schema.valid_interface(self.id)
    }

    /// The schema the definition is read from.
    pub closed spec fn schema_of(self) -> &'a Schema {
        self.schema
    }

    /// The id of the definition.
    pub closed spec fn id_of(self) -> InterfaceDefinitionId {
        self.id
    }

    /// The stored record.
    pub open spec fn record(self) -> InterfaceDefinitionRecord {
        self.schema_of().interface_definitions@[self.id_of().0 as int]
    }

    /// The stored record of the definition.
    pub fn as_ref(&self) -> (r: &'a InterfaceDefinitionRecord)
        ensures
            *r == self.record(),
    {
        proof {
            use_type_invariant(self);
        }
        &self.schema.interface_definitions[self.id.0 as usize]
    }

    pub fn id(&self) -> (r: InterfaceDefinitionId)
        ensures
            r == self.id_of(),
    {
        self.id
    }

    /// The interface's name.
    pub fn name(&self) -> (r: &'a str)
        ensures
            r@ == self.schema_of().strings@[self.record().name_id.0 as int]@,
    {
        proof {
            use_type_invariant(self);
        }
        self.schema.string(self.as_ref().name_id)
    }

    /// The interface's description, if it has one.
    pub fn description(&self) -> (r: Option<&'a str>)
        ensures
            match self.record().description_id {
                Some(id) => r matches Some(s) && s@ == self.schema_of().strings@[id.0 as int]@,
                None => r is None,
            },
    {
        proof {
            use_type_invariant(self);
        }
        self.schema.opt_string(self.as_ref().description_id)
    }

    /// The interface's fields, in the order of their ids.
    pub fn fields(&self) -> (r: Vec<FieldDefinition<'a>>)
        ensures
            r@.len() == self.record().field_ids.end.0 - self.record().field_ids.start.0,
            forall|i: int|
                0 <= i < r@.len() ==> (#[trigger] r@[i]).id_of().0 == self.record().field_ids.start.0 + i
                    && r@[i].schema_of() == self.schema_of(),
    {
        proof {
            use_type_invariant(self);
        }
        let range = self.as_ref().field_ids;
        read_field_range(self.schema, range)
    }

    /// The interfaces this interface implements.
    pub fn interfaces(&self) -> (r: Vec<InterfaceDefinition<'a>>)
        ensures
            r@.len() == self.record().interface_ids@.len(),
            forall|i: int|
                0 <= i < r@.len() ==> (#[trigger] r@[i]).id_of() == self.record().interface_ids@[i]
                    && r@[i].schema_of() == self.schema_of(),
    {
        proof {
            use_type_invariant(self);
        }
        let ids = &self.as_ref().interface_ids;
        let mut out: Vec<InterfaceDefinition<'a>> = Vec::new();
        let mut i: usize = 0;
        while i < ids.len()
            invariant
                i <= ids.len(),
                self.schema.wf(),
                forall|k: int| 0 <= k < ids@.len() ==> self.schema.valid_interface(#[trigger] ids@[k]),
                out@.len() == i,
                forall|k: int|
                    0 <= k < i ==> (#[trigger] out@[k]).id_of() == ids@[k] && out@[k].schema_of() == self.schema,
            decreases ids.len() - i,
        {
            out.push(ids[i].read(self.schema));
            i += 1;
        }
        out
    }

    /// The objects implementing this interface, sorted by id.
    pub fn possible_types(&self) -> (r: Vec<ObjectDefinition<'a>>)
        ensures
            r@.len() == self.record().possible_type_ids@.len(),
            forall|i: int, j: int| 0 <= i < j < r@.len() ==> (#[trigger] r@[i]).id_of().0 < (#[trigger] r@[j]).id_of().0,
            forall|i: int|
                0 <= i < r@.len() ==> (#[trigger] r@[i]).id_of() == self.record().possible_type_ids@[i]
                    && r@[i].schema_of() == self.schema_of(),
    {
        proof {
            use_type_invariant(self);
        }
        read_objects(self.schema, &self.as_ref().possible_type_ids)
    }

    /// The objects implementing this interface, sorted by their type name:
    /// each object `possible_types` gives, once.
    pub fn possible_types_ordered_by_typename(&self) -> (r: Vec<ObjectDefinition<'a>>)
        ensures
            r@.len() == self.record().possible_types_ordered_by_typename_ids@.len(),
            r@.len() == self.record().possible_type_ids@.len(),
            forall|i: int| 0 <= i < r@.len() ==> self.record().possible_type_ids@.contains(#[trigger] r@[i].id_of()),
            forall|k: int|
                0 <= k < self.record().possible_type_ids@.len()
                    ==> self.record().possible_types_ordered_by_typename_ids@.contains(
                    #[trigger] self.record().possible_type_ids@[k],
                ),
            forall|i: int, j: int| 0 <= i < j < r@.len() ==> (#[trigger] r@[i]).id_of() != (#[trigger] r@[j]).id_of(),
            forall|i: int|
                0 <= i < r@.len() - 1 ==> name_le(
                    self.schema_of().object_name((#[trigger] r@[i]).id_of()),
                    self.schema_of().object_name(r@[i + 1].id_of()),
                ),
            forall|i: int|
                0 <= i < r@.len() ==> (#[trigger] r@[i]).id_of()
                    == self.record().possible_types_ordered_by_typename_ids@[i] && r@[i].schema_of()
                    == self.schema_of(),
    {
        proof {
            use_type_invariant(self);
        }
        read_objects(self.schema, &self.as_ref().possible_types_ordered_by_typename_ids)
    }

    /// The directives applied to the interface.
    pub fn directives(&self) -> (r: Vec<TypeSystemDirective<'a>>)
        ensures
            r@.len() == self.record().directive_ids@.len(),
            forall|i: int|
                0 <= i < r@.len() ==> #[trigger] r@[i].id_of() == self.record().directive_ids@[i],
    {
        proof {
            use_type_invariant(self);
        }
        read_directives(self.schema, &self.as_ref().directive_ids)
    }
}

fn read_field_range<'a>(schema: &'a Schema, range: FieldIdRange) -> (r: Vec<FieldDefinition<'a>>)
    requires
        schema.wf(),
        schema.valid_field_range(range),
    ensures
        r@.len() == range.end.0 - range.start.0,
        forall|i: int|
            0 <= i < r@.len() ==> (#[trigger] r@[i]).id_of().0 == range.start.0 + i && r@[i].schema_of()
                == schema,
{
    let mut out: Vec<FieldDefinition<'a>> = Vec::new();
    let mut k: u32 = range.start.0;
    while k < range.end.0
        invariant
            range.start.0 <= k <= range.end.0,
            range.end.0 <= schema.field_definitions@.len(),
            schema.wf(),
            out@.len() == k - range.start.0,
            forall|i: int|
                0 <= i < out@.len() ==> (#[trigger] out@[i]).id_of().0 == range.start.0 + i
                    && out@[i].schema_of() == schema,
        decreases range.end.0 - k,
    {
        out.push(FieldDefinitionId(k).read(schema));
        k += 1;
    }
    out
}

fn read_objects<'a>(schema: &'a Schema, ids: &Vec<ObjectDefinitionId>) -> (r: Vec<ObjectDefinition<'a>>)
    requires
        schema.wf(),
        forall|k: int| 0 <= k < ids@.len() ==> schema.valid_object(#[trigger] ids@[k]),
    ensures
        r@.len() == ids@.len(),
        forall|i: int|
            0 <= i < r@.len() ==> (#[trigger] r@[i]).id_of() == ids@[i] && r@[i].schema_of() == schema,
{
    let mut out: Vec<ObjectDefinition<'a>> = Vec::new();
    let mut i: usize = 0;
    while i < ids.len()
        invariant
            i <= ids.len(),
            schema.wf(),
            forall|k: int| 0 <= k < ids@.len() ==> schema.valid_object(#[trigger] ids@[k]),
            out@.len() == i,
            forall|k: int| 0 <= k < i ==> (#[trigger] out@[k]).id_of() == ids@[k] && out@[k].schema_of() == schema,
        decreases ids.len() - i,
    {
        out.push(ids[i].read(schema));
        i += 1;
    }
    out
}

fn read_directives<'a>(schema: &'a Schema, ids: &Vec<TypeSystemDirectiveId>) -> (r: Vec<TypeSystemDirective<'a>>)
    requires
        schema.wf(),
        schema.valid_directives(ids@),
    ensures
        r@.len() == ids@.len(),
        forall|i: int| 0 <= i < r@.len() ==> #[trigger] r@[i].id_of() == ids@[i],
{
    let mut out: Vec<TypeSystemDirective<'a>> = Vec::new();
    let mut i: usize = 0;
    while i < ids.len()
        invariant
            i <= ids.len(),
            schema.wf(),
            schema.valid_directives(ids@),
            out@.len() == i,
            forall|k: int| 0 <= k < i ==> #[trigger] out@[k].id_of() == ids@[k],
        decreases ids.len() - i,
    {
        assert(schema.valid_directive(ids@[i as int]));
        out.push(ids[i].read(schema));
        i += 1;
    }
    out
}

impl InterfaceDefinitionId {
    /// The definition this id refers to, in the given schema.
    pub fn read<'s>(self, schema: &'s Schema) -> (r: InterfaceDefinition<'s>)
        requires
            schema.wf(),
            schema.valid_interface(self),
        ensures
            r.schema_of() == schema,
            r.id_of() == self,
    {
        InterfaceDefinition { schema, id: self }
    }
}

impl<'a> ScalarDefinition<'a> {
    #[verifier::type_invariant]
    spec fn inv(self) -> bool {
        self.schema.wf() && self.schema.valid_scalar(self.id)
    }

    /// The schema the definition is read from.
    pub closed spec fn schema_of(self) -> &'a Schema {
        self.schema
    }

    /// The id of the definition.
    pub closed spec fn id_of(self) -> ScalarDefinitionId {
        self.id
    }

    /// The stored record.
    pub open spec fn record(self) -> ScalarDefinitionRecord {
        self.schema_of().scalar_definitions@[self.id_of().0 as int]
    }

    /// The stored record of the definition.
    pub fn as_ref(&self) -> (r: &'a ScalarDefinitionRecord)
        ensures
            *r == self.record(),
    {
        proof {
            use_type_invariant(self);
        }
        &self.schema.scalar_definitions[self.id.0 as usize]
    }

    pub fn id(&self) -> (r: ScalarDefinitionId)
        ensures
            r == self.id_of(),
    {
        self.id
    }

    /// The scalar's name.
    pub fn name(&self) -> (r: &'a str)
        ensures
            r@ == self.schema_of().strings@[self.record().name_id.0 as int]@,
    {
        proof {
            use_type_invariant(self);
        }
        self.schema.string(self.as_ref().name_id)
    }

    /// The scalar's built-in kind.
    pub fn ty(&self) -> (r: ScalarType)
        ensures
            r == self.record().ty,
    {
        self.as_ref().ty
    }

    /// The scalar's description, if it has one.
    pub fn description(&self) -> (r: Option<&'a str>)
        ensures
            match self.record().description_id {
                Some(id) => r matches Some(s) && s@ == self.schema_of().strings@[id.0 as int]@,
                None => r is None,
            },
    {
        proof {
            use_type_invariant(self);
        }
        self.schema.opt_string(self.as_ref().description_id)
    }

    /// Where the scalar's format is specified, if given.
    pub fn specified_by_url(&self) -> (r: Option<&'a str>)
        ensures
            match self.record().specified_by_url_id {
                Some(id) => r matches Some(s) && s@ == self.schema_of().strings@[id.0 as int]@,
                None => r is None,
            },
    {
        proof {
            use_type_invariant(self);
        }
        self.schema.opt_string(self.as_ref().specified_by_url_id)
    }

    /// The directives applied to the scalar.
    pub fn directives(&self) -> (r: Vec<TypeSystemDirective<'a>>)
        ensures
            r@.len() == self.record().directive_ids@.len(),
            forall|i: int|
                0 <= i < r@.len() ==> #[trigger] r@[i].id_of() == self.record().directive_ids@[i],
    {
        proof {
            use_type_invariant(self);
        }
        read_directives(self.schema, &self.as_ref().directive_ids)
    }
}

impl ScalarDefinitionId {
    /// The definition this id refers to, in the given schema.
    pub fn read<'s>(self, schema: &'s Schema) -> (r: ScalarDefinition<'s>)
        requires
            schema.wf(),
            schema.valid_scalar(self),
        ensures
            r.schema_of() == schema,
            r.id_of() == self,
    {
        ScalarDefinition { schema, id: self }
    }
}

impl<'a> ObjectDefinition<'a> {
    #[verifier::type_invariant]
    spec fn inv(self) -> bool {
        self.schema.wf() && self.schema.valid_object(self.id)
    }

    /// The schema the definition is read from.
    pub closed spec fn schema_of(self) -> &'a Schema {
        self.schema
    }

    /// The id of the definition.
    pub closed spec fn id_of(self) -> ObjectDefinitionId {
        self.id
    }

    pub fn id(&self) -> (r: ObjectDefinitionId)
        ensures
            r == self.id_of(),
    {
        self.id
    }

    /// The object's name.
    pub fn name(&self) -> (r: &'a str)
        ensures
            r@ == self.schema_of().strings@[self.schema_of().object_definitions@[self.id_of().0 as int].name_id.0 as int]@,
    {
        proof {
            use_type_invariant(self);
        }
        self.schema.string(self.schema.object_definitions[self.id.0 as usize].name_id)
    }
}

impl ObjectDefinitionId {
    /// The definition this id refers to, in the given schema.
    pub fn read<'s>(self, schema: &'s Schema) -> (r: ObjectDefinition<'s>)
        requires
            schema.wf(),
            schema.valid_object(self),
        ensures
            r.schema_of() == schema,
            r.id_of() == self,
    {
        ObjectDefinition { schema, id: self }
    }
}

impl<'a> FieldDefinition<'a> {
    #[verifier::type_invariant]
    spec fn inv(self) -> bool {
        self.schema.wf() && self.id.0 < self.schema.field_definitions@.len()
    }

    /// The schema the definition is read from.
    pub closed spec fn schema_of(self) -> &'a Schema {
        self.schema
    }

    /// The id of the definition.
    pub closed spec fn id_of(self) -> FieldDefinitionId {
        self.id
    }

    pub fn id(&self) -> (r: FieldDefinitionId)
        ensures
            r == self.id_of(),
    {
        self.id
    }

    /// The field's name.
    pub fn name(&self) -> (r: &'a str)
        ensures
            r@ == self.schema_of().strings@[self.schema_of().field_definitions@[self.id_of().0 as int].name_id.0 as int]@,
    {
        proof {
            use_type_invariant(self);
        }
        self.schema.string(self.schema.field_definitions[self.id.0 as usize].name_id)
    }
}

impl FieldDefinitionId {
    /// The definition this id refers to, in the given schema.
    pub fn read<'s>(self, schema: &'s Schema) -> (r: FieldDefinition<'s>)
        requires
            schema.wf(),
            self.0 < schema.field_definitions@.len(),
        ensures
            r.schema_of() == schema,
            r.id_of() == self,
    {
        FieldDefinition { schema, id: self }
    }
}

impl<'a> AuthorizedDirective<'a> {
    /// The id of the directive.
    pub closed spec fn id_of(self) -> AuthorizedDirectiveId {
        self.id
    }

    pub fn id(&self) -> (r: AuthorizedDirectiveId)
        ensures
            r == self.id_of(),
    {
        self.id
    }
}

impl<'a> DeprecatedDirective<'a> {
    /// The stored directive.
    pub closed spec fn record_of(self) -> DeprecatedDirectiveRecord {
        self.record
    }

    #[verifier::type_invariant]
    spec fn inv(self) -> bool {
        self.schema.valid_opt_string(self.record.reason_id)
    }

    /// The reason given for the deprecation, if any.
    pub fn reason(&self) -> (r: Option<&'a str>)
        ensures
            match self.record_of().reason_id {
                Some(id) => r is Some,
                None => r is None,
            },
    {
        proof {
            use_type_invariant(self);
        }
        self.schema.opt_string(self.record.reason_id)
    }
}

impl<'a> RequiresScopesDirective<'a> {
    /// The id of the directive.
    pub closed spec fn id_of(self) -> RequiresScopesDirectiveId {
        self.id
    }

    pub fn id(&self) -> (r: RequiresScopesDirectiveId)
        ensures
            r == self.id_of(),
    {
        self.id
    }
}

impl<'a> TypeSystemDirective<'a> {
    /// The stored form of the directive.
    pub open spec fn id_of(self) -> TypeSystemDirectiveId {
        match self {
            TypeSystemDirective::Authenticated => TypeSystemDirectiveId::Authenticated,
            TypeSystemDirective::Authorized(d) => TypeSystemDirectiveId::Authorized(d.id_of()),
            TypeSystemDirective::Deprecated(d) => TypeSystemDirectiveId::Deprecated(d.record_of()),
            TypeSystemDirective::RequiresScopes(d) => TypeSystemDirectiveId::RequiresScopes(d.id_of()),
        }
    }
}

impl TypeSystemDirectiveId {
    /// The directive this id refers to, in the given schema.
    pub fn read<'s>(self, schema: &'s Schema) -> (r: TypeSystemDirective<'s>)
        requires
            schema.valid_directive(self),
        ensures
            r.id_of() == self,
    {
        match self {
            TypeSystemDirectiveId::Authenticated => TypeSystemDirective::Authenticated,
            TypeSystemDirectiveId::Authorized(id) => TypeSystemDirective::Authorized(AuthorizedDirective { schema, id }),
            TypeSystemDirectiveId::Deprecated(item) => TypeSystemDirective::Deprecated(DeprecatedDirective { schema, record: item }),
            TypeSystemDirectiveId::RequiresScopes(id) => TypeSystemDirective::RequiresScopes(
                RequiresScopesDirective { schema, id },
            ),
        }
    }
}

} // verus!
