//! Resolvers of the schema: which subgraph serves a field, what fields a
//! resolver needs from the parent, and the name under which it is reported.
use vstd::prelude::*;

use crate::schema::{FieldDefinitionId, Schema, StringId};
use crate::util::owned;

verus! {

/// Refers to a resolver definition of the schema.
#[derive(Debug, Clone, Copy, PartialEq, Eq, Structural, PartialOrd, Ord, Hash)]
pub struct ResolverDefinitionId(pub u32);

/// Refers to a GraphQL endpoint (a subgraph reached over GraphQL).
#[derive(Debug, Clone, Copy, PartialEq, Eq, Structural, PartialOrd, Ord, Hash)]
pub struct GraphqlEndpointId(pub u32);

/// Refers to a directive of an extension.
#[derive(Debug, Clone, Copy, PartialEq, Eq, Structural, PartialOrd, Ord, Hash)]
pub struct ExtensionDirectiveId(pub u32);

/// Refers to a set of fields required from a parent object.
#[derive(Debug, Clone, Copy, PartialEq, Eq, Structural, PartialOrd, Ord, Hash)]
pub struct FieldSetId(pub u32);

/// A subgraph: a GraphQL endpoint, or the gateway's own introspection.
#[derive(Debug, Clone, Copy, PartialEq, Eq, Structural, PartialOrd, Ord, Hash)]
pub enum SubgraphId {
    GraphqlEndpoint(GraphqlEndpointId),
    Introspection,
}

/// A GraphQL endpoint as the schema stores it.
#[derive(Debug)]
pub struct GraphqlEndpointRecord {
    pub subgraph_name_id: StringId,
}

/// A directive of an extension as the schema stores it.
#[derive(Debug)]
pub struct ExtensionDirectiveRecord {
    pub subgraph_id: SubgraphId,
    pub name_id: StringId,
}

/// A set of fields as the schema stores it.
#[derive(Debug)]
pub struct FieldSetRecord {
    pub field_ids: Vec<FieldDefinitionId>,
}

/// Resolves entities of a subgraph through its `_entities` field.
#[derive(Debug, Clone, Copy, PartialEq, Eq, Structural)]
pub struct GraphqlFederationEntityResolverDefinitionRecord {
    pub endpoint_id: GraphqlEndpointId,
    pub key_fields_id: FieldSetId,
}

/// Resolves root fields of a subgraph.
#[derive(Debug, Clone, Copy, PartialEq, Eq, Structural)]
pub struct GraphqlRootFieldResolverDefinitionRecord {
    pub endpoint_id: GraphqlEndpointId,
}

/// Resolves a field through an extension's directive.
#[derive(Debug, Clone, Copy, PartialEq, Eq, Structural)]
pub struct FieldResolverExtensionDefinitionRecord {
    pub directive_id: ExtensionDirectiveId,
    pub requirements_id: FieldSetId,
}

/// A resolver definition as the schema stores it.
#[derive(Debug, Clone, Copy, PartialEq, Eq, Structural)]
pub enum ResolverDefinitionRecord {
    GraphqlFederationEntity(GraphqlFederationEntityResolverDefinitionRecord),
    GraphqlRootField(GraphqlRootFieldResolverDefinitionRecord),
    Introspection,
    FieldResolverExtension(FieldResolverExtensionDefinitionRecord),
}

impl Schema {
    pub open spec fn valid_endpoint(&self, id: GraphqlEndpointId) -> bool {
        id.0 < self.graphql_endpoints@.len()
    }

    pub open spec fn valid_field_set(&self, id: FieldSetId) -> bool {
        id.0 < self.field_sets@.len()
    }

    pub open spec fn valid_subgraph(&self, id: SubgraphId) -> bool {
        match id {
            SubgraphId::GraphqlEndpoint(e) => self.valid_endpoint(e),
            SubgraphId::Introspection => true,
        }
    }

    pub open spec fn valid_extension_directive(&self, r: ExtensionDirectiveRecord) -> bool {
        self.valid_subgraph(r.subgraph_id) && self.valid_string(r.name_id)
    }

    pub open spec fn valid_resolver_record(&self, r: ResolverDefinitionRecord) -> bool {
        match r {
            ResolverDefinitionRecord::GraphqlFederationEntity(e) => self.valid_endpoint(e.endpoint_id)
                && self.valid_field_set(e.key_fields_id),
            ResolverDefinitionRecord::GraphqlRootField(e) => self.valid_endpoint(e.endpoint_id),
            ResolverDefinitionRecord::Introspection => true,
            ResolverDefinitionRecord::FieldResolverExtension(e) => e.directive_id.0
                < self.extension_directives@.len() && self.valid_field_set(e.requirements_id),
        }
    }

    /// The name of the subgraph behind an endpoint.
    pub open spec fn endpoint_name(&self, id: GraphqlEndpointId) -> Seq<char> {
        self.strings@[self.graphql_endpoints@[id.0 as int].subgraph_name_id.0 as int]@
    }

    /// The name of a subgraph.
    pub open spec fn subgraph_name(&self, id: SubgraphId) -> Seq<char> {
        match id {
            SubgraphId::GraphqlEndpoint(e) => self.endpoint_name(e),
            SubgraphId::Introspection => "introspection"@,
        }
    }

    /// The subgraph a resolver belongs to.
    pub open spec fn resolver_subgraph_id(&self, r: ResolverDefinitionRecord) -> SubgraphId {
        match r {
            ResolverDefinitionRecord::GraphqlFederationEntity(e) => SubgraphId::GraphqlEndpoint(e.endpoint_id),
            ResolverDefinitionRecord::GraphqlRootField(e) => SubgraphId::GraphqlEndpoint(e.endpoint_id),
            ResolverDefinitionRecord::Introspection => SubgraphId::Introspection,
            ResolverDefinitionRecord::FieldResolverExtension(e) => self.extension_directives@[e.directive_id.0 as int].subgraph_id,
        }
    }

    /// The fields a resolver needs from the parent object, if any.
    pub open spec fn resolver_required_field_set(&self, r: ResolverDefinitionRecord) -> Option<FieldSetId> {
        match r {
            ResolverDefinitionRecord::GraphqlFederationEntity(e) => Some(e.key_fields_id),
            ResolverDefinitionRecord::FieldResolverExtension(e) => Some(e.requirements_id),
            _ => None,
        }
    }

    /// The name of an extension directive's resolver: `<directive>#<subgraph>`.
    pub open spec fn extension_resolver_name(&self, e: FieldResolverExtensionDefinitionRecord) -> Seq<char> {
        let d = self.extension_directives@[e.directive_id.0 as int];
        self.strings@[d.name_id.0 as int]@ + "#"@ + self.subgraph_name(d.subgraph_id)
    }

    /// The name under which a resolver is reported.
    pub open spec fn resolver_name(&self, r: ResolverDefinitionRecord) -> Seq<char> {
        match r {
            ResolverDefinitionRecord::Introspection => "Introspection"@,
            ResolverDefinitionRecord::GraphqlRootField(e) => "Root#"@ + self.endpoint_name(e.endpoint_id),
            ResolverDefinitionRecord::GraphqlFederationEntity(e) => "FedEntity#"@ + self.endpoint_name(e.endpoint_id),
            ResolverDefinitionRecord::FieldResolverExtension(e) => self.extension_resolver_name(e),
        }
    }
}

/// A GraphQL endpoint read from a schema.
#[derive(Clone, Copy)]
pub struct GraphqlEndpoint<'a> {
    schema: &'a Schema,
    id: GraphqlEndpointId,
}

impl<'a> GraphqlEndpoint<'a> {
    #[verifier::type_invariant]
    spec fn inv(self) -> bool {
        self.schema.wf() && self.schema.valid_endpoint(self.id)
    }

    pub closed spec fn schema_of(self) -> &'a Schema {
        self.schema
    }

    pub closed spec fn id_of(self) -> GraphqlEndpointId {
        self.id
    }

    pub fn id(&self) -> (r: GraphqlEndpointId)
        ensures
            r == self.id_of(),
    {
        self.id
    }

    /// The name of the subgraph behind the endpoint.
    pub fn subgraph_name(&self) -> (r: &'a str)
        ensures
            r@ == self.schema_of().endpoint_name(self.id_of()),
    {
        proof {
            use_type_invariant(self);
        }
        self.schema.string(self.schema.graphql_endpoints[self.id.0 as usize].subgraph_name_id)
    }
}

impl GraphqlEndpointId {
    /// The endpoint this id refers to, in the given schema.
    pub fn walk<'s>(self, schema: &'s Schema) -> (r: GraphqlEndpoint<'s>)
        requires
            schema.wf(),
            schema.valid_endpoint(self),
        ensures
            r.schema_of() == schema,
            r.id_of() == self,
    {
        GraphqlEndpoint { schema, id: self }
    }
}

/// A subgraph read from a schema.
#[derive(Clone, Copy)]
pub enum Subgraph<'a> {
    GraphqlEndpoint(GraphqlEndpoint<'a>),
    Introspection,
}

impl<'a> Subgraph<'a> {
    /// The subgraph's name.
    pub fn name(&self) -> (r: &'a str)
        ensures
            match self {
                Subgraph::GraphqlEndpoint(e) => r@ == e.schema_of().endpoint_name(e.id_of()),
                Subgraph::Introspection => r@ == "introspection"@,
            },
    {
        match self {
            Subgraph::GraphqlEndpoint(e) => e.subgraph_name(),
            Subgraph::Introspection => "introspection",
        }
    }

    /// The id of the subgraph.
    pub open spec fn id_of(self) -> SubgraphId {
        match self {
            Subgraph::GraphqlEndpoint(e) => SubgraphId::GraphqlEndpoint(e.id_of()),
            Subgraph::Introspection => SubgraphId::Introspection,
        }
    }
}

impl SubgraphId {
    /// The subgraph this id refers to, in the given schema.
    pub fn walk<'s>(self, schema: &'s Schema) -> (r: Subgraph<'s>)
        requires
            schema.wf(),
            schema.valid_subgraph(self),
        ensures
            r.id_of() == self,
            match r {
                Subgraph::GraphqlEndpoint(e) => e.schema_of() == schema,
                Subgraph::Introspection => true,
            },
    {
        match self {
            SubgraphId::GraphqlEndpoint(e) => Subgraph::GraphqlEndpoint(e.walk(schema)),
            SubgraphId::Introspection => Subgraph::Introspection,
        }
    }
}

/// A set of fields read from a schema.
#[derive(Clone, Copy)]
pub struct FieldSet<'a> {
    schema: &'a Schema,
    id: FieldSetId,
}

impl<'a> FieldSet<'a> {
    #[verifier::type_invariant]
    spec fn inv(self) -> bool {
        self.schema.wf() && self.schema.valid_field_set(self.id)
    }

    pub closed spec fn schema_of(self) -> &'a Schema {
        self.schema
    }

    pub closed spec fn id_of(self) -> FieldSetId {
        self.id
    }

    pub fn id(&self) -> (r: FieldSetId)
        ensures
            r == self.id_of(),
    {
        self.id
    }

    /// The fields of the set.
    pub fn field_ids(&self) -> (r: &'a Vec<FieldDefinitionId>)
        ensures
            *r == self.schema_of().field_sets@[self.id_of().0 as int].field_ids,
    {
        proof {
            use_type_invariant(self);
        }
        &self.schema.field_sets[self.id.0 as usize].field_ids
    }
}

impl FieldSetId {
    /// The field set this id refers to, in the given schema.
    pub fn walk<'s>(self, schema: &'s Schema) -> (r: FieldSet<'s>)
        requires
            schema.wf(),
            schema.valid_field_set(self),
        ensures
            r.schema_of() == schema,
            r.id_of() == self,
    {
        FieldSet { schema, id: self }
    }
}

/// A directive of an extension read from a schema.
#[derive(Clone, Copy)]
pub struct ExtensionDirective<'a> {
    schema: &'a Schema,
    id: ExtensionDirectiveId,
}

impl<'a> ExtensionDirective<'a> {
    #[verifier::type_invariant]
    spec fn inv(self) -> bool {
        self.schema.wf() && self.id.0 < self.schema.extension_directives@.len()
    }

    pub closed spec fn schema_of(self) -> &'a Schema {
        self.schema
    }

    pub closed spec fn id_of(self) -> ExtensionDirectiveId {
        self.id
    }

    /// The stored record.
    pub open spec fn record(self) -> ExtensionDirectiveRecord {
        self.schema_of().extension_directives@[self.id_of().0 as int]
    }

    /// The directive's name.
    pub fn name(&self) -> (r: &'a str)
        ensures
            r@ == self.schema_of().strings@[self.record().name_id.0 as int]@,
    {
        proof {
            use_type_invariant(self);
        }
        self.schema.string(self.schema.extension_directives[self.id.0 as usize].name_id)
    }

    /// The subgraph the directive belongs to.
    pub fn subgraph_id(&self) -> (r: SubgraphId)
        ensures
            r == self.record().subgraph_id,
    {
        proof {
            use_type_invariant(self);
        }
        self.schema.extension_directives[self.id.0 as usize].subgraph_id
    }

    /// The subgraph the directive belongs to.
    pub fn subgraph(&self) -> (r: Subgraph<'a>)
        ensures
            r.id_of() == self.record().subgraph_id,
            match r {
                Subgraph::GraphqlEndpoint(e) => e.schema_of() == self.schema_of(),
                Subgraph::Introspection => true,
            },
    {
        proof {
            use_type_invariant(self);
        }
        self.subgraph_id().walk(self.schema)
    }
}

/// A federation entity resolver read from a schema.
#[derive(Clone, Copy)]
pub struct GraphqlFederationEntityResolverDefinition<'a> {
    schema: &'a Schema,
    record: GraphqlFederationEntityResolverDefinitionRecord,
}

/// A root field resolver read from a schema.
#[derive(Clone, Copy)]
pub struct GraphqlRootFieldResolverDefinition<'a> {
    schema: &'a Schema,
    record: GraphqlRootFieldResolverDefinitionRecord,
}

/// An extension field resolver read from a schema.
#[derive(Clone, Copy)]
pub struct FieldResolverExtensionDefinition<'a> {
    schema: &'a Schema,
    record: FieldResolverExtensionDefinitionRecord,
}

impl<'a> GraphqlFederationEntityResolverDefinition<'a> {
    #[verifier::type_invariant]
    spec fn inv(self) -> bool {
        self.schema.wf() && self.schema.valid_resolver_record(
            ResolverDefinitionRecord::GraphqlFederationEntity(self.record),
        )
    }

    pub closed spec fn schema_of(self) -> &'a Schema {
        self.schema
    }

    pub closed spec fn record_of(self) -> GraphqlFederationEntityResolverDefinitionRecord {
        self.record
    }

    /// The endpoint the entities are fetched from.
    pub fn endpoint(&self) -> (r: GraphqlEndpoint<'a>)
        ensures
            r.schema_of() == self.schema_of(),
            r.id_of() == self.record_of().endpoint_id,
    {
        proof {
            use_type_invariant(self);
        }
        self.record.endpoint_id.walk(self.schema)
    }

    /// The key fields an entity is fetched by.
    pub fn key_fields(&self) -> (r: FieldSet<'a>)
        ensures
            r.schema_of() == self.schema_of(),
            r.id_of() == self.record_of().key_fields_id,
    {
        proof {
            use_type_invariant(self);
        }
        self.record.key_fields_id.walk(self.schema)
    }

    /// `FedEntity#<subgraph name>`.
    pub fn name(&self) -> (r: String)
        ensures
            r@ == "FedEntity#"@ + self.schema_of().endpoint_name(self.record_of().endpoint_id),
    {
        let mut s = owned("FedEntity#");
        s.append(self.endpoint().subgraph_name());
        s
    }
}

impl<'a> GraphqlRootFieldResolverDefinition<'a> {
    #[verifier::type_invariant]
    spec fn inv(self) -> bool {
        self.schema.wf() && self.schema.valid_resolver_record(ResolverDefinitionRecord::GraphqlRootField(self.record))
    }

    pub closed spec fn schema_of(self) -> &'a Schema {
        self.schema
    }

    pub closed spec fn record_of(self) -> GraphqlRootFieldResolverDefinitionRecord {
        self.record
    }

    /// The endpoint the root fields are fetched from.
    pub fn endpoint(&self) -> (r: GraphqlEndpoint<'a>)
        ensures
            r.schema_of() == self.schema_of(),
            r.id_of() == self.record_of().endpoint_id,
    {
        proof {
            use_type_invariant(self);
        }
        self.record.endpoint_id.walk(self.schema)
    }

    /// `Root#<subgraph name>`.
    pub fn name(&self) -> (r: String)
        ensures
            r@ == "Root#"@ + self.schema_of().endpoint_name(self.record_of().endpoint_id),
    {
        let mut s = owned("Root#");
        s.append(self.endpoint().subgraph_name());
        s
    }
}

impl<'a> FieldResolverExtensionDefinition<'a> {
    #[verifier::type_invariant]
    spec fn inv(self) -> bool {
        self.schema.wf() && self.schema.valid_resolver_record(
            ResolverDefinitionRecord::FieldResolverExtension(self.record),
        )
    }

    pub closed spec fn schema_of(self) -> &'a Schema {
        self.schema
    }

    pub closed spec fn record_of(self) -> FieldResolverExtensionDefinitionRecord {
        self.record
    }

    /// The extension directive that resolves the field.
    pub fn directive(&self) -> (r: ExtensionDirective<'a>)
        ensures
            r.schema_of() == self.schema_of(),
            r.id_of() == self.record_of().directive_id,
    {
        proof {
            use_type_invariant(self);
        }
        ExtensionDirective { schema: self.schema, id: self.record.directive_id }
    }

    /// The fields the extension needs from the parent object.
    pub fn requirements(&self) -> (r: FieldSet<'a>)
        ensures
            r.schema_of() == self.schema_of(),
            r.id_of() == self.record_of().requirements_id,
    {
        proof {
            use_type_invariant(self);
        }
        self.record.requirements_id.walk(self.schema)
    }

    /// `<directive name>#<subgraph name>`.
    pub fn name(&self) -> (r: String)
        ensures
            r@ == self.schema_of().extension_resolver_name(self.record_of()),
    {
        proof {
            use_type_invariant(self);
        }
        let directive = self.directive();
        let mut s = owned(directive.name());
        s.append("#");
        s.append(directive.subgraph().name());
        s
    }
}

/// A resolver definition read from a schema, by kind.
#[derive(Clone, Copy)]
pub enum ResolverDefinitionVariant<'a> {
    GraphqlFederationEntity(GraphqlFederationEntityResolverDefinition<'a>),
    GraphqlRootField(GraphqlRootFieldResolverDefinition<'a>),
    Introspection,
    FieldResolverExtension(FieldResolverExtensionDefinition<'a>),
}

/// A resolver definition read from a schema.
#[derive(Clone, Copy)]
pub struct ResolverDefinition<'a> {
    schema: &'a Schema,
    id: ResolverDefinitionId,
}

impl<'a> ResolverDefinition<'a> {
    #[verifier::type_invariant]
    spec fn inv(self) -> bool {
        self.schema.wf() && self.id.0 < self.schema.resolver_definitions@.len()
    }

    pub closed spec fn schema_of(self) -> &'a Schema {
        self.schema
    }

    pub closed spec fn id_of(self) -> ResolverDefinitionId {
        self.id
    }

    /// The stored record.
    pub open spec fn record(self) -> ResolverDefinitionRecord {
        self.schema_of().resolver_definitions@[self.id_of().0 as int]
    }

    /// The resolver, by kind.
    pub fn variant(&self) -> (r: ResolverDefinitionVariant<'a>)
        ensures
            match (r, self.record()) {
                (
                    ResolverDefinitionVariant::GraphqlFederationEntity(w),
                    ResolverDefinitionRecord::GraphqlFederationEntity(e),
                ) => w.record_of() == e && w.schema_of() == self.schema_of(),
                (
                    ResolverDefinitionVariant::GraphqlRootField(w),
                    ResolverDefinitionRecord::GraphqlRootField(e),
                ) => w.record_of() == e && w.schema_of() == self.schema_of(),
                (ResolverDefinitionVariant::Introspection, ResolverDefinitionRecord::Introspection) => true,
                (
                    ResolverDefinitionVariant::FieldResolverExtension(w),
                    ResolverDefinitionRecord::FieldResolverExtension(e),
                ) => w.record_of() == e && w.schema_of() == self.schema_of(),
                _ => false,
            },
    {
        proof {
            use_type_invariant(self);
        }
        match self.schema.resolver_definitions[self.id.0 as usize] {
            ResolverDefinitionRecord::GraphqlFederationEntity(record) => ResolverDefinitionVariant::GraphqlFederationEntity(
                GraphqlFederationEntityResolverDefinition { schema: self.schema, record },
            ),
            ResolverDefinitionRecord::GraphqlRootField(record) => ResolverDefinitionVariant::GraphqlRootField(
                GraphqlRootFieldResolverDefinition { schema: self.schema, record },
            ),
            ResolverDefinitionRecord::Introspection => ResolverDefinitionVariant::Introspection,
            ResolverDefinitionRecord::FieldResolverExtension(record) => ResolverDefinitionVariant::FieldResolverExtension(
                FieldResolverExtensionDefinition { schema: self.schema, record },
            ),
        }
    }

    /// The subgraph the resolver belongs to.
    pub fn subgraph(&self) -> (r: Subgraph<'a>)
        ensures
            r.id_of() == self.schema_of().resolver_subgraph_id(self.record()),
            match r {
                Subgraph::GraphqlEndpoint(e) => e.schema_of() == self.schema_of(),
                Subgraph::Introspection => true,
            },
    {
        proof {
            use_type_invariant(self);
        }
        self.subgraph_id().walk(self.schema)
    }

    /// The id of the subgraph the resolver belongs to.
    pub fn subgraph_id(&self) -> (r: SubgraphId)
        ensures
            r == self.schema_of().resolver_subgraph_id(self.record()),
            self.schema_of().valid_subgraph(r),
    {
        proof {
            use_type_invariant(self);
        }
        match self.variant() {
            ResolverDefinitionVariant::GraphqlFederationEntity(resolver) => {
                proof {
                    use_type_invariant(resolver);
                }
                SubgraphId::GraphqlEndpoint(resolver.record.endpoint_id)
            },
            ResolverDefinitionVariant::GraphqlRootField(resolver) => {
                proof {
                    use_type_invariant(resolver);
                }
                SubgraphId::GraphqlEndpoint(resolver.record.endpoint_id)
            },
            ResolverDefinitionVariant::Introspection => SubgraphId::Introspection,
            ResolverDefinitionVariant::FieldResolverExtension(resolver) => resolver.directive().subgraph_id(),
        }
    }

    /// The fields the resolver needs from the parent object, if any.
    pub fn required_field_set(&self) -> (r: Option<FieldSet<'a>>)
        ensures
            match self.schema_of().resolver_required_field_set(self.record()) {
                Some(id) => r matches Some(f) && f.id_of() == id && f.schema_of() == self.schema_of(),
                None => r is None,
            },
    {
        match self.variant() {
            ResolverDefinitionVariant::GraphqlFederationEntity(resolver) => Some(resolver.key_fields()),
            ResolverDefinitionVariant::FieldResolverExtension(resolver) => Some(resolver.requirements()),
            _ => None,
        }
    }

    /// The name under which the resolver is reported.
    pub fn name(&self) -> (r: String)
        ensures
            r@ == self.schema_of().resolver_name(self.record()),
    {
        match self.variant() {
            ResolverDefinitionVariant::Introspection => owned("Introspection"),
            ResolverDefinitionVariant::GraphqlRootField(resolver) => resolver.name(),
            ResolverDefinitionVariant::GraphqlFederationEntity(resolver) => resolver.name(),
            ResolverDefinitionVariant::FieldResolverExtension(resolver) => resolver.name(),
        }
    }
}

impl ResolverDefinitionId {
    /// The resolver this id refers to, in the given schema.
    pub fn walk<'s>(self, schema: &'s Schema) -> (r: ResolverDefinition<'s>)
        requires
            schema.wf(),
            self.0 < schema.resolver_definitions@.len(),
        ensures
            r.schema_of() == schema,
            r.id_of() == self,
    {
        ResolverDefinition { schema, id: self }
    }
}

} // verus!
