//! Verified core logic of a GraphQL gateway toolkit: GraphQL type
//! references, directives and values; schema walkers, resolver naming and
//! the interning of header rules; query element grouping; writing responses
//! as JSON; relation naming rules; date scalar coercion; JWT claim checks
//! and the steps of fetching a provider's key; the NATS extension's
//! decisions; the development server's configuration rules and the
//! production server's reporter.
mod util;
pub mod gql_types;
pub mod json;
pub mod date_scalar;
pub mod relations;
pub mod schema;
pub mod builder;
pub mod resolver;
pub mod elements;
pub mod dot_graph;
pub mod jwt;
pub mod token_flow;
pub mod response_view;
pub mod federation;
pub mod config;
pub mod reporter;
pub mod sdk;
pub mod nats;
