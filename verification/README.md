# grafbase (verified core)

The logic of a GraphQL gateway toolkit, written in Verus and proved
against its contracts:

- `gql_types`: GraphQL type references (parsing and writing `[String!]!`),
  values and directives, with round-trip laws.
- `schema`, `resolver`: the schema's records and walkers (interfaces,
  scalars, directives, resolvers and the subgraphs they belong to).
- `builder`: interning the strings and patterns of the header rules while
  the schema is built, with the law that every rule names what the
  configuration named.
- `elements`: query elements grouped by directive name.
- `response_view`: writing a response as JSON along the query's selection
  sets.
- `federation`: preparing federation entity requests: the executor, the
  variables with the entity representations, and the JSON body.
- `relations`, `date_scalar`, `dot_graph`: relation naming rules, the
  `Date` scalar, and DOT attributes.
- `json`: JSON values, read and written one level at a time with
  `serde_json`.
- `jwt`, `token_flow`: signature and claim checks of JSON Web Tokens, and
  the steps of fetching a provider's key, as a state machine driven by a
  host.
- `nats`, `sdk`: the decisions of the NATS extension, as a state machine.
- `config`, `reporter`: the development server's configuration rules and
  the production server's reporter (an LRU buffer of nested events).

Calls into `chrono`, `regex`, `url`, `itertools`, `jwt-compact`,
`json_dotpath`, `serde_json` and `lru` go through a few trusted wrappers
whose contracts restate what those crates do, or name their results.
`app/` holds the host side: HTTP requests, the key cache and the clock,
the file system, processes and threads.
