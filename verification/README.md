# apollo_router

Two parts of a GraphQL router, verified with Verus.

- `src/query/` reads the selections of a query. `selection` checks them against a schema
  (`Selection::from_hir`), `include_skip` decides which of them take part in a query, and
  `error_path` tells which of them a path into a response runs through.
- `src/telemetry/` reports usage. `sender` is the way of a report to the exporter, and `batch`
  adds up the reports between two submissions. `outgoing` makes a compressed `request` of what they
  add up to, without traces once the ingress ignores them. `submission` decides after each attempt
  whether to send the report again.
- `src/json_ext.rs` holds what is read of JSON values, and the steps of a path.

Each type has a model (`...Model`, or the type that its view has), and contracts speak of models.
What holds of the library as a whole is stated in the public proof functions next to the functions
that it is about.

The JSON, gzip and channel calls into other crates stand behind small functions and declarations
whose contracts are taken on trust; their comments say what is claimed of which call.

`app/` is ordinary Rust around the library: the query compiler's selections, the protobuf messages,
the HTTP client and the tasks that run the exporter. `tests/` runs the library.
