# spite

A compiler from a TypeScript domain model (aggregates, events, commands,
projections, orchestrators) to generated TypeScript services, with the parts
of its event store that decide without touching a disk: telemetry slicing and
routing, batch compression and projection operations.

The library in `src/` is written in Verus: each public function carries a
contract over mathematical models of its inputs and results, and Verus proves
the code against it.

- `src/frontend/` — the TypeScript front end. tree-sitter parses; the syntax
  tree is copied into plain values (`SyntaxNode`), and the visitor that turns
  it into an AST, the AST-to-IR conversion and the app-config extractor are
  verified against spec functions of the tree.
- `src/ir/` — the domain IR and access configuration.
- `src/validate/` — structural and purity checks of aggregates.
- `src/codegen/` — the generated TypeScript, each file specified as text.
- `src/schema/` — the schema lock file, schema diffs and upcasters.
- `src/store/` — telemetry types, slices, retention and shard routing, the
  SQL of queries, the order of results, tail merging, batch splitting and
  the writers' batching decisions; batch compression; projection
  operations.
- `src/config.rs` — compiler configuration and the computing part of a
  compilation.
- `app/` — the command-line program (reading and writing files, walking
  directories, JSON and error reporting) and the I/O side of the telemetry
  store: SQLite shards, writer threads and the clock.
- `tests/` — tests run against the compiled library.
