# xiuxian_wendao_julia

The Rust side of the Julia-backed `WendaoGraph` `SearchStrategyFlow` bridge,
verified with Verus.

- `src/` is the verified library: query and attempt construction for repo
  search, Flight ids and page ids, Markdown heading sections and anchors,
  route-diverse candidate selection, the retrieval-route and evidence
  projection of a trace, the route-materialization and repo-search
  discovery state machines, registry and include-dir config walks, the
  code-intelligence inventory, ontology registry rows, semantic preview
  table checks, service-trace facts, settings resolution and the host's
  reply parsing. Every public function carries a contract; the laws of the
  library are public proof functions.
- `tests/` runs the library on concrete values.
- `app/` is the I/O around it: config files, git, the Markdown tree, Arrow
  batches and IPC streams, the Arrow Flight client, YAML settings, JSON
  traces, the Julia host process and the release gate's timing statistics.
  It hands plain values to the library and sends on what the library
  returns.
