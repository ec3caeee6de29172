# wick

A Verus-verified library for the flow graphs ("schematics") of the wick
component runtime and for the walker that traverses them.

- `src/schematic.rs`: the graph (nodes, ports, connections), its consistency
  invariant `Schematic::wf`, and builders that keep it.
- `src/hops.rs`: the stops of a walk (a node, a port, a list of ports, a list
  of connections, a connection) and their models.
- `src/walker.rs`: one step of a walk (`walk`, specified by `walk_spec`) and
  the depth-first `SchematicWalker` (specified by `step_spec`).
- `src/laws.rs`: properties of single steps of a walk.
- `src/termination.rs`: when a walk ends: exactly when none of its pending
  hops leads on to a node from which a cycle of connections can be reached;
  then after a counted number of hops, otherwise never.
- `src/text.rs`: the text of a hop.
- `src/errors.rs`, `src/link.rs`, `src/registry.rs`, `src/http.rs`,
  `src/strings.rs`: error messages and the decisions made by the runtime, the
  registry push command and an HTTP component.
- `app/`: unverified glue: the options of the registry push command and a
  single-layer push through the OCI client (bundles are not handled), JSON
  bodies of the HTTP component, the Redis list-removal command, and
  `std::error::Error` impls.
