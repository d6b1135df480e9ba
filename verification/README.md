# toy_core

Core data model and configuration logic of the Toy dataflow engine, with its behaviour stated
in `requires` / `ensures` contracts and proved by Verus.

## Layout

- `src/` — the verified library.
  - `data/` — `Value` and its mapping `DataMap`, paths into values, equality and order,
    parsing between value kinds, time stamps, frames and JSON schemas with their builders and
    visitors. `data/model.rs` holds the mathematical model (`ValueModel`) that the contracts
    speak of, and the laws of equality, maps and paths.
  - `graph.rs` — reading a graph of services from its configuration value, and its wires.
  - `node_channel.rs`, `mpsc.rs` — the channels between the nodes of a graph, and the routing
    of output ports to input ports.
  - `registry/` — registries of services (`Layered`, `Plugin`, `App`, `ServiceSet`) and their
    schemas.
  - `flow.rs`, `supervisor.rs` — the decisions of a flow (which channel each service reads
    and writes) and of the supervisor of tasks (what to do on each request or task event).
  - `metrics/` — counters, gauges, metric kinds and event records.
  - `service_type.rs`, `service_uri.rs`, `task.rs`, `error.rs` and the rest — identifiers,
    names and errors.
- `tests/` — tests on concrete values, run against the compiled library.
- `app/` — the runtime around the library: asynchronous channels, shared metrics registries,
  floating-point numbers, serde support and error messages with `thiserror`.

Outside crates are called from `src/` only through the trusted items marked
`#[verifier::external_body]` (chrono, itoa, uuid, tokio), each with a doc comment that says
what its contract claims.
