# ferroedge

The core of an edge-computing platform, written in Rust and verified with Verus.
A control plane accepts WebAssembly tasks over HTTP, places them on edge nodes
over gRPC and stores their results; an edge node runs each task in a sandbox with
a memory limit and a time budget, and keeps compiled modules in a cache.

## Layout

- `src/` is the library. Its logic is verified; calls into other crates and the
  standard library go through small items whose contracts say what is relied on.
  - `control_plane/`: circuit breakers, schedulers, the module registry, the
    connection pool, health rounds, the API's endpoints, and the dispatch of a
    task (`api/dispatch.rs`, with what holds of every dispatch in
    `api/dispatch/laws.rs`).
  - `wasm_runtime/`: the sandbox, the calls that a host makes into a program
    (`guest.rs`), and the cache of compiled modules.
  - `edge_node/`: the life of a task on a node, downloads, node counters and the
    admin endpoints.
  - `common/`, `proto.rs`: the data that the services share.
  - `table.rs`, `text.rs`, `settings.rs`, `codec.rs`, `ids.rs`, `clock.rs`: tables,
    decimal numbers and texts, settings, digests and encodings, identifiers and
    clocks.
  - `load_tester.rs`, `telemetry.rs`: the figures of a load test, and where traces
    go.
- `app/` is the program around the library: servers, clients, logging and metrics.
- `tests/` runs the library, with the real WebAssembly runtime.

## Conventions

- A decision that depends on a clock comes in two forms: one that reads the clock,
  and one that takes the reading as an argument and whose contract is exact.
- What a clock, a random draw, the machine or a WASM program decides is stated by a
  relation whose name starts with `may_`: it holds of what the outside call gave, and
  the contracts of its callers speak of it.
- What has to be done outside the library (a call to a node, a pause, a download)
  is asked for by a value, such as `Action` or `Stage`; the program does it and
  hands back the outcome.
- Proof functions whose names start with `law_` state what holds across functions.
