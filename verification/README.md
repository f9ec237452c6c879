# ce-test

The CE testing harness: it spins ephemeral, chain-free `ce` nodes, runs modules on them, drives
requests between them over the mesh, and tears everything down. Its command line runs the suites
that a `cetest.toml` configures.

- `src/` is a library, verified with [Verus](https://github.com/verus-lang/verus). It holds every
  decision: which suites a run selects and where they run, the commands that start suites and
  nodes, what their ends and answers mean, and what is reported. It performs no I/O.
- `tests/` runs the library on concrete values.
- `app/` is ordinary Rust around it: the `ce-test` program, reading the configuration, starting
  processes, and the async harness that test suites use.

A suite with `where = "local"` runs with `cargo test` here. Any other suite belongs on the mesh and
is reported as skipped, with the reason; that it is never run here instead is proved in
`src/laws.rs`, as is that a run reports on every selected suite, once and in order.

Each harness of a process has a number of its own, which is part of the names of its nodes' data
directories; that no two nodes share a name is proved in `src/harness.rs`.

The functions that the proofs trust are the wrappers in `src/json.rs` (`serde_json`),
`src/text.rs` (`String::from_utf8_lossy`) and `src/paths.rs` (`Path::parent`, `Path::join`); each
says above it what it claims.
