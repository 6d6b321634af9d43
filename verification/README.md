# resolc

A verified library around `resolc`, the Solidity compiler for PolkaVM. It decides

- which release belongs to a machine, and under which path it is kept
  (`src/os.rs`, `src/paths.rs`),
- how a compiler is fetched, locked, written and made executable, step by step
  (`src/install.rs`),
- which versions are installed and which can be fetched (`src/versions.rs`),
- how a compiler is called and what its output means (`src/process.rs`,
  `src/compiler.rs`).

Versions (`src/version.rs`, `src/precedence.rs`), text functions (`src/text.rs`)
and sorting (`src/order.rs`) carry these. Every function in `src/` is proved
against its contract with Verus, but for the wrappers in `src/outside.rs`, whose
contracts are assumed. `src/laws.rs`, `src/version_laws.rs`,
`src/report_laws.rs` and `src/install_laws.rs` state what holds of the functions
together. `src/outside.rs` lists what is assumed about `semver` and the standard
library.

`app/` is ordinary Rust around the library: it runs processes, walks directories,
downloads files and converts values.
