# spire_build

The logic of a set of build modules (Go, Make, Meson, Node, Python, Ruby, RP2040)
and of the tooling around hardware abstraction layers (HAL): contracts in C++ and
Rust, how far platforms implement them, their documentation, the layout they are
kept in, and the two flows that change code and check the result.

- `src/` is the library. Every function is verified with Verus against a contract
  over mathematical models of its data. What comes from `regex`, `serde_json`,
  `sha2` and `tree-sitter` stands behind a few trusted wrappers in `regexes.rs`,
  `json.rs`, `hash.rs` and `syntax.rs`; `text.rs` has those for the standard
  library.
- `src/laws*.rs` state what holds of several functions together.
- `tests/` runs the library with the real crates linked.
- `app/` is ordinary Rust around the library: reading projects, running commands,
  answering messages.

A project on disk enters the library as a `ProjectTree`: its paths, and the text of
the files that could be read.
