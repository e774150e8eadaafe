# cargo-slim

`cargoslim` explains the size of a Rust binary: the sizes of its object
sections, how two builds differ, which crates take the `.text` section (as
reported by `cargo-bloat`), and conservative suggestions for the release
profile and the dependencies of the package that built it.

The logic is a verified library (Verus):

- `src/cli.rs`, `src/limit.rs`: command-line parsing and `--limit` values;
- `src/object_report.rs`: section reports of an object file read with the
  `object` crate;
- `src/diff.rs`: section deltas between two binaries;
- `src/cargo.rs`: the Cargo context (manifest, release profile, lockfile,
  workspace root): lockfiles and workspace manifests are read from their
  text with the `toml` crate;
- `src/suggestions.rs`: the shrink suggestions and their ranking;
- `src/inspect.rs`, `src/attribution.rs`: the reports of the `inspect` and
  `attribution` commands;
- `src/render.rs`: the text output, line by line;
- `src/text.rs`, `src/sorting.rs`: strings, decimal formatting and stable
  sorting with their specifications.

`app/` is the program around it: reading files, running `cargo-bloat`,
deserializing package manifests and `cargo-bloat` JSON into the library's
types with serde, and printing.
