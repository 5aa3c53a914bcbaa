# cx_cli

The verified core of `cx`, a command-line client for the Coralogix API,
written in Verus.

- `src/` is the library. Each module covers one command family (`infra`,
  `service_catalog`, `metrics`, `logs`, `incidents`, `profiles`, `skills`,
  `olly`, `spans`, `search_by_value`, and the catalog commands; `answers`
  gathers the answers of several profiles) and holds its input validation, the
  requests it sends (method, path, query), the shaping of answers into
  tables and JSON rows, and the decisions taken between prompts. Every
  function there carries a contract that Verus proves; the calls into
  `serde_json`, `chrono`, `flate2`, `percent-encoding` and a few `std`
  functions sit behind small trusted wrappers: their `ensures` clauses are
  believed, not proved, and their doc comments say which outside function
  each one calls. The `lemma_*` proof functions state properties of the
  library as a whole.
- `tests/` runs the library on concrete values.
- `app/` is the plain Rust around it: HTTP through `reqwest`, prompts through
  `inquire`, child processes, files, and the serde copies of the library's
  types.

Verify with `verus src/lib.rs` (with the crate's dependencies on the path).
