# soroban_checks

Static checks for Soroban smart-contract source code, each proved to report
exactly what its specification says.

Each check reads a Rust source file and reports findings: a check name, a
severity, a line, the enclosing function and a description. Every check's
`run` is proved to return exactly what its specification (`spec_run`) says,
over a model of the syntax tree.

Layout:

- `src/syntax.rs` — the syntax tree the checks read (items, functions,
  statements, expressions, macro calls with their tokens, source lines).
- `src/walk.rs` — the order in which a depth-first walk meets the nodes of a
  tree, as a specification (`ev_*`) and as code that gathers the nodes.
- `src/text.rs` — string helpers: equality, search, trimming, line splitting,
  lexicographic order, decimal numbers.
- `src/finding.rs` — findings and the `Check` interface.
- `src/contract.rs` — the functions of `#[contractimpl]` blocks.
- `src/checks/` — one module per check; each states its findings as a spec
  function and proves its code against it, and proves that every finding
  names the check, has the check's severity and an empty file path.
- `app/lib.rs` — parsing with `syn` into the library's tree, and running all
  checks on a source text.
- `tests/` — tests of every check on source snippets.
