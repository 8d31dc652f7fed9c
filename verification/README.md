# yar compiler core, verified

The front and middle of the Yar compiler as a Verus library: the lexer, the
type checker, LLVM IR generation and test-runner generation, with their
contracts proved.

Layout of `src/`:

- `token.rs`, `lexer.rs` — tokens and the lexer, specified against a
  functional model of scanning (`lex_tokens`, `lex_diags`).
- `ast.rs` — the syntax tree.
- `diag.rs` — diagnostics and the list that collects them; every checking step
  only appends to it.
- `names.rs`, `text.rs` — name-keyed sets and maps, and text helpers
  (comparison, sorting, decimal spelling) with their laws.
- `address_taken.rs` — which locals have their address taken.
- `checker/` — declarations, statements, expressions and calls; the error
  table and the rules on interfaces, builtins and task boundaries.
- `codegen/` — lowering of a checked program to LLVM IR text.
- `compile.rs` — checked programs to IR units, test discovery and the
  generated test runner.
- `lock_graph.rs` — the `yar.lock` graph checked against the manifest roots:
  duplicate entries or edges, missing packages, source conflicts, cycles and
  unreachable entries are refused, and an update merges a replacement graph
  and prunes orphans. The roots come in as plain values.

What the library leaves out: reading files and manifests, package loading,
parsing, lowering and monomorphization are not part of it, so there is no
path-to-IR pipeline (`compile_path`, `check_path`, `compile_test_path`) and
no command that reads `yar.toml` or `yar.lock`; a caller gathers the
effective roots and the lock entries and hands them in.

`tests/` holds the tests; they read Yar source with a small recursive-descent
reader written for them.
