# swc_coverage_instrument

Istanbul-compatible coverage instrumentation support, verified with Verus.

- `src/` is the library, verified by Verus. Its public functions carry
  `requires`/`ensures` contracts (as do most helpers; small helpers and spec
  functions are checked where they are used); the few calls into `indexmap`,
  `regex`, `typed-path` and `wax` go through small trusted wrappers whose
  contracts are stated next to them.
  - `range`, `types`, `file_coverage`, `source_coverage`: coverage data of a file
    and the builder that records statements, functions and branches.
  - `coverage_summary`, `percent`, `coverage_map`: totals, percentages and maps of
    files.
  - `coverage_object`, `js_ast`, `increase_expr`, `coverage_fn`: the coverage data
    object and the expressions and statements that instrumented code runs.
  - `hint_comments`, `node`, `lookup_range`, `options`, `path`: ignore hints,
    visitor state, span ranges, options and file exclusion.
- `app/` holds what needs serde, hashing or a logger: reading options, writing
  coverage as JSON, the hashes that name coverage functions and identify coverage
  objects, and logging setup.
- `tests/` exercises the library on concrete values.

Not in this crate: the swc transform itself, i.e. the AST visitors that walk a
program and decide where counters go (statements, functions, branches, logical
expressions, switch cases), the lookup of spans of swc expressions, and the swc
plugin entry. They work on swc's syntax tree through swc's `VisitMut` traversal,
and swc is not among this crate's dependencies. What those visitors decide and
build without the tree is here: ignore hints and scopes, the coverage counters,
the inserted expressions and statements, and span ranges.
