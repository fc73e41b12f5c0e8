# ql_exec

The decision core of a spreadsheet engine's workbook runtime, verified with
Verus. Every producer-side edit (charts, defined names, number formats,
styles, sheets, tables, row visibility, workbook settings) is decided here:
the core validates the edit against plain values read from storage, records
the edit's ops into the attached op log before anything is mutated, and
returns what storage must apply. The recompute passes' bookkeeping lives here
too: the dependency-first evaluation order, the value-equality skips of the
incremental pass, which binding failures become `#NAME?`, the spill cells a
pass reports, and the bounded fixed points of both passes.

Layout:

- `src/` — the verified library (`lib.rs` lists the modules).
- `tests/` — tests of the library on concrete values.
- `app/` — the storage-facing shell: reads the workbook, calls the core,
  forwards recorded ops to the op log, applies the result, and runs the
  recompute loops with the formula evaluator.
