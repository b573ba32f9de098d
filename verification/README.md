# newengine_profiler_plugin

A passive profiler for the North Star engine: it listens to job, task and
service events, keeps a bounded history of running and completed jobs and of
its own diagnostics, classifies each job (scheduled, blocked, polling, waiting
on the GPU, asynchronous, over its frame budget), and writes reports as JSON,
Markdown, CSV tables and a ZIP archive.

## Layout

- `src/` is the library, written in Verus. The profiler's decisions stand
  there with their contracts: event routing and counting, recording begins,
  ends and status changes, the bounded rings and what they keep, flush
  requests and the report counters, the grouping keys and counts of the
  report, the budget tree's shape and over-budget counts, the pressure read-models, the CSV tables
  of jobs and diagnostics (columns, metadata fallbacks, ranks, offsets),
  the Markdown report's layout (sections, tables, cuts, placeholders,
  escaping), report file names, and the archive's bytes.
- `app/` is the host side: configuration, the lock around the state, the
  clock and the floating-point figures computed from it: elapsed times,
  loads, shares and percentiles in the JSON report and in the text of the
  tables and the Markdown report (`app/report.rs`, `app/csv_tables.rs`,
  `app/markdown.rs`), and the budget tree's measured and allowed
  milliseconds, pressures and peaks and the pressure samples' ratios and
  density scales (`app/read_models.rs`), each over the members and samples
  the library chose. It also holds JSON conversion, the JSON report, the
  ranked summary CSV tables, which are read from the JSON report's
  figures, and the report files.
- `tests/` runs the library on concrete values. The host's floating-point
  figures are not reachable from there: the tests check the members,
  counts and order the library gives, not the sums and ratios `app/`
  computes over them.
