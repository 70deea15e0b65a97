# mirage

A verified core for an adaptive mixture-of-experts inference scheduler, with a
simulated backend and a small benchmark harness.

- `src/` is the library, verified with Verus: the data model (`control`, `context`,
  `decision`, `plan`), the component traits (`traits`), the KV demotion policy
  (`kvcache`), the n-gram branch predictor (`predictor`), the heuristic profiler
  (`profiler`), graded fallback and the per-token scheduler (`scheduler`), the
  simulator (`sim::hw`, `sim::model`, `sim::backend`, with the full-period proof of
  its routing generator in `sim::period`), trace validation
  (`telemetry`), record framing (`frame`), counterfactual replay (`replay`), and the
  bench runner, divergence counting, trace aggregation and toy task (`bench`).
- `app/` is the reasoning-retention gate program: float inputs and formatting,
  serde copies of the trace types, bincode records on readers and writers, JSON and
  Markdown reports.
- `tests/` exercises the library on concrete values.

Floats never enter the library: a logit margin is read through its band
(`MarginBand`), and margins and entropies are carried as the bit patterns of their
`f32` values.
