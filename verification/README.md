# observability

Hot-path metrics and the decisions behind tracing and metrics backends, verified with Verus.

- `src/` is the library. The hot path is a runtime gate, bounded latency histograms, message
  counts and a sampler, all kept per thread and handed off to a registry on a periodic tick. The
  backend half plans a subscriber pipeline, OTLP exporters and a metrics recorder, and takes the
  outcome of each step. State is passed explicitly; `src/laws.rs` states what holds across calls.
- `app/` holds the process-wide and thread-local state, carries the plans out against
  `tracing-subscriber`, OpenTelemetry and the `metrics` facade, and publishes quantiles.
- `tests/` runs the library with the real outside crates.

Level filters resolve as: a valid `RUST_LOG`, then the sink's own level or else the pipeline's,
then `info`. An empty `RUST_LOG` counts as set.
