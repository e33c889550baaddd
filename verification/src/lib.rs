//! Observability: a hot-path metrics core, and the decisions behind tracing and metrics backends.
//!
//! - The hot path ([`hot_path`], [`timer`], [`histogram`], [`flush`]): a runtime gate, latency
//!   histograms, message counts and a sampler, kept per thread and handed off on a periodic tick.
//! - The subscriber pipeline ([`pipeline`], [`filter`]): logging fan-out over any number of sinks
//!   plus a single OTLP span sink.
//! - The metrics recorder ([`metrics`]): Prometheus pull or OTLP push, flipping the metrics gate on
//!   install.
//!
//! The two subsystems share nothing but one [`otlp::OtlpConfig`]; [`init()`] runs both. What the
//! hot path promises as a whole is in [`laws`].

pub mod config;
pub mod error;
pub mod field;
pub mod filter;
pub mod flush;
pub mod histogram;
pub mod hot_path;
pub mod init;
pub mod laws;
pub mod metrics;
pub mod otlp;
pub mod pipeline;
pub mod resource;
pub mod timer;

pub use config::{
    BindAddr, Features, LogFormat, LogSink, LogSinkKind, LoggingConfig, MetricsConfig,
    MetricsExporter, ObsConfig, PipelineConfig, Rotation, TraceExporter, TracingConfig,
};
pub use error::{MetricsError, PipelineError};
pub use histogram::LatencyHistogram;
pub use hot_path::{
    count_msg, drain_all, drain_count, merge_local, metrics_enabled, record_latency_ns,
    refresh_thread_gate, set_metrics_enabled, should_sample, take_count, MetricsGate, Registry,
    ThreadState, SAMPLE_1_IN_8192,
};
pub use init::{init, ObsGuard};
pub use metrics::{init_metrics, MetricsGuard};
pub use otlp::{OtlpConfig, OtlpProtocol};
pub use pipeline::{init_pipeline, PipelineGuard};
pub use timer::{timer, Timer};
