//! Plain-data configuration of the subscriber pipeline and the metrics recorder.

use crate::otlp::OtlpConfig;
use std::path::PathBuf;
use vstd::prelude::*;

verus! {

/// `std::path::PathBuf`: a path is carried through as it is, nothing is read of it.
#[verifier::external_type_specification]
#[verifier::external_body]
pub struct ExPathBuf(PathBuf);

/// `PathBuf`'s `Clone`: the clone is the same path.
pub assume_specification[ <PathBuf as Clone>::clone ](path: &PathBuf) -> (copy: PathBuf)
    ensures
        copy == *path,
;

/// Both subsystems in one value. `metrics` is optional so that logging and tracing can run
/// without a recorder.
#[derive(Clone, Debug)]
pub struct ObsConfig {
    pub pipeline: PipelineConfig,
    pub metrics: Option<MetricsConfig>,
}

/// Top-level pipeline config: service identity, default log level, per-signal wiring.
#[derive(Clone, Debug)]
pub struct PipelineConfig {
    pub service_name: String,
    pub level: String,
    pub otlp: Option<OtlpConfig>,
    pub logging: Option<LoggingConfig>,
    pub tracing: Option<TracingConfig>,
}

/// Log fan-out across any number of sinks.
#[derive(Clone, Debug)]
pub struct LoggingConfig {
    pub sinks: Vec<LogSink>,
}

/// One logging sink: destination, wire format, optional level of its own.
#[derive(Clone, Debug)]
pub struct LogSink {
    pub kind: LogSinkKind,
    pub format: LogFormat,
    pub level: Option<String>,
}

/// Sink destination.
#[derive(Clone, Debug)]
pub enum LogSinkKind {
    Stdout,
    RollingFile { dir: PathBuf, prefix: String, rotation: Rotation },
    Otlp,
}

/// Log line wire format.
#[derive(Clone, Copy, Debug, PartialEq, Eq, Structural)]
pub enum LogFormat {
    Json,
    Bunyan,
    Pretty,
}

/// Rolling-file rotation cadence.
#[derive(Clone, Copy, Debug, PartialEq, Eq, Structural)]
pub enum Rotation {
    Minutely,
    Hourly,
    Daily,
    Never,
}

/// Tracing subsystem config: which exporter backs the span pipeline.
#[derive(Clone, Debug)]
pub struct TracingConfig {
    pub exporter: TraceExporter,
}

/// Trace exporter choice.
#[derive(Clone, Copy, Debug, PartialEq, Eq, Structural)]
pub enum TraceExporter {
    Otlp,
}

/// Metrics subsystem config: which recorder backs the `metrics` facade.
#[derive(Clone, Debug)]
pub struct MetricsConfig {
    pub exporter: MetricsExporter,
}

/// Metrics exporter choice: Prometheus pull endpoint or OTLP push bridge.
#[derive(Clone, Debug)]
pub enum MetricsExporter {
    Prometheus { bind: BindAddr },
    Otlp,
}

/// Socket address of the pull endpoint.
#[derive(Clone, Copy, Debug, PartialEq, Eq)]
pub enum BindAddr {
    V4 { octets: [u8; 4], port: u16 },
    V6 { segments: [u16; 8], port: u16, flowinfo: u32, scope_id: u32 },
}

/// Which backends a build has. A sink or recorder whose backend is missing is skipped or refused
/// with a notice; nothing else depends on it.
#[derive(Clone, Copy, Debug, PartialEq, Eq, Structural)]
pub struct Features {
    /// OTLP transport, and with it the span exporter.
    pub otel: bool,
    /// OTLP log bridge.
    pub otel_logs: bool,
    /// Prometheus pull recorder.
    pub metrics_prom: bool,
    /// OTLP metrics push bridge.
    pub metrics_otel: bool,
    /// Bunyan-format log lines.
    pub bunyan: bool,
}

impl Default for Features {
    /// Spans over OTLP and the Prometheus recorder.
    fn default() -> (features: Features)
        ensures
            features == (Features {
                otel: true,
                otel_logs: false,
                metrics_prom: true,
                metrics_otel: false,
                bunyan: false,
            }),
    {
        Features {
            otel: true,
            otel_logs: false,
            metrics_prom: true,
            metrics_otel: false,
            bunyan: false,
        }
    }
}

} // verus!
