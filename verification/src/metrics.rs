//! Metrics recorder subsystem.
//!
//! Installing the recorder takes three steps: [`init_metrics`] decides what to install, the
//! backend is asked to do it, and [`install_prometheus`] or [`install_otlp`] takes its answer. The
//! gate is flipped on by a successful install only; every error leaves it as it was.

use crate::config::{BindAddr, Features, MetricsConfig, MetricsExporter};
use crate::error::MetricsError;
use crate::hot_path::{set_metrics_enabled, MetricsGate};
use crate::otlp;
use crate::otlp::{ExporterPlan, OtlpConfig};
use vstd::prelude::*;
use vstd::string::*;

verus! {

/// Handle for an installed metrics recorder, with the meter provider that an OTLP recorder pushes
/// through.
///
/// Closing it flips the metrics gate off and hands the provider back to be shut down, so that its
/// final batch is exported.
pub struct MetricsGuard<P> {
    otel_provider: Option<P>,
}

impl<P> MetricsGuard<P> {
    /// The meter provider, for an OTLP recorder.
    pub closed spec fn provider(self) -> Option<P> {
        self.otel_provider
    }

    /// Flip the metrics gate on, and hold the provider that must outlive the install.
    pub fn new(gate: &mut MetricsGate, otel_provider: Option<P>) -> (guard: MetricsGuard<P>)
        ensures
            final(gate).on,
            guard.provider() == otel_provider,
    {
        set_metrics_enabled(gate, true);
        MetricsGuard { otel_provider }
    }

    /// Flip the metrics gate off; the provider is then to be shut down.
    pub fn close(self, gate: &mut MetricsGate) -> (provider: Option<P>)
        ensures
            !final(gate).on,
            provider == self.provider(),
    {
        set_metrics_enabled(gate, false);
        self.otel_provider
    }
}

/// A recorder to install.
pub enum MetricsInstall {
    /// A pull endpoint on this socket.
    Prometheus { bind: BindAddr },
    /// A push bridge over this exporter, on behalf of this service.
    Otlp { exporter: ExporterPlan, service_name: String },
}

/// Why the Prometheus backend did not come up, and what it said.
pub enum PrometheusFailure {
    /// Its HTTP listener could not be created.
    HttpListener(String),
    /// Anything else.
    Other(String),
}

/// What is said of an exporter whose backend the build lacks.
pub open spec fn disabled_text(feature: Seq<char>, exporter: Seq<char>) -> Seq<char> {
    exporter + " exporter requested but crate built without feature \""@ + feature + "\""@
}

/// The error for an exporter whose backend the build lacks.
pub fn disabled(feature: &str, exporter: &str) -> (error: MetricsError)
    ensures
        error matches MetricsError::Install(text) && text@ == disabled_text(feature@, exporter@),
{
    let mut text = exporter.to_owned();
    text.append(" exporter requested but crate built without feature \"");
    text.append(feature);
    text.append("\"");
    MetricsError::Install(text)
}

/// `error` is an install error that says `text`.
pub open spec fn install_error(error: MetricsError, text: Seq<char>) -> bool {
    error matches MetricsError::Install(said) && said@ == text
}

/// Decide which recorder to install.
///
/// `otlp` only matters for the OTLP exporter; pass `None` for a Prometheus-only setup.
pub fn init_metrics(
    cfg: &MetricsConfig,
    otlp: Option<&OtlpConfig>,
    service_name: &str,
    features: &Features,
) -> (install: Result<MetricsInstall, MetricsError>)
    ensures
        match cfg.exporter {
            MetricsExporter::Prometheus { bind } => if features.metrics_prom {
                install matches Ok(MetricsInstall::Prometheus { bind: b }) && b == bind
            } else {
                install matches Err(error) && install_error(
                    error,
                    disabled_text("metrics-prom"@, "prometheus"@),
                )
            },
            MetricsExporter::Otlp => if !features.metrics_otel {
                install matches Err(error) && install_error(
                    error,
                    disabled_text("metrics-otel"@, "otlp"@),
                )
            } else {
                match otlp {
                    None => install matches Err(error) && install_error(
                        error,
                        "otlp exporter requested but no OtlpConfig was provided"@,
                    ),
                    Some(target) => {
                        install matches Ok(MetricsInstall::Otlp { exporter, service_name: service })
                            && otlp::plans(
                            *target,
                            otlp::Signal::Metrics(otlp::Temporality::Cumulative),
                            exporter,
                        ) && service@ == service_name@
                    },
                }
            },
        },
{
    match &cfg.exporter {
        MetricsExporter::Prometheus { bind } => {
            if features.metrics_prom {
                Ok(MetricsInstall::Prometheus { bind: *bind })
            } else {
                Err(disabled("metrics-prom", "prometheus"))
            }
        },
        MetricsExporter::Otlp => {
            if !features.metrics_otel {
                return Err(disabled("metrics-otel", "otlp"));
            }
            match otlp {
                None => Err(
                    MetricsError::Install(
                        "otlp exporter requested but no OtlpConfig was provided".to_owned(),
                    ),
                ),
                Some(target) => Ok(
                    MetricsInstall::Otlp {
                        exporter: target.metric_exporter(),
                        service_name: service_name.to_owned(),
                    },
                ),
            }
        },
    }
}

/// A listener that could not be created is a bind error; everything else is an install error.
pub fn map_prometheus_build_error(failure: PrometheusFailure) -> (error: MetricsError)
    ensures
        match failure {
            PrometheusFailure::HttpListener(said) => error == MetricsError::Bind(said),
            PrometheusFailure::Other(said) => error == MetricsError::Install(said),
        },
{
    match failure {
        PrometheusFailure::HttpListener(said) => MetricsError::Bind(said),
        PrometheusFailure::Other(said) => MetricsError::Install(said),
    }
}

/// Take the answer of the Prometheus backend. Its recorder holds no provider.
pub fn install_prometheus<P>(
    gate: &mut MetricsGate,
    answer: Result<(), PrometheusFailure>,
) -> (guard: Result<MetricsGuard<P>, MetricsError>)
    ensures
        match answer {
            Ok(()) => {
                &&& guard matches Ok(g) && g.provider() is None
                &&& final(gate).on
            },
            Err(failure) => {
                &&& guard == Err::<MetricsGuard<P>, MetricsError>(
                    match failure {
                        PrometheusFailure::HttpListener(said) => MetricsError::Bind(said),
                        PrometheusFailure::Other(said) => MetricsError::Install(said),
                    },
                )
                &&& *final(gate) == *old(gate)
            },
        },
{
    match answer {
        Ok(()) => Ok(MetricsGuard::new(gate, None)),
        Err(failure) => Err(map_prometheus_build_error(failure)),
    }
}

/// Take the answer of the OTLP backend: the meter provider behind the recorder it installed, or
/// what it said when its exporter did not build or a recorder was installed already.
pub fn install_otlp<P>(gate: &mut MetricsGate, answer: Result<P, String>) -> (guard: Result<
    MetricsGuard<P>,
    MetricsError,
>)
    ensures
        match answer {
            Ok(provider) => {
                &&& guard matches Ok(g) && g.provider() == Some(provider)
                &&& final(gate).on
            },
            Err(said) => {
                &&& guard == Err::<MetricsGuard<P>, MetricsError>(MetricsError::Install(said))
                &&& *final(gate) == *old(gate)
            },
        },
{
    match answer {
        Ok(provider) => Ok(MetricsGuard::new(gate, Some(provider))),
        Err(said) => Err(MetricsError::Install(said)),
    }
}

/// What is said of a missing backend names the exporter first and ends in the feature, quoted.
pub proof fn law_missing_backend_is_named(feature: Seq<char>, exporter: Seq<char>)
    ensures
        disabled_text(feature, exporter).take(exporter.len() as int) == exporter,
        disabled_text(feature, exporter).skip(exporter.len() as int)
            == " exporter requested but crate built without feature \""@ + feature + "\""@,
{
    let said = disabled_text(feature, exporter);
    assert(said.take(exporter.len() as int) =~= exporter);
    assert(said.skip(exporter.len() as int)
        =~= " exporter requested but crate built without feature \""@ + feature + "\""@);
}

/// An install error says one text.
pub proof fn law_install_error_says_its_text(error: MetricsError, text: Seq<char>)
    ensures
        install_error(error, text) <==> error is Install && error->Install_0@ == text,
{
}

} // verus!
