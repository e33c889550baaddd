//! Both subsystems at once: the pipeline first, so that a metrics warning is itself logged, then
//! the metrics recorder with the pipeline's OTLP target and service name.

use crate::config::{MetricsConfig, ObsConfig};
use crate::error::{MetricsError, PipelineError};
use crate::otlp::OtlpConfig;
use vstd::prelude::*;

verus! {

/// Held for the process lifetime. The pipeline's end, which flushes the OTLP batches and file
/// writers, comes before the recorder's, which flips the metrics gate off.
pub struct ObsGuard<G, M> {
    pub pipeline: G,
    pub metrics: Option<M>,
}

/// What the metrics recorder is to be installed with.
pub struct MetricsRequest<'a> {
    pub config: &'a MetricsConfig,
    pub otlp: Option<&'a OtlpConfig>,
    pub service_name: &'a str,
}

/// The pipeline is up; the recorder comes next, if one is configured.
pub struct PipelineUp<'a, G> {
    pub pipeline: G,
    pub request: Option<MetricsRequest<'a>>,
}

/// `request` asks for the recorder of `cfg`, with the OTLP target and the service name that the
/// pipeline was brought up with.
pub open spec fn requests(cfg: ObsConfig, request: Option<MetricsRequest>) -> bool {
    match cfg.metrics {
        Some(metrics) => {
            request matches Some(r) && *r.config == metrics && r.service_name@
                == cfg.pipeline.service_name@ && match cfg.pipeline.otlp {
                Some(target) => r.otlp matches Some(t) && *t == target,
                None => r.otlp is None,
            }
        },
        None => request is None,
    }
}

/// Go on from what came of the pipeline. Its failure is fatal and returned.
pub fn init<'a, G>(cfg: &'a ObsConfig, pipeline: Result<G, PipelineError>) -> (next: Result<
    PipelineUp<'a, G>,
    PipelineError,
>)
    ensures
        match pipeline {
            Ok(guard) => next matches Ok(up) && up.pipeline == guard && requests(*cfg, up.request),
            Err(error) => next matches Err(e) && e == error,
        },
        next is Ok <==> pipeline is Ok,
        next matches Ok(up) ==> (up.request is Some <==> cfg.metrics is Some),
{
    match pipeline {
        Ok(guard) => {
            let request = match &cfg.metrics {
                Some(config) => Some(
                    MetricsRequest {
                        config,
                        otlp: match &cfg.pipeline.otlp {
                            Some(target) => Some(target),
                            None => None,
                        },
                        service_name: cfg.pipeline.service_name.as_str(),
                    },
                ),
                None => None,
            };
            Ok(PipelineUp { pipeline: guard, request })
        },
        Err(error) => Err(error),
    }
}

impl<'a, G> PipelineUp<'a, G> {
    /// Take what came of the recorder, if one was asked for. Its failure never takes logging or
    /// tracing down: it is returned to be warned of, and the guard goes without a recorder.
    pub fn finish<M>(self, metrics: Option<Result<M, MetricsError>>) -> (done: (
        ObsGuard<G, M>,
        Option<MetricsError>,
    ))
        requires
            metrics is Some <==> self.request is Some,
        ensures
            done.0.pipeline == self.pipeline,
            match metrics {
                Some(Ok(guard)) => done.0.metrics == Some(guard) && done.1 is None,
                Some(Err(error)) => done.0.metrics is None && done.1 == Some(error),
                None => done.0.metrics is None && done.1 is None,
            },
    {
        match metrics {
            Some(Ok(guard)) => (ObsGuard { pipeline: self.pipeline, metrics: Some(guard) }, None),
            Some(Err(error)) => (ObsGuard { pipeline: self.pipeline, metrics: None }, Some(error)),
            None => (ObsGuard { pipeline: self.pipeline, metrics: None }, None),
        }
    }
}

/// A recorder is asked for wherever one is configured, whichever exporter it names, and nowhere
/// else: exactly the configured one, with the pipeline's service name and OTLP target.
pub proof fn law_configured_recorder_is_requested(cfg: ObsConfig, request: Option<MetricsRequest>)
    requires
        requests(cfg, request),
    ensures
        request is Some <==> cfg.metrics is Some,
        cfg.metrics matches Some(metrics) ==> *request->0.config == metrics,
        request matches Some(asked) ==> asked.service_name@ == cfg.pipeline.service_name@,
        request matches Some(asked) ==> (asked.otlp is Some <==> cfg.pipeline.otlp is Some),
        request matches Some(asked) ==> (cfg.pipeline.otlp matches Some(target) ==> *asked.otlp->0
            == target),
{
}

/// Configs whose recorders differ never share a request.
pub proof fn law_different_recorders_are_requested_differently(
    one: ObsConfig,
    other: ObsConfig,
    request: Option<MetricsRequest>,
)
    requires
        requests(one, request),
        requests(other, request),
    ensures
        one.metrics == other.metrics,
        one.metrics is Some ==> one.pipeline.service_name@ == other.pipeline.service_name@,
        one.metrics is Some ==> one.pipeline.otlp == other.pipeline.otlp,
{
}

} // verus!
