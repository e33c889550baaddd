//! Errors of pipeline init and metrics recorder install.

use vstd::prelude::*;

verus! {

/// Why the subscriber pipeline did not come up.
#[derive(Clone, Copy, Debug, PartialEq, Eq, Structural)]
pub enum PipelineError {
    AlreadyInit,
}

/// Why the metrics recorder was not installed, with what the backend said.
#[derive(Clone, Debug)]
pub enum MetricsError {
    Bind(String),
    Install(String),
}

impl PipelineError {
    /// The error in words.
    pub fn message(&self) -> (message: String)
        ensures
            message@ == "global tracing subscriber already initialized"@,
    {
        match self {
            PipelineError::AlreadyInit => {
                "global tracing subscriber already initialized".to_owned()
            },
        }
    }
}

impl MetricsError {
    /// The error in words, without what the backend said.
    pub fn message(&self) -> (message: String)
        ensures
            *self is Bind ==> message@ == "failed to bind metrics exporter socket"@,
            *self is Install ==> message@ == "failed to install metrics recorder"@,
    {
        match self {
            MetricsError::Bind(_) => "failed to bind metrics exporter socket".to_owned(),
            MetricsError::Install(_) => "failed to install metrics recorder".to_owned(),
        }
    }

    /// What the backend said.
    pub fn source(&self) -> (source: &str)
        ensures
            self matches MetricsError::Bind(said) ==> source@ == said@,
            self matches MetricsError::Install(said) ==> source@ == said@,
    {
        match self {
            MetricsError::Bind(said) => said.as_str(),
            MetricsError::Install(said) => said.as_str(),
        }
    }
}

} // verus!
