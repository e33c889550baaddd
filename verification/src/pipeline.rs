//! Subscriber subsystem: one subscriber that fuses a logging fan-out over any number of sinks
//! with a single OTLP span sink.
//!
//! [`init_pipeline`] plans the work: one action per sink, each with its own format and level
//! filter, and at most one span action, never fanned out and never on disk. The backend carries
//! the actions out one by one and reports each outcome to [`PipelineInit::advance`]; an OTLP
//! exporter that fails to build costs its own layer and nothing else. What must outlive the
//! install ends up in the [`PipelineGuard`].

use crate::config::{
    Features, LogFormat, LogSink, LogSinkKind, LoggingConfig, PipelineConfig, Rotation,
};
use crate::error::PipelineError;
use crate::filter;
use crate::filter::env_filter;
use crate::otlp;
use crate::otlp::{ExporterPlan, Signal};
use std::path::PathBuf;
use vstd::prelude::*;
use vstd::string::*;

verus! {

/// Where a formatting layer writes.
pub enum WriterTarget<'a> {
    Stdout,
    RollingFile { dir: &'a PathBuf, prefix: &'a str, rotation: Rotation },
}

/// How a formatting layer writes a line.
pub enum LineFormat {
    Json,
    Pretty,
    /// Lines that name the service that wrote them.
    Bunyan { service: String },
}

/// A formatting layer: line format, filter directives, and what to tell the operator about it.
pub struct LogLayer {
    pub format: LineFormat,
    pub directives: String,
    pub notice: Option<String>,
}

/// One step of bringing the pipeline up.
pub enum PipelineAction<'a> {
    /// Add the storage layer that all bunyan layers read.
    JsonStorage,
    /// Open a non-blocking writer and add a formatting layer on it.
    Writer { target: WriterTarget<'a>, layer: LogLayer },
    /// Build the OTLP log exporter and add a bridge layer on its provider.
    LogBridge { exporter: ExporterPlan, directives: String },
    /// Leave a sink out.
    Skip { notice: String },
    /// Build the OTLP span exporter and add the span layer on its provider.
    Spans { exporter: ExporterPlan },
}

/// What came of an action. `W` keeps a writer thread alive, `Y` is a layer, `T` a tracer provider
/// and `L` a logger provider.
pub enum StepOutcome<W, Y, T, L> {
    Storage(Y),
    Writer { worker: W, layer: Y },
    LogBridge(Result<(L, Y), String>),
    Skipped,
    Spans(Result<(T, Y), String>),
}

/// Everything whose end must outlive the process: the workers of the non-blocking writers and the
/// OTLP providers.
pub struct PipelineGuard<W, T, L> {
    pub workers: Vec<W>,
    pub tracer_provider: Option<T>,
    pub logger_provider: Option<L>,
}

/// A provider whose pending batch is to be flushed.
pub enum FlushTarget<'a, T, L> {
    Tracer(&'a T),
    Logger(&'a L),
}

/// A pipeline that is being brought up: the plan, how far it has been carried out, and what has
/// come of it.
pub struct PipelineInit<'a, W, Y, T, L> {
    actions: Vec<PipelineAction<'a>>,
    next: usize,
    workers: Vec<W>,
    layers: Vec<Y>,
    tracer_provider: Option<T>,
    logger_provider: Option<L>,
}

/// What a [`PipelineInit`] stands for.
#[verifier::ext_equal]
pub struct PipelineView<'a, W, Y, T, L> {
    /// The plan.
    pub actions: Seq<PipelineAction<'a>>,
    /// How many actions have been carried out.
    pub next: int,
    /// Workers of the writers that were opened, in order.
    pub workers: Seq<W>,
    /// Layers that were built, in order.
    pub layers: Seq<Y>,
    /// Provider of the span layer, if it was built.
    pub tracer_provider: Option<T>,
    /// Provider of the log bridge that was built last, if any was.
    pub logger_provider: Option<L>,
}

/// The configured log sinks.
pub open spec fn sinks_of(cfg: PipelineConfig) -> Seq<LogSink> {
    match cfg.logging {
        Some(logging) => logging.sinks@,
        None => Seq::empty(),
    }
}

/// The level of `sink`: its own, or else the pipeline's.
pub open spec fn level_of(cfg: PipelineConfig, sink: LogSink) -> Seq<char> {
    match sink.level {
        Some(level) => level@,
        None => cfg.level@,
    }
}

/// `layer` is the formatting layer for lines of `format`: bunyan lines fall back to JSON, with a
/// notice, in a build without them.
pub open spec fn formats(
    format: LogFormat,
    service: Seq<char>,
    directives: Seq<char>,
    features: Features,
    layer: LogLayer,
) -> bool {
    &&& layer.directives@ == directives
    &&& match format {
        LogFormat::Json => layer.format is Json && layer.notice is None,
        LogFormat::Pretty => layer.format is Pretty && layer.notice is None,
        LogFormat::Bunyan => if features.bunyan {
            &&& layer.format matches LineFormat::Bunyan { service: name } && name@ == service
            &&& layer.notice is None
        } else {
            &&& layer.format is Json
            &&& layer.notice matches Some(notice) && notice@
                == "observability: bunyan format needs `bunyan` feature, using json"@
        },
    }
}

/// `action` is what is to be done for `sink`.
pub open spec fn serves(
    cfg: PipelineConfig,
    sink: LogSink,
    features: Features,
    rust_log: Option<Seq<char>>,
    action: PipelineAction,
) -> bool {
    let directives = filter::directives_for(rust_log, level_of(cfg, sink));
    match sink.kind {
        LogSinkKind::Stdout => {
            action matches PipelineAction::Writer { target, layer } && target is Stdout && formats(
                sink.format,
                cfg.service_name@,
                directives,
                features,
                layer,
            )
        },
        LogSinkKind::RollingFile { dir, prefix, rotation } => {
            action matches PipelineAction::Writer { target, layer }
                && target matches WriterTarget::RollingFile { dir: d, prefix: p, rotation: r } && *d
                == dir && p@ == prefix@ && r == rotation && formats(
                sink.format,
                cfg.service_name@,
                directives,
                features,
                layer,
            )
        },
        LogSinkKind::Otlp => if !features.otel_logs {
            action matches PipelineAction::Skip { notice } && notice@
                == "observability: otlp log sink configured but `otel-logs` feature off, skipping"@
        } else {
            match cfg.otlp {
                Some(target) => {
                    action matches PipelineAction::LogBridge { exporter, directives: d }
                        && otlp::plans(target, Signal::Logs, exporter) && d@ == directives
                },
                None => {
                    action matches PipelineAction::Skip { notice } && notice@
                        == "observability: otlp log sink needs an otlp config, skipping"@
                },
            }
        },
    }
}

/// Some sink writes bunyan lines.
pub open spec fn wants_bunyan(cfg: PipelineConfig) -> bool {
    exists|i: int| 0 <= i < sinks_of(cfg).len() && (#[trigger] sinks_of(cfg)[i]).format
        == LogFormat::Bunyan
}

/// How many actions come before the sinks': the bunyan storage, where it is needed.
pub open spec fn storage_actions(cfg: PipelineConfig, features: Features) -> int {
    if features.bunyan && wants_bunyan(cfg) {
        1
    } else {
        0
    }
}

/// Spans are exported: tracing is configured, and so is an OTLP target.
pub open spec fn exports_spans(cfg: PipelineConfig, features: Features) -> bool {
    features.otel && cfg.tracing is Some && cfg.otlp is Some
}

/// `actions` brings up `cfg`: the bunyan storage first, where it is needed, then one action for
/// each sink, in order, and then the span layer, where spans are exported.
pub open spec fn is_plan(
    cfg: PipelineConfig,
    features: Features,
    rust_log: Option<Seq<char>>,
    actions: Seq<PipelineAction>,
) -> bool {
    let storage = storage_actions(cfg, features);
    let sinks = sinks_of(cfg);
    let spans = if exports_spans(cfg, features) {
        1int
    } else {
        0int
    };
    &&& actions.len() == storage + sinks.len() + spans
    &&& storage == 1 ==> actions[0] is JsonStorage
    &&& forall|i: int|
        0 <= i < sinks.len() ==> serves(
            cfg,
            #[trigger] sinks[i],
            features,
            rust_log,
            actions[storage + i],
        )
    &&& spans == 1 ==> (actions[actions.len() - 1] matches PipelineAction::Spans { exporter }
        && otlp::plans(cfg.otlp->0, Signal::Spans, exporter))
}

/// The formatting layer for lines of `format`.
pub fn log_layer(
    format: LogFormat,
    service: &str,
    directives: String,
    features: &Features,
) -> (layer: LogLayer)
    ensures
        formats(format, service@, directives@, *features, layer),
{
    match format {
        LogFormat::Json => LogLayer { format: LineFormat::Json, directives, notice: None },
        LogFormat::Pretty => LogLayer { format: LineFormat::Pretty, directives, notice: None },
        LogFormat::Bunyan => {
            if features.bunyan {
                LogLayer {
                    format: LineFormat::Bunyan { service: service.to_owned() },
                    directives,
                    notice: None,
                }
            } else {
                LogLayer {
                    format: LineFormat::Json,
                    directives,
                    notice: Some(
                        "observability: bunyan format needs `bunyan` feature, using json"
                            .to_owned(),
                    ),
                }
            }
        },
    }
}

/// Plan one sink.
fn sink_action<'a>(
    cfg: &'a PipelineConfig,
    sink: &'a LogSink,
    features: &Features,
    rust_log: Option<&str>,
) -> (action: PipelineAction<'a>)
    ensures
        serves(*cfg, *sink, *features, filter::text_of(rust_log), action),
{
    let level: &str = match &sink.level {
        Some(level) => level.as_str(),
        None => cfg.level.as_str(),
    };
    match &sink.kind {
        LogSinkKind::Stdout => {
            let directives = env_filter(rust_log, level);
            PipelineAction::Writer {
                target: WriterTarget::Stdout,
                layer: log_layer(sink.format, cfg.service_name.as_str(), directives, features),
            }
        },
        LogSinkKind::RollingFile { dir, prefix, rotation } => {
            let directives = env_filter(rust_log, level);
            PipelineAction::Writer {
                target: WriterTarget::RollingFile {
                    dir,
                    prefix: prefix.as_str(),
                    rotation: *rotation,
                },
                layer: log_layer(sink.format, cfg.service_name.as_str(), directives, features),
            }
        },
        LogSinkKind::Otlp => {
            if !features.otel_logs {
                return PipelineAction::Skip {
                    notice:
                        "observability: otlp log sink configured but `otel-logs` feature off, skipping"
                            .to_owned(),
                };
            }
            match &cfg.otlp {
                Some(target) => PipelineAction::LogBridge {
                    exporter: target.log_exporter(),
                    directives: env_filter(rust_log, level),
                },
                None => PipelineAction::Skip {
                    notice: "observability: otlp log sink needs an otlp config, skipping"
                        .to_owned(),
                },
            }
        },
    }
}

/// Whether some sink writes bunyan lines.
fn any_bunyan(logging: &LoggingConfig) -> (any: bool)
    ensures
        any == exists|i: int|
            0 <= i < logging.sinks@.len() && (#[trigger] logging.sinks@[i]).format
                == LogFormat::Bunyan,
{
    let mut i: usize = 0;
    while i < logging.sinks.len()
        invariant
            i <= logging.sinks@.len(),
            forall|k: int|
                0 <= k < i ==> (#[trigger] logging.sinks@[k]).format != LogFormat::Bunyan,
        decreases logging.sinks@.len() - i,
    {
        if logging.sinks[i].format == LogFormat::Bunyan {
            return true;
        }
        i += 1;
    }
    false
}

impl<'a, W, Y, T, L> View for PipelineInit<'a, W, Y, T, L> {
    type V = PipelineView<'a, W, Y, T, L>;

    closed spec fn view(&self) -> PipelineView<'a, W, Y, T, L> {
        PipelineView {
            actions: self.actions@,
            next: self.next as int,
            workers: self.workers@,
            layers: self.layers@,
            tracer_provider: self.tracer_provider,
            logger_provider: self.logger_provider,
        }
    }
}

/// `pipeline` has a plan for `cfg`, of which nothing has been carried out.
pub open spec fn starts<W, Y, T, L>(
    cfg: PipelineConfig,
    features: Features,
    rust_log: Option<Seq<char>>,
    pipeline: PipelineView<W, Y, T, L>,
) -> bool {
    &&& is_plan(cfg, features, rust_log, pipeline.actions)
    &&& pipeline.next == 0
    &&& pipeline.workers.len() == 0
    &&& pipeline.layers.len() == 0
    &&& pipeline.tracer_provider is None
    &&& pipeline.logger_provider is None
}

/// Plan the pipeline for `cfg`, where `rust_log` is the value of `RUST_LOG` if it is set.
pub fn init_pipeline<'a, W, Y, T, L>(
    cfg: &'a PipelineConfig,
    features: &Features,
    rust_log: Option<&str>,
) -> (init: PipelineInit<'a, W, Y, T, L>)
    ensures
        starts(*cfg, *features, filter::text_of(rust_log), init@),
{
    let ghost text = filter::text_of(rust_log);
    let mut actions: Vec<PipelineAction<'a>> = Vec::new();
    if features.bunyan {
        if let Some(logging) = &cfg.logging {
            if any_bunyan(logging) {
                assert(wants_bunyan(*cfg));
                actions.push(PipelineAction::JsonStorage);
            }
        }
    }
    let ghost storage = storage_actions(*cfg, *features);
    assert(actions@.len() == storage);
    if let Some(logging) = &cfg.logging {
        let mut i: usize = 0;
        while i < logging.sinks.len()
            invariant
                i <= logging.sinks@.len(),
                cfg.logging == Some(*logging),
                text == filter::text_of(rust_log),
                storage == storage_actions(*cfg, *features),
                actions@.len() == storage + i,
                storage == 1 ==> actions@[0] is JsonStorage,
                forall|k: int|
                    0 <= k < i ==> serves(
                        *cfg,
                        #[trigger] sinks_of(*cfg)[k],
                        *features,
                        text,
                        actions@[storage + k],
                    ),
            decreases logging.sinks@.len() - i,
        {
            let sink = &logging.sinks[i];
            assert(sinks_of(*cfg)[i as int] == *sink);
            actions.push(sink_action(cfg, sink, features, rust_log));
            i += 1;
        }
    }
    if features.otel {
        if let (Some(_tracing), Some(target)) = (&cfg.tracing, &cfg.otlp) {
            actions.push(PipelineAction::Spans { exporter: target.span_exporter() });
        }
    }
    PipelineInit {
        actions,
        next: 0,
        workers: Vec::new(),
        layers: Vec::new(),
        tracer_provider: None,
        logger_provider: None,
    }
}

/// `outcome` is an outcome of `action`.
pub open spec fn answers<W, Y, T, L>(
    action: PipelineAction,
    outcome: StepOutcome<W, Y, T, L>,
) -> bool {
    match action {
        PipelineAction::JsonStorage => outcome is Storage,
        PipelineAction::Writer { .. } => outcome is Writer,
        PipelineAction::LogBridge { .. } => outcome is LogBridge,
        PipelineAction::Skip { .. } => outcome is Skipped,
        PipelineAction::Spans { .. } => outcome is Spans,
    }
}

/// What the operator is told of `outcome`.
pub open spec fn told<W, Y, T, L>(
    action: PipelineAction,
    outcome: StepOutcome<W, Y, T, L>,
) -> Option<Seq<char>> {
    match outcome {
        StepOutcome::LogBridge(Err(said)) => Some(
            "observability: otlp log exporter build failed, log sink skipped: "@ + said@,
        ),
        StepOutcome::Spans(Err(said)) => Some(
            "observability: otlp trace exporter build failed, tracing disabled: "@ + said@,
        ),
        _ => match action {
            PipelineAction::Writer { layer, .. } => match layer.notice {
                Some(notice) => Some(notice@),
                None => None,
            },
            PipelineAction::Skip { notice } => Some(notice@),
            _ => None,
        },
    }
}

impl<'a, W, Y, T, L> PipelineView<'a, W, Y, T, L> {
    /// The pipeline after its next action had `outcome`: what was built is kept, in order, and
    /// what failed or was left out leaves no trace.
    pub open spec fn after(self, outcome: StepOutcome<W, Y, T, L>) -> PipelineView<'a, W, Y, T, L> {
        let stepped = PipelineView { next: self.next + 1, ..self };
        match outcome {
            StepOutcome::Storage(layer) => PipelineView {
                layers: self.layers.push(layer),
                ..stepped
            },
            StepOutcome::Writer { worker, layer } => PipelineView {
                workers: self.workers.push(worker),
                layers: self.layers.push(layer),
                ..stepped
            },
            StepOutcome::LogBridge(Ok((provider, layer))) => PipelineView {
                layers: self.layers.push(layer),
                logger_provider: Some(provider),
                ..stepped
            },
            StepOutcome::Spans(Ok((provider, layer))) => PipelineView {
                layers: self.layers.push(layer),
                tracer_provider: Some(provider),
                ..stepped
            },
            _ => stepped,
        }
    }
}

/// `text` followed by `said`.
fn joined(text: &str, said: &String) -> (message: String)
    ensures
        message@ == text@ + said@,
{
    let mut message = text.to_owned();
    message.append(said.as_str());
    message
}

/// `guard` keeps what must outlive the install of `pipeline`.
pub open spec fn keeps<W, Y, T, L>(
    guard: PipelineGuard<W, T, L>,
    pipeline: PipelineView<W, Y, T, L>,
) -> bool {
    &&& guard.workers@ == pipeline.workers
    &&& guard.tracer_provider == pipeline.tracer_provider
    &&& guard.logger_provider == pipeline.logger_provider
}

/// What an install gives: the guard, or the one error where it was refused.
pub open spec fn installed_guard<W, T, L>(guard: PipelineGuard<W, T, L>, installed: bool) -> Result<
    PipelineGuard<W, T, L>,
    PipelineError,
> {
    if installed {
        Ok(guard)
    } else {
        Err(PipelineError::AlreadyInit)
    }
}

/// The text of an optional string.
pub open spec fn notice_text(notice: Option<String>) -> Option<Seq<char>> {
    match notice {
        Some(text) => Some(text@),
        None => None,
    }
}

impl<'a, W, Y, T, L> PipelineInit<'a, W, Y, T, L> {
    /// The action to carry out next, while there is one.
    pub fn action(&self) -> (action: Option<&PipelineAction<'a>>)
        ensures
            self@.next < self@.actions.len() ==> action == Some(&self@.actions[self@.next]),
            self@.next >= self@.actions.len() ==> action is None,
    {
        if self.next < self.actions.len() {
            Some(&self.actions[self.next])
        } else {
            None
        }
    }

    /// Take the outcome of the current action, and return what the operator is to be told of it.
    pub fn advance(&mut self, outcome: StepOutcome<W, Y, T, L>) -> (notice: Option<String>)
        requires
            old(self)@.next < old(self)@.actions.len(),
            answers(old(self)@.actions[old(self)@.next], outcome),
        ensures
            final(self)@ == old(self)@.after(outcome),
            notice_text(notice) == told(old(self)@.actions[old(self)@.next], outcome),
    {
        let at: usize = self.next;
        assert(at < self.actions.len());
        self.next = at + 1;
        match outcome {
            StepOutcome::Storage(layer) => {
                self.layers.push(layer);
                None
            },
            StepOutcome::Writer { worker, layer } => {
                self.workers.push(worker);
                self.layers.push(layer);
                match &self.actions[at] {
                    PipelineAction::Writer { layer: planned, .. } => match &planned.notice {
                        Some(text) => Some(text.clone()),
                        None => None,
                    },
                    _ => None,
                }
            },
            StepOutcome::LogBridge(Ok((provider, layer))) => {
                self.layers.push(layer);
                self.logger_provider = Some(provider);
                None
            },
            StepOutcome::LogBridge(Err(said)) => Some(
                joined("observability: otlp log exporter build failed, log sink skipped: ", &said),
            ),
            StepOutcome::Skipped => match &self.actions[at] {
                PipelineAction::Skip { notice } => Some(notice.clone()),
                _ => None,
            },
            StepOutcome::Spans(Ok((provider, layer))) => {
                self.layers.push(layer);
                self.tracer_provider = Some(provider);
                None
            },
            StepOutcome::Spans(Err(said)) => Some(
                joined(
                    "observability: otlp trace exporter build failed, tracing disabled: ",
                    &said,
                ),
            ),
        }
    }

    /// All actions have been carried out: the layers to install, and what must outlive the
    /// install.
    pub fn finish(self) -> (built: (Vec<Y>, PipelineGuard<W, T, L>))
        requires
            self@.next == self@.actions.len(),
        ensures
            built.0@ == self@.layers,
            keeps(built.1, self@),
    {
        (
            self.layers,
            PipelineGuard {
                workers: self.workers,
                tracer_provider: self.tracer_provider,
                logger_provider: self.logger_provider,
            },
        )
    }
}

impl<W, T, L> PipelineGuard<W, T, L> {
    /// Keep the guard of a pipeline whose subscriber was installed. It is refused where a global
    /// subscriber was there already.
    pub fn installed(self, installed: bool) -> (guard: Result<
        PipelineGuard<W, T, L>,
        PipelineError,
    >)
        ensures
            guard == installed_guard(self, installed),
    {
        if installed {
            Ok(self)
        } else {
            Err(PipelineError::AlreadyInit)
        }
    }

    /// What to flush when the guard goes: the tracer provider, then the logger provider, while
    /// the workers are still held.
    pub fn flush_targets(&self) -> (targets: Vec<FlushTarget<'_, T, L>>)
        ensures
            targets@ == flush_order(self.tracer_provider, self.logger_provider),
    {
        let mut targets: Vec<FlushTarget<'_, T, L>> = Vec::new();
        if let Some(provider) = &self.tracer_provider {
            targets.push(FlushTarget::Tracer(provider));
        }
        if let Some(provider) = &self.logger_provider {
            targets.push(FlushTarget::Logger(provider));
        }
        targets
    }
}

/// The tracer provider first, then the logger provider, as far as there are any.
pub open spec fn flush_order<'a, T, L>(tracer: Option<T>, logger: Option<L>) -> Seq<
    FlushTarget<'a, T, L>,
> {
    let first = match tracer {
        Some(provider) => seq![FlushTarget::Tracer(&provider)],
        None => seq![],
    };
    match logger {
        Some(provider) => first.push(FlushTarget::Logger(&provider)),
        None => first,
    }
}

/// `outcomes` answer the first actions of a plan, one by one.
pub open spec fn answers_all<W, Y, T, L>(
    actions: Seq<PipelineAction>,
    outcomes: Seq<StepOutcome<W, Y, T, L>>,
) -> bool {
    &&& outcomes.len() <= actions.len()
    &&& forall|i: int| 0 <= i < outcomes.len() ==> answers(actions[i], #[trigger] outcomes[i])
}

/// The pipeline after `outcomes`, one after the other.
pub open spec fn run<'a, W, Y, T, L>(
    start: PipelineView<'a, W, Y, T, L>,
    outcomes: Seq<StepOutcome<W, Y, T, L>>,
) -> PipelineView<'a, W, Y, T, L>
    decreases outcomes.len(),
{
    if outcomes.len() == 0 {
        start
    } else {
        run(start, outcomes.drop_last()).after(outcomes.last())
    }
}

/// How many of `actions` open a writer.
pub open spec fn writers(actions: Seq<PipelineAction>) -> int
    decreases actions.len(),
{
    if actions.len() == 0 {
        0
    } else {
        writers(actions.drop_last()) + if actions.last() is Writer {
            1int
        } else {
            0int
        }
    }
}

/// How many of `sinks` write somewhere themselves, rather than through OTLP.
pub open spec fn writing_sinks(sinks: Seq<LogSink>) -> int
    decreases sinks.len(),
{
    if sinks.len() == 0 {
        0
    } else {
        writing_sinks(sinks.drop_last()) + if sinks.last().kind is Otlp {
            0int
        } else {
            1int
        }
    }
}

/// Every sink that writes somewhere keeps its worker: once the plan has been carried out, however
/// the exporters fared, there is one worker for each of them.
pub proof fn law_every_writing_sink_keeps_its_worker<'a, W, Y, T, L>(
    cfg: PipelineConfig,
    features: Features,
    rust_log: Option<Seq<char>>,
    start: PipelineView<'a, W, Y, T, L>,
    outcomes: Seq<StepOutcome<W, Y, T, L>>,
)
    requires
        starts(cfg, features, rust_log, start),
        answers_all(start.actions, outcomes),
        outcomes.len() == start.actions.len(),
    ensures
        run(start, outcomes).workers.len() == writing_sinks(sinks_of(cfg)),
{
    let actions = start.actions;
    let sinks = sinks_of(cfg);
    let storage = storage_actions(cfg, features);
    lemma_run_workers(start, outcomes);
    assert(actions.take(actions.len() as int) =~= actions);
    lemma_writers_of_sinks(cfg, features, rust_log, actions, sinks.len());
    assert(sinks.take(sinks.len() as int) =~= sinks);
    if exports_spans(cfg, features) {
        assert(actions.drop_last() =~= actions.take(storage + sinks.len()));
    } else {
        assert(actions =~= actions.take(storage + sinks.len()));
    }
}

proof fn lemma_run_workers<'a, W, Y, T, L>(
    start: PipelineView<'a, W, Y, T, L>,
    outcomes: Seq<StepOutcome<W, Y, T, L>>,
)
    requires
        start.workers.len() == 0,
        answers_all(start.actions, outcomes),
    ensures
        run(start, outcomes).workers.len() == writers(start.actions.take(outcomes.len() as int)),
    decreases outcomes.len(),
{
    if outcomes.len() > 0 {
        let n = outcomes.len() as int;
        let before = outcomes.drop_last();
        assert forall|i: int| 0 <= i < before.len() implies answers(
            start.actions[i],
            #[trigger] before[i],
        ) by {
            assert(before[i] == outcomes[i]);
        }
        lemma_run_workers(start, before);
        assert(start.actions.take(n).drop_last() =~= start.actions.take(n - 1));
        assert(answers(start.actions[n - 1], outcomes[n - 1]));
    }
}

proof fn lemma_writers_of_sinks(
    cfg: PipelineConfig,
    features: Features,
    rust_log: Option<Seq<char>>,
    actions: Seq<PipelineAction>,
    n: nat,
)
    requires
        is_plan(cfg, features, rust_log, actions),
        n <= sinks_of(cfg).len(),
    ensures
        writers(actions.take(storage_actions(cfg, features) + n)) == writing_sinks(
            sinks_of(cfg).take(n as int),
        ),
    decreases n,
{
    let storage = storage_actions(cfg, features);
    let sinks = sinks_of(cfg);
    let taken = actions.take(storage + n);
    if n == 0 {
        if storage == 1 {
            assert(taken.last() is JsonStorage);
            assert(writers(taken.drop_last()) == 0);
        }
    } else {
        lemma_writers_of_sinks(cfg, features, rust_log, actions, (n - 1) as nat);
        assert(taken.drop_last() =~= actions.take(storage + n - 1));
        assert(sinks.take(n as int).drop_last() =~= sinks.take(n - 1));
        let sink = sinks[n - 1];
        assert(serves(cfg, sink, features, rust_log, actions[storage + n - 1]));
    }
}

/// Only a refused install fails: a pipeline is carried out to its end whatever its sinks, its
/// backends and the outcomes of its actions are, and what then comes of it is `AlreadyInit` if the
/// install was refused, and the guard of all that was built if it was not.
pub proof fn law_only_a_refused_install_fails<'a, W, Y, T, L>(
    cfg: PipelineConfig,
    features: Features,
    rust_log: Option<Seq<char>>,
    start: PipelineView<'a, W, Y, T, L>,
    outcomes: Seq<StepOutcome<W, Y, T, L>>,
    guard: PipelineGuard<W, T, L>,
    installed: bool,
)
    requires
        starts(cfg, features, rust_log, start),
        answers_all(start.actions, outcomes),
        outcomes.len() == start.actions.len(),
        keeps(guard, run(start, outcomes)),
    ensures
        forall|done: int|
            0 <= done <= outcomes.len() ==> {
                let pipeline = #[trigger] run(start, outcomes.take(done));
                pipeline.actions == start.actions && pipeline.next == done
            },
        run(start, outcomes).actions == start.actions,
        run(start, outcomes).next == start.actions.len(),
        installed_guard(guard, installed) is Err <==> !installed,
        installed_guard(guard, installed) matches Err(error) ==> error
            == PipelineError::AlreadyInit,
        installed_guard(guard, installed) matches Ok(kept) ==> keeps(kept, run(start, outcomes)),
{
    assert forall|done: int| 0 <= done <= outcomes.len() implies {
        let pipeline = #[trigger] run(start, outcomes.take(done));
        pipeline.actions == start.actions && pipeline.next == done
    } by {
        lemma_run_steps(start, outcomes.take(done));
    }
    lemma_run_steps(start, outcomes);
}

/// A span exporter that fails to build degrades the pipeline to logging only: what is built, and
/// what is kept, is the same as for the same configuration without tracing, and there is no tracer
/// provider.
pub proof fn law_failed_spans_leave_logging_only<'a, 'b, W, Y, T, L>(
    cfg: PipelineConfig,
    untraced: PipelineConfig,
    features: Features,
    rust_log: Option<Seq<char>>,
    start: PipelineView<'a, W, Y, T, L>,
    untraced_start: PipelineView<'b, W, Y, T, L>,
    outcomes: Seq<StepOutcome<W, Y, T, L>>,
)
    requires
        untraced == (PipelineConfig { tracing: None, ..cfg }),
        starts(cfg, features, rust_log, start),
        starts(untraced, features, rust_log, untraced_start),
        answers_all(start.actions, outcomes),
        outcomes.len() == start.actions.len(),
        outcomes.len() > 0,
        outcomes.last() matches StepOutcome::Spans(answer) && answer is Err,
    ensures
        answers_all(untraced_start.actions, outcomes.drop_last()),
        outcomes.drop_last().len() == untraced_start.actions.len(),
        run(start, outcomes).layers == run(untraced_start, outcomes.drop_last()).layers,
        run(start, outcomes).workers == run(untraced_start, outcomes.drop_last()).workers,
        run(start, outcomes).logger_provider == run(
            untraced_start,
            outcomes.drop_last(),
        ).logger_provider,
        run(start, outcomes).tracer_provider is None,
        run(untraced_start, outcomes.drop_last()).tracer_provider is None,
{
    let actions = start.actions;
    let logged = outcomes.drop_last();
    let last = actions.len() - 1;
    let storage = storage_actions(cfg, features);
    assert(sinks_of(untraced) == sinks_of(cfg));
    assert(storage_actions(untraced, features) == storage);
    assert(answers(actions[last], outcomes[last]));
    law_spans_have_a_single_sink(cfg, features, rust_log, actions, last);
    assert forall|i: int| 0 <= i < logged.len() implies {
        &&& answers(untraced_start.actions[i], #[trigger] logged[i])
        &&& !(logged[i] is Spans)
    } by {
        assert(answers(actions[i], outcomes[i]));
        if storage <= i {
            let sink = sinks_of(cfg)[i - storage];
            assert(serves(cfg, sink, features, rust_log, actions[i]));
            assert(sinks_of(untraced)[i - storage] == sink);
            assert(serves(untraced, sink, features, rust_log, untraced_start.actions[i]));
        }
    }
    assert(start.layers =~= untraced_start.layers);
    assert(start.workers =~= untraced_start.workers);
    lemma_runs_agree(start, untraced_start, logged);
}

/// What is built depends on the outcomes alone, and only the span action gives a tracer provider.
proof fn lemma_runs_agree<'a, 'b, W, Y, T, L>(
    one: PipelineView<'a, W, Y, T, L>,
    other: PipelineView<'b, W, Y, T, L>,
    outcomes: Seq<StepOutcome<W, Y, T, L>>,
)
    requires
        one.layers == other.layers,
        one.workers == other.workers,
        one.tracer_provider is None,
        other.tracer_provider is None,
        one.logger_provider == other.logger_provider,
        forall|i: int| 0 <= i < outcomes.len() ==> !(#[trigger] outcomes[i] is Spans),
    ensures
        run(one, outcomes).layers == run(other, outcomes).layers,
        run(one, outcomes).workers == run(other, outcomes).workers,
        run(one, outcomes).tracer_provider is None,
        run(other, outcomes).tracer_provider is None,
        run(one, outcomes).logger_provider == run(other, outcomes).logger_provider,
    decreases outcomes.len(),
{
    if outcomes.len() > 0 {
        assert forall|i: int| 0 <= i < outcomes.drop_last().len() implies !(
        #[trigger] outcomes.drop_last()[i] is Spans) by {
            assert(outcomes.drop_last()[i] == outcomes[i]);
        }
        lemma_runs_agree(one, other, outcomes.drop_last());
        assert(!(outcomes[outcomes.len() - 1] is Spans));
    }
}

proof fn lemma_run_steps<'a, W, Y, T, L>(
    start: PipelineView<'a, W, Y, T, L>,
    outcomes: Seq<StepOutcome<W, Y, T, L>>,
)
    ensures
        run(start, outcomes).actions == start.actions,
        run(start, outcomes).next == start.next + outcomes.len(),
    decreases outcomes.len(),
{
    if outcomes.len() > 0 {
        lemma_run_steps(start, outcomes.drop_last());
    }
}

/// Only logging fans out: a plan has at most one span action, the last one, and it has one only
/// where tracing and an OTLP target are configured.
pub proof fn law_spans_have_a_single_sink(
    cfg: PipelineConfig,
    features: Features,
    rust_log: Option<Seq<char>>,
    actions: Seq<PipelineAction>,
    i: int,
)
    requires
        is_plan(cfg, features, rust_log, actions),
        0 <= i < actions.len(),
        actions[i] is Spans,
    ensures
        i == actions.len() - 1,
        exports_spans(cfg, features),
{
    let storage = storage_actions(cfg, features);
    let sinks = sinks_of(cfg);
    if storage <= i < storage + sinks.len() {
        assert(serves(cfg, sinks[i - storage], features, rust_log, actions[i]));
    }
}

/// A layer that writes bunyan lines comes after the storage layer that it reads.
pub proof fn law_bunyan_layers_follow_their_storage(
    cfg: PipelineConfig,
    features: Features,
    rust_log: Option<Seq<char>>,
    actions: Seq<PipelineAction>,
    i: int,
)
    requires
        is_plan(cfg, features, rust_log, actions),
        0 <= i < actions.len(),
        actions[i] matches PipelineAction::Writer { layer, .. } && layer.format is Bunyan,
    ensures
        0 < i,
        actions[0] is JsonStorage,
{
    let storage = storage_actions(cfg, features);
    let sinks = sinks_of(cfg);
    if storage <= i < storage + sinks.len() {
        assert(serves(cfg, sinks[i - storage], features, rust_log, actions[i]));
        assert(sinks[i - storage].format == LogFormat::Bunyan);
    }
}

/// An exporter that fails to build costs its own layer and nothing else: the pipeline goes on as
/// if it had been left out.
pub proof fn law_failed_exporter_only_loses_its_layer<'a, W, Y, T, L>(
    pipeline: PipelineView<'a, W, Y, T, L>,
    said: String,
)
    ensures
        pipeline.after(StepOutcome::LogBridge(Err(said))) == pipeline.after(StepOutcome::Skipped),
        pipeline.after(StepOutcome::Spans(Err(said))) == pipeline.after(StepOutcome::Skipped),
        pipeline.after(StepOutcome::Skipped) == (PipelineView {
            next: pipeline.next + 1,
            ..pipeline
        }),
{
}

/// Spans are exported wherever the build can, tracing is configured and there is an OTLP target,
/// whatever is logged and where: the last action then sends spans to that target. Nowhere else is
/// there a span action.
pub proof fn law_configured_spans_are_exported(
    cfg: PipelineConfig,
    features: Features,
    rust_log: Option<Seq<char>>,
    actions: Seq<PipelineAction>,
)
    requires
        is_plan(cfg, features, rust_log, actions),
    ensures
        features.otel && cfg.tracing is Some && cfg.otlp is Some ==> {
            let target = cfg.otlp->0;
            &&& actions.len() > 0
            &&& actions[actions.len() - 1] matches PipelineAction::Spans { exporter }
                && exporter.signal is Spans && exporter.endpoint@ == target.endpoint@
                && exporter.timeout == target.timeout && (exporter.transport is Grpc
                <==> target.protocol is Grpc) && otlp::plans(target, Signal::Spans, exporter)
        },
        !(features.otel && cfg.tracing is Some && cfg.otlp is Some) ==> forall|i: int|
            0 <= i < actions.len() ==> !(#[trigger] actions[i] is Spans),
{
    if !(features.otel && cfg.tracing is Some && cfg.otlp is Some) {
        assert forall|i: int| 0 <= i < actions.len() implies !(#[trigger] actions[i] is Spans) by {
            if actions[i] is Spans {
                law_spans_have_a_single_sink(cfg, features, rust_log, actions, i);
            }
        }
    }
}

/// What is logged does not bear on what is traced: two configs with the same tracing and the same
/// OTLP target export spans alike, whatever their sinks are.
pub proof fn law_logging_does_not_bear_on_spans(
    one: PipelineConfig,
    other: PipelineConfig,
    features: Features,
    rust_log: Option<Seq<char>>,
    actions: Seq<PipelineAction>,
    other_actions: Seq<PipelineAction>,
)
    requires
        is_plan(one, features, rust_log, actions),
        is_plan(other, features, rust_log, other_actions),
        one.tracing == other.tracing,
        one.otlp == other.otlp,
    ensures
        (exists|i: int| 0 <= i < actions.len() && #[trigger] actions[i] is Spans) <==> (exists|
            i: int,
        |
            0 <= i < other_actions.len() && #[trigger] other_actions[i] is Spans),
{
    law_configured_spans_are_exported(one, features, rust_log, actions);
    law_configured_spans_are_exported(other, features, rust_log, other_actions);
    if features.otel && one.tracing is Some && one.otlp is Some {
        assert(actions[actions.len() - 1] is Spans);
        assert(other_actions[other_actions.len() - 1] is Spans);
    }
}

/// Some sink of `logging` writes bunyan lines.
pub open spec fn has_bunyan_sink(logging: LoggingConfig) -> bool {
    exists|k: int|
        0 <= k < logging.sinks@.len() && (#[trigger] logging.sinks@[k]).format is Bunyan
}

/// A plan holds one action for each sink, one for the bunyan storage where a sink writes bunyan
/// lines and the build can, one for the spans where they are exported, and no others.
pub proof fn law_plan_holds_nothing_else(
    cfg: PipelineConfig,
    features: Features,
    rust_log: Option<Seq<char>>,
    actions: Seq<PipelineAction>,
)
    requires
        is_plan(cfg, features, rust_log, actions),
    ensures
        ({
            let sinks = if cfg.logging is Some {
                cfg.logging->0.sinks@.len() as int
            } else {
                0
            };
            let storage = if features.bunyan && cfg.logging is Some && has_bunyan_sink(
                cfg.logging->0,
            ) {
                1int
            } else {
                0int
            };
            let spans = if features.otel && cfg.tracing is Some && cfg.otlp is Some {
                1int
            } else {
                0int
            };
            &&& actions.len() == storage + sinks + spans
            &&& storage == 1 ==> actions[0] is JsonStorage
            &&& forall|i: int|
                0 <= i < actions.len() && #[trigger] actions[i] is JsonStorage ==> i == 0 && storage
                    == 1
        }),
{
    lemma_bunyan_sinks(cfg);
    let storage = storage_actions(cfg, features);
    assert forall|i: int| 0 <= i < actions.len() && #[trigger] actions[i] is JsonStorage implies i
        == 0 && storage == 1 by {
        if storage <= i < storage + sinks_of(cfg).len() {
            assert(serves(cfg, sinks_of(cfg)[i - storage], features, rust_log, actions[i]));
        }
    }
}

proof fn lemma_bunyan_sinks(cfg: PipelineConfig)
    ensures
        wants_bunyan(cfg) <==> cfg.logging is Some && has_bunyan_sink(cfg.logging->0),
{
    if wants_bunyan(cfg) {
        let i = choose|i: int|
            0 <= i < sinks_of(cfg).len() && (#[trigger] sinks_of(cfg)[i]).format
                == LogFormat::Bunyan;
        assert(cfg.logging->0.sinks@[i].format is Bunyan);
    }
    if cfg.logging is Some && has_bunyan_sink(cfg.logging->0) {
        let sinks = cfg.logging->0.sinks@;
        let k = choose|k: int| 0 <= k < sinks.len() && (#[trigger] sinks[k]).format is Bunyan;
        assert(sinks_of(cfg)[k].format == LogFormat::Bunyan);
    }
}

/// Every sink gets what it was configured with: its destination, its format, and a filter by its
/// own level or else the pipeline's. A bridge goes to the pipeline's OTLP target. A sink is left
/// out only where it is an OTLP one without a backend or a target.
pub proof fn law_sink_gets_what_it_was_configured_with(
    cfg: PipelineConfig,
    features: Features,
    rust_log: Option<Seq<char>>,
    actions: Seq<PipelineAction>,
    logging: LoggingConfig,
    i: int,
)
    requires
        is_plan(cfg, features, rust_log, actions),
        cfg.logging == Some(logging),
        0 <= i < logging.sinks@.len(),
    ensures
        ({
            let sink = logging.sinks@[i];
            let directives = filter::directives_for(
                rust_log,
                if sink.level is Some {
                    sink.level->0@
                } else {
                    cfg.level@
                },
            );
            let at = if features.bunyan && has_bunyan_sink(logging) {
                i + 1
            } else {
                i
            };
            &&& at < actions.len()
            &&& sink.kind is Stdout ==> (actions[at] matches PipelineAction::Writer { target, layer }
                && target is Stdout && layer.directives@ == directives)
            &&& sink.kind is RollingFile ==> (actions[at] matches PipelineAction::Writer {
                target,
                layer,
            } && target is RollingFile && *target->dir == sink.kind->dir && target->prefix@
                == sink.kind->prefix@ && target->rotation == sink.kind->rotation
                && layer.directives@ == directives)
            &&& sink.kind is Otlp && features.otel_logs && cfg.otlp is Some ==> (
            actions[at] matches PipelineAction::LogBridge { exporter, directives: given } && given@
                == directives && exporter.signal is Logs && exporter.endpoint@
                == cfg.otlp->0.endpoint@ && exporter.timeout == cfg.otlp->0.timeout && (
            exporter.transport is Grpc <==> cfg.otlp->0.protocol is Grpc) && otlp::plans(
                cfg.otlp->0,
                Signal::Logs,
                exporter,
            ))
            &&& sink.kind is Otlp && !features.otel_logs ==> (
            actions[at] matches PipelineAction::Skip { notice } && notice@
                == "observability: otlp log sink configured but `otel-logs` feature off, skipping"@)
            &&& sink.kind is Otlp && features.otel_logs && cfg.otlp is None ==> (
            actions[at] matches PipelineAction::Skip { notice } && notice@
                == "observability: otlp log sink needs an otlp config, skipping"@)
            &&& actions[at] matches PipelineAction::Writer { layer, .. } ==> {
                &&& sink.format is Json ==> layer.format is Json && layer.notice is None
                &&& sink.format is Pretty ==> layer.format is Pretty && layer.notice is None
                &&& sink.format is Bunyan && features.bunyan ==> layer.format is Bunyan
                    && layer.format->service@ == cfg.service_name@ && layer.notice is None
                &&& sink.format is Bunyan && !features.bunyan ==> layer.format is Json
                    && layer.notice is Some && layer.notice->0@
                    == "observability: bunyan format needs `bunyan` feature, using json"@
            }
        }),
{
    lemma_bunyan_sinks(cfg);
    let storage = storage_actions(cfg, features);
    assert(sinks_of(cfg)[i] == logging.sinks@[i]);
    assert(serves(cfg, sinks_of(cfg)[i], features, rust_log, actions[storage + i]));
}

/// A formatting layer writes the format that was asked for and filters by the directives it was
/// given; only bunyan lines, in a build without them, become JSON, and the operator is told.
pub proof fn law_layer_writes_what_was_asked_for(
    format: LogFormat,
    service: Seq<char>,
    directives: Seq<char>,
    features: Features,
    layer: LogLayer,
)
    requires
        formats(format, service, directives, features, layer),
    ensures
        layer.directives@ == directives,
        format is Pretty <==> layer.format is Pretty,
        format is Bunyan && features.bunyan <==> layer.format is Bunyan,
        layer.format matches LineFormat::Bunyan { service: name } ==> name@ == service,
        layer.notice is Some <==> format is Bunyan && !features.bunyan,
        layer.notice matches Some(notice) ==> notice@
            == "observability: bunyan format needs `bunyan` feature, using json"@,
{
}

/// A pipeline starts with its plan and nothing else: no action carried out, nothing built.
pub proof fn law_pipeline_starts_from_nothing<W, Y, T, L>(
    cfg: PipelineConfig,
    features: Features,
    rust_log: Option<Seq<char>>,
    start: PipelineView<W, Y, T, L>,
)
    requires
        starts(cfg, features, rust_log, start),
    ensures
        is_plan(cfg, features, rust_log, start.actions),
        start.next == 0,
        start.workers.len() == 0,
        start.layers.len() == 0,
        start.tracer_provider is None,
        start.logger_provider is None,
{
}

/// Each action is answered by an outcome of its own, whether it succeeded or failed.
pub proof fn law_each_action_has_its_own_outcome<W, Y, T, L>(
    action: PipelineAction,
    outcome: StepOutcome<W, Y, T, L>,
)
    ensures
        answers(action, outcome) <==> (action is JsonStorage && outcome is Storage || action
            is Writer && outcome is Writer || action is LogBridge && outcome is LogBridge || action
            is Skip && outcome is Skipped || action is Spans && outcome is Spans),
{
}

/// What an outcome built is kept, behind what was there: a layer for everything that was built, a
/// worker for a writer, a provider for an exporter. Nothing that was kept before is lost but a
/// provider of the same signal, and the plan stays.
pub proof fn law_what_was_built_is_kept<'a, W, Y, T, L>(
    pipeline: PipelineView<'a, W, Y, T, L>,
    outcome: StepOutcome<W, Y, T, L>,
)
    ensures
        ({
            let after = pipeline.after(outcome);
            &&& after.actions == pipeline.actions
            &&& after.next == pipeline.next + 1
            &&& outcome matches StepOutcome::Storage(layer) ==> after.layers
                == pipeline.layers.push(layer)
            &&& outcome matches StepOutcome::Writer { worker, layer } ==> after.layers
                == pipeline.layers.push(layer) && after.workers == pipeline.workers.push(worker)
            &&& outcome matches StepOutcome::LogBridge(Ok(built)) ==> after.layers
                == pipeline.layers.push(built.1) && after.logger_provider == Some(built.0)
            &&& outcome matches StepOutcome::Spans(Ok(built)) ==> after.layers
                == pipeline.layers.push(built.1) && after.tracer_provider == Some(built.0)
            &&& (outcome is Skipped || (outcome matches StepOutcome::LogBridge(answer) && answer
                is Err) || (outcome matches StepOutcome::Spans(answer) && answer is Err))
                ==> after.layers == pipeline.layers
            &&& !(outcome is Writer) ==> after.workers == pipeline.workers
            &&& !(outcome matches StepOutcome::LogBridge(answer) && answer is Ok)
                ==> after.logger_provider == pipeline.logger_provider
            &&& !(outcome matches StepOutcome::Spans(answer) && answer is Ok)
                ==> after.tracer_provider == pipeline.tracer_provider
        }),
{
}

/// The operator is told of everything that was left out or failed, with what the exporter said,
/// and of nothing else.
pub proof fn law_operator_is_told_of_every_loss<W, Y, T, L>(
    action: PipelineAction,
    outcome: StepOutcome<W, Y, T, L>,
)
    requires
        answers(action, outcome),
    ensures
        outcome matches StepOutcome::LogBridge(Err(said)) ==> told(action, outcome) == Some(
            "observability: otlp log exporter build failed, log sink skipped: "@ + said@,
        ),
        outcome matches StepOutcome::Spans(Err(said)) ==> told(action, outcome) == Some(
            "observability: otlp trace exporter build failed, tracing disabled: "@ + said@,
        ),
        action matches PipelineAction::Skip { notice } ==> told(action, outcome) == Some(notice@),
        action matches PipelineAction::Writer { layer, .. } ==> (told(action, outcome) is Some
            <==> layer.notice is Some) && (layer.notice matches Some(notice) ==> told(
            action,
            outcome,
        ) == Some(notice@)),
        action is JsonStorage ==> told(action, outcome) is None,
        (outcome matches StepOutcome::LogBridge(answer) && answer is Ok) ==> told(action, outcome)
            is None,
        (outcome matches StepOutcome::Spans(answer) && answer is Ok) ==> told(action, outcome)
            is None,
{
}

/// A notice is its text, and no notice is none.
pub proof fn law_notice_is_its_text(notice: String)
    ensures
        notice_text(Some(notice)) == Some(notice@),
        notice_text(None) is None,
{
}

/// A guard keeps all workers and both providers of its pipeline, and an install that is not
/// refused hands out that very guard.
pub proof fn law_guard_keeps_everything<W, Y, T, L>(
    guard: PipelineGuard<W, T, L>,
    pipeline: PipelineView<W, Y, T, L>,
)
    ensures
        keeps(guard, pipeline) <==> guard.workers@ == pipeline.workers && guard.tracer_provider
            == pipeline.tracer_provider && guard.logger_provider == pipeline.logger_provider,
        installed_guard(guard, true) is Ok && installed_guard(guard, true)->Ok_0 == guard,
        installed_guard(guard, false) is Err && installed_guard(guard, false)->Err_0
            is AlreadyInit,
{
}

/// Every provider that there is gets flushed, once, the tracer's before the logger's.
pub proof fn law_every_provider_is_flushed<'a, T, L>(tracer: Option<T>, logger: Option<L>)
    ensures
        ({
            let order = flush_order::<'a, T, L>(tracer, logger);
            &&& tracer is None && logger is None ==> order.len() == 0
            &&& tracer is Some && logger is None ==> order.len() == 1
            &&& tracer is None && logger is Some ==> order.len() == 1
            &&& tracer is Some && logger is Some ==> order.len() == 2
            &&& tracer is Some ==> (order[0] matches FlushTarget::Tracer(provider) && *provider
                == tracer->0)
            &&& logger is Some ==> (order[order.len() - 1] matches FlushTarget::Logger(provider)
                && *provider == logger->0)
        }),
{
}

/// A run takes the outcomes one after the other: without any it is where it started, and one more
/// outcome is one more step.
pub proof fn law_run_goes_step_by_step<'a, W, Y, T, L>(
    start: PipelineView<'a, W, Y, T, L>,
    outcomes: Seq<StepOutcome<W, Y, T, L>>,
    outcome: StepOutcome<W, Y, T, L>,
)
    ensures
        run(start, Seq::empty()) == start,
        run(start, outcomes.push(outcome)) == run(start, outcomes).after(outcome),
{
    assert(outcomes.push(outcome).drop_last() =~= outcomes);
}

/// One sink that writes bunyan lines is enough to need their storage, and none is needed without
/// one.
pub proof fn law_one_bunyan_sink_is_enough(cfg: PipelineConfig, logging: LoggingConfig, k: int)
    requires
        cfg.logging == Some(logging),
    ensures
        0 <= k < logging.sinks@.len() && logging.sinks@[k].format is Bunyan ==> wants_bunyan(cfg)
            && has_bunyan_sink(logging),
        (forall|i: int|
            0 <= i < logging.sinks@.len() ==> !((#[trigger] logging.sinks@[i]).format is Bunyan))
            ==> !wants_bunyan(cfg) && !has_bunyan_sink(logging),
{
    lemma_bunyan_sinks(cfg);
    if 0 <= k < logging.sinks@.len() && logging.sinks@[k].format is Bunyan {
        assert(has_bunyan_sink(logging));
    }
}

} // verus!
