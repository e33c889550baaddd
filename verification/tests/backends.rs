use observability::filter::{can_parse, choose_directives, env_filter};
use observability::metrics::{
    disabled, install_otlp, install_prometheus, map_prometheus_build_error, MetricsInstall,
    PrometheusFailure,
};
use observability::otlp::{ExporterPlan, Signal, Temporality, Transport};
use observability::pipeline::{
    log_layer, FlushTarget, LineFormat, PipelineAction, PipelineInit, StepOutcome, WriterTarget,
};
use observability::resource::attributes_on;
use observability::{
    init, init_metrics, init_pipeline, metrics_enabled, BindAddr, Features, LogFormat, LogSink,
    LogSinkKind, LoggingConfig, MetricsConfig, MetricsError, MetricsExporter, MetricsGate,
    MetricsGuard, ObsConfig, OtlpConfig, OtlpProtocol, PipelineConfig, PipelineError,
    PipelineGuard, Rotation, ThreadState, TraceExporter, TracingConfig,
};
use std::path::PathBuf;
use std::time::Duration;

const ALL: Features = Features {
    otel: true,
    otel_logs: true,
    metrics_prom: true,
    metrics_otel: true,
    bunyan: true,
};

const NONE: Features = Features {
    otel: false,
    otel_logs: false,
    metrics_prom: false,
    metrics_otel: false,
    bunyan: false,
};

const BIND: BindAddr = BindAddr::V4 {
    octets: [0, 0, 0, 0],
    port: 9000,
};

type Init<'a> = PipelineInit<'a, u32, &'static str, u32, u32>;

fn pair(key: &str, value: &str) -> (String, String) {
    (key.to_string(), value.to_string())
}

fn otlp(protocol: OtlpProtocol) -> OtlpConfig {
    OtlpConfig {
        endpoint: "http://localhost:4317".to_string(),
        protocol,
        headers: vec![pair("a", "1"), pair("b", "2"), pair("a", "3")],
        resource: vec![pair("deployment.environment", "prod")],
        timeout: Duration::from_secs(5),
    }
}

fn sink(kind: LogSinkKind, format: LogFormat, level: Option<&str>) -> LogSink {
    LogSink {
        kind,
        format,
        level: level.map(|l| l.to_string()),
    }
}

fn rolling() -> LogSinkKind {
    LogSinkKind::RollingFile {
        dir: PathBuf::from("/var/log"),
        prefix: "feed".to_string(),
        rotation: Rotation::Daily,
    }
}

fn config(sinks: Vec<LogSink>) -> PipelineConfig {
    PipelineConfig {
        service_name: "feed-handler".to_string(),
        level: "warn".to_string(),
        otlp: Some(otlp(OtlpProtocol::Grpc)),
        logging: Some(LoggingConfig { sinks }),
        tracing: Some(TracingConfig {
            exporter: TraceExporter::Otlp,
        }),
    }
}

/// Constructing a guard flips the metrics gate on; its end flips it back off.
#[test]
fn drop_flips_gate_off() {
    let mut gate = MetricsGate::new();
    let thread = ThreadState::new();
    let guard: MetricsGuard<u32> = MetricsGuard::new(&mut gate, None);
    assert!(metrics_enabled(&thread, || gate.on));
    assert_eq!(guard.close(&mut gate), None);
    assert!(!metrics_enabled(&thread, || gate.on));
}

#[test]
fn gate_flips_on_successful_install_only() {
    for before in [false, true] {
        let mut gate = MetricsGate { on: before };
        let refused = install_otlp::<u32>(&mut gate, Err("no exporter".to_string()));
        match refused {
            Err(MetricsError::Install(said)) => assert_eq!(said, "no exporter"),
            _ => panic!("an install error was due"),
        }
        assert_eq!(gate.on, before);
        let refused = install_prometheus::<u32>(
            &mut gate,
            Err(PrometheusFailure::HttpListener("in use".to_string())),
        );
        match refused {
            Err(MetricsError::Bind(said)) => assert_eq!(said, "in use"),
            _ => panic!("a bind error was due"),
        }
        assert_eq!(gate.on, before);
        let guard = install_prometheus::<u32>(&mut gate, Ok(())).ok().unwrap();
        assert!(gate.on);
        assert_eq!(guard.close(&mut gate), None);
        assert!(!gate.on);
        let guard = install_otlp(&mut gate, Ok(7u32)).ok().unwrap();
        assert!(gate.on);
        assert_eq!(guard.close(&mut gate), Some(7));
        assert!(!gate.on);
    }
}

#[test]
fn errors_say_what_failed() {
    let error = map_prometheus_build_error(PrometheusFailure::HttpListener("in use".to_string()));
    assert_eq!(error.message(), "failed to bind metrics exporter socket");
    assert_eq!(error.source(), "in use");
    let error = map_prometheus_build_error(PrometheusFailure::Other("broken".to_string()));
    assert_eq!(error.message(), "failed to install metrics recorder");
    assert_eq!(error.source(), "broken");
    let error = disabled("metrics-otel", "otlp");
    assert_eq!(error.message(), "failed to install metrics recorder");
    assert_eq!(
        error.source(),
        "otlp exporter requested but crate built without feature \"metrics-otel\""
    );
    assert_eq!(
        PipelineError::AlreadyInit.message(),
        "global tracing subscriber already initialized"
    );
}

#[test]
fn recorder_is_chosen_by_config_and_features() {
    let prometheus = MetricsConfig {
        exporter: MetricsExporter::Prometheus { bind: BIND },
    };
    let push = MetricsConfig {
        exporter: MetricsExporter::Otlp,
    };
    let target = otlp(OtlpProtocol::HttpProtobuf);
    match init_metrics(&prometheus, None, "feed", &Features::default()) {
        Ok(MetricsInstall::Prometheus { bind }) => assert_eq!(bind, BIND),
        _ => panic!("a pull endpoint was due"),
    }
    match init_metrics(&push, Some(&target), "feed", &ALL) {
        Ok(MetricsInstall::Otlp {
            exporter,
            service_name,
        }) => {
            assert_eq!(exporter.signal, Signal::Metrics(Temporality::Cumulative));
            assert_eq!(service_name, "feed");
        }
        _ => panic!("a push bridge was due"),
    }
    let source = |cfg: &MetricsConfig, otlp: Option<&OtlpConfig>, features: &Features| {
        init_metrics(cfg, otlp, "feed", features)
            .err()
            .unwrap()
            .source()
            .to_string()
    };
    assert_eq!(
        source(&push, None, &ALL),
        "otlp exporter requested but no OtlpConfig was provided"
    );
    assert_eq!(
        source(&push, Some(&target), &Features::default()),
        "otlp exporter requested but crate built without feature \"metrics-otel\""
    );
    assert_eq!(
        source(&prometheus, None, &NONE),
        "prometheus exporter requested but crate built without feature \"metrics-prom\""
    );
}

fn same_target(plan: &ExporterPlan) {
    assert_eq!(plan.endpoint, "http://localhost:4317");
    assert_eq!(plan.timeout, Duration::from_secs(5));
}

#[test]
fn sibling_exporters_share_the_target() {
    let grpc = otlp(OtlpProtocol::Grpc);
    for plan in [
        grpc.span_exporter(),
        grpc.metric_exporter(),
        grpc.log_exporter(),
    ] {
        same_target(&plan);
        assert!(matches!(plan.transport, Transport::Grpc));
    }
    let http = otlp(OtlpProtocol::HttpProtobuf);
    for plan in [
        http.span_exporter(),
        http.metric_exporter(),
        http.log_exporter(),
    ] {
        same_target(&plan);
        match plan.transport {
            Transport::HttpProtobuf { headers } => {
                assert_eq!(headers, vec![pair("a", "3"), pair("b", "2")])
            }
            Transport::Grpc => panic!("the http transport was due"),
        }
    }
    assert_eq!(http.span_exporter().signal, Signal::Spans);
    assert_eq!(http.log_exporter().signal, Signal::Logs);
}

#[test]
fn http_headers_keep_the_last_value_of_each_name() {
    let mut target = otlp(OtlpProtocol::HttpProtobuf);
    assert_eq!(
        target.http_headers(),
        vec![pair("a", "3"), pair("b", "2")]
    );
    target.headers = vec![];
    assert!(target.http_headers().is_empty());
}

#[test]
fn resource_carries_service_name_and_configured_attributes() {
    let mut target = otlp(OtlpProtocol::Grpc);
    let find = |attributes: &Vec<(String, String)>, key: &str| {
        let found: Vec<String> = attributes
            .iter()
            .filter(|(k, _)| k == key)
            .map(|(_, v)| v.clone())
            .collect();
        assert!(found.len() <= 1, "an attribute is listed once");
        found.first().cloned()
    };
    let attributes = target.otel_resource("feed-handler");
    assert_eq!(
        find(&attributes, "service.name"),
        Some("feed-handler".to_string())
    );
    assert_eq!(
        find(&attributes, "deployment.environment"),
        Some("prod".to_string())
    );
    // what the sdk knows about itself is there too
    assert_eq!(
        find(&attributes, "telemetry.sdk.language"),
        Some("rust".to_string())
    );

    target.resource = vec![pair("k", "1"), pair("service.name", "other"), pair("k", "2")];
    let attributes = target.otel_resource("feed-handler");
    assert_eq!(find(&attributes, "service.name"), Some("other".to_string()));
    assert_eq!(find(&attributes, "k"), Some("2".to_string()));
}

/// The configuration wins over what was detected, and nothing else is added.
#[test]
fn attributes_are_set_on_what_was_detected() {
    let detected = vec![pair("host", "a"), pair("service.name", "unknown"), pair("k", "0")];
    let mut attributes = attributes_on(
        &detected,
        "feed-handler",
        &vec![pair("k", "1"), pair("k", "2")],
    );
    attributes.sort();
    assert_eq!(
        attributes,
        vec![pair("host", "a"), pair("k", "2"), pair("service.name", "feed-handler")]
    );
    let named = attributes_on(&vec![], "feed-handler", &vec![pair("service.name", "other")]);
    assert_eq!(named, vec![pair("service.name", "other")]);
}

#[test]
fn level_precedence() {
    // a valid RUST_LOG overrides the level, also when it is empty
    assert_eq!(env_filter(Some("debug"), "warn"), "debug");
    assert_eq!(env_filter(Some(""), "warn"), "");
    assert_eq!(env_filter(Some("my_crate=trace,info"), "warn"), "my_crate=trace,info");
    // an invalid or unset one leaves the level
    assert_eq!(env_filter(Some("my_crate=lolwut"), "warn"), "warn");
    assert_eq!(env_filter(None, "warn"), "warn");
    // an invalid level falls back
    assert_eq!(env_filter(None, "my_crate=lolwut"), "info");
    assert_eq!(env_filter(Some("a=b"), "c=d"), "info");

    assert_eq!(choose_directives(Some("debug"), "warn", false, true), "warn");
    assert_eq!(choose_directives(Some("debug"), "warn", true, false), "debug");
    assert_eq!(choose_directives(None, "warn", true, false), "info");
}

#[test]
fn slices_inside_a_character_are_told() {
    assert!(can_parse(""));
    assert!(can_parse("info, my_crate=debug"));
    assert!(can_parse("caf\u{e9}=info, my_crate=debug"));
    assert!(can_parse("[caf\u{e9}{f\u{e9}=1}]=info"));
    // a target, a span, a field, a level
    assert!(!can_parse("info, caf\u{e9}=debug"));
    assert!(!can_parse(" \u{e9}=info"));
    assert!(!can_parse("\u{3000}a=info"));
    assert!(!can_parse(" [\u{e9}]"));
    assert!(!can_parse(" \u{e9}[a]"));
    assert!(!can_parse("  [a{\u{e9}b}]"));
    assert!(!can_parse("   [\u{e9}]=info"));
    // nothing is sliced, or only between characters
    for safe in [
        "\u{3000}info",
        " \u{e9}",
        " \u{e9}]",
        " a=\u{e9}",
        "   \u{e9}=info",
        "  [\u{e9}]",
        "  [\u{e9}]=info",
        "   [a{\u{e9}b}]",
    ] {
        assert!(can_parse(safe), "{safe}");
    }
    assert_eq!(env_filter(None, "caf\u{e9}=info"), "caf\u{e9}=info");
    assert_eq!(env_filter(None, " info"), " info");
    assert_eq!(env_filter(None, " \u{e9}"), " \u{e9}");
    assert_eq!(env_filter(None, " \u{e9}]"), " \u{e9}]");
    assert_eq!(env_filter(None, "  [\u{e9}]"), "  [\u{e9}]");
    assert_eq!(env_filter(Some("  [\u{e9}]"), "warn"), "  [\u{e9}]");
    assert_eq!(env_filter(None, " a=\u{e9}"), "info");
    assert_eq!(env_filter(None, "   \u{e9}=info"), "info");
}

/// What is held to be safe to parse does not make the parser panic: every text of up to six
/// characters out of those that matter is resolved.
#[test]
fn every_short_text_resolves() {
    const ALPHABET: [char; 8] = [' ', 'a', '\u{e9}', '=', '[', ']', '{', '}'];
    let mut texts = vec![String::new()];
    let mut from = 0;
    for _ in 0..6 {
        let to = texts.len();
        for i in from..to {
            for c in ALPHABET {
                let text = format!("{}{c}", texts[i]);
                texts.push(text);
            }
        }
        from = to;
    }
    for text in &texts {
        let directives = env_filter(None, text);
        assert!(directives == *text || directives == "info");
    }
}

/// The precedence holds of all texts, also of those that the parser cannot take.
#[test]
fn rust_log_overrides_every_level() {
    const CUT: &str = " \u{e9}=info";
    assert_eq!(env_filter(Some("warn"), "debug"), "warn");
    assert_eq!(env_filter(Some("warn"), CUT), "warn");
    assert_eq!(env_filter(Some(""), CUT), "");
    assert_eq!(env_filter(Some(CUT), "debug"), "debug");
    assert_eq!(env_filter(Some("a=b, \u{e9}=info"), "debug"), "debug");
    assert_eq!(env_filter(Some("a=b"), CUT), "info");
    assert_eq!(env_filter(None, CUT), "info");

    let mut cfg = config(vec![sink(LogSinkKind::Stdout, LogFormat::Json, Some(CUT))]);
    cfg.otlp = Some(otlp(OtlpProtocol::Grpc));
    for (rust_log, expected) in [(None, "info"), (Some("warn"), "warn"), (Some(CUT), "info")] {
        cfg.logging.as_mut().unwrap().sinks[0].kind = LogSinkKind::Stdout;
        let written: Init = init_pipeline(&cfg, &ALL, rust_log);
        match written.action() {
            Some(PipelineAction::Writer { layer, .. }) => assert_eq!(layer.directives, expected),
            _ => panic!("a writer was due"),
        }
        cfg.logging.as_mut().unwrap().sinks[0].kind = LogSinkKind::Otlp;
        let bridged: Init = init_pipeline(&cfg, &ALL, rust_log);
        match bridged.action() {
            Some(PipelineAction::LogBridge { directives, .. }) => assert_eq!(directives, expected),
            _ => panic!("a bridge was due"),
        }
    }
}

#[test]
fn formats_fall_back_to_json_without_bunyan() {
    let layer = log_layer(LogFormat::Json, "feed", "info".to_string(), &ALL);
    assert!(matches!(layer.format, LineFormat::Json));
    assert_eq!(layer.directives, "info");
    assert_eq!(layer.notice, None);
    let layer = log_layer(LogFormat::Pretty, "feed", "info".to_string(), &NONE);
    assert!(matches!(layer.format, LineFormat::Pretty));
    let layer = log_layer(LogFormat::Bunyan, "feed", "info".to_string(), &ALL);
    match layer.format {
        LineFormat::Bunyan { service } => assert_eq!(service, "feed"),
        _ => panic!("bunyan lines were due"),
    }
    let layer = log_layer(LogFormat::Bunyan, "feed", "info".to_string(), &NONE);
    assert!(matches!(layer.format, LineFormat::Json));
    assert_eq!(
        layer.notice.as_deref(),
        Some("observability: bunyan format needs `bunyan` feature, using json")
    );
}

/// The whole plan, with every exporter coming up.
#[test]
fn pipeline_fans_out_logging_and_adds_one_span_sink() {
    let cfg = config(vec![
        sink(LogSinkKind::Stdout, LogFormat::Json, None),
        sink(rolling(), LogFormat::Bunyan, Some("debug")),
        sink(LogSinkKind::Otlp, LogFormat::Json, None),
    ]);
    let mut init: Init = init_pipeline(&cfg, &ALL, None);

    assert!(matches!(init.action(), Some(PipelineAction::JsonStorage)));
    assert_eq!(init.advance(StepOutcome::Storage("storage")), None);

    match init.action() {
        Some(PipelineAction::Writer { target, layer }) => {
            assert!(matches!(target, WriterTarget::Stdout));
            assert!(matches!(layer.format, LineFormat::Json));
            assert_eq!(layer.directives, "warn");
        }
        _ => panic!("a writer was due"),
    }
    let outcome = StepOutcome::Writer {
        worker: 1,
        layer: "stdout",
    };
    assert_eq!(init.advance(outcome), None);

    match init.action() {
        Some(PipelineAction::Writer { target, layer }) => {
            match target {
                WriterTarget::RollingFile {
                    dir,
                    prefix,
                    rotation,
                } => {
                    assert_eq!(**dir, PathBuf::from("/var/log"));
                    assert_eq!(*prefix, "feed");
                    assert_eq!(*rotation, Rotation::Daily);
                }
                WriterTarget::Stdout => panic!("a file was due"),
            }
            assert!(matches!(layer.format, LineFormat::Bunyan { .. }));
            assert_eq!(layer.directives, "debug");
        }
        _ => panic!("a writer was due"),
    }
    let outcome = StepOutcome::Writer {
        worker: 2,
        layer: "file",
    };
    assert_eq!(init.advance(outcome), None);

    match init.action() {
        Some(PipelineAction::LogBridge {
            exporter,
            directives,
        }) => {
            assert_eq!(exporter.signal, Signal::Logs);
            assert_eq!(directives, "warn");
        }
        _ => panic!("a log bridge was due"),
    }
    assert_eq!(init.advance(StepOutcome::LogBridge(Ok((8, "bridge")))), None);

    match init.action() {
        Some(PipelineAction::Spans { exporter }) => assert_eq!(exporter.signal, Signal::Spans),
        _ => panic!("the span layer was due"),
    }
    assert_eq!(init.advance(StepOutcome::Spans(Ok((9, "spans")))), None);
    assert!(init.action().is_none());

    let (layers, guard) = init.finish();
    assert_eq!(layers, vec!["storage", "stdout", "file", "bridge", "spans"]);
    let guard = guard.installed(true).ok().unwrap();
    assert_eq!(guard.workers, vec![1, 2]);
    assert_eq!(guard.tracer_provider, Some(9));
    assert_eq!(guard.logger_provider, Some(8));
    let order = guard.flush_targets();
    assert_eq!(order.len(), 2);
    assert!(matches!(order[0], FlushTarget::Tracer(9)));
    assert!(matches!(order[1], FlushTarget::Logger(8)));
    assert_eq!(
        guard.installed(false).err(),
        Some(PipelineError::AlreadyInit)
    );
}

/// Failing exporters and missing backends are told of and skipped.
#[test]
fn pipeline_degrades_to_logging_only() {
    let mut cfg = config(vec![
        sink(LogSinkKind::Otlp, LogFormat::Json, None),
        sink(LogSinkKind::Stdout, LogFormat::Bunyan, None),
    ]);

    let mut init: Init = init_pipeline(&cfg, &ALL, Some("trace"));
    assert_eq!(init.advance(StepOutcome::Storage("storage")), None);
    match init.action() {
        Some(PipelineAction::LogBridge { directives, .. }) => assert_eq!(directives, "trace"),
        _ => panic!("a log bridge was due"),
    }
    assert_eq!(
        init.advance(StepOutcome::LogBridge(Err("no route".to_string())))
            .as_deref(),
        Some("observability: otlp log exporter build failed, log sink skipped: no route")
    );
    let outcome = StepOutcome::Writer {
        worker: 1,
        layer: "stdout",
    };
    assert_eq!(init.advance(outcome), None);
    assert_eq!(
        init.advance(StepOutcome::Spans(Err("no route".to_string())))
            .as_deref(),
        Some("observability: otlp trace exporter build failed, tracing disabled: no route")
    );
    let (layers, guard) = init.finish();
    assert_eq!(layers, vec!["storage", "stdout"]);
    assert!(guard.flush_targets().is_empty());
    assert!(guard.installed(true).is_ok());

    // without backends: no storage, no bridge, no spans
    let mut init: Init = init_pipeline(&cfg, &NONE, None);
    assert_eq!(
        init.advance(StepOutcome::Skipped).as_deref(),
        Some("observability: otlp log sink configured but `otel-logs` feature off, skipping")
    );
    let outcome = StepOutcome::Writer {
        worker: 1,
        layer: "stdout",
    };
    assert_eq!(
        init.advance(outcome).as_deref(),
        Some("observability: bunyan format needs `bunyan` feature, using json")
    );
    assert!(init.action().is_none());

    // without an otlp target
    cfg.otlp = None;
    let mut init: Init = init_pipeline(&cfg, &ALL, None);
    init.advance(StepOutcome::Storage("storage"));
    assert_eq!(
        init.advance(StepOutcome::Skipped).as_deref(),
        Some("observability: otlp log sink needs an otlp config, skipping")
    );

    // nothing configured at all
    cfg.logging = None;
    let init: Init = init_pipeline(&cfg, &ALL, None);
    assert!(init.action().is_none());
}

/// Pipeline failure is fatal; a metrics failure only costs the recorder.
#[test]
fn metrics_failure_leaves_the_pipeline_up() {
    let cfg = ObsConfig {
        pipeline: config(vec![]),
        metrics: Some(MetricsConfig {
            exporter: MetricsExporter::Otlp,
        }),
    };
    assert_eq!(
        init::<u32>(&cfg, Err(PipelineError::AlreadyInit)).err(),
        Some(PipelineError::AlreadyInit)
    );

    let up = init(&cfg, Ok(1u32)).ok().unwrap();
    let request = up.request.as_ref().unwrap();
    assert_eq!(request.service_name, "feed-handler");
    assert_eq!(request.otlp.unwrap().endpoint, "http://localhost:4317");
    assert!(matches!(request.config.exporter, MetricsExporter::Otlp));
    let (guard, warning) =
        up.finish::<u32>(Some(Err(MetricsError::Install("broken".to_string()))));
    assert_eq!(guard.pipeline, 1);
    assert_eq!(guard.metrics, None);
    assert_eq!(warning.unwrap().source(), "broken");

    let up = init(&cfg, Ok(1u32)).ok().unwrap();
    let (guard, warning) = up.finish(Some(Ok(2u32)));
    assert_eq!(guard.metrics, Some(2));
    assert!(warning.is_none());

    let cfg = ObsConfig {
        pipeline: config(vec![]),
        metrics: None,
    };
    let up = init(&cfg, Ok(1u32)).ok().unwrap();
    assert!(up.request.is_none());
    let (guard, warning) = up.finish::<u32>(None);
    assert_eq!(guard.metrics, None);
    assert!(warning.is_none());
}

#[test]
fn default_features() {
    assert_eq!(
        Features::default(),
        Features {
            otel: true,
            otel_logs: false,
            metrics_prom: true,
            metrics_otel: false,
            bunyan: false,
        }
    );
}

#[test]
fn guard_without_providers_flushes_nothing() {
    let guard: PipelineGuard<u32, u32, u32> = PipelineGuard {
        workers: vec![1],
        tracer_provider: None,
        logger_provider: Some(4),
    };
    let order = guard.flush_targets();
    assert_eq!(order.len(), 1);
    assert!(matches!(order[0], FlushTarget::Logger(4)));
}
