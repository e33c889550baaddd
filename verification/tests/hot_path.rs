use hdrhistogram::Histogram;
use observability::field;
use observability::flush::{flush_tick, gauge_names};
use observability::histogram::{
    new_bounded_histogram, BUCKETS, COVERED_NS, HIST_HIGH_NS, HIST_LOW_NS, HIST_SIGFIGS,
};
use observability::hot_path::lock_recover;
use observability::{
    count_msg, drain_all, drain_count, merge_local, metrics_enabled, record_latency_ns,
    refresh_thread_gate, set_metrics_enabled, should_sample, take_count, timer, LatencyHistogram,
    MetricsGate, Registry, ThreadState, SAMPLE_1_IN_8192,
};
use std::time::Instant;

/// The same histogram, with the queries that need quantiles.
fn queryable(latencies: &LatencyHistogram) -> Histogram<u64> {
    let mut histogram =
        Histogram::new_with_bounds(HIST_LOW_NS, HIST_HIGH_NS, HIST_SIGFIGS).unwrap();
    for (value, count) in latencies.recorded() {
        histogram.record_n(value, count).unwrap();
    }
    histogram
}

fn on_thread() -> ThreadState {
    let mut gate = MetricsGate::new();
    set_metrics_enabled(&mut gate, true);
    let mut thread = ThreadState::new();
    refresh_thread_gate(&mut thread, &gate);
    thread
}

/// A flag that a primed thread must not read.
fn unread() -> bool {
    panic!("a primed thread read the process-wide flag")
}

/// A clock that must not be read.
fn unticked() -> Instant {
    panic!("the clock was read with the metrics gate off")
}

/// Gate starts off; set + refresh flips the thread mirror.
#[test]
fn gate_defaults_off_then_flips_via_refresh() {
    let mut gate = MetricsGate::new();
    let mut thread = ThreadState::new();
    assert!(
        !metrics_enabled(&thread, || gate.on),
        "gate must default off before any enable call"
    );
    set_metrics_enabled(&mut gate, true);
    refresh_thread_gate(&mut thread, &gate);
    assert!(metrics_enabled(&thread, || gate.on));
    set_metrics_enabled(&mut gate, false);
    refresh_thread_gate(&mut thread, &gate);
    assert!(!metrics_enabled(&thread, || gate.on));
}

/// Timer skips clock read when gate off, captures start + metric name when on.
#[test]
fn timer_skips_clock_off_gate_captures_on_gate() {
    let mut gate = MetricsGate::new();
    let mut thread = ThreadState::new();
    set_metrics_enabled(&mut gate, false);
    refresh_thread_gate(&mut thread, &gate);
    assert!(
        timer(&thread, || gate.on, unticked, "x").0.is_none(),
        "off gate: no clock read, no capture"
    );

    set_metrics_enabled(&mut gate, true);
    refresh_thread_gate(&mut thread, &gate);
    assert!(
        timer(&thread, || gate.on, Instant::now, "x").0.is_some(),
        "on gate: start instant + metric name captured"
    );

    let now = Instant::now();
    let started = timer(&thread, || gate.on, || now, "x");
    assert_eq!(started.observation(), Some((now, "x")));
}

/// An unprimed thread follows the flag; a primed one does not read it.
#[test]
fn primed_thread_does_not_read_the_flag() {
    let mut thread = ThreadState::new();
    assert!(metrics_enabled(&thread, || true));
    assert!(!metrics_enabled(&thread, || false));

    refresh_thread_gate(&mut thread, &MetricsGate { on: true });
    assert!(metrics_enabled(&thread, unread));
    refresh_thread_gate(&mut thread, &MetricsGate { on: false });
    assert!(!metrics_enabled(&thread, unread));
    assert!(timer(&thread, unread, unticked, "x").observation().is_none());
    record_latency_ns(&mut thread, unread, 5);
}

/// should_sample: fires on fresh thread's first call, again one period later,
/// exactly once per period-length run of consecutive calls, whatever the start offset.
#[test]
fn should_sample_fires_first_call_and_every_period_after() {
    const MASK: u64 = SAMPLE_1_IN_8192;
    const PERIOD: u64 = MASK + 1;

    let mut thread = ThreadState::new();
    assert!(
        should_sample(&mut thread, MASK),
        "first call on fresh thread must sample"
    );

    let stray = (0..PERIOD - 1)
        .filter(|_| should_sample(&mut thread, MASK))
        .count();
    assert_eq!(stray, 0, "no sample strictly between period boundaries");

    assert!(
        should_sample(&mut thread, MASK),
        "sample fires again exactly one period later"
    );

    // any PERIOD consecutive calls cross exactly one boundary
    let hits = (0..PERIOD)
        .filter(|_| should_sample(&mut thread, MASK))
        .count();
    assert_eq!(hits, 1, "exactly one sample per PERIOD consecutive calls");
}

#[test]
fn sample_masks_at_the_extremes() {
    let mut thread = ThreadState::new();
    assert!((0..10).all(|_| should_sample(&mut thread, 0)));

    let mut thread = ThreadState::new();
    assert!(should_sample(&mut thread, u64::MAX));
    assert!(!(0..1000).any(|_| should_sample(&mut thread, u64::MAX)));
    assert_eq!(SAMPLE_1_IN_8192, 8191);
}

/// take_count reads then resets this thread's counter; second read is zero.
#[test]
fn take_count_reads_then_resets() {
    const K: u64 = 5;
    let mut thread = ThreadState::new();
    for _ in 0..K {
        count_msg(&mut thread);
    }
    assert_eq!(take_count(&mut thread), K);
    assert_eq!(
        take_count(&mut thread),
        0,
        "second read after take must be zero"
    );
}

/// Cross-thread merge/drain plus saturating clamp.
#[test]
fn merge_local_and_drain_all_aggregate_across_threads_with_clamp() {
    const KNOWN: [u64; 5] = [10, 1_000, 50_000, 2_000_000, 999_999_999];
    const OVER_BOUND_NS: u64 = 70_000_000_000; // above HIST_HIGH_NS, must clamp not panic
    const MSG_COUNT: u64 = 7;

    let mut registry = Registry::new();
    let mut worker = on_thread();
    for &ns in &KNOWN {
        record_latency_ns(&mut worker, unread, ns);
    }
    record_latency_ns(&mut worker, unread, OVER_BOUND_NS);
    for _ in 0..MSG_COUNT {
        count_msg(&mut worker);
    }
    assert!(registry.links(&worker));
    merge_local(&mut worker, &mut registry);

    let merged = queryable(&drain_all(&mut registry));
    assert_eq!(merged.len(), KNOWN.len() as u64 + 1);
    let p50 = merged.value_at_quantile(0.5);
    assert!((HIST_LOW_NS..=HIST_HIGH_NS).contains(&p50));
    // max() reports the occupied bucket's representative value, which can round up past the raw
    // high bound. Compare against that bucket's own upper edge instead.
    let clamp_bound = merged.highest_equivalent(HIST_HIGH_NS);
    assert!(
        merged.max() <= clamp_bound,
        "saturating_record must clamp tail spike into bound, not panic or overrun"
    );

    assert_eq!(drain_count(&mut registry), MSG_COUNT);
}

#[test]
fn slots_of_several_threads_add_up_and_clear() {
    let mut registry = Registry::new();
    let mut a = on_thread();
    let mut b = on_thread();
    for _ in 0..3 {
        record_latency_ns(&mut a, unread, 100);
        count_msg(&mut a);
    }
    record_latency_ns(&mut b, unread, 100);
    record_latency_ns(&mut b, unread, 7);
    count_msg(&mut b);
    assert_eq!(drain_count(&mut registry), 0, "nothing handed off yet");
    assert!(drain_all(&mut registry).recorded().is_empty());

    merge_local(&mut a, &mut registry);
    merge_local(&mut b, &mut registry);
    merge_local(&mut a, &mut registry);
    assert!(registry.links(&a) && registry.links(&b));
    assert!(!Registry::new().links(&a));
    assert!(Registry::new().links(&ThreadState::new()));
    assert_eq!(
        drain_all(&mut registry).recorded(),
        vec![(7, 1), (100, 4)]
    );
    assert_eq!(drain_count(&mut registry), 4);

    // drained slots are empty, and stay linked
    assert!(drain_all(&mut registry).recorded().is_empty());
    assert_eq!(drain_count(&mut registry), 0);
    record_latency_ns(&mut b, unread, 9);
    count_msg(&mut b);
    merge_local(&mut b, &mut registry);
    assert_eq!(take_count(&mut b), 0, "the merge took the count");
    assert_eq!(drain_all(&mut registry).recorded(), vec![(9, 1)]);
    assert_eq!(drain_count(&mut registry), 1);
}

#[test]
fn gate_off_records_nothing() {
    let mut registry = Registry::new();
    let mut thread = ThreadState::new();
    refresh_thread_gate(&mut thread, &MetricsGate { on: false });
    record_latency_ns(&mut thread, || true, 100);
    // counting is not gated
    count_msg(&mut thread);
    merge_local(&mut thread, &mut registry);
    assert!(drain_all(&mut registry).recorded().is_empty());
    assert_eq!(drain_count(&mut registry), 1);
}

#[test]
fn buckets_hold_three_figures_and_clamp_spikes() {
    let record = |ns: u64| {
        let mut registry = Registry::new();
        let mut thread = on_thread();
        record_latency_ns(&mut thread, unread, ns);
        merge_local(&mut thread, &mut registry);
        drain_all(&mut registry).recorded()
    };
    assert_eq!(record(0), vec![(0, 1)]);
    assert_eq!(record(1), vec![(1, 1)]);
    assert_eq!(record(2047), vec![(2047, 1)]);
    assert_eq!(record(2048), vec![(2049, 1)]);
    assert_eq!(record(4097), vec![(4099, 1)]);
    assert_eq!(record(1_000_000), vec![(1_000_447, 1)]);
    assert_eq!(record(59_000_000_000), vec![(59_022_245_887, 1)]);
    assert_eq!(record(HIST_HIGH_NS), vec![(60_028_878_847, 1)]);
    // a spike is clamped also where the buckets reach past the upper bound
    for spike in [
        HIST_HIGH_NS + 1,
        65_000_000_000,
        COVERED_NS - 1,
        COVERED_NS,
        70_000_000_000,
        u64::MAX,
    ] {
        assert_eq!(record(spike), record(HIST_HIGH_NS));
    }
}

/// The buckets are where the histogram behind them puts them.
#[test]
fn bucket_layout_matches_the_histogram() {
    let histogram =
        Histogram::<u64>::new_with_bounds(HIST_LOW_NS, HIST_HIGH_NS, HIST_SIGFIGS).unwrap();
    assert_eq!(histogram.distinct_values() as u64, BUCKETS);
    assert!(!histogram.is_auto_resize());
    fn covering_bucket(ns: u64) -> u64 {
        if ns < 2048 {
            ns
        } else {
            1024 + covering_bucket(ns / 2)
        }
    }
    fn bucket_top(bucket: u64) -> u64 {
        if bucket < 2048 {
            bucket
        } else {
            2 * bucket_top(bucket - 1024) + 1
        }
    }
    for bucket in 0..BUCKETS {
        let top = bucket_top(bucket);
        assert_eq!(histogram.highest_equivalent(top), top);
        assert_eq!(covering_bucket(top), bucket);
        assert_eq!(covering_bucket(histogram.lowest_equivalent(top)), bucket);
    }
    assert_eq!(bucket_top(BUCKETS - 1), COVERED_NS - 1);
    assert!(new_bounded_histogram().recorded().is_empty());
}

#[test]
fn flush_drains_and_syncs_the_gate() {
    let mut registry = Registry::new();
    let mut worker = on_thread();
    record_latency_ns(&mut worker, unread, 300);
    count_msg(&mut worker);
    count_msg(&mut worker);
    merge_local(&mut worker, &mut registry);

    let mut flusher = ThreadState::new();
    let tick = flush_tick(&mut flusher, &MetricsGate { on: true }, &mut registry);
    assert!(metrics_enabled(&flusher, unread));
    assert_eq!(tick.latencies.recorded(), vec![(300, 1)]);
    assert_eq!(tick.messages, 2);
    let tick = flush_tick(&mut flusher, &MetricsGate { on: false }, &mut registry);
    assert!(!metrics_enabled(&flusher, unread));
    assert!(tick.latencies.recorded().is_empty());
    assert_eq!(tick.messages, 0);

    let names = gauge_names("feed.decode_latency");
    assert_eq!(names.p50, "feed.decode_latency.p50");
    assert_eq!(names.p99, "feed.decode_latency.p99");
    assert_eq!(names.p999, "feed.decode_latency.p999");
}

#[test]
fn poisoned_lock_is_recovered() {
    assert_eq!(lock_recover::<u8>(Ok(1)), 1);
    assert_eq!(lock_recover::<u8>(Err(2)), 2);
}

/// field keys stay dotted OTel names, never project-invented myapp.* prefixes.
#[test]
fn field_keys_are_dotted_otel_names_without_project_prefix() {
    assert_eq!(field::HTTP_REQUEST_METHOD, "http.request.method");
    assert_eq!(field::HTTP_ROUTE, "http.route");
    assert_eq!(field::RPC_SERVICE, "rpc.service");
    assert_eq!(field::ERROR_TYPE, "error.type");

    let keys = [
        field::HTTP_REQUEST_METHOD,
        field::HTTP_ROUTE,
        field::HTTP_RESPONSE_STATUS_CODE,
        field::RPC_METHOD,
        field::RPC_SERVICE,
        field::ERROR_TYPE,
        field::ENDUSER_ID,
        field::SERVER_ADDRESS,
        field::SERVER_PORT,
        field::NETWORK_PROTOCOL_NAME,
        field::MESSAGING_SYSTEM,
        field::MESSAGING_DESTINATION_NAME,
    ];
    for key in keys {
        assert!(
            !key.contains("myapp"),
            "field key leaked project prefix: {key}"
        );
        assert!(key.contains('.'));
    }
}
