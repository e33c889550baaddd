//! Periodic flush of the registry into gauges and a counter.

use crate::histogram;
use crate::histogram::LatencyHistogram;
use crate::hot_path;
use crate::hot_path::{
    drain_all, drain_count, refresh_thread_gate, MetricsGate, Registry, ThreadState, ThreadView,
};
use vstd::prelude::*;
use vstd::string::*;

verus! {

/// Time between two flushes, in milliseconds.
pub const FLUSH_INTERVAL_MS: u64 = 100;

/// The gauges that a flush sets, one per quantile.
pub struct GaugeNames {
    /// Gauge of the median.
    pub p50: String,
    /// Gauge of the 99th percentile.
    pub p99: String,
    /// Gauge of the 99.9th percentile.
    pub p999: String,
}

/// What one flush publishes.
pub struct FlushTick {
    /// Every sample that was handed off since the last flush.
    pub latencies: LatencyHistogram,
    /// How many messages were handed off since the last flush.
    pub messages: u64,
}

/// `prefix` followed by `suffix`.
fn suffixed(prefix: &str, suffix: &str) -> (name: String)
    ensures
        name@ == prefix@ + suffix@,
{
    let mut name = prefix.to_owned();
    name.append(suffix);
    name
}

/// The gauges under `latency_prefix`.
pub fn gauge_names(latency_prefix: &str) -> (names: GaugeNames)
    ensures
        names.p50@ == latency_prefix@ + ".p50"@,
        names.p99@ == latency_prefix@ + ".p99"@,
        names.p999@ == latency_prefix@ + ".p999"@,
{
    GaugeNames {
        p50: suffixed(latency_prefix, ".p50"),
        p99: suffixed(latency_prefix, ".p99"),
        p999: suffixed(latency_prefix, ".p999"),
    }
}

/// One flush: the flushing thread syncs its gate, then drains both registries.
pub fn flush_tick(thread: &mut ThreadState, gate: &MetricsGate, registry: &mut Registry) -> (tick:
    FlushTick)
    requires
        old(thread).wf(),
        old(registry).wf(),
    ensures
        final(thread).wf(),
        final(registry).wf(),
        final(thread)@ == (ThreadView { gate_mirror: Some(gate.on), ..old(thread)@ }),
        histogram::bounded(tick.latencies),
        histogram::bucket_counts(tick.latencies) == hot_path::snapshot(old(registry)@.latencies),
        tick.messages == hot_path::wrapped(hot_path::count_total(old(registry)@.counts)),
        final(registry)@.latencies == Seq::new(
            old(registry)@.latencies.len(),
            |i: int| histogram::no_samples(),
        ),
        final(registry)@.counts == Seq::new(old(registry)@.counts.len(), |i: int| 0u64),
{
    refresh_thread_gate(thread, gate);
    let latencies = drain_all(registry);
    let messages: u64 = drain_count(registry);
    FlushTick { latencies, messages }
}

/// A flush comes every tenth of a second.
pub proof fn law_flush_interval()
    ensures
        10 * FLUSH_INTERVAL_MS == 1000,
{
}

} // verus!
