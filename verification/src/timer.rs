//! Gated latency timer: the clock is read only while the metrics gate is on.

use crate::hot_path;
use crate::hot_path::{metrics_enabled, ThreadState};
use std::time::Instant;
use vstd::prelude::*;

verus! {

/// `std::time::Instant`: a point in time that is carried through.
#[verifier::external_type_specification]
#[verifier::external_body]
pub struct ExInstant(Instant);

/// A latency timer: the start instant and the metric whose histogram takes the elapsed seconds.
/// `None` means that the metrics gate was off at the start: the clock was not read, nothing is
/// recorded.
pub struct Timer(pub Option<(Instant, &'static str)>);

/// Start a timer for `metric` if the metrics gate is on, else skip the clock read entirely: `clock`
/// need be callable only where this thread sees the metrics gate on.
pub fn timer<F: FnOnce() -> bool, C: FnOnce() -> Instant>(
    thread: &ThreadState,
    shared: F,
    clock: C,
    metric: &'static str,
) -> (timer: Timer)
    requires
        hot_path::may_read(thread@, shared),
        forall|on: bool| #[trigger]
            hot_path::sees_gate(thread@, shared, on) && on ==> call_requires(clock, ()),
    ensures
        exists|on: bool| #[trigger]
            hot_path::sees_gate(thread@, shared, on) && (timer.0 is Some <==> on),
        timer.0 matches Some(started) ==> started.1 == metric && call_ensures(
            clock,
            (),
            started.0,
        ),
{
    let on = metrics_enabled(thread, shared);
    if on {
        Timer(Some((clock(), metric)))
    } else {
        Timer(None)
    }
}

impl Timer {
    /// What the end of the timer records: the time elapsed since this instant, into this metric's
    /// histogram. Nothing, if the metrics gate was off at the start.
    pub fn observation(&self) -> (observation: Option<(Instant, &'static str)>)
        ensures
            observation == self.0,
    {
        self.0
    }
}

} // verus!
