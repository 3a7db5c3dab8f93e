//! The search clock: when the search started, how long it may think, and a flag that
//! another thread raises to stop it.
use vstd::prelude::*;
use std::sync::Arc;
use std::sync::atomic::AtomicBool;
use std::sync::atomic::Ordering;
use std::time::Duration;
use std::time::Instant;

verus! {

#[verifier::external_type_specification]
#[verifier::external_body]
pub struct ExInstant(Instant);

pub struct SearchClock {
    pub start: Instant,
    pub max_time_millis: u128,
    pub stop: Arc<AtomicBool>,
}

/// `Instant::now`: the current moment of the monotonic clock. Nothing is stated of it.
#[verifier::external_body]
fn now() -> (r: Instant) {
    Instant::now()
}

/// `Instant::elapsed`: the time since `start`. It depends on the clock; nothing is stated.
#[verifier::external_body]
fn elapsed_since(start: &Instant) -> (r: Duration) {
    start.elapsed()
}

/// `Duration::as_millis`: the whole milliseconds of `d`. The duration is opaque here, so
/// nothing is stated of the number.
#[verifier::external_body]
fn whole_millis(d: &Duration) -> (r: u128) {
    d.as_millis()
}

impl SearchClock {
    /// A clock started now, allowing `max_time_millis`, stopped early when `stop` is raised.
    pub fn start(max_time_millis: u128, stop: Arc<AtomicBool>) -> (r: Self)
        ensures
            r.max_time_millis == max_time_millis,
            r.stop == stop,
    {
        SearchClock { start: now(), max_time_millis, stop }
    }

    /// The whole milliseconds since the clock started.
    pub fn elapsed_millis(&self) -> u128 {
        whole_millis(&elapsed_since(&self.start))
    }

    /// The search must stop: the flag is raised or the thinking time is spent.
    pub fn time_up(&self) -> bool {
        self.stop.load(Ordering::Relaxed) || self.elapsed_millis() > self.max_time_millis
    }
}

} // verus!
