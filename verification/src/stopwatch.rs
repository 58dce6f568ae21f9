use vstd::prelude::*;

use crate::metric::Metric;
use crate::sample::{Sample, SampleValue};
use crate::util::Dur;

verus! {

#[verifier::external_type_specification]
#[verifier::external_body]
pub struct ExInstant(std::time::Instant);

/// Relies on std::time::Instant::now: an opaque reading of the
/// monotonic clock.  Nothing can be said of its value.
#[verifier::external_body]
pub(crate) fn instant_now() -> std::time::Instant {
    std::time::Instant::now()
}

/// Relies on std::time::Instant::elapsed: the time since the given
/// instant, whose sub-second part is documented to stay below one
/// second.  The amount itself depends on the clock.
#[verifier::external_body]
pub(crate) fn instant_elapsed(start: &std::time::Instant) -> (r: Dur)
    ensures
        r.wf(),
{
    let d = start.elapsed();
    Dur { secs: d.as_secs(), nanos: d.subsec_nanos() }
}

/// Holds a monotonic start instant and produces elapsed samples
/// against a metric key.
#[derive(Debug)]
pub struct Stopwatch {
    start: std::time::Instant,
}

impl Stopwatch {
    /// Create a new Stopwatch, and start it.
    pub fn new() -> Stopwatch {
        Stopwatch { start: instant_now() }
    }

    /// Create a Sample for the given key from the elapsed duration
    pub fn elapsed(&self, key: Metric) -> (r: Sample)
        ensures
            r.key_spec() == key,
            r.value matches SampleValue::Elapsed(d) && d.wf(),
    {
        Sample::elapsed(key, instant_elapsed(&self.start))
    }
}

impl Default for Stopwatch {
    fn default() -> Self {
        Stopwatch::new()
    }
}

} // verus!
