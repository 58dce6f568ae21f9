use vstd::prelude::*;

use crate::metric::Metric;
use crate::util::Dur;

verus! {

/// The payload of one measurement.
#[derive(Debug, Clone, Copy, PartialEq, Eq, Structural)]
pub enum SampleValue {
    /// Elapsed values can be added to Counters, Gauges, and Histograms
    Elapsed(Dur),
    /// Count values can be added to Counters
    Count(u64),
    /// Value values can be added to Counters and Gauges
    Value(u64),
}

/// A single tagged measurement bound to a metric key.
#[derive(Debug, Clone, Copy, PartialEq, Eq, Structural)]
pub struct Sample {
    pub key: Metric,
    pub value: SampleValue,
}

impl Sample {
    fn new(key: Metric, value: SampleValue) -> (r: Sample)
        ensures
            r.key == key,
            r.value == value,
    {
        Sample { key, value }
    }

    /// Create an `Elapsed` sample from the given key and duration
    pub fn elapsed(key: Metric, duration: Dur) -> (r: Sample)
        ensures
            r.key == key,
            r.value == SampleValue::Elapsed(duration),
    {
        Sample::new(key, SampleValue::Elapsed(duration))
    }

    /// Create a `Count` sample from the given key and value
    pub fn count(key: Metric, count: u64) -> (r: Sample)
        ensures
            r.key == key,
            r.value == SampleValue::Count(count),
    {
        Sample::new(key, SampleValue::Count(count))
    }

    /// Create a `Value` sample from the given key and value
    pub fn value(key: Metric, value: u64) -> (r: Sample)
        ensures
            r.key == key,
            r.value == SampleValue::Value(value),
    {
        Sample::new(key, SampleValue::Value(value))
    }

    /// Get the key of this `Sample`
    pub fn key(&self) -> (r: Metric)
        ensures
            r == self.key,
    {
        self.key
    }

    pub open spec fn key_spec(self) -> Metric {
        self.key
    }
}

} // verus!
