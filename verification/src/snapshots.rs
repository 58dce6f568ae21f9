use vstd::prelude::*;
use vstd::string::StringExecFns;

use crate::histogram::{is_isqrt, Histo};
use crate::metric::Metric;
use crate::util::{dur_of_micros, u64_to_dur, Dur};

verus! {

/// A labeled percentile, kept in tenths of a percent: 500 is the
/// median, 999 the 99.9th percentile.
#[derive(Debug)]
pub struct Percentile {
    pub label: String,
    pub tenths: u32,
}

impl Percentile {
    pub fn new(label: &str, tenths: u32) -> (r: Percentile)
        ensures
            r.label@ == label@,
            r.tenths == tenths,
    {
        Percentile { label: String::from_str(label), tenths }
    }

    pub fn label(&self) -> (r: &str)
        ensures
            r@ == self.label@,
    {
        self.label.as_str()
    }
}

impl Clone for Percentile {
    fn clone(&self) -> (r: Self)
        ensures
            r.label@ == self.label@,
            r.tenths == self.tenths,
    {
        Percentile { label: self.label.clone(), tenths: self.tenths }
    }
}

/// An immutable view of one histogram: extremes, truncated mean and
/// standard deviation, and the values at a chosen set of percentiles,
/// all as durations derived from microseconds.
#[derive(Debug)]
pub struct HistoSnapshot {
    pub min: Dur,
    pub max: Dur,
    pub mean: Dur,
    pub stdev: Dur,
    pub percentiles: Vec<(Percentile, Dur)>,
}

/// What `HistoSnapshot::from_histo` promises: each field is the
/// corresponding statistic of the histogram, converted to a duration.
pub open spec fn snapshot_of_histo(r: HistoSnapshot, h: Histo, ps: Seq<Percentile>) -> bool {
    &&& r.min == dur_of_micros(h.min_spec())
    &&& r.max == dur_of_micros(h.max_spec())
    &&& r.mean == dur_of_micros(h.mean_spec() as u64)
    &&& is_isqrt(h.var_spec(), r.stdev.micros())
    &&& r.stdev.wf() && r.stdev.micros_exact()
    &&& r.percentiles@.len() == ps.len()
    &&& forall|i: int|
        0 <= i < ps.len() ==> {
            &&& (#[trigger] r.percentiles@[i]).0.label@ == ps[i].label@
            &&& r.percentiles@[i].0.tenths == ps[i].tenths
            &&& r.percentiles@[i].1 == dur_of_micros(h.percentile_spec(ps[i].tenths as u64))
        }
}

impl HistoSnapshot {
    /// Get the minimum value in this Snapshot
    pub fn min(&self) -> (r: Dur)
        ensures
            r == self.min,
    {
        self.min
    }

    /// Get the maximum value in this Snapshot
    pub fn max(&self) -> (r: Dur)
        ensures
            r == self.max,
    {
        self.max
    }

    /// Get the mean value in this Snapshot
    pub fn mean(&self) -> (r: Dur)
        ensures
            r == self.mean,
    {
        self.mean
    }

    /// Get the standard deviation in this Snapshot
    pub fn stdev(&self) -> (r: Dur)
        ensures
            r == self.stdev,
    {
        self.stdev
    }

    /// Get the percentiles captured by this Snapshot
    pub fn percentiles(&self) -> (r: Vec<(Percentile, Dur)>)
        ensures
            r@.len() == self.percentiles@.len(),
            forall|i: int|
                0 <= i < r@.len() ==> {
                    &&& (#[trigger] r@[i]).0.label@ == self.percentiles@[i].0.label@
                    &&& r@[i].0.tenths == self.percentiles@[i].0.tenths
                    &&& r@[i].1 == self.percentiles@[i].1
                },
    {
        clone_percentile_durs(&self.percentiles)
    }

    /// Create a Snapshot from a given Histogram and the desired Percentiles
    pub fn from_histo(histo: &Histo, percentiles: Vec<Percentile>) -> (r: HistoSnapshot)
        requires
            histo.wf(),
        ensures
            snapshot_of_histo(r, *histo, percentiles@),
    {
        let min = u64_to_dur(histo.min());
        let max = u64_to_dur(histo.max());
        let mean = u64_to_dur(histo.mean());
        let stdev = u64_to_dur(histo.stdev());
        let mut values: Vec<(Percentile, Dur)> = Vec::new();
        let mut i: usize = 0;
        while i < percentiles.len()
            invariant
                histo.wf(),
                i <= percentiles@.len(),
                values@.len() == i,
                forall|j: int|
                    0 <= j < i ==> {
                        &&& (#[trigger] values@[j]).0.label@ == percentiles@[j].label@
                        &&& values@[j].0.tenths == percentiles@[j].tenths
                        &&& values@[j].1 == dur_of_micros(
                            histo.percentile_spec(percentiles@[j].tenths as u64),
                        )
                    },
            decreases percentiles@.len() - i,
        {
            let p = percentiles[i].clone();
            let tenths = p.tenths as u64;
            let d = u64_to_dur(histo.value_at_tenths(tenths));
            values.push((p, d));
            i = i + 1;
        }
        HistoSnapshot { min, max, mean, stdev, percentiles: values }
    }
}

impl Clone for HistoSnapshot {
    fn clone(&self) -> (r: Self)
        ensures
            r.min == self.min,
            r.max == self.max,
            r.mean == self.mean,
            r.stdev == self.stdev,
            r.percentiles@.len() == self.percentiles@.len(),
            forall|i: int|
                0 <= i < self.percentiles@.len() ==> {
                    &&& (#[trigger] r.percentiles@[i]).0.label@ == self.percentiles@[i].0.label@
                    &&& r.percentiles@[i].0.tenths == self.percentiles@[i].0.tenths
                    &&& r.percentiles@[i].1 == self.percentiles@[i].1
                },
    {
        HistoSnapshot {
            min: self.min,
            max: self.max,
            mean: self.mean,
            stdev: self.stdev,
            percentiles: clone_percentile_durs(&self.percentiles),
        }
    }
}

fn clone_percentile_durs(v: &Vec<(Percentile, Dur)>) -> (r: Vec<(Percentile, Dur)>)
    ensures
        r@.len() == v@.len(),
        forall|i: int|
            0 <= i < v@.len() ==> {
                &&& (#[trigger] r@[i]).0.label@ == v@[i].0.label@
                &&& r@[i].0.tenths == v@[i].0.tenths
                &&& r@[i].1 == v@[i].1
            },
{
    let mut r: Vec<(Percentile, Dur)> = Vec::new();
    let mut i: usize = 0;
    while i < v.len()
        invariant
            i <= v@.len(),
            r@.len() == i,
            forall|j: int|
                0 <= j < i ==> {
                    &&& (#[trigger] r@[j]).0.label@ == v@[j].0.label@
                    &&& r@[j].0.tenths == v@[j].0.tenths
                    &&& r@[j].1 == v@[j].1
                },
        decreases v@.len() - i,
    {
        let p = v[i].0.clone();
        let d = v[i].1;
        r.push((p, d));
        i = i + 1;
    }
    r
}

/// An immutable, point-in-time view of a single metric key: the
/// counter, the gauge, and the latency histogram, each `None` when the
/// key was not registered for that facet.
#[derive(Debug)]
pub struct Snapshot {
    pub key: Metric,
    pub count: Option<u64>,
    pub gauge: Option<u64>,
    pub latency_snapshot: Option<HistoSnapshot>,
}

impl Snapshot {
    /// Create a new Snapshot from the given count, gauge, histogram, and percentiles
    pub fn new(
        key: Metric,
        count: Option<u64>,
        gauge: Option<u64>,
        latency_histogram: Option<Histo>,
        percentiles: Vec<Percentile>,
    ) -> (r: Snapshot)
        requires
            latency_histogram matches Some(h) ==> h.wf(),
        ensures
            r.key == key,
            r.count == count,
            r.gauge == gauge,
            match latency_histogram {
                Some(h) => r.latency_snapshot matches Some(hs) && snapshot_of_histo(
                    hs,
                    h,
                    percentiles@,
                ),
                None => r.latency_snapshot is None,
            },
    {
        let latency_snapshot = match latency_histogram {
            Some(h) => Some(HistoSnapshot::from_histo(&h, percentiles)),
            None => None,
        };
        Snapshot { key, count, gauge, latency_snapshot }
    }

    /// Get the key for this Snapshot
    pub fn key(&self) -> (r: Metric)
        ensures
            r == self.key,
    {
        self.key
    }

    /// Get the count value for this Snapshot, if it exists
    pub fn count(&self) -> (r: Option<u64>)
        ensures
            r == self.count,
    {
        self.count
    }

    /// Get the gauge value for this Snapshot, if it exists
    pub fn gauge(&self) -> (r: Option<u64>)
        ensures
            r == self.gauge,
    {
        self.gauge
    }

    /// Get the gauge value for this Snapshot as a duration, if it exists
    pub fn gauge_as_duration(&self) -> (r: Option<Dur>)
        ensures
            r == match self.gauge {
                Some(g) => Some(dur_of_micros(g)),
                None => None::<Dur>,
            },
    {
        match self.gauge {
            Some(g) => Some(u64_to_dur(g)),
            None => None,
        }
    }

    /// Get the latency histogram view for this Snapshot, if it exists
    pub fn latency_histogram(&self) -> (r: Option<HistoSnapshot>)
        ensures
            match self.latency_snapshot {
                Some(hs) => r matches Some(rs) && rs.min == hs.min && rs.max == hs.max && rs.mean
                    == hs.mean && rs.stdev == hs.stdev && rs.percentiles@.len()
                    == hs.percentiles@.len() && forall|i: int|
                    0 <= i < hs.percentiles@.len() ==> {
                        &&& (#[trigger] rs.percentiles@[i]).0.label@ == hs.percentiles@[i].0.label@
                        &&& rs.percentiles@[i].0.tenths == hs.percentiles@[i].0.tenths
                        &&& rs.percentiles@[i].1 == hs.percentiles@[i].1
                    },
                None => r is None,
            },
    {
        match &self.latency_snapshot {
            Some(hs) => Some(hs.clone()),
            None => None,
        }
    }
}

/// Every percentile a snapshot reports sits between the snapshot's
/// smallest and largest value.
pub proof fn lemma_snapshot_percentiles_bounded(
    r: HistoSnapshot,
    h: Histo,
    ps: Seq<Percentile>,
    i: int,
)
    requires
        snapshot_of_histo(r, h, ps),
        h.wf(),
        !h.is_empty_spec(),
        0 <= i < ps.len(),
    ensures
        r.min.micros() <= r.percentiles@[i].1.micros() <= r.max.micros(),
{
    h.lemma_percentile_bounds(ps[i].tenths as u64);
    crate::util::lemma_dur_of_micros_value(h.min_spec());
    crate::util::lemma_dur_of_micros_value(h.max_spec());
    crate::util::lemma_dur_of_micros_value(h.percentile_spec(ps[i].tenths as u64));
}

/// Snapshot percentile values never decrease as the percentile asked
/// for grows.
pub proof fn lemma_snapshot_percentiles_monotone(
    r: HistoSnapshot,
    h: Histo,
    ps: Seq<Percentile>,
    i: int,
    j: int,
)
    requires
        snapshot_of_histo(r, h, ps),
        h.wf(),
        0 <= i < ps.len(),
        0 <= j < ps.len(),
        ps[i].tenths <= ps[j].tenths,
    ensures
        r.percentiles@[i].1.micros() <= r.percentiles@[j].1.micros(),
{
    h.lemma_percentile_monotone(ps[i].tenths as u64, ps[j].tenths as u64);
    crate::util::lemma_dur_of_micros_value(h.percentile_spec(ps[i].tenths as u64));
    crate::util::lemma_dur_of_micros_value(h.percentile_spec(ps[j].tenths as u64));
}

} // verus!
