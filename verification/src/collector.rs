use vstd::prelude::*;

use crate::counter::Counters;
use crate::gauge::Gauges;
use crate::histogram::{histograms_wf, recorded, Histograms};
use crate::metric::Metric;
use crate::sample::{Sample, SampleValue};
use crate::snapshots::{snapshot_of_histo, Percentile, Snapshot};
use crate::stopwatch::Stopwatch;
use crate::util::Dur;

verus! {

/// A declared intent to track a metric key under one of the three
/// facets.
#[derive(Debug)]
pub enum Interest {
    Count(Metric),
    Gauge(Metric),
    LatencyPercentile(Metric),
}

#[verifier::external_type_specification]
#[verifier::external_body]
#[verifier::reject_recursive_types(T)]
pub struct ExSender<T>(crossbeam::channel::Sender<T>);

#[verifier::external_type_specification]
#[verifier::external_body]
#[verifier::reject_recursive_types(T)]
pub struct ExReceiver<T>(crossbeam::channel::Receiver<T>);

/// Relies on crossbeam::channel::unbounded: a fresh channel of
/// unbounded capacity, as a sender and receiver pair.
#[verifier::external_body]
fn channel_unbounded() -> (crossbeam::channel::Sender<Sample>, crossbeam::channel::Receiver<
    Sample,
>) {
    crossbeam::channel::unbounded()
}

/// Relies on crossbeam Sender::clone: another sending handle to the
/// same channel.
#[verifier::external_body]
fn sender_clone(s: &crossbeam::channel::Sender<Sample>) -> crossbeam::channel::Sender<Sample> {
    s.clone()
}

/// Relies on crossbeam Sender::try_send: on an unbounded channel the
/// sample is queued at the tail unless every receiver is gone, in
/// which case it is dropped.  Never blocks and never panics.
#[verifier::external_body]
fn channel_send(s: &crossbeam::channel::Sender<Sample>, sample: Sample) {
    let _ = s.try_send(sample);
}

/// Relies on crossbeam Receiver::try_recv: pops the sample at the head
/// of the queue, or returns `None` when the queue is empty or every
/// sender is gone.  What arrives depends on concurrent senders, so
/// nothing is promised of the result.
#[verifier::external_body]
fn channel_try_recv(r: &crossbeam::channel::Receiver<Sample>) -> Option<Sample> {
    r.try_recv().ok()
}

/// Relies on crossbeam Receiver::recv: blocks until a sample can be
/// popped, or returns `None` once the channel is empty and every
/// sender is gone.
#[verifier::external_body]
fn channel_recv(r: &crossbeam::channel::Receiver<Sample>) -> Option<Sample> {
    r.recv().ok()
}

/// Relies on crossbeam Receiver::len: how many samples were queued at
/// some moment during the call.  Concurrent senders may change it at
/// any time.
#[verifier::external_body]
fn channel_len(r: &crossbeam::channel::Receiver<Sample>) -> usize {
    r.len()
}

/// Default percentiles of interest.  Includes 50th, 75th, 90th, 95th, 99th, 99.9th.
pub fn default_percentiles() -> (r: Vec<Percentile>)
    ensures
        default_percentiles_spec(r@),
{
    let mut v: Vec<Percentile> = Vec::new();
    v.push(Percentile::new("p50", 500));
    v.push(Percentile::new("p75", 750));
    v.push(Percentile::new("p90", 900));
    v.push(Percentile::new("p95", 950));
    v.push(Percentile::new("p99", 990));
    v.push(Percentile::new("p99.9", 999));
    v
}

/// The default percentile set: its six entries in ascending order.
pub open spec fn default_percentiles_spec(s: Seq<Percentile>) -> bool {
    &&& s.len() == 6
    &&& s[0].label@ == "p50"@ && s[0].tenths == 500
    &&& s[1].label@ == "p75"@ && s[1].tenths == 750
    &&& s[2].label@ == "p90"@ && s[2].tenths == 900
    &&& s[3].label@ == "p95"@ && s[3].tenths == 950
    &&& s[4].label@ == "p99"@ && s[4].tenths == 990
    &&& s[5].label@ == "p99.9"@ && s[5].tenths == 999
}

/// How much one sample adds to the counter of its key.
pub open spec fn counter_delta(v: SampleValue) -> u64 {
    match v {
        SampleValue::Elapsed(_) => 1u64,
        SampleValue::Count(n) => n,
        SampleValue::Value(_) => 1u64,
    }
}

/// A registered counter after adding `n`, saturating; an unregistered
/// one stays unregistered.
pub open spec fn counter_bump(c: Option<u64>, n: u64) -> Option<u64> {
    match c {
        Some(x) => Some(
            if x + n > u64::MAX {
                u64::MAX
            } else {
                (x + n) as u64
            },
        ),
        None => None::<u64>,
    }
}

/// What one sample leaves on the gauge of its key: `Elapsed` sets the
/// elapsed microseconds, `Value` sets the value, `Count` leaves the
/// gauge alone.
pub open spec fn gauge_after(g: Option<u64>, v: SampleValue) -> Option<u64> {
    match v {
        SampleValue::Elapsed(d) => match g {
            Some(_) => Some(d.micros()),
            None => None::<u64>,
        },
        SampleValue::Count(_) => g,
        SampleValue::Value(x) => match g {
            Some(_) => Some(x),
            None => None::<u64>,
        },
    }
}

/// Owns the three registries and the receiving end of the sample
/// channel; producers send through cloned handles and the collector
/// drains samples into the registries.
pub struct Collector {
    counters: Counters,
    gauges: Gauges,
    latency_histograms: Histograms,
    tx: crossbeam::channel::Sender<Sample>,
    rx: crossbeam::channel::Receiver<Sample>,
    percentiles: Vec<Percentile>,
}

impl Collector {
    pub closed spec fn wf(&self) -> bool {
        histograms_wf(&self.latency_histograms)
    }

    pub closed spec fn counter_slot(&self, m: Metric) -> Option<u64> {
        self.counters.slot(m)
    }

    pub closed spec fn gauge_slot(&self, m: Metric) -> Option<u64> {
        self.gauges.slot(m)
    }

    pub closed spec fn histogram_slot(&self, m: Metric) -> Option<crate::histogram::Histo> {
        self.latency_histograms.slot(m)
    }

    pub closed spec fn percentiles_spec(&self) -> Seq<Percentile> {
        self.percentiles@
    }

    /// Create a new collector with zeroed counters, gauges, and histograms and with default percentiles.
    pub fn new() -> (r: Collector)
        ensures
            r.wf(),
            forall|m: Metric| r.counter_slot(m) is None,
            forall|m: Metric| r.gauge_slot(m) is None,
            forall|m: Metric| r.histogram_slot(m) is None,
            default_percentiles_spec(r.percentiles_spec()),
    {
        let (tx, rx) = channel_unbounded();
        Collector {
            counters: Counters::new(),
            gauges: Gauges::new(),
            latency_histograms: Histograms::new(),
            tx,
            rx,
            percentiles: default_percentiles(),
        }
    }

    /// Register an interest in a given type.  Without registration, metrics of that type will be ignored.
    pub fn register(&mut self, ty: Interest)
        requires
            old(self).wf(),
        ensures
            final(self).wf(),
            final(self).percentiles_spec() == old(self).percentiles_spec(),
            match ty {
                Interest::Count(key) => {
                    &&& final(self).counter_slot(key) == Some(0u64)
                    &&& forall|m: Metric|
                        m != key ==> final(self).counter_slot(m) == old(self).counter_slot(m)
                    &&& forall|m: Metric| final(self).gauge_slot(m) == old(self).gauge_slot(m)
                    &&& forall|m: Metric|
                        final(self).histogram_slot(m) == old(self).histogram_slot(m)
                },
                Interest::Gauge(key) => {
                    &&& final(self).gauge_slot(key) == Some(0u64)
                    &&& forall|m: Metric|
                        m != key ==> final(self).gauge_slot(m) == old(self).gauge_slot(m)
                    &&& forall|m: Metric| final(self).counter_slot(m) == old(self).counter_slot(m)
                    &&& forall|m: Metric|
                        final(self).histogram_slot(m) == old(self).histogram_slot(m)
                },
                Interest::LatencyPercentile(key) => {
                    &&& final(self).histogram_slot(key) matches Some(h) && h.wf()
                        && h.is_empty_spec() && h.total_spec() == 0
                    &&& forall|m: Metric|
                        m != key ==> final(self).histogram_slot(m) == old(self).histogram_slot(m)
                    &&& forall|m: Metric| final(self).counter_slot(m) == old(self).counter_slot(m)
                    &&& forall|m: Metric| final(self).gauge_slot(m) == old(self).gauge_slot(m)
                },
            },
    {
        match ty {
            Interest::Count(key) => self.counters.init(key),
            Interest::LatencyPercentile(key) => self.latency_histograms.init(key),
            Interest::Gauge(key) => self.gauges.init(key),
        }
    }

    /// Get a handle to this collector that can be used to send samples
    pub fn handle(&self) -> CollectorHandle {
        CollectorHandle { sender: sender_clone(&self.tx) }
    }

    /// Drain one sample into the registries: `Elapsed` bumps the
    /// counter, sets the gauge to the elapsed microseconds and records
    /// them in the histogram; `Count` only adds to the counter;
    /// `Value` bumps the counter and sets the gauge.  Keys not
    /// registered for a facet leave that facet unchanged.
    pub fn record_sample(&mut self, sample: Sample)
        requires
            old(self).wf(),
        ensures
            final(self).wf(),
            final(self).percentiles_spec() == old(self).percentiles_spec(),
            final(self).counter_slot(sample.key) == counter_bump(
                old(self).counter_slot(sample.key),
                counter_delta(sample.value),
            ),
            final(self).gauge_slot(sample.key) == gauge_after(
                old(self).gauge_slot(sample.key),
                sample.value,
            ),
            match sample.value {
                SampleValue::Elapsed(d) => match old(self).histogram_slot(sample.key) {
                    Some(h) => final(self).histogram_slot(sample.key) matches Some(h2) && recorded(
                        h,
                        h2,
                        d.micros(),
                        1,
                    ),
                    None => final(self).histogram_slot(sample.key) is None,
                },
                _ => final(self).histogram_slot(sample.key) == old(self).histogram_slot(
                    sample.key,
                ),
            },
            forall|m: Metric|
                m != sample.key ==> {
                    &&& final(self).counter_slot(m) == old(self).counter_slot(m)
                    &&& final(self).gauge_slot(m) == old(self).gauge_slot(m)
                    &&& final(self).histogram_slot(m) == old(self).histogram_slot(m)
                },
            forall|m: Metric|
                {
                    &&& (final(self).counter_slot(m) is Some <==> old(self).counter_slot(m)
                        is Some)
                    &&& (final(self).gauge_slot(m) is Some <==> old(self).gauge_slot(m) is Some)
                    &&& (final(self).histogram_slot(m) is Some <==> old(self).histogram_slot(m)
                        is Some)
                },
    {
        let key = sample.key();
        match sample.value {
            SampleValue::Elapsed(d) => {
                self.counters.increment(&key);
                let micros = crate::util::dur_to_u64(d);
                self.gauges.set(&key, micros);
                self.latency_histograms.record(&key, micros);
            },
            SampleValue::Count(c) => {
                self.counters.increment_by(&key, c);
            },
            SampleValue::Value(v) => {
                self.counters.increment(&key);
                self.gauges.set(&key, v);
            },
        }
    }

    /// Drain every sample that was queued when the call began.  Needs
    /// to be repeatedly called: samples sent while draining are left
    /// for the next call.
    pub fn process_outstanding(&mut self)
        requires
            old(self).wf(),
        ensures
            final(self).wf(),
            final(self).percentiles_spec() == old(self).percentiles_spec(),
            forall|m: Metric|
                {
                    &&& (final(self).counter_slot(m) is Some <==> old(self).counter_slot(m)
                        is Some)
                    &&& (final(self).gauge_slot(m) is Some <==> old(self).gauge_slot(m) is Some)
                    &&& (final(self).histogram_slot(m) is Some <==> old(self).histogram_slot(m)
                        is Some)
                },
    {
        let n = channel_len(&self.rx);
        let mut i: usize = 0;
        while i < n
            invariant
                self.wf(),
                self.percentiles_spec() == old(self).percentiles_spec(),
                forall|m: Metric|
                    {
                        &&& (self.counter_slot(m) is Some <==> old(self).counter_slot(m) is Some)
                        &&& (self.gauge_slot(m) is Some <==> old(self).gauge_slot(m) is Some)
                        &&& (self.histogram_slot(m) is Some <==> old(self).histogram_slot(m)
                            is Some)
                    },
            decreases n - i,
        {
            match channel_try_recv(&self.rx) {
                Some(sample) => self.record_sample(sample),
                None => (),
            }
            i = i + 1;
        }
    }

    /// Block for the next sample and drain it.  Returns `false` once
    /// the channel is closed and empty; a loop over this call is the
    /// blocking drain of the collector.
    pub fn recv_one(&mut self) -> (r: bool)
        requires
            old(self).wf(),
        ensures
            final(self).wf(),
            final(self).percentiles_spec() == old(self).percentiles_spec(),
            forall|m: Metric|
                {
                    &&& (final(self).counter_slot(m) is Some <==> old(self).counter_slot(m)
                        is Some)
                    &&& (final(self).gauge_slot(m) is Some <==> old(self).gauge_slot(m) is Some)
                    &&& (final(self).histogram_slot(m) is Some <==> old(self).histogram_slot(m)
                        is Some)
                },
    {
        match channel_recv(&self.rx) {
            Some(sample) => {
                self.record_sample(sample);
                true
            },
            None => false,
        }
    }

    /// Retrieve a current snapshot of all values in this collector.
    pub fn snapshot(&self, key: &Metric) -> (r: Snapshot)
        requires
            self.wf(),
        ensures
            r.key == *key,
            r.count == self.counter_slot(*key),
            r.gauge == self.gauge_slot(*key),
            match self.histogram_slot(*key) {
                Some(h) => r.latency_snapshot matches Some(hs) && snapshot_of_histo(
                    hs,
                    h,
                    self.percentiles_spec(),
                ),
                None => r.latency_snapshot is None,
            },
    {
        Snapshot::new(
            *key,
            self.counters.get(key),
            self.gauges.get(key),
            self.latency_histograms.get(key),
            clone_percentiles(&self.percentiles),
        )
    }
}

fn clone_percentiles(v: &Vec<Percentile>) -> (r: Vec<Percentile>)
    ensures
        r@.len() == v@.len(),
        forall|i: int|
            0 <= i < v@.len() ==> (#[trigger] r@[i]).label@ == v@[i].label@ && r@[i].tenths
                == v@[i].tenths,
{
    let mut r: Vec<Percentile> = Vec::new();
    let mut i: usize = 0;
    while i < v.len()
        invariant
            i <= v@.len(),
            r@.len() == i,
            forall|j: int|
                0 <= j < i ==> (#[trigger] r@[j]).label@ == v@[j].label@ && r@[j].tenths
                    == v@[j].tenths,
        decreases v@.len() - i,
    {
        r.push(v[i].clone());
        i = i + 1;
    }
    r
}

/// Cheap-to-clone producer endpoint used by instrumented components;
/// sending never blocks and never touches collector state.
#[derive(Debug)]
pub struct CollectorHandle {
    sender: crossbeam::channel::Sender<Sample>,
}

impl Clone for CollectorHandle {
    fn clone(&self) -> Self {
        CollectorHandle { sender: sender_clone(&self.sender) }
    }
}

impl CollectorHandle {
    pub fn stopwatch(&self) -> Stopwatch {
        Stopwatch::new()
    }

    /// Queue a sample for the collector.  A send after the collector
    /// is gone is silently dropped.
    pub fn send(&self, sample: Sample) {
        channel_send(&self.sender, sample);
    }

    pub fn send_elapsed(&self, key: Metric, d: Dur) {
        self.send(Sample::elapsed(key, d))
    }

    pub fn send_count(&self, key: Metric, c: u64) {
        self.send(Sample::count(key, c))
    }

    pub fn send_value(&self, key: Metric, v: u64) {
        self.send(Sample::value(key, v))
    }
}

/// A counter value after a whole sequence of samples for key `k` is
/// drained, mirroring what `record_sample` does to that counter one
/// sample at a time.
pub open spec fn counter_after_all(c: Option<u64>, samples: Seq<Sample>, k: Metric) -> Option<u64>
    decreases samples.len(),
{
    if samples.len() == 0 {
        c
    } else {
        let step = if samples[0].key == k {
            counter_bump(c, counter_delta(samples[0].value))
        } else {
            c
        };
        counter_after_all(step, samples.drop_first(), k)
    }
}

/// A gauge value after a whole sequence of samples for key `k` is
/// drained, mirroring what `record_sample` does to that gauge one
/// sample at a time.
pub open spec fn gauge_after_all(g: Option<u64>, samples: Seq<Sample>, k: Metric) -> Option<u64>
    decreases samples.len(),
{
    if samples.len() == 0 {
        g
    } else {
        let step = if samples[0].key == k {
            gauge_after(g, samples[0].value)
        } else {
            g
        };
        gauge_after_all(step, samples.drop_first(), k)
    }
}

/// For a key registered for counting, draining a sequence of `Elapsed`
/// and `Value` samples for that key adds exactly one per sample: after
/// `N` such samples the counter reads its old value plus `N`.
pub proof fn lemma_counter_counts_samples(c: Option<u64>, samples: Seq<Sample>, k: Metric)
    requires
        c matches Some(x),
        c->Some_0 + samples.len() <= u64::MAX,
        forall|i: int|
            0 <= i < samples.len() ==> (#[trigger] samples[i]).key == k && !(samples[i].value
                is Count),
    ensures
        counter_after_all(c, samples, k) == Some((c->Some_0 + samples.len()) as u64),
    decreases samples.len(),
{
    if samples.len() > 0 {
        let step = counter_bump(c, counter_delta(samples[0].value));
        assert(counter_delta(samples[0].value) == 1);
        assert(step == Some((c->Some_0 + 1) as u64));
        assert forall|i: int| 0 <= i < samples.drop_first().len() implies (#[trigger] samples.drop_first()[i]).key
            == k && !(samples.drop_first()[i].value is Count) by {
            assert(samples.drop_first()[i] == samples[i + 1]);
        }
        lemma_counter_counts_samples(step, samples.drop_first(), k);
    }
}

/// For a key registered as a gauge, after draining a sequence of
/// samples whose last entry is `Elapsed(d)` for that key, the gauge
/// reads the elapsed microseconds of `d`: the gauge is last-write-
/// wins, and samples for other keys do not touch it.
pub proof fn lemma_gauge_reads_last_elapsed(g: Option<u64>, samples: Seq<Sample>, k: Metric)
    requires
        g matches Some(x),
        samples.len() > 0,
        samples.last().key == k,
        samples.last().value matches SampleValue::Elapsed(d),
    ensures
        gauge_after_all(g, samples, k) matches Some(v) && samples.last().value matches
            SampleValue::Elapsed(d) && v == d.micros(),
    decreases samples.len(),
{
    let step = if samples[0].key == k {
        gauge_after(g, samples[0].value)
    } else {
        g
    };
    assert(step is Some);
    if samples.len() == 1 {
        assert(gauge_after_all(g, samples, k) == gauge_after_all(
            step,
            samples.drop_first(),
            k,
        ));
        assert(samples.drop_first().len() == 0);
        assert(samples[0] == samples.last());
    } else {
        assert(samples.drop_first().last() == samples.last());
        lemma_gauge_reads_last_elapsed(step, samples.drop_first(), k);
    }
}

} // verus!
