use tracer::collector::{Collector, Interest};
use tracer::counter::Counters;
use tracer::gauge::Gauges;
use tracer::histogram::{Histo, Histograms, HIGHEST_TRACKABLE};
use tracer::metric::Metric;
use tracer::sample::Sample;
use tracer::snapshots::Snapshot;
use tracer::util::{u64_to_dur, Dur};

#[test]
fn counters_register_and_increment() {
    let mut c = Counters::new();
    assert!(!c.interested(&Metric::Dns));
    c.init(Metric::Dns);
    assert!(c.interested(&Metric::Dns));
    assert_eq!(c.get(&Metric::Dns), Some(0));
    c.increment(&Metric::Dns);
    c.increment_by(&Metric::Dns, 4);
    assert_eq!(c.get(&Metric::Dns), Some(5));
    // updates to unregistered keys are dropped
    c.increment(&Metric::Tls);
    assert_eq!(c.get(&Metric::Tls), None);
    c.clear(&Metric::Dns);
    assert_eq!(c.get(&Metric::Dns), Some(0));
    c.remove(&Metric::Dns);
    assert_eq!(c.get(&Metric::Dns), None);
}

#[test]
fn counters_saturate() {
    let mut c = Counters::new();
    c.init(Metric::BodyLen);
    c.increment_by(&Metric::BodyLen, u64::MAX);
    c.increment_by(&Metric::BodyLen, 10);
    assert_eq!(c.get(&Metric::BodyLen), Some(u64::MAX));
}

#[test]
fn gauges_last_write_wins() {
    let mut g = Gauges::new();
    g.init(Metric::HeaderLen);
    g.set(&Metric::HeaderLen, 10);
    g.set(&Metric::HeaderLen, 7);
    assert_eq!(g.get(&Metric::HeaderLen), Some(7));
    g.set(&Metric::BodyLen, 3);
    assert_eq!(g.get(&Metric::BodyLen), None);
    g.clear(&Metric::HeaderLen);
    assert_eq!(g.get(&Metric::HeaderLen), Some(0));
    g.remove(&Metric::HeaderLen);
    assert!(!g.interested(&Metric::HeaderLen));
}

#[test]
fn histogram_records_exactly() {
    let mut h = Histo::new();
    h.record(1000);
    h.record(2000);
    h.record(3000);
    assert_eq!(h.len(), 3);
    assert_eq!(h.min(), 1000);
    assert_eq!(h.max(), 3000);
    assert_eq!(h.mean(), 2000);
    // the median of {1000, 2000, 3000}
    assert_eq!(h.value_at_tenths(500), 2000);
    h.clear();
    assert_eq!(h.len(), 0);
    assert_eq!(h.min(), 0);
    assert_eq!(h.max(), 0);
}

#[test]
fn histogram_clamps_low_and_high() {
    let mut h = Histo::new();
    // values outside [1, 60 000 000] do not crash; they are clamped
    h.record(0);
    h.record(70_000_000);
    assert_eq!(h.min(), 1);
    assert_eq!(h.max(), HIGHEST_TRACKABLE);
    assert_eq!(h.len(), 2);
}

#[test]
fn saturating_record_reports_max() {
    // recording more than the top of the range still reports the top
    let mut hs = Histograms::new();
    hs.init(Metric::Headers);
    hs.record(&Metric::Headers, 61_000_000);
    let h = hs.get(&Metric::Headers).unwrap();
    assert_eq!(h.max(), 60_000_000);
    assert_eq!(h.min(), 60_000_000);
    assert_eq!(h.len(), 1);
}

#[test]
fn histogram_record_multiple() {
    let mut hs = Histograms::new();
    hs.init(Metric::Dns);
    hs.record_multiple(&Metric::Dns, 500, 4);
    hs.record(&Metric::Dns, 1500);
    let h = hs.get(&Metric::Dns).unwrap();
    assert_eq!(h.len(), 5);
    assert_eq!(h.min(), 500);
    assert_eq!(h.max(), 1500);
    // 4 of 5 recordings are 500, so the 50th percentile is 500
    assert_eq!(hs.quantile(&Metric::Dns, 500), Some(500));
    assert_eq!(hs.quantile(&Metric::Dns, 999), Some(1500));
    // unregistered keys stay silent
    assert_eq!(hs.quantile(&Metric::Tls, 500), None);
}

#[test]
fn percentiles_bounded_and_monotone() {
    let mut h = Histo::new();
    for v in [40, 10, 20, 30, 50, 60, 70, 80, 90, 100] {
        h.record(v);
    }
    let mut prev = 0;
    for t in [0, 100, 250, 500, 750, 900, 990, 999, 1000] {
        let v = h.value_at_tenths(t);
        assert!(h.min() <= v && v <= h.max());
        assert!(prev <= v);
        prev = v;
    }
}

#[test]
fn counter_counts_every_sample() {
    // a key registered for counting counts one per Elapsed/Value sample
    let mut collector = Collector::new();
    collector.register(Interest::Count(Metric::Headers));
    let handle = collector.handle();
    let n = 25;
    for i in 0..n {
        if i % 2 == 0 {
            handle.send(Sample::elapsed(Metric::Headers, u64_to_dur(1000)));
        } else {
            handle.send(Sample::value(Metric::Headers, i));
        }
    }
    collector.process_outstanding();
    assert_eq!(collector.snapshot(&Metric::Headers).count(), Some(n));
}

#[test]
fn gauge_reads_last_elapsed() {
    let mut collector = Collector::new();
    collector.register(Interest::Gauge(Metric::Connection));
    let handle = collector.handle();
    handle.send_elapsed(Metric::Connection, u64_to_dur(1500));
    handle.send_elapsed(Metric::Connection, u64_to_dur(2500));
    collector.process_outstanding();
    let s = collector.snapshot(&Metric::Connection);
    assert_eq!(s.gauge(), Some(2500));
    assert_eq!(s.gauge_as_duration(), Some(u64_to_dur(2500)));
}

#[test]
fn three_elapsed_samples() {
    // count, gauge, and histogram after three drains of 1ms, 2ms, 3ms
    let mut collector = Collector::new();
    collector.register(Interest::Count(Metric::FullResponse));
    collector.register(Interest::Gauge(Metric::FullResponse));
    collector.register(Interest::LatencyPercentile(Metric::FullResponse));
    let handle = collector.handle();
    handle.send_elapsed(Metric::FullResponse, u64_to_dur(1000));
    handle.send_elapsed(Metric::FullResponse, u64_to_dur(2000));
    handle.send_elapsed(Metric::FullResponse, u64_to_dur(3000));
    collector.process_outstanding();
    let s = collector.snapshot(&Metric::FullResponse);
    assert_eq!(s.count(), Some(3));
    assert_eq!(s.gauge(), Some(3000));
    let histo = s.latency_histogram().unwrap();
    assert_eq!(histo.min(), u64_to_dur(1000));
    assert_eq!(histo.max(), u64_to_dur(3000));
    assert_eq!(histo.mean(), u64_to_dur(2000));
}

#[test]
fn count_samples_add_their_value() {
    let mut collector = Collector::new();
    collector.register(Interest::Count(Metric::BodyLen));
    collector.register(Interest::Gauge(Metric::BodyLen));
    let handle = collector.handle();
    handle.send_count(Metric::BodyLen, 41);
    handle.send_count(Metric::BodyLen, 1);
    collector.process_outstanding();
    let s = collector.snapshot(&Metric::BodyLen);
    assert_eq!(s.count(), Some(42));
    // Count samples leave the gauge alone
    assert_eq!(s.gauge(), Some(0));
}

#[test]
fn value_samples_bump_and_set() {
    let mut collector = Collector::new();
    collector.register(Interest::Count(Metric::HeaderLen));
    collector.register(Interest::Gauge(Metric::HeaderLen));
    let handle = collector.handle();
    handle.send_value(Metric::HeaderLen, 123);
    collector.process_outstanding();
    let s = collector.snapshot(&Metric::HeaderLen);
    assert_eq!(s.count(), Some(1));
    assert_eq!(s.gauge(), Some(123));
}

#[test]
fn unregistered_keys_are_dropped() {
    let mut collector = Collector::new();
    collector.register(Interest::Count(Metric::Dns));
    let handle = collector.handle();
    handle.send_elapsed(Metric::Tls, u64_to_dur(500));
    collector.process_outstanding();
    let s = collector.snapshot(&Metric::Tls);
    assert_eq!(s.count(), None);
    assert_eq!(s.gauge(), None);
    assert!(s.latency_histogram().is_none());
}

#[test]
fn register_record_remove_leaves_nothing() {
    // registering, recording, then removing a key yields a snapshot
    // with every facet absent
    let mut c = Counters::new();
    let mut g = Gauges::new();
    let mut hs = Histograms::new();
    let k = Metric::Tls;
    c.init(k);
    g.init(k);
    hs.init(k);
    c.increment(&k);
    g.set(&k, 5);
    hs.record(&k, 5);
    c.remove(&k);
    g.remove(&k);
    hs.remove(&k);
    let snapshot = Snapshot::new(k, c.get(&k), g.get(&k), hs.get(&k), Vec::new());
    assert_eq!(snapshot.count(), None);
    assert_eq!(snapshot.gauge(), None);
    assert!(snapshot.latency_histogram().is_none());
    assert_eq!(snapshot.key(), k);
}

#[test]
fn reregistration_resets_to_zero() {
    let mut collector = Collector::new();
    collector.register(Interest::Count(Metric::Dns));
    let handle = collector.handle();
    handle.send_count(Metric::Dns, 9);
    collector.process_outstanding();
    assert_eq!(collector.snapshot(&Metric::Dns).count(), Some(9));
    collector.register(Interest::Count(Metric::Dns));
    assert_eq!(collector.snapshot(&Metric::Dns).count(), Some(0));
}

#[test]
fn stdev_of_equal_values_is_zero() {
    let mut h = Histo::new();
    h.record(700);
    h.record(700);
    assert_eq!(h.stdev(), 0);
    assert_eq!(h.mean(), 700);
}

#[test]
fn stdev_exact_value() {
    let mut h = Histo::new();
    // mean 30, deviations -20 and +20, variance 400, stdev 20
    h.record(10);
    h.record(50);
    assert_eq!(h.mean(), 30);
    assert_eq!(h.stdev(), 20);
}

#[test]
fn empty_dur_is_zero() {
    let d = Dur { secs: 0, nanos: 0 };
    assert!(d.is_zero());
    assert!(!u64_to_dur(1).is_zero());
}
