use tracer::client::configure_collector_defaults;
use tracer::collector::{default_percentiles, Collector, Interest};
use tracer::metric::Metric;
use tracer::snapshots::Percentile;
use tracer::util::u64_to_dur;

#[test]
fn default_percentile_set() {
    let ps = default_percentiles();
    let labels: Vec<&str> = ps.iter().map(|p| p.label()).collect();
    assert_eq!(labels, vec!["p50", "p75", "p90", "p95", "p99", "p99.9"]);
    let tenths: Vec<u32> = ps.iter().map(|p| p.tenths).collect();
    assert_eq!(tenths, vec![500, 750, 900, 950, 990, 999]);
}

#[test]
fn percentile_new_keeps_label() {
    let p = Percentile::new("p33", 330);
    assert_eq!(p.label(), "p33");
    assert_eq!(p.tenths, 330);
    let q = p.clone();
    assert_eq!(q.label(), "p33");
}

#[test]
fn metric_labels() {
    assert_eq!(Metric::Dns.label(), "Dns");
    assert_eq!(Metric::FullResponse.label(), "FullResponse");
    assert_eq!(Metric::all_metrics().len(), 7);
    assert_eq!(Metric::latency_metrics().len(), 5);
    assert_eq!(Metric::size_metrics().len(), 2);
}

#[test]
fn snapshot_percentiles_are_monotone() {
    // over the configured percentiles, sorted ascending, the values
    // never decrease, and all sit between min and max
    let mut collector = Collector::new();
    collector.register(Interest::LatencyPercentile(Metric::Headers));
    let handle = collector.handle();
    for micros in [900, 100, 400, 250, 800, 30_000, 2, 600, 750, 120] {
        handle.send_elapsed(Metric::Headers, u64_to_dur(micros));
    }
    collector.process_outstanding();
    let snapshot = collector.snapshot(&Metric::Headers);
    let histo = snapshot.latency_histogram().unwrap();
    let values = histo.percentiles();
    assert_eq!(values.len(), 6);
    let mut prev = histo.min();
    for (_, v) in &values {
        assert!(prev.secs < v.secs || (prev.secs == v.secs && prev.nanos <= v.nanos));
        prev = *v;
    }
    assert!(prev.secs < histo.max().secs
        || (prev.secs == histo.max().secs && prev.nanos <= histo.max().nanos));
}

#[test]
fn snapshots_do_not_track_later_samples() {
    // a snapshot is a value: later drains do not change it
    let mut collector = Collector::new();
    collector.register(Interest::Count(Metric::Dns));
    let handle = collector.handle();
    handle.send_count(Metric::Dns, 1);
    collector.process_outstanding();
    let snapshot = collector.snapshot(&Metric::Dns);
    handle.send_count(Metric::Dns, 10);
    collector.process_outstanding();
    assert_eq!(snapshot.count(), Some(1));
    assert_eq!(collector.snapshot(&Metric::Dns).count(), Some(11));
}

#[test]
fn defaults_register_everything() {
    let mut collector = Collector::new();
    configure_collector_defaults(&mut collector);
    for m in Metric::all_metrics() {
        let s = collector.snapshot(&m);
        assert_eq!(s.count(), Some(0));
        assert_eq!(s.gauge(), Some(0));
    }
    for m in Metric::latency_metrics() {
        assert!(collector.snapshot(&m).latency_histogram().is_some());
    }
    for m in Metric::size_metrics() {
        assert!(collector.snapshot(&m).latency_histogram().is_none());
    }
}

#[test]
fn get_metrics_filters_idle_keys() {
    let mut collector = Collector::new();
    configure_collector_defaults(&mut collector);
    let handle = collector.handle();
    handle.send_elapsed(Metric::Dns, u64_to_dur(100));
    handle.send_value(Metric::BodyLen, 5);
    collector.process_outstanding();
    let all = Metric::get_all_metrics(&collector);
    let keys: Vec<Metric> = all.iter().map(|s| s.key()).collect();
    assert_eq!(keys, vec![Metric::Dns, Metric::BodyLen]);
    let latency = Metric::get_latency_metrics(&collector);
    assert_eq!(latency.len(), 1);
    assert_eq!(latency[0].key(), Metric::Dns);
    let sizes = Metric::get_size_metrics(&collector);
    assert_eq!(sizes.len(), 1);
    assert_eq!(sizes[0].key(), Metric::BodyLen);
}

#[test]
fn recv_one_drains_blockingly() {
    let mut collector = Collector::new();
    collector.register(Interest::Count(Metric::Tls));
    let handle = collector.handle();
    handle.send_count(Metric::Tls, 2);
    assert!(collector.recv_one());
    assert_eq!(collector.snapshot(&Metric::Tls).count(), Some(2));
}
