use tracer::collector::{Collector, Interest};
use tracer::host::{classify_host, HostClass};
use tracer::lifecycle::{plan_request, Dst, InputError, RequestTracker, Scheme, Stage};
use tracer::metric::Metric;
use tracer::util::u64_to_dur;

fn dst(scheme: Scheme, host: &str, port: Option<u16>) -> Dst {
    Dst { scheme, host: host.to_string(), port }
}

#[test]
fn classify_ipv4_literals() {
    assert_eq!(classify_host("127.0.0.1"), HostClass::Ipv4Literal);
    assert_eq!(classify_host("255.255.255.255"), HostClass::Ipv4Literal);
    assert_eq!(classify_host("0.0.0.0"), HostClass::Ipv4Literal);
    // out of range, leading zeros, or the wrong shape are names
    assert_eq!(classify_host("256.0.0.1"), HostClass::Named);
    assert_eq!(classify_host("01.2.3.4"), HostClass::Named);
    assert_eq!(classify_host("1.2.3"), HostClass::Named);
    assert_eq!(classify_host("1.2.3.4.5"), HostClass::Named);
    assert_eq!(classify_host("1.2.3."), HostClass::Named);
    assert_eq!(classify_host("example.com"), HostClass::Named);
}

#[test]
fn classify_ipv6_literals() {
    assert_eq!(classify_host("::"), HostClass::Ipv6Literal);
    assert_eq!(classify_host("::1"), HostClass::Ipv6Literal);
    assert_eq!(classify_host("1::"), HostClass::Ipv6Literal);
    assert_eq!(classify_host("2001:db8::8a2e:370:7334"), HostClass::Ipv6Literal);
    assert_eq!(
        classify_host("2001:0db8:85a3:0000:0000:8a2e:0370:7334"),
        HostClass::Ipv6Literal
    );
    assert_eq!(classify_host("::ffff:192.168.0.1"), HostClass::Ipv6Literal);
    assert_eq!(classify_host("1:2:3:4:5:6:7:8"), HostClass::Ipv6Literal);
    assert_eq!(classify_host("1:2:3:4:5:6:7::"), HostClass::Ipv6Literal);
    assert_eq!(classify_host("1:2:3:4:5:6:1.2.3.4"), HostClass::Ipv6Literal);
    // not literals
    assert_eq!(classify_host(":"), HostClass::Named);
    assert_eq!(classify_host(":::"), HostClass::Named);
    assert_eq!(classify_host("1::2::3"), HostClass::Named);
    assert_eq!(classify_host("1:2:3:4:5:6:7:8:9"), HostClass::Named);
    assert_eq!(classify_host("1:2:3:4:5:6:7"), HostClass::Named);
    assert_eq!(classify_host("12345::"), HostClass::Named);
    assert_eq!(classify_host("g::1"), HostClass::Named);
    // a bracketed IPv6 host text is not itself a literal
    assert_eq!(classify_host("[::1]"), HostClass::Named);
}

#[test]
fn empty_host_is_rejected_synchronously() {
    // an empty host is an input error before any sample is emitted
    assert_eq!(classify_host(""), HostClass::Empty);
    let r = plan_request(&dst(Scheme::Https, "", None));
    assert_eq!(r, Err(InputError::EmptyHost));
}

#[test]
fn ports_default_by_scheme() {
    let p = plan_request(&dst(Scheme::Https, "example.com", None)).unwrap();
    assert_eq!(p.port, 443);
    let p = plan_request(&dst(Scheme::Http, "example.com", None)).unwrap();
    assert_eq!(p.port, 80);
    let p = plan_request(&dst(Scheme::Https, "example.com", Some(8443))).unwrap();
    assert_eq!(p.port, 8443);
}

#[test]
fn literal_hosts_skip_dns() {
    // a literal IPv4/IPv6 host must not resolve
    let p = plan_request(&dst(Scheme::Http, "127.0.0.1", Some(8080))).unwrap();
    assert!(!p.needs_dns);
    let p = plan_request(&dst(Scheme::Https, "::1", None)).unwrap();
    assert!(!p.needs_dns);
    let p = plan_request(&dst(Scheme::Https, "example.com", None)).unwrap();
    assert!(p.needs_dns);
}

#[test]
fn http_skips_tls() {
    let p = plan_request(&dst(Scheme::Http, "example.com", None)).unwrap();
    assert!(!p.needs_tls);
    let p = plan_request(&dst(Scheme::Https, "example.com", None)).unwrap();
    assert!(p.needs_tls);
}

/// Run a request to completion, handing each stage the given outcome,
/// and drain every emitted sample into the collector.
fn run_request(collector: &mut Collector, plan: tracer::lifecycle::RequestPlan, outcomes: &[bool]) {
    let handle = collector.handle();
    let mut tracker = RequestTracker::start(plan);
    for &ok in outcomes {
        if let Some(sample) = tracker.on_stage_complete(ok, u64_to_dur(1000)) {
            handle.send(sample);
        }
    }
    collector.process_outstanding();
}

fn fresh_collector() -> Collector {
    let mut collector = Collector::new();
    tracer::client::configure_collector_defaults(&mut collector);
    collector
}

fn count(collector: &Collector, m: Metric) -> u64 {
    collector.snapshot(&m).count().unwrap()
}

#[test]
fn https_request_emits_all_five() {
    // GET https://example.com/ -> 200, body "hello": the events are
    // Dns, Connection, Tls, Headers, FullResponse and BodyLen is 5
    let mut collector = fresh_collector();
    let plan = plan_request(&dst(Scheme::Https, "example.com", None)).unwrap();
    run_request(&mut collector, plan, &[true, true, true, true, true]);
    let handle = collector.handle();
    handle.send_value(Metric::BodyLen, 5);
    collector.process_outstanding();
    for m in [
        Metric::Dns,
        Metric::Connection,
        Metric::Tls,
        Metric::Headers,
        Metric::FullResponse,
    ] {
        assert_eq!(count(&collector, m), 1, "{:?}", m);
    }
    assert_eq!(collector.snapshot(&Metric::BodyLen).gauge(), Some(5));
}

#[test]
fn http_to_literal_skips_dns_and_tls() {
    // GET http://127.0.0.1:8080/ -> 204: only Connection, Headers,
    // FullResponse; no Dns, no Tls; BodyLen is 0
    let mut collector = fresh_collector();
    let plan = plan_request(&dst(Scheme::Http, "127.0.0.1", Some(8080))).unwrap();
    assert!(!plan.needs_dns && !plan.needs_tls);
    run_request(&mut collector, plan, &[true, true, true]);
    let handle = collector.handle();
    handle.send_value(Metric::BodyLen, 0);
    collector.process_outstanding();
    assert_eq!(count(&collector, Metric::Dns), 0);
    assert_eq!(count(&collector, Metric::Tls), 0);
    assert_eq!(count(&collector, Metric::Connection), 1);
    assert_eq!(count(&collector, Metric::Headers), 1);
    assert_eq!(count(&collector, Metric::FullResponse), 1);
    assert_eq!(collector.snapshot(&Metric::BodyLen).gauge(), Some(0));
}

#[test]
fn failed_resolution_emits_only_dns() {
    // a resolver failure still emits the Dns sample (the time was
    // spent) but nothing further
    let mut collector = fresh_collector();
    let plan = plan_request(&dst(Scheme::Https, "does-not-exist.invalid", None)).unwrap();
    let mut tracker = RequestTracker::start(plan);
    let handle = collector.handle();
    if let Some(sample) = tracker.on_stage_complete(false, u64_to_dur(700)) {
        handle.send(sample);
    }
    assert_eq!(tracker.stage, Stage::Failed);
    // a failed request emits nothing further
    assert!(tracker.on_stage_complete(true, u64_to_dur(1)).is_none());
    collector.process_outstanding();
    assert_eq!(count(&collector, Metric::Dns), 1);
    for m in [Metric::Connection, Metric::Tls, Metric::Headers, Metric::FullResponse] {
        assert_eq!(count(&collector, m), 0, "{:?}", m);
    }
}

#[test]
fn failed_connect_emits_no_connection_sample() {
    let mut collector = fresh_collector();
    let plan = plan_request(&dst(Scheme::Http, "10.0.0.1", None)).unwrap();
    run_request(&mut collector, plan, &[false]);
    assert_eq!(count(&collector, Metric::Connection), 0);
}

#[test]
fn hundred_requests_count_hundred() {
    // after a hundred completed requests both Headers and
    // FullResponse have counted a hundred
    let mut collector = fresh_collector();
    for _ in 0..100 {
        let plan = plan_request(&dst(Scheme::Https, "h", None)).unwrap();
        run_request(&mut collector, plan, &[true, true, true, true, true]);
    }
    assert_eq!(count(&collector, Metric::Headers), 100);
    assert_eq!(count(&collector, Metric::FullResponse), 100);
}

#[test]
fn cancel_after_connect_stops_emission() {
    // cancelling after the TCP connect leaves Connection at 1 and
    // Headers and FullResponse at 0
    let mut collector = fresh_collector();
    let plan = plan_request(&dst(Scheme::Https, "example.com", None)).unwrap();
    let handle = collector.handle();
    let mut tracker = RequestTracker::start(plan);
    if let Some(s) = tracker.on_stage_complete(true, u64_to_dur(100)) {
        handle.send(s);
    }
    if let Some(s) = tracker.on_stage_complete(true, u64_to_dur(200)) {
        handle.send(s);
    }
    tracker.cancel();
    assert!(tracker.on_stage_complete(true, u64_to_dur(1)).is_none());
    collector.process_outstanding();
    assert_eq!(count(&collector, Metric::Connection), 1);
    assert_eq!(count(&collector, Metric::Headers), 0);
    assert_eq!(count(&collector, Metric::FullResponse), 0);
}

#[test]
fn stage_order_is_fixed() {
    let plan = plan_request(&dst(Scheme::Https, "example.com", None)).unwrap();
    let mut tracker = RequestTracker::start(plan);
    let mut keys = Vec::new();
    while !matches!(tracker.stage, Stage::Complete | Stage::Failed) {
        if let Some(s) = tracker.on_stage_complete(true, u64_to_dur(5)) {
            keys.push(s.key());
        }
    }
    assert_eq!(
        keys,
        vec![
            Metric::Dns,
            Metric::Connection,
            Metric::Tls,
            Metric::Headers,
            Metric::FullResponse
        ]
    );
}
