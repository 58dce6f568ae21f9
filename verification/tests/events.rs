use tracer::events::{Event, EventCollector, EventSet};
use tracer::timing::Timing;
use tracer::util::{u64_to_dur, Dur};

fn at(micros: u64) -> Dur {
    u64_to_dur(micros)
}

#[test]
fn collector_gathers_in_order() {
    let mut collector = EventCollector::new();
    collector.add(Event::Initiated);
    collector.add(Event::ConnectionStarted);
    collector.add(Event::Connected);
    let set = collector.drain_events();
    let events: Vec<Event> = set.iter().iter().map(|(e, _)| *e).collect();
    assert_eq!(
        events,
        vec![Event::Initiated, Event::ConnectionStarted, Event::Connected]
    );
    // draining empties the collector
    let empty = collector.drain_events();
    assert_eq!(empty.iter().len(), 0);
}

fn sample_set() -> EventSet {
    EventSet {
        events: vec![
            (Event::Initiated, at(100)),
            (Event::DnsResolutionStarted, at(150)),
            (Event::DnsResolutionFinished, at(450)),
            (Event::ConnectionStarted, at(450)),
            (Event::Connected, at(700)),
            (Event::HeadersReceived, at(1_200)),
            (Event::FullResponse, at(1_500)),
        ],
    }
}

#[test]
fn find_event_takes_first() {
    let set = sample_set();
    assert_eq!(set.find_event(Event::Connected), Some(at(700)));
    assert_eq!(set.find_event(Event::TlsNegotiated), None);
    assert_eq!(set.initiated_at(), Some(at(100)));
}

#[test]
fn time_between_events() {
    let set = sample_set();
    assert_eq!(
        set.time_between(Event::DnsResolutionStarted, Event::DnsResolutionFinished),
        Some(at(300))
    );
    assert_eq!(
        set.time_between(Event::Initiated, Event::FullResponse),
        Some(at(1_400))
    );
    // spans saturate instead of going negative
    assert_eq!(
        set.time_between(Event::Connected, Event::Initiated),
        Some(at(0))
    );
    assert_eq!(set.time_between(Event::Initiated, Event::TlsNegotiated), None);
}

#[test]
fn since_shifts_timestamps() {
    let set = sample_set();
    let shifted = set.since(at(100));
    assert_eq!(shifted.len(), 7);
    assert_eq!(shifted[0], (Event::Initiated, at(0)));
    assert_eq!(shifted[4], (Event::Connected, at(600)));
}

#[test]
fn since_initiated_skips_earlier_events() {
    let set = EventSet {
        events: vec![
            (Event::ConnectionError, at(10)),
            (Event::Initiated, at(100)),
            (Event::Connected, at(250)),
        ],
    };
    let relative = set.since_initiated();
    assert_eq!(
        relative,
        vec![(Event::Initiated, at(0)), (Event::Connected, at(150))]
    );
    let none = EventSet { events: vec![(Event::Connected, at(5))] };
    assert_eq!(none.since_initiated(), vec![]);
}

#[test]
fn timing_from_events() {
    let t = Timing::from_events(sample_set()).unwrap();
    assert_eq!(t.initiated, at(100));
    assert_eq!(t.dns_resolution, Some(at(300)));
    assert_eq!(t.connection, Some(at(250)));
    assert_eq!(t.tls_negotiation, None);
    assert_eq!(t.headers, Some(at(1_100)));
    assert_eq!(t.full_response, Some(at(1_400)));
}

#[test]
fn timing_needs_initiated() {
    let set = EventSet { events: vec![(Event::Connected, at(5))] };
    let err = Timing::from_events(set);
    assert!(err.is_err());
}
