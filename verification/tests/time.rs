use tracer::metric::Metric;
use tracer::sample::SampleValue;
use tracer::stopwatch::Stopwatch;
use tracer::util::{dur_to_u64, u64_to_dur, Dur};

#[test]
fn micros_round_trip() {
    // a duration representable in whole microseconds survives the
    // round trip through its microsecond value
    let cases = [
        Dur { secs: 0, nanos: 0 },
        Dur { secs: 0, nanos: 1_000 },
        Dur { secs: 1, nanos: 500_000_000 },
        Dur { secs: 3, nanos: 999_999_000 },
        Dur { secs: 120, nanos: 250_000 },
    ];
    for d in cases {
        assert_eq!(u64_to_dur(dur_to_u64(d)), d);
    }
}

#[test]
fn micros_truncate_sub_microsecond() {
    // nanosecond remainders below a microsecond are dropped
    let d = Dur { secs: 0, nanos: 1_999 };
    assert_eq!(dur_to_u64(d), 1);
    assert_eq!(u64_to_dur(dur_to_u64(d)), Dur { secs: 0, nanos: 1_000 });
}

#[test]
fn micros_saturate() {
    let d = Dur { secs: u64::MAX, nanos: 999_999_999 };
    assert_eq!(dur_to_u64(d), u64::MAX);
}

#[test]
fn dur_conversion_values() {
    assert_eq!(dur_to_u64(Dur { secs: 2, nanos: 345_678_000 }), 2_345_678);
    let d = u64_to_dur(2_345_678);
    assert_eq!(d.secs, 2);
    assert_eq!(d.nanos, 345_678_000);
    assert_eq!(Dur::from_micros(1_000_000), Dur { secs: 1, nanos: 0 });
}

#[test]
fn saturating_sub_durations() {
    let a = Dur { secs: 2, nanos: 100 };
    let b = Dur { secs: 1, nanos: 200 };
    let d = a.saturating_sub(b);
    assert_eq!(d, Dur { secs: 0, nanos: 999_999_900 });
    // the other way round saturates at zero
    assert_eq!(b.saturating_sub(a), Dur { secs: 0, nanos: 0 });
}

#[test]
fn stopwatch_elapsed_sample() {
    // an elapsed sample carries the stopwatch's key and a duration
    let stopwatch = Stopwatch::new();
    let sample = stopwatch.elapsed(Metric::Headers);
    assert_eq!(sample.key(), Metric::Headers);
    match sample.value {
        SampleValue::Elapsed(d) => {
            // durations are non-negative by construction; the
            // sub-second part stays below one second
            assert!(d.nanos < 1_000_000_000);
        }
        other => panic!("expected an Elapsed sample, got {:?}", other),
    }
}

#[test]
fn stopwatch_never_resets() {
    let stopwatch = Stopwatch::new();
    let first = match stopwatch.elapsed(Metric::Dns).value {
        SampleValue::Elapsed(d) => d,
        _ => unreachable!(),
    };
    let second = match stopwatch.elapsed(Metric::Dns).value {
        SampleValue::Elapsed(d) => d,
        _ => unreachable!(),
    };
    // the same stopwatch read twice never goes backwards
    assert!(
        second.secs > first.secs
            || (second.secs == first.secs && second.nanos >= first.nanos)
    );
}
