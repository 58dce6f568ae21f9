use vstd::prelude::*;

use crate::collector::{Collector, Interest};
use crate::metric::{all_metrics_seq, latency_metrics_seq, size_metrics_seq, Metric};
use crate::snapshots::{snapshot_of_histo, Snapshot};

verus! {

/// Register the interests an instrumented client reports against:
/// counters and gauges for every built-in metric, and latency
/// histograms for the five duration metrics.
pub fn configure_collector_defaults(collector: &mut Collector)
    requires
        old(collector).wf(),
    ensures
        final(collector).wf(),
        final(collector).percentiles_spec() == old(collector).percentiles_spec(),
        forall|m: Metric| final(collector).counter_slot(m) == Some(0u64),
        forall|m: Metric| final(collector).gauge_slot(m) == Some(0u64),
        forall|m: Metric|
            latency_metrics_seq().contains(m) ==> (final(collector).histogram_slot(m) matches Some(
                h,
            ) && h.wf() && h.is_empty_spec() && h.total_spec() == 0),
        forall|m: Metric|
            !latency_metrics_seq().contains(m) ==> final(collector).histogram_slot(m) == old(
                collector,
            ).histogram_slot(m),
{
    collector.register(Interest::Count(Metric::Connection));
    collector.register(Interest::Count(Metric::Dns));
    collector.register(Interest::Count(Metric::Tls));
    collector.register(Interest::Count(Metric::Headers));
    collector.register(Interest::Count(Metric::FullResponse));
    collector.register(Interest::Count(Metric::BodyLen));
    collector.register(Interest::Count(Metric::HeaderLen));

    collector.register(Interest::LatencyPercentile(Metric::Connection));
    collector.register(Interest::LatencyPercentile(Metric::Dns));
    collector.register(Interest::LatencyPercentile(Metric::Tls));
    collector.register(Interest::LatencyPercentile(Metric::Headers));
    collector.register(Interest::LatencyPercentile(Metric::FullResponse));

    collector.register(Interest::Gauge(Metric::Connection));
    collector.register(Interest::Gauge(Metric::Dns));
    collector.register(Interest::Gauge(Metric::Tls));
    collector.register(Interest::Gauge(Metric::Headers));
    collector.register(Interest::Gauge(Metric::FullResponse));
    collector.register(Interest::Gauge(Metric::BodyLen));
    collector.register(Interest::Gauge(Metric::HeaderLen));
    proof {
        assert forall|m: Metric| final(collector).counter_slot(m) == Some(0u64) by {
            match m {
                Metric::Dns => {},
                Metric::Connection => {},
                Metric::Tls => {},
                Metric::Headers => {},
                Metric::FullResponse => {},
                Metric::HeaderLen => {},
                Metric::BodyLen => {},
            }
        }
        assert forall|m: Metric| final(collector).gauge_slot(m) == Some(0u64) by {
            match m {
                Metric::Dns => {},
                Metric::Connection => {},
                Metric::Tls => {},
                Metric::Headers => {},
                Metric::FullResponse => {},
                Metric::HeaderLen => {},
                Metric::BodyLen => {},
            }
        }
        assert(latency_metrics_seq().contains(Metric::Dns) && latency_metrics_seq().contains(
            Metric::Connection,
        ) && latency_metrics_seq().contains(Metric::Tls) && latency_metrics_seq().contains(
            Metric::Headers,
        ) && latency_metrics_seq().contains(Metric::FullResponse)) by {
            assert(latency_metrics_seq()[0] == Metric::Dns);
            assert(latency_metrics_seq()[1] == Metric::Connection);
            assert(latency_metrics_seq()[2] == Metric::Tls);
            assert(latency_metrics_seq()[3] == Metric::Headers);
            assert(latency_metrics_seq()[4] == Metric::FullResponse);
        }
        assert forall|m: Metric| !latency_metrics_seq().contains(m) implies final(collector).histogram_slot(
            m,
        ) == old(collector).histogram_slot(m) by {
            match m {
                Metric::HeaderLen => {},
                Metric::BodyLen => {},
                _ => {},
            }
        }
    }
}

/// The keys of a snapshot list.
pub open spec fn snapshot_keys(s: Seq<Snapshot>) -> Seq<Metric> {
    s.map_values(|snap: Snapshot| snap.key)
}

/// Whether a key counts as active: its counter is registered and has
/// counted something.
pub open spec fn has_count(collector: &Collector, m: Metric) -> bool {
    collector.counter_slot(m) matches Some(c) && c > 0
}

impl Metric {
    /// A snapshot of each listed metric that has counted anything,
    /// in the order listed.
    pub fn get_metrics(m: &Vec<Metric>, collector: &Collector) -> (r: Vec<Snapshot>)
        requires
            collector.wf(),
        ensures
            snapshot_keys(r@) == m@.filter(|k: Metric| has_count(collector, k)),
            forall|i: int|
                0 <= i < r@.len() ==> {
                    let k = (#[trigger] r@[i]).key;
                    &&& r@[i].count == collector.counter_slot(k)
                    &&& r@[i].gauge == collector.gauge_slot(k)
                    &&& match collector.histogram_slot(k) {
                        Some(h) => r@[i].latency_snapshot matches Some(hs) && snapshot_of_histo(
                            hs,
                            h,
                            collector.percentiles_spec(),
                        ),
                        None => r@[i].latency_snapshot is None,
                    }
                },
    {
        let pred = Ghost(|k: Metric| has_count(collector, k));
        let mut r: Vec<Snapshot> = Vec::new();
        let mut i: usize = 0;
        proof {
            reveal(Seq::filter);
            assert(snapshot_keys(r@) =~= m@.subrange(0, 0).filter(pred@));
        }
        while i < m.len()
            invariant
                collector.wf(),
                i <= m@.len(),
                pred@ == (|k: Metric| has_count(collector, k)),
                snapshot_keys(r@) == m@.subrange(0, i as int).filter(pred@),
                forall|j: int|
                    0 <= j < r@.len() ==> {
                        let k = (#[trigger] r@[j]).key;
                        &&& r@[j].count == collector.counter_slot(k)
                        &&& r@[j].gauge == collector.gauge_slot(k)
                        &&& match collector.histogram_slot(k) {
                            Some(h) => r@[j].latency_snapshot matches Some(hs)
                                && snapshot_of_histo(hs, h, collector.percentiles_spec()),
                            None => r@[j].latency_snapshot is None,
                        }
                    },
            decreases m@.len() - i,
        {
            let key = m[i];
            let snapshot = collector.snapshot(&key);
            let keep = match snapshot.count() {
                Some(c) => c > 0,
                None => false,
            };
            proof {
                reveal(Seq::filter);
                let pre = m@.subrange(0, i + 1 as int);
                assert(pre.drop_last() =~= m@.subrange(0, i as int));
                assert(pre.last() == m@[i as int]);
                assert(keep == pred@(m@[i as int]));
            }
            if keep {
                let ghost old_keys = snapshot_keys(r@);
                r.push(snapshot);
                proof {
                    assert(snapshot_keys(r@) =~= old_keys.push(key));
                }
            }
            i = i + 1;
        }
        proof {
            assert(m@.subrange(0, m@.len() as int) =~= m@);
        }
        r
    }

    /// A snapshot of every built-in metric that has counted anything.
    pub fn get_all_metrics(collector: &Collector) -> (r: Vec<Snapshot>)
        requires
            collector.wf(),
        ensures
            snapshot_keys(r@) == all_metrics_seq().filter(|k: Metric| has_count(collector, k)),
    {
        Metric::get_metrics(&Metric::all_metrics(), collector)
    }

    /// A snapshot of every latency metric that has counted anything.
    pub fn get_latency_metrics(collector: &Collector) -> (r: Vec<Snapshot>)
        requires
            collector.wf(),
        ensures
            snapshot_keys(r@) == latency_metrics_seq().filter(
                |k: Metric| has_count(collector, k),
            ),
    {
        Metric::get_metrics(&Metric::latency_metrics(), collector)
    }

    /// A snapshot of every size metric that has counted anything.
    pub fn get_size_metrics(collector: &Collector) -> (r: Vec<Snapshot>)
        requires
            collector.wf(),
        ensures
            snapshot_keys(r@) == size_metrics_seq().filter(|k: Metric| has_count(collector, k)),
    {
        Metric::get_metrics(&Metric::size_metrics(), collector)
    }
}

} // verus!
