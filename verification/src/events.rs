use vstd::prelude::*;

use crate::stopwatch::{instant_elapsed, instant_now};
use crate::util::Dur;

verus! {

/// The protocol-boundary transitions a traced request can pass
/// through.
#[derive(Debug, Clone, Copy, PartialEq, Eq, Structural)]
pub enum Event {
    Initiated,
    DnsResolutionStarted,
    DnsResolutionFinished,
    ConnectionStarted,
    Connected,
    TlsNegotiationStarted,
    TlsNegotiated,
    HeadersReceived,
    FullResponse,
    ConnectionError,
}

/// Collects events with the time they were observed, kept as the
/// duration since the collector was created (the collector's own
/// monotonic origin).
#[derive(Debug)]
pub struct EventCollector {
    origin: std::time::Instant,
    events: Vec<(Event, Dur)>,
}

impl EventCollector {
    pub closed spec fn events_spec(&self) -> Seq<(Event, Dur)> {
        self.events@
    }

    pub fn new() -> (r: Self)
        ensures
            r.events_spec().len() == 0,
    {
        EventCollector { origin: instant_now(), events: Vec::new() }
    }

    /// Append the event, stamped with the time since this collector
    /// was created.
    pub fn add(&mut self, e: Event)
        ensures
            final(self).events_spec().len() == old(self).events_spec().len() + 1,
            final(self).events_spec().last().0 == e,
            final(self).events_spec().last().1.wf(),
            forall|i: int|
                0 <= i < old(self).events_spec().len() ==> final(self).events_spec()[i] == old(
                    self,
                ).events_spec()[i],
    {
        let t = instant_elapsed(&self.origin);
        self.events.push((e, t));
    }

    /// Take every collected event out, in the order they were added.
    pub fn drain_events(&mut self) -> (r: EventSet)
        ensures
            r.events@ == old(self).events_spec(),
            final(self).events_spec().len() == 0,
    {
        let mut taken: Vec<(Event, Dur)> = Vec::new();
        std::mem::swap(&mut taken, &mut self.events);
        EventSet { events: taken }
    }
}

/// The index of the first entry carrying event `e`, or -1 when none
/// does.
pub open spec fn find_idx(s: Seq<(Event, Dur)>, e: Event) -> int
    decreases s.len(),
{
    if s.len() == 0 {
        -1
    } else if s[0].0 == e {
        0
    } else {
        let r = find_idx(s.drop_first(), e);
        if r < 0 {
            -1
        } else {
            r + 1
        }
    }
}

/// The timestamp of the first entry carrying event `e`.
pub open spec fn find_time(s: Seq<(Event, Dur)>, e: Event) -> Option<Dur> {
    if find_idx(s, e) < 0 {
        None
    } else {
        Some(s[find_idx(s, e)].1)
    }
}

/// The saturating span from the first occurrence of `first` to the
/// first occurrence of `second`, when both occur.
pub open spec fn time_between_spec(s: Seq<(Event, Dur)>, first: Event, second: Event) -> Option<
    Dur,
> {
    match (find_time(s, first), find_time(s, second)) {
        (Some(a), Some(b)) => Some(b.sat_sub_spec(a)),
        _ => None,
    }
}

pub proof fn lemma_find_idx(s: Seq<(Event, Dur)>, e: Event)
    ensures
        find_idx(s, e) == -1 ==> forall|k: int| 0 <= k < s.len() ==> (#[trigger] s[k]).0 != e,
        find_idx(s, e) != -1 ==> {
            &&& 0 <= find_idx(s, e) < s.len()
            &&& s[find_idx(s, e)].0 == e
            &&& forall|k: int| 0 <= k < find_idx(s, e) ==> (#[trigger] s[k]).0 != e
        },
    decreases s.len(),
{
    if s.len() > 0 && s[0].0 != e {
        lemma_find_idx(s.drop_first(), e);
        assert forall|k: int| 0 <= k < s.drop_first().len() implies s.drop_first()[k]
            == s[k + 1] by {}
        if find_idx(s.drop_first(), e) < 0 {
            assert forall|k: int| 0 <= k < s.len() implies (#[trigger] s[k]).0 != e by {
                if k > 0 {
                    assert(s[k] == s.drop_first()[k - 1]);
                }
            }
        } else {
            assert forall|k: int| 0 <= k < find_idx(s, e) implies (#[trigger] s[k]).0 != e by {
                if k > 0 {
                    assert(s[k] == s.drop_first()[k - 1]);
                }
            }
        }
    }
}

/// The events one traced request emitted, in order, each with the
/// time it was observed.
#[derive(Debug)]
pub struct EventSet {
    pub events: Vec<(Event, Dur)>,
}

impl EventSet {
    /// All durations held by a well-formed event set are well-formed.
    pub open spec fn wf(&self) -> bool {
        forall|i: int| 0 <= i < self.events@.len() ==> (#[trigger] self.events@[i]).1.wf()
    }

    /// The collected events, in the order they were observed.
    pub fn iter(&self) -> (r: &Vec<(Event, Dur)>)
        ensures
            r@ == self.events@,
    {
        &self.events
    }

    /// All events with their timestamps made relative to the given
    /// origin (saturating at zero for anything earlier).
    pub fn since(&self, earlier: Dur) -> (r: Vec<(Event, Dur)>)
        requires
            self.wf(),
            earlier.wf(),
        ensures
            r@.len() == self.events@.len(),
            forall|i: int|
                0 <= i < r@.len() ==> (#[trigger] r@[i]).0 == self.events@[i].0 && r@[i].1
                    == self.events@[i].1.sat_sub_spec(earlier),
    {
        let mut r: Vec<(Event, Dur)> = Vec::new();
        let mut i: usize = 0;
        while i < self.events.len()
            invariant
                self.wf(),
                earlier.wf(),
                i <= self.events@.len(),
                r@.len() == i,
                forall|j: int|
                    0 <= j < i ==> (#[trigger] r@[j]).0 == self.events@[j].0 && r@[j].1
                        == self.events@[j].1.sat_sub_spec(earlier),
            decreases self.events@.len() - i,
        {
            let (e, t) = self.events[i];
            r.push((e, t.saturating_sub(earlier)));
            i = i + 1;
        }
        r
    }

    /// The events from the first `Initiated` on, with timestamps
    /// relative to that event; empty when no `Initiated` was seen.
    pub fn since_initiated(&self) -> (r: Vec<(Event, Dur)>)
        requires
            self.wf(),
        ensures
            ({
                let idx = find_idx(self.events@, Event::Initiated);
                if idx < 0 {
                    r@.len() == 0
                } else {
                    &&& r@.len() == self.events@.len() - idx
                    &&& forall|i: int|
                        0 <= i < r@.len() ==> (#[trigger] r@[i]).0 == self.events@[idx + i].0
                            && r@[i].1 == self.events@[idx + i].1.sat_sub_spec(
                            self.events@[idx].1,
                        )
                }
            }),
    {
        proof {
            lemma_find_idx(self.events@, Event::Initiated);
        }
        match self.find_index(Event::Initiated) {
            None => Vec::new(),
            Some(idx) => {
                let origin = self.events[idx].1;
                let mut r: Vec<(Event, Dur)> = Vec::new();
                let mut i: usize = idx;
                while i < self.events.len()
                    invariant
                        self.wf(),
                        idx <= i <= self.events@.len(),
                        idx < self.events@.len(),
                        origin == self.events@[idx as int].1,
                        origin.wf(),
                        r@.len() == i - idx,
                        forall|j: int|
                            0 <= j < r@.len() ==> (#[trigger] r@[j]).0 == self.events@[idx + j].0
                                && r@[j].1 == self.events@[idx + j].1.sat_sub_spec(origin),
                    decreases self.events@.len() - i,
                {
                    let (e, t) = self.events[i];
                    r.push((e, t.saturating_sub(origin)));
                    i = i + 1;
                }
                r
            },
        }
    }

    /// The timestamp of the first `Initiated` event, if any.
    pub fn initiated_at(&self) -> (r: Option<Dur>)
        ensures
            r == find_time(self.events@, Event::Initiated),
    {
        self.find_event(Event::Initiated)
    }

    /// The timestamp of the first occurrence of `ev`, if any.
    pub fn find_event(&self, ev: Event) -> (r: Option<Dur>)
        ensures
            r == find_time(self.events@, ev),
    {
        proof {
            lemma_find_idx(self.events@, ev);
        }
        match self.find_index(ev) {
            None => None,
            Some(i) => Some(self.events[i].1),
        }
    }

    /// The saturating span from the first occurrence of `first` to the
    /// first occurrence of `second`; `None` unless both occurred.
    pub fn time_between(&self, first: Event, second: Event) -> (r: Option<Dur>)
        requires
            self.wf(),
        ensures
            r == time_between_spec(self.events@, first, second),
    {
        proof {
            lemma_find_idx(self.events@, first);
            lemma_find_idx(self.events@, second);
        }
        let start = self.find_event(first);
        let end = self.find_event(second);
        match (start, end) {
            (Some(s), Some(e)) => Some(e.saturating_sub(s)),
            _ => None,
        }
    }

    /// The index of the first occurrence of `ev`, if any.
    fn find_index(&self, ev: Event) -> (r: Option<usize>)
        ensures
            ({
                let idx = find_idx(self.events@, ev);
                match r {
                    Some(i) => i == idx,
                    None => idx == -1,
                }
            }),
    {
        proof {
            lemma_find_idx(self.events@, ev);
        }
        let mut i: usize = 0;
        while i < self.events.len()
            invariant
                i <= self.events@.len(),
                forall|k: int| 0 <= k < i ==> (#[trigger] self.events@[k]).0 != ev,
            decreases self.events@.len() - i,
        {
            if self.events[i].0 == ev {
                proof {
                    lemma_find_idx_at(self.events@, ev, i as int);
                }
                return Some(i);
            }
            i = i + 1;
        }
        None
    }
}

/// When everything before `i` differs from `e` and position `i`
/// carries it, `i` is the first index.
proof fn lemma_find_idx_at(s: Seq<(Event, Dur)>, e: Event, i: int)
    requires
        0 <= i < s.len(),
        s[i].0 == e,
        forall|k: int| 0 <= k < i ==> (#[trigger] s[k]).0 != e,
    ensures
        find_idx(s, e) == i,
    decreases i,
{
    if i > 0 {
        assert forall|k: int| 0 <= k < i - 1 implies (#[trigger] s.drop_first()[k]).0 != e by {
            assert(s.drop_first()[k] == s[k + 1]);
        }
        assert(s.drop_first()[i - 1] == s[i]);
        lemma_find_idx_at(s.drop_first(), e, i - 1);
    }
}

} // verus!
