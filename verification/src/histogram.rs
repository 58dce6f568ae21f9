use vstd::prelude::*;

use crate::metric::Metric;

verus! {

/// The largest value a histogram will keep, in microseconds (one
/// minute).  Recorded values are clamped to `[1, HIGHEST_TRACKABLE]`.
pub const HIGHEST_TRACKABLE: u64 = 60 * 1000 * 1000;

pub open spec fn clamp_spec(v: u64) -> u64 {
    if v < 1 {
        1u64
    } else if v > HIGHEST_TRACKABLE {
        HIGHEST_TRACKABLE
    } else {
        v
    }
}

/// Clamp a value into the range the histogram keeps.
pub fn clamp(v: u64) -> (r: u64)
    ensures
        r == clamp_spec(v),
{
    if v < 1 {
        1
    } else if v > HIGHEST_TRACKABLE {
        HIGHEST_TRACKABLE
    } else {
        v
    }
}

/// Total number of recordings held in an entry list.
pub open spec fn sum_counts(s: Seq<(u64, u64)>) -> int
    decreases s.len(),
{
    if s.len() == 0 {
        0
    } else {
        s[0].1 + sum_counts(s.drop_first())
    }
}

/// How many recordings of the value `v` an entry list holds.
pub open spec fn count_in(s: Seq<(u64, u64)>, v: u64) -> int
    decreases s.len(),
{
    if s.len() == 0 {
        0
    } else {
        (if s[0].0 == v {
            s[0].1 as int
        } else {
            0
        }) + count_in(s.drop_first(), v)
    }
}

/// A well-formed entry list: values strictly ascending and clamped,
/// every count at least one.
pub open spec fn entries_wf(s: Seq<(u64, u64)>) -> bool {
    &&& forall|i: int, j: int| 0 <= i < j < s.len() ==> (#[trigger] s[i]).0 < (#[trigger] s[j]).0
    &&& forall|i: int| 0 <= i < s.len() ==> (#[trigger] s[i]).1 >= 1
    &&& forall|i: int| 0 <= i < s.len() ==> 1 <= (#[trigger] s[i]).0 <= HIGHEST_TRACKABLE
}

/// A latency histogram over `[1, HIGHEST_TRACKABLE]` microseconds.
/// Recordings are kept exactly, as a sorted list of distinct values
/// with their multiplicities; the total number of recordings saturates
/// at `u64::MAX`.
pub struct Histo {
    entries: Vec<(u64, u64)>,
    total: u64,
}

impl Histo {
    pub closed spec fn entries_spec(&self) -> Seq<(u64, u64)> {
        self.entries@
    }

    pub closed spec fn total_spec(&self) -> u64 {
        self.total
    }

    pub open spec fn wf(&self) -> bool {
        &&& entries_wf(self.entries_spec())
        &&& self.total_spec() == sum_counts(self.entries_spec())
    }

    /// How many recordings of value `v` this histogram holds.
    pub open spec fn count_of(&self, v: u64) -> int {
        count_in(self.entries_spec(), v)
    }

    pub open spec fn is_empty_spec(&self) -> bool {
        self.entries_spec().len() == 0
    }

    /// The smallest recorded value, or 0 when nothing was recorded.
    pub open spec fn min_spec(&self) -> u64 {
        if self.entries_spec().len() == 0 {
            0u64
        } else {
            self.entries_spec()[0].0
        }
    }

    /// The largest recorded value, or 0 when nothing was recorded.
    pub open spec fn max_spec(&self) -> u64 {
        if self.entries_spec().len() == 0 {
            0u64
        } else {
            self.entries_spec()[self.entries_spec().len() - 1].0
        }
    }

    /// Create an empty histogram.
    pub fn new() -> (r: Histo)
        ensures
            r.wf(),
            r.is_empty_spec(),
            r.total_spec() == 0,
            forall|v: u64| r.count_of(v) == 0,
    {
        let r = Histo { entries: Vec::new(), total: 0 };
        proof {
            assert forall|v: u64| r.count_of(v) == 0 by {
                reveal_with_fuel(count_in, 1);
            }
        }
        r
    }

    /// The total number of recordings.
    pub fn len(&self) -> (r: u64)
        ensures
            r == self.total_spec(),
    {
        self.total
    }

    /// The smallest recorded value, or 0 when nothing was recorded.
    pub fn min(&self) -> (r: u64)
        requires
            self.wf(),
        ensures
            r == self.min_spec(),
    {
        if self.entries.len() == 0 {
            0
        } else {
            self.entries[0].0
        }
    }

    /// The largest recorded value, or 0 when nothing was recorded.
    pub fn max(&self) -> (r: u64)
        requires
            self.wf(),
        ensures
            r == self.max_spec(),
    {
        if self.entries.len() == 0 {
            0
        } else {
            self.entries[self.entries.len() - 1].0
        }
    }

    /// Record one occurrence of `value`, clamped into range.
    pub fn record(&mut self, value: u64)
        requires
            old(self).wf(),
        ensures
            final(self).wf(),
            recorded(*old(self), *final(self), value, 1),
    {
        self.record_n(value, 1);
    }

    /// Record `n` occurrences of `value`, clamped into range.  The
    /// total saturates at `u64::MAX`: at most `u64::MAX - len()`
    /// occurrences are added.
    pub fn record_n(&mut self, value: u64, n: u64)
        requires
            old(self).wf(),
        ensures
            final(self).wf(),
            recorded(*old(self), *final(self), value, n),
    {
        let v = clamp(value);
        let room = u64::MAX - self.total;
        let add = if n < room {
            n
        } else {
            room
        };
        if add == 0 {
            return ;
        }
        let ghost s0 = self.entries@;
        let mut i: usize = 0;
        while i < self.entries.len() && self.entries[i].0 < v
            invariant
                i <= self.entries@.len(),
                self.entries@ == s0,
                forall|j: int| 0 <= j < i ==> s0[j].0 < v,
            decreases self.entries@.len() - i,
        {
            i = i + 1;
        }
        if i < self.entries.len() && self.entries[i].0 == v {
            let c = self.entries[i].1;
            proof {
                lemma_entry_le_sum(s0, i as int);
            }
            let e = &mut self.entries[i];
            e.1 = c + add;
            proof {
                lemma_sum_update(s0, i as int, (v, (s0[i as int].1 + add) as u64));
                lemma_count_update(s0, i as int, (v, (s0[i as int].1 + add) as u64));
            }
        } else {
            self.entries.insert(i, (v, add));
            proof {
                lemma_sum_insert(s0, i as int, (v, add));
                lemma_count_insert(s0, i as int, (v, add));
            }
        }
        self.total = self.total + add;
    }

    /// Forget every recording.
    pub fn clear(&mut self)
        ensures
            final(self).wf(),
            final(self).is_empty_spec(),
            final(self).total_spec() == 0,
            forall|v: u64| final(self).count_of(v) == 0,
    {
        self.entries.clear();
        self.total = 0;
        proof {
            assert forall|v: u64| final(self).count_of(v) == 0 by {
                reveal_with_fuel(count_in, 1);
            }
        }
    }
}

impl Clone for Histo {
    fn clone(&self) -> (r: Self)
        ensures
            r.entries_spec() == self.entries_spec(),
            r.total_spec() == self.total_spec(),
    {
        let mut entries: Vec<(u64, u64)> = Vec::new();
        let mut i: usize = 0;
        while i < self.entries.len()
            invariant
                i <= self.entries@.len(),
                entries@ == self.entries@.subrange(0, i as int),
            decreases self.entries@.len() - i,
        {
            entries.push(self.entries[i]);
            proof {
                assert(entries@ =~= self.entries@.subrange(0, i + 1 as int));
            }
            i = i + 1;
        }
        proof {
            assert(entries@ =~= self.entries@);
        }
        Histo { entries, total: self.total }
    }
}

/// The value whose cumulative count first reaches rank `r` (one-based),
/// or the largest value when `r` is beyond the total, or 0 on an empty
/// list.
pub open spec fn value_at_rank(s: Seq<(u64, u64)>, r: int) -> u64
    decreases s.len(),
{
    if s.len() == 0 {
        0u64
    } else if s.len() == 1 {
        s[0].0
    } else if r <= s[0].1 {
        s[0].0
    } else {
        value_at_rank(s.drop_first(), r - s[0].1)
    }
}

/// The one-based rank that a percentile (in tenths of a percent) asks
/// for among `total` recordings: the ceiling of `total * tenths / 1000`,
/// at least 1, or 0 when nothing was recorded.
pub open spec fn rank_for(total: int, tenths: int) -> int {
    if total == 0 {
        0
    } else {
        let r = (total * tenths + 999) / 1000;
        if r < 1 {
            1
        } else {
            r
        }
    }
}

/// Sum of `value * count` over an entry list.
pub open spec fn weighted_sum(s: Seq<(u64, u64)>) -> int
    decreases s.len(),
{
    if s.len() == 0 {
        0
    } else {
        s[0].0 * s[0].1 + weighted_sum(s.drop_first())
    }
}

/// Sum of `count * (value - m)^2` over an entry list.
pub open spec fn dev_sum(s: Seq<(u64, u64)>, m: int) -> int
    decreases s.len(),
{
    if s.len() == 0 {
        0
    } else {
        s[0].1 * (s[0].0 - m) * (s[0].0 - m) + dev_sum(s.drop_first(), m)
    }
}

/// `r` is the integer square root of `x`.
pub open spec fn is_isqrt(x: int, r: u64) -> bool {
    &&& r * r <= x
    &&& x < (r + 1) * (r + 1)
}

impl Histo {
    /// The value at the given percentile, expressed in tenths of a
    /// percent (so 500 is the median and 999 the 99.9th percentile).
    pub open spec fn percentile_spec(&self, tenths: u64) -> u64 {
        value_at_rank(self.entries_spec(), rank_for(self.total_spec() as int, tenths as int))
    }

    /// The truncated mean of all recordings, 0 when there are none.
    pub open spec fn mean_spec(&self) -> int {
        if self.total_spec() == 0 {
            0
        } else {
            weighted_sum(self.entries_spec()) / (self.total_spec() as int)
        }
    }

    /// The truncated population variance of all recordings.
    pub open spec fn var_spec(&self) -> int {
        if self.total_spec() == 0 {
            0
        } else {
            dev_sum(self.entries_spec(), self.mean_spec()) / (self.total_spec() as int)
        }
    }

    /// The value at the percentile given in tenths of a percent.
    pub fn value_at_tenths(&self, tenths: u64) -> (r: u64)
        requires
            self.wf(),
        ensures
            r == self.percentile_spec(tenths),
    {
        if self.total == 0 {
            proof {
                lemma_sum_zero_empty(self.entries_spec());
            }
            return 0;
        }
        proof {
            lemma_sum_nonneg(self.entries_spec());
            vstd::arithmetic::mul::lemma_mul_upper_bound(
                self.total as int,
                u64::MAX as int,
                tenths as int,
                u64::MAX as int,
            );
            assert((u64::MAX as int) * (u64::MAX as int) + 999 < u128::MAX as int);
        }
        let t128: u128 = (self.total as u128) * (tenths as u128);
        let mut rank: u128 = (t128 + 999) / 1000;
        if rank < 1 {
            rank = 1;
        }
        assert(rank == rank_for(self.total_spec() as int, tenths as int));
        proof {
            assert(self.entries@.skip(0) =~= self.entries@);
        }
        at_rank(&self.entries, 0, rank)
    }

    /// The truncated mean of all recordings, 0 when there are none.
    pub fn mean(&self) -> (r: u64)
        requires
            self.wf(),
        ensures
            r == self.mean_spec(),
            r <= HIGHEST_TRACKABLE,
    {
        if self.total == 0 {
            return 0;
        }
        let s = Ghost(self.entries_spec());
        let mut sum: u128 = 0;
        let mut i: usize = 0;
        while i < self.entries.len()
            invariant
                self.wf(),
                s@ == self.entries_spec(),
                i <= s@.len(),
                sum == weighted_sum(s@.subrange(0, i as int)),
                sum <= HIGHEST_TRACKABLE * sum_counts(s@.subrange(0, i as int)),
                sum_counts(s@.subrange(0, i as int)) <= self.total_spec(),
            decreases s@.len() - i,
        {
            let (v, c) = self.entries[i];
            proof {
                lemma_weighted_snoc(s@.subrange(0, i as int), (v, c));
                lemma_sum_snoc(s@.subrange(0, i as int), (v, c));
                assert(s@.subrange(0, i + 1 as int) =~= s@.subrange(0, i as int).push((v, c)));
                lemma_sum_split(s@, i + 1 as int);
                lemma_sum_nonneg(s@.skip(i + 1 as int));
                lemma_sum_nonneg(s@.subrange(0, i + 1 as int));
                assert((v as int) * (c as int) <= (HIGHEST_TRACKABLE as int) * (c as int)) by {
                    vstd::arithmetic::mul::lemma_mul_inequality(
                        v as int,
                        HIGHEST_TRACKABLE as int,
                        c as int,
                    );
                }
                assert(HIGHEST_TRACKABLE * (sum_counts(s@.subrange(0, i as int)) + c)
                    == HIGHEST_TRACKABLE * sum_counts(s@.subrange(0, i as int))
                    + HIGHEST_TRACKABLE * c) by {
                    vstd::arithmetic::mul::lemma_mul_is_distributive_add(
                        HIGHEST_TRACKABLE as int,
                        sum_counts(s@.subrange(0, i as int)),
                        c as int,
                    );
                }
                vstd::arithmetic::mul::lemma_mul_upper_bound(
                    HIGHEST_TRACKABLE as int,
                    HIGHEST_TRACKABLE as int,
                    sum_counts(s@.subrange(0, i + 1 as int)),
                    u64::MAX as int,
                );
                assert((HIGHEST_TRACKABLE as int) * (u64::MAX as int) < u128::MAX as int);
                vstd::arithmetic::mul::lemma_mul_upper_bound(
                    v as int,
                    HIGHEST_TRACKABLE as int,
                    c as int,
                    u64::MAX as int,
                );
            }
            sum = sum + (v as u128) * (c as u128);
            i = i + 1;
        }
        proof {
            assert(s@.subrange(0, s@.len() as int) =~= s@);
        }
        let total = self.total;
        let r128: u128 = sum / (total as u128);
        proof {
            lemma_div_bound(sum as int, HIGHEST_TRACKABLE as int, total as int);
        }
        r128 as u64
    }

    /// The truncated standard deviation: the integer square root of the
    /// truncated population variance.
    pub fn stdev(&self) -> (r: u64)
        requires
            self.wf(),
        ensures
            is_isqrt(self.var_spec(), r),
    {
        if self.total == 0 {
            return 0;
        }
        let m = self.mean();
        let ghost mi = self.mean_spec();
        let s = Ghost(self.entries_spec());
        let mut sum: u128 = 0;
        let mut i: usize = 0;
        while i < self.entries.len()
            invariant
                self.wf(),
                s@ == self.entries_spec(),
                self.total_spec() != 0,
                m == mi,
                mi == self.mean_spec(),
                0 <= mi <= HIGHEST_TRACKABLE,
                i <= s@.len(),
                sum == dev_sum(s@.subrange(0, i as int), mi),
                sum <= (HIGHEST_TRACKABLE as int) * (HIGHEST_TRACKABLE as int) * sum_counts(
                    s@.subrange(0, i as int),
                ),
                sum_counts(s@.subrange(0, i as int)) <= self.total_spec(),
            decreases s@.len() - i,
        {
            let (v, c) = self.entries[i];
            let dev: u64 = if v >= m {
                v - m
            } else {
                m - v
            };
            proof {
                lemma_dev_snoc(s@.subrange(0, i as int), (v, c), mi);
                lemma_sum_snoc(s@.subrange(0, i as int), (v, c));
                assert(s@.subrange(0, i + 1 as int) =~= s@.subrange(0, i as int).push((v, c)));
                lemma_sum_split(s@, i + 1 as int);
                lemma_sum_nonneg(s@.skip(i + 1 as int));
                lemma_sum_nonneg(s@.subrange(0, i + 1 as int));
                let h = HIGHEST_TRACKABLE as int;
                assert(h * h == 3600000000000000int) by (nonlinear_arith)
                    requires
                        h == 60000000int,
                ;
                assert((c as int) * ((v as int) - mi) * ((v as int) - mi) == (c as int) * (dev
                    as int) * (dev as int)) by (nonlinear_arith)
                    requires
                        dev as int == if v as int >= mi {
                            v as int - mi
                        } else {
                            mi - v as int
                        },
                ;
                assert((c as int) * (dev as int) * (dev as int) <= h * h * (c as int))
                    by (nonlinear_arith)
                    requires
                        0 <= dev as int <= h,
                        0 <= c as int,
                ;
                assert(h * h * (sum_counts(s@.subrange(0, i as int)) + c) == h * h * sum_counts(
                    s@.subrange(0, i as int),
                ) + h * h * (c as int)) by (nonlinear_arith);
                vstd::arithmetic::mul::lemma_mul_upper_bound(
                    c as int,
                    u64::MAX as int,
                    dev as int,
                    h,
                );
                assert((u64::MAX as int) * 60000000int < u128::MAX as int);
                vstd::arithmetic::mul::lemma_mul_upper_bound(
                    (c as int) * (dev as int),
                    (u64::MAX as int) * 60000000int,
                    dev as int,
                    h,
                );
                assert((u64::MAX as int) * 60000000int * 60000000int < u128::MAX as int)
                    by (nonlinear_arith);
                vstd::arithmetic::mul::lemma_mul_upper_bound(
                    h * h,
                    3600000000000000int,
                    sum_counts(s@.subrange(0, i + 1 as int)),
                    u64::MAX as int,
                );
                assert(3600000000000000int * (u64::MAX as int) < u128::MAX as int);
            }
            sum = sum + (c as u128) * (dev as u128) * (dev as u128);
            i = i + 1;
        }
        proof {
            assert(s@.subrange(0, s@.len() as int) =~= s@);
        }
        let total = self.total;
        let var128: u128 = sum / (total as u128);
        proof {
            lemma_div_bound(
                sum as int,
                (HIGHEST_TRACKABLE as int) * (HIGHEST_TRACKABLE as int),
                total as int,
            );
            assert((HIGHEST_TRACKABLE as int) * (HIGHEST_TRACKABLE as int)
                == 3600000000000000int) by (nonlinear_arith);
        }
        isqrt(var128 as u64)
    }
}

/// The integer square root.
pub fn isqrt(x: u64) -> (r: u64)
    ensures
        is_isqrt(x as int, r),
{
    let mut lo: u64 = 0;
    let mut hi: u64 = 4294967296;
    proof {
        assert((hi as int) * (hi as int) > u64::MAX) by (nonlinear_arith)
            requires
                hi == 4294967296u64,
        ;
    }
    while lo + 1 < hi
        invariant
            lo < hi,
            hi <= 4294967296,
            (lo as int) * (lo as int) <= x as int,
            (x as int) < (hi as int) * (hi as int),
        decreases hi - lo,
    {
        let mid = lo + (hi - lo) / 2;
        proof {
            vstd::arithmetic::mul::lemma_mul_upper_bound(
                mid as int,
                4294967296int,
                mid as int,
                4294967296int,
            );
            assert(4294967296int * 4294967296int < u128::MAX as int);
        }
        if (mid as u128) * (mid as u128) <= x as u128 {
            lo = mid;
        } else {
            hi = mid;
        }
    }
    lo
}

fn at_rank(entries: &Vec<(u64, u64)>, i: usize, rank: u128) -> (r: u64)
    requires
        i <= entries@.len(),
    ensures
        r == value_at_rank(entries@.skip(i as int), rank as int),
    decreases entries@.len() - i,
{
    if i >= entries.len() {
        0
    } else if i == entries.len() - 1 {
        entries[i].0
    } else if rank <= entries[i].1 as u128 {
        entries[i].0
    } else {
        proof {
            assert(entries@.skip(i as int).drop_first() =~= entries@.skip(i + 1 as int));
        }
        at_rank(entries, i + 1, rank - entries[i].1 as u128)
    }
}

proof fn lemma_div_bound(x: int, b: int, t: int)
    requires
        0 <= x,
        0 <= b,
        1 <= t,
        x <= b * t,
    ensures
        x / t <= b,
{
    vstd::arithmetic::div_mod::lemma_div_is_ordered(x, b * t, t);
    vstd::arithmetic::mul::lemma_mul_is_commutative(b, t);
    vstd::arithmetic::div_mod::lemma_div_multiples_vanish(b, t);
}

/// An entry list whose counts sum to zero is empty.
proof fn lemma_sum_zero_empty(s: Seq<(u64, u64)>)
    requires
        entries_wf(s),
        sum_counts(s) == 0,
    ensures
        s.len() == 0,
{
    if s.len() > 0 {
        lemma_sum_nonneg(s.drop_first());
    }
}

proof fn lemma_sum_snoc(s: Seq<(u64, u64)>, p: (u64, u64))
    ensures
        sum_counts(s.push(p)) == sum_counts(s) + p.1,
    decreases s.len(),
{
    reveal_with_fuel(sum_counts, 3);
    if s.len() == 0 {
        assert(s.push(p)[0] == p);
        assert(s.push(p).drop_first() =~= Seq::<(u64, u64)>::empty());
    } else {
        lemma_sum_snoc(s.drop_first(), p);
        assert(s.push(p)[0] == s[0]);
        assert(s.push(p).drop_first() =~= s.drop_first().push(p));
    }
}

proof fn lemma_weighted_snoc(s: Seq<(u64, u64)>, p: (u64, u64))
    ensures
        weighted_sum(s.push(p)) == weighted_sum(s) + p.0 * p.1,
    decreases s.len(),
{
    reveal_with_fuel(weighted_sum, 3);
    if s.len() == 0 {
        assert(s.push(p)[0] == p);
        assert(s.push(p).drop_first() =~= Seq::<(u64, u64)>::empty());
    } else {
        lemma_weighted_snoc(s.drop_first(), p);
        assert(s.push(p)[0] == s[0]);
        assert(s.push(p).drop_first() =~= s.drop_first().push(p));
    }
}

proof fn lemma_dev_snoc(s: Seq<(u64, u64)>, p: (u64, u64), m: int)
    ensures
        dev_sum(s.push(p), m) == dev_sum(s, m) + p.1 * (p.0 - m) * (p.0 - m),
    decreases s.len(),
{
    reveal_with_fuel(dev_sum, 3);
    if s.len() == 0 {
        assert(s.push(p)[0] == p);
        assert(s.push(p).drop_first() =~= Seq::<(u64, u64)>::empty());
    } else {
        lemma_dev_snoc(s.drop_first(), p, m);
        assert(s.push(p)[0] == s[0]);
        assert(s.push(p).drop_first() =~= s.drop_first().push(p));
    }
}

proof fn lemma_sum_split(s: Seq<(u64, u64)>, i: int)
    requires
        0 <= i <= s.len(),
    ensures
        sum_counts(s) == sum_counts(s.subrange(0, i)) + sum_counts(s.skip(i)),
    decreases i,
{
    if i == 0 {
        assert(s.subrange(0, 0) =~= Seq::<(u64, u64)>::empty());
        assert(s.skip(0) =~= s);
    } else {
        lemma_sum_split(s.drop_first(), i - 1);
        assert(s.subrange(0, i).drop_first() =~= s.drop_first().subrange(0, i - 1));
        assert(s.skip(i) =~= s.drop_first().skip(i - 1));
        assert(sum_counts(s.subrange(0, i)) == s[0].1 + sum_counts(
            s.drop_first().subrange(0, i - 1),
        ));
    }
}

/// Latency histograms, one per registered metric key.  Only keys
/// explicitly registered are tracked; records against unregistered
/// keys are silently dropped.
pub struct Histograms {
    dns: Option<Histo>,
    connection: Option<Histo>,
    tls: Option<Histo>,
    headers: Option<Histo>,
    full_response: Option<Histo>,
    header_len: Option<Histo>,
    body_len: Option<Histo>,
}

/// All histograms a `Histograms` object holds are well-formed.
pub open spec fn histograms_wf(h: &Histograms) -> bool {
    forall|m: Metric| (#[trigger] h.slot(m)) matches Some(x) ==> x.wf()
}

impl Histograms {
    /// The tracked histogram for a key: `None` when the key is not
    /// registered.
    pub closed spec fn slot(&self, key: Metric) -> Option<Histo> {
        match key {
            Metric::Dns => self.dns,
            Metric::Connection => self.connection,
            Metric::Tls => self.tls,
            Metric::Headers => self.headers,
            Metric::FullResponse => self.full_response,
            Metric::HeaderLen => self.header_len,
            Metric::BodyLen => self.body_len,
        }
    }

    /// Create a new `Histograms` object with no interests.
    pub fn new() -> (r: Histograms)
        ensures
            forall|m: Metric| r.slot(m) is None,
            histograms_wf(&r),
    {
        Histograms {
            dns: None,
            connection: None,
            tls: None,
            headers: None,
            full_response: None,
            header_len: None,
            body_len: None,
        }
    }

    /// Register an interest and initialize a blank histogram
    pub fn init(&mut self, key: Metric)
        requires
            histograms_wf(old(self)),
        ensures
            histograms_wf(final(self)),
            final(self).slot(key) matches Some(h) && h.wf() && h.is_empty_spec() && h.total_spec()
                == 0 && forall|v: u64| h.count_of(v) == 0,
            forall|m: Metric| m != key ==> final(self).slot(m) == old(self).slot(m),
    {
        let h = Histo::new();
        match key {
            Metric::Dns => self.dns = Some(h),
            Metric::Connection => self.connection = Some(h),
            Metric::Tls => self.tls = Some(h),
            Metric::Headers => self.headers = Some(h),
            Metric::FullResponse => self.full_response = Some(h),
            Metric::HeaderLen => self.header_len = Some(h),
            Metric::BodyLen => self.body_len = Some(h),
        }
        proof {
            assert forall|m: Metric| #![trigger self.slot(m)] (self.slot(m) matches Some(x)
                ==> x.wf()) by {
                if m != key {
                    assert(self.slot(m) == old(self).slot(m));
                }
            }
        }
    }

    /// Check if the given interest has been registered with this object
    pub fn interested(&self, key: &Metric) -> (r: bool)
        ensures
            r == (self.slot(*key) is Some),
    {
        match key {
            Metric::Dns => self.dns.is_some(),
            Metric::Connection => self.connection.is_some(),
            Metric::Tls => self.tls.is_some(),
            Metric::Headers => self.headers.is_some(),
            Metric::FullResponse => self.full_response.is_some(),
            Metric::HeaderLen => self.header_len.is_some(),
            Metric::BodyLen => self.body_len.is_some(),
        }
    }

    /// Record a value in the histogram with the given key.
    /// If the key hasn't been registered, this is ignored and the `Histograms` object will not be updated.
    pub fn record(&mut self, key: &Metric, value: u64)
        requires
            histograms_wf(old(self)),
        ensures
            histograms_wf(final(self)),
            match old(self).slot(*key) {
                Some(h) => final(self).slot(*key) matches Some(h2) && recorded(h, h2, value, 1),
                None => final(self).slot(*key) is None,
            },
            forall|m: Metric| m != *key ==> final(self).slot(m) == old(self).slot(m),
    {
        self.record_multiple(key, value, 1);
    }

    /// Record multiple occurrences of a value in the histogram with the given key.
    /// If the key hasn't been registered, this is ignored and the `Histograms` object will not be updated.
    pub fn record_multiple(&mut self, key: &Metric, value: u64, count: u64)
        requires
            histograms_wf(old(self)),
        ensures
            histograms_wf(final(self)),
            match old(self).slot(*key) {
                Some(h) => final(self).slot(*key) matches Some(h2) && recorded(h, h2, value, count),
                None => final(self).slot(*key) is None,
            },
            forall|m: Metric| m != *key ==> final(self).slot(m) == old(self).slot(m),
    {
        match key {
            Metric::Dns => if let Some(h) = &mut self.dns {
                h.record_n(value, count)
            },
            Metric::Connection => if let Some(h) = &mut self.connection {
                h.record_n(value, count)
            },
            Metric::Tls => if let Some(h) = &mut self.tls {
                h.record_n(value, count)
            },
            Metric::Headers => if let Some(h) = &mut self.headers {
                h.record_n(value, count)
            },
            Metric::FullResponse => if let Some(h) = &mut self.full_response {
                h.record_n(value, count)
            },
            Metric::HeaderLen => if let Some(h) = &mut self.header_len {
                h.record_n(value, count)
            },
            Metric::BodyLen => if let Some(h) = &mut self.body_len {
                h.record_n(value, count)
            },
        }
        proof {
            assert forall|m: Metric| #![trigger self.slot(m)] (self.slot(m) matches Some(x)
                ==> x.wf()) by {
                if m != *key {
                    assert(self.slot(m) == old(self).slot(m));
                }
            }
        }
    }

    /// Clear the histogram with the given key
    /// If the key hasn't been registered, this is ignored and the `Histograms` object will not be updated.
    pub fn clear(&mut self, key: &Metric)
        requires
            histograms_wf(old(self)),
        ensures
            histograms_wf(final(self)),
            match old(self).slot(*key) {
                Some(h) => final(self).slot(*key) matches Some(h2) && h2.wf()
                    && h2.is_empty_spec() && h2.total_spec() == 0,
                None => final(self).slot(*key) is None,
            },
            forall|m: Metric| m != *key ==> final(self).slot(m) == old(self).slot(m),
    {
        match key {
            Metric::Dns => if let Some(h) = &mut self.dns {
                h.clear()
            },
            Metric::Connection => if let Some(h) = &mut self.connection {
                h.clear()
            },
            Metric::Tls => if let Some(h) = &mut self.tls {
                h.clear()
            },
            Metric::Headers => if let Some(h) = &mut self.headers {
                h.clear()
            },
            Metric::FullResponse => if let Some(h) = &mut self.full_response {
                h.clear()
            },
            Metric::HeaderLen => if let Some(h) = &mut self.header_len {
                h.clear()
            },
            Metric::BodyLen => if let Some(h) = &mut self.body_len {
                h.clear()
            },
        }
        proof {
            assert forall|m: Metric| #![trigger self.slot(m)] (self.slot(m) matches Some(x)
                ==> x.wf()) by {
                if m != *key {
                    assert(self.slot(m) == old(self).slot(m));
                }
            }
        }
    }

    /// Get a copy of the histogram for the given key, if it exists.
    pub fn get(&self, key: &Metric) -> (r: Option<Histo>)
        ensures
            match self.slot(*key) {
                Some(h) => r matches Some(h2) && h2.entries_spec() == h.entries_spec()
                    && h2.total_spec() == h.total_spec(),
                None => r is None,
            },
    {
        match key {
            Metric::Dns => match &self.dns {
                Some(h) => Some(h.clone()),
                None => None,
            },
            Metric::Connection => match &self.connection {
                Some(h) => Some(h.clone()),
                None => None,
            },
            Metric::Tls => match &self.tls {
                Some(h) => Some(h.clone()),
                None => None,
            },
            Metric::Headers => match &self.headers {
                Some(h) => Some(h.clone()),
                None => None,
            },
            Metric::FullResponse => match &self.full_response {
                Some(h) => Some(h.clone()),
                None => None,
            },
            Metric::HeaderLen => match &self.header_len {
                Some(h) => Some(h.clone()),
                None => None,
            },
            Metric::BodyLen => match &self.body_len {
                Some(h) => Some(h.clone()),
                None => None,
            },
        }
    }

    /// Get the value at the given quantile, expressed in tenths of a
    /// percent, for the given key, if it exists.
    pub fn quantile(&self, key: &Metric, tenths: u64) -> (r: Option<u64>)
        requires
            histograms_wf(self),
        ensures
            match self.slot(*key) {
                Some(h) => r == Some(h.percentile_spec(tenths)),
                None => r is None,
            },
    {
        let h = self.get(key);
        match h {
            Some(h) => Some(h.value_at_tenths(tenths)),
            None => None,
        }
    }

    /// Remove (and unregister) the histogram with the given key
    pub fn remove(&mut self, key: &Metric)
        requires
            histograms_wf(old(self)),
        ensures
            histograms_wf(final(self)),
            final(self).slot(*key) is None,
            forall|m: Metric| m != *key ==> final(self).slot(m) == old(self).slot(m),
    {
        match key {
            Metric::Dns => self.dns = None,
            Metric::Connection => self.connection = None,
            Metric::Tls => self.tls = None,
            Metric::Headers => self.headers = None,
            Metric::FullResponse => self.full_response = None,
            Metric::HeaderLen => self.header_len = None,
            Metric::BodyLen => self.body_len = None,
        }
        proof {
            assert forall|m: Metric| #![trigger self.slot(m)] (self.slot(m) matches Some(x)
                ==> x.wf()) by {
                if m != *key {
                    assert(self.slot(m) == old(self).slot(m));
                }
            }
        }
    }
}

impl Default for Histograms {
    fn default() -> (r: Self)
        ensures
            forall|m: Metric| r.slot(m) is None,
            histograms_wf(&r),
    {
        Histograms::new()
    }
}

proof fn lemma_wf_drop_first(s: Seq<(u64, u64)>)
    requires
        entries_wf(s),
        s.len() > 0,
    ensures
        entries_wf(s.drop_first()),
{
    assert forall|i: int, j: int| 0 <= i < j < s.drop_first().len() implies (#[trigger] s.drop_first()[i]).0
        < (#[trigger] s.drop_first()[j]).0 by {
        assert(s.drop_first()[i] == s[i + 1]);
        assert(s.drop_first()[j] == s[j + 1]);
    }
    assert forall|i: int| 0 <= i < s.drop_first().len() implies (#[trigger] s.drop_first()[i]).1
        >= 1 && 1 <= s.drop_first()[i].0 <= HIGHEST_TRACKABLE by {
        assert(s.drop_first()[i] == s[i + 1]);
    }
}

proof fn lemma_count_nonneg(s: Seq<(u64, u64)>, v: u64)
    ensures
        count_in(s, v) >= 0,
    decreases s.len(),
{
    if s.len() > 0 {
        lemma_count_nonneg(s.drop_first(), v);
    }
}

proof fn lemma_count_pos_exists(s: Seq<(u64, u64)>, v: u64)
    requires
        count_in(s, v) > 0,
    ensures
        exists|i: int| 0 <= i < s.len() && (#[trigger] s[i]).0 == v,
    decreases s.len(),
{
    if s.len() > 0 {
        if s[0].0 == v {
            assert(0 <= 0 < s.len() && s[0].0 == v);
        } else {
            lemma_count_pos_exists(s.drop_first(), v);
            let i = choose|i: int| 0 <= i < s.drop_first().len() && (#[trigger] s.drop_first()[i]).0
                == v;
            assert(s[i + 1] == s.drop_first()[i]);
        }
    }
}

proof fn lemma_count_at_index(s: Seq<(u64, u64)>, i: int)
    requires
        0 <= i < s.len(),
    ensures
        count_in(s, s[i].0) >= s[i].1,
    decreases i,
{
    if i == 0 {
        lemma_count_nonneg(s.drop_first(), s[0].0);
    } else {
        lemma_count_at_index(s.drop_first(), i - 1);
        lemma_count_nonneg(s, s[i].0);
        assert(s.drop_first()[i - 1] == s[i]);
    }
}

/// The value picked for any rank lies between the first and the last
/// entry of a sorted, non-empty list.
proof fn lemma_value_at_rank_bounds(s: Seq<(u64, u64)>, r: int)
    requires
        entries_wf(s),
        s.len() > 0,
    ensures
        s[0].0 <= value_at_rank(s, r) <= s[s.len() - 1].0,
    decreases s.len(),
{
    if s.len() == 1 {
    } else if r <= s[0].1 {
    } else {
        lemma_wf_drop_first(s);
        lemma_value_at_rank_bounds(s.drop_first(), r - s[0].1);
        assert(s.drop_first()[0] == s[1]);
        assert(s.drop_first()[s.len() - 2] == s[s.len() - 1]);
    }
}

/// Picking a higher rank never yields a smaller value.
proof fn lemma_value_at_rank_mono(s: Seq<(u64, u64)>, r1: int, r2: int)
    requires
        entries_wf(s),
        r1 <= r2,
    ensures
        value_at_rank(s, r1) <= value_at_rank(s, r2),
    decreases s.len(),
{
    if s.len() <= 1 {
    } else if r2 <= s[0].1 {
    } else if r1 <= s[0].1 {
        lemma_wf_drop_first(s);
        lemma_value_at_rank_bounds(s.drop_first(), r2 - s[0].1);
        assert(s.drop_first()[0] == s[1]);
    } else {
        lemma_wf_drop_first(s);
        lemma_value_at_rank_mono(s.drop_first(), r1 - s[0].1, r2 - s[0].1);
    }
}

impl Histo {
    /// Every value held by a well-formed histogram lies in
    /// `[1, HIGHEST_TRACKABLE]`: recording clamps what falls outside.
    pub proof fn lemma_values_in_range(&self, v: u64)
        requires
            self.wf(),
            self.count_of(v) > 0,
        ensures
            1 <= v <= HIGHEST_TRACKABLE,
    {
        lemma_count_pos_exists(self.entries_spec(), v);
    }

    /// The smallest and largest recorded values bound every recorded
    /// value, and are themselves recorded (when anything is).
    pub proof fn lemma_min_max(&self)
        requires
            self.wf(),
        ensures
            self.is_empty_spec() ==> self.min_spec() == 0 && self.max_spec() == 0
                && self.total_spec() == 0,
            !self.is_empty_spec() ==> self.count_of(self.min_spec()) > 0 && self.count_of(
                self.max_spec(),
            ) > 0,
            forall|v: u64|
                #[trigger] self.count_of(v) > 0 ==> self.min_spec() <= v <= self.max_spec(),
    {
        let s = self.entries_spec();
        if s.len() > 0 {
            lemma_count_at_index(s, 0);
            lemma_count_at_index(s, s.len() - 1);
            assert forall|v: u64| #[trigger] self.count_of(v) > 0 implies self.min_spec() <= v
                <= self.max_spec() by {
                lemma_count_pos_exists(s, v);
            }
        } else {
            assert forall|v: u64| #[trigger] self.count_of(v) > 0 implies self.min_spec() <= v
                <= self.max_spec() by {
                lemma_count_nonneg(s, v);
            }
        }
    }

    /// Every percentile of a non-empty histogram lies between its
    /// smallest and largest recorded value.
    pub proof fn lemma_percentile_bounds(&self, tenths: u64)
        requires
            self.wf(),
            !self.is_empty_spec(),
        ensures
            self.min_spec() <= self.percentile_spec(tenths) <= self.max_spec(),
    {
        lemma_value_at_rank_bounds(
            self.entries_spec(),
            rank_for(self.total_spec() as int, tenths as int),
        );
    }

    /// Percentile values are non-decreasing in the percentile asked
    /// for.
    pub proof fn lemma_percentile_monotone(&self, t1: u64, t2: u64)
        requires
            self.wf(),
            t1 <= t2,
        ensures
            self.percentile_spec(t1) <= self.percentile_spec(t2),
    {
        let total = self.total_spec() as int;
        if total != 0 {
            assert(total * t1 <= total * t2) by {
                vstd::arithmetic::mul::lemma_mul_inequality(t1 as int, t2 as int, total);
                vstd::arithmetic::mul::lemma_mul_is_commutative(total, t1 as int);
                vstd::arithmetic::mul::lemma_mul_is_commutative(total, t2 as int);
            }
            vstd::arithmetic::div_mod::lemma_div_is_ordered(
                total * t1 + 999,
                total * t2 + 999,
                1000,
            );
        }
        lemma_value_at_rank_mono(
            self.entries_spec(),
            rank_for(total, t1 as int),
            rank_for(total, t2 as int),
        );
    }
}

/// What one call of `record_n(value, n)` does: the clamped value gains
/// as many recordings as fit below the saturation ceiling, every other
/// value keeps its count.
pub open spec fn recorded(h1: Histo, h2: Histo, value: u64, n: u64) -> bool {
    let v = clamp_spec(value);
    let add: int = if n <= u64::MAX - h1.total_spec() {
        n as int
    } else {
        u64::MAX - h1.total_spec()
    };
    &&& h2.total_spec() == h1.total_spec() + add
    &&& h2.count_of(v) == h1.count_of(v) + add
    &&& forall|w: u64| w != v ==> h2.count_of(w) == h1.count_of(w)
}

pub proof fn lemma_sum_nonneg(s: Seq<(u64, u64)>)
    ensures
        sum_counts(s) >= 0,
    decreases s.len(),
{
    if s.len() > 0 {
        lemma_sum_nonneg(s.drop_first());
    }
}

pub proof fn lemma_entry_le_sum(s: Seq<(u64, u64)>, i: int)
    requires
        0 <= i < s.len(),
    ensures
        s[i].1 <= sum_counts(s),
    decreases i,
{
    if i == 0 {
        lemma_sum_nonneg(s.drop_first());
    } else {
        lemma_entry_le_sum(s.drop_first(), i - 1);
    }
}

proof fn lemma_sum_update(s: Seq<(u64, u64)>, i: int, p: (u64, u64))
    requires
        0 <= i < s.len(),
    ensures
        sum_counts(s.update(i, p)) == sum_counts(s) - s[i].1 + p.1,
    decreases i,
{
    if i == 0 {
        assert(s.update(0, p).drop_first() =~= s.drop_first());
    } else {
        lemma_sum_update(s.drop_first(), i - 1, p);
        assert(s.update(i, p).drop_first() =~= s.drop_first().update(i - 1, p));
    }
}

proof fn lemma_sum_insert(s: Seq<(u64, u64)>, i: int, p: (u64, u64))
    requires
        0 <= i <= s.len(),
    ensures
        sum_counts(s.insert(i, p)) == sum_counts(s) + p.1,
    decreases i,
{
    if i == 0 {
        assert(s.insert(0, p).drop_first() =~= s);
    } else {
        lemma_sum_insert(s.drop_first(), i - 1, p);
        assert(s.insert(i, p).drop_first() =~= s.drop_first().insert(i - 1, p));
    }
}

proof fn lemma_count_update(s: Seq<(u64, u64)>, i: int, p: (u64, u64))
    requires
        0 <= i < s.len(),
    ensures
        forall|v: u64|
            count_in(s.update(i, p), v) == count_in(s, v) - (if s[i].0 == v {
                s[i].1 as int
            } else {
                0
            }) + (if p.0 == v {
                p.1 as int
            } else {
                0
            }),
    decreases i,
{
    if i == 0 {
        assert(s.update(0, p).drop_first() =~= s.drop_first());
    } else {
        lemma_count_update(s.drop_first(), i - 1, p);
        assert(s.update(i, p).drop_first() =~= s.drop_first().update(i - 1, p));
        assert forall|v: u64|
            count_in(s.update(i, p), v) == count_in(s, v) - (if s[i].0 == v {
                s[i].1 as int
            } else {
                0
            }) + (if p.0 == v {
                p.1 as int
            } else {
                0
            }) by {
            assert(count_in(s.update(i, p), v) == (if s[0].0 == v {
                s[0].1 as int
            } else {
                0
            }) + count_in(s.drop_first().update(i - 1, p), v));
        }
    }
}

proof fn lemma_count_insert(s: Seq<(u64, u64)>, i: int, p: (u64, u64))
    requires
        0 <= i <= s.len(),
    ensures
        forall|v: u64|
            count_in(s.insert(i, p), v) == count_in(s, v) + (if p.0 == v {
                p.1 as int
            } else {
                0
            }),
    decreases i,
{
    if i == 0 {
        assert(s.insert(0, p).drop_first() =~= s);
    } else {
        lemma_count_insert(s.drop_first(), i - 1, p);
        assert(s.insert(i, p).drop_first() =~= s.drop_first().insert(i - 1, p));
        assert forall|v: u64|
            count_in(s.insert(i, p), v) == count_in(s, v) + (if p.0 == v {
                p.1 as int
            } else {
                0
            }) by {
            assert(count_in(s.insert(i, p), v) == (if s[0].0 == v {
                s[0].1 as int
            } else {
                0
            }) + count_in(s.drop_first().insert(i - 1, p), v));
        }
    }
}

} // verus!
