use vstd::prelude::*;

verus! {

/// A span of time, kept as whole seconds plus a sub-second remainder in
/// nanoseconds.  All durations handled by this crate are values of this
/// type; the metrics themselves store microseconds (`u64`), and the two
/// conversions below move between the representations.
#[derive(Debug, Clone, Copy, PartialEq, Eq, Structural)]
pub struct Dur {
    pub secs: u64,
    pub nanos: u32,
}

pub const NANOS_PER_SEC: u32 = 1_000_000_000;

pub const MICROS_PER_SEC: u64 = 1_000_000;

impl Dur {
    /// A well-formed duration keeps its sub-second part below one second.
    pub open spec fn wf(self) -> bool {
        self.nanos < NANOS_PER_SEC
    }

    /// The duration in microseconds, saturating at `u64::MAX`.
    pub open spec fn micros(self) -> u64 {
        let m = self.secs * (MICROS_PER_SEC as int) + self.nanos as int / 1000;
        if m > u64::MAX {
            u64::MAX
        } else {
            m as u64
        }
    }

    /// True when converting to whole microseconds loses nothing: the
    /// nanosecond remainder is a whole number of microseconds and the
    /// total does not saturate.
    pub open spec fn micros_exact(self) -> bool {
        &&& self.nanos % 1000 == 0
        &&& self.secs * (MICROS_PER_SEC as int) + self.nanos as int / 1000 <= u64::MAX
    }

    pub fn from_micros(v: u64) -> (r: Dur)
        ensures
            r.wf(),
            r.micros() == v,
            r.secs == v / MICROS_PER_SEC,
            r.nanos == (v % MICROS_PER_SEC) * 1000,
    {
        u64_to_dur(v)
    }

    pub fn is_zero(&self) -> (r: bool)
        ensures
            r == (self.secs == 0 && self.nanos == 0),
    {
        self.secs == 0 && self.nanos == 0
    }

    /// The difference of two durations, zero when `other` is larger.
    pub open spec fn sat_sub_spec(self, other: Dur) -> Dur {
        if self.secs > other.secs || (self.secs == other.secs && self.nanos >= other.nanos) {
            if self.nanos >= other.nanos {
                Dur { secs: (self.secs - other.secs) as u64, nanos: (self.nanos - other.nanos) as u32 }
            } else {
                Dur {
                    secs: (self.secs - other.secs - 1) as u64,
                    nanos: ((NANOS_PER_SEC - other.nanos) + self.nanos) as u32,
                }
            }
        } else {
            Dur { secs: 0, nanos: 0 }
        }
    }

    /// The difference of two durations, zero when `other` is larger.
    pub fn saturating_sub(self, other: Dur) -> (r: Dur)
        requires
            self.wf(),
            other.wf(),
        ensures
            r == self.sat_sub_spec(other),
            r.wf(),
            self.total_nanos() >= other.total_nanos() ==> r.total_nanos() == self.total_nanos()
                - other.total_nanos(),
            self.total_nanos() < other.total_nanos() ==> r.total_nanos() == 0,
    {
        if self.secs > other.secs || (self.secs == other.secs && self.nanos >= other.nanos) {
            if self.nanos >= other.nanos {
                Dur { secs: self.secs - other.secs, nanos: self.nanos - other.nanos }
            } else {
                Dur {
                    secs: self.secs - other.secs - 1,
                    nanos: (NANOS_PER_SEC - other.nanos) + self.nanos,
                }
            }
        } else {
            Dur { secs: 0, nanos: 0 }
        }
    }

    /// The whole duration in nanoseconds, as a mathematical integer.
    pub open spec fn total_nanos(self) -> int {
        self.secs * (NANOS_PER_SEC as int) + self.nanos
    }
}

/// The duration that `v` microseconds convert to.
pub open spec fn dur_of_micros(v: u64) -> Dur {
    Dur { secs: (v / MICROS_PER_SEC) as u64, nanos: ((v % MICROS_PER_SEC) * 1000) as u32 }
}

/// The duration a microsecond count converts to is well-formed and
/// converts back to the same count.
pub proof fn lemma_dur_of_micros_value(v: u64)
    ensures
        dur_of_micros(v).wf(),
        dur_of_micros(v).micros() == v,
        dur_of_micros(v).micros_exact(),
{
    vstd::arithmetic::div_mod::lemma_fundamental_div_mod(v as int, MICROS_PER_SEC as int);
}

/// Convert a duration to microseconds.  Saturates at `u64::MAX`.
pub fn dur_to_u64(d: Dur) -> (r: u64)
    ensures
        r == d.micros(),
{
    let sub: u64 = (d.nanos / 1000) as u64;
    match d.secs.checked_mul(MICROS_PER_SEC) {
        Some(s) => s.saturating_add(sub),
        None => u64::MAX,
    }
}

/// Convert microseconds to a duration.
pub fn u64_to_dur(v: u64) -> (r: Dur)
    ensures
        r == dur_of_micros(v),
        r.wf(),
        r.secs == v / MICROS_PER_SEC,
        r.nanos == (v % MICROS_PER_SEC) * 1000,
        r.micros() == v,
        r.micros_exact(),
{
    let secs: u64 = v / MICROS_PER_SEC;
    let rem: u64 = v % MICROS_PER_SEC;
    let nanos: u32 = (rem * 1000) as u32;
    let r = Dur { secs, nanos };
    proof {
        vstd::arithmetic::div_mod::lemma_fundamental_div_mod(v as int, MICROS_PER_SEC as int);
        assert(r.secs * (MICROS_PER_SEC as int) + r.nanos as int / 1000 == v);
    }
    r
}

/// A duration that is representable in whole microseconds comes back
/// unchanged from a round trip through its microsecond value.
pub proof fn lemma_micros_round_trip(d: Dur)
    requires
        d.wf(),
        d.micros_exact(),
    ensures
        dur_of_micros(d.micros()) == d,
        ({
            let v = d.micros();
            v / MICROS_PER_SEC == d.secs && (v % MICROS_PER_SEC) * 1000 == d.nanos
        }),
{
    let v = d.micros() as int;
    let q = d.nanos as int / 1000;
    assert(d.nanos as int == q * 1000);
    assert(q < MICROS_PER_SEC as int);
    assert(v == d.secs * (MICROS_PER_SEC as int) + q);
    vstd::arithmetic::div_mod::lemma_fundamental_div_mod_converse(
        v,
        MICROS_PER_SEC as int,
        d.secs as int,
        q,
    );
}

} // verus!
