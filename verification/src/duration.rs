//! A span of time, as whole seconds and a sub-second nanosecond part.
use vstd::prelude::*;

verus! {

/// A span of time. It holds what `std::time::Duration` holds — whole
/// seconds and the nanoseconds below one second — as plain integers, and
/// orders spans the way `std::time::Duration` does.
#[derive(Debug, Clone, Copy, PartialEq, Eq, Structural, PartialOrd, Ord, Hash)]
pub struct Duration {
    secs: u64,
    nanos: u32,
}

/// One second in nanoseconds.
pub const NANOS_PER_SEC: u32 = 1_000_000_000;

impl Duration {
    /// The span's length in nanoseconds.
    pub open spec fn total_nanos(self) -> int {
        self.secs_part() as int * 1_000_000_000 + self.nanos_part() as int
    }

    pub closed spec fn secs_part(self) -> u64 {
        self.secs
    }

    pub closed spec fn nanos_part(self) -> u32 {
        self.nanos
    }

    #[verifier::type_invariant]
    spec fn nanos_below_one_second(self) -> bool {
        self.nanos < NANOS_PER_SEC
    }

    /// A span of zero length.
    pub fn zero() -> (r: Duration)
        ensures
            r.total_nanos() == 0,
            r.secs_part() == 0 && r.nanos_part() == 0,
    {
        Duration { secs: 0, nanos: 0 }
    }

    /// `secs` whole seconds.
    pub fn from_secs(secs: u64) -> (r: Duration)
        ensures
            r.secs_part() == secs && r.nanos_part() == 0,
            r.total_nanos() == secs * 1_000_000_000,
    {
        Duration { secs, nanos: 0 }
    }

    /// `millis` milliseconds.
    pub fn from_millis(millis: u64) -> (r: Duration)
        ensures
            r.secs_part() == millis / 1000,
            r.nanos_part() == (millis % 1000) * 1_000_000,
            r.total_nanos() == millis * 1_000_000,
    {
        let secs = millis / 1000;
        let nanos = ((millis % 1000) as u32) * 1_000_000;
        assert(millis == (millis / 1000) * 1000 + millis % 1000);
        Duration { secs, nanos }
    }

    /// `secs` seconds and `nanos` nanoseconds, with whole seconds in
    /// `nanos` carried into the seconds. `None` where the seconds overflow.
    pub fn new(secs: u64, nanos: u32) -> (r: Option<Duration>)
        ensures
            match r {
                Some(d) => d.total_nanos() == secs * 1_000_000_000 + nanos
                    && d.nanos_part() < 1_000_000_000,
                None => secs + nanos / 1_000_000_000 > u64::MAX,
            },
    {
        let extra = (nanos / NANOS_PER_SEC) as u64;
        if secs > u64::MAX - extra {
            return None;
        }
        let rest = nanos % NANOS_PER_SEC;
        assert(nanos == (nanos / 1_000_000_000) * 1_000_000_000 + nanos % 1_000_000_000);
        Some(Duration { secs: secs + extra, nanos: rest })
    }

    /// Whole seconds.
    pub fn as_secs(&self) -> (r: u64)
        ensures
            r == self.secs_part(),
    {
        self.secs
    }

    /// Nanoseconds below one second.
    pub fn subsec_nanos(&self) -> (r: u32)
        ensures
            r == self.nanos_part(),
            r < 1_000_000_000,
    {
        proof { use_type_invariant(self); }
        self.nanos
    }

    /// The length in nanoseconds.
    pub fn as_nanos(&self) -> (r: u128)
        ensures
            r == self.total_nanos(),
    {
        (self.secs as u128) * 1_000_000_000 + (self.nanos as u128)
    }

    /// `self` and `other` are spans of the same length.
    pub fn same_span(&self, other: &Duration) -> (r: bool)
        ensures
            r == (self.total_nanos() == other.total_nanos()),
    {
        proof {
            use_type_invariant(self);
            use_type_invariant(other);
            if self.total_nanos() == other.total_nanos() {
                lemma_split_unique(self.secs as int, self.nanos as int, other.secs as int, other.nanos as int);
            }
        }
        self.secs == other.secs && self.nanos == other.nanos
    }

    /// `self` is shorter than `other`.
    pub fn shorter_than(&self, other: &Duration) -> (r: bool)
        ensures
            r == (self.total_nanos() < other.total_nanos()),
    {
        proof {
            use_type_invariant(self);
            use_type_invariant(other);
        }
        self.secs < other.secs || (self.secs == other.secs && self.nanos < other.nanos)
    }

    /// The text `format!("{:?}", d)` gives for the matching std duration.
    pub fn debug_text(&self) -> (r: String)
        ensures
            r@ == duration_debug_text(self.secs_part(), self.nanos_part()),
    {
        proof { use_type_invariant(self); }
        std_duration_debug(self.secs, self.nanos)
    }
}

proof fn lemma_split_unique(s1: int, n1: int, s2: int, n2: int)
    requires
        0 <= n1 < 1_000_000_000,
        0 <= n2 < 1_000_000_000,
        s1 >= 0,
        s2 >= 0,
        s1 * 1_000_000_000 + n1 == s2 * 1_000_000_000 + n2,
    ensures
        s1 == s2 && n1 == n2,
{
    if s1 < s2 {
        assert(s1 * 1_000_000_000 + 1_000_000_000 <= s2 * 1_000_000_000) by (nonlinear_arith)
            requires s1 < s2;
    } else if s2 < s1 {
        assert(s2 * 1_000_000_000 + 1_000_000_000 <= s1 * 1_000_000_000) by (nonlinear_arith)
            requires s2 < s1;
    }
}

/// What `format!("{:?}", std::time::Duration::new(secs, nanos))` yields.
pub uninterp spec fn duration_debug_text(secs: u64, nanos: u32) -> Seq<char>;

/// Formats the std duration of `secs` seconds and `nanos` nanoseconds with
/// its `Debug` implementation (`"5s"`, `"1.5s"`, `"500ms"`, ...).
#[verifier::external_body]
fn std_duration_debug(secs: u64, nanos: u32) -> (r: String)
    requires
        nanos < 1_000_000_000,
    ensures
        r@ == duration_debug_text(secs, nanos),
{
    format!("{:?}", std::time::Duration::new(secs, nanos))
}

}
