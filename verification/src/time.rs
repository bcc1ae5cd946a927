//! Points in time and spans of time, counted in nanoseconds.
//!
//! An `Instant` counts from an arbitrary origin fixed by whoever reads the clock;
//! only differences between instants carry meaning.
use vstd::prelude::*;

verus! {

/// A span of time: whole seconds and the nanoseconds past them.
#[derive(Clone, Copy, Debug, PartialEq, Eq)]
pub struct Duration {
    secs: u64,
    nanos: u32,
}

/// A point in time.
#[derive(Clone, Copy, Debug, PartialEq, Eq)]
pub struct Instant {
    nanos: u64,
}

impl View for Duration {
    type V = nat;

    /// The length of the span in nanoseconds.
    closed spec fn view(&self) -> nat {
        (self.secs * 1_000_000_000 + self.nanos) as nat
    }
}

/// The longest span, in nanoseconds: `u64::MAX` seconds and 999,999,999
/// nanoseconds.
pub open spec fn max_duration_nanos() -> nat {
    u64::MAX as nat * 1_000_000_000 + 999_999_999
}

impl View for Instant {
    type V = nat;

    /// Nanoseconds since the clock's origin.
    closed spec fn view(&self) -> nat {
        self.nanos as nat
    }
}

/// Nanoseconds from `earlier` to `later`, or zero when `later` is not after it.
pub open spec fn nanos_between(earlier: nat, later: nat) -> nat {
    if later >= earlier {
        (later - earlier) as nat
    } else {
        0
    }
}

impl Duration {
    /// The nanoseconds past the whole seconds are fewer than a second.
    #[verifier::type_invariant]
    spec fn subsec_in_range(&self) -> bool {
        self.nanos < 1_000_000_000
    }

    /// The span of `n` nanoseconds, for `n` no longer than the longest span.
    fn from_total_nanos(n: u128) -> (d: Duration)
        requires
            n <= max_duration_nanos(),
        ensures
            d@ == n,
    {
        let secs = n / 1_000_000_000;
        let rest = n % 1_000_000_000;
        assert(secs <= u64::MAX) by (nonlinear_arith)
            requires
                n <= max_duration_nanos(),
                secs == n / 1_000_000_000,
        ;
        Duration { secs: secs as u64, nanos: rest as u32 }
    }

    /// `nanos` nanoseconds.
    pub fn from_nanos(nanos: u64) -> (d: Duration)
        ensures
            d@ == nanos,
    {
        Duration { secs: nanos / 1_000_000_000, nanos: (nanos % 1_000_000_000) as u32 }
    }

    /// `millis` milliseconds.
    pub fn from_millis(millis: u64) -> (d: Duration)
        ensures
            d@ == millis * 1_000_000,
    {
        Duration { secs: millis / 1000, nanos: ((millis % 1000) * 1_000_000) as u32 }
    }

    /// `secs` seconds.
    pub fn from_secs(secs: u64) -> (d: Duration)
        ensures
            d@ == secs * 1_000_000_000,
    {
        Duration { secs, nanos: 0 }
    }

    /// The zero span.
    pub fn zero() -> (d: Duration)
        ensures
            d@ == 0,
    {
        Duration { secs: 0, nanos: 0 }
    }

    /// The longest span.
    pub fn max_value() -> (d: Duration)
        ensures
            d@ == max_duration_nanos(),
    {
        Duration { secs: u64::MAX, nanos: 999_999_999 }
    }

    /// The length in nanoseconds.
    pub fn as_nanos(&self) -> (n: u128)
        ensures
            n == self@,
            n <= max_duration_nanos(),
    {
        proof {
            use_type_invariant(self);
        }
        (self.secs as u128) * 1_000_000_000 + (self.nanos as u128)
    }

    /// `self * factor`, or the longest span when that is longer.
    pub fn saturating_mul(&self, factor: u32) -> (d: Duration)
        ensures
            d@ == if self@ * factor <= max_duration_nanos() { self@ * factor } else { max_duration_nanos() as int },
    {
        let n = self.as_nanos();
        assert(n * (factor as u128) <= u128::MAX) by (nonlinear_arith)
            requires
                n <= max_duration_nanos(),
                factor <= u32::MAX,
        ;
        let total = n * (factor as u128);
        if total <= u64::MAX as u128 * 1_000_000_000 + 999_999_999 {
            Duration::from_total_nanos(total)
        } else {
            Duration::max_value()
        }
    }

    /// Whether `self` is longer than `other`.
    pub fn longer_than(&self, other: &Duration) -> (r: bool)
        ensures
            r == (self@ > other@),
    {
        self.as_nanos() > other.as_nanos()
    }

    /// Whether `self` is shorter than `other`.
    pub fn shorter_than(&self, other: &Duration) -> (r: bool)
        ensures
            r == (self@ < other@),
    {
        self.as_nanos() < other.as_nanos()
    }
}

impl Instant {
    /// The instant `nanos` nanoseconds after the clock's origin.
    pub fn from_nanos(nanos: u64) -> (t: Instant)
        ensures
            t@ == nanos,
    {
        Instant { nanos }
    }

    /// Nanoseconds since the clock's origin.
    pub fn as_nanos(&self) -> (n: u64)
        ensures
            n == self@,
    {
        self.nanos
    }

    /// The time from `earlier` to `self`, or zero when `earlier` is later.
    pub fn saturating_duration_since(&self, earlier: Instant) -> (d: Duration)
        ensures
            d@ == nanos_between(earlier@, self@),
    {
        if self.nanos >= earlier.nanos {
            Duration::from_nanos(self.nanos - earlier.nanos)
        } else {
            Duration::zero()
        }
    }

    /// `self + d`, when the sum can be represented.
    pub fn checked_add(&self, d: Duration) -> (t: Option<Instant>)
        ensures
            match t {
                Some(t) => self@ + d@ <= u64::MAX && t@ == self@ + d@,
                None => self@ + d@ > u64::MAX,
            },
    {
        let total = (self.nanos as u128) + d.as_nanos();
        if total <= u64::MAX as u128 {
            Some(Instant { nanos: total as u64 })
        } else {
            None
        }
    }
}

} // verus!
