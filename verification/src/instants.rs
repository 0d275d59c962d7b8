//! Spans of time and UTC instants, at nanosecond precision.
//!
//! A [`Duration`] is a non-negative span; a [`Timestamp`] is a UTC instant inside
//! the range the calendar library represents. Both are plain values, so the
//! scheduling rules that compare, clamp, and add them can be stated exactly.
use vstd::prelude::*;

verus! {

/// Nanoseconds in one second.
pub const NANOS_PER_SEC: u128 = 1_000_000_000;

/// The longest span: `u64::MAX` seconds and 999,999,999 nanoseconds.
pub const MAX_SPAN_NANOS: u128 = 18_446_744_073_709_551_615_999_999_999;

/// A non-negative span of time.
#[derive(Clone, Copy, Debug, PartialEq, Eq, Structural, PartialOrd, Ord, Hash)]
pub struct Duration {
    nanos: u128,
}

impl Duration {
    #[verifier::type_invariant]
    spec fn representable(self) -> bool {
        self.nanos <= MAX_SPAN_NANOS
    }

    /// The span in nanoseconds.
    pub closed spec fn nanos(self) -> nat {
        self.nanos as nat
    }

    /// The empty span.
    pub fn zero() -> (r: Duration)
        ensures
            r.nanos() == 0,
    {
        Duration { nanos: 0 }
    }

    /// A span of whole seconds.
    pub fn from_secs(secs: u64) -> (r: Duration)
        ensures
            r.nanos() == secs * NANOS_PER_SEC,
    {
        Duration { nanos: secs as u128 * NANOS_PER_SEC }
    }

    /// A span of whole milliseconds.
    pub fn from_millis(millis: u64) -> (r: Duration)
        ensures
            r.nanos() == millis * 1_000_000,
    {
        Duration { nanos: millis as u128 * 1_000_000 }
    }

    /// A span of nanoseconds.
    pub fn from_nanos(nanos: u64) -> (r: Duration)
        ensures
            r.nanos() == nanos,
    {
        Duration { nanos: nanos as u128 }
    }

    /// A span of seconds plus a fraction of a second; `None` when the fraction is
    /// a whole second or more.
    pub fn from_parts(secs: u64, subsec_nanos: u32) -> (r: Option<Duration>)
        ensures
            r is Some <==> subsec_nanos < NANOS_PER_SEC,
            r matches Some(d) ==> d.nanos() == secs * NANOS_PER_SEC + subsec_nanos,
    {
        if (subsec_nanos as u128) < NANOS_PER_SEC {
            Some(Duration { nanos: secs as u128 * NANOS_PER_SEC + subsec_nanos as u128 })
        } else {
            None
        }
    }

    /// The span in nanoseconds.
    pub fn as_nanos(&self) -> (r: u128)
        ensures
            r == self.nanos(),
            r <= MAX_SPAN_NANOS,
    {
        proof {
            use_type_invariant(self);
        }
        self.nanos
    }

    /// The whole seconds of the span.
    pub fn as_secs(&self) -> (r: u64)
        ensures
            r == self.nanos() / (NANOS_PER_SEC as nat),
    {
        proof {
            use_type_invariant(self);
        }
        (self.nanos / NANOS_PER_SEC) as u64
    }

    /// The nanoseconds beyond the whole seconds.
    pub fn subsec_nanos(&self) -> (r: u32)
        ensures
            r == self.nanos() % (NANOS_PER_SEC as nat),
            r < NANOS_PER_SEC,
    {
        (self.nanos % NANOS_PER_SEC) as u32
    }

    /// Whether the span is empty.
    pub fn is_zero(&self) -> (r: bool)
        ensures
            r == (self.nanos() == 0),
    {
        self.nanos == 0
    }

    /// Whether the span is strictly shorter than `other`.
    pub fn shorter_than(&self, other: &Duration) -> (r: bool)
        ensures
            r == (self.nanos() < other.nanos()),
    {
        self.nanos < other.nanos
    }

    /// The longer of two spans.
    pub fn longest(self, other: Duration) -> (r: Duration)
        ensures
            r == (if self.nanos() < other.nanos() {
                other
            } else {
                self
            }),
    {
        if self.nanos < other.nanos {
            other
        } else {
            self
        }
    }

    /// The shorter of two spans.
    pub fn shortest(self, other: Duration) -> (r: Duration)
        ensures
            r == (if other.nanos() < self.nanos() {
                other
            } else {
                self
            }),
    {
        if other.nanos < self.nanos {
            other
        } else {
            self
        }
    }

    /// Spans are equal exactly when they last equally long.
    pub proof fn equal_when_same_length(a: Duration, b: Duration)
        ensures
            a == b <==> a.nanos() == b.nanos(),
    {
    }
}

/// The first representable instant, in seconds since the Unix epoch.
pub const MIN_UNIX_SECS: i64 = -8_334_601_228_800;

/// The second that holds the last representable instant.
pub const MAX_UNIX_SECS: i64 = 8_210_266_876_799;

/// The largest fraction of a second, in nanoseconds.
pub const MAX_SUBSEC_NANOS: u32 = 999_999_999;

/// Whether seconds and nanoseconds since the Unix epoch name a representable
/// instant.
pub open spec fn representable_instant(secs: int, nanos: int) -> bool {
    &&& MIN_UNIX_SECS <= secs <= MAX_UNIX_SECS
    &&& 0 <= nanos <= MAX_SUBSEC_NANOS
}

/// Nanoseconds since the Unix epoch.
pub open spec fn unix_nanos(secs: int, nanos: int) -> int {
    secs * 1_000_000_000 + nanos
}

/// Nanoseconds since the Unix epoch of the last representable instant.
pub open spec fn last_instant() -> int {
    unix_nanos(MAX_UNIX_SECS as int, MAX_SUBSEC_NANOS as int)
}

/// A UTC instant.
#[derive(Clone, Copy, Debug, PartialEq, Eq, Structural, PartialOrd, Ord, Hash)]
pub struct Timestamp {
    secs: i64,
    nanos: u32,
}

impl Timestamp {
    #[verifier::type_invariant]
    spec fn representable(self) -> bool {
        representable_instant(self.secs as int, self.nanos as int)
    }

    /// Nanoseconds since the Unix epoch.
    pub closed spec fn nanos(self) -> int {
        unix_nanos(self.secs as int, self.nanos as int)
    }

    /// The instant that many nanoseconds after the Unix epoch.
    pub closed spec fn at(nanos: int) -> Timestamp {
        Timestamp { secs: (nanos / 1_000_000_000) as i64, nanos: (nanos % 1_000_000_000) as u32 }
    }

    /// The instant at `n` nanoseconds counts `n` nanoseconds, inside the calendar.
    pub proof fn at_counts_its_nanos(n: int)
        requires
            unix_nanos(MIN_UNIX_SECS as int, 0) <= n <= last_instant(),
        ensures
            Timestamp::at(n).nanos() == n,
    {
    }

    /// The instant `secs` seconds and `nanos` nanoseconds after the Unix epoch;
    /// `None` outside the representable range.
    pub fn from_unix(secs: i64, nanos: u32) -> (r: Option<Timestamp>)
        ensures
            r is Some <==> representable_instant(secs as int, nanos as int),
            r matches Some(t) ==> t.nanos() == unix_nanos(secs as int, nanos as int),
    {
        if MIN_UNIX_SECS <= secs && secs <= MAX_UNIX_SECS && nanos <= MAX_SUBSEC_NANOS {
            Some(Timestamp { secs, nanos })
        } else {
            None
        }
    }

    /// The last representable instant.
    pub fn last() -> (r: Timestamp)
        ensures
            r.nanos() == last_instant(),
    {
        Timestamp { secs: MAX_UNIX_SECS, nanos: MAX_SUBSEC_NANOS }
    }

    /// The seconds since the Unix epoch, rounded down, and the nanoseconds beyond.
    pub fn unix_parts(&self) -> (r: (i64, u32))
        ensures
            representable_instant(r.0 as int, r.1 as int),
            self.nanos() == unix_nanos(r.0 as int, r.1 as int),
    {
        proof {
            use_type_invariant(self);
        }
        (self.secs, self.nanos)
    }

    /// Whether this instant is strictly before `other`.
    pub fn before(&self, other: &Timestamp) -> (r: bool)
        ensures
            r == (self.nanos() < other.nanos()),
    {
        proof {
            use_type_invariant(self);
            use_type_invariant(other);
        }
        self.secs < other.secs || (self.secs == other.secs && self.nanos < other.nanos)
    }

    /// Whether the two instants are the same.
    pub fn same_as(&self, other: &Timestamp) -> (r: bool)
        ensures
            r == (*self == *other),
            r == (self.nanos() == other.nanos()),
    {
        proof {
            use_type_invariant(self);
            use_type_invariant(other);
        }
        self.secs == other.secs && self.nanos == other.nanos
    }

    /// How long after `earlier` this instant is; zero when it is not after it.
    pub fn since(&self, earlier: &Timestamp) -> (r: Duration)
        ensures
            r.nanos() == elapsed(earlier.nanos(), self.nanos()),
    {
        proof {
            use_type_invariant(self);
            use_type_invariant(earlier);
        }
        let a: i128 = self.secs as i128 * 1_000_000_000 + self.nanos as i128;
        let b: i128 = earlier.secs as i128 * 1_000_000_000 + earlier.nanos as i128;
        if a > b {
            Duration { nanos: (a - b) as u128 }
        } else {
            Duration { nanos: 0 }
        }
    }
}

/// The nanoseconds from `from` to `to`, or zero when `to` is not later.
pub open spec fn elapsed(from: int, to: int) -> nat {
    if to > from {
        (to - from) as nat
    } else {
        0
    }
}

/// The longest delta the calendar library adds, in nanoseconds: `i64::MAX`
/// milliseconds.
pub open spec fn longest_delta() -> nat {
    9_223_372_036_854_775_807_000_000
}

/// Converts a span for calendar arithmetic: `chrono::TimeDelta::from_std`.
///
/// It accepts every span of at most `i64::MAX` milliseconds and keeps its seconds
/// and nanoseconds; a longer span is refused.
#[verifier::external_body]
fn calendar_delta(secs: u64, nanos: u32) -> (r: Option<(i64, u32)>)
    requires
        nanos <= MAX_SUBSEC_NANOS,
    ensures
        r is Some <==> secs * 1_000_000_000 + nanos <= longest_delta(),
        r matches Some(d) ==> d.0 == secs && d.1 == nanos,
{
    chrono::TimeDelta::from_std(std::time::Duration::new(secs, nanos)).ok().map(
        |d| (d.num_seconds(), d.subsec_nanos() as u32),
    )
}

/// Adds a delta to a UTC instant: `chrono::DateTime::checked_add_signed`.
///
/// The sum is exact; it is refused when it lies past the last instant the calendar
/// represents.
#[verifier::external_body]
fn calendar_sum(secs: i64, nanos: u32, delta_secs: i64, delta_nanos: u32) -> (r: Option<(i64, u32)>)
    requires
        representable_instant(secs as int, nanos as int),
        0 <= delta_secs,
        delta_nanos <= MAX_SUBSEC_NANOS,
        delta_secs * 1_000_000_000 + delta_nanos <= longest_delta(),
    ensures
        r is Some <==> unix_nanos(secs as int, nanos as int) + delta_secs * 1_000_000_000
            + delta_nanos <= last_instant(),
        r matches Some(t) ==> representable_instant(t.0 as int, t.1 as int) && unix_nanos(
            t.0 as int,
            t.1 as int,
        ) == unix_nanos(secs as int, nanos as int) + delta_secs * 1_000_000_000 + delta_nanos,
{
    let start = chrono::DateTime::from_timestamp(secs, nanos).unwrap();
    let delta = chrono::TimeDelta::new(delta_secs, delta_nanos).unwrap();
    start.checked_add_signed(delta).map(|t| (t.timestamp(), t.timestamp_subsec_nanos()))
}

/// The instant reached `delta` nanoseconds after `now`, or the last instant when
/// that lies beyond the calendar.
pub open spec fn saturating_sum(now: int, delta: nat) -> int {
    if now + delta <= last_instant() {
        now + delta
    } else {
        last_instant()
    }
}

/// The instant `nanos` nanoseconds after `now`, saturating to the last instant.
pub open spec fn instant_after_nanos(now: Timestamp, nanos: nat) -> Timestamp {
    Timestamp::at(saturating_sum(now.nanos(), nanos))
}

/// The instant `delta` after `now`, saturating to the last instant.
pub open spec fn instant_after(now: Timestamp, delta: Duration) -> Timestamp {
    instant_after_nanos(now, delta.nanos())
}

/// Whether an instant is one the calendar represents.
pub open spec fn calendar_instant(at: Timestamp) -> bool {
    unix_nanos(MIN_UNIX_SECS as int, 0) <= at.nanos() <= last_instant()
}

/// Whether `later` lies exactly `delta` nanoseconds after `now`, or is the last instant
/// of the calendar where that lies beyond it.
pub open spec fn lies_after(later: Timestamp, now: Timestamp, delta: nat) -> bool {
    ||| later.nanos() - now.nanos() == delta
    ||| later.nanos() == last_instant() && last_instant() - now.nanos() < delta
}

/// Adding a span reaches the instant that lies it after.
pub(crate) proof fn lemma_lies_after(now: Timestamp, delta: nat)
    requires
        calendar_instant(now),
    ensures
        lies_after(instant_after_nanos(now, delta), now, delta),
        calendar_instant(instant_after_nanos(now, delta)),
{
    Timestamp::at_counts_its_nanos(saturating_sum(now.nanos(), delta));
}

/// Add a span to an instant, saturating to the far future on overflow.
///
/// An overflowing delay means "schedule effectively forever from now", so it lands
/// on the last representable instant rather than collapsing to `now`: collapsing
/// would make the job eligible again at once and spin a tight claim/pause cycle.
pub fn add_duration(now: Timestamp, delta: Duration) -> (r: Timestamp)
    ensures
        r.nanos() == saturating_sum(now.nanos(), delta.nanos()),
        r == instant_after(now, delta),
{
    proof {
        use_type_invariant(&now);
        use_type_invariant(&delta);
    }
    let secs = delta.as_secs();
    let nanos = delta.subsec_nanos();
    assert(delta.nanos() == secs * 1_000_000_000 + nanos);
    let r = match calendar_delta(secs, nanos) {
        Some((delta_secs, delta_nanos)) => {
            match calendar_sum(now.secs, now.nanos, delta_secs, delta_nanos) {
                Some((secs, nanos)) => Timestamp { secs, nanos },
                None => Timestamp::last(),
            }
        },
        None => Timestamp::last(),
    };
    proof {
        use_type_invariant(&r);
        assert(r.nanos() / 1_000_000_000 == r.secs);
        assert(r.nanos() % 1_000_000_000 == r.nanos);
    }
    r
}

/// Adding a span never moves an instant backward, whatever the span.
pub proof fn add_never_moves_backward(now: int, delta: nat)
    requires
        now <= last_instant(),
    ensures
        now <= saturating_sum(now, delta) <= last_instant(),
{
}

/// A longer span never lands on an earlier instant.
pub proof fn add_is_monotone(now: int, shorter: nat, longer: nat)
    requires
        shorter <= longer,
    ensures
        saturating_sum(now, shorter) <= saturating_sum(now, longer),
{
}

/// The span since an earlier instant, added to it, leads back.
pub proof fn since_measures_the_gap(earlier: Timestamp, later: Timestamp, gap: Duration)
    requires
        call_ensures(Timestamp::since, (&later, &earlier), gap),
    ensures
        earlier.nanos() <= later.nanos() ==> earlier.nanos() + gap.nanos() == later.nanos(),
        earlier.nanos() > later.nanos() ==> gap.nanos() == 0,
{
}

/// Adding a span reaches the instant that lies exactly so much later, or the last instant
/// of the calendar where there is none.
pub proof fn sums_lie_a_span_later(now: Timestamp, delta: Duration, later: Timestamp)
    requires
        call_ensures(add_duration, (now, delta), later),
    ensures
        lies_after(later, now, delta.nanos()),
        now.nanos() <= last_instant() ==> later.nanos() >= now.nanos(),
{
}

} // verus!
