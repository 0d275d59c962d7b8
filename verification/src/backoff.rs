//! Retry backoff: configuration, the Fibonacci curve, and deterministic jitter.
//!
//! A retryable failure is rescheduled after a delay derived from the attempt
//! number. [`Backoff`] holds the configurable base delay and ceiling; a task
//! returns one from [`crate::task::Task::backoff`] to widen or tighten its own
//! schedule relative to the worker default. The un-jittered delay follows the
//! Fibonacci curve `min(base * (fib(n) - 1), cap)`; the realized one is spread by
//! proportional jitter sampled deterministically from the job's ULID, so the
//! schedule is reproducible and depends on no random-number generator.
use crate::instants::Duration;
use vstd::prelude::*;

verus! {

/// The floor a [`Backoff`] base delay is clamped to, in milliseconds. A zero base
/// makes every computed delay zero (a tight retry loop straight to the backstop);
/// one millisecond keeps the curve meaningful.
pub const MIN_BASE_MILLIS: u64 = 1;

/// Per-task override of the retry backoff's base delay and ceiling.
///
/// The worker holds a default [`Backoff`]; a task may return its own from
/// [`crate::task::Task::backoff`]. The base scales the curve and the cap bounds
/// the longest delay.
#[derive(Debug, Clone, Copy, PartialEq, Eq, Structural)]
pub struct Backoff {
    base: Duration,
    cap: Duration,
}

impl Backoff {
    #[verifier::type_invariant]
    spec fn sane(self) -> bool {
        1_000_000 <= self.base.nanos() <= self.cap.nanos()
    }

    /// The base delay that scales the curve.
    pub closed spec fn base_delay(self) -> Duration {
        self.base
    }

    /// The hard ceiling on a single delay.
    pub closed spec fn ceiling(self) -> Duration {
        self.cap
    }

    /// A backoff with the given base delay and ceiling.
    ///
    /// `base` scales the per-attempt curve; `cap` is the hard upper bound on any
    /// single delay. Degenerate inputs are clamped: `base` is floored to 1ms (a
    /// zero base makes every delay zero), and `cap` is raised to at least `base`
    /// (a `cap` below `base` would otherwise clamp every delay to `cap`,
    /// inverting intent).
    pub fn new(base: Duration, cap: Duration) -> (r: Backoff)
        ensures
            r.base_delay().nanos() == (if base.nanos() < 1_000_000 {
                1_000_000
            } else {
                base.nanos()
            }),
            r.ceiling().nanos() == (if cap.nanos() < r.base_delay().nanos() {
                r.base_delay().nanos()
            } else {
                cap.nanos()
            }),
    {
        let base = base.longest(Duration::from_millis(MIN_BASE_MILLIS));
        let cap = cap.longest(base);
        Backoff { base, cap }
    }

    /// The base delay that scales the curve. It is never below 1ms.
    pub fn base(&self) -> (r: Duration)
        ensures
            r == self.base_delay(),
            r.nanos() >= 1_000_000,
    {
        proof {
            use_type_invariant(self);
        }
        self.base
    }

    /// The hard ceiling on a single delay. It is never below the base.
    pub fn cap(&self) -> (r: Duration)
        ensures
            r == self.ceiling(),
            r.nanos() >= self.base_delay().nanos(),
    {
        proof {
            use_type_invariant(self);
        }
        self.cap
    }

    /// Policies are equal exactly when their base delays and their ceilings last
    /// equally long.
    pub proof fn equal_when_same_delays(a: Backoff, b: Backoff)
        ensures
            a == b <==> a.base_delay().nanos() == b.base_delay().nanos() && a.ceiling().nanos()
                == b.ceiling().nanos(),
    {
        Duration::equal_when_same_length(a.base, b.base);
        Duration::equal_when_same_length(a.cap, b.cap);
    }
}

impl Default for Backoff {
    /// The worker-level default: a half-second base climbing to a two-minute cap.
    ///
    /// These are conservative starting points. With the Fibonacci curve the first
    /// two retries are immediate, then the delay grows `500ms, 1s, 2s, 3.5s, …`
    /// until it reaches the two-minute ceiling.
    fn default() -> (r: Backoff)
        ensures
            r.base_delay().nanos() == 500_000_000,
            r.ceiling().nanos() == 120_000_000_000,
    {
        Backoff { base: Duration::from_millis(500), cap: Duration::from_secs(120) }
    }
}

/// The Fibonacci numbers, with `fib(1) = fib(2) = 1`.
pub open spec fn fib(n: nat) -> nat
    decreases n,
{
    if n == 0 {
        0
    } else if n <= 2 {
        1
    } else {
        fib((n - 1) as nat) + fib((n - 2) as nat)
    }
}

/// The curve's multiplier: `fib(n) - 1`, saturating at `u64::MAX`, and zero for the
/// first two attempts.
pub open spec fn multiplier(n: nat) -> int {
    if n <= 2 {
        0
    } else if fib(n) - 1 <= u64::MAX {
        fib(n) - 1
    } else {
        u64::MAX as int
    }
}

proof fn lemma_fib_grows(n: nat)
    ensures
        n >= 1 ==> fib(n) >= 1,
        fib(n + 1) >= fib(n),
        n >= 2 ==> fib(n + 1) > fib(n),
    decreases n,
{
    if n >= 2 {
        lemma_fib_grows((n - 1) as nat);
    }
}

proof fn lemma_fib_never_falls(m: nat, n: nat)
    requires
        m <= n,
    ensures
        fib(m) <= fib(n),
    decreases n - m,
{
    if m < n {
        lemma_fib_grows(m);
        lemma_fib_never_falls(m + 1, n);
    }
}

/// `fib(n) - 1` with `fib(1) = fib(2) = 1`, saturating at `u64::MAX`.
///
/// The `- 1` makes the first two attempts return zero (immediate retry), and the
/// curve `0, 0, 1, 2, 4, 7, 12, …` climbs from there.
pub fn fib_minus_one(n: u32) -> (r: u64)
    ensures
        r == multiplier(n as nat),
{
    if n <= 2 {
        return 0;
    }
    let mut prev: u64 = 1;
    let mut curr: u64 = 1;
    let mut i: u32 = 2;
    while i < n
        invariant
            2 <= i <= n,
            n > 2,
            prev == fib((i - 1) as nat),
            curr == fib(i as nat),
        decreases n - i,
    {
        let next: u64 = match prev.checked_add(curr) {
            Some(next) => next,
            None => {
                proof {
                    assert(fib((i + 1) as nat) == prev + curr);
                    lemma_fib_never_falls((i + 1) as nat, n as nat);
                }
                return u64::MAX;
            },
        };
        prev = curr;
        curr = next;
        i += 1;
    }
    proof {
        lemma_fib_grows((n - 1) as nat);
    }
    curr - 1
}

/// The un-jittered delay, in nanoseconds: the curve, held below the cap and below
/// `u64::MAX`.
pub open spec fn base_delay_nanos(base: nat, cap: nat, attempt: nat) -> int {
    let scaled = base * multiplier(attempt);
    let capped = if scaled < cap {
        scaled
    } else {
        cap as int
    };
    if capped < u64::MAX {
        capped
    } else {
        u64::MAX as int
    }
}

/// The un-jittered base delay: `min(base * (fib(attempt) - 1), cap)`.
pub fn base_delay(backoff: &Backoff, attempt: u32) -> (r: Duration)
    ensures
        r.nanos() == base_delay_nanos(
            backoff.base_delay().nanos(),
            backoff.ceiling().nanos(),
            attempt as nat,
        ),
{
    let factor: u128 = fib_minus_one(attempt) as u128;
    let base: u128 = backoff.base().as_nanos();
    let cap: u128 = backoff.cap().as_nanos();
    assert(base * factor >= 0) by (nonlinear_arith);
    let delay: u128 = match base.checked_mul(factor) {
        Some(scaled) => if scaled < cap {
            scaled
        } else {
            cap
        },
        None => cap,
    };
    if delay < u64::MAX as u128 {
        Duration::from_nanos(delay as u64)
    } else {
        Duration::from_nanos(u64::MAX)
    }
}

/// The realized retry delay in nanoseconds: the jittered delay, held to the curve.
pub open spec fn retry_delay_nanos(backoff: Backoff, attempt: u32, jittered_nanos: u64) -> nat {
    let delay = base_delay_nanos(
        backoff.base_delay().nanos(),
        backoff.ceiling().nanos(),
        attempt as nat,
    );
    if jittered_nanos < delay {
        jittered_nanos as nat
    } else {
        delay as nat
    }
}

/// The realized retry delay for a job's `attempt`-th failure, given the jittered
/// curve in nanoseconds. Jitter only ever shortens a delay: an immediate retry stays
/// immediate, and no delay goes past the un-jittered one.
pub fn retry_delay(backoff: &Backoff, attempt: u32, jittered_nanos: u64) -> (r: Duration)
    ensures
        r.nanos() == retry_delay_nanos(*backoff, attempt, jittered_nanos),
{
    base_delay(backoff, attempt).shortest(Duration::from_nanos(jittered_nanos))
}

/// The cap is a hard bound: no realized delay exceeds it, nor the un-jittered delay,
/// whatever the jitter.
pub proof fn realized_delay_never_exceeds_cap(
    backoff: Backoff,
    attempt: u32,
    jittered_nanos: u64,
)
    ensures
        retry_delay_nanos(backoff, attempt, jittered_nanos) <= base_delay_nanos(
            backoff.base_delay().nanos(),
            backoff.ceiling().nanos(),
            attempt as nat,
        ),
        retry_delay_nanos(backoff, attempt, jittered_nanos) <= backoff.ceiling().nanos(),
{
    delay_never_exceeds_cap(
        backoff.base_delay().nanos(),
        backoff.ceiling().nanos(),
        attempt as nat,
    );
}

/// The first two retries are immediate, whatever the base and cap.
pub proof fn first_two_attempts_are_immediate(base: nat, cap: nat, attempt: nat)
    requires
        attempt <= 2,
    ensures
        base_delay_nanos(base, cap, attempt) == 0,
{
}

/// No delay exceeds the cap.
pub proof fn delay_never_exceeds_cap(base: nat, cap: nat, attempt: nat)
    ensures
        0 <= base_delay_nanos(base, cap, attempt) <= cap,
{
    lemma_multiplier_nonnegative(attempt);
    assert(base * multiplier(attempt) >= 0) by (nonlinear_arith)
        requires
            multiplier(attempt) >= 0,
    ;
}

proof fn lemma_multiplier_nonnegative(n: nat)
    ensures
        0 <= multiplier(n) <= u64::MAX,
        n >= 3 ==> multiplier(n) >= 1,
{
    if n >= 3 {
        lemma_fib_grows((n - 1) as nat);
        lemma_fib_grows((n - 2) as nat);
    }
}

/// A later attempt never waits less.
pub proof fn delay_never_shrinks(base: nat, cap: nat, earlier: nat, later: nat)
    requires
        earlier <= later,
    ensures
        base_delay_nanos(base, cap, earlier) <= base_delay_nanos(base, cap, later),
    decreases later - earlier,
{
    if earlier < later {
        lemma_fib_grows(earlier);
        lemma_fib_grows((earlier - 1) as nat);
        lemma_multiplier_nonnegative(earlier);
        lemma_multiplier_nonnegative(earlier + 1);
        assert(multiplier(earlier) <= multiplier(earlier + 1));
        assert(base * multiplier(earlier) <= base * multiplier(earlier + 1)) by (nonlinear_arith)
            requires
                multiplier(earlier) <= multiplier(earlier + 1),
        ;
        delay_never_shrinks(base, cap, earlier + 1, later);
    }
}

/// From the third attempt on a backoff always waits: no base and cap that a
/// [`Backoff`] holds retries in a tight loop.
pub proof fn third_attempt_waits(base: nat, cap: nat, attempt: nat)
    requires
        1_000_000 <= base <= cap,
        attempt >= 3,
    ensures
        base_delay_nanos(base, cap, attempt) >= 1_000_000,
{
    lemma_multiplier_nonnegative(attempt);
    assert(base * multiplier(attempt) >= base) by (nonlinear_arith)
        requires
            multiplier(attempt) >= 1,
    ;
}

/// The high 64 bits of an identity.
pub open spec fn high_half(bits: u128) -> u64 {
    (bits >> 64u128) as u64
}

/// The low 64 bits of an identity.
pub open spec fn low_half(bits: u128) -> u64 {
    bits as u64
}

/// The SplitMix64 finalizer of `seed`.
pub open spec fn splitmix64_spec(seed: u64) -> u64 {
    let z0 = vstd::wrapping::u64_specs::wrapping_add(seed, 0x9E37_79B9_7F4A_7C15);
    let z1 = vstd::wrapping::u64_specs::wrapping_mul(z0 ^ (z0 >> 30u64), 0xBF58_476D_1CE4_E5B9);
    let z2 = vstd::wrapping::u64_specs::wrapping_mul(z1 ^ (z1 >> 27u64), 0x94D0_49BB_1331_11EB);
    z2 ^ (z2 >> 31u64)
}

/// The SplitMix64 finalizer: a fast, well-distributed bit mixer.
pub fn splitmix64(seed: u64) -> (r: u64)
    ensures
        r == splitmix64_spec(seed),
{
    let mut z: u64 = seed.wrapping_add(0x9E37_79B9_7F4A_7C15);
    z = (z ^ (z >> 30)).wrapping_mul(0xBF58_476D_1CE4_E5B9);
    z = (z ^ (z >> 27)).wrapping_mul(0x94D0_49BB_1331_11EB);
    z ^ (z >> 31)
}

/// The jitter sample of a job's attempt: the top 53 bits of the mixed identity.
pub open spec fn jitter_sample_spec(bits: u128, attempt: u32) -> u64 {
    splitmix64_spec(high_half(bits) ^ splitmix64_spec(low_half(bits) ^ (attempt as u64))) >> 11u64
}

/// A deterministic sample below `2^53` from a job id and attempt number.
///
/// The 128-bit ULID is folded into two 64-bit halves and run, together with the
/// attempt, through a SplitMix64 finalizer. Distinct jobs and distinct attempts
/// of one job therefore get reproducible jitter without any global RNG. Divided by
/// `2^53` the sample is uniform in `[0, 1)`.
pub fn jitter_sample(id: ulid::Ulid, attempt: u32) -> (r: u64)
    ensures
        r == jitter_sample_spec(id.0, attempt),
        r < 0x20_0000_0000_0000,
{
    let hi: u64 = (id.0 >> 64) as u64;
    let lo: u64 = #[verifier::truncate] (id.0 as u64);
    let inner: u64 = splitmix64(lo ^ (attempt as u64));
    let mixed: u64 = splitmix64(hi ^ inner);
    assert(mixed >> 11u64 < 0x20_0000_0000_0000) by (bit_vector);
    mixed >> 11
}

/// The curve is Fibonacci's. From the third failure on, the delay is the sum of the two
/// before it and the base, held to the ceiling; the first two are zero. (A delay is held
/// below `u64::MAX` nanoseconds too.)
pub proof fn delays_add_up(
    backoff: Backoff,
    attempt: u32,
    earlier: Duration,
    previous: Duration,
    delay: Duration,
)
    requires
        attempt >= 3,
        backoff.base_delay().nanos() >= 1,
        call_ensures(base_delay, (&backoff, (attempt - 2) as u32), earlier),
        call_ensures(base_delay, (&backoff, (attempt - 1) as u32), previous),
        call_ensures(base_delay, (&backoff, attempt), delay),
    ensures
        attempt <= 4 ==> earlier.nanos() == 0,
        attempt == 3 ==> previous.nanos() == 0,
        ({
            let sum = earlier.nanos() + previous.nanos() + backoff.base_delay().nanos();
            let cap = if backoff.ceiling().nanos() < u64::MAX {
                backoff.ceiling().nanos()
            } else {
                u64::MAX as nat
            };
            delay.nanos() == if sum < cap {
                sum
            } else {
                cap
            }
        }),
{
    let base = backoff.base_delay().nanos();
    let cap = backoff.ceiling().nanos();
    let n = attempt as nat;
    let held = if cap < u64::MAX {
        cap as int
    } else {
        u64::MAX as int
    };
    lemma_held(base, cap, (n - 2) as nat);
    lemma_held(base, cap, (n - 1) as nat);
    lemma_held(base, cap, n);
    assert(fib(n) == fib((n - 1) as nat) + fib((n - 2) as nat));
    let a = fib((n - 2) as nat) as int;
    let b = fib((n - 1) as nat) as int;
    lemma_fib_grows((n - 2) as nat);
    assert(a >= 1 && b >= 1);
    assert(base * (a + b - 1) == base * (a - 1) + base * (b - 1) + base) by (nonlinear_arith);
    assert(base * (a - 1) >= 0 && base * (b - 1) >= 0) by (nonlinear_arith)
        requires
            a >= 1,
            b >= 1,
            base >= 0,
    ;
}

/// The curve without its bounds, held to the ceiling and to `u64::MAX`, is the delay.
proof fn lemma_held(base: nat, cap: nat, n: nat)
    requires
        base >= 1,
        n >= 1,
    ensures
        fib(n) >= 1,
        ({
            let held = if cap < u64::MAX {
                cap as int
            } else {
                u64::MAX as int
            };
            let scaled = base * (fib(n) - 1);
            base_delay_nanos(base, cap, n) == if scaled < held {
                scaled
            } else {
                held
            }
        }),
{
    lemma_fib_grows(n);
    let m = fib(n) - 1;
    if n <= 2 {
        assert(base * m == 0) by (nonlinear_arith)
            requires
                m == 0,
        ;
    }
    if m > u64::MAX {
        assert(base * m >= u64::MAX) by (nonlinear_arith)
            requires
                base >= 1,
                m > u64::MAX,
        ;
        assert(base * (u64::MAX as int) >= u64::MAX) by (nonlinear_arith)
            requires
                base >= 1,
        ;
    }
}

/// A realized delay is the jittered one or the curve's own, whichever is shorter.
pub proof fn jitter_only_shortens(
    backoff: Backoff,
    attempt: u32,
    jittered_nanos: u64,
    curve: Duration,
    delay: Duration,
)
    requires
        call_ensures(base_delay, (&backoff, attempt), curve),
        call_ensures(retry_delay, (&backoff, attempt, jittered_nanos), delay),
    ensures
        delay.nanos() <= curve.nanos(),
        delay.nanos() <= jittered_nanos,
        delay.nanos() == curve.nanos() || delay.nanos() == jittered_nanos,
{
}

/// Sensible policies are kept as they are given.
pub proof fn sensible_policies_are_kept(base: Duration, cap: Duration, backoff: Backoff)
    requires
        call_ensures(Backoff::new, (base, cap), backoff),
    ensures
        1_000_000 <= base.nanos() <= cap.nanos() ==> backoff.base_delay().nanos() == base.nanos()
            && backoff.ceiling().nanos() == cap.nanos(),
        1_000_000 <= backoff.base_delay().nanos() <= backoff.ceiling().nanos(),
        cap.nanos() <= backoff.ceiling().nanos(),
        base.nanos() <= backoff.base_delay().nanos(),
{
}

/// Multiplying by a number that has an inverse modulo `2^64` loses nothing.
proof fn lemma_product_loses_nothing(x: u64, y: u64, factor: u64, inverse: int, turns: int)
    requires
        factor * inverse == 1 + turns * 0x1_0000_0000_0000_0000,
        vstd::wrapping::u64_specs::wrapping_mul(x, factor)
            == vstd::wrapping::u64_specs::wrapping_mul(y, factor),
    ensures
        x == y,
{
    let f = factor as int;
    let range: int = 0x1_0000_0000_0000_0000;
    let a = (x as int * f) / range;
    let b = (y as int * f) / range;
    let d = x as int - y as int;
    vstd::arithmetic::div_mod::lemma_fundamental_div_mod(x as int * f, range);
    vstd::arithmetic::div_mod::lemma_fundamental_div_mod(y as int * f, range);
    assert(d * f == x as int * f - y as int * f) by (nonlinear_arith)
        requires
            d == x as int - y as int,
    ;
    assert(d * f == (a - b) * range);
    let m = (a - b) * inverse - d * turns;
    assert(d == m * range) by (nonlinear_arith)
        requires
            d * f == (a - b) * range,
            f * inverse == 1 + turns * range,
            m == (a - b) * inverse - d * turns,
    ;
    assert(m == 0) by (nonlinear_arith)
        requires
            d == m * range,
            -range < d < range,
            range > 0,
    ;
}

/// The mixer loses nothing: different seeds come out different, so that different attempts
/// of one job are mixed apart.
pub proof fn different_seeds_mix_apart(a: u64, b: u64, x: u64, y: u64)
    requires
        call_ensures(splitmix64, (a,), x),
        call_ensures(splitmix64, (b,), y),
    ensures
        x == y <==> a == b,
{
    if x == y {
        let a0 = vstd::wrapping::u64_specs::wrapping_add(a, 0x9E37_79B9_7F4A_7C15);
        let b0 = vstd::wrapping::u64_specs::wrapping_add(b, 0x9E37_79B9_7F4A_7C15);
        let a1 = vstd::wrapping::u64_specs::wrapping_mul(
            a0 ^ (a0 >> 30u64),
            0xBF58_476D_1CE4_E5B9,
        );
        let b1 = vstd::wrapping::u64_specs::wrapping_mul(
            b0 ^ (b0 >> 30u64),
            0xBF58_476D_1CE4_E5B9,
        );
        let a2 = vstd::wrapping::u64_specs::wrapping_mul(
            a1 ^ (a1 >> 27u64),
            0x94D0_49BB_1331_11EB,
        );
        let b2 = vstd::wrapping::u64_specs::wrapping_mul(
            b1 ^ (b1 >> 27u64),
            0x94D0_49BB_1331_11EB,
        );
        assert(a2 ^ (a2 >> 31u64) == b2 ^ (b2 >> 31u64) ==> a2 == b2) by (bit_vector);
        assert(0x94D0_49BB_1331_11EB * 0x319642b2d24d8ec3 == 1 + 2077064247507883091 * 0x1_0000_0000_0000_0000);
        lemma_product_loses_nothing(
            a1 ^ (a1 >> 27u64),
            b1 ^ (b1 >> 27u64),
            0x94D0_49BB_1331_11EB,
            0x319642b2d24d8ec3,
            2077064247507883091,
        );
        assert(a1 ^ (a1 >> 27u64) == b1 ^ (b1 >> 27u64) ==> a1 == b1) by (bit_vector);
        assert(0xBF58_476D_1CE4_E5B9 * 0x96de1b173f119089 == 1 + 8125545580553827436 * 0x1_0000_0000_0000_0000);
        lemma_product_loses_nothing(
            a0 ^ (a0 >> 30u64),
            b0 ^ (b0 >> 30u64),
            0xBF58_476D_1CE4_E5B9,
            0x96de1b173f119089,
            8125545580553827436,
        );
        assert(a0 ^ (a0 >> 30u64) == b0 ^ (b0 >> 30u64) ==> a0 == b0) by (bit_vector);
    }
}

} // verus!
