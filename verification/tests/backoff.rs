//! The retry curve, its clamps, and its deterministic jitter.
use ulid::Ulid;
use venturi::backoff::{
    base_delay, fib_minus_one, jitter_sample, retry_delay, splitmix64, Backoff, MIN_BASE_MILLIS,
};
use venturi::instants::Duration;

fn fixed_id() -> Ulid {
    Ulid::from_string("01ARZ3NDEKTSV4RRFFQ69G5FAV").expect("valid ULID")
}

/// The realized delay: the jitter sample scales the curve into
/// `[delay * (1 - fraction), delay]`.
fn realized(backoff: &Backoff, fraction: f64, attempt: u32, id: Ulid) -> Duration {
    let delay = base_delay(backoff, attempt);
    let unit = jitter_sample(id, attempt) as f64 / ((1u64 << 53) as f64);
    let factor = 1.0 - fraction.clamp(0.0, 1.0) * (1.0 - unit);
    retry_delay(backoff, attempt, (delay.as_nanos() as f64 * factor) as u64)
}

#[test]
fn default_backoff_is_500ms_base_and_120s_cap() {
    let backoff = Backoff::default();
    assert_eq!(backoff.base(), Duration::from_millis(500));
    assert_eq!(backoff.cap(), Duration::from_secs(120));
}

#[test]
fn backoffs_are_equal_exactly_when_their_delays_are() {
    let built = Backoff::new(Duration::from_millis(500), Duration::from_secs(120));
    assert_eq!(built, Backoff::default());
    assert_eq!(
        Backoff::new(Duration::zero(), Duration::zero()),
        Backoff::new(Duration::from_millis(1), Duration::from_millis(1))
    );
    let base = Duration::from_millis(500);
    assert_ne!(built, Backoff::new(base, Duration::from_secs(121)));
    assert_ne!(
        built,
        Backoff::new(Duration::from_millis(501), Duration::from_secs(120))
    );
}

#[test]
fn new_clamps_degenerate_base_and_cap() {
    // A zero base floors above zero so delays are not uniformly zero.
    let floored = Backoff::new(Duration::zero(), Duration::from_secs(10));
    assert_eq!(floored.base(), Duration::from_millis(MIN_BASE_MILLIS));
    assert_eq!(floored.cap(), Duration::from_secs(10));

    // A cap below base is raised to base rather than inverting intent.
    let raised = Backoff::new(Duration::from_secs(5), Duration::from_secs(1));
    assert_eq!(raised.base(), Duration::from_secs(5));
    assert_eq!(raised.cap(), Duration::from_secs(5));
}

#[test]
fn fib_minus_one_matches_the_documented_curve() {
    let got: Vec<u64> = (1..=8).map(fib_minus_one).collect();
    assert_eq!(got, vec![0, 0, 1, 2, 4, 7, 12, 20]);
}

#[test]
fn first_two_attempts_are_immediate() {
    let backoff = Backoff::new(Duration::from_secs(1), Duration::from_secs(300));
    assert_eq!(realized(&backoff, 0.5, 1, fixed_id()), Duration::zero());
    assert_eq!(realized(&backoff, 0.5, 2, fixed_id()), Duration::zero());
}

#[test]
fn delay_is_capped() {
    let backoff = Backoff::new(Duration::from_secs(1), Duration::from_secs(10));
    // With no jitter (fraction 0) the delay equals the capped base.
    let delay = realized(&backoff, 0.0, 40, fixed_id());
    assert_eq!(delay, Duration::from_secs(10));
}

#[test]
fn jitter_is_deterministic() {
    let backoff = Backoff::default();
    let a = realized(&backoff, 0.5, 7, fixed_id());
    let b = realized(&backoff, 0.5, 7, fixed_id());
    assert_eq!(a, b);
}

#[test]
fn jitter_stays_within_bounds() {
    let backoff = Backoff::new(Duration::from_secs(1), Duration::from_secs(300));
    let fraction = 0.5;
    for attempt in 3..=20 {
        let base = base_delay(&backoff, attempt);
        let actual = realized(&backoff, fraction, attempt, fixed_id());
        let low = base.as_nanos() as f64 * (1.0 - fraction);
        assert!(
            (actual.as_nanos() as f64) >= low - 1.0,
            "attempt {attempt}: {actual:?} below lower bound"
        );
        assert!(
            actual <= base,
            "attempt {attempt}: {actual:?} above base {base:?}"
        );
    }
}

#[test]
fn curve_saturates_instead_of_overflowing() {
    assert_eq!(fib_minus_one(0), 0);
    // fib(93) is the last Fibonacci number below 2^64.
    assert_eq!(fib_minus_one(93), 12_200_160_415_121_876_737);
    assert_eq!(fib_minus_one(94), u64::MAX);
    assert_eq!(fib_minus_one(500), u64::MAX);
}

#[test]
fn documented_default_schedule() {
    let backoff = Backoff::default();
    let millis: Vec<u128> = (1..=6)
        .map(|attempt| base_delay(&backoff, attempt).as_nanos() / 1_000_000)
        .collect();
    assert_eq!(millis, vec![0, 0, 500, 1000, 2000, 3500]);
    assert_eq!(base_delay(&backoff, 60), Duration::from_secs(120));
}

#[test]
fn huge_cap_is_held_below_u64_nanoseconds() {
    let huge = Backoff::new(Duration::from_secs(1), Duration::from_secs(u64::MAX));
    assert_eq!(base_delay(&huge, 90), Duration::from_nanos(u64::MAX));
}

#[test]
fn realized_delay_is_held_to_the_curve_and_the_cap() {
    let backoff = Backoff::new(Duration::from_secs(1), Duration::from_secs(10));
    let secs = |n: u64| n * 1_000_000_000;
    // Attempt 3 waits one base delay; a longer jittered delay does not get past it.
    assert_eq!(retry_delay(&backoff, 3, secs(20)), Duration::from_secs(1));
    assert_eq!(
        retry_delay(&backoff, 3, secs(1) / 4),
        Duration::from_millis(250)
    );
    assert_eq!(retry_delay(&backoff, 40, u64::MAX), Duration::from_secs(10));
    assert_eq!(retry_delay(&backoff, 2, secs(5)), Duration::zero());
}

#[test]
fn splitmix_matches_its_reference_stream() {
    // The first output of SplitMix64 seeded with zero.
    assert_eq!(splitmix64(0), 0xE220_A839_7B1D_CDAF);
}

#[test]
fn jitter_samples_differ_by_job_and_attempt() {
    let a = jitter_sample(fixed_id(), 3);
    assert_ne!(a, jitter_sample(fixed_id(), 4));
    assert_ne!(a, jitter_sample(Ulid::nil(), 3));
    assert!(a < 1u64 << 53);
    let id = fixed_id();
    let hi = (id.0 >> 64) as u64;
    let lo = id.0 as u64;
    assert_eq!(a, splitmix64(hi ^ splitmix64(lo ^ 3)) >> 11);
}
