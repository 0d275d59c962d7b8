//! Small value types: priorities, keys, outcomes, errors, states, spans, instants.
use ulid::Ulid;
use venturi::error::Error;
use venturi::instants::{add_duration, Duration, Timestamp, MAX_UNIX_SECS, MIN_UNIX_SECS};
use venturi::kinds::KindMap;
use venturi::outcome::{Outcome, TaskError};
use venturi::store::{
    carry_given, stored_carry, JournalOutcome, NewJob, Status, StoredCarry,
};
use venturi::task::{DedupKey, Priority};

struct Boom(&'static str);

impl std::fmt::Display for Boom {
    fn fmt(&self, f: &mut std::fmt::Formatter<'_>) -> std::fmt::Result {
        f.write_str(&format!("boom: {}", self.0))
    }
}

fn at(secs: i64) -> Timestamp {
    Timestamp::from_unix(secs, 0).expect("representable")
}

#[test]
fn question_mark_errors_are_retryable() {
    fn run() -> Result<(), TaskError> {
        Err(Boom("network"))?;
        Ok(())
    }
    let err = run().unwrap_err();
    assert!(!err.is_permanent());
    assert_eq!(err.message(), "boom: network");
}

#[test]
fn permanent_is_permanent_and_keeps_message() {
    let err = TaskError::permanent(Boom("gone"));
    assert!(err.is_permanent());
    assert_eq!(err.message(), "boom: gone");
    assert_eq!(err.message().to_string(), "boom: gone");
}

#[test]
fn cause_exposes_the_wrapped_error() {
    let err = TaskError::permanent(Boom("disk"));
    let cause = err.cause().expect("a wrapped cause is present");
    assert_eq!(cause.to_string(), "boom: disk");
}

#[test]
fn retryable_takes_any_displayed_error() {
    let err = TaskError::retryable("plain text");
    assert!(!err.is_permanent());
    assert_eq!(err.message(), "plain text");
    assert_eq!(err.cause(), Some("plain text"));
}

#[test]
fn failures_of_one_error_agree() {
    let retryable = TaskError::retryable(Boom("disk"));
    let converted = TaskError::from(Boom("disk"));
    let permanent = TaskError::permanent(Boom("disk"));
    assert!(!retryable.is_permanent());
    assert!(!converted.is_permanent());
    assert!(permanent.is_permanent());
    for failure in [&retryable, &converted, &permanent] {
        assert_eq!(failure.message(), "boom: disk");
        assert_eq!(failure.cause(), Some("boom: disk"));
    }
}

#[test]
fn outcome_constructors() {
    assert_eq!(Outcome::completed(), Outcome::Completed { note: None });
    assert_eq!(
        Outcome::completed_with("done"),
        Outcome::Completed {
            note: Some("done".into())
        }
    );
    assert_eq!(
        Outcome::pause_in(Duration::from_secs(5)),
        Outcome::Pause {
            resume_in: Duration::from_secs(5),
            note: None
        }
    );
    assert_eq!(
        Outcome::pause_in_with(Duration::from_secs(5), "checkpoint"),
        Outcome::Pause {
            resume_in: Duration::from_secs(5),
            note: Some("checkpoint".into())
        }
    );
}

#[test]
fn display_includes_the_underlying_source() {
    let serde_err = serde_json::from_str::<i32>("not a number").unwrap_err();
    let source_text = serde_err.to_string();
    let shown = Error::Serialization(serde_err.to_string()).message();

    assert!(
        shown.contains("(de)serializing"),
        "keeps the context: {shown}"
    );
    assert!(
        shown.contains(&source_text),
        "includes the source detail {source_text:?}: {shown}"
    );
}

#[test]
fn every_error_shows_its_context() {
    let shown = |error: Error| error.message();
    assert_eq!(
        shown(Error::Database("x".into())),
        "while talking to PostgreSQL: x"
    );
    assert_eq!(
        shown(Error::Pool("x".into())),
        "while acquiring a pooled connection: x"
    );
    assert_eq!(
        shown(Error::PoolBuild("x".into())),
        "while building the connection pool: x"
    );
    assert_eq!(
        shown(Error::Migration("x".into())),
        "while applying migrations: x"
    );
    assert_eq!(
        shown(Error::Config("x".into())),
        "invalid configuration: x"
    );
    assert_eq!(
        shown(Error::UnknownKind {
            kind: "say \"hi\"\n".into()
        }),
        "no handler registered for job kind \"say \\\"hi\\\"\\n\""
    );
    assert_eq!(
        shown(Error::InvalidPriority { priority: -7 }),
        "invalid priority tier -7: expected 0 (high), 1 (normal), or 2 (low)"
    );
    assert_eq!(
        shown(Error::RunNumberOutOfRange { run_no: 2147483648 }),
        "run number 2147483648 exceeds the storable range"
    );
}

#[test]
fn priority_smallint_round_trips_and_orders() {
    for p in [Priority::High, Priority::Normal, Priority::Low] {
        assert_eq!(Priority::from_smallint(p.as_smallint()), Some(p));
    }
    assert!(Priority::High.as_smallint() < Priority::Normal.as_smallint());
    assert!(Priority::Normal.as_smallint() < Priority::Low.as_smallint());
    assert_eq!(Priority::default(), Priority::Normal);
    assert_eq!(Priority::from_smallint(3), None);
}

#[test]
fn dedup_key_from_various_sources() {
    assert_eq!(DedupKey::from("abc").as_str(), "abc");
    assert_eq!(DedupKey::from(String::from("x")).as_str(), "x");
    assert_eq!(DedupKey::from(42u64).as_str(), "42");
    let id = ulid::Ulid::nil();
    assert_eq!(DedupKey::from(id).as_str(), id.to_string());
}

#[test]
fn dedup_key_renders_numbers_and_ids_exactly() {
    assert_eq!(DedupKey::from(0u64).as_str(), "0");
    assert_eq!(DedupKey::from(u64::MAX).as_str(), "18446744073709551615");
    assert_eq!(DedupKey::from(-12i64).as_str(), "-12");
    assert_eq!(DedupKey::from(i64::MIN).as_str(), "-9223372036854775808");
    let id = Ulid(0x0123_4567_89ab_cdef_0123_4567_89ab_cdef);
    assert_eq!(DedupKey::from(id).as_str(), "014D2PF2DBSQQG28T5CY4TQKFF");
    assert_eq!(DedupKey::new("k").into_string(), "k");
}

#[test]
fn status_text_round_trips() {
    for status in [
        Status::Pending,
        Status::Claimed,
        Status::Completed,
        Status::Dead,
    ] {
        assert_eq!(Status::from_db(status.as_str()), Some(status));
    }
    assert_eq!(Status::Pending.as_str(), "pending");
    assert_eq!(Status::from_db("Pending"), None);
    assert_eq!(Status::from_db(""), None);
}

#[test]
fn journal_outcome_text_round_trips_and_classifies() {
    let failures = [
        (JournalOutcome::Completed, "completed", false),
        (JournalOutcome::Paused, "paused", false),
        (JournalOutcome::Retried, "retried", true),
        (JournalOutcome::Dead, "dead", true),
        (JournalOutcome::StaleRecovered, "stale-recovered", true),
        (JournalOutcome::Released, "released", false),
        (JournalOutcome::Merged, "merged", false),
    ];
    for (outcome, text, failed) in failures {
        assert_eq!(outcome.as_str(), text);
        assert_eq!(JournalOutcome::from_db(text), Some(outcome));
        assert_eq!(outcome.is_failure(), failed);
    }
    assert_eq!(JournalOutcome::from_db("stale_recovered"), None);
}

fn job_with_priority(priority: i16) -> NewJob {
    NewJob {
        id: Ulid::new(),
        kind: "demo".to_owned(),
        payload: serde_json::Value::Null,
        priority,
        created_at: at(0),
        visible_at: at(0),
        carry: serde_json::Value::Null,
        dedup_key: None,
    }
}

#[test]
fn validate_accepts_every_supported_tier() {
    for tier in 0..=2 {
        assert!(job_with_priority(tier).validate().is_ok());
    }
}

#[test]
fn validate_rejects_out_of_range_priority() {
    for tier in [-1, 3, i16::MAX] {
        match job_with_priority(tier).validate() {
            Err(Error::InvalidPriority { priority }) => assert_eq!(priority, tier),
            other => panic!("expected InvalidPriority for {tier}, got {other:?}"),
        }
    }
}

#[test]
fn null_carry_is_the_initial_state() {
    assert!(matches!(
        stored_carry(serde_json::Value::Null),
        StoredCarry::Initial
    ));
    let zero = serde_json::Value::from(0);
    assert!(matches!(stored_carry(zero.clone()), StoredCarry::Saved(v) if v == zero));
    assert!(matches!(
        carry_given(zero, true),
        StoredCarry::Initial
    ));
}

#[test]
fn add_duration_saturates_to_the_far_future_on_overflow() {
    let now = at(1_700_000_000);
    // A delay too large for the calendar represents "park effectively forever". It
    // must land far in the future, not collapse to `now`.
    let parked = add_duration(now, Duration::from_secs(u64::MAX));
    assert!(
        parked > at(1_700_000_000 + 365_000 * 86_400),
        "an overflowing delay must saturate to the far future, got {parked:?}"
    );

    // An addition that overflows the representable range saturates the same way.
    let near_max = at(MAX_UNIX_SECS - 86_400);
    let pushed = add_duration(near_max, Duration::from_secs(7 * 24 * 60 * 60));
    assert!(
        pushed >= near_max,
        "an add that overflows the representable range must not move backward"
    );
    assert_eq!(pushed, Timestamp::last());
}

#[test]
fn add_duration_is_exact_inside_the_calendar() {
    let start = Timestamp::from_unix(-5, 600_000_000).expect("representable");
    let later = add_duration(start, Duration::from_millis(4_900));
    assert_eq!(later.unix_parts(), (0, 500_000_000));

    // The last instant itself is reached exactly, one nanosecond more saturates.
    let eve = at(MAX_UNIX_SECS);
    let last = add_duration(eve, Duration::from_nanos(999_999_999));
    assert_eq!(last, Timestamp::last());
    assert_eq!(last.unix_parts(), (MAX_UNIX_SECS, 999_999_999));
    assert_eq!(
        add_duration(eve, Duration::from_nanos(1_000_000_000)),
        Timestamp::last()
    );

    // The whole calendar can be crossed in one span.
    let first = at(MIN_UNIX_SECS);
    let span = Duration::from_secs((MAX_UNIX_SECS - MIN_UNIX_SECS) as u64);
    assert_eq!(add_duration(first, span).unix_parts(), (MAX_UNIX_SECS, 0));
}

#[test]
fn calendar_bounds_are_those_of_the_calendar_library() {
    let max = chrono::DateTime::<chrono::Utc>::MAX_UTC;
    let min = chrono::DateTime::<chrono::Utc>::MIN_UTC;
    assert_eq!(max.timestamp(), MAX_UNIX_SECS);
    assert_eq!(max.timestamp_subsec_nanos(), 999_999_999);
    assert_eq!(min.timestamp(), MIN_UNIX_SECS);
    assert_eq!(min.timestamp_subsec_nanos(), 0);
    assert!(Timestamp::from_unix(MAX_UNIX_SECS + 1, 0).is_none());
    assert!(Timestamp::from_unix(MIN_UNIX_SECS - 1, 0).is_none());
    assert!(Timestamp::from_unix(0, 1_000_000_000).is_none());
}

#[test]
fn since_never_goes_below_zero() {
    let earlier = Timestamp::from_unix(10, 900_000_000).expect("representable");
    let later = Timestamp::from_unix(12, 100_000_000).expect("representable");
    assert_eq!(later.since(&earlier), Duration::from_millis(1_200));
    assert_eq!(earlier.since(&later), Duration::zero());
    assert!(earlier.before(&later));
    assert!(!later.before(&later));
    assert!(later.same_as(&later));
}

#[test]
fn durations_compare_and_split() {
    let span = Duration::from_parts(3, 250_000_000).expect("a fraction of a second");
    assert_eq!(span, Duration::from_millis(3_250));
    assert_eq!(span.as_secs(), 3);
    assert_eq!(span.subsec_nanos(), 250_000_000);
    assert!(Duration::from_parts(0, 1_000_000_000).is_none());
    assert!(Duration::from_secs(1).shorter_than(&span));
    assert_eq!(span.longest(Duration::from_secs(9)), Duration::from_secs(9));
    assert_eq!(span.shortest(Duration::from_secs(9)), span);
    assert!(Duration::from_secs(u64::MAX).as_nanos() > 0);
    assert!(!span.is_zero());
}

#[test]
fn kind_map_keeps_keys_sorted_and_unique() {
    let mut map: KindMap<u64> = KindMap::new();
    assert!(map.is_empty());
    for (kind, n) in [("mail", 1), ("audit", 2), ("mail", 3), ("zip", 4)] {
        map.insert(kind.to_owned(), n);
    }
    assert_eq!(map.len(), 3);
    assert_eq!(map.kinds(), vec!["audit", "mail", "zip"]);
    assert_eq!(map.get("mail"), Some(&3));
    assert_eq!(map.get("missing"), None);
    map.remove("mail");
    map.remove("missing");
    assert_eq!(map.entries(), &[("audit".to_owned(), 2), ("zip".to_owned(), 4)]);
}
