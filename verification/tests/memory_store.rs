//! The in-memory store: claims, settlements, recovery, history, cleanup, stats.
use ulid::Ulid;
use venturi::error::Error;
use venturi::instants::{Duration, Timestamp};
use venturi::memory::MemoryStore;
use venturi::store::{
    CleanupCriteria, HistoryFilter, JobRecord, JournalAppend, JournalOutcome, MergePayload, NewJob,
    Settlement, Status,
};
use venturi::worker::rotation::FLOOR_ALL;

/// A fixed base instant plus `seconds`, so tests read in real time order.
fn at(seconds: i64) -> Timestamp {
    Timestamp::from_unix(1_700_000_000 + seconds, 0).expect("valid fixed timestamp")
}

fn millis(ms: u64) -> Timestamp {
    Timestamp::from_unix(
        1_700_000_000 + (ms / 1000) as i64,
        (ms % 1000) as u32 * 1_000_000,
    )
    .expect("valid fixed timestamp")
}

/// A pending job at an exact enqueue time, with an empty payload and carry.
fn new_job(id: Ulid, kind: &str, created_at: Timestamp) -> NewJob {
    NewJob {
        id,
        kind: kind.to_owned(),
        payload: serde_json::Value::Null,
        priority: 1,
        created_at,
        visible_at: created_at,
        carry: serde_json::Value::Null,
        dedup_key: None,
    }
}

fn tiered(id: u128, priority: i16, created_at: Timestamp) -> NewJob {
    NewJob {
        priority,
        ..new_job(Ulid(id), "alpha", created_at)
    }
}

fn entry(kind: &str, run_no: u32, outcome: JournalOutcome) -> JournalAppend {
    JournalAppend {
        kind: kind.to_owned(),
        run_no,
        recorded_at: at(0),
        outcome,
        note: None,
        attachment: None,
    }
}

fn kinds(names: &[&str]) -> Vec<String> {
    names.iter().map(|name| (*name).to_owned()).collect()
}

fn claim(store: &mut MemoryStore, kind: &str, by: &str, now: Timestamp) -> Option<JobRecord> {
    store
        .claim_next(&kinds(&[kind]), FLOOR_ALL, Duration::from_secs(60), by, now)
        .expect("claim")
}

fn complete(store: &mut MemoryStore, job: &JobRecord, by: &str, finished: Timestamp) -> bool {
    store.settle(
        job.id,
        by,
        job.run_count,
        Settlement::Complete {
            finished_at: finished,
        },
        entry(&job.kind, job.run_count, JournalOutcome::Completed),
    ).expect("journal room")
}

/// Page through the whole history `limit` rows at a time, following the keyset
/// cursor, and return the rows in the order they were yielded.
fn page_all(store: &MemoryStore, kind: Option<&str>, limit: i64) -> Vec<JobRecord> {
    let mut collected: Vec<JobRecord> = Vec::new();
    let mut cursor: Option<(Timestamp, Ulid)> = None;
    loop {
        let page = store.query_jobs(&HistoryFilter {
            kind: kind.map(str::to_owned),
            created_before: cursor,
            limit: Some(limit),
            ..Default::default()
        });
        let Some(last) = page.last() else {
            break;
        };
        cursor = Some((last.created_at, last.id));
        collected.extend(page);
    }
    collected
}

#[test]
fn keyset_pages_in_created_desc_order_without_gaps_or_repeats() {
    let mut store = MemoryStore::new();

    // Ten jobs at strictly increasing times, inserted out of order to prove the
    // ordering comes from the query, not the insert sequence.
    let mut ids = Vec::new();
    for seconds in [3, 7, 1, 9, 5, 0, 8, 2, 6, 4] {
        let id = Ulid::new();
        ids.push((at(seconds), id));
        store
            .enqueue(&new_job(id, "alpha", at(seconds)))
            .expect("enqueue");
    }

    // Expected: newest first, breaking ties by id desc (no ties here).
    let mut expected: Vec<(Timestamp, Ulid)> = ids.clone();
    expected.sort_by(|a, b| b.cmp(a));

    // A page size that does not divide the total exercises a short final page.
    let paged = page_all(&store, None, 3);
    let got: Vec<(Timestamp, Ulid)> = paged.iter().map(|r| (r.created_at, r.id)).collect();

    assert_eq!(
        got, expected,
        "paged order must be the full created_at desc, id desc order"
    );
    assert_eq!(got.len(), 10, "every row appears exactly once across pages");
}

#[test]
fn pages_of_mixed_limits_read_one_long_page() {
    let mut store = MemoryStore::new();
    for n in 0..9 {
        let id = Ulid(u128::from(n as u64) + 1);
        let job = new_job(id, "alpha", at(n / 2));
        store.enqueue(&job).expect("enqueue");
    }
    let read = |created_before: Option<(Timestamp, Ulid)>, limit: Option<i64>| {
        store.query_jobs(&HistoryFilter {
            created_before,
            limit,
            ..Default::default()
        })
    };
    let mut walked: Vec<Ulid> = Vec::new();
    let mut cursor: Option<(Timestamp, Ulid)> = None;
    for limit in [1, 4, 2, 3] {
        let page = read(cursor, Some(limit));
        walked.extend(page.iter().map(|job| job.id));
        cursor = page.last().map(|job| (job.created_at, job.id));
        let so_far: Vec<Ulid> = read(None, Some(walked.len() as i64))
            .iter()
            .map(|job| job.id)
            .collect();
        assert_eq!(walked, so_far);
    }
    // The last page held two of its three rows, so nothing is left.
    let all: Vec<Ulid> = read(None, None).iter().map(|job| job.id).collect();
    assert_eq!(walked, all);
    assert_eq!(all.len(), 9);
}

#[test]
fn keyset_breaks_ties_on_equal_created_at_by_id_desc() {
    let mut store = MemoryStore::new();

    // Five jobs that all share one created_at: only the id can order them.
    let shared = at(42);
    let mut ids: Vec<Ulid> = (0..5).map(|_| Ulid::new()).collect();
    for id in &ids {
        store
            .enqueue(&new_job(*id, "alpha", shared))
            .expect("enqueue");
    }

    // Walk one row per page so every step crosses the keyset on equal created_at.
    let paged = page_all(&store, None, 1);
    let got: Vec<Ulid> = paged.iter().map(|r| r.id).collect();

    ids.sort_by(|a, b| b.cmp(a)); // id desc
    assert_eq!(
        got, ids,
        "equal created_at rows must page in strict id desc order"
    );
}

#[test]
fn keyset_past_the_oldest_row_returns_an_empty_page() {
    let mut store = MemoryStore::new();

    let oldest_id = Ulid::new();
    store
        .enqueue(&new_job(oldest_id, "alpha", at(10)))
        .expect("enqueue");
    store
        .enqueue(&new_job(Ulid::new(), "alpha", at(20)))
        .expect("enqueue");

    // A cursor at the oldest row excludes it and everything before it: empty.
    let page = store.query_jobs(&HistoryFilter {
        created_before: Some((at(10), oldest_id)),
        limit: Some(50),
        ..Default::default()
    });
    assert!(page.is_empty(), "no row is older than the oldest cursor");
}

#[test]
fn keyset_composes_with_a_kind_filter() {
    let mut store = MemoryStore::new();

    // Interleave two kinds in time; the cursor and the kind filter must both apply.
    let mut alpha_keys = Vec::new();
    for seconds in [1, 3, 5, 7, 9] {
        let id = Ulid::new();
        alpha_keys.push((at(seconds), id));
        store
            .enqueue(&new_job(id, "alpha", at(seconds)))
            .expect("enqueue");
    }
    for seconds in [2, 4, 6, 8] {
        store
            .enqueue(&new_job(Ulid::new(), "beta", at(seconds)))
            .expect("enqueue");
    }

    let mut expected = alpha_keys.clone();
    expected.sort_by(|a, b| b.cmp(a));

    let paged = page_all(&store, Some("alpha"), 2);
    let got: Vec<(Timestamp, Ulid)> = paged.iter().map(|r| (r.created_at, r.id)).collect();

    assert_eq!(
        got, expected,
        "filtered pages stay within the kind and in keyset order"
    );
    assert!(
        paged.iter().all(|r| r.kind == "alpha"),
        "no other kind leaks into the page"
    );
}

#[test]
fn history_query_filters_by_kind_and_status() {
    let mut store = MemoryStore::new();
    let alpha1 = Ulid::new();
    store
        .enqueue(&new_job(alpha1, "alpha", at(0)))
        .expect("enqueue");
    store
        .enqueue(&new_job(Ulid::new(), "alpha", at(1)))
        .expect("enqueue");
    store
        .enqueue(&new_job(Ulid::new(), "beta", at(2)))
        .expect("enqueue");

    // Complete the alpha jobs.
    while let Some(job) = claim(&mut store, "alpha", "w", at(10)) {
        assert!(complete(&mut store, &job, "w", at(11)));
    }

    let alphas = store.query_jobs(&HistoryFilter {
        kind: Some("alpha".into()),
        ..Default::default()
    });
    assert_eq!(alphas.len(), 2);

    let pending = store.query_jobs(&HistoryFilter {
        status: Some(Status::Pending),
        ..Default::default()
    });
    assert_eq!(pending.len(), 1);
    assert_eq!(pending[0].kind, "beta");

    assert!(!store.journal(alpha1).is_empty());
}

#[test]
fn history_query_filters_by_finish_time_and_limit() {
    let mut store = MemoryStore::new();
    for (n, finished) in [(1u128, 100), (2, 200), (3, 300)] {
        store
            .enqueue(&new_job(Ulid(n), "alpha", at(n as i64)))
            .expect("enqueue");
        let job = claim(&mut store, "alpha", "w", at(50)).expect("a job");
        assert!(complete(&mut store, &job, "w", at(finished)));
    }
    let ids = |filter: HistoryFilter| -> Vec<u128> {
        store.query_jobs(&filter).iter().map(|j| j.id.0).collect()
    };
    // Since is inclusive, until is exclusive.
    assert_eq!(
        ids(HistoryFilter {
            finished_since: Some(at(200)),
            ..Default::default()
        }),
        vec![3, 2]
    );
    assert_eq!(
        ids(HistoryFilter {
            finished_until: Some(at(200)),
            ..Default::default()
        }),
        vec![1]
    );
    assert_eq!(
        ids(HistoryFilter {
            limit: Some(2),
            ..Default::default()
        }),
        vec![3, 2]
    );
    assert!(ids(HistoryFilter {
        limit: Some(-4),
        ..Default::default()
    })
    .is_empty());
}

#[test]
fn job_by_id_returns_the_full_record_or_none() {
    let mut store = MemoryStore::new();
    let id = Ulid::new();
    let payload: serde_json::Value =
        serde_json::from_str("{\"label\":\"render\"}").expect("valid JSON");
    store
        .enqueue(&NewJob {
            payload: payload.clone(),
            ..new_job(id, "detailed", at(0))
        })
        .expect("enqueue");

    let record = store.job(id).expect("job exists");
    assert_eq!(record.id, id);
    assert_eq!(record.kind, "detailed");
    assert_eq!(record.payload, payload);

    assert!(store.job(Ulid::new()).is_none());
}

#[test]
fn cleanup_deletes_terminal_jobs_and_cascades_to_journal() {
    let mut store = MemoryStore::new();
    let id = Ulid::new();
    store.enqueue(&new_job(id, "alpha", at(0))).expect("enqueue");
    let job = claim(&mut store, "alpha", "w", at(1)).expect("a job");
    assert!(complete(&mut store, &job, "w", at(2)));
    assert!(!store.journal(id).is_empty());

    let deleted = store.cleanup(&CleanupCriteria {
        finished_before: at(3),
        kind: None,
        status: None,
    });
    assert_eq!(deleted, 1);

    assert!(store.journal(id).is_empty());
    assert_eq!(store.query_jobs(&HistoryFilter::default()).len(), 0);
}

#[test]
fn cleanup_keeps_unfinished_recent_and_unmatched_jobs() {
    let mut store = MemoryStore::new();
    for (n, kind) in [(1u128, "alpha"), (2, "beta"), (3, "alpha"), (4, "alpha")] {
        store
            .enqueue(&new_job(Ulid(n), kind, at(n as i64)))
            .expect("enqueue");
    }
    let first = claim(&mut store, "alpha", "w", at(10)).expect("job 1");
    assert!(complete(&mut store, &first, "w", at(20)));
    let second = claim(&mut store, "beta", "w", at(10)).expect("job 2");
    assert!(complete(&mut store, &second, "w", at(20)));
    let third = claim(&mut store, "alpha", "w", at(10)).expect("job 3");
    assert!(complete(&mut store, &third, "w", at(30)));

    let deleted = store.cleanup(&CleanupCriteria {
        finished_before: at(30),
        kind: Some("alpha".into()),
        status: Some(Status::Completed),
    });
    assert_eq!(deleted, 1);
    let left: Vec<u128> = store
        .query_jobs(&HistoryFilter::default())
        .iter()
        .map(|j| j.id.0)
        .collect();
    assert_eq!(left, vec![4, 3, 2]);
    assert_eq!(store.journal(Ulid(2)).len(), 1);
    assert_eq!(store.journal(Ulid(3)).len(), 1);
    assert_eq!(
        store.cleanup(&CleanupCriteria {
            finished_before: at(1000),
            kind: None,
            status: Some(Status::Dead),
        }),
        0
    );
}

#[test]
fn stats_reports_live_state() {
    let mut store = MemoryStore::new();
    store
        .enqueue(&new_job(Ulid::new(), "alpha", at(0)))
        .expect("enqueue");
    store
        .enqueue(&new_job(Ulid::new(), "alpha", at(4)))
        .expect("enqueue");
    store
        .enqueue(&new_job(Ulid::new(), "beta", at(9)))
        .expect("enqueue");

    let snapshot = store.stats(at(10));
    assert_eq!(snapshot.pending_by_kind.get("alpha"), Some(&2));
    assert_eq!(snapshot.pending_by_kind.get("beta"), Some(&1));
    assert_eq!(snapshot.claimed, 0);
    assert_eq!(
        snapshot.oldest_pending_age.get("alpha"),
        Some(&Duration::from_secs(10))
    );
    assert_eq!(
        snapshot.oldest_pending_age.get("beta"),
        Some(&Duration::from_secs(1))
    );
    assert!(snapshot.dead_by_kind.is_empty());

    let job = claim(&mut store, "beta", "w", at(10)).expect("a job");
    assert!(store.settle(
        job.id,
        "w",
        1,
        Settlement::Dead {
            finished_at: at(11),
            failure_count: 1
        },
        entry("beta", 1, JournalOutcome::Dead),
    ).expect("journal room"));
    claim(&mut store, "alpha", "w", at(10)).expect("a job");
    let snapshot = store.stats(at(12));
    assert_eq!(snapshot.pending_by_kind.get("beta"), None);
    assert_eq!(snapshot.dead_by_kind.get("beta"), Some(&1));
    assert_eq!(snapshot.claimed, 1);
    assert_eq!(snapshot.pending_by_kind.get("alpha"), Some(&1));
    assert_eq!(
        snapshot.oldest_pending_age.get("alpha"),
        Some(&Duration::from_secs(8))
    );
}

#[test]
fn claim_orders_by_priority_then_age_then_id() {
    let mut store = MemoryStore::new();
    for job in [
        tiered(5, 2, at(0)),
        tiered(4, 1, at(3)),
        tiered(3, 1, at(2)),
        tiered(2, 0, at(9)),
        tiered(1, 1, at(2)),
    ] {
        store.enqueue(&job).expect("enqueue");
    }
    let mut order = Vec::new();
    while let Some(job) = claim(&mut store, "alpha", "w", at(100)) {
        order.push(job.id.0);
    }
    assert_eq!(order, vec![2, 1, 3, 4, 5]);
}

#[test]
fn claim_respects_the_floor_visibility_and_kinds() {
    let mut store = MemoryStore::new();
    store.enqueue(&tiered(1, 0, at(0))).expect("enqueue");
    store.enqueue(&tiered(2, 2, at(0))).expect("enqueue");
    store
        .enqueue(&NewJob {
            visible_at: at(50),
            ..new_job(Ulid(3), "later", at(0))
        })
        .expect("enqueue");
    let all = kinds(&["alpha", "later"]);
    let lease = Duration::from_secs(60);

    let low = store
        .claim_next(&all, 2, lease, "w", at(10))
        .expect("claim")
        .expect("the low job");
    assert_eq!(low.id.0, 2);
    assert!(store
        .claim_next(&all, 2, lease, "w", at(10))
        .expect("claim")
        .is_none());
    assert!(store
        .claim_next(&kinds(&["later"]), 0, lease, "w", at(49))
        .expect("claim")
        .is_none());
    assert_eq!(store.next_visible_at(&all, at(10)), Some(at(50)));
    assert_eq!(store.next_visible_at(&kinds(&["alpha"]), at(10)), None);
    assert_eq!(store.next_visible_at(&all, at(50)), None);
    let later = store
        .claim_next(&kinds(&["later"]), 0, lease, "w", at(50))
        .expect("claim")
        .expect("visible now");
    assert_eq!(later.id.0, 3);
    assert_eq!(later.claim_expires_at, Some(at(110)));
    assert_eq!(later.claimed_by.as_deref(), Some("w"));
    assert_eq!(later.run_count, 1);
}

#[test]
fn claimed_jobs_are_not_claimed_twice() {
    let mut store = MemoryStore::new();
    for n in 0..20u128 {
        store
            .enqueue(&new_job(Ulid(n), "alpha", at(0)))
            .expect("enqueue");
    }
    let mut seen = Vec::new();
    for n in 0..25 {
        let by = format!("worker-{}", n % 3);
        if let Some(job) = claim(&mut store, "alpha", &by, at(1)) {
            seen.push(job.id.0);
        }
    }
    assert_eq!(seen, (0..20).collect::<Vec<u128>>());
    assert_eq!(store.count(Status::Claimed), 20);
}

#[test]
fn run_numbers_above_the_column_are_refused() {
    let mut store = MemoryStore::new();
    store
        .enqueue(&new_job(Ulid(1), "alpha", at(0)))
        .expect("enqueue");
    let job = claim(&mut store, "alpha", "w", at(1)).expect("a job");
    assert_eq!(job.run_count, 1);
    match venturi::postgres::statements::storable_run_no(2_147_483_648) {
        Err(Error::RunNumberOutOfRange { run_no }) => assert_eq!(run_no, 2_147_483_648),
        other => panic!("expected RunNumberOutOfRange, got {other:?}"),
    }
    assert_eq!(
        venturi::postgres::statements::storable_run_no(2_147_483_647),
        Ok(2_147_483_647)
    );
}

#[test]
fn enqueue_rejects_an_unsupported_tier() {
    let mut store = MemoryStore::new();
    match store.enqueue(&tiered(1, 3, at(0))) {
        Err(Error::InvalidPriority { priority }) => assert_eq!(priority, 3),
        other => panic!("expected InvalidPriority, got {other:?}"),
    }
    assert!(store.job(Ulid(1)).is_none());
}

#[test]
fn expired_lease_is_recovered_as_a_failed_execution() {
    let mut store = MemoryStore::new();
    let id = Ulid::new();
    store.enqueue(&new_job(id, "unit", millis(0))).expect("enqueue");

    // Claim with a sub-second lease under a "dead" worker identity.
    let claimed = store
        .claim_next(
            &kinds(&["unit"]),
            0,
            Duration::from_millis(200),
            "deadworker",
            millis(0),
        )
        .expect("claim")
        .expect("a job to claim");
    assert_eq!(claimed.id, id);

    // Let the lease expire, then recovery should see it.
    assert!(store.find_stale(millis(200)).is_empty());
    let stale = store.find_stale(millis(400));
    assert_eq!(stale.len(), 1);
    assert_eq!(stale[0].id, id);

    let recovered = store.recover(
        id,
        millis(400),
        1,
        1,
        entry("unit", 1, JournalOutcome::StaleRecovered),
        millis(400),
    ).expect("journal room");
    assert!(recovered);
    assert!(store.find_stale(millis(400)).is_empty());

    let journal = store.journal(id);
    assert_eq!(journal.len(), 1);
    assert_eq!(journal[0].outcome, JournalOutcome::StaleRecovered);
    let job = store.job(id).expect("job");
    assert_eq!(job.status.as_str(), "pending");
    assert_eq!(job.failure_count, 1);
    assert_eq!(job.claimed_by, None);
}

#[test]
fn ownership_guard_prevents_double_settle() {
    let mut store = MemoryStore::new();
    let id = Ulid::new();
    store.enqueue(&new_job(id, "unit", millis(0))).expect("enqueue");

    // Worker A claims with a tiny lease and then loses it to recovery.
    let a = store
        .claim_next(
            &kinds(&["unit"]),
            0,
            Duration::from_millis(100),
            "worker-a",
            millis(0),
        )
        .expect("claim a")
        .expect("job");
    assert!(store.recover(
        id,
        millis(250),
        1,
        1,
        entry("unit", 1, JournalOutcome::StaleRecovered),
        millis(250),
    ).expect("journal room"));

    // Worker B reclaims the now-pending job.
    let b = claim(&mut store, "unit", "worker-b", millis(250)).expect("job");

    // Worker A's late settle must not apply; worker B's must.
    assert!(
        !complete(&mut store, &a, "worker-a", millis(300)),
        "the stale owner cannot settle"
    );
    assert!(
        complete(&mut store, &b, "worker-b", millis(300)),
        "the current owner settles"
    );
    assert_eq!(store.job(id).expect("job").status.as_str(), "completed");
}

#[test]
fn settle_rejects_a_stale_run_after_same_identity_reclaim() {
    let mut store = MemoryStore::new();
    let id = Ulid::new();
    store.enqueue(&new_job(id, "slow", millis(0))).expect("enqueue");
    let slow = kinds(&["slow"]);

    // First claim, under one identity, with a short lease that will expire.
    let first = store
        .claim_next(
            &slow,
            FLOOR_ALL,
            Duration::from_millis(40),
            "worker-a",
            millis(0),
        )
        .expect("claim")
        .expect("a job");
    assert_eq!(first.run_count, 1);

    // The lease expires and the SAME worker identity recovers and reclaims it.
    let recovered = store.recover(
        id,
        millis(70),
        1,
        first.run_count,
        entry("slow", 1, JournalOutcome::StaleRecovered),
        millis(70),
    ).expect("journal room");
    assert!(recovered);
    let second = store
        .claim_next(
            &slow,
            FLOOR_ALL,
            Duration::from_secs(60),
            "worker-a",
            millis(70),
        )
        .expect("claim")
        .expect("a job");
    assert_eq!(second.run_count, 2);

    // The first run's late completion must be rejected: the identity matches, but
    // its claim epoch is stale.
    assert!(
        !complete(&mut store, &first, "worker-a", millis(80)),
        "a stale run must not settle under a matching identity"
    );
    assert_eq!(store.job(id).expect("job").status, Status::Claimed);
    assert_eq!(store.journal(id).len(), 1);
    assert!(!store.extend_lease(
        id,
        "worker-a",
        first.run_count,
        Duration::from_secs(5),
        millis(80)
    ));

    // The live second claim settles normally.
    assert!(
        complete(&mut store, &second, "worker-a", millis(90)),
        "the live claim settles"
    );
    assert_eq!(store.count(Status::Completed), 1);
}

#[test]
fn recover_rejects_a_stale_snapshot_after_the_claim_advanced() {
    let mut store = MemoryStore::new();
    let id = Ulid::new();
    store.enqueue(&new_job(id, "slow", millis(0))).expect("enqueue");
    let slow = kinds(&["slow"]);
    let stale = |run_no: u32| entry("slow", run_no, JournalOutcome::StaleRecovered);

    // Claim under a short lease and take the stale snapshot (epoch 1).
    let snapshot = store
        .claim_next(
            &slow,
            FLOOR_ALL,
            Duration::from_millis(40),
            "worker-a",
            millis(0),
        )
        .expect("claim")
        .expect("a job");
    assert_eq!(snapshot.run_count, 1);

    // Another recovery path re-pends the job (epoch still 1), then it is reclaimed
    // (epoch 2) and that lease also expires.
    assert!(store.recover(id, millis(70), 1, snapshot.run_count, stale(1), millis(70)).expect("journal room"));
    let reclaim = store
        .claim_next(
            &slow,
            FLOOR_ALL,
            Duration::from_millis(40),
            "worker-a",
            millis(70),
        )
        .expect("reclaim")
        .expect("a job");
    assert_eq!(reclaim.run_count, 2);

    // The original snapshot's recover (epoch 1) arrives late.
    assert!(
        !store.recover(id, millis(140), 1, snapshot.run_count, stale(1), millis(140)).expect("journal room"),
        "a recovery from a superseded snapshot epoch must not apply"
    );

    // The live epoch-2 claim still recovers normally.
    assert!(
        store.recover(id, millis(140), 2, reclaim.run_count, stale(2), millis(140)).expect("journal room"),
        "the current claim epoch recovers"
    );
    assert_eq!(store.job(id).expect("job").status, Status::Pending);
}

#[test]
fn extend_lease_moves_the_expiry_of_a_held_claim() {
    let mut store = MemoryStore::new();
    store
        .enqueue(&new_job(Ulid(1), "unit", millis(0)))
        .expect("enqueue");
    let job = store
        .claim_next(
            &kinds(&["unit"]),
            0,
            Duration::from_millis(100),
            "w",
            millis(0),
        )
        .expect("claim")
        .expect("job");
    assert!(store.extend_lease(job.id, "w", 1, Duration::from_millis(500), millis(50)));
    assert!(store.find_stale(millis(200)).is_empty());
    assert!(!store.recover(
        job.id,
        millis(200),
        1,
        1,
        entry("unit", 1, JournalOutcome::StaleRecovered),
        millis(200),
    ).expect("journal room"));
    assert!(!store.extend_lease(job.id, "other", 1, Duration::from_secs(1), millis(60)));
    assert_eq!(store.find_stale(millis(551)).len(), 1);
}

#[test]
fn settlements_write_what_they_promise() {
    let mut store = MemoryStore::new();
    store
        .enqueue(&new_job(Ulid(1), "unit", at(0)))
        .expect("enqueue");
    let carry = serde_json::Value::from(5);

    let run = claim(&mut store, "unit", "w", at(1)).expect("job");
    assert!(store.settle(
        run.id,
        "w",
        1,
        Settlement::Retry {
            visible_at: at(5),
            failure_count: 1,
            carry: carry.clone()
        },
        entry("unit", 1, JournalOutcome::Retried),
    ).expect("journal room"));
    let job = store.job(Ulid(1)).expect("job");
    assert_eq!(job.status, Status::Pending);
    assert_eq!((job.visible_at, job.failure_count), (at(5), 1));
    assert_eq!(job.carry, carry);
    assert_eq!(job.claim_expires_at, None);

    assert!(claim(&mut store, "unit", "w", at(4)).is_none());
    let run = claim(&mut store, "unit", "w", at(5)).expect("job");
    assert_eq!(run.run_count, 2);
    assert!(store.settle(
        run.id,
        "w",
        2,
        Settlement::Release { visible_at: at(6) },
        entry("unit", 2, JournalOutcome::Released),
    ).expect("journal room"));
    let job = store.job(Ulid(1)).expect("job");
    assert_eq!((job.visible_at, job.failure_count), (at(6), 1));
    assert_eq!(job.carry, carry);

    let run = claim(&mut store, "unit", "w", at(6)).expect("job");
    assert!(store.settle(
        run.id,
        "w",
        3,
        Settlement::Dead {
            finished_at: at(7),
            failure_count: 2
        },
        entry("unit", 3, JournalOutcome::Dead),
    ).expect("journal room"));
    let job = store.job(Ulid(1)).expect("job");
    assert_eq!(job.status, Status::Dead);
    assert_eq!(job.finished_at, Some(at(7)));
    // A terminal job is out of reach.
    assert!(claim(&mut store, "unit", "w", at(100)).is_none());
    assert!(!store.merge_into(Ulid(1), None, entry("unit", 3, JournalOutcome::Merged)).expect("journal room"));
    let runs: Vec<u32> = store.journal(Ulid(1)).iter().map(|e| e.run_no).collect();
    assert_eq!(runs, vec![1, 2, 3]);
    let ids: Vec<i64> = store.journal(Ulid(1)).iter().map(|e| e.id).collect();
    assert_eq!(ids, vec![0, 1, 2]);
}

#[test]
fn merge_rewrites_only_pending_jobs_and_follows_the_new_priority() {
    let mut store = MemoryStore::new();
    for (n, created) in [(1u128, 0), (2, 1)] {
        store
            .enqueue(&NewJob {
                dedup_key: Some("k".into()),
                ..new_job(Ulid(n), "unit", at(created))
            })
            .expect("enqueue");
    }
    // The oldest sibling is the candidate.
    let candidate = store.dedup_candidate("unit", "k").expect("a sibling");
    assert_eq!(candidate.id.0, 1);
    assert!(store.dedup_candidate("unit", "other").is_none());
    assert!(store.dedup_candidate("other", "k").is_none());

    let update = MergePayload {
        payload: serde_json::Value::from(9),
        carry: serde_json::Value::from(1),
        priority: 2,
    };
    assert!(store.merge_into(
        Ulid(1),
        Some(update.clone()),
        entry("unit", 0, JournalOutcome::Merged)
    ).expect("journal room"));
    let job = store.job(Ulid(1)).expect("job");
    assert_eq!(job.payload, serde_json::Value::from(9));
    assert_eq!(job.priority, 2);
    assert_eq!(job.created_at, at(0));
    // Claim order follows the merged-in priority.
    let first = claim(&mut store, "unit", "w", at(10)).expect("job");
    assert_eq!(first.id.0, 2);
    // A claimed candidate is no longer mergeable.
    assert!(!store.merge_into(
        Ulid(2),
        Some(update),
        entry("unit", 1, JournalOutcome::Merged)
    ).expect("journal room"));
    assert!(store.journal(Ulid(2)).is_empty());
}
