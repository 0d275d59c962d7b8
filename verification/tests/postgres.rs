//! The PostgreSQL adapter's rules: prefixes, statements, rows, migrations, wakeups.
use time::OffsetDateTime;
use ulid::Ulid;
use venturi::error::Error;
use venturi::instants::{Duration, Timestamp};
use venturi::postgres::connection::{connection, with_parameters};
use venturi::postgres::migrations::{
    history_from_parts, parse_u64, prepare, read_history, read_history_row, render, rendered_migrations,
    HistoryField, HistoryRow, RenderedMigration, V1_INITIAL,
};
use venturi::postgres::notify::{
    keep_forwarding, listen_text, on_message, Delivery, Forward, Message,
};
use venturi::postgres::prefix::{
    advisory_lock_id, channel, describe_problem, history_table, prefix_problem, validate_prefix,
    PrefixProblem, TablePrefix, LONGEST_SUFFIX_LEN,
};
use venturi::postgres::rows::{
    job_from_row, journal_from_row, snapshot_from_rows, DeadRow, JobRow, JournalRow, PendingRow,
};
use venturi::postgres::statements::{
    claim_next, claimed_stats, cleanup, dead_stats, dedup_candidate, enqueue, extend_lease,
    find_stale, job, journal, lock, merge_into, next_visible_at, notifies_on_repend, notify,
    pending_stats, query_jobs, recover, settle, unlock, Param, Statement, JOB_COLUMNS,
};
use venturi::store::{
    CleanupCriteria, HistoryFilter, JournalAppend, JournalOutcome, MergePayload, NewJob,
    Settlement, Status,
};

fn at(seconds: i64) -> Timestamp {
    Timestamp::from_unix(1_700_000_000 + seconds, 0).expect("valid fixed timestamp")
}

fn prefix() -> TablePrefix {
    TablePrefix::new("venturi").expect("a safe prefix")
}

fn id() -> Ulid {
    Ulid::from_string("01ARZ3NDEKTSV4RRFFQ69G5FAV").expect("valid ULID")
}

fn params(statement: &Statement) -> String {
    format!("{:?}", statement.params)
}

fn entry(run_no: u32, outcome: JournalOutcome) -> JournalAppend {
    JournalAppend {
        kind: "demo".to_owned(),
        run_no,
        recorded_at: at(0),
        outcome,
        note: Some("n".to_owned()),
        attachment: None,
    }
}

#[test]
fn accepts_a_reasonable_prefix() {
    assert!(validate_prefix("venturi").is_ok());
    assert!(validate_prefix("jobs_v2").is_ok());
    assert!(validate_prefix("a").is_ok());
}

#[test]
fn rejects_empty_prefix() {
    assert!(validate_prefix("").is_err());
}

#[test]
fn rejects_prefix_with_uppercase_or_symbols() {
    assert!(validate_prefix("Venturi").is_err());
    assert!(validate_prefix("jobs-v2").is_err());
    assert!(validate_prefix("jobs;drop").is_err());
    assert!(validate_prefix("1jobs").is_err());
}

#[test]
fn rejects_overlong_prefix() {
    let max = 63 - LONGEST_SUFFIX_LEN;
    let ok = "a".repeat(max);
    let too_long = "a".repeat(max + 1);
    assert!(validate_prefix(&ok).is_ok());
    assert!(validate_prefix(&too_long).is_err());
    assert_eq!(LONGEST_SUFFIX_LEN, "_refinery_schema_history".len());
}

#[test]
fn prefix_errors_say_what_is_wrong() {
    let message = |prefix: &str| match validate_prefix(prefix) {
        Err(Error::Config(text)) => text,
        other => panic!("expected a configuration error, got {other:?}"),
    };
    assert_eq!(message(""), "table prefix must not be empty");
    assert_eq!(
        message("Venturi"),
        "table prefix \"Venturi\" must start with a lowercase ASCII letter"
    );
    assert_eq!(
        message("jobs'v2-x"),
        "table prefix \"jobs'v2-x\" contains the disallowed character '\\''; only [a-z0-9_] are permitted"
    );
    let long = "a".repeat(40);
    assert_eq!(
        message(&long),
        format!(
            "table prefix \"{long}\" is too long (40 chars); at most 39 are allowed so every generated identifier stays within PostgreSQL's 63-character limit"
        )
    );
    // The length counts bytes, and the first disallowed character is named.
    assert_eq!(
        prefix_problem(&"é".repeat(20)),
        Some(PrefixProblem::TooLong(40))
    );
    assert_eq!(
        prefix_problem("aéb-"),
        Some(PrefixProblem::BadChar('é'))
    );
    assert_eq!(prefix_problem("_a"), Some(PrefixProblem::BadStart));
    assert_eq!(prefix_problem("a_9"), None);
    assert_eq!(
        describe_problem(PrefixProblem::BadChar('!'), "<p>", "<c>"),
        "table prefix <p> contains the disallowed character <c>; only [a-z0-9_] are permitted"
    );
    assert!(TablePrefix::new("No").is_err());
    assert_eq!(prefix().as_str(), "venturi");
}

#[test]
fn advisory_lock_id_is_stable_and_distinct() {
    assert_eq!(advisory_lock_id("venturi"), advisory_lock_id("venturi"));
    assert_ne!(advisory_lock_id("venturi"), advisory_lock_id("other"));
}

#[test]
fn advisory_lock_id_is_the_fnv1a_hash() {
    // Published FNV-1a test vectors, read as signed 64-bit numbers.
    assert_eq!(advisory_lock_id(""), 0xcbf2_9ce4_8422_2325u64 as i64);
    assert_eq!(advisory_lock_id("a"), 0xaf63_dc4c_8601_ec8cu64 as i64);
    assert_ne!(advisory_lock_id("jobs_a"), advisory_lock_id("jobs_b"));
    assert_eq!(advisory_lock_id("foobar"), 0x8594_4171_f739_67e8u64 as i64);
}

#[test]
fn names_are_built_from_the_prefix() {
    assert_eq!(channel("venturi"), "venturi_jobs");
    assert_eq!(history_table("venturi"), "venturi_refinery_schema_history");
    assert_eq!(listen_text("venturi_jobs"), "LISTEN venturi_jobs");
}

#[test]
fn repending_settlements_notify_and_terminal_ones_do_not() {
    let now = at(0);
    let carry = serde_json::Value::Null;

    // Re-pending: the job returns to the claimable set and workers must wake.
    assert!(notifies_on_repend(&Settlement::Retry {
        visible_at: now,
        failure_count: 1,
        carry: carry.clone(),
    }));
    assert!(notifies_on_repend(&Settlement::Pause {
        visible_at: now,
        carry,
    }));
    assert!(notifies_on_repend(&Settlement::Release { visible_at: now }));

    // Terminal: no claimable work is produced, so no wakeup.
    assert!(!notifies_on_repend(&Settlement::Complete {
        finished_at: now
    }));
    assert!(!notifies_on_repend(&Settlement::Dead {
        finished_at: now,
        failure_count: 3,
    }));
}

#[test]
fn enqueue_inserts_and_notifies() {
    let new = NewJob {
        id: id(),
        kind: "demo".to_owned(),
        payload: serde_json::Value::from(1),
        priority: 2,
        created_at: at(0),
        visible_at: at(5),
        carry: serde_json::Value::Null,
        dedup_key: Some("k".to_owned()),
    };
    let (insert, wake) = enqueue(&prefix(), &new).expect("a supported tier");
    assert_eq!(
        insert.sql,
        "INSERT INTO venturi_jobs (id, kind, payload, priority, status, created_at, visible_at, run_count, failure_count, carry, dedup_key) VALUES ($1, $2, $3, $4, 'pending', $5, $6, 0, 0, $7, $8)"
    );
    assert_eq!(insert.params.len(), 8);
    assert!(matches!(&insert.params[0], Param::Text(text) if text == "01ARZ3NDEKTSV4RRFFQ69G5FAV"));
    assert!(matches!(&insert.params[3], Param::SmallInt(2)));
    assert!(matches!(&insert.params[7], Param::OptionalText(Some(key)) if key == "k"));
    assert_eq!(wake.sql, "SELECT pg_notify($1, '')");
    assert!(matches!(&wake.params[0], Param::Text(text) if text == "venturi_jobs"));

    let bad = NewJob {
        priority: -1,
        ..new
    };
    assert!(matches!(
        enqueue(&prefix(), &bad),
        Err(Error::InvalidPriority { priority: -1 })
    ));
}

#[test]
fn claim_is_one_atomic_statement() {
    let claim = claim_next(
        &prefix(),
        &["a".to_owned(), "b".to_owned()],
        1,
        Duration::from_secs(60),
        "host:1",
    );
    assert_eq!(
        claim.sql,
        format!(
            "UPDATE venturi_jobs SET status = 'claimed', claimed_by = $1, claim_expires_at = now() + interval '1 second' * $2, run_count = run_count + 1 WHERE id = ( SELECT id FROM venturi_jobs WHERE status = 'pending' AND visible_at <= now() AND kind = ANY($3) AND priority >= $4 ORDER BY priority, created_at LIMIT 1 FOR UPDATE SKIP LOCKED ) RETURNING {JOB_COLUMNS}"
        )
    );
    assert!(matches!(&claim.params[1], Param::Seconds(d) if *d == Duration::from_secs(60)));
    assert!(matches!(&claim.params[2], Param::Texts(kinds) if kinds.len() == 2));
    assert!(matches!(&claim.params[3], Param::SmallInt(1)));
}

#[test]
fn settle_is_guarded_journaled_and_wakes_on_repend() {
    let retry = Settlement::Retry {
        visible_at: at(9),
        failure_count: 2,
        carry: serde_json::Value::from(3),
    };
    let write = settle(
        &prefix(),
        id(),
        "host:1",
        4,
        &retry,
        &entry(4, JournalOutcome::Retried),
    )
    .expect("storable run numbers");
    assert_eq!(
        write.update.sql,
        "UPDATE venturi_jobs SET status = 'pending', visible_at = $4, failure_count = $5, carry = $6, claimed_by = NULL, claim_expires_at = NULL WHERE id = $1 AND claimed_by = $2 AND run_count = $3 AND status = 'claimed'"
    );
    assert_eq!(write.update.params.len(), 6);
    assert!(matches!(&write.update.params[2], Param::Integer(4)));
    assert!(matches!(&write.update.params[4], Param::Integer(2)));
    let after = write.follow_up.after(1);
    assert_eq!(after.len(), 2);
    assert_eq!(
        after[0].sql,
        "INSERT INTO venturi_journal (job_id, kind, run_no, recorded_at, outcome, note, attachment) VALUES ($1, $2, $3, $4, $5, $6, $7)"
    );
    assert!(matches!(&after[0].params[4], Param::Text(text) if text == "retried"));
    assert_eq!(after[1].sql, "SELECT pg_notify($1, '')");
}

#[test]
fn terminal_settlements_do_not_wake_and_misses_leave_no_trace() {
    let cases = [
        (
            Settlement::Complete { finished_at: at(1) },
            "status = 'completed', finished_at = $4,",
            4,
            1,
        ),
        (
            Settlement::Dead {
                finished_at: at(1),
                failure_count: 3,
            },
            "status = 'dead', finished_at = $4, failure_count = $5,",
            5,
            1,
        ),
        (
            Settlement::Pause {
                visible_at: at(1),
                carry: serde_json::Value::Null,
            },
            "status = 'pending', visible_at = $4, carry = $5,",
            5,
            2,
        ),
        (
            Settlement::Release { visible_at: at(1) },
            "status = 'pending', visible_at = $4,",
            4,
            2,
        ),
    ];
    for (settlement, set, bound, follow) in cases {
        let build = || {
            settle(
                &prefix(),
                id(),
                "w",
                1,
                &settlement,
                &entry(1, JournalOutcome::Completed),
            )
            .expect("storable run numbers")
        };
        let write = build();
        assert!(write.update.sql.contains(set), "{}", write.update.sql);
        assert_eq!(write.update.params.len(), bound);
        assert_eq!(write.follow_up.after(1).len(), follow);
        assert!(build().follow_up.after(0).is_empty());
    }
}

#[test]
fn unstorable_run_numbers_are_refused() {
    let complete = Settlement::Complete { finished_at: at(1) };
    let too_big = 2_147_483_648u32;
    let refused = settle(
        &prefix(),
        id(),
        "w",
        too_big,
        &complete,
        &entry(1, JournalOutcome::Completed),
    );
    assert!(matches!(
        refused,
        Err(Error::RunNumberOutOfRange { run_no }) if run_no == too_big
    ));
    let refused = settle(
        &prefix(),
        id(),
        "w",
        1,
        &complete,
        &entry(u32::MAX, JournalOutcome::Completed),
    );
    assert!(matches!(
        refused,
        Err(Error::RunNumberOutOfRange { run_no: u32::MAX })
    ));
    assert!(extend_lease(&prefix(), id(), "w", too_big, Duration::from_secs(1)).is_err());
    assert!(recover(
        &prefix(),
        id(),
        at(0),
        1,
        too_big,
        &entry(1, JournalOutcome::StaleRecovered)
    )
    .is_err());
    assert!(merge_into(
        &prefix(),
        id(),
        None,
        &entry(too_big, JournalOutcome::Merged)
    )
    .is_err());
}

#[test]
fn recover_is_guarded_by_the_epoch_and_wakes() {
    let write = recover(
        &prefix(),
        id(),
        at(3),
        2,
        7,
        &entry(7, JournalOutcome::StaleRecovered),
    )
    .expect("storable run numbers");
    assert_eq!(
        write.update.sql,
        "UPDATE venturi_jobs SET status = 'pending', visible_at = $2, failure_count = $3, claimed_by = NULL, claim_expires_at = NULL WHERE id = $1 AND status = 'claimed' AND claim_expires_at < now() AND run_count = $4"
    );
    assert!(matches!(&write.update.params[3], Param::Integer(7)));
    assert_eq!(write.follow_up.after(1).len(), 2);
    let extend = extend_lease(&prefix(), id(), "w", 7, Duration::from_secs(5)).expect("storable");
    assert_eq!(
        extend.sql,
        "UPDATE venturi_jobs SET claim_expires_at = now() + interval '1 second' * $4 WHERE id = $1 AND claimed_by = $2 AND run_count = $3 AND status = 'claimed'"
    );
}

#[test]
fn merge_rewrites_or_probes_a_pending_job() {
    let keep = merge_into(&prefix(), id(), None, &entry(0, JournalOutcome::Merged))
        .expect("storable run number");
    assert_eq!(
        keep.update.sql,
        "UPDATE venturi_jobs SET dedup_key = dedup_key WHERE id = $1 AND status = 'pending'"
    );
    assert_eq!(keep.follow_up.after(1).len(), 1);
    let update = MergePayload {
        payload: serde_json::Value::from(1),
        carry: serde_json::Value::from(2),
        priority: 0,
    };
    let replace = merge_into(
        &prefix(),
        id(),
        Some(update),
        &entry(0, JournalOutcome::Merged),
    )
    .expect("storable run number");
    assert_eq!(
        replace.update.sql,
        "UPDATE venturi_jobs SET payload = $2, carry = $3, priority = $4 WHERE id = $1 AND status = 'pending'"
    );
    assert_eq!(replace.update.params.len(), 4);
}

#[test]
fn history_query_binds_each_set_field_in_order() {
    let none = query_jobs(&prefix(), &HistoryFilter::default());
    assert_eq!(
        none.sql,
        format!("SELECT {JOB_COLUMNS} FROM venturi_jobs  ORDER BY created_at DESC, id DESC ")
    );
    assert!(none.params.is_empty());

    let all = query_jobs(
        &prefix(),
        &HistoryFilter {
            kind: Some("demo".to_owned()),
            status: Some(Status::Dead),
            finished_since: Some(at(1)),
            finished_until: Some(at(2)),
            created_before: Some((at(3), id())),
            limit: Some(10),
        },
    );
    assert_eq!(
        all.sql,
        format!(
            "SELECT {JOB_COLUMNS} FROM venturi_jobs WHERE kind = $1 AND status = $2 AND finished_at >= $3 AND finished_at < $4 AND (created_at, id) < ($5, $6) ORDER BY created_at DESC, id DESC LIMIT $7"
        )
    );
    assert_eq!(all.params.len(), 7);
    assert!(params(&all).contains("\"dead\""));
    assert!(matches!(&all.params[6], Param::BigInt(10)));

    let some = query_jobs(
        &prefix(),
        &HistoryFilter {
            status: Some(Status::Pending),
            created_before: Some((at(3), id())),
            ..Default::default()
        },
    );
    assert!(some
        .sql
        .contains("WHERE status = $1 AND (created_at, id) < ($2, $3) ORDER BY"));
}

#[test]
fn cleanup_is_restricted_to_terminal_jobs() {
    let plain = cleanup(
        &prefix(),
        &CleanupCriteria {
            finished_before: at(0),
            kind: None,
            status: None,
        },
    );
    assert_eq!(
        plain.sql,
        "DELETE FROM venturi_jobs WHERE finished_at IS NOT NULL AND finished_at < $1"
    );
    let narrow = cleanup(
        &prefix(),
        &CleanupCriteria {
            finished_before: at(0),
            kind: Some("demo".to_owned()),
            status: Some(Status::Completed),
        },
    );
    assert_eq!(
        narrow.sql,
        "DELETE FROM venturi_jobs WHERE finished_at IS NOT NULL AND finished_at < $1 AND kind = $2 AND status = $3"
    );
    assert_eq!(narrow.params.len(), 3);
}

#[test]
fn reads_select_the_fixed_columns() {
    let p = prefix();
    assert_eq!(
        journal(&p, id()).sql,
        "SELECT id, job_id, kind, run_no, recorded_at, outcome, note, attachment FROM venturi_journal WHERE job_id = $1 ORDER BY id"
    );
    assert_eq!(
        next_visible_at(&p, &["a".to_owned()]).sql,
        "SELECT min(visible_at) FROM venturi_jobs WHERE status = 'pending' AND kind = ANY($1) AND visible_at > now()"
    );
    assert_eq!(
        find_stale(&p).sql,
        format!(
            "SELECT {JOB_COLUMNS} FROM venturi_jobs WHERE status = 'claimed' AND claim_expires_at < now() ORDER BY claim_expires_at LIMIT 100"
        )
    );
    assert_eq!(
        job(&p, id()).sql,
        format!("SELECT {JOB_COLUMNS} FROM venturi_jobs WHERE id = $1")
    );
    assert_eq!(
        dedup_candidate(&p, "a", "k").sql,
        format!(
            "SELECT {JOB_COLUMNS} FROM venturi_jobs WHERE kind = $1 AND dedup_key = $2 AND status = 'pending' ORDER BY created_at LIMIT 1"
        )
    );
    assert_eq!(
        pending_stats(&p).sql,
        "SELECT kind, count(*), min(created_at) FROM venturi_jobs WHERE status = 'pending' GROUP BY kind"
    );
    assert_eq!(
        claimed_stats(&p).sql,
        "SELECT count(*) FROM venturi_jobs WHERE status = 'claimed'"
    );
    assert_eq!(
        dead_stats(&p).sql,
        "SELECT kind, count(*) FROM venturi_jobs WHERE status = 'dead' GROUP BY kind"
    );
    assert_eq!(lock(5).sql, "SELECT pg_advisory_lock($1)");
    assert_eq!(unlock(5).sql, "SELECT pg_advisory_unlock($1)");
    assert!(matches!(&unlock(-5).params[0], Param::BigInt(-5)));
    assert_eq!(notify(&p).params.len(), 1);
}

fn job_row(id: &str, status: &str, run_count: i32) -> JobRow {
    JobRow {
        id: id.to_owned(),
        kind: "demo".to_owned(),
        payload: serde_json::Value::from(1),
        priority: 1,
        status: status.to_owned(),
        created_at: at(0),
        visible_at: at(1),
        claim_expires_at: Some(at(2)),
        claimed_by: Some("w".to_owned()),
        finished_at: None,
        run_count,
        failure_count: 4,
        carry: serde_json::Value::from(2),
        dedup_key: Some("k".to_owned()),
    }
}

#[test]
fn job_rows_decode_or_say_what_is_wrong() {
    let record =
        job_from_row(job_row("01ARZ3NDEKTSV4RRFFQ69G5FAV", "claimed", 3)).expect("a good row");
    assert_eq!(record.id, id());
    assert_eq!(record.status, Status::Claimed);
    assert_eq!(record.run_count, 3);
    assert_eq!(record.failure_count, 4);
    assert_eq!(record.claimed_by.as_deref(), Some("w"));
    assert_eq!(record.carry, serde_json::Value::from(2));

    // Lower case is accepted, a negative run count reads as none.
    let record =
        job_from_row(job_row("01arz3ndektsv4rrffq69g5fav", "pending", -1)).expect("a good row");
    assert_eq!(record.id, id());
    assert_eq!(record.run_count, 0);

    let message = |row: JobRow| match job_from_row(row) {
        Err(Error::Config(text)) => text,
        other => panic!("expected a configuration error, got {other:?}"),
    };
    assert_eq!(
        message(job_row("short", "pending", 0)),
        "stored job id \"short\" is not a valid ULID"
    );
    assert_eq!(
        message(job_row("01ARZ3NDEKTSV4RRFFQ69G5FAU", "lost", 0)),
        "stored job id \"01ARZ3NDEKTSV4RRFFQ69G5FAU\" is not a valid ULID"
    );
    assert_eq!(
        message(job_row("01ARZ3NDEKTSV4RRFFQ69G5FAV", "lost", 0)),
        "stored job status \"lost\" is unknown"
    );
}

#[test]
fn id_texts_keep_their_low_128_bits() {
    let record =
        job_from_row(job_row("ZZZZZZZZZZZZZZZZZZZZZZZZZZ", "dead", 0)).expect("26 digits");
    assert_eq!(record.id.0, u128::MAX);
    let record =
        job_from_row(job_row("7ZZZZZZZZZZZZZZZZZZZZZZZZZ", "dead", 0)).expect("26 digits");
    assert_eq!(record.id.0, u128::MAX);
    // Identities sort by text as they sort by value.
    let small = Ulid(0x0123_4567_89ab_cdef);
    assert!(small < id());
    assert!(small.to_string() < id().to_string());
}

#[test]
fn journal_rows_decode_or_say_what_is_wrong() {
    let row = |job_id: &str, outcome: &str| JournalRow {
        id: 9,
        job_id: job_id.to_owned(),
        kind: "demo".to_owned(),
        run_no: 2,
        recorded_at: at(0),
        outcome: outcome.to_owned(),
        note: None,
        attachment: None,
    };
    let record = journal_from_row(row("01ARZ3NDEKTSV4RRFFQ69G5FAV", "stale-recovered"))
        .expect("a good row");
    assert_eq!(record.id, 9);
    assert_eq!(record.job_id, id());
    assert_eq!(record.run_no, 2);
    assert_eq!(record.outcome, JournalOutcome::StaleRecovered);
    let message = |row: JournalRow| match journal_from_row(row) {
        Err(Error::Config(text)) => text,
        other => panic!("expected a configuration error, got {other:?}"),
    };
    assert_eq!(
        message(row("", "merged")),
        "journal job_id \"\" is not a valid ULID"
    );
    assert_eq!(
        message(row("01ARZ3NDEKTSV4RRFFQ69G5FAV", "won")),
        "journal outcome \"won\" is unknown"
    );
}

#[test]
fn grouped_counts_become_a_snapshot() {
    let snapshot = snapshot_from_rows(
        vec![
            PendingRow {
                kind: "b".to_owned(),
                count: 3,
                oldest: at(0),
            },
            PendingRow {
                kind: "a".to_owned(),
                count: -1,
                oldest: at(99),
            },
        ],
        4,
        vec![DeadRow {
            kind: "b".to_owned(),
            count: 1,
        }],
        at(60),
    );
    assert_eq!(snapshot.pending_by_kind.get("b"), Some(&3));
    assert_eq!(snapshot.pending_by_kind.get("a"), Some(&0));
    assert_eq!(snapshot.pending_by_kind.kinds(), vec!["a", "b"]);
    assert_eq!(
        snapshot.oldest_pending_age.get("b"),
        Some(&Duration::from_secs(60))
    );
    assert_eq!(
        snapshot.oldest_pending_age.get("a"),
        Some(&Duration::zero())
    );
    assert_eq!(snapshot.claimed, 4);
    assert_eq!(snapshot.dead_by_kind.get("b"), Some(&1));
    assert_eq!(
        snapshot_from_rows(Vec::new(), -4, Vec::new(), at(0)).claimed,
        0
    );
}

#[test]
fn migrations_substitute_the_prefix_everywhere() {
    assert_eq!(
        render("{{prefix}}_a {{prefix}} {{{prefix}}}", "q"),
        "q_a q {q}"
    );
    assert_eq!(render("nothing", "q"), "nothing");
    let all = rendered_migrations("alpha");
    let names: Vec<&str> = all.iter().map(|m| m.name).collect();
    assert_eq!(
        names,
        vec!["V1__initial", "V2__history_cursor", "V3__index_tuning"]
    );
    for migration in &all {
        assert!(!migration.body.contains("{{prefix}}"));
        assert!(migration.body.contains("alpha_jobs"));
    }
    assert!(all[0].body.contains("CREATE TABLE alpha_journal"));
    assert_eq!(all[0].body, V1_INITIAL.replace("{{prefix}}", "alpha"));
    // The runner reads the version and the description from the name.
    let prepared = prepare(&all).expect("well-formed names");
    assert_eq!(prepared.len(), 3);
    let first = &prepared[0];
    assert_eq!((first.version(), first.name()), (1, "initial"));
    assert_eq!(first.sql(), Some(all[0].body.as_str()));
    assert_eq!(prepared[2].version(), 3);
    let odd = vec![RenderedMigration {
        name: "initial",
        body: String::new(),
    }];
    match prepare(&odd) {
        Err(Error::Migration(text)) => {
            let refusal = refinery_core::Migration::unapplied("initial", "").unwrap_err();
            assert_eq!(text, refusal.to_string());
            assert_eq!(
                text,
                "migration name must be in the format V{number}__{name}"
            );
        }
        _ => panic!("expected the runner's refusal"),
    }
    // A name that starts with a bar is refused before it reaches the runner.
    let barred = vec![RenderedMigration {
        name: "|1__x",
        body: String::new(),
    }];
    assert!(
        matches!(prepare(&barred), Err(Error::Migration(text)) if text == "a migration name starts with U or V")
    );
    // Two prefixes share nothing but the names.
    let other = rendered_migrations("beta");
    assert_eq!(other[0].name, all[0].name);
    assert_ne!(other[0].body, all[0].body);
}

#[test]
fn checksums_parse_like_unsigned_integers() {
    assert_eq!(parse_u64("0"), Some(0));
    assert_eq!(parse_u64("+42"), Some(42));
    assert_eq!(parse_u64("007"), Some(7));
    assert_eq!(parse_u64("18446744073709551615"), Some(u64::MAX));
    for bad in [
        "",
        "+",
        "-1",
        " 1",
        "1x",
        "++1",
        "18446744073709551616",
        "99999999999999999999999",
    ] {
        assert_eq!(parse_u64(bad), None, "{bad:?}");
        assert!(bad.parse::<u64>().is_err());
    }
}

fn history(applied_on: &str, checksum: &str) -> HistoryRow {
    HistoryRow {
        version: 2,
        name: "history_cursor".to_owned(),
        applied_on: applied_on.to_owned(),
        checksum: checksum.to_owned(),
    }
}

#[test]
fn history_rows_parse_or_name_the_malformed_column() {
    let applied =
        read_history_row(history("2024-01-02T03:04:05.5+01:00", "17")).expect("a good row");
    assert_eq!(applied.version, 2);
    assert_eq!(applied.name, "history_cursor");
    assert_eq!(
        applied.applied_on.unix_timestamp_nanos(),
        1_704_161_045_500_000_000
    );
    assert_eq!(applied.applied_on.offset().whole_seconds(), 3_600);
    assert_eq!(applied.checksum, 17);

    let bad_time = read_history_row(history("yesterday", "17")).unwrap_err();
    assert_eq!(bad_time.field, HistoryField::AppliedOn);
    assert_eq!(
        bad_time.message(),
        "migration history row has a malformed applied_on: \"yesterday\""
    );
    let bad_sum = read_history_row(history("2024-01-02T03:04:05Z", "x")).unwrap_err();
    assert_eq!(bad_sum.field, HistoryField::Checksum);
    assert_eq!(bad_sum.value, "x");
    assert_eq!(
        bad_sum.message_quoting("<x>"),
        "migration history row has a malformed checksum: <x>"
    );
    let epoch = OffsetDateTime::UNIX_EPOCH;
    let parts = history_from_parts(history("whatever", "5"), Some(epoch)).expect("given parts");
    assert_eq!(parts.applied_on, epoch);
    assert_eq!(parts.checksum, 5);
}

#[test]
fn a_history_time_past_the_last_utc_year_is_kept() {
    let applied =
        read_history_row(history("9999-12-31T23:59:59-02:00", "17")).expect("a good row");
    assert_eq!(applied.applied_on.year(), 9999);
    assert_eq!(applied.applied_on.offset().whole_seconds(), -7_200);
}

#[test]
fn history_reads_every_row_or_the_first_bad_one() {
    let good = || history("2024-01-02T03:04:05Z", "17");
    let read = read_history(vec![good(), history("2024-01-02T03:04:06Z", "18")]);
    let sums: Vec<u64> = read.expect("good rows").iter().map(|m| m.checksum).collect();
    assert_eq!(sums, vec![17, 18]);
    assert!(read_history(Vec::new()).expect("no rows").is_empty());
    let bad = read_history(vec![
        good(),
        history("2024-01-02T03:04:05Z", "first"),
        history("second", "17"),
    ])
    .unwrap_err();
    assert_eq!(bad.field, HistoryField::Checksum);
    assert_eq!(bad.value, "first");
}

#[test]
fn notifications_are_forwarded_until_nobody_listens() {
    assert_eq!(on_message(Message::Notification), Forward::Wake);
    assert_eq!(on_message(Message::Other), Forward::Skip);
    assert_eq!(on_message(Message::Failed), Forward::End);
    assert_eq!(on_message(Message::Closed), Forward::End);
    assert!(keep_forwarding(Delivery::Sent));
    assert!(keep_forwarding(Delivery::AlreadyPending));
    assert!(!keep_forwarding(Delivery::NoReceiver));
}

#[test]
fn a_connection_string_gives_the_driver_its_parameters() {
    let (config, prefix) =
        connection("host=db.example user=queue dbname=jobs port=5433", "venturi")
            .expect("a good string");
    assert_eq!(config.get_user(), Some("queue"));
    assert_eq!(config.get_dbname(), Some("jobs"));
    assert_eq!(config.get_ports(), [5433]);
    assert_eq!(prefix.as_str(), "venturi");

    let (config, prefix) =
        connection("postgresql://queue@db.example:5434/jobs", "q2").expect("a good URL");
    assert_eq!(config.get_user(), Some("queue"));
    assert_eq!(config.get_dbname(), Some("jobs"));
    assert_eq!(config.get_ports(), [5434]);
    assert_eq!(prefix.as_str(), "q2");
}

#[test]
fn a_malformed_connection_string_is_reported_before_the_prefix() {
    for prefix in ["venturi", "Bad Prefix"] {
        let refused = connection("host", prefix).expect_err("no value");
        assert!(matches!(&refused, Error::Database(text) if text == "invalid connection string"));
        assert_eq!(
            refused.message(),
            "while talking to PostgreSQL: invalid connection string"
        );
    }
    assert!(matches!(
        connection("port=many", "venturi"),
        Err(Error::Database(_))
    ));
}

#[test]
fn an_unsafe_prefix_is_refused_after_the_connection_string() {
    let refused = connection("host=localhost", "Bad").expect_err("an unsafe prefix");
    let expected = TablePrefix::new("Bad").expect_err("an unsafe prefix");
    assert!(matches!(refused, Error::Config(_)));
    assert_eq!(refused.message(), expected.message());
}

#[test]
fn parsed_parameters_are_paired_with_the_prefix() {
    let mut given = tokio_postgres::Config::new();
    given.user("queue").application_name("worker");
    let (config, prefix) = with_parameters(Ok(given.clone()), "venturi").expect("safe");
    assert_eq!(config, given);
    assert_eq!(prefix.as_str(), "venturi");
    assert!(matches!(
        with_parameters(Ok(given), ""),
        Err(Error::Config(_))
    ));
    assert!(matches!(
        with_parameters(Err("no such key".to_owned()), ""),
        Err(Error::Database(text)) if text == "no such key"
    ));
}
