//! The per-run context and the history it shows.
use tokio_util::sync::CancellationToken;
use ulid::Ulid;
use venturi::context::{history_from_records, Context};
use venturi::instants::Timestamp;
use venturi::store::{JournalOutcome, JournalRecord};

fn record(run_no: u32, outcome: JournalOutcome) -> JournalRecord {
    JournalRecord {
        id: i64::from(run_no),
        job_id: Ulid::nil(),
        kind: "demo".to_owned(),
        run_no,
        recorded_at: Timestamp::from_unix(i64::from(run_no), 0).expect("representable"),
        outcome,
        note: Some(format!("run {run_no}")),
        attachment: Some(serde_json::Value::from(run_no)),
    }
}

#[test]
fn id_returns_the_job_id_the_context_was_built_with() {
    let id = Ulid::new();
    let ctx = Context::new(id, 1, Vec::new(), (), CancellationToken::new());
    assert_eq!(ctx.id(), id);
}

#[test]
fn cancellation_token_tracks_the_runs_cancellation() {
    let cancel = CancellationToken::new();
    let ctx = Context::new(Ulid::new(), 1, Vec::new(), (), cancel.clone());
    let token = ctx.cancellation_token();
    assert!(!token.is_cancelled());
    // Cancelling the source the run was built with cancels the handed-out clone.
    cancel.cancel();
    assert!(token.is_cancelled());
    assert!(ctx.is_cancelled());
}

#[test]
fn carry_and_attachment_come_back_after_the_run() {
    let mut ctx = Context::new(Ulid::nil(), 4, Vec::new(), 7u32, CancellationToken::new());
    assert_eq!(ctx.run_count(), 4);
    *ctx.carry_mut() += 1;
    assert_eq!(*ctx.carry(), 8);
    ctx.set_attachment(serde_json::Value::from("first"));
    ctx.set_attachment(serde_json::Value::from("last"));
    let (carry, attachment) = ctx.into_parts();
    assert_eq!(carry, 8);
    assert_eq!(attachment, Some(serde_json::Value::from("last")));
}

#[test]
fn history_shows_prior_entries_in_order() {
    let history = history_from_records(vec![
        record(1, JournalOutcome::Retried),
        record(2, JournalOutcome::Paused),
    ]);
    let ctx = Context::new(Ulid::nil(), 3, history, (), CancellationToken::new());
    let entries = ctx.history();
    assert_eq!(entries.len(), 2);
    assert_eq!(entries[0].run_no(), 1);
    assert!(entries[0].is_failure());
    assert_eq!(entries[1].outcome(), JournalOutcome::Paused);
    assert!(!entries[1].is_failure());
    assert_eq!(entries[1].note(), Some("run 2"));
    assert_eq!(entries[1].attachment(), Some(&serde_json::Value::from(2)));
    assert_eq!(entries[1].recorded_at().unix_parts(), (2, 0));
}
