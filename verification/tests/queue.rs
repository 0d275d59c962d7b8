//! The deduplication-aware enqueue, driven against the in-memory store.
use ulid::Ulid;
use venturi::context::history_from_records;
use venturi::instants::{Duration, Timestamp};
use venturi::memory::MemoryStore;
use venturi::outcome::Outcome;
use venturi::queue::{new_job, resolve, Decision, Reply, Request, Resolution, Submission};
use venturi::store::{JournalAppend, JournalOutcome, MergePayload, Settlement, Status};
use venturi::task::{DedupKey, Merge, Pending, Priority, Task};

fn at(seconds: i64) -> Timestamp {
    Timestamp::from_unix(1_700_000_000 + seconds, 0).expect("valid fixed timestamp")
}

/// Which merge a test task decides on.
#[derive(Clone, Copy)]
enum Policy {
    Plain,
    Replace,
    Keep,
    Union,
    Independent,
}

/// A task whose payload is one number.
struct Number {
    v: i64,
    policy: Policy,
    priority: Priority,
}

impl Task for Number {
    const KIND: &'static str = "number";
    type Carry = u32;

    fn priority(&self) -> Priority {
        self.priority
    }

    fn dedup_key(&self) -> Option<DedupKey> {
        match self.policy {
            Policy::Plain => None,
            _ => Some(DedupKey::new("k")),
        }
    }

    fn merge(&self, existing: &Pending<Self>) -> Merge<Self> {
        match self.policy {
            Policy::Keep => Merge::Keep,
            Policy::Union => Merge::With {
                task: Number {
                    v: self.v + existing.payload().v,
                    policy: self.policy,
                    priority: Priority::High,
                },
                carry: existing.carry() + 1,
            },
            Policy::Independent => Merge::Independent,
            _ => Merge::Replace,
        }
    }
}

/// A task that keeps every default.
struct Plain;

impl Task for Plain {
    const KIND: &'static str = "plain";
    type Carry = ();
}

fn task(v: i64, policy: Policy) -> Number {
    Number {
        v,
        policy,
        priority: Priority::Normal,
    }
}

/// Submit a task; `racing` runs between the decision and the merge.
fn submit(
    store: &mut MemoryStore,
    task: &Number,
    now: Timestamp,
    racing: &dyn Fn(&mut MemoryStore),
) -> Ulid {
    let (mut submission, mut request) = Submission::begin(task.dedup_key());
    loop {
        let reply = match request {
            Request::FindCandidate { key } => Reply::Looked {
                candidate: store.dedup_candidate(Number::KIND, &key),
            },
            Request::Decide { candidate } => {
                let carry = candidate.carry.as_u64().unwrap_or(0) as u32;
                let pending = Pending::new(
                    Number {
                        v: candidate.payload.as_i64().expect("a number"),
                        policy: task.policy,
                        priority: Priority::Normal,
                    },
                    carry,
                    candidate.run_count,
                    history_from_records(store.journal(candidate.id)),
                );
                assert_eq!(pending.run_count(), candidate.run_count);
                assert_eq!(pending.journal().len(), store.journal(candidate.id).len());
                let decision = match resolve(task, task.merge(&pending)) {
                    Resolution::Keep => Decision::Keep,
                    Resolution::Independent => Decision::Independent,
                    Resolution::Replace { priority } => Decision::Supersede(MergePayload {
                        payload: serde_json::Value::from(task.v),
                        carry: serde_json::Value::from(0),
                        priority,
                    }),
                    Resolution::With {
                        task: merged,
                        carry,
                        priority,
                    } => Decision::Supersede(MergePayload {
                        payload: serde_json::Value::from(merged.v),
                        carry: serde_json::Value::from(carry),
                        priority,
                    }),
                };
                Reply::Decided { decision, now }
            }
            Request::Merge {
                id,
                update,
                journal,
            } => {
                racing(store);
                Reply::Merged {
                    applied: store.merge_into(id, update, journal).expect("journal room"),
                }
            }
            Request::Insert { dedup_key } => {
                let job = new_job(
                    Number::KIND,
                    serde_json::Value::from(task.v),
                    task.priority(),
                    now,
                    now,
                    serde_json::Value::from(0),
                    dedup_key,
                );
                store.enqueue(&job).expect("enqueue");
                Reply::Inserted { id: job.id }
            }
            Request::Return { id } => return id,
            Request::Nothing => panic!("the submission was handed a reply it does not await"),
        };
        request = submission.step(reply);
    }
}

fn enqueue(store: &mut MemoryStore, task: &Number, now: Timestamp) -> Ulid {
    submit(store, task, now, &|_| {})
}

#[test]
fn replace_supersedes_the_pending_job() {
    let mut store = MemoryStore::new();
    let first = enqueue(&mut store, &task(1, Policy::Replace), at(0));
    let second = enqueue(&mut store, &task(2, Policy::Replace), at(1));

    assert_eq!(first, second, "replace reuses the existing row");
    assert_eq!(store.count(Status::Pending), 1);
    let job = store.job(first).expect("job");
    assert_eq!(job.payload, serde_json::Value::from(2));

    let journal = store.journal(first);
    assert_eq!(journal.len(), 1);
    assert_eq!(journal[0].outcome, JournalOutcome::Merged);
    assert_eq!(
        journal[0].note.as_deref(),
        Some("enqueue merged into pending job")
    );
}

#[test]
fn replacing_work_brings_its_own_tier() {
    let mut store = MemoryStore::new();
    let first = enqueue(&mut store, &task(1, Policy::Replace), at(0));
    let urgent = Number {
        priority: Priority::High,
        ..task(2, Policy::Replace)
    };
    let second = enqueue(&mut store, &urgent, at(1));
    assert_eq!(first, second);
    assert_eq!(store.job(first).expect("job").priority, 0);
}

#[test]
fn keep_leaves_the_existing_job_untouched() {
    let mut store = MemoryStore::new();
    let first = enqueue(&mut store, &task(1, Policy::Keep), at(0));
    let second = enqueue(&mut store, &task(2, Policy::Keep), at(1));

    assert_eq!(first, second);
    assert_eq!(store.count(Status::Pending), 1);
    assert_eq!(
        store.job(first).expect("job").payload,
        serde_json::Value::from(1),
        "keep retains the original payload"
    );
    assert_eq!(store.journal(first).len(), 1);
}

#[test]
fn with_computes_payload_and_carry() {
    let mut store = MemoryStore::new();
    let first = enqueue(&mut store, &task(10, Policy::Union), at(0));
    let second = enqueue(&mut store, &task(5, Policy::Union), at(1));

    assert_eq!(first, second);
    let job = store.job(first).expect("job");
    assert_eq!(
        job.payload,
        serde_json::Value::from(15),
        "with unions the payloads"
    );
    assert_eq!(
        job.carry,
        serde_json::Value::from(1),
        "with advances the carry"
    );
    // The merged task's tier takes over.
    assert_eq!(job.priority, 0);
}

#[test]
fn independent_permits_sibling_rows() {
    let mut store = MemoryStore::new();
    let first = enqueue(&mut store, &task(1, Policy::Independent), at(0));
    let second = enqueue(&mut store, &task(2, Policy::Independent), at(1));

    assert_ne!(first, second, "independent inserts a new row");
    assert_eq!(store.count(Status::Pending), 2);
    assert_eq!(
        store.job(second).expect("job").dedup_key.as_deref(),
        Some("k")
    );
}

#[test]
fn merge_into_a_paused_job_preserves_its_journal() {
    let mut store = MemoryStore::new();
    let id = enqueue(&mut store, &task(1, Policy::Replace), at(0));

    // Run the job once so it pauses, leaving a run-once pending candidate.
    let run = store
        .claim_next(
            &["number".to_owned()],
            0,
            Duration::from_secs(60),
            "w",
            at(1),
        )
        .expect("claim")
        .expect("a job");
    assert!(store.settle(
        id,
        "w",
        run.run_count,
        Settlement::Pause {
            visible_at: at(3_600),
            carry: serde_json::Value::from(1)
        },
        JournalAppend {
            kind: "number".to_owned(),
            run_no: 1,
            recorded_at: at(2),
            outcome: JournalOutcome::Paused,
            note: None,
            attachment: None,
        },
    ).expect("journal room"));

    // Enqueue again: it merges into the paused candidate rather than inserting.
    let merged = enqueue(&mut store, &task(1, Policy::Replace), at(3));
    assert_eq!(merged, id, "merged into the existing paused job");

    let job = store.job(id).expect("job");
    assert_eq!(
        job.run_count, 1,
        "the run count from the paused run is preserved"
    );
    assert_eq!(
        job.carry,
        serde_json::Value::from(0),
        "replace reset the carry"
    );
    assert_eq!(job.visible_at, at(3_600));

    // The journal keeps the pause entry and gains the merge entry.
    let outcomes: Vec<_> = store.journal(id).iter().map(|e| e.outcome).collect();
    assert_eq!(
        outcomes,
        vec![JournalOutcome::Paused, JournalOutcome::Merged]
    );
    assert_eq!(store.journal(id)[1].run_no, 1);
}

#[test]
fn keyless_tasks_are_always_inserted() {
    let mut store = MemoryStore::new();
    let first = enqueue(&mut store, &task(1, Policy::Plain), at(0));
    let second = enqueue(&mut store, &task(1, Policy::Plain), at(1));
    assert_ne!(first, second);
    assert_eq!(store.job(first).expect("job").dedup_key, None);
}

#[test]
fn a_candidate_claimed_before_the_merge_falls_back_to_an_insert() {
    let mut store = MemoryStore::new();
    let first = enqueue(&mut store, &task(1, Policy::Replace), at(0));
    let second = submit(&mut store, &task(2, Policy::Replace), at(1), &|store| {
        store
            .claim_next(
                &["number".to_owned()],
                0,
                Duration::from_secs(60),
                "w",
                at(1),
            )
            .expect("claim")
            .expect("the candidate");
    });
    assert_ne!(first, second, "no work is lost");
    let claimed = store.job(first).expect("job");
    assert_eq!(claimed.status, Status::Claimed);
    assert_eq!(claimed.payload, serde_json::Value::from(1));
    let inserted = store.job(second).expect("job");
    assert_eq!(inserted.payload, serde_json::Value::from(2));
    assert_eq!(inserted.dedup_key.as_deref(), Some("k"));
    assert!(store.journal(first).is_empty());
}

#[test]
fn replies_out_of_turn_change_nothing() {
    let (mut submission, request) = Submission::begin(Some(DedupKey::new("k")));
    assert!(matches!(request, Request::FindCandidate { key } if key == "k"));
    let request = submission.step(Reply::Merged { applied: true });
    assert!(matches!(request, Request::Nothing));
    let request = submission.step(Reply::Looked { candidate: None });
    assert!(matches!(request, Request::Insert { dedup_key: Some(key) } if key == "k"));
    let request = submission.step(Reply::Inserted { id: Ulid(7) });
    assert!(matches!(request, Request::Return { id } if id == Ulid(7)));
}

#[test]
fn new_jobs_get_fresh_identities() {
    let build = || {
        new_job(
            "number",
            serde_json::Value::Null,
            Priority::Low,
            at(0),
            at(9),
            serde_json::Value::Null,
            None,
        )
    };
    let a = build();
    let b = build();
    assert_ne!(a.id, b.id);
    assert_eq!(a.priority, 2);
    assert_eq!((a.created_at, a.visible_at), (at(0), at(9)));
    assert_eq!(a.kind, "number");
}

#[test]
fn task_defaults_are_normal_uncoalesced_and_replacing() {
    let plain = Plain;
    assert_eq!(plain.priority(), Priority::Normal);
    assert!(plain.dedup_key().is_none());
    assert!(plain.backoff().is_none());
    assert!(plain.lease().is_none());
    let pending = Pending::new(Plain, (), 0, Vec::new());
    assert!(matches!(plain.merge(&pending), Merge::Replace));
    assert_eq!(Plain::KIND, "plain");
    assert_eq!(Outcome::completed(), Outcome::Completed { note: None });
}
