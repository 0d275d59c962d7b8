//! The worker: configuration, rotation, settlement routing, and the loop driven
//! against the in-memory store on a simulated clock.
use ulid::Ulid;
use venturi::backoff::{base_delay, jitter_sample, retry_delay, Backoff};
use venturi::error::Error;
use venturi::instants::{Duration, Timestamp};
use venturi::memory::MemoryStore;
use venturi::outcome::{Outcome, TaskError};
use venturi::store::{JobRecord, JournalOutcome, JournalRecord, NewJob, Settlement, Status};
use venturi::worker::config::{
    clamp_lease, default_concurrency, worker_identity, PanicPolicy, Worker, WorkerBuilder,
    WorkerConfig, MAX_LEASE_SECS, MIN_LEASE_SECS, MIN_POLL_MAX_MILLIS,
};
use venturi::worker::registry::{conclude_run, panic_message, Registry, RunEnd, RunReport};
use venturi::worker::rotation::{floor_for, FLOOR_ALL, FLOOR_LOW, FLOOR_NORMAL};
use venturi::worker::run_loop::{
    claimable_kinds, release_slot, wait_duration, Action, Event, RunLoop, StaleJob,
};
use venturi::worker::settle::{
    apply_task_lease, attempt_for, backoff_for, next_failures, note_for, plan_recovery, settle,
    FinishedRun, SettlePlan,
};

const IDENTITY: &str = "host:1";

fn at_millis(ms: u64) -> Timestamp {
    Timestamp::from_unix(
        1_700_000_000 + (ms / 1000) as i64,
        (ms % 1000) as u32 * 1_000_000,
    )
    .expect("representable")
}

fn new_job(id: u128, kind: &str) -> NewJob {
    NewJob {
        id: Ulid(id),
        kind: kind.to_owned(),
        payload: serde_json::Value::Null,
        priority: 1,
        created_at: at_millis(0),
        visible_at: at_millis(0),
        carry: serde_json::Value::from(0),
        dedup_key: None,
    }
}

/// The jittered delay of an attempt, in nanoseconds.
fn jittered(backoff: &Backoff, fraction: f64, attempt: u32, id: Ulid) -> u64 {
    let unit = jitter_sample(id, attempt) as f64 / ((1u64 << 53) as f64);
    let factor = 1.0 - fraction * (1.0 - unit);
    (base_delay(backoff, attempt).as_nanos() as f64 * factor) as u64
}

/// What a simulated handler does with one run: its end, or never ending.
type Handler<'a> = &'a mut dyn FnMut(&JobRecord, &[JournalRecord], bool) -> Option<RunEnd>;

/// A loop running against the in-memory store.
struct Simulation {
    store: MemoryStore,
    clock: u64,
    running: Vec<(JobRecord, Vec<JournalRecord>)>,
    peak: usize,
    claims: Vec<i16>,
    started: Vec<(Ulid, u32)>,
    concluded: Vec<(Ulid, u32)>,
    fraction: f64,
}

impl Simulation {
    fn new(store: MemoryStore) -> Simulation {
        Simulation {
            store,
            clock: 0,
            running: Vec::new(),
            peak: 0,
            claims: Vec::new(),
            started: Vec::new(),
            concluded: Vec::new(),
            fraction: 0.5,
        }
    }

    fn now(&self) -> Timestamp {
        at_millis(self.clock)
    }

    fn apply(&mut self, plan: SettlePlan) -> bool {
        self.concluded.push((plan.id, plan.run_no));
        self.store
            .settle(plan.id, IDENTITY, plan.run_no, plan.settlement, plan.journal)
            .expect("journal room")
    }

    /// The event of one run ending, or `None` when the handler does not end.
    fn finish(
        &mut self,
        index: usize,
        config: &WorkerConfig,
        shutdown: bool,
        handler: Handler,
    ) -> Option<Event> {
        let (job, history) = &self.running[index];
        let end = handler(job, history, shutdown)?;
        let (job, _) = self.running.remove(index);
        let report = conclude_run(
            end,
            job.carry.clone(),
            config.panic_policy(),
            None,
            Duration::from_millis(1),
        );
        let attempt = attempt_for(next_failures(job.failure_count));
        let backoff = backoff_for(config, &report);
        Some(Event::Finished {
            jittered_nanos: jittered(&backoff, self.fraction, attempt, job.id),
            run: FinishedRun {
                id: job.id,
                kind: job.kind,
                run_no: job.run_count,
                failure_count: job.failure_count,
                report: Ok(report),
            },
            now: self.now(),
        })
    }

    /// Run a worker until `done` holds, then shut it down.
    fn run(
        &mut self,
        worker: &Worker<()>,
        handler: Handler,
        done: &dyn Fn(&MemoryStore) -> bool,
    ) {
        let config = *worker.config();
        let (mut machine, mut action) = RunLoop::start(config, worker.registry().caps());
        for _ in 0..10_000 {
            let event = match action {
                Action::ScanStale => {
                    let now = self.now();
                    let jobs = self
                        .store
                        .find_stale(now)
                        .into_iter()
                        .map(|job| {
                            let attempt = attempt_for(next_failures(job.failure_count));
                            StaleJob {
                                jittered_nanos: jittered(
                                    &config.backoff(),
                                    self.fraction,
                                    attempt,
                                    job.id,
                                ),
                                job,
                            }
                        })
                        .collect();
                    Event::StaleFound { jobs, now }
                }
                Action::Recover(plan) => {
                    let now = self.now();
                    self.store.recover(
                        plan.id,
                        plan.visible_at,
                        plan.failure_count,
                        plan.run_no,
                        plan.journal,
                        now,
                    ).expect("journal room");
                    Event::Recovered
                }
                Action::ProbeShutdown => Event::ShutdownProbed {
                    signalled: done(&self.store),
                },
                Action::Claim { kinds, floor } => {
                    self.claims.push(floor);
                    let now = self.now();
                    match self
                        .store
                        .claim_next(&kinds, floor, config.lease(), IDENTITY, now)
                    {
                        Ok(Some(job)) => Event::Claimed {
                            job,
                            task_lease: None,
                        },
                        Ok(None) => Event::NothingClaimed,
                        Err(_) => Event::ClaimFailed,
                    }
                }
                Action::Start { job, lease } => {
                    assert!(lease.is_none());
                    let history = self.store.journal(job.id);
                    self.started.push((job.id, job.run_count));
                    self.running.push((job, history));
                    self.peak = self.peak.max(self.running.len());
                    assert_eq!(machine.in_flight(), self.running.len());
                    Event::Started
                }
                Action::ReadNextVisible => Event::NextVisible {
                    at: self
                        .store
                        .next_visible_at(&worker.registry().kinds(), self.now()),
                    now: self.now(),
                },
                Action::Wait { duration, running } => {
                    assert_eq!(running, !self.running.is_empty());
                    if done(&self.store) {
                        Event::ShutdownSignalled
                    } else {
                        let mut finished = None;
                        if running {
                            finished = self.finish(0, &config, false, &mut *handler);
                        }
                        match finished {
                            Some(event) => event,
                            None => {
                                self.clock += (duration.as_nanos() / 1_000_000) as u64 + 1;
                                Event::Woken
                            }
                        }
                    }
                }
                Action::Settle(plan) => {
                    self.apply(plan);
                    Event::SettleDone
                }
                Action::AwaitDrain => {
                    let mut finished = None;
                    for index in 0..self.running.len() {
                        finished = self.finish(index, &config, true, &mut *handler);
                        if finished.is_some() {
                            break;
                        }
                    }
                    finished.unwrap_or(Event::DeadlinePassed)
                }
                Action::AbortAll | Action::AwaitAborted => match self.running.pop() {
                    Some((job, _)) => Event::Lost {
                        id: job.id,
                        run_no: job.run_count,
                    },
                    None => Event::AllJoined { now: self.now() },
                },
                Action::Release(plan) => {
                    self.apply(plan);
                    Event::ReleaseDone { now: self.now() }
                }
                Action::Stop => {
                    assert_eq!(machine.in_flight(), 0);
                    // Every started run was settled or released exactly once.
                    self.started.sort();
                    self.concluded.sort();
                    assert_eq!(self.started, self.concluded);
                    // No claim outlives the worker.
                    assert_eq!(self.store.count(Status::Claimed), 0);
                    return;
                }
                Action::Idle => panic!("the loop was handed an event it does not await"),
            };
            action = machine.step(event);
        }
        panic!("the loop did not stop");
    }
}

fn builder() -> WorkerBuilder<()> {
    Worker::builder(4)
}

fn returned(result: Result<Outcome, TaskError>, carry: i64) -> Option<RunEnd> {
    Some(RunEnd::Returned {
        result,
        carry: Ok(serde_json::Value::from(carry)),
        attachment: None,
    })
}

fn outcomes(store: &MemoryStore, id: u128) -> Vec<JournalOutcome> {
    store.journal(Ulid(id)).iter().map(|e| e.outcome).collect()
}

#[test]
fn clamp_lease_floors_and_caps_degenerate_values() {
    assert_eq!(
        clamp_lease(Duration::zero()),
        Duration::from_secs(MIN_LEASE_SECS)
    );
    assert_eq!(
        clamp_lease(Duration::from_secs(u64::MAX)),
        Duration::from_secs(MAX_LEASE_SECS)
    );
    // A value already in range passes through untouched.
    let mid = Duration::from_secs(60);
    assert_eq!(clamp_lease(mid), mid);
    assert_eq!(MAX_LEASE_SECS, 365 * 24 * 60 * 60);
}

#[test]
fn builder_clamps_degenerate_lease_and_poll_max() {
    let clamped = builder().lease(Duration::zero()).poll_max(Duration::zero());
    assert_eq!(
        clamped.config().lease(),
        Duration::from_secs(MIN_LEASE_SECS)
    );
    assert_eq!(
        clamped.config().poll_max(),
        Duration::from_millis(MIN_POLL_MAX_MILLIS)
    );

    let capped = builder().lease(Duration::from_secs(u64::MAX));
    assert_eq!(capped.config().lease(), Duration::from_secs(MAX_LEASE_SECS));
}

#[test]
fn builder_defaults_and_setters() {
    let defaults = builder();
    let config = defaults.config();
    assert_eq!(config.concurrency(), 2);
    assert_eq!(config.poll_max(), Duration::from_secs(30));
    assert_eq!(config.lease(), Duration::from_secs(15 * 60));
    assert_eq!(config.shutdown_timeout(), Duration::from_secs(30));
    assert_eq!(config.backoff(), Backoff::default());
    assert_eq!(config.backstop(), Some(20));
    assert_eq!(config.priority_ratio(), Some(4));
    assert_eq!(config.panic_policy(), PanicPolicy::Retry);

    let backoff = Backoff::new(Duration::from_secs(1), Duration::from_secs(2));
    let worker = builder()
        .register("a", ())
        .register_capped("b", (), 0)
        .concurrency(0)
        .shutdown_timeout(Duration::from_secs(1))
        .backoff(backoff)
        .backstop(None)
        .priority_ratio(None)
        .panic_policy(PanicPolicy::Dead)
        .build("me:7".to_owned());
    let config = worker.config();
    assert_eq!(config.concurrency(), 1);
    assert_eq!(config.shutdown_timeout(), Duration::from_secs(1));
    assert_eq!(config.backoff(), backoff);
    assert_eq!(config.backstop(), None);
    assert_eq!(config.priority_ratio(), None);
    assert_eq!(config.panic_policy(), PanicPolicy::Dead);
    assert_eq!(worker.identity(), "me:7");
    assert_eq!(worker.registry().kinds(), vec!["a", "b"]);
    // A zero cap is raised to one.
    assert_eq!(worker.registry().cap("b"), Some(1));
    assert_eq!(worker.registry().cap("a"), None);
}

#[test]
fn default_concurrency_is_half_the_cores_between_one_and_eight() {
    let bounds: Vec<usize> = [0, 1, 2, 3, 8, 16, 17, 128]
        .iter()
        .map(|cores| default_concurrency(*cores))
        .collect();
    assert_eq!(bounds, vec![1, 1, 1, 1, 4, 8, 8, 8]);
}

#[test]
fn worker_identity_is_host_and_pid() {
    assert_eq!(worker_identity(Some("box".to_owned()), 42), "box:42");
    assert_eq!(worker_identity(Some(String::new()), 7), "unknown:7");
    assert_eq!(worker_identity(None, 0), "unknown:0");
}

#[test]
fn floor_rotation_reserves_lower_tiers() {
    // Ratio 2: every 2nd claim reserves Normal/Low, every 4th reserves Low.
    assert_eq!(floor_for(1, Some(2)), FLOOR_ALL);
    assert_eq!(floor_for(2, Some(2)), FLOOR_NORMAL);
    assert_eq!(floor_for(3, Some(2)), FLOOR_ALL);
    assert_eq!(floor_for(4, Some(2)), FLOOR_LOW);
    // Strict priority never reserves.
    assert_eq!(floor_for(2, None), FLOOR_ALL);
    assert_eq!(floor_for(4, None), FLOOR_ALL);
    assert_eq!(floor_for(4, Some(1)), FLOOR_ALL);
}

#[test]
fn rotation_window_serves_every_tier() {
    for r in 2u32..8 {
        for start in [0u64, 1, 7, 9_999] {
            let window = u64::from(r) * u64::from(r);
            let floors: Vec<i16> = (start..start + window)
                .map(|c| floor_for(c, Some(r)))
                .collect();
            let share = |floor: i16| floors.iter().filter(|f| **f == floor).count() as u64;
            assert_eq!(share(FLOOR_LOW), 1, "Low reserved once");
            assert_eq!(share(FLOOR_NORMAL), u64::from(r) - 1);
            assert_eq!(share(FLOOR_ALL), window - u64::from(r));
            let round = &floors[..r as usize];
            assert_eq!(round.iter().filter(|f| **f != FLOOR_ALL).count(), 1);
        }
    }
    assert_eq!(floor_for(u64::MAX, Some(u32::MAX)), FLOOR_NORMAL);
    assert_eq!(floor_for(0, Some(u32::MAX)), FLOOR_LOW);
}

#[test]
fn dispatch_finds_the_registered_entry() {
    let mut registry: Registry<u8> = Registry::new();
    registry.register("ping", 5, None);
    registry.register("ping", 6, Some(3));
    assert_eq!(registry.dispatch("ping"), Ok(&6));
    assert_eq!(registry.cap("ping"), Some(3));
    assert_eq!(registry.caps().get("ping"), Some(&Some(3)));
}

#[test]
fn dispatch_unknown_kind_is_an_error() {
    let registry: Registry<u8> = Registry::new();
    let result = registry.dispatch("missing");
    assert!(matches!(result, Err(Error::UnknownKind { kind }) if kind == "missing"));
}

#[test]
fn caps_bound_the_claim_filter() {
    let mut registry: Registry<()> = Registry::new();
    registry.register("free", (), None);
    registry.register("one", (), Some(1));
    registry.register("two", (), Some(2));
    let caps = registry.caps();
    let mut counts = venturi::kinds::KindMap::new();
    assert_eq!(claimable_kinds(&caps, &counts), vec!["free", "one", "two"]);
    counts.insert("one".to_owned(), 1);
    counts.insert("two".to_owned(), 1);
    counts.insert("free".to_owned(), 99);
    assert_eq!(claimable_kinds(&caps, &counts), vec!["free", "two"]);
    release_slot(&mut counts, "one");
    assert_eq!(counts.get("one"), None);
    release_slot(&mut counts, "free");
    assert_eq!(counts.get("free"), Some(&98));
    release_slot(&mut counts, "absent");
    assert_eq!(claimable_kinds(&caps, &counts), vec!["free", "one", "two"]);
}

#[test]
fn idle_wait_is_between_5ms_and_poll_max() {
    let poll = Duration::from_secs(30);
    let now = at_millis(1_000);
    assert_eq!(wait_duration(poll, None, now), poll);
    assert_eq!(
        wait_duration(poll, Some(at_millis(3_000)), now),
        Duration::from_secs(2)
    );
    assert_eq!(
        wait_duration(poll, Some(at_millis(1_001)), now),
        Duration::from_millis(5)
    );
    assert_eq!(
        wait_duration(poll, Some(at_millis(0)), now),
        Duration::from_millis(5)
    );
    assert_eq!(wait_duration(poll, Some(at_millis(99_000)), now), poll);
    let short = Duration::from_millis(1);
    assert_eq!(wait_duration(short, Some(at_millis(1_001)), now), short);
}

#[test]
fn task_lease_overrides_are_clamped() {
    let builder = builder().lease(Duration::from_secs(60));
    let config = builder.config();
    assert_eq!(apply_task_lease(config, None), None);
    assert_eq!(
        apply_task_lease(config, Some(Duration::from_secs(60))),
        None
    );
    assert_eq!(
        apply_task_lease(config, Some(Duration::zero())),
        Some(Duration::from_secs(1))
    );
    assert_eq!(
        apply_task_lease(config, Some(Duration::from_secs(3600))),
        Some(Duration::from_secs(3600))
    );
}

#[test]
fn worker_with_no_kinds_returns_immediately() {
    let worker = builder().build(IDENTITY.to_owned());
    let (machine, action) = RunLoop::start(*worker.config(), worker.registry().caps());
    assert!(matches!(action, Action::Stop));
    assert_eq!(machine.in_flight(), 0);
}

#[test]
fn loop_completes_all_jobs_within_the_concurrency_bound() {
    let mut store = MemoryStore::new();
    for n in 0..6 {
        store.enqueue(&new_job(n, "slow")).expect("enqueue");
    }
    let worker = builder()
        .register("slow", ())
        .concurrency(2)
        .build(IDENTITY.to_owned());
    let mut simulation = Simulation::new(store);
    let mut ran = 0;
    simulation.run(
        &worker,
        &mut |_, _, _| {
            ran += 1;
            returned(Ok(Outcome::completed()), 0)
        },
        &|store| store.count(Status::Completed) == 6,
    );
    assert_eq!(ran, 6);
    assert!(
        simulation.peak <= 2,
        "peak concurrency {} exceeded the bound of 2",
        simulation.peak
    );
    assert_eq!(simulation.store.count(Status::Completed), 6);
}

#[test]
fn per_kind_cap_bounds_in_flight_below_concurrency() {
    let mut store = MemoryStore::new();
    for n in 0..8 {
        store.enqueue(&new_job(n, "capped")).expect("enqueue");
    }
    // Concurrency 8, but the kind is capped at 2.
    let worker = builder()
        .concurrency(8)
        .register_capped("capped", (), 2)
        .build(IDENTITY.to_owned());
    let mut simulation = Simulation::new(store);
    simulation.run(
        &worker,
        &mut |_, _, _| returned(Ok(Outcome::completed()), 0),
        &|store| store.count(Status::Completed) == 8,
    );
    assert!(
        simulation.peak <= 2,
        "peak in-flight {} exceeded the cap of 2",
        simulation.peak
    );
}

#[test]
fn permanent_failure_goes_straight_to_dead() {
    let mut store = MemoryStore::new();
    store.enqueue(&new_job(1, "routed")).expect("enqueue");
    let worker = builder()
        .register("routed", ())
        .backstop(Some(20))
        .build(IDENTITY.to_owned());
    let mut simulation = Simulation::new(store);
    simulation.run(
        &worker,
        &mut |_, _, _| returned(Err(TaskError::permanent("gone for good")), 0),
        &|store| store.count(Status::Dead) == 1,
    );
    let job = simulation.store.job(Ulid(1)).expect("job exists");
    assert_eq!(job.status, Status::Dead);
    assert_eq!(job.failure_count, 1);
    assert!(job.finished_at.is_some());
    let journal = simulation.store.journal(Ulid(1));
    assert_eq!(journal[0].note.as_deref(), Some("gone for good"));
}

#[test]
fn retryable_failures_reach_dead_at_the_backstop() {
    let mut store = MemoryStore::new();
    store.enqueue(&new_job(1, "routed")).expect("enqueue");
    // Backstop of 2: the first failure retries, the second forces dead.
    let worker = builder()
        .register("routed", ())
        .backstop(Some(2))
        .build(IDENTITY.to_owned());
    let mut simulation = Simulation::new(store);
    simulation.run(
        &worker,
        &mut |_, _, _| returned(Err(TaskError::retryable("transient")), 0),
        &|store| store.count(Status::Dead) == 1,
    );
    let job = simulation.store.job(Ulid(1)).expect("job exists");
    assert_eq!(job.status, Status::Dead);
    assert_eq!(job.failure_count, 2);
}

#[test]
fn retryable_failures_count_then_complete() {
    let mut store = MemoryStore::new();
    store.enqueue(&new_job(1, "job")).expect("enqueue");
    let worker = builder().register("job", ()).build(IDENTITY.to_owned());
    let mut simulation = Simulation::new(store);
    // Two zero-delay retries, then completion.
    simulation.run(
        &worker,
        &mut |job, _, _| {
            let carry = job.carry.as_i64().expect("a number");
            if carry < 2 {
                returned(Err(TaskError::retryable("transient")), carry + 1)
            } else {
                returned(Ok(Outcome::completed()), carry)
            }
        },
        &|store| store.count(Status::Completed) == 1,
    );
    let job = simulation.store.job(Ulid(1)).expect("job exists");
    assert_eq!(job.failure_count, 2);
    assert_eq!(job.run_count, 3);
    assert_eq!(job.carry, serde_json::Value::from(2));
}

#[test]
fn pause_repends_without_failure_and_persists_carry() {
    let mut store = MemoryStore::new();
    store.enqueue(&new_job(1, "routed")).expect("enqueue");
    let worker = builder().register("routed", ()).build(IDENTITY.to_owned());
    let mut simulation = Simulation::new(store);
    simulation.run(
        &worker,
        &mut |job, _, _| {
            if job.carry == serde_json::Value::from(0) {
                returned(Ok(Outcome::pause_in(Duration::zero())), 1)
            } else {
                returned(Ok(Outcome::completed()), 1)
            }
        },
        &|store| store.count(Status::Completed) == 1,
    );
    let job = simulation.store.job(Ulid(1)).expect("job exists");
    assert_eq!(job.status, Status::Completed);
    // Two runs: the pause then the completion. The pause is not a failure.
    assert_eq!(job.run_count, 2);
    assert_eq!(job.failure_count, 0);
    // The carry mutated during the paused run survived to the next run.
    assert_eq!(job.carry, serde_json::Value::from(1));
}

#[test]
fn journal_is_hole_free_with_history_and_attachments() {
    let mut store = MemoryStore::new();
    store.enqueue(&new_job(1, "work")).expect("enqueue");
    let worker = builder().register("work", ()).build(IDENTITY.to_owned());
    let mut simulation = Simulation::new(store);
    let mut seen = (0, 0);
    simulation.run(
        &worker,
        &mut |job, history, _| {
            let carry = job.carry.as_i64().expect("a number");
            let attachment: serde_json::Value =
                serde_json::from_str(&format!("{{\"run\":{}}}", job.run_count)).expect("JSON");
            let result = if carry < 2 {
                Err(TaskError::retryable("boom"))
            } else {
                let failures = history.iter().filter(|e| e.outcome.is_failure()).count();
                seen = (history.len(), failures);
                Ok(Outcome::completed_with("done"))
            };
            Some(RunEnd::Returned {
                result,
                carry: Ok(serde_json::Value::from(carry + 1)),
                attachment: Some(attachment),
            })
        },
        &|store| store.count(Status::Completed) == 1,
    );
    // Two failures then a completion: three hole-free entries, run_no 1..=3.
    let journal = simulation.store.journal(Ulid(1));
    assert_eq!(journal.len(), 3);
    assert_eq!(
        outcomes(&simulation.store, 1),
        vec![
            JournalOutcome::Retried,
            JournalOutcome::Retried,
            JournalOutcome::Completed,
        ]
    );
    assert_eq!(
        journal.iter().map(|e| e.run_no).collect::<Vec<_>>(),
        vec![1, 2, 3]
    );
    // Each entry carries the run's attachment and an appropriate note.
    for (index, entry) in journal.iter().enumerate() {
        let expected: serde_json::Value =
            serde_json::from_str(&format!("{{\"run\":{}}}", index + 1)).expect("JSON");
        assert_eq!(entry.attachment, Some(expected));
    }
    assert_eq!(journal[0].note.as_deref(), Some("boom"));
    assert_eq!(journal[2].note.as_deref(), Some("done"));
    // The completing run saw both prior failures in its history.
    assert_eq!(seen, (2, 2));
}

#[test]
fn completed_run_with_unencodable_carry_is_dead_with_an_accurate_note() {
    let mut store = MemoryStore::new();
    store.enqueue(&new_job(1, "unencodable")).expect("enqueue");
    let worker = builder()
        .register("unencodable", ())
        .build(IDENTITY.to_owned());
    let mut simulation = Simulation::new(store);
    simulation.run(
        &worker,
        &mut |_, _, _| {
            Some(RunEnd::Returned {
                result: Ok(Outcome::completed()),
                carry: Err("key must be a string".to_owned()),
                attachment: None,
            })
        },
        &|store| store.count(Status::Dead) == 1,
    );
    let job = simulation.store.job(Ulid(1)).expect("job exists");
    assert_eq!(job.status, Status::Dead);
    let note = simulation
        .store
        .journal(Ulid(1))
        .last()
        .expect("a journal entry")
        .note
        .clone()
        .unwrap_or_default();
    assert!(
        note.contains("carry could not be serialized"),
        "the note must describe the post-run carry serialization failure, got: {note:?}"
    );
    assert_eq!(
        note,
        "handler completed but its carry could not be serialized: key must be a string"
    );
}

#[test]
fn panicking_handler_settles_as_a_failed_execution_then_recovers() {
    let mut store = MemoryStore::new();
    store.enqueue(&new_job(1, "panicky")).expect("enqueue");
    let worker = builder().register("panicky", ()).build(IDENTITY.to_owned());
    let mut simulation = Simulation::new(store);
    let mut runs = 0;
    simulation.run(
        &worker,
        &mut |_, _, _| {
            runs += 1;
            if runs == 1 {
                Some(RunEnd::Panicked {
                    message: Some("boom in handler".to_owned()),
                })
            } else {
                returned(Ok(Outcome::completed()), 0)
            }
        },
        &|store| store.count(Status::Completed) == 1,
    );
    let job = simulation.store.job(Ulid(1)).expect("job exists");
    assert_eq!(job.status, Status::Completed);
    // The panic counts as exactly one failed execution.
    assert_eq!(job.failure_count, 1);
    // The journal records the panic as a retry, then the completion.
    assert_eq!(
        outcomes(&simulation.store, 1),
        vec![JournalOutcome::Retried, JournalOutcome::Completed]
    );
    assert_eq!(
        simulation.store.journal(Ulid(1))[0].note.as_deref(),
        Some("handler panicked: boom in handler")
    );
}

#[test]
fn panic_policy_dead_sends_a_panicking_job_straight_to_dead() {
    let mut store = MemoryStore::new();
    store.enqueue(&new_job(1, "panicky")).expect("enqueue");
    let worker = builder()
        .register("panicky", ())
        .panic_policy(PanicPolicy::Dead)
        .build(IDENTITY.to_owned());
    let mut simulation = Simulation::new(store);
    simulation.run(
        &worker,
        &mut |_, _, _| Some(RunEnd::Panicked { message: None }),
        &|store| store.count(Status::Dead) == 1,
    );
    let job = simulation.store.job(Ulid(1)).expect("job exists");
    assert_eq!(job.status, Status::Dead);
    assert_eq!(job.failure_count, 1);
    assert_eq!(outcomes(&simulation.store, 1), vec![JournalOutcome::Dead]);
    assert_eq!(panic_message(None), "handler panicked");
}

#[test]
fn cooperative_handler_settles_normally_on_shutdown() {
    let mut store = MemoryStore::new();
    store.enqueue(&new_job(1, "cooperative")).expect("enqueue");
    let worker = builder()
        .register("cooperative", ())
        .shutdown_timeout(Duration::from_secs(5))
        .build(IDENTITY.to_owned());
    let mut simulation = Simulation::new(store);
    simulation.run(
        &worker,
        &mut |_, _, shutdown| {
            if shutdown {
                returned(Ok(Outcome::pause_in(Duration::from_secs(1))), 0)
            } else {
                None
            }
        },
        &|store| store.count(Status::Claimed) == 1,
    );
    // It paused (the cooperative wind-down), so it is pending, not released.
    let job = simulation.store.job(Ulid(1)).expect("job");
    assert_eq!(job.status, Status::Pending);
    assert_eq!(outcomes(&simulation.store, 1), vec![JournalOutcome::Paused]);
}

#[test]
fn graceful_shutdown_releases_a_straggler() {
    let mut store = MemoryStore::new();
    store.enqueue(&new_job(1, "hang")).expect("enqueue");
    store.enqueue(&new_job(2, "hang")).expect("enqueue");
    let worker = builder()
        .register("hang", ())
        .shutdown_timeout(Duration::from_millis(200))
        .build(IDENTITY.to_owned());
    let mut simulation = Simulation::new(store);
    simulation.run(&worker, &mut |_, _, _| None, &|store| {
        store.count(Status::Claimed) == 2
    });
    for id in [1, 2] {
        let job = simulation.store.job(Ulid(id)).expect("job");
        assert_eq!(job.status, Status::Pending);
        // A release is not a failure.
        assert_eq!(job.failure_count, 0);
        assert_eq!(job.claimed_by, None);
        let journal = simulation.store.journal(Ulid(id));
        assert_eq!(journal.len(), 1);
        assert_eq!(journal[0].outcome, JournalOutcome::Released);
        assert_eq!(
            journal[0].note.as_deref(),
            Some("released by graceful shutdown")
        );
    }
}

#[test]
fn shutdown_settles_a_handler_that_finished_before_the_abort() {
    let mut store = MemoryStore::new();
    store.enqueue(&new_job(1, "slow")).expect("enqueue");
    let worker = builder().register("slow", ()).build(IDENTITY.to_owned());
    let config = *worker.config();
    let (mut machine, _) = RunLoop::start(config, worker.registry().caps());
    let now = at_millis(5);
    // Claim the job through the loop.
    let action = machine.step(Event::StaleFound {
        jobs: Vec::new(),
        now,
    });
    assert!(matches!(action, Action::ProbeShutdown));
    let action = machine.step(Event::ShutdownProbed { signalled: false });
    let Action::Claim { kinds, floor } = action else {
        panic!("expected a claim");
    };
    assert_eq!((kinds.clone(), floor), (vec!["slow".to_owned()], FLOOR_ALL));
    let job = store
        .claim_next(&kinds, floor, config.lease(), IDENTITY, now)
        .expect("claim")
        .expect("a claimable job");
    let claimed = job.clone();
    machine.step(Event::Claimed {
        job,
        task_lease: None,
    });
    // The shutdown is signalled while the handler runs, and the deadline passes.
    let action = machine.step(Event::Started);
    assert!(matches!(action, Action::ProbeShutdown));
    let action = machine.step(Event::ShutdownProbed { signalled: true });
    assert!(matches!(action, Action::AwaitDrain));
    let action = machine.step(Event::DeadlinePassed);
    assert!(matches!(action, Action::AbortAll));
    // The handler had finished by then: it is settled, not released.
    let action = machine.step(Event::Finished {
        run: FinishedRun {
            id: claimed.id,
            kind: claimed.kind.clone(),
            run_no: claimed.run_count,
            failure_count: claimed.failure_count,
            report: Ok(RunReport {
                result: Ok(Outcome::completed()),
                carry: serde_json::Value::Null,
                backoff: None,
                attachment: None,
                duration: Duration::zero(),
            }),
        },
        jittered_nanos: 0,
        now,
    });
    let Action::Settle(plan) = action else {
        panic!("expected a settlement");
    };
    assert!(store.settle(
        plan.id,
        IDENTITY,
        plan.run_no,
        plan.settlement,
        plan.journal
    ).expect("journal room"));
    let action = machine.step(Event::SettleDone);
    assert!(matches!(action, Action::AwaitAborted));
    let action = machine.step(Event::AllJoined { now });
    assert!(matches!(action, Action::Stop));
    assert_eq!(
        store.count(Status::Completed),
        1,
        "a handler that finished before the abort must be settled, not re-pended"
    );
    assert_eq!(
        store.count(Status::Pending),
        0,
        "the completed job must not be released back to pending"
    );
    // A stopped loop asks for nothing more.
    assert!(matches!(machine.step(Event::Woken), Action::Idle));
}

#[test]
fn reserved_claim_falls_back_to_all_tiers() {
    let mut store = MemoryStore::new();
    for n in 0..6 {
        let mut job = new_job(n, "high");
        job.priority = 0;
        store.enqueue(&job).expect("enqueue");
    }
    let worker = builder()
        .register("high", ())
        .concurrency(1)
        .priority_ratio(Some(2))
        .build(IDENTITY.to_owned());
    let mut simulation = Simulation::new(store);
    simulation.run(
        &worker,
        &mut |_, _, _| returned(Ok(Outcome::completed()), 0),
        &|store| store.count(Status::Completed) == 6,
    );
    // Reserved claims find no lower tier and are repeated for all tiers.
    assert_eq!(&simulation.claims[..6], &[0, 1, 0, 0, 2, 0]);
}

#[test]
fn strict_priority_runs_high_before_low() {
    let mut store = MemoryStore::new();
    for (n, priority) in [(1, 2), (2, 2), (3, 0), (4, 0)] {
        let mut job = new_job(n, "tiered");
        job.priority = priority;
        store.enqueue(&job).expect("enqueue");
    }
    let worker = builder()
        .register("tiered", ())
        .concurrency(1)
        .priority_ratio(None)
        .build(IDENTITY.to_owned());
    let mut simulation = Simulation::new(store);
    let mut order = Vec::new();
    simulation.run(
        &worker,
        &mut |job, _, _| {
            order.push(job.priority);
            returned(Ok(Outcome::completed()), 0)
        },
        &|store| store.count(Status::Completed) == 4,
    );
    assert_eq!(order, vec![0, 0, 2, 2]);
}

#[test]
fn rotation_keeps_low_priority_from_starving() {
    let mut store = MemoryStore::new();
    for n in 0..40 {
        let mut job = new_job(n, "tiered");
        job.priority = if n == 39 { 2 } else { 0 };
        store.enqueue(&job).expect("enqueue");
    }
    let worker = builder()
        .register("tiered", ())
        .concurrency(1)
        .priority_ratio(Some(2))
        .build(IDENTITY.to_owned());
    let mut simulation = Simulation::new(store);
    let mut order = Vec::new();
    simulation.run(
        &worker,
        &mut |job, _, _| {
            order.push(job.priority);
            returned(Ok(Outcome::completed()), 0)
        },
        &|store| store.count(Status::Completed) == 40,
    );
    let position = order.iter().position(|p| *p == 2).expect("low ran");
    assert!(position < 4, "low waited for {position} jobs");
}

#[test]
fn delayed_job_is_picked_up_at_its_time() {
    let mut store = MemoryStore::new();
    let mut job = new_job(1, "later");
    job.visible_at = at_millis(1_500);
    store.enqueue(&job).expect("enqueue");
    let worker = builder().register("later", ()).build(IDENTITY.to_owned());
    let mut simulation = Simulation::new(store);
    simulation.run(
        &worker,
        &mut |_, _, _| returned(Ok(Outcome::completed()), 0),
        &|store| store.count(Status::Completed) == 1,
    );
    // The loop slept exactly until the job became visible.
    assert_eq!(simulation.clock, 1_501);
}

#[test]
fn stale_claims_are_recovered_before_claiming() {
    let mut store = MemoryStore::new();
    store.enqueue(&new_job(1, "unit")).expect("enqueue");
    store
        .claim_next(
            &["unit".to_owned()],
            0,
            Duration::from_millis(200),
            "dead:9",
            at_millis(0),
        )
        .expect("claim")
        .expect("a job");
    let worker = builder().register("unit", ()).build(IDENTITY.to_owned());
    let mut simulation = Simulation::new(store);
    simulation.clock = 400;
    simulation.run(
        &worker,
        &mut |_, _, _| returned(Ok(Outcome::completed()), 0),
        &|store| store.count(Status::Completed) == 1,
    );
    let journal = simulation.store.journal(Ulid(1));
    assert_eq!(
        outcomes(&simulation.store, 1),
        vec![JournalOutcome::StaleRecovered, JournalOutcome::Completed]
    );
    assert_eq!(
        journal[0].note.as_deref(),
        Some("lease expired; worker dead:9 presumed dead")
    );
    assert_eq!(
        journal.iter().map(|e| e.run_no).collect::<Vec<_>>(),
        vec![1, 2]
    );
    let job = simulation.store.job(Ulid(1)).expect("job");
    assert_eq!((job.failure_count, job.run_count), (1, 2));
}

#[test]
fn recovery_plan_counts_the_failure_and_names_the_worker() {
    let builder = builder();
    let mut store = MemoryStore::new();
    store.enqueue(&new_job(1, "unit")).expect("enqueue");
    let mut job = store.job(Ulid(1)).expect("job");
    job.failure_count = 2;
    job.run_count = 9;
    let plan = plan_recovery(builder.config(), &job, at_millis(0), 250_000_000);
    assert_eq!(plan.failure_count, 3);
    assert_eq!(plan.run_no, 9);
    assert_eq!(plan.visible_at, at_millis(250));
    assert_eq!(plan.journal.outcome, JournalOutcome::StaleRecovered);
    assert_eq!(
        plan.journal.note.as_deref(),
        Some("lease expired; worker unknown presumed dead")
    );
}

#[test]
fn jitter_fraction_zero_schedules_the_exact_backoff_delay() {
    let mut store = MemoryStore::new();
    // A fixed id makes the deterministic jitter reproducible.
    let id = Ulid::from_string("01ARZ3NDEKTSV4RRFFQ69G5FAV").expect("valid ULID");
    let mut job = new_job(0, "routed");
    job.id = id;
    store.enqueue(&job).expect("enqueue");

    // A 100s base makes the third attempt's delay (base * (fib(3) - 1) = base)
    // large and non-zero, so any jitter would be plainly visible.
    let backoff = Backoff::new(Duration::from_secs(100), Duration::from_secs(300));
    let worker = builder()
        .register("routed", ())
        .backoff(backoff)
        .backstop(Some(50))
        .build(IDENTITY.to_owned());
    let mut simulation = Simulation::new(store);
    simulation.fraction = 0.0;
    simulation.run(
        &worker,
        &mut |_, _, _| returned(Err(TaskError::retryable("transient")), 0),
        &|store| store.job(id).is_some_and(|j| j.failure_count >= 3),
    );
    let job = simulation.store.job(id).expect("job exists");
    let entries = simulation.store.journal(id);
    let third = entries.last().expect("a third journal entry");
    // The journal `recorded_at` and the retry `visible_at` come from one clock read,
    // so their difference is exactly the scheduled delay.
    let scheduled = job.visible_at.since(&third.recorded_at);
    let expected = retry_delay(&backoff, 3, jittered(&backoff, 0.0, 3, id));
    assert_eq!(scheduled, expected);
    // Jitter disabled means the full base curve, not a reduced delay.
    assert_eq!(expected, Duration::from_secs(100));
}

#[test]
fn unencodable_carry_is_reported_as_null() {
    let report = conclude_run(
        RunEnd::Returned {
            result: Ok(Outcome::completed()),
            carry: Err("no".to_owned()),
            attachment: Some(serde_json::Value::from(1)),
        },
        serde_json::Value::from(7),
        PanicPolicy::Retry,
        None,
        Duration::zero(),
    );
    assert_eq!(report.carry, serde_json::Value::Null);
    assert_eq!(report.attachment, Some(serde_json::Value::from(1)));
    // A panic keeps the carry from before the run and drops the attachment.
    let report = conclude_run(
        RunEnd::Panicked { message: None },
        serde_json::Value::from(7),
        PanicPolicy::Retry,
        Some(Backoff::default()),
        Duration::zero(),
    );
    assert_eq!(report.carry, serde_json::Value::from(7));
    assert_eq!(report.attachment, None);
    assert_eq!(report.backoff, Some(Backoff::default()));
    assert!(matches!(report.result, Err(error) if !error.is_permanent()));
}

#[test]
fn undispatchable_job_is_given_up_on() {
    let builder = builder();
    let plan = settle(
        builder.config(),
        FinishedRun {
            id: Ulid(3),
            kind: "odd".to_owned(),
            run_no: 4,
            failure_count: i32::MAX,
            report: Err(Error::UnknownKind {
                kind: "odd".to_owned(),
            }),
        },
        at_millis(0),
        0,
    );
    assert_eq!(plan.run_no, 4);
    assert!(matches!(
        plan.settlement,
        Settlement::Dead {
            failure_count: i32::MAX,
            ..
        }
    ));
    assert_eq!(plan.journal.outcome, JournalOutcome::Dead);
    assert_eq!(
        plan.journal.note.as_deref(),
        Some("no handler registered for job kind \"odd\"")
    );
    assert!(plan.duration.is_zero());
    let paused = Ok(Outcome::pause_in_with(Duration::zero(), "half way"));
    assert_eq!(note_for(&paused).as_deref(), Some("half way"));
}
