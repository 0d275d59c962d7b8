//! The claim/dispatch loop as a state machine.
//!
//! [`RunLoop`] decides; the caller performs. Each [`Action`] the loop asks for is
//! carried out against the store, the runtime, or the clock, and its result comes
//! back as an [`Event`]. Every iteration recovers abandoned claims first, fills the
//! free slots one claim at a time, then waits for the soonest of a finished handler,
//! a notification, the next eligible job, or a shutdown. A shutdown drains: finished
//! handlers are settled, and what is still running at the deadline is aborted and
//! released.
use crate::instants::{elapsed, Duration, Timestamp};
use crate::kinds::KindMap;
use crate::lifecycle::names_kind;
use crate::store::{JobRecord, JobView};
use crate::text::{text_order_is_irreflexive, texts};
use crate::worker::config::{runnable, ConfigView, WorkerConfig};
use crate::worker::rotation::{floor_for, rotation_floor, FLOOR_ALL};
use crate::worker::settle::{
    apply_task_lease, lease_override, plan_recovery, release, release_plan, run_plan, settle,
    stale_plan, FinishedRun, InflightJob, InflightView, RecoveryPlan, RecoveryPlanView, SettlePlan,
    SettlePlanView,
};
use vstd::prelude::*;

verus! {

/// The number of in-flight jobs of a kind.
pub open spec fn kind_count(inflight: Seq<InflightView>, kind: Seq<char>) -> nat
    decreases inflight.len(),
{
    if inflight.len() == 0 {
        0
    } else {
        kind_count(inflight.drop_last(), kind) + if inflight.last().kind == kind {
            1nat
        } else {
            0nat
        }
    }
}

/// Whether the per-kind counts are those of the in-flight jobs.
pub open spec fn counts_inflight(
    by_kind: Map<Seq<char>, usize>,
    inflight: Seq<InflightView>,
) -> bool {
    forall|kind: Seq<char>|
        #![trigger by_kind.contains_key(kind)]
        #![trigger kind_count(inflight, kind)]
        (by_kind.contains_key(kind) <==> kind_count(inflight, kind) > 0) && (by_kind.contains_key(
            kind,
        ) ==> by_kind[kind] == kind_count(inflight, kind))
}

proof fn lemma_count_is_bounded(inflight: Seq<InflightView>, kind: Seq<char>)
    ensures
        kind_count(inflight, kind) <= inflight.len(),
    decreases inflight.len(),
{
    if inflight.len() > 0 {
        lemma_count_is_bounded(inflight.drop_last(), kind);
    }
}

proof fn lemma_count_push(inflight: Seq<InflightView>, job: InflightView, kind: Seq<char>)
    ensures
        kind_count(inflight.push(job), kind) == kind_count(inflight, kind) + (if job.kind == kind {
            1nat
        } else {
            0nat
        }),
{
    assert(inflight.push(job).drop_last() =~= inflight);
}

proof fn lemma_count_remove(inflight: Seq<InflightView>, at: int, kind: Seq<char>)
    requires
        0 <= at < inflight.len(),
    ensures
        kind_count(inflight, kind) == kind_count(inflight.remove(at), kind) + (if inflight[at].kind
            == kind {
            1nat
        } else {
            0nat
        }),
    decreases inflight.len(),
{
    let last = inflight.len() - 1;
    if at == last {
        assert(inflight.remove(at) =~= inflight.drop_last());
    } else {
        let shorter = inflight.drop_last();
        lemma_count_remove(shorter, at, kind);
        assert(inflight.remove(at).drop_last() =~= shorter.remove(at));
        assert(inflight.remove(at).last() == inflight.last());
    }
}

/// Whether a kind has room for another in-flight job.
pub open spec fn has_room(
    caps: Map<Seq<char>, Option<usize>>,
    inflight: Seq<InflightView>,
    kind: Seq<char>,
) -> bool {
    caps.contains_key(kind) && (caps[kind] matches Some(cap) ==> kind_count(inflight, kind) < cap)
}

/// Whether a claim filter lists exactly the kinds with room, each once.
pub open spec fn lists_open_kinds(
    caps: Map<Seq<char>, Option<usize>>,
    inflight: Seq<InflightView>,
    kinds: Seq<Seq<char>>,
) -> bool {
    &&& forall|kind: Seq<char>| #[trigger]
        names_kind(kinds, kind) <==> has_room(caps, inflight, kind)
    &&& forall|i: int, j: int|
        0 <= i < j < kinds.len() ==> #[trigger] kinds[i] != #[trigger] kinds[j]
}

/// The registered kinds whose in-flight count is below their per-kind cap.
/// Uncapped kinds are always listed.
pub fn claimable_kinds(
    caps: &KindMap<Option<usize>>,
    by_kind: &KindMap<usize>,
) -> (r: Vec<String>)
    ensures
        forall|kind: Seq<char>|
            names_kind(texts(r@), kind) <==> caps@.contains_key(kind) && (
            caps@[kind] matches Some(cap) ==> (if by_kind@.contains_key(kind) {
                by_kind@[kind] < cap
            } else {
                0 < cap
            })),
        forall|i: int, j: int|
            0 <= i < j < texts(r@).len() ==> #[trigger] texts(r@)[i] != #[trigger] texts(r@)[j],
{
    let kinds = caps.kinds();
    let mut open: Vec<String> = Vec::new();
    let mut i: usize = 0;
    while i < kinds.len()
        invariant
            i <= kinds@.len(),
            forall|a: int, b: int|
                0 <= a < b < kinds@.len() ==> crate::text::text_precedes(
                    #[trigger] kinds@[a]@,
                    #[trigger] kinds@[b]@,
                ),
            forall|kind: Seq<char>|
                caps@.contains_key(kind) <==> exists|i: int|
                    0 <= i < kinds@.len() && #[trigger] kinds@[i]@ == kind,
            forall|k: int|
                0 <= k < open@.len() ==> (exists|j: int|
                    0 <= j < i && #[trigger] kinds@[j]@ == (#[trigger] open@[k])@)
                    && below_cap(caps@, by_kind@, open@[k]@),
            forall|j: int|
                0 <= j < i && below_cap(caps@, by_kind@, #[trigger] kinds@[j]@) ==> exists|k: int|
                    0 <= k < open@.len() && (#[trigger] open@[k])@ == kinds@[j]@,
            forall|a: int, b: int|
                0 <= a < b < open@.len() ==> (#[trigger] open@[a])@ != (#[trigger] open@[b])@,
        decreases kinds@.len() - i,
    {
        let kind = &kinds[i];
        assert(caps@.contains_key(kind@));
        let held: usize = match by_kind.get(kind.as_str()) {
            Some(held) => *held,
            None => 0,
        };
        let room = match caps.get(kind.as_str()) {
            Some(Some(cap)) => held < *cap,
            _ => true,
        };
        assert(room == below_cap(caps@, by_kind@, kind@));
        if room {
            let ghost before = open@;
            let copy = kind.clone();
            open.push(copy);
            proof {
                assert forall|k: int| 0 <= k < open@.len() implies (exists|j: int|
                    0 <= j < i + 1 && #[trigger] kinds@[j]@ == (#[trigger] open@[k])@)
                    && below_cap(caps@, by_kind@, open@[k]@) by {
                    if k < before.len() {
                        assert(open@[k] == before[k]);
                        let j = choose|j: int|
                            0 <= j < i && #[trigger] kinds@[j]@ == before[k]@;
                        assert(kinds@[j]@ == open@[k]@);
                    } else {
                        assert(kinds@[i as int]@ == open@[k]@);
                    }
                }
                assert forall|a: int, b: int| 0 <= a < b < open@.len() implies (
                #[trigger] open@[a])@ != (#[trigger] open@[b])@ by {
                    assert(open@[a] == before[a]);
                    if b == before.len() {
                        let j = choose|j: int|
                            0 <= j < i && #[trigger] kinds@[j]@ == before[a]@;
                        text_order_is_irreflexive(kinds@[i as int]@);
                        assert(crate::text::text_precedes(kinds@[j]@, kinds@[i as int]@));
                    }
                }
                assert forall|j: int|
                    0 <= j < i + 1 && below_cap(
                        caps@,
                        by_kind@,
                        #[trigger] kinds@[j]@,
                    ) implies exists|k: int|
                    0 <= k < open@.len() && (#[trigger] open@[k])@ == kinds@[j]@ by {
                    if j < i {
                        let k = choose|k: int|
                            0 <= k < before.len() && (#[trigger] before[k])@ == kinds@[j]@;
                        assert(open@[k] == before[k]);
                    } else {
                        assert(open@[before.len() as int]@ == kinds@[j]@);
                    }
                }
            }
        }
        i += 1;
    }
    proof {
        assert forall|kind: Seq<char>|
            names_kind(texts(open@), kind) <==> below_cap(caps@, by_kind@, kind) by {
            if names_kind(texts(open@), kind) {
                let k = choose|k: int|
                    0 <= k < texts(open@).len() && #[trigger] texts(open@)[k] == kind;
                assert(open@[k]@ == kind);
            }
            if below_cap(caps@, by_kind@, kind) {
                let j = choose|j: int| 0 <= j < kinds@.len() && #[trigger] kinds@[j]@ == kind;
                let k = choose|k: int|
                    0 <= k < open@.len() && (#[trigger] open@[k])@ == kinds@[j]@;
                assert(texts(open@)[k] == kind);
            }
        }
    }
    open
}

/// Whether a kind is registered and its held count below its cap.
spec fn below_cap(
    caps: Map<Seq<char>, Option<usize>>,
    by_kind: Map<Seq<char>, usize>,
    kind: Seq<char>,
) -> bool {
    caps.contains_key(kind) && (caps[kind] matches Some(cap) ==> (if by_kind.contains_key(kind) {
        by_kind[kind] < cap
    } else {
        0 < cap
    }))
}

/// The counts with one job of a kind fewer, the kind left out at zero.
pub open spec fn slot_released(
    by_kind: Map<Seq<char>, usize>,
    kind: Seq<char>,
) -> Map<Seq<char>, usize> {
    if !by_kind.contains_key(kind) {
        by_kind
    } else if by_kind[kind] <= 1 {
        by_kind.remove(kind)
    } else {
        by_kind.insert(kind, (by_kind[kind] - 1) as usize)
    }
}

/// Decrement a kind's in-flight count, removing the entry when it reaches zero.
pub fn release_slot(by_kind: &mut KindMap<usize>, kind: &str)
    ensures
        final(by_kind)@ == slot_released(old(by_kind)@, kind@),
{
    let held: usize = match by_kind.get(kind) {
        Some(held) => *held,
        None => {
            return ;
        },
    };
    if held <= 1 {
        by_kind.remove(kind);
    } else {
        by_kind.insert(kind.to_owned(), held - 1);
    }
}

/// How long an idle loop sleeps, in nanoseconds: until the next eligible job but at
/// least 5ms, and never past `poll_max`.
pub open spec fn idle_wait(poll_max: nat, next: Option<Timestamp>, now: Timestamp) -> nat {
    let until = match next {
        Some(at) => if elapsed(now.nanos(), at.nanos()) < 5_000_000 {
            5_000_000
        } else {
            elapsed(now.nanos(), at.nanos())
        },
        None => poll_max,
    };
    if poll_max < until {
        poll_max
    } else {
        until
    }
}

/// How long to sleep when the loop cannot make progress by claiming: until the
/// soonest future eligibility among the worker's kinds, bounded by `poll_max`.
pub fn wait_duration(poll_max: Duration, next: Option<Timestamp>, now: Timestamp) -> (r: Duration)
    ensures
        r.nanos() == idle_wait(poll_max.nanos(), next, now),
{
    let until = match next {
        Some(at) => at.since(&now).longest(Duration::from_millis(5)),
        None => poll_max,
    };
    until.shortest(poll_max)
}

/// The loop never sleeps past `poll_max`, and never busy-spins.
pub proof fn idle_wait_is_bounded(poll_max: nat, next: Option<Timestamp>, now: Timestamp)
    requires
        poll_max >= 1_000_000,
    ensures
        1_000_000 <= idle_wait(poll_max, next, now) <= poll_max,
{
}

/// A claim found abandoned, with the jittered delay of its retry.
pub struct StaleJob {
    /// The stale claim.
    pub job: JobRecord,
    /// The jittered delay of the retry, in nanoseconds.
    pub jittered_nanos: u64,
}

/// What the loop is waiting for.
pub enum Phase {
    /// A scan for stale claims.
    Scanning,
    /// A recovery; the claims from `next` on follow.
    Recovering {
        /// The stale claims of this scan.
        jobs: Vec<StaleJob>,
        /// The first one not yet planned.
        next: usize,
        /// When the scan returned.
        now: Timestamp,
    },
    /// Whether a shutdown was signalled, before the next claim.
    Probing,
    /// A claim under a filter and a floor.
    Claiming {
        /// The kinds asked for.
        kinds: Vec<String>,
        /// The priority floor.
        floor: i16,
    },
    /// The start of a claimed job's handler.
    Starting,
    /// The next eligibility time.
    Scheduling,
    /// A wakeup.
    Waiting,
    /// A settlement, before the next iteration.
    Settling,
    /// A handler winding down, or the deadline.
    Draining,
    /// A settlement while draining.
    DrainSettling,
    /// The aborted handlers.
    Aborting,
    /// A settlement of a handler that finished before its abort.
    AbortSettling,
    /// A release of an aborted job.
    Releasing,
    /// Nothing: the loop has ended.
    Stopped,
}

/// A [`Phase`] with its texts as character sequences.
pub enum PhaseView {
    /// See [`Phase::Scanning`].
    Scanning,
    /// See [`Phase::Recovering`].
    Recovering { jobs: Seq<StaleJob>, next: nat, now: Timestamp },
    /// See [`Phase::Probing`].
    Probing,
    /// See [`Phase::Claiming`].
    Claiming { kinds: Seq<Seq<char>>, floor: i16 },
    /// See [`Phase::Starting`].
    Starting,
    /// See [`Phase::Scheduling`].
    Scheduling,
    /// See [`Phase::Waiting`].
    Waiting,
    /// See [`Phase::Settling`].
    Settling,
    /// See [`Phase::Draining`].
    Draining,
    /// See [`Phase::DrainSettling`].
    DrainSettling,
    /// See [`Phase::Aborting`].
    Aborting,
    /// See [`Phase::AbortSettling`].
    AbortSettling,
    /// See [`Phase::Releasing`].
    Releasing,
    /// See [`Phase::Stopped`].
    Stopped,
}

impl View for Phase {
    type V = PhaseView;

    open spec fn view(&self) -> PhaseView {
        match self {
            Phase::Scanning => PhaseView::Scanning,
            Phase::Recovering { jobs, next, now } => PhaseView::Recovering {
                jobs: jobs@,
                next: *next as nat,
                now: *now,
            },
            Phase::Probing => PhaseView::Probing,
            Phase::Claiming { kinds, floor } => PhaseView::Claiming {
                kinds: texts(kinds@),
                floor: *floor,
            },
            Phase::Starting => PhaseView::Starting,
            Phase::Scheduling => PhaseView::Scheduling,
            Phase::Waiting => PhaseView::Waiting,
            Phase::Settling => PhaseView::Settling,
            Phase::Draining => PhaseView::Draining,
            Phase::DrainSettling => PhaseView::DrainSettling,
            Phase::Aborting => PhaseView::Aborting,
            Phase::AbortSettling => PhaseView::AbortSettling,
            Phase::Releasing => PhaseView::Releasing,
            Phase::Stopped => PhaseView::Stopped,
        }
    }
}

/// What happened.
pub enum Event {
    /// The scan for stale claims returned; a failed scan found none.
    StaleFound {
        /// The stale claims.
        jobs: Vec<StaleJob>,
        /// The current time.
        now: Timestamp,
    },
    /// A recovery was attempted.
    Recovered,
    /// Whether a shutdown is signalled.
    ShutdownProbed {
        /// The answer.
        signalled: bool,
    },
    /// A job was claimed.
    Claimed {
        /// The job.
        job: JobRecord,
        /// The lease its task asks for, if any.
        task_lease: Option<Duration>,
    },
    /// Nothing was claimable.
    NothingClaimed,
    /// The claim failed.
    ClaimFailed,
    /// The claimed job's handler was started.
    Started,
    /// The soonest future eligibility time; `None` when there is none or it could
    /// not be read.
    NextVisible {
        /// The time.
        at: Option<Timestamp>,
        /// The current time.
        now: Timestamp,
    },
    /// A notification arrived or the wait elapsed.
    Woken,
    /// A shutdown was signalled.
    ShutdownSignalled,
    /// A handler finished.
    Finished {
        /// What it left.
        run: FinishedRun,
        /// The jittered delay of a retry, in nanoseconds.
        jittered_nanos: u64,
        /// The current time.
        now: Timestamp,
    },
    /// A handler's task ended without a result.
    Lost {
        /// Its job.
        id: ulid::Ulid,
        /// Its claim epoch.
        run_no: u32,
    },
    /// A settlement was attempted.
    SettleDone,
    /// The shutdown grace window ran out.
    DeadlinePassed,
    /// No handler task is left after the abort.
    AllJoined {
        /// The current time.
        now: Timestamp,
    },
    /// A release was attempted.
    ReleaseDone {
        /// The current time.
        now: Timestamp,
    },
}

/// What to do next.
pub enum Action {
    /// Scan for stale claims.
    ScanStale,
    /// Recover a stale claim.
    Recover(RecoveryPlan),
    /// Look whether a shutdown is signalled.
    ProbeShutdown,
    /// Claim a job of one of the kinds, at the floor.
    Claim {
        /// The kinds.
        kinds: Vec<String>,
        /// The priority floor.
        floor: i16,
    },
    /// Extend the lease where one is given, load the history, and start the handler.
    Start {
        /// The claimed job.
        job: JobRecord,
        /// The lease to extend the claim to.
        lease: Option<Duration>,
    },
    /// Read the soonest future eligibility time.
    ReadNextVisible,
    /// Wait for a handler, where one is running, a notification, a shutdown, or the
    /// time to pass.
    Wait {
        /// The longest wait.
        duration: Duration,
        /// Whether a handler is running.
        running: bool,
    },
    /// Settle a finished run.
    Settle(SettlePlan),
    /// Wait for a handler to wind down, or for the grace window to run out.
    AwaitDrain,
    /// Abort the handlers still running, then join them.
    AbortAll,
    /// Join the next aborted handler.
    AwaitAborted,
    /// Release an aborted job.
    Release(SettlePlan),
    /// Return: the loop has ended.
    Stop,
    /// Nothing: the event does not belong to what the loop is waiting for.
    Idle,
}

/// An [`Action`] with its texts as character sequences.
pub enum ActionView {
    /// See [`Action::ScanStale`].
    ScanStale,
    /// See [`Action::Recover`].
    Recover(RecoveryPlanView),
    /// See [`Action::ProbeShutdown`].
    ProbeShutdown,
    /// See [`Action::Claim`].
    Claim { kinds: Seq<Seq<char>>, floor: i16 },
    /// See [`Action::Start`]; the lease in nanoseconds.
    Start { job: JobView, lease: Option<nat> },
    /// See [`Action::ReadNextVisible`].
    ReadNextVisible,
    /// See [`Action::Wait`]; the duration in nanoseconds.
    Wait { nanos: nat, running: bool },
    /// See [`Action::Settle`].
    Settle(SettlePlanView),
    /// See [`Action::AwaitDrain`].
    AwaitDrain,
    /// See [`Action::AbortAll`].
    AbortAll,
    /// See [`Action::AwaitAborted`].
    AwaitAborted,
    /// See [`Action::Release`].
    Release(SettlePlanView),
    /// See [`Action::Stop`].
    Stop,
    /// See [`Action::Idle`].
    Idle,
}

impl View for Action {
    type V = ActionView;

    open spec fn view(&self) -> ActionView {
        match self {
            Action::ScanStale => ActionView::ScanStale,
            Action::Recover(plan) => ActionView::Recover(plan@),
            Action::ProbeShutdown => ActionView::ProbeShutdown,
            Action::Claim { kinds, floor } => ActionView::Claim {
                kinds: texts(kinds@),
                floor: *floor,
            },
            Action::Start { job, lease } => ActionView::Start {
                job: job@,
                lease: match lease {
                    Some(lease) => Some(lease.nanos()),
                    None => None,
                },
            },
            Action::ReadNextVisible => ActionView::ReadNextVisible,
            Action::Wait { duration, running } => ActionView::Wait {
                nanos: duration.nanos(),
                running: *running,
            },
            Action::Settle(plan) => ActionView::Settle(plan@),
            Action::AwaitDrain => ActionView::AwaitDrain,
            Action::AbortAll => ActionView::AbortAll,
            Action::AwaitAborted => ActionView::AwaitAborted,
            Action::Release(plan) => ActionView::Release(plan@),
            Action::Stop => ActionView::Stop,
            Action::Idle => ActionView::Idle,
        }
    }
}

/// What the loop knows.
pub struct LoopView {
    /// The worker's configuration.
    pub config: ConfigView,
    /// The registered kinds, each with its cap.
    pub caps: Map<Seq<char>, Option<usize>>,
    /// The in-flight jobs.
    pub inflight: Seq<InflightView>,
    /// The claims made so far, modulo `2^64`.
    pub counter: u64,
    /// What the loop is waiting for.
    pub phase: PhaseView,
}

/// The views of in-flight jobs.
pub open spec fn inflight_views(jobs: Seq<InflightJob>) -> Seq<InflightView> {
    Seq::new(jobs.len(), |i: int| jobs[i]@)
}

/// Whether an in-flight job is the given run.
pub open spec fn is_run(job: InflightView, id: ulid::Ulid, run_no: u32) -> bool {
    job.id == id && job.run_no == run_no
}

/// Whether `after` is `before` without the first job that is the given run, or
/// `before` itself when there is none.
pub open spec fn run_removed(
    before: Seq<InflightView>,
    id: ulid::Ulid,
    run_no: u32,
    after: Seq<InflightView>,
) -> bool {
    if exists|i: int| 0 <= i < before.len() && is_run(#[trigger] before[i], id, run_no) {
        exists|i: int|
            0 <= i < before.len() && is_run(before[i], id, run_no) && (forall|j: int|
                0 <= j < i ==> !is_run(#[trigger] before[j], id, run_no)) && after
                == #[trigger] before.remove(i)
    } else {
        after == before
    }
}

/// Fill the next slot, or wait when all are taken.
pub open spec fn fills(state: LoopView, action: ActionView) -> bool {
    if state.inflight.len() < state.config.concurrency {
        state.phase is Probing && action is ProbeShutdown
    } else {
        state.phase is Scheduling && action is ReadNextVisible
    }
}

/// Wind down while a handler is running, then abort.
pub open spec fn drains(state: LoopView, action: ActionView) -> bool {
    if state.inflight.len() > 0 {
        state.phase is Draining && action is AwaitDrain
    } else {
        state.phase is Aborting && action is AbortAll
    }
}

/// Release one in-flight job, or end when none is left.
pub open spec fn releases(
    before: LoopView,
    after: LoopView,
    now: Timestamp,
    action: ActionView,
) -> bool {
    if before.inflight.len() > 0 {
        after == (LoopView {
            inflight: before.inflight.drop_last(),
            phase: PhaseView::Releasing,
            ..before
        }) && action == ActionView::Release(release_plan(before.inflight.last(), now))
    } else {
        after == (LoopView { phase: PhaseView::Stopped, ..before }) && action is Stop
    }
}

/// Recover the claim at `next`, or fill when all are recovered.
pub open spec fn recovers(
    before: LoopView,
    after: LoopView,
    jobs: Seq<StaleJob>,
    next: nat,
    now: Timestamp,
    action: ActionView,
) -> bool {
    if next < jobs.len() {
        after == (LoopView {
            phase: PhaseView::Recovering { jobs, next: next + 1, now },
            ..before
        }) && action == ActionView::Recover(
            stale_plan(
                before.config,
                jobs[next as int].job@,
                now,
                jobs[next as int].jittered_nanos,
            ),
        )
    } else {
        after == (LoopView { phase: after.phase, ..before }) && fills(after, action)
    }
}

/// Drop a finished run from the in-flight set and settle it.
pub open spec fn settles(
    before: LoopView,
    after: LoopView,
    run: FinishedRun,
    jittered_nanos: u64,
    now: Timestamp,
    phase: PhaseView,
    action: ActionView,
) -> bool {
    &&& run_removed(before.inflight, run.id, run.run_no, after.inflight)
    &&& after == (LoopView { inflight: after.inflight, phase, ..before })
    &&& action == ActionView::Settle(run_plan(before.config, run, now, jittered_nanos))
}

/// One step of the loop: the state after an event, and the action it asks for.
pub open spec fn steps(
    before: LoopView,
    event: Event,
    after: LoopView,
    action: ActionView,
) -> bool {
    match (before.phase, event) {
        (PhaseView::Scanning, Event::StaleFound { jobs, now }) => recovers(
            before,
            after,
            jobs@,
            0,
            now,
            action,
        ),
        (PhaseView::Recovering { jobs, next, now }, Event::Recovered) => recovers(
            before,
            after,
            jobs,
            next,
            now,
            action,
        ),
        (PhaseView::Probing, Event::ShutdownProbed { signalled }) => if signalled {
            after == (LoopView { phase: after.phase, ..before }) && drains(after, action)
        } else if exists|kind: Seq<char>| has_room(before.caps, before.inflight, kind) {
            let counter = (if before.counter == u64::MAX {
                0
            } else {
                before.counter + 1
            }) as u64;
            let floor = rotation_floor(counter as nat, before.config.priority_ratio);
            &&& after.phase matches PhaseView::Claiming { kinds, floor: reserved }
                && lists_open_kinds(before.caps, before.inflight, kinds) && reserved == floor
                && action == ActionView::Claim { kinds, floor }
            &&& after == (LoopView { counter, phase: after.phase, ..before })
        } else {
            after == (LoopView { phase: PhaseView::Scheduling, ..before })
                && action is ReadNextVisible
        },
        (PhaseView::Claiming { kinds, floor }, Event::Claimed { job, task_lease }) => {
            &&& after == (LoopView {
                inflight: before.inflight.push(
                    InflightView { id: job.id, kind: job.kind@, run_no: job.run_count },
                ),
                phase: PhaseView::Starting,
                ..before
            })
            &&& action == ActionView::Start {
                job: job@,
                lease: lease_override(before.config, task_lease),
            }
        },
        (PhaseView::Claiming { kinds, floor }, Event::NothingClaimed) => if floor != FLOOR_ALL {
            after == (LoopView {
                phase: PhaseView::Claiming { kinds, floor: FLOOR_ALL },
                ..before
            }) && action == (ActionView::Claim { kinds, floor: FLOOR_ALL })
        } else {
            after == (LoopView { phase: PhaseView::Scheduling, ..before })
                && action is ReadNextVisible
        },
        (PhaseView::Claiming { .. }, Event::ClaimFailed) => after == (LoopView {
            phase: PhaseView::Scheduling,
            ..before
        }) && action is ReadNextVisible,
        (PhaseView::Starting, Event::Started) => after == (LoopView {
            phase: after.phase,
            ..before
        }) && fills(after, action),
        (PhaseView::Scheduling, Event::NextVisible { at, now }) => after == (LoopView {
            phase: PhaseView::Waiting,
            ..before
        }) && action == (ActionView::Wait {
            nanos: idle_wait(before.config.poll_max.nanos(), at, now),
            running: before.inflight.len() > 0,
        }),
        (PhaseView::Waiting, Event::Woken) => after == (LoopView {
            phase: PhaseView::Scanning,
            ..before
        }) && action is ScanStale,
        (PhaseView::Waiting, Event::ShutdownSignalled) => after == (LoopView {
            phase: after.phase,
            ..before
        }) && drains(after, action),
        (PhaseView::Waiting, Event::Finished { run, jittered_nanos, now }) => settles(
            before,
            after,
            run,
            jittered_nanos,
            now,
            PhaseView::Settling,
            action,
        ),
        (PhaseView::Waiting, Event::Lost { id, run_no }) => run_removed(
            before.inflight,
            id,
            run_no,
            after.inflight,
        ) && after == (LoopView {
            inflight: after.inflight,
            phase: PhaseView::Scanning,
            ..before
        }) && action is ScanStale,
        (PhaseView::Settling, Event::SettleDone) => after == (LoopView {
            phase: PhaseView::Scanning,
            ..before
        }) && action is ScanStale,
        (PhaseView::Draining, Event::Finished { run, jittered_nanos, now }) => settles(
            before,
            after,
            run,
            jittered_nanos,
            now,
            PhaseView::DrainSettling,
            action,
        ),
        (PhaseView::Draining, Event::Lost { id, run_no }) => run_removed(
            before.inflight,
            id,
            run_no,
            after.inflight,
        ) && after == (LoopView { inflight: after.inflight, phase: after.phase, ..before })
            && drains(after, action),
        (PhaseView::Draining, Event::DeadlinePassed) => after == (LoopView {
            phase: PhaseView::Aborting,
            ..before
        }) && action is AbortAll,
        (PhaseView::DrainSettling, Event::SettleDone) => after == (LoopView {
            phase: after.phase,
            ..before
        }) && drains(after, action),
        (PhaseView::Aborting, Event::Finished { run, jittered_nanos, now }) => settles(
            before,
            after,
            run,
            jittered_nanos,
            now,
            PhaseView::AbortSettling,
            action,
        ),
        (PhaseView::Aborting, Event::Lost { .. }) => after == before && action is AwaitAborted,
        (PhaseView::AbortSettling, Event::SettleDone) => after == (LoopView {
            phase: PhaseView::Aborting,
            ..before
        }) && action is AwaitAborted,
        (PhaseView::Aborting, Event::AllJoined { now }) => releases(before, after, now, action),
        (PhaseView::Releasing, Event::ReleaseDone { now }) => releases(before, after, now, action),
        _ => after == before && action is Idle,
    }
}

/// The loop of a worker with the given kinds and caps, as it starts.
pub open spec fn started(config: ConfigView, caps: Map<Seq<char>, Option<usize>>) -> LoopView {
    LoopView {
        config,
        caps,
        inflight: Seq::empty(),
        counter: 0,
        phase: if caps.dom().len() == 0 {
            PhaseView::Stopped
        } else {
            PhaseView::Scanning
        },
    }
}

/// What holds of the loop between steps: no more jobs in flight than slots, a free
/// slot whenever a claim is due, an up-to-date claim filter, and nothing in flight
/// at the end.
pub open spec fn in_bounds(state: LoopView) -> bool {
    &&& state.inflight.len() <= state.config.concurrency
    &&& (state.phase is Probing || state.phase is Claiming) ==> state.inflight.len()
        < state.config.concurrency
    &&& state.phase matches PhaseView::Claiming { kinds, .. } ==> lists_open_kinds(
        state.caps,
        state.inflight,
        kinds,
    )
    &&& state.phase is Stopped ==> state.inflight.len() == 0
}

/// Whether no kind has more jobs in flight than its cap.
pub open spec fn caps_respected(state: LoopView) -> bool {
    forall|kind: Seq<char>| #[trigger]
        state.caps.contains_key(kind) ==> (state.caps[kind] matches Some(cap) ==> kind_count(
            state.inflight,
            kind,
        ) <= cap)
}

/// The claim/dispatch loop of one worker.
pub struct RunLoop {
    config: WorkerConfig,
    caps: KindMap<Option<usize>>,
    by_kind: KindMap<usize>,
    inflight: Vec<InflightJob>,
    claim_counter: u64,
    phase: Phase,
}

impl View for RunLoop {
    type V = LoopView;

    closed spec fn view(&self) -> LoopView {
        LoopView {
            config: self.config@,
            caps: self.caps@,
            inflight: inflight_views(self.inflight@),
            counter: self.claim_counter,
            phase: self.phase@,
        }
    }
}

impl RunLoop {
    /// The per-kind counts are those of the in-flight jobs, and the state is in
    /// bounds.
    pub closed spec fn wf(self) -> bool {
        &&& counts_inflight(self.by_kind@, inflight_views(self.inflight@))
        &&& in_bounds(self@)
        &&& runnable(self.config@)
        &&& self.phase matches Phase::Recovering { jobs, next, .. } ==> next <= jobs@.len()
    }

    /// A well-formed loop is in bounds.
    pub proof fn wf_is_in_bounds(self)
        requires
            self.wf(),
        ensures
            in_bounds(self@),
    {
    }

    /// Start the loop of a worker with the given kinds and caps.
    ///
    /// A worker with no registered kinds can never claim anything, and running its
    /// loop would just spin on empty waits: it stops at once.
    pub fn start(config: WorkerConfig, caps: KindMap<Option<usize>>) -> (r: (RunLoop, Action))
        ensures
            r.0.wf(),
            r.0@ == started(config@, caps@),
            r.1@ == (if caps@.dom().len() == 0 {
                ActionView::Stop
            } else {
                ActionView::ScanStale
            }),
    {
        let _ = config.concurrency();
        let idle = caps.is_empty();
        let phase = if idle {
            Phase::Stopped
        } else {
            Phase::Scanning
        };
        let r = RunLoop {
            config,
            caps,
            by_kind: KindMap::new(),
            inflight: Vec::new(),
            claim_counter: 0,
            phase,
        };
        assert(r@.inflight =~= Seq::<InflightView>::empty());
        if idle {
            (r, Action::Stop)
        } else {
            (r, Action::ScanStale)
        }
    }

    /// The number of jobs in flight.
    pub fn in_flight(&self) -> (r: usize)
        ensures
            r == self@.inflight.len(),
    {
        self.inflight.len()
    }

    fn fill(&mut self) -> (action: Action)
        requires
            old(self).wf(),
        ensures
            final(self).wf(),
            final(self)@ == (LoopView { phase: final(self)@.phase, ..old(self)@ }),
            fills(final(self)@, action@),
    {
        if self.inflight.len() < self.config.concurrency() {
            self.phase = Phase::Probing;
            Action::ProbeShutdown
        } else {
            self.phase = Phase::Scheduling;
            Action::ReadNextVisible
        }
    }

    fn drain(&mut self) -> (action: Action)
        requires
            old(self).wf(),
        ensures
            final(self).wf(),
            final(self)@ == (LoopView { phase: final(self)@.phase, ..old(self)@ }),
            drains(final(self)@, action@),
    {
        if self.inflight.len() > 0 {
            self.phase = Phase::Draining;
            Action::AwaitDrain
        } else {
            self.phase = Phase::Aborting;
            Action::AbortAll
        }
    }

    /// Ask for the next eligibility time.
    fn schedule(&mut self) -> (action: Action)
        requires
            old(self).wf(),
        ensures
            final(self).wf(),
            final(self)@ == (LoopView { phase: PhaseView::Scheduling, ..old(self)@ }),
            action@ is ReadNextVisible,
    {
        self.phase = Phase::Scheduling;
        Action::ReadNextVisible
    }

    /// Begin the next iteration.
    fn iterate(&mut self) -> (action: Action)
        requires
            old(self).wf(),
        ensures
            final(self).wf(),
            final(self)@ == (LoopView { phase: PhaseView::Scanning, ..old(self)@ }),
            action@ is ScanStale,
    {
        self.phase = Phase::Scanning;
        Action::ScanStale
    }

    /// Recover the claim at `next`, or fill when all are recovered.
    fn recover_next(&mut self, jobs: Vec<StaleJob>, next: usize, now: Timestamp) -> (action: Action)
        requires
            old(self).wf(),
            next <= jobs@.len(),
        ensures
            final(self).wf(),
            recovers(old(self)@, final(self)@, jobs@, next as nat, now, action@),
    {
        if next < jobs.len() {
            let plan = plan_recovery(
                &self.config,
                &jobs[next].job,
                now,
                jobs[next].jittered_nanos,
            );
            self.phase = Phase::Recovering { jobs, next: next + 1, now };
            Action::Recover(plan)
        } else {
            self.fill()
        }
    }

    /// Claim under the rotation's floor among the kinds with room, or wait when no
    /// kind has any.
    fn claim(&mut self) -> (action: Action)
        requires
            old(self).wf(),
            old(self)@.phase is Probing,
        ensures
            final(self).wf(),
            steps(
                old(self)@,
                Event::ShutdownProbed { signalled: false },
                final(self)@,
                action@,
            ),
    {
        let kinds = claimable_kinds(&self.caps, &self.by_kind);
        let ghost named = texts(kinds@);
        let ghost before = self@;
        proof {
            assert forall|kind: Seq<char>| #[trigger]
                names_kind(named, kind) <==> has_room(before.caps, before.inflight, kind) by {
                assert(self.by_kind@.contains_key(kind) <==> kind_count(before.inflight, kind) > 0);
            }
            assert(lists_open_kinds(before.caps, before.inflight, named));
        }
        if kinds.len() == 0 {
            proof {
                assert forall|kind: Seq<char>| !has_room(before.caps, before.inflight, kind) by {
                    assert(!names_kind(named, kind));
                }
            }
            return self.schedule();
        }
        proof {
            assert(named[0] == kinds@[0]@);
            assert(names_kind(named, named[0]));
            assert(has_room(before.caps, before.inflight, named[0]));
        }
        self.claim_counter = self.claim_counter.wrapping_add(1);
        let floor: i16 = floor_for(self.claim_counter, self.config.priority_ratio());
        let asked = copy_kinds(&kinds);
        self.phase = Phase::Claiming { kinds: asked, floor };
        Action::Claim { kinds, floor }
    }

    /// Drop a run from the in-flight set and its kind's count.
    fn forget(&mut self, id: ulid::Ulid, run_no: u32)
        requires
            old(self).wf(),
            !(old(self)@.phase is Claiming),
        ensures
            final(self).wf(),
            final(self)@ == (LoopView { inflight: final(self)@.inflight, ..old(self)@ }),
            run_removed(old(self)@.inflight, id, run_no, final(self)@.inflight),
    {
        let ghost before = self@.inflight;
        let mut i: usize = 0;
        while i < self.inflight.len()
            invariant
                *self == *old(self),
                old(self).wf(),
                !(old(self)@.phase is Claiming),
                before == self@.inflight,
                i <= self.inflight@.len(),
                forall|j: int| 0 <= j < i ==> !is_run(#[trigger] before[j], id, run_no),
            decreases self.inflight@.len() - i,
        {
            assert(before[i as int] == self.inflight@[i as int]@);
            if self.inflight[i].id.0 == id.0 && self.inflight[i].run_no == run_no {
                let ghost counts = self.by_kind@;
                assert(is_run(before[i as int], id, run_no));
                let job = self.inflight.remove(i);
                release_slot(&mut self.by_kind, job.kind.as_str());
                proof {
                    let after = before.remove(i as int);
                    assert(inflight_views(self.inflight@) =~= after);
                    assert forall|kind: Seq<char>|
                        #![trigger self.by_kind@.contains_key(kind)]
                        #![trigger kind_count(after, kind)]
                        (self.by_kind@.contains_key(kind) <==> kind_count(after, kind) > 0) && (
                        self.by_kind@.contains_key(kind) ==> self.by_kind@[kind] == kind_count(
                            after,
                            kind,
                        )) by {
                        lemma_count_remove(before, i as int, kind);
                        assert(counts.contains_key(kind) <==> kind_count(before, kind) > 0);
                    }
                    assert(run_removed(before, id, run_no, after));
                }
                return ;
            }
            i += 1;
        }
        assert forall|j: int| 0 <= j < before.len() implies !is_run(
            #[trigger] before[j],
            id,
            run_no,
        ) by {}
    }

    /// Release one in-flight job, or end when none is left.
    fn release_next(&mut self, now: Timestamp) -> (action: Action)
        requires
            old(self).wf(),
        ensures
            final(self).wf(),
            releases(old(self)@, final(self)@, now, action@),
    {
        let ghost before = self@.inflight;
        let ghost counts = self.by_kind@;
        match self.inflight.pop() {
            Some(job) => {
                release_slot(&mut self.by_kind, job.kind.as_str());
                self.phase = Phase::Releasing;
                proof {
                    let after = before.drop_last();
                    let last = before.len() - 1;
                    assert(inflight_views(self.inflight@) =~= after);
                    assert(before.remove(last) =~= after);
                    assert(before.last() == job@);
                    assert forall|kind: Seq<char>|
                        #![trigger self.by_kind@.contains_key(kind)]
                        #![trigger kind_count(after, kind)]
                        (self.by_kind@.contains_key(kind) <==> kind_count(after, kind) > 0) && (
                        self.by_kind@.contains_key(kind) ==> self.by_kind@[kind] == kind_count(
                            after,
                            kind,
                        )) by {
                        lemma_count_remove(before, last, kind);
                        assert(counts.contains_key(kind) <==> kind_count(before, kind) > 0);
                    }
                }
                Action::Release(release(job, now))
            },
            None => {
                self.phase = Phase::Stopped;
                Action::Stop
            },
        }
    }

    /// Drop a finished run from the in-flight set and plan its settlement.
    fn reap(&mut self, run: FinishedRun, jittered_nanos: u64, now: Timestamp) -> (action: Action)
        requires
            old(self).wf(),
            !(old(self)@.phase is Claiming),
        ensures
            final(self).wf(),
            settles(
                old(self)@,
                final(self)@,
                run,
                jittered_nanos,
                now,
                old(self)@.phase,
                action@,
            ),
    {
        self.forget(run.id, run.run_no);
        let plan = settle(&self.config, run, now, jittered_nanos);
        Action::Settle(plan)
    }

    /// Track a claimed job and start its handler.
    fn launch(&mut self, job: JobRecord, task_lease: Option<Duration>) -> (action: Action)
        requires
            old(self).wf(),
            old(self)@.phase is Claiming,
        ensures
            final(self).wf(),
            steps(old(self)@, Event::Claimed { job, task_lease }, final(self)@, action@),
    {
        let lease = apply_task_lease(&self.config, task_lease);
        let ghost before = self@.inflight;
        let ghost counts = self.by_kind@;
        let held: usize = match self.by_kind.get(job.kind.as_str()) {
            Some(held) => *held,
            None => 0,
        };
        proof {
            lemma_count_is_bounded(before, job.kind@);
            assert(counts.contains_key(job.kind@) <==> kind_count(before, job.kind@) > 0);
        }
        self.by_kind.insert(job.kind.clone(), held + 1);
        let entry = InflightJob { id: job.id, kind: job.kind.clone(), run_no: job.run_count };
        self.inflight.push(entry);
        self.phase = Phase::Starting;
        proof {
            let after = before.push(entry@);
            assert(inflight_views(self.inflight@) =~= after);
            assert forall|kind: Seq<char>|
                #![trigger self.by_kind@.contains_key(kind)]
                #![trigger kind_count(after, kind)]
                (self.by_kind@.contains_key(kind) <==> kind_count(after, kind) > 0) && (
                self.by_kind@.contains_key(kind) ==> self.by_kind@[kind] == kind_count(
                    after,
                    kind,
                )) by {
                lemma_count_push(before, entry@, kind);
                assert(counts.contains_key(kind) <==> kind_count(before, kind) > 0);
            }
        }
        Action::Start { job, lease }
    }

    /// Take one step: from what happened to what to do next.
    pub fn step(&mut self, event: Event) -> (action: Action)
        requires
            old(self).wf(),
        ensures
            final(self).wf(),
            steps(old(self)@, event, final(self)@, action@),
    {
        let mut phase = Phase::Stopped;
        std::mem::swap(&mut phase, &mut self.phase);
        match (phase, event) {
            (Phase::Scanning, Event::StaleFound { jobs, now }) => {
                self.phase = Phase::Scanning;
                self.recover_next(jobs, 0, now)
            },
            (Phase::Recovering { jobs, next, now }, Event::Recovered) => {
                self.phase = Phase::Scanning;
                self.recover_next(jobs, next, now)
            },
            (Phase::Probing, Event::ShutdownProbed { signalled }) => {
                self.phase = Phase::Probing;
                if signalled {
                    self.drain()
                } else {
                    self.claim()
                }
            },
            (Phase::Claiming { kinds, floor }, Event::Claimed { job, task_lease }) => {
                self.phase = Phase::Claiming { kinds, floor };
                self.launch(job, task_lease)
            },
            (Phase::Claiming { kinds, floor }, Event::NothingClaimed) => {
                if floor != FLOOR_ALL {
                    let asked = copy_kinds(&kinds);
                    self.phase = Phase::Claiming { kinds: asked, floor: FLOOR_ALL };
                    Action::Claim { kinds, floor: FLOOR_ALL }
                } else {
                    self.phase = Phase::Scanning;
                    self.schedule()
                }
            },
            (Phase::Claiming { .. }, Event::ClaimFailed) => {
                self.phase = Phase::Scanning;
                self.schedule()
            },
            (Phase::Starting, Event::Started) => {
                self.phase = Phase::Starting;
                self.fill()
            },
            (Phase::Scheduling, Event::NextVisible { at, now }) => {
                let duration = wait_duration(self.config.poll_max(), at, now);
                self.phase = Phase::Waiting;
                Action::Wait { duration, running: self.inflight.len() > 0 }
            },
            (Phase::Waiting, Event::Woken) => {
                self.phase = Phase::Waiting;
                self.iterate()
            },
            (Phase::Waiting, Event::ShutdownSignalled) => {
                self.phase = Phase::Waiting;
                self.drain()
            },
            (Phase::Waiting, Event::Finished { run, jittered_nanos, now }) => {
                self.phase = Phase::Settling;
                self.reap(run, jittered_nanos, now)
            },
            (Phase::Waiting, Event::Lost { id, run_no }) => {
                self.phase = Phase::Waiting;
                self.forget(id, run_no);
                self.iterate()
            },
            (Phase::Settling, Event::SettleDone) => {
                self.phase = Phase::Settling;
                self.iterate()
            },
            (Phase::Draining, Event::Finished { run, jittered_nanos, now }) => {
                self.phase = Phase::DrainSettling;
                self.reap(run, jittered_nanos, now)
            },
            (Phase::Draining, Event::Lost { id, run_no }) => {
                self.phase = Phase::Draining;
                self.forget(id, run_no);
                self.drain()
            },
            (Phase::Draining, Event::DeadlinePassed) => {
                self.phase = Phase::Aborting;
                Action::AbortAll
            },
            (Phase::DrainSettling, Event::SettleDone) => {
                self.phase = Phase::Draining;
                self.drain()
            },
            (Phase::Aborting, Event::Finished { run, jittered_nanos, now }) => {
                self.phase = Phase::AbortSettling;
                self.reap(run, jittered_nanos, now)
            },
            (Phase::Aborting, Event::Lost { .. }) => {
                self.phase = Phase::Aborting;
                Action::AwaitAborted
            },
            (Phase::AbortSettling, Event::SettleDone) => {
                self.phase = Phase::Aborting;
                Action::AwaitAborted
            },
            (Phase::Aborting, Event::AllJoined { now }) => {
                self.phase = Phase::Aborting;
                self.release_next(now)
            },
            (Phase::Releasing, Event::ReleaseDone { now }) => {
                self.phase = Phase::Releasing;
                self.release_next(now)
            },
            (phase, _) => {
                self.phase = phase;
                Action::Idle
            },
        }
    }
}

/// Copy a list of kinds.
fn copy_kinds(kinds: &Vec<String>) -> (r: Vec<String>)
    ensures
        texts(r@) == texts(kinds@),
{
    let mut r: Vec<String> = Vec::new();
    let mut i: usize = 0;
    while i < kinds.len()
        invariant
            i <= kinds@.len(),
            r@.len() == i,
            forall|j: int| 0 <= j < i ==> (#[trigger] r@[j])@ == kinds@[j]@,
        decreases kinds@.len() - i,
    {
        r.push(kinds[i].clone());
        i += 1;
    }
    assert(texts(r@) =~= texts(kinds@));
    r
}

/// Whether the loop is shutting down or has ended.
pub open spec fn shutting_down(phase: PhaseView) -> bool {
    phase is Draining || phase is DrainSettling || phase is Aborting || phase is AbortSettling
        || phase is Releasing || phase is Stopped
}

proof fn lemma_removed_is_shorter(
    before: Seq<InflightView>,
    id: ulid::Ulid,
    run_no: u32,
    after: Seq<InflightView>,
)
    requires
        run_removed(before, id, run_no, after),
    ensures
        after.len() <= before.len(),
        forall|kind: Seq<char>| #[trigger] kind_count(after, kind) <= kind_count(before, kind),
{
    if exists|i: int| 0 <= i < before.len() && is_run(#[trigger] before[i], id, run_no) {
        let i = choose|i: int|
            0 <= i < before.len() && is_run(before[i], id, run_no) && (forall|j: int|
                0 <= j < i ==> !is_run(#[trigger] before[j], id, run_no)) && after
                == #[trigger] before.remove(i);
        assert forall|kind: Seq<char>| #[trigger] kind_count(after, kind) <= kind_count(
            before,
            kind,
        ) by {
            lemma_count_remove(before, i, kind);
        }
    }
}

/// The in-flight set never outgrows the configured concurrency, whatever happens.
pub proof fn every_step_stays_in_bounds(
    before: LoopView,
    event: Event,
    after: LoopView,
    action: ActionView,
)
    requires
        runnable(before.config),
        in_bounds(before),
        steps(before, event, after, action),
    ensures
        in_bounds(after),
        after.config == before.config,
        after.caps == before.caps,
{
    match (before.phase, event) {
        (PhaseView::Waiting, Event::Finished { run, .. }) => lemma_removed_is_shorter(
            before.inflight,
            run.id,
            run.run_no,
            after.inflight,
        ),
        (PhaseView::Draining, Event::Finished { run, .. }) => lemma_removed_is_shorter(
            before.inflight,
            run.id,
            run.run_no,
            after.inflight,
        ),
        (PhaseView::Aborting, Event::Finished { run, .. }) => lemma_removed_is_shorter(
            before.inflight,
            run.id,
            run.run_no,
            after.inflight,
        ),
        (PhaseView::Waiting, Event::Lost { id, run_no }) => lemma_removed_is_shorter(
            before.inflight,
            id,
            run_no,
            after.inflight,
        ),
        (PhaseView::Draining, Event::Lost { id, run_no }) => lemma_removed_is_shorter(
            before.inflight,
            id,
            run_no,
            after.inflight,
        ),
        _ => {},
    }
}

/// No kind ever has more jobs in flight than its cap, as long as a claim hands out
/// a job of one of the kinds it was asked for.
pub proof fn caps_stay_respected(
    before: LoopView,
    event: Event,
    after: LoopView,
    action: ActionView,
)
    requires
        in_bounds(before),
        caps_respected(before),
        steps(before, event, after, action),
        (before.phase matches PhaseView::Claiming { kinds, .. } && event matches Event::Claimed {
            job,
            ..
        }) ==> names_kind(before.phase->kinds, event->job.kind@),
    ensures
        caps_respected(after),
{
    match (before.phase, event) {
        (PhaseView::Claiming { kinds, .. }, Event::Claimed { job, .. }) => {
            let entry = InflightView { id: job.id, kind: job.kind@, run_no: job.run_count };
            assert(has_room(before.caps, before.inflight, job.kind@));
            assert forall|kind: Seq<char>| #[trigger]
                after.caps.contains_key(kind) implies (after.caps[kind] matches Some(cap)
                ==> kind_count(after.inflight, kind) <= cap) by {
                assert(before.caps.contains_key(kind));
                lemma_count_push(before.inflight, entry, kind);
            }
        },
        (PhaseView::Waiting, Event::Finished { run, .. }) => lemma_removed_is_shorter(
            before.inflight,
            run.id,
            run.run_no,
            after.inflight,
        ),
        (PhaseView::Draining, Event::Finished { run, .. }) => lemma_removed_is_shorter(
            before.inflight,
            run.id,
            run.run_no,
            after.inflight,
        ),
        (PhaseView::Aborting, Event::Finished { run, .. }) => lemma_removed_is_shorter(
            before.inflight,
            run.id,
            run.run_no,
            after.inflight,
        ),
        (PhaseView::Waiting, Event::Lost { id, run_no }) => lemma_removed_is_shorter(
            before.inflight,
            id,
            run_no,
            after.inflight,
        ),
        (PhaseView::Draining, Event::Lost { id, run_no }) => lemma_removed_is_shorter(
            before.inflight,
            id,
            run_no,
            after.inflight,
        ),
        (PhaseView::Aborting, Event::AllJoined { .. }) => {
            lemma_release_counts(before, after);
        },
        (PhaseView::Releasing, Event::ReleaseDone { .. }) => {
            lemma_release_counts(before, after);
        },
        _ => {},
    }
    assert forall|kind: Seq<char>| #[trigger]
        after.caps.contains_key(kind) implies (after.caps[kind] matches Some(cap) ==> kind_count(
        after.inflight,
        kind,
    ) <= cap) by {
        assert(before.caps.contains_key(kind));
        if !(before.phase is Claiming) {
            assert(kind_count(after.inflight, kind) <= kind_count(before.inflight, kind));
        }
    }
}

proof fn lemma_release_counts(before: LoopView, after: LoopView)
    requires
        before.inflight.len() > 0 ==> after.inflight == before.inflight.drop_last(),
        before.inflight.len() == 0 ==> after.inflight == before.inflight,
    ensures
        forall|kind: Seq<char>| #[trigger]
            kind_count(after.inflight, kind) <= kind_count(before.inflight, kind),
{
}

/// A shutdown is final: once draining, the loop never scans, claims, or starts a job
/// again.
pub proof fn shutdown_is_final(
    before: LoopView,
    event: Event,
    after: LoopView,
    action: ActionView,
)
    requires
        shutting_down(before.phase),
        steps(before, event, after, action),
    ensures
        shutting_down(after.phase),
        !(action is Claim),
        !(action is Start),
        !(action is ScanStale),
        after.inflight.len() <= before.inflight.len(),
{
    match (before.phase, event) {
        (PhaseView::Draining, Event::Finished { run, .. }) => lemma_removed_is_shorter(
            before.inflight,
            run.id,
            run.run_no,
            after.inflight,
        ),
        (PhaseView::Aborting, Event::Finished { run, .. }) => lemma_removed_is_shorter(
            before.inflight,
            run.id,
            run.run_no,
            after.inflight,
        ),
        (PhaseView::Draining, Event::Lost { id, run_no }) => lemma_removed_is_shorter(
            before.inflight,
            id,
            run_no,
            after.inflight,
        ),
        _ => {},
    }
}

/// A signalled shutdown stops claiming: no job is claimed once a probe or a wait
/// saw the signal.
pub proof fn signalled_shutdown_drains(
    before: LoopView,
    after: LoopView,
    action: ActionView,
)
    ensures
        before.phase is Probing && steps(
            before,
            Event::ShutdownProbed { signalled: true },
            after,
            action,
        ) ==> shutting_down(after.phase),
        before.phase is Waiting && steps(before, Event::ShutdownSignalled, after, action)
            ==> shutting_down(after.phase),
{
}

/// A handler that finished is always settled, also when it finished after the
/// shutdown deadline, and never released.
pub proof fn finished_handlers_are_settled(
    before: LoopView,
    run: FinishedRun,
    jittered_nanos: u64,
    now: Timestamp,
    after: LoopView,
    action: ActionView,
)
    requires
        before.phase is Waiting || before.phase is Draining || before.phase is Aborting,
        steps(before, Event::Finished { run, jittered_nanos, now }, after, action),
    ensures
        action == ActionView::Settle(run_plan(before.config, run, now, jittered_nanos)),
{
}

/// No in-flight job is dropped silently: one that leaves the set is being settled,
/// being released, or its task was lost, and then lease expiry recovers it.
pub proof fn no_run_is_forgotten(
    before: LoopView,
    event: Event,
    after: LoopView,
    action: ActionView,
    i: int,
)
    requires
        steps(before, event, after, action),
        0 <= i < before.inflight.len(),
    ensures
        ({
            let job = before.inflight[i];
            ||| after.inflight.contains(job)
            ||| action matches ActionView::Settle(plan) && is_run(job, plan.id, plan.run_no)
            ||| action matches ActionView::Release(plan) && is_run(job, plan.id, plan.run_no)
            ||| event matches Event::Lost { id, run_no } && is_run(job, id, run_no)
        }),
{
    let job = before.inflight[i];
    match (before.phase, event) {
        (PhaseView::Waiting, Event::Finished { run, .. }) => lemma_removed_keeps(
            before.inflight,
            run.id,
            run.run_no,
            after.inflight,
            i,
        ),
        (PhaseView::Draining, Event::Finished { run, .. }) => lemma_removed_keeps(
            before.inflight,
            run.id,
            run.run_no,
            after.inflight,
            i,
        ),
        (PhaseView::Aborting, Event::Finished { run, .. }) => lemma_removed_keeps(
            before.inflight,
            run.id,
            run.run_no,
            after.inflight,
            i,
        ),
        (PhaseView::Waiting, Event::Lost { id, run_no }) => lemma_removed_keeps(
            before.inflight,
            id,
            run_no,
            after.inflight,
            i,
        ),
        (PhaseView::Draining, Event::Lost { id, run_no }) => lemma_removed_keeps(
            before.inflight,
            id,
            run_no,
            after.inflight,
            i,
        ),
        (PhaseView::Claiming { .. }, Event::Claimed { .. }) => {
            assert(after.inflight[i] == job);
        },
        (PhaseView::Aborting, Event::AllJoined { .. }) => {
            if i < before.inflight.len() - 1 {
                assert(after.inflight[i] == job);
            }
        },
        (PhaseView::Releasing, Event::ReleaseDone { .. }) => {
            if i < before.inflight.len() - 1 {
                assert(after.inflight[i] == job);
            }
        },
        _ => {
            assert(after.inflight[i] == job);
        },
    }
}

proof fn lemma_removed_keeps(
    before: Seq<InflightView>,
    id: ulid::Ulid,
    run_no: u32,
    after: Seq<InflightView>,
    i: int,
)
    requires
        run_removed(before, id, run_no, after),
        0 <= i < before.len(),
    ensures
        after.contains(before[i]) || is_run(before[i], id, run_no),
{
    if exists|k: int| 0 <= k < before.len() && is_run(#[trigger] before[k], id, run_no) {
        let k = choose|k: int|
            0 <= k < before.len() && is_run(before[k], id, run_no) && (forall|j: int|
                0 <= j < k ==> !is_run(#[trigger] before[j], id, run_no)) && after
                == #[trigger] before.remove(k);
        if i < k {
            assert(after[i] == before[i]);
        } else if i > k {
            assert(after[i - 1] == before[i]);
        }
    } else {
        assert(after[i] == before[i]);
    }
}

/// A reserved slot is never wasted: a claim reserved for lower tiers that finds
/// nothing is repeated for all tiers before the loop waits.
pub proof fn reserved_claims_fall_back(
    before: LoopView,
    kinds: Seq<Seq<char>>,
    floor: i16,
    after: LoopView,
    action: ActionView,
)
    requires
        before.phase == (PhaseView::Claiming { kinds, floor }),
        floor != FLOOR_ALL,
        steps(before, Event::NothingClaimed, after, action),
    ensures
        action == (ActionView::Claim { kinds, floor: FLOOR_ALL }),
        after.phase == (PhaseView::Claiming { kinds, floor: FLOOR_ALL }),
{
}

/// An idle loop sleeps exactly until the next job is eligible: longer only to make up five
/// milliseconds, shorter only not to pass `poll_max`, and for `poll_max` where nothing is
/// scheduled.
pub proof fn the_loop_sleeps_until_work_is_due(
    poll_max: Duration,
    next: Option<Timestamp>,
    now: Timestamp,
    wait: Duration,
)
    requires
        call_ensures(wait_duration, (poll_max, next, now), wait),
    ensures
        wait.nanos() <= poll_max.nanos(),
        next is None ==> wait.nanos() == poll_max.nanos(),
        next matches Some(at) ==> {
            let due = at.nanos() - now.nanos();
            &&& 5_000_000 <= due <= poll_max.nanos() ==> wait.nanos() == due
            &&& due > poll_max.nanos() ==> wait.nanos() == poll_max.nanos()
            &&& due < 5_000_000 <= poll_max.nanos() ==> wait.nanos() == 5_000_000
        },
{
}

/// The job a claim hands out is the job that is started, under its own run number, and it
/// is in flight from then on.
pub proof fn a_claimed_job_is_started(
    before: LoopView,
    job: JobRecord,
    task_lease: Option<Duration>,
    after: LoopView,
    action: ActionView,
)
    requires
        before.phase is Claiming,
        runnable(before.config),
        steps(before, Event::Claimed { job, task_lease }, after, action),
    ensures
        action matches ActionView::Start { job: started, lease } && {
            &&& started == job@
            &&& task_lease is None ==> lease is None
            &&& task_lease matches Some(asked) ==> (if 1_000_000_000 <= asked.nanos()
                <= 31_536_000_000_000_000 && asked.nanos() != before.config.lease.nanos() {
                lease == Some(asked.nanos())
            } else {
                lease matches Some(lease) ==> 1_000_000_000 <= lease <= 31_536_000_000_000_000
            })
        },
        after.inflight.len() == before.inflight.len() + 1,
        after.inflight.last().id == job.id,
        after.inflight.last().kind == job.kind@,
        after.inflight.last().run_no == job.run_count,
        forall|i: int|
            0 <= i < before.inflight.len() ==> #[trigger] after.inflight[i] == before.inflight[i],
{
}

/// The loop claims whenever it can. It asks for a claim only with a free slot, for exactly
/// the kinds with room and, when it has just looked for a shutdown, at the floor of the
/// rotation's next turn; and it looks for the time of the next job only where no slot is
/// free, no kind has room, or a claim brought nothing.
pub proof fn no_slot_is_left_free_in_vain(
    before: LoopView,
    event: Event,
    after: LoopView,
    action: ActionView,
)
    requires
        in_bounds(before),
        steps(before, event, after, action),
    ensures
        action matches ActionView::Claim { kinds, .. } ==> {
            &&& before.inflight.len() < before.config.concurrency
            &&& forall|kind: Seq<char>| #[trigger]
                names_kind(kinds, kind) <==> has_room(before.caps, before.inflight, kind)
        },
        action matches ActionView::Claim { floor, .. } ==> before.phase is Probing ==> {
            &&& after.counter == (before.counter + 1) % (u64::MAX + 1)
            &&& floor == rotation_floor(after.counter as nat, before.config.priority_ratio)
        },
        !(before.phase is Probing && action is Claim) ==> after.counter == before.counter,
        action is ReadNextVisible ==> {
            ||| before.inflight.len() >= before.config.concurrency
            ||| forall|kind: Seq<char>| !has_room(before.caps, before.inflight, kind)
            ||| event is NothingClaimed
            ||| event is ClaimFailed
        },
        action is Wait ==> before.phase is Scheduling && event is NextVisible,
        event matches Event::ShutdownProbed { signalled } ==> before.phase is Probing
            && !signalled ==> (action is Claim || forall|kind: Seq<char>|
            !has_room(before.caps, before.inflight, kind)),
{
}

/// Every stale claim a scan finds is recovered, one after the other and each at the epoch
/// it was found at, before the loop goes on to claim.
pub proof fn every_stale_claim_is_recovered(
    before: LoopView,
    jobs: Seq<StaleJob>,
    next: nat,
    event: Event,
    after: LoopView,
    action: ActionView,
)
    requires
        steps(before, event, after, action),
        next < jobs.len(),
        (next == 0 && before.phase is Scanning && (event matches Event::StaleFound {
            jobs: found,
            ..
        } && found@ == jobs)) || (event is Recovered && (
        before.phase matches PhaseView::Recovering { jobs: found, next: at, .. } && found == jobs
            && at == next)),
    ensures
        action matches ActionView::Recover(plan) && plan.id == jobs[next as int].job.id
            && plan.run_no == jobs[next as int].job.run_count,
        after.phase matches PhaseView::Recovering { jobs: rest, next: at, .. } && rest == jobs && at
            == next + 1,
        after.inflight == before.inflight,
{
}

/// After a wait the loop looks for stale claims again; when the grace window runs out it
/// aborts what still runs; and when that is joined it releases each job that is left
/// before it ends.
pub proof fn the_loop_goes_on_or_winds_down(
    before: LoopView,
    event: Event,
    after: LoopView,
    action: ActionView,
)
    requires
        steps(before, event, after, action),
    ensures
        before.phase is Waiting && event is Woken ==> action is ScanStale && after.phase is Scanning,
        before.phase is Settling && event is SettleDone ==> action is ScanStale && after.phase
            is Scanning,
        before.phase is Draining && event is DeadlinePassed ==> action is AbortAll
            && after.inflight == before.inflight,
        (before.phase is Aborting && event is AllJoined) || (before.phase is Releasing && event
            is ReleaseDone) ==> (if before.inflight.len() > 0 {
            action matches ActionView::Release(plan) && plan.id == before.inflight.last().id
                && plan.run_no == before.inflight.last().run_no
        } else {
            action is Stop
        }),
        action is Stop ==> before.inflight.len() == 0,
{
}

/// A worker starts with nothing in flight by looking for stale claims; one without kinds
/// stops at once.
pub proof fn a_worker_starts_empty(
    config: WorkerConfig,
    caps: KindMap<Option<usize>>,
    r: (RunLoop, Action),
)
    requires
        call_ensures(RunLoop::start, (config, caps), r),
    ensures
        r.0@.inflight.len() == 0,
        r.0@.config == config@,
        r.0@.caps == caps@,
        caps@.dom().len() == 0 ==> r.1 is Stop && r.0@.phase is Stopped,
        caps@.dom().len() > 0 ==> r.1 is ScanStale && r.0@.phase is Scanning,
{
}

/// Whether no run is in flight twice.
pub open spec fn runs_distinct(inflight: Seq<InflightView>) -> bool {
    forall|i: int, j: int|
        0 <= i < j < inflight.len() ==> !is_run(
            #[trigger] inflight[i],
            (#[trigger] inflight[j]).id,
            inflight[j].run_no,
        )
}

/// A run that finished, or whose task was lost while the loop goes on, frees its slot: it
/// is in flight no more, and every other run still is.
pub proof fn ended_runs_free_their_slot(
    before: LoopView,
    event: Event,
    after: LoopView,
    action: ActionView,
    id: ulid::Ulid,
    run_no: u32,
    i: int,
)
    requires
        steps(before, event, after, action),
        runs_distinct(before.inflight),
        0 <= i < before.inflight.len(),
        is_run(before.inflight[i], id, run_no),
        (before.phase is Waiting || before.phase is Draining || before.phase is Aborting) && (
        event matches Event::Finished { run, .. } && run.id == id && run.run_no == run_no) || (
        before.phase is Waiting || before.phase is Draining) && event == (Event::Lost {
            id,
            run_no,
        }),
    ensures
        after.inflight == before.inflight.remove(i),
        after.inflight.len() == before.inflight.len() - 1,
        !after.inflight.contains(before.inflight[i]),
{
    let k = choose|k: int|
        0 <= k < before.inflight.len() && is_run(before.inflight[k], id, run_no) && (forall|j: int|
            0 <= j < k ==> !is_run(#[trigger] before.inflight[j], id, run_no)) && after.inflight
            == #[trigger] before.inflight.remove(k);
    assert(run_removed(before.inflight, id, run_no, after.inflight));
    assert(k == i) by {
        if k < i {
            assert(!is_run(before.inflight[k], before.inflight[i].id, before.inflight[i].run_no));
        }
    }
    assert forall|j: int| 0 <= j < after.inflight.len() implies #[trigger] after.inflight[j]
        != before.inflight[i] by {
        if j < i {
            assert(after.inflight[j] == before.inflight[j]);
            assert(!is_run(before.inflight[j], before.inflight[i].id, before.inflight[i].run_no));
        } else {
            assert(after.inflight[j] == before.inflight[j + 1]);
            assert(!is_run(
                before.inflight[i],
                before.inflight[j + 1].id,
                before.inflight[j + 1].run_no,
            ));
        }
    }
}

} // verus!
