//! A worker's loop together with the store it runs on.
//!
//! The loop's claims are answered by the store and its settlements and releases are
//! applied to it, while producers and other workers operate on the same store in
//! between. The laws here speak of every moment of such a history: the limits a worker
//! was built with hold, and no claim outlives the worker that made it.
use crate::guarantees::{
    claim_keeps_valid, claimed_kind_was_asked_for, every_operation_keeps_valid, performed,
    possible, settle_keeps_valid, Operation,
};
use crate::instants::{Duration, Timestamp};
use crate::lifecycle::{
    claim_step, claims_next, names_kind, settle_applies, settle_step, QueueState,
};
use crate::worker::config::{at_least_one, runnable, ConfigView};
use crate::worker::run_loop::{
    caps_respected, has_room, in_bounds, kind_count, lists_open_kinds, started, ActionView, Event,
    LoopView, PhaseView,
};
use crate::worker::settle::{InflightView, SettlePlanView};
use crate::worker::whole_run::{
    answers_asked_kind, lemma_bounded_step, lemma_capped_step, lemma_claiming_step,
    lemma_times_push, lemma_times_removed, loses_run, takes, times_in_flight, LoopStep,
};
use vstd::prelude::*;

verus! {

/// A worker's loop and the store it runs on.
pub struct SystemView {
    /// The loop.
    pub worker: LoopView,
    /// The store.
    pub queue: QueueState,
}

/// One thing that happens.
pub enum SystemStep {
    /// The worker's loop takes a step.
    Worker {
        /// The step.
        step: LoopStep,
        /// When the store answered, where the step takes a claimed job.
        now: Timestamp,
        /// The lease it answered with.
        lease: Duration,
    },
    /// Someone else, or a recovery, operates on the store.
    Other {
        /// The operation.
        operation: Operation,
    },
}

/// Whether a step of the loop takes a claimed job.
pub open spec fn takes_claim(before: LoopView, step: LoopStep) -> bool {
    before.phase is Claiming && step.event is Claimed
}

/// Whether the store answers a claim of the worker `me` as it does: with the job that
/// is next among the kinds asked for, at the floor, claimed by `me`.
pub open spec fn answered_by_store(
    before: SystemView,
    step: LoopStep,
    now: Timestamp,
    lease: Duration,
    me: Seq<char>,
) -> bool {
    takes_claim(before.worker, step) ==> {
        let job = step.event->job;
        &&& claims_next(
            before.queue,
            before.worker.phase->kinds,
            before.worker.phase->floor,
            now,
            job.id,
        )
        &&& before.queue.jobs[job.id].run_count < i32::MAX
        &&& job@ == claim_step(before.queue, job.id, now, lease, me).jobs[job.id]
    }
}

/// The store once a plan of the worker `me` is applied.
pub open spec fn planned(queue: QueueState, plan: SettlePlanView, me: Seq<char>) -> QueueState {
    settle_step(queue, plan.id, me, plan.run_no, plan.settlement, plan.journal)
}

/// The store after a step of the loop: a claim it took and a settlement or release it
/// asked for are in it.
pub open spec fn queue_after(
    before: SystemView,
    step: LoopStep,
    now: Timestamp,
    lease: Duration,
    me: Seq<char>,
) -> QueueState {
    if takes_claim(before.worker, step) {
        claim_step(before.queue, step.event->job.id, now, lease, me)
    } else {
        match step.action {
            ActionView::Settle(plan) => planned(before.queue, plan, me),
            ActionView::Release(plan) => planned(before.queue, plan, me),
            _ => before.queue,
        }
    }
}

/// Whether a step can happen in a system whose worker claims as `me`, a name nobody else
/// claims under.
pub open spec fn can_happen(before: SystemView, step: SystemStep, me: Seq<char>) -> bool {
    match step {
        SystemStep::Worker { step, now, lease } => {
            &&& takes(before.worker, step)
            &&& answered_by_store(before, step, now, lease, me)
            &&& before.queue.next_entry < i64::MAX
        },
        SystemStep::Other { operation } => {
            &&& possible(before.queue, operation)
            &&& operation matches Operation::Claim { by, .. } ==> by != me
        },
    }
}

/// The system after a step.
pub open spec fn moved(before: SystemView, step: SystemStep, me: Seq<char>) -> SystemView {
    match step {
        SystemStep::Worker { step, now, lease } => SystemView {
            worker: step.after,
            queue: queue_after(before, step, now, lease, me),
        },
        SystemStep::Other { operation } => SystemView {
            queue: performed(before.queue, operation),
            ..before
        },
    }
}

/// The system after the first `n` steps.
pub open spec fn system_at(
    start: SystemView,
    trace: Seq<SystemStep>,
    me: Seq<char>,
    n: int,
) -> SystemView
    decreases n,
{
    if n <= 0 {
        start
    } else {
        moved(system_at(start, trace, me, n - 1), trace[n - 1], me)
    }
}

/// Whether a sequence of steps is a history of the system.
pub open spec fn is_history(start: SystemView, trace: Seq<SystemStep>, me: Seq<char>) -> bool {
    forall|i: int|
        0 <= i < trace.len() ==> #[trigger] can_happen(
            system_at(start, trace, me, i),
            trace[i],
            me,
        )
}

/// A worker as it starts, on a store in any state.
pub open spec fn system_start(
    config: ConfigView,
    caps: Map<Seq<char>, Option<usize>>,
    queue: QueueState,
) -> SystemView {
    SystemView { worker: started(config, caps), queue }
}

/// A worker within its limits, on a valid store.
spec fn sound(
    system: SystemView,
    config: ConfigView,
    caps: Map<Seq<char>, Option<usize>>,
) -> bool {
    &&& system.queue.valid()
    &&& system.worker.config == config
    &&& system.worker.caps == caps
    &&& in_bounds(system.worker)
    &&& caps_respected(system.worker)
}

proof fn lemma_step_stays_sound(
    before: SystemView,
    step: SystemStep,
    me: Seq<char>,
    config: ConfigView,
    caps: Map<Seq<char>, Option<usize>>,
)
    requires
        runnable(config),
        sound(before, config, caps),
        can_happen(before, step, me),
    ensures
        sound(moved(before, step, me), config, caps),
{
    match step {
        SystemStep::Worker { step, now, lease } => {
            if takes_claim(before.worker, step) {
                let kinds = before.worker.phase->kinds;
                let floor = before.worker.phase->floor;
                let id = step.event->job.id;
                claim_keeps_valid(before.queue, kinds, floor, now, id, lease, me);
                claimed_kind_was_asked_for(before.queue, kinds, floor, now, id, lease, me);
                assert(step.event->job@.kind == step.event->job.kind@);
            } else {
                match step.action {
                    ActionView::Settle(plan) => settle_keeps_valid(
                        before.queue,
                        plan.id,
                        me,
                        plan.run_no,
                        plan.settlement,
                        plan.journal,
                    ),
                    ActionView::Release(plan) => settle_keeps_valid(
                        before.queue,
                        plan.id,
                        me,
                        plan.run_no,
                        plan.settlement,
                        plan.journal,
                    ),
                    _ => {},
                }
            }
            assert(answers_asked_kind(before.worker, step.event));
            lemma_bounded_step(before.worker, step);
            lemma_capped_step(before.worker, step);
        },
        SystemStep::Other { operation } => {
            every_operation_keeps_valid(before.queue, operation);
        },
    }
}

proof fn lemma_history_stays_sound(
    config: ConfigView,
    caps: Map<Seq<char>, Option<usize>>,
    queue: QueueState,
    trace: Seq<SystemStep>,
    me: Seq<char>,
    n: int,
)
    requires
        runnable(config),
        queue.valid(),
        is_history(system_start(config, caps, queue), trace, me),
        0 <= n <= trace.len(),
    ensures
        sound(system_at(system_start(config, caps, queue), trace, me, n), config, caps),
    decreases n,
{
    let start = system_start(config, caps, queue);
    if n > 0 {
        lemma_history_stays_sound(config, caps, queue, trace, me, n - 1);
        assert(can_happen(system_at(start, trace, me, n - 1), trace[n - 1], me));
        lemma_step_stays_sound(
            system_at(start, trace, me, n - 1),
            trace[n - 1],
            me,
            config,
            caps,
        );
    } else {
        assert forall|kind: Seq<char>| #[trigger] start.worker.caps.contains_key(kind) implies (
        start.worker.caps[kind] matches Some(cap) ==> kind_count(start.worker.inflight, kind)
            <= cap) by {
            assert(kind_count(start.worker.inflight, kind) == 0);
        }
    }
}

/// A worker built with `concurrency(n)` and `register_capped(kind, .., m)`, running on a
/// store that others use too, has at every moment at most `max(n, 1)` jobs in flight,
/// and at most `max(m, 1)` of the kind. While the kind is at its cap it is absent from
/// every claim, so its jobs stay pending instead of claimed and idle.
pub proof fn built_limits_hold(
    config: ConfigView,
    caps: Map<Seq<char>, Option<usize>>,
    queue: QueueState,
    trace: Seq<SystemStep>,
    me: Seq<char>,
    moment: int,
    n: usize,
    kind: Seq<char>,
    m: usize,
)
    requires
        runnable(config),
        config.concurrency == at_least_one(n),
        caps.contains_key(kind),
        caps[kind] == Some(at_least_one(m)),
        queue.valid(),
        is_history(system_start(config, caps, queue), trace, me),
        0 <= moment <= trace.len(),
    ensures
        ({
            let system = system_at(system_start(config, caps, queue), trace, me, moment);
            &&& system.worker.inflight.len() <= at_least_one(n)
            &&& kind_count(system.worker.inflight, kind) <= at_least_one(m)
            &&& moment > 0 && kind_count(system.worker.inflight, kind) == at_least_one(m) ==> (
            trace[moment - 1] matches SystemStep::Worker { step, .. } ==> (
            step.action matches ActionView::Claim { kinds, .. } ==> !names_kind(kinds, kind)))
        }),
{
    let start = system_start(config, caps, queue);
    lemma_history_stays_sound(config, caps, queue, trace, me, moment);
    let system = system_at(start, trace, me, moment);
    assert(system.worker.caps.contains_key(kind));
    if moment > 0 {
        let before = system_at(start, trace, me, moment - 1);
        assert(can_happen(before, trace[moment - 1], me));
        if let SystemStep::Worker { step, .. } = trace[moment - 1] {
            if let ActionView::Claim { kinds, floor } = step.action {
                lemma_claiming_step(before.worker, step, kinds);
                assert(lists_open_kinds(caps, system.worker.inflight, kinds));
                if kind_count(system.worker.inflight, kind) == at_least_one(m) {
                    assert(!has_room(caps, system.worker.inflight, kind));
                }
            }
        }
    }
}

/// Whether a stored job is claimed by `me`.
pub open spec fn claimed_by_me(queue: QueueState, id: ulid::Ulid, me: Seq<char>) -> bool {
    queue.jobs.contains_key(id) && queue.jobs[id].status is Claimed && queue.jobs[id].claimed_by
        == Some(me)
}

/// Whether every job claimed by `me` is in flight at its claim epoch.
pub open spec fn claims_are_in_flight(system: SystemView, me: Seq<char>) -> bool {
    forall|id: ulid::Ulid| #[trigger]
        claimed_by_me(system.queue, id, me) ==> times_in_flight(
            system.worker.inflight,
            id,
            system.queue.jobs[id].run_count,
        ) > 0
}

/// Whether a step does not lose a run in flight.
pub open spec fn loses_nothing(before: SystemView, step: SystemStep) -> bool {
    step matches SystemStep::Worker { step, .. } ==> (step.event matches Event::Lost {
        id,
        run_no,
    } ==> !loses_run(before.worker, step, id, run_no))
}

/// Whether no run's task ends without a result before an abort.
pub open spec fn nothing_is_lost(
    start: SystemView,
    trace: Seq<SystemStep>,
    me: Seq<char>,
) -> bool {
    forall|i: int|
        0 <= i < trace.len() ==> #[trigger] loses_nothing(
            system_at(start, trace, me, i),
            trace[i],
        )
}

/// A plan applied for a run that leaves the in-flight set leaves no claim behind.
proof fn lemma_plan_leaves_no_claim(
    before: SystemView,
    plan: SettlePlanView,
    inflight: Seq<InflightView>,
    me: Seq<char>,
)
    requires
        before.queue.valid(),
        claims_are_in_flight(before, me),
        forall|id: ulid::Ulid, run_no: u32|
            !(id == plan.id && run_no == plan.run_no) ==> #[trigger] times_in_flight(
                inflight,
                id,
                run_no,
            ) == times_in_flight(before.worker.inflight, id, run_no),
    ensures
        forall|id: ulid::Ulid| #[trigger]
            claimed_by_me(planned(before.queue, plan, me), id, me) ==> times_in_flight(
                inflight,
                id,
                planned(before.queue, plan, me).jobs[id].run_count,
            ) > 0,
{
    let after = planned(before.queue, plan, me);
    assert forall|id: ulid::Ulid| #[trigger] claimed_by_me(after, id, me) implies times_in_flight(
        inflight,
        id,
        after.jobs[id].run_count,
    ) > 0 by {
        assert(before.queue.jobs.contains_key(id));
        assert(after.jobs[id] == before.queue.jobs[id]);
        assert(claimed_by_me(before.queue, id, me));
        if id == plan.id && after.jobs[id].run_count == plan.run_no {
            assert(settle_applies(before.queue, plan.id, me, plan.run_no));
        }
    }
}

proof fn lemma_worker_step_keeps_claims(
    before: SystemView,
    step: LoopStep,
    now: Timestamp,
    lease: Duration,
    me: Seq<char>,
)
    requires
        before.queue.valid(),
        claims_are_in_flight(before, me),
        can_happen(before, SystemStep::Worker { step, now, lease }, me),
        loses_nothing(before, SystemStep::Worker { step, now, lease }),
    ensures
        claims_are_in_flight(moved(before, SystemStep::Worker { step, now, lease }, me), me),
{
    reveal(takes);
    let held = before.worker.inflight;
    match (before.worker.phase, step.event) {
        (PhaseView::Claiming { .. }, Event::Claimed { job, .. }) => {
            let entry = InflightView { id: job.id, kind: job.kind@, run_no: job.run_count };
            let queue = claim_step(before.queue, job.id, now, lease, me);
            assert(job@.run_count == job.run_count);
            assert forall|id: ulid::Ulid| #[trigger] claimed_by_me(
                queue,
                id,
                me,
            ) implies times_in_flight(step.after.inflight, id, queue.jobs[id].run_count) > 0 by {
                lemma_times_push(held, entry, id, queue.jobs[id].run_count);
                if id != job.id {
                    assert(claimed_by_me(before.queue, id, me));
                }
            }
        },
        (_, Event::Finished { run, .. }) => {
            if let ActionView::Settle(plan) = step.action {
                assert forall|id: ulid::Ulid, run_no: u32|
                    !(id == plan.id && run_no == plan.run_no) implies #[trigger] times_in_flight(
                    step.after.inflight,
                    id,
                    run_no,
                ) == times_in_flight(held, id, run_no) by {
                    lemma_times_removed(
                        held,
                        run.id,
                        run.run_no,
                        step.after.inflight,
                        id,
                        run_no,
                    );
                }
                lemma_plan_leaves_no_claim(before, plan, step.after.inflight, me);
            }
        },
        (_, Event::Lost { id: lost, run_no: lost_no }) => {
            if before.worker.phase is Waiting || before.worker.phase is Draining {
                assert forall|id: ulid::Ulid| #[trigger] claimed_by_me(
                    before.queue,
                    id,
                    me,
                ) implies times_in_flight(
                    step.after.inflight,
                    id,
                    before.queue.jobs[id].run_count,
                ) > 0 by {
                    lemma_times_removed(
                        held,
                        lost,
                        lost_no,
                        step.after.inflight,
                        id,
                        before.queue.jobs[id].run_count,
                    );
                }
            }
        },
        _ => {
            if let ActionView::Release(plan) = step.action {
                assert(step.after.inflight == held.drop_last());
                lemma_plan_leaves_no_claim(before, plan, step.after.inflight, me);
            }
        },
    }
}

proof fn lemma_other_step_keeps_claims(before: SystemView, operation: Operation, me: Seq<char>)
    requires
        before.queue.valid(),
        claims_are_in_flight(before, me),
        can_happen(before, SystemStep::Other { operation }, me),
    ensures
        claims_are_in_flight(moved(before, SystemStep::Other { operation }, me), me),
{
    let after = performed(before.queue, operation);
    assert forall|id: ulid::Ulid| #[trigger] claimed_by_me(after, id, me) implies claimed_by_me(
        before.queue,
        id,
        me,
    ) && after.jobs[id].run_count == before.queue.jobs[id].run_count by {}
}

/// No claim outlives the worker: as long as no task is lost, every job claimed by the
/// worker is in flight at its claim epoch, whatever others do to the store, and when
/// the worker has stopped no job is left claimed by it.
pub proof fn no_claim_outlives_the_worker(
    config: ConfigView,
    caps: Map<Seq<char>, Option<usize>>,
    queue: QueueState,
    trace: Seq<SystemStep>,
    me: Seq<char>,
    n: int,
)
    requires
        runnable(config),
        queue.valid(),
        forall|id: ulid::Ulid| !#[trigger] claimed_by_me(queue, id, me),
        is_history(system_start(config, caps, queue), trace, me),
        nothing_is_lost(system_start(config, caps, queue), trace, me),
        0 <= n <= trace.len(),
    ensures
        ({
            let system = system_at(system_start(config, caps, queue), trace, me, n);
            &&& claims_are_in_flight(system, me)
            &&& system.worker.phase is Stopped ==> forall|id: ulid::Ulid|
                !#[trigger] claimed_by_me(system.queue, id, me)
        }),
    decreases n,
{
    let start = system_start(config, caps, queue);
    lemma_history_stays_sound(config, caps, queue, trace, me, n);
    if n > 0 {
        no_claim_outlives_the_worker(config, caps, queue, trace, me, n - 1);
        lemma_history_stays_sound(config, caps, queue, trace, me, n - 1);
        let before = system_at(start, trace, me, n - 1);
        assert(can_happen(before, trace[n - 1], me));
        assert(loses_nothing(before, trace[n - 1]));
        match trace[n - 1] {
            SystemStep::Worker { step, now, lease } => lemma_worker_step_keeps_claims(
                before,
                step,
                now,
                lease,
                me,
            ),
            SystemStep::Other { operation } => lemma_other_step_keeps_claims(
                before,
                operation,
                me,
            ),
        }
    }
}

} // verus!
