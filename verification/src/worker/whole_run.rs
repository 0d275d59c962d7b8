//! What holds of a worker's loop over a whole run, from its start to its end.
//!
//! A run of the loop is a sequence of steps, each allowed by [`steps`]. The laws here
//! speak of every moment of such a sequence: how many jobs are in flight, which kinds
//! are claimed, and what becomes of each run that was started.
use crate::lifecycle::names_kind;
use crate::worker::config::{runnable, ConfigView};
use crate::worker::run_loop::{
    caps_respected, caps_stay_respected, every_step_stays_in_bounds, has_room, in_bounds, is_run,
    kind_count, lists_open_kinds, run_removed, started, steps, ActionView, Event, LoopView,
    PhaseView,
};
use crate::worker::settle::{release_plan, run_plan, InflightView};
use vstd::prelude::*;

verus! {

/// One step of the loop: what happened, the state after it, and what to do next.
pub struct LoopStep {
    /// What happened.
    pub event: Event,
    /// The state after it.
    pub after: LoopView,
    /// What the loop asked for.
    pub action: ActionView,
}

/// The state after the first `n` steps.
pub open spec fn state_at(start: LoopView, trace: Seq<LoopStep>, n: int) -> LoopView {
    if n <= 0 {
        start
    } else {
        trace[n - 1].after
    }
}

/// Whether the loop takes a step from a state.
#[verifier::opaque]
pub open spec fn takes(before: LoopView, step: LoopStep) -> bool {
    steps(before, step.event, step.after, step.action)
}

/// Whether a sequence of steps is a run of the loop from `start`.
pub open spec fn is_trace(start: LoopView, trace: Seq<LoopStep>) -> bool {
    forall|i: int|
        0 <= i < trace.len() ==> #[trigger] takes(state_at(start, trace, i), trace[i])
}

/// One step keeps the loop in bounds, its configuration, and its caps.
pub(crate) proof fn lemma_bounded_step(before: LoopView, step: LoopStep)
    requires
        takes(before, step),
        runnable(before.config),
        in_bounds(before),
    ensures
        in_bounds(step.after),
        step.after.config == before.config,
        step.after.caps == before.caps,
{
    reveal(takes);
    every_step_stays_in_bounds(before, step.event, step.after, step.action);
}

/// One step keeps the caps.
pub(crate) proof fn lemma_capped_step(before: LoopView, step: LoopStep)
    requires
        takes(before, step),
        in_bounds(before),
        caps_respected(before),
        answers_asked_kind(before, step.event),
    ensures
        caps_respected(step.after),
{
    reveal(takes);
    caps_stay_respected(before, step.event, step.after, step.action);
}

/// A claim asks for the kinds the loop then waits for.
pub(crate) proof fn lemma_claiming_step(before: LoopView, step: LoopStep, kinds: Seq<Seq<char>>)
    requires
        takes(before, step),
        step.action matches ActionView::Claim { kinds: asked, .. } && asked == kinds,
    ensures
        step.after.phase matches PhaseView::Claiming { kinds: awaited, .. } && awaited == kinds,
{
    reveal(takes);
}

/// A step past the deadline awaits no handler.
proof fn lemma_step_past_deadline(before: LoopView, step: LoopStep)
    requires
        takes(before, step),
        past_deadline(before.phase),
    ensures
        past_deadline(step.after.phase),
        !(step.action is AwaitDrain),
        !(step.action is Wait),
{
    reveal(takes);
}

/// A release attempt leads to the next release, or to the end.
proof fn lemma_releasing_step(before: LoopView, step: LoopStep)
    requires
        takes(before, step),
        before.phase is Releasing,
        step.event is ReleaseDone,
    ensures
        before.inflight.len() > 0 ==> step.after.phase is Releasing && step.after.inflight.len()
            == before.inflight.len() - 1,
        before.inflight.len() == 0 ==> step.after.phase is Stopped && step.action is Stop,
{
    reveal(takes);
}

/// Whether an event hands out a job, if any, of a kind that was asked for.
pub open spec fn answers_asked_kind(before: LoopView, event: Event) -> bool {
    (before.phase is Claiming && event is Claimed) ==> names_kind(
        before.phase->kinds,
        event->job.kind@,
    )
}

/// Whether every claim handed out a job of a kind it was asked for, as a store does.
pub open spec fn claims_answer_asked_kinds(start: LoopView, trace: Seq<LoopStep>) -> bool {
    forall|i: int|
        0 <= i < trace.len() ==> #[trigger] answers_asked_kind(
            state_at(start, trace, i),
            trace[i].event,
        )
}

/// At every moment of a worker's run at most its concurrency is in flight in total and
/// at most its cap of each kind; a kind at its cap is absent from every claim, so its
/// jobs stay pending instead of claimed and idle.
pub proof fn whole_run_respects_limits(
    config: ConfigView,
    caps: Map<Seq<char>, Option<usize>>,
    trace: Seq<LoopStep>,
    n: int,
)
    requires
        runnable(config),
        is_trace(started(config, caps), trace),
        claims_answer_asked_kinds(started(config, caps), trace),
        0 <= n <= trace.len(),
    ensures
        ({
            let state = state_at(started(config, caps), trace, n);
            &&& state.config == config
            &&& state.caps == caps
            &&& in_bounds(state)
            &&& state.inflight.len() <= config.concurrency
            &&& caps_respected(state)
            &&& forall|kind: Seq<char>, cap: usize|
                caps.contains_key(kind) && caps[kind] == Some(cap) ==> #[trigger] at_most(
                    state.inflight,
                    kind,
                    cap,
                )
        }),
        n > 0 ==> (trace[n - 1].action matches ActionView::Claim { kinds, .. } ==> {
            let state = state_at(started(config, caps), trace, n);
            &&& lists_open_kinds(caps, state.inflight, kinds)
            &&& forall|kind: Seq<char>, cap: usize|
                caps.contains_key(kind) && caps[kind] == Some(cap) && #[trigger] at_cap(
                    state.inflight,
                    kind,
                    cap,
                ) ==> !names_kind(kinds, kind)
        }),
    decreases n,
{
    let start = started(config, caps);
    if n == 0 {
        assert forall|kind: Seq<char>| #[trigger] start.caps.contains_key(kind) implies (
        start.caps[kind] matches Some(cap) ==> kind_count(start.inflight, kind) <= cap) by {
            assert(kind_count(start.inflight, kind) == 0);
        }
    } else {
        whole_run_respects_limits(config, caps, trace, n - 1);
        let before = state_at(start, trace, n - 1);
        let step = trace[n - 1];
        lemma_bounded_step(before, step);
        lemma_capped_step(before, step);
        if let ActionView::Claim { kinds, floor } = step.action {
            lemma_claiming_step(before, step, kinds);
            assert forall|kind: Seq<char>, cap: usize|
                caps.contains_key(kind) && caps[kind] == Some(cap) && #[trigger] at_cap(
                    step.after.inflight,
                    kind,
                    cap,
                ) implies !names_kind(kinds, kind) by {
                assert(!has_room(caps, step.after.inflight, kind));
            }
        }
    }
    let state = state_at(start, trace, n);
    assert forall|kind: Seq<char>, cap: usize|
        caps.contains_key(kind) && caps[kind] == Some(cap) implies #[trigger] at_most(
        state.inflight,
        kind,
        cap,
    ) by {
        assert(state.caps.contains_key(kind));
    }
}

/// Whether at most `cap` jobs of a kind are in flight.
pub open spec fn at_most(inflight: Seq<InflightView>, kind: Seq<char>, cap: usize) -> bool {
    kind_count(inflight, kind) <= cap
}

/// Whether a kind has as many jobs in flight as its cap allows.
pub open spec fn at_cap(inflight: Seq<InflightView>, kind: Seq<char>, cap: usize) -> bool {
    kind_count(inflight, kind) >= cap
}

/// How often a run is in flight.
pub open spec fn times_in_flight(inflight: Seq<InflightView>, id: ulid::Ulid, run_no: u32) -> nat
    decreases inflight.len(),
{
    if inflight.len() == 0 {
        0
    } else {
        times_in_flight(inflight.drop_last(), id, run_no) + if is_run(inflight.last(), id, run_no) {
            1nat
        } else {
            0nat
        }
    }
}

pub(crate) proof fn lemma_times_push(inflight: Seq<InflightView>, job: InflightView, id: ulid::Ulid, run_no: u32)
    ensures
        times_in_flight(inflight.push(job), id, run_no) == times_in_flight(inflight, id, run_no) + (
        if is_run(job, id, run_no) {
            1nat
        } else {
            0nat
        }),
{
    assert(inflight.push(job).drop_last() =~= inflight);
}

proof fn lemma_times_remove(inflight: Seq<InflightView>, at: int, id: ulid::Ulid, run_no: u32)
    requires
        0 <= at < inflight.len(),
    ensures
        times_in_flight(inflight, id, run_no) == times_in_flight(
            inflight.remove(at),
            id,
            run_no,
        ) + (if is_run(inflight[at], id, run_no) {
            1nat
        } else {
            0nat
        }),
    decreases inflight.len(),
{
    if at == inflight.len() - 1 {
        assert(inflight.remove(at) =~= inflight.drop_last());
    } else {
        let shorter = inflight.drop_last();
        lemma_times_remove(shorter, at, id, run_no);
        assert(inflight.remove(at).drop_last() =~= shorter.remove(at));
        assert(inflight.remove(at).last() == inflight.last());
    }
}

proof fn lemma_times_positive(inflight: Seq<InflightView>, id: ulid::Ulid, run_no: u32)
    ensures
        times_in_flight(inflight, id, run_no) > 0 <==> exists|i: int|
            0 <= i < inflight.len() && is_run(#[trigger] inflight[i], id, run_no),
    decreases inflight.len(),
{
    if inflight.len() > 0 {
        let shorter = inflight.drop_last();
        lemma_times_positive(shorter, id, run_no);
        if times_in_flight(inflight, id, run_no) > 0 {
            if times_in_flight(shorter, id, run_no) > 0 {
                let i = choose|i: int|
                    0 <= i < shorter.len() && is_run(#[trigger] shorter[i], id, run_no);
                assert(is_run(inflight[i], id, run_no));
            } else {
                assert(is_run(inflight[inflight.len() - 1], id, run_no));
            }
        }
        if exists|i: int| 0 <= i < inflight.len() && is_run(#[trigger] inflight[i], id, run_no) {
            let i = choose|i: int|
                0 <= i < inflight.len() && is_run(#[trigger] inflight[i], id, run_no);
            if i < shorter.len() {
                assert(is_run(shorter[i], id, run_no));
            }
        }
    }
}

/// Dropping a run that is in flight takes it out once, and no other run.
pub(crate) proof fn lemma_times_removed(
    before: Seq<InflightView>,
    gone: ulid::Ulid,
    gone_no: u32,
    after: Seq<InflightView>,
    id: ulid::Ulid,
    run_no: u32,
)
    requires
        run_removed(before, gone, gone_no, after),
    ensures
        times_in_flight(before, id, run_no) == times_in_flight(after, id, run_no) + (if gone == id
            && gone_no == run_no && times_in_flight(before, gone, gone_no) > 0 {
            1nat
        } else {
            0nat
        }),
{
    lemma_times_positive(before, gone, gone_no);
    if exists|i: int| 0 <= i < before.len() && is_run(#[trigger] before[i], gone, gone_no) {
        let i = choose|i: int|
            0 <= i < before.len() && is_run(before[i], gone, gone_no) && (forall|j: int|
                0 <= j < i ==> !is_run(#[trigger] before[j], gone, gone_no)) && after
                == #[trigger] before.remove(i);
        lemma_times_remove(before, i, id, run_no);
    }
}

/// Whether a step starts a run.
pub open spec fn starts_run(step: LoopStep, id: ulid::Ulid, run_no: u32) -> bool {
    step.action matches ActionView::Start { job, .. } && job.id == id && job.run_count == run_no
}

/// Whether a step settles a run.
pub open spec fn settles_run(step: LoopStep, id: ulid::Ulid, run_no: u32) -> bool {
    step.action matches ActionView::Settle(plan) && plan.id == id && plan.run_no == run_no
}

/// Whether a step releases a run.
pub open spec fn releases_run(step: LoopStep, id: ulid::Ulid, run_no: u32) -> bool {
    step.action matches ActionView::Release(plan) && plan.id == id && plan.run_no == run_no
}

/// Whether a step gives up on a run in flight because its task ended without a result
/// before any abort; lease expiry recovers it.
pub open spec fn loses_run(before: LoopView, step: LoopStep, id: ulid::Ulid, run_no: u32) -> bool {
    &&& before.phase is Waiting || before.phase is Draining
    &&& step.event matches Event::Lost { id: lost, run_no: lost_no } && lost == id && lost_no
        == run_no
    &&& times_in_flight(before.inflight, id, run_no) > 0
}

/// Whether a step concludes a run: settles it, releases it, or loses it.
pub open spec fn concludes_run(
    before: LoopView,
    step: LoopStep,
    id: ulid::Ulid,
    run_no: u32,
) -> bool {
    settles_run(step, id, run_no) || releases_run(step, id, run_no) || loses_run(
        before,
        step,
        id,
        run_no,
    )
}

/// How many of the first `n` steps start a run.
pub open spec fn times_started(trace: Seq<LoopStep>, n: int, id: ulid::Ulid, run_no: u32) -> nat
    decreases n,
{
    if n <= 0 {
        0
    } else {
        times_started(trace, n - 1, id, run_no) + if starts_run(trace[n - 1], id, run_no) {
            1nat
        } else {
            0nat
        }
    }
}

/// How many of the first `n` steps conclude a run.
pub open spec fn times_concluded(
    start: LoopView,
    trace: Seq<LoopStep>,
    n: int,
    id: ulid::Ulid,
    run_no: u32,
) -> nat
    decreases n,
{
    if n <= 0 {
        0
    } else {
        times_concluded(start, trace, n - 1, id, run_no) + if concludes_run(
            state_at(start, trace, n - 1),
            trace[n - 1],
            id,
            run_no,
        ) {
            1nat
        } else {
            0nat
        }
    }
}

/// Whether a handler that an event reports as finished, where the loop awaits one, is
/// in flight.
pub open spec fn finishes_in_flight(before: LoopView, event: Event) -> bool {
    (before.phase is Waiting || before.phase is Draining || before.phase is Aborting) ==> (
    event matches Event::Finished { run, .. } ==> times_in_flight(
        before.inflight,
        run.id,
        run.run_no,
    ) > 0)
}

/// Whether an event reports the end of a run's task.
pub open spec fn reports_run(event: Event, id: ulid::Ulid, run_no: u32) -> bool {
    match event {
        Event::Finished { run, .. } => run.id == id && run.run_no == run_no,
        Event::Lost { id: lost, run_no: lost_no } => lost == id && lost_no == run_no,
        _ => false,
    }
}

/// How many of the first `n` events report the end of a run's task.
pub open spec fn times_reported(trace: Seq<LoopStep>, n: int, id: ulid::Ulid, run_no: u32) -> nat
    decreases n,
{
    if n <= 0 {
        0
    } else {
        times_reported(trace, n - 1, id, run_no) + if reports_run(trace[n - 1].event, id, run_no) {
            1nat
        } else {
            0nat
        }
    }
}

/// Whether the event of step `i` reports a task that was started and has not reported
/// yet.
pub open spec fn reports_a_started_task(trace: Seq<LoopStep>, i: int) -> bool {
    trace[i].event matches Event::Finished { run, .. } ==> times_reported(
        trace,
        i,
        run.id,
        run.run_no,
    ) < times_started(trace, i, run.id, run.run_no)
}

/// Whether every task reports its end at most once, as a runtime's tasks do.
pub open spec fn tasks_report_once(trace: Seq<LoopStep>) -> bool {
    forall|i: int| 0 <= i < trace.len() ==> #[trigger] reports_a_started_task(trace, i)
}

/// One step keeps the books: a run is in flight as often as it was started and not
/// yet concluded.
proof fn lemma_step_keeps_books(before: LoopView, step: LoopStep, id: ulid::Ulid, run_no: u32)
    requires
        takes(before, step),
        finishes_in_flight(before, step.event),
    ensures
        times_in_flight(before.inflight, id, run_no) + (if starts_run(step, id, run_no) {
            1nat
        } else {
            0nat
        }) == times_in_flight(step.after.inflight, id, run_no) + (if concludes_run(
            before,
            step,
            id,
            run_no,
        ) {
            1nat
        } else {
            0nat
        }),
{
    reveal(takes);
    match (before.phase, step.event) {
        (PhaseView::Claiming { .. }, Event::Claimed { job, .. }) => {
            let entry = InflightView { id: job.id, kind: job.kind@, run_no: job.run_count };
            lemma_times_push(before.inflight, entry, id, run_no);
        },
        (PhaseView::Waiting, Event::Finished { run, .. }) => {
            lemma_times_removed(
                before.inflight,
                run.id,
                run.run_no,
                step.after.inflight,
                id,
                run_no,
            );
        },
        (PhaseView::Draining, Event::Finished { run, .. }) => {
            lemma_times_removed(
                before.inflight,
                run.id,
                run.run_no,
                step.after.inflight,
                id,
                run_no,
            );
        },
        (PhaseView::Aborting, Event::Finished { run, .. }) => {
            lemma_times_removed(
                before.inflight,
                run.id,
                run.run_no,
                step.after.inflight,
                id,
                run_no,
            );
        },
        (PhaseView::Waiting, Event::Lost { id: lost, run_no: lost_no }) => {
            lemma_times_removed(
                before.inflight,
                lost,
                lost_no,
                step.after.inflight,
                id,
                run_no,
            );
        },
        (PhaseView::Draining, Event::Lost { id: lost, run_no: lost_no }) => {
            lemma_times_removed(
                before.inflight,
                lost,
                lost_no,
                step.after.inflight,
                id,
                run_no,
            );
        },
        (PhaseView::Aborting, Event::AllJoined { .. }) => {},
        (PhaseView::Releasing, Event::ReleaseDone { .. }) => {},
        _ => {
            assert(step.after.inflight == before.inflight);
        },
    }
}

/// Before anything is released, only a task's report concludes its run.
proof fn lemma_step_reports(before: LoopView, step: LoopStep, id: ulid::Ulid, run_no: u32)
    requires
        takes(before, step),
        !releasing(step.after.phase),
    ensures
        !releasing(before.phase),
        concludes_run(before, step, id, run_no) ==> reports_run(step.event, id, run_no),
{
    reveal(takes);
}

/// Whether the loop releases what is left, or has ended.
pub open spec fn releasing(phase: PhaseView) -> bool {
    phase is Releasing || phase is Stopped
}

proof fn lemma_books(
    config: ConfigView,
    caps: Map<Seq<char>, Option<usize>>,
    trace: Seq<LoopStep>,
    n: int,
    id: ulid::Ulid,
    run_no: u32,
)
    requires
        is_trace(started(config, caps), trace),
        tasks_report_once(trace),
        0 <= n <= trace.len(),
    ensures
        times_started(trace, n, id, run_no) == times_in_flight(
            state_at(started(config, caps), trace, n).inflight,
            id,
            run_no,
        ) + times_concluded(started(config, caps), trace, n, id, run_no),
        !releasing(state_at(started(config, caps), trace, n).phase) ==> times_concluded(
            started(config, caps),
            trace,
            n,
            id,
            run_no,
        ) <= times_reported(trace, n, id, run_no),
    decreases n,
{
    let start = started(config, caps);
    if n > 0 {
        let before = state_at(start, trace, n - 1);
        let step = trace[n - 1];
        assert(takes(before, step));
        lemma_books(config, caps, trace, n - 1, id, run_no);
        if let Event::Finished { run, .. } = step.event {
            lemma_books(config, caps, trace, n - 1, run.id, run.run_no);
            assert(reports_a_started_task(trace, n - 1));
        }
        assert(finishes_in_flight(before, step.event));
        lemma_step_keeps_books(before, step, id, run_no);
        if !releasing(step.after.phase) {
            lemma_step_reports(before, step, id, run_no);
        }
    }
}

/// Over a worker's whole run, a run is in flight exactly as often as it was started
/// and not yet settled, released, or lost. When the loop has stopped, every run that
/// was started has been concluded exactly as often as it was started.
pub proof fn every_started_run_is_concluded(
    config: ConfigView,
    caps: Map<Seq<char>, Option<usize>>,
    trace: Seq<LoopStep>,
    n: int,
    id: ulid::Ulid,
    run_no: u32,
)
    requires
        runnable(config),
        is_trace(started(config, caps), trace),
        tasks_report_once(trace),
        0 <= n <= trace.len(),
    ensures
        times_started(trace, n, id, run_no) == times_in_flight(
            state_at(started(config, caps), trace, n).inflight,
            id,
            run_no,
        ) + times_concluded(started(config, caps), trace, n, id, run_no),
        state_at(started(config, caps), trace, n).phase is Stopped ==> times_started(
            trace,
            n,
            id,
            run_no,
        ) == times_concluded(started(config, caps), trace, n, id, run_no),
{
    let start = started(config, caps);
    lemma_books(config, caps, trace, n, id, run_no);
    assert(in_bounds(start));
    lemma_trace_in_bounds(start, trace, n);
}

proof fn lemma_trace_in_bounds(start: LoopView, trace: Seq<LoopStep>, n: int)
    requires
        runnable(start.config),
        in_bounds(start),
        is_trace(start, trace),
        0 <= n <= trace.len(),
    ensures
        in_bounds(state_at(start, trace, n)),
        state_at(start, trace, n).config == start.config,
    decreases n,
{
    if n > 0 {
        lemma_trace_in_bounds(start, trace, n - 1);
        lemma_bounded_step(state_at(start, trace, n - 1), trace[n - 1]);
    }
}

/// A settlement during a run of the loop is that of a handler that finished, with the
/// plan of its own outcome; a release is that of a job still in flight, eligible again
/// at once and journaled as released.
pub open spec fn plans_truly(before: LoopView, step: LoopStep) -> bool {
    &&& step.action matches ActionView::Settle(plan) ==> (step.event matches Event::Finished {
        run,
        jittered_nanos,
        now,
    } && plan == run_plan(before.config, run, now, jittered_nanos))
    &&& step.action matches ActionView::Release(plan) ==> before.inflight.len() > 0 && (
    (step.event matches Event::AllJoined { now } && plan == release_plan(
        before.inflight.last(),
        now,
    )) || (step.event matches Event::ReleaseDone { now } && plan == release_plan(
        before.inflight.last(),
        now,
    )))
}

/// Every settlement and release of a run of the loop is planned truly.
pub proof fn every_plan_is_true(start: LoopView, trace: Seq<LoopStep>, i: int)
    requires
        is_trace(start, trace),
        0 <= i < trace.len(),
    ensures
        plans_truly(state_at(start, trace, i), trace[i]),
{
    assert(takes(state_at(start, trace, i), trace[i]));
    reveal(takes);
}

/// Whether step `i` is no probe, or one that sees the shutdown signal.
pub open spec fn heeds_signal(trace: Seq<LoopStep>, i: int) -> bool {
    trace[i].event matches Event::ShutdownProbed { signalled } ==> signalled
}

/// Whether a shutdown is signalled from step `from` on: every later probe sees it.
pub open spec fn signalled_from(trace: Seq<LoopStep>, from: int) -> bool {
    forall|i: int| from <= i < trace.len() ==> #[trigger] heeds_signal(trace, i)
}

/// A signalled step makes no new claim: outside a claim under way it asks for none and
/// starts nothing.
proof fn lemma_signalled_step(before: LoopView, step: LoopStep)
    requires
        takes(before, step),
        step.event matches Event::ShutdownProbed { signalled } ==> signalled,
    ensures
        !(before.phase is Claiming) ==> !(step.action is Claim) && !(step.action is Start) && !(
        step.after.phase is Claiming),
        step.action is Start ==> !(step.after.phase is Claiming),
{
    reveal(takes);
}

/// How many of the steps from `from` to `to` start a job.
pub open spec fn starts_between(trace: Seq<LoopStep>, from: int, to: int) -> nat
    decreases to - from,
{
    if to <= from {
        0
    } else {
        starts_between(trace, from, to - 1) + if trace[to - 1].action is Start {
            1nat
        } else {
            0nat
        }
    }
}

proof fn lemma_signalled_starts(start: LoopView, trace: Seq<LoopStep>, from: int, to: int)
    requires
        is_trace(start, trace),
        signalled_from(trace, from),
        0 <= from <= to <= trace.len(),
    ensures
        starts_between(trace, from, to) + (if state_at(start, trace, to).phase is Claiming {
            1nat
        } else {
            0nat
        }) <= (if state_at(start, trace, from).phase is Claiming {
            1nat
        } else {
            0nat
        }),
    decreases to - from,
{
    if from < to {
        lemma_signalled_starts(start, trace, from, to - 1);
        assert(takes(state_at(start, trace, to - 1), trace[to - 1]));
        assert(heeds_signal(trace, to - 1));
        lemma_signalled_step(state_at(start, trace, to - 1), trace[to - 1]);
    }
}

proof fn lemma_started_between(
    trace: Seq<LoopStep>,
    from: int,
    to: int,
    id: ulid::Ulid,
    run_no: u32,
)
    requires
        0 <= from <= to <= trace.len(),
    ensures
        times_started(trace, from, id, run_no) <= times_started(trace, to, id, run_no)
            <= times_started(trace, from, id, run_no) + starts_between(trace, from, to),
    decreases to - from,
{
    if from < to {
        lemma_started_between(trace, from, to - 1, id, run_no);
    }
}

/// Whatever the loop is doing when a shutdown is signalled at step `from`, by the time
/// it has stopped at step `to` each run in flight at the signal has been concluded
/// exactly as often as it was in flight, one in flight exactly once: settled by its own
/// outcome when its handler finished, lost when its task ended without a result before
/// the abort, released otherwise. At most the claim under way at the signal still
/// starts a job, which is concluded likewise; without one nothing more is started.
pub proof fn shutdown_concludes_each_run_once(
    config: ConfigView,
    caps: Map<Seq<char>, Option<usize>>,
    trace: Seq<LoopStep>,
    from: int,
    to: int,
    id: ulid::Ulid,
    run_no: u32,
)
    requires
        runnable(config),
        is_trace(started(config, caps), trace),
        tasks_report_once(trace),
        signalled_from(trace, from),
        0 <= from <= to <= trace.len(),
        state_at(started(config, caps), trace, to).phase is Stopped,
    ensures
        ({
            let start = started(config, caps);
            let concluded = times_concluded(start, trace, to, id, run_no) - times_concluded(
                start,
                trace,
                from,
                id,
                run_no,
            );
            let begun = times_started(trace, to, id, run_no) - times_started(
                trace,
                from,
                id,
                run_no,
            );
            let at_signal = state_at(start, trace, from);
            &&& concluded == times_in_flight(at_signal.inflight, id, run_no) + begun
            &&& 0 <= begun <= starts_between(trace, from, to) <= 1
            &&& !(at_signal.phase is Claiming) ==> starts_between(trace, from, to) == 0
                && concluded == times_in_flight(at_signal.inflight, id, run_no)
        }),
{
    let start = started(config, caps);
    every_started_run_is_concluded(config, caps, trace, from, id, run_no);
    every_started_run_is_concluded(config, caps, trace, to, id, run_no);
    lemma_signalled_starts(start, trace, from, to);
    lemma_started_between(trace, from, to, id, run_no);
}

/// Whether the shutdown deadline has passed.
pub open spec fn past_deadline(phase: PhaseView) -> bool {
    phase is Aborting || phase is AbortSettling || phase is Releasing || phase is Stopped
}

/// Once the shutdown deadline has passed, the loop never again waits for a handler to
/// wind down: it only joins aborted tasks, settles, releases, and stops.
pub proof fn nothing_is_awaited_past_the_deadline(start: LoopView, trace: Seq<LoopStep>, n: int)
    requires
        past_deadline(start.phase),
        is_trace(start, trace),
        0 <= n <= trace.len(),
    ensures
        past_deadline(state_at(start, trace, n).phase),
        n > 0 ==> !(trace[n - 1].action is AwaitDrain) && !(trace[n - 1].action is Wait),
    decreases n,
{
    if n > 0 {
        nothing_is_awaited_past_the_deadline(start, trace, n - 1);
        lemma_step_past_deadline(state_at(start, trace, n - 1), trace[n - 1]);
    }
}

/// Releasing ends: with one attempt after another, the loop has released every job in
/// flight and stopped after one step per job and one more.
pub proof fn releasing_ends(start: LoopView, trace: Seq<LoopStep>, n: int)
    requires
        start.phase is Releasing,
        is_trace(start, trace),
        0 <= n <= trace.len(),
        trace.len() == start.inflight.len() + 1,
        forall|i: int| 0 <= i < trace.len() ==> (#[trigger] trace[i]).event is ReleaseDone,
    ensures
        n <= start.inflight.len() ==> state_at(start, trace, n).phase is Releasing && state_at(
            start,
            trace,
            n,
        ).inflight.len() == start.inflight.len() - n,
        n == trace.len() ==> state_at(start, trace, n).phase is Stopped && trace[n - 1].action
            is Stop,
    decreases n,
{
    if n > 0 {
        releasing_ends(start, trace, n - 1);
        lemma_releasing_step(state_at(start, trace, n - 1), trace[n - 1]);
    }
}

} // verus!
