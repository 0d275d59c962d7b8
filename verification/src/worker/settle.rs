//! Settlement: what a finished run, a stale claim, and an aborted run become.
use crate::backoff::{
    base_delay_nanos, delay_never_exceeds_cap, first_two_attempts_are_immediate, retry_delay,
    retry_delay_nanos, Backoff,
};
use crate::error::{debug_form, error_text, Error, ErrorView};
use crate::guarantees::{
    all_accounted, recover_keeps_journal_complete, settle_keeps_journal_complete,
    settlement_outcome,
};
use crate::instants::{
    add_duration, calendar_instant, instant_after, instant_after_nanos, lemma_lies_after,
    lies_after, saturating_sum, Duration, Timestamp,
};
use crate::lifecycle::{recover_applies, recover_step, settle_applies, settle_step, QueueState};
use crate::outcome::{Outcome, TaskError};
use crate::store::{
    copy_text, AppendView, JobRecord, JobView, JournalAppend, JournalOutcome, Settlement,
};
use crate::text::{joined, optional_text};
use crate::worker::config::{clamp_lease, clamped_lease, runnable, ConfigView, WorkerConfig};
use crate::worker::registry::RunReport;
use vstd::prelude::*;

verus! {

/// The result of one finished handler task, carrying what settlement needs.
pub struct FinishedRun {
    /// The job that ran.
    pub id: ulid::Ulid,
    /// Its kind.
    pub kind: String,
    /// The claim epoch of the run.
    pub run_no: u32,
    /// The failures counted before this run.
    pub failure_count: i32,
    /// What the run reported, or why it could not be dispatched.
    pub report: Result<RunReport, Error>,
}

/// One failure more, held below the top of `i32`.
pub open spec fn one_more_failure(failures: i32) -> i32 {
    if failures < i32::MAX {
        (failures + 1) as i32
    } else {
        i32::MAX
    }
}

/// The attempt number of a failure count.
pub open spec fn attempt_number(failures: i32) -> u32 {
    if failures < 0 {
        0
    } else {
        failures as u32
    }
}

/// The failure count after one more failure.
pub fn next_failures(failures: i32) -> (r: i32)
    ensures
        r == one_more_failure(failures),
{
    if failures < i32::MAX {
        failures + 1
    } else {
        i32::MAX
    }
}

/// The attempt number a failure count stands for.
pub fn attempt_for(failures: i32) -> (r: u32)
    ensures
        r == attempt_number(failures),
{
    if failures < 0 {
        0
    } else {
        failures as u32
    }
}

/// Whether a failure count has reached the backstop.
pub open spec fn backstopped(backstop: Option<u32>, failures: i32) -> bool {
    backstop matches Some(max) && attempt_number(failures) >= max
}

/// The backoff a report's retry follows: the task's own, or the worker default.
pub open spec fn effective_backoff(config: ConfigView, report: RunReport) -> Backoff {
    match report.backoff {
        Some(backoff) => backoff,
        None => config.backoff,
    }
}

/// The backoff a report's retry follows: the task's own, or the worker default.
pub fn backoff_for(config: &WorkerConfig, report: &RunReport) -> (r: Backoff)
    ensures
        r == effective_backoff(config@, *report),
{
    match report.backoff {
        Some(backoff) => backoff,
        None => config.backoff(),
    }
}

/// The settlement of a failed run, given the jittered delay in nanoseconds.
pub open spec fn failure_settlement(
    config: ConfigView,
    report: RunReport,
    now: Timestamp,
    failures: i32,
    jittered_nanos: u64,
) -> Settlement {
    if backstopped(config.backstop, failures) {
        Settlement::Dead { finished_at: now, failure_count: failures }
    } else {
        Settlement::Retry {
            visible_at: instant_after_nanos(
                now,
                retry_delay_nanos(
                    effective_backoff(config, report),
                    attempt_number(failures),
                    jittered_nanos,
                ),
            ),
            failure_count: failures,
            carry: report.carry,
        }
    }
}

/// The settlement a report leads to.
pub open spec fn report_settlement(
    config: ConfigView,
    report: RunReport,
    now: Timestamp,
    failures: i32,
    jittered_nanos: u64,
) -> Settlement {
    match report.result {
        Ok(Outcome::Completed { .. }) => Settlement::Complete { finished_at: now },
        Ok(Outcome::Pause { resume_in, .. }) => Settlement::Pause {
            visible_at: instant_after(now, resume_in),
            carry: report.carry,
        },
        Err(error) => if error.gives_up() {
            Settlement::Dead { finished_at: now, failure_count: failures }
        } else {
            failure_settlement(config, report, now, failures, jittered_nanos)
        },
    }
}

/// Route a run's outcome (or its failure) to a settlement.
///
/// A completion is terminal; a pause re-pends with the carry persisted and is not a
/// failure; a permanent error goes straight to dead. A retryable error is
/// rescheduled with the Fibonacci backoff and deterministic jitter, unless it has
/// reached the worker's failure backstop, which forces it to dead.
/// `jittered_nanos` is the jittered delay of the attempt.
pub fn settlement_for(
    config: &WorkerConfig,
    report: &RunReport,
    now: Timestamp,
    failures: i32,
    jittered_nanos: u64,
) -> (r: Settlement)
    ensures
        r == report_settlement(config@, *report, now, failures, jittered_nanos),
{
    match &report.result {
        Ok(Outcome::Completed { .. }) => Settlement::Complete { finished_at: now },
        Ok(Outcome::Pause { resume_in, .. }) => Settlement::Pause {
            visible_at: add_duration(now, *resume_in),
            carry: report.carry.clone(),
        },
        Err(error) => {
            if error.is_permanent() {
                Settlement::Dead { finished_at: now, failure_count: failures }
            } else {
                retry_or_backstop(config, report, now, failures, jittered_nanos)
            }
        },
    }
}

/// Schedule a retryable failure with backoff, or force it to dead once it reaches
/// the failure backstop.
pub fn retry_or_backstop(
    config: &WorkerConfig,
    report: &RunReport,
    now: Timestamp,
    failures: i32,
    jittered_nanos: u64,
) -> (r: Settlement)
    ensures
        r == failure_settlement(config@, *report, now, failures, jittered_nanos),
{
    let attempt: u32 = attempt_for(failures);
    match config.backstop() {
        Some(max) => {
            if attempt >= max {
                return Settlement::Dead { finished_at: now, failure_count: failures };
            }
        },
        None => {},
    }
    let backoff = backoff_for(config, report);
    let delay = retry_delay(&backoff, attempt, jittered_nanos);
    Settlement::Retry {
        visible_at: add_duration(now, delay),
        failure_count: failures,
        carry: report.carry.clone(),
    }
}

/// The journal outcome that corresponds to a settlement transition.
pub fn journal_outcome_for(settlement: &Settlement) -> (r: JournalOutcome)
    ensures
        r == settlement_outcome(*settlement),
{
    match settlement {
        Settlement::Complete { .. } => JournalOutcome::Completed,
        Settlement::Pause { .. } => JournalOutcome::Paused,
        Settlement::Retry { .. } => JournalOutcome::Retried,
        Settlement::Dead { .. } => JournalOutcome::Dead,
        Settlement::Release { .. } => JournalOutcome::Released,
    }
}

/// The note a run's result leaves.
pub open spec fn result_note(result: Result<Outcome, TaskError>) -> Option<Seq<char>> {
    match result {
        Ok(Outcome::Completed { note }) => optional_text(note),
        Ok(Outcome::Pause { note, .. }) => optional_text(note),
        Err(error) => Some(error.text()),
    }
}

/// The journal note for a run: the outcome's note on success or pause, the error
/// message on failure.
pub fn note_for(result: &Result<Outcome, TaskError>) -> (r: Option<String>)
    ensures
        optional_text(r) == result_note(*result),
{
    match result {
        Ok(Outcome::Completed { note }) => copy_text(note),
        Ok(Outcome::Pause { note, .. }) => copy_text(note),
        Err(error) => Some(error.message().to_owned()),
    }
}

/// A settlement to apply: for which claim, which transition, and its journal entry.
pub struct SettlePlan {
    /// The job to settle.
    pub id: ulid::Ulid,
    /// The claim epoch to settle at.
    pub run_no: u32,
    /// The transition.
    pub settlement: Settlement,
    /// Its journal entry.
    pub journal: JournalAppend,
    /// How long the handler took, for the duration metric.
    pub duration: Duration,
}

/// A [`SettlePlan`] with its texts as character sequences.
pub struct SettlePlanView {
    /// See [`SettlePlan::id`].
    pub id: ulid::Ulid,
    /// See [`SettlePlan::run_no`].
    pub run_no: u32,
    /// See [`SettlePlan::settlement`].
    pub settlement: Settlement,
    /// See [`SettlePlan::journal`].
    pub journal: AppendView,
    /// See [`SettlePlan::duration`], in nanoseconds.
    pub duration: nat,
}

impl View for SettlePlan {
    type V = SettlePlanView;

    open spec fn view(&self) -> SettlePlanView {
        SettlePlanView {
            id: self.id,
            run_no: self.run_no,
            settlement: self.settlement,
            journal: self.journal@,
            duration: self.duration.nanos(),
        }
    }
}

/// The text an error shows.
pub open spec fn shown_error(error: Error) -> Seq<char> {
    error_text(
        error@,
        match error@ {
            ErrorView::UnknownKind(kind) => debug_form(kind),
            _ => Seq::empty(),
        },
    )
}

/// The settlement of a finished run: an undispatchable job is given up on, any
/// other follows its report.
pub open spec fn run_settlement(
    config: ConfigView,
    run: FinishedRun,
    now: Timestamp,
    jittered_nanos: u64,
) -> Settlement {
    match run.report {
        Ok(report) => report_settlement(
            config,
            report,
            now,
            one_more_failure(run.failure_count),
            jittered_nanos,
        ),
        Err(_) => Settlement::Dead {
            finished_at: now,
            failure_count: one_more_failure(run.failure_count),
        },
    }
}

/// The plan that settles a finished run.
pub open spec fn run_plan(
    config: ConfigView,
    run: FinishedRun,
    now: Timestamp,
    jittered_nanos: u64,
) -> SettlePlanView {
    SettlePlanView {
        id: run.id,
        run_no: run.run_no,
        settlement: run_settlement(config, run, now, jittered_nanos),
        journal: AppendView {
            kind: run.kind@,
            run_no: run.run_no,
            recorded_at: now,
            outcome: settlement_outcome(run_settlement(config, run, now, jittered_nanos)),
            note: match run.report {
                Ok(report) => result_note(report.result),
                Err(error) => Some(shown_error(error)),
            },
            attachment: match run.report {
                Ok(report) => report.attachment,
                Err(_) => None,
            },
        },
        duration: match run.report {
            Ok(report) => report.duration.nanos(),
            Err(_) => 0,
        },
    }
}

/// Compute the settlement of one finished run, with one journal entry for the
/// execution.
///
/// A payload or carry that could not be decoded makes the job unrunnable, so it is
/// given up on rather than spun on.
pub fn settle(
    config: &WorkerConfig,
    finished: FinishedRun,
    now: Timestamp,
    jittered_nanos: u64,
) -> (r: SettlePlan)
    ensures
        r@ == run_plan(config@, finished, now, jittered_nanos),
{
    let failures: i32 = next_failures(finished.failure_count);
    match finished.report {
        Err(error) => {
            let settlement = Settlement::Dead { finished_at: now, failure_count: failures };
            let outcome = journal_outcome_for(&settlement);
            SettlePlan {
                id: finished.id,
                run_no: finished.run_no,
                settlement,
                journal: JournalAppend {
                    kind: finished.kind,
                    run_no: finished.run_no,
                    recorded_at: now,
                    outcome,
                    note: Some(error.message()),
                    attachment: None,
                },
                duration: Duration::zero(),
            }
        },
        Ok(report) => {
            let settlement = settlement_for(config, &report, now, failures, jittered_nanos);
            let outcome = journal_outcome_for(&settlement);
            let note = note_for(&report.result);
            SettlePlan {
                id: finished.id,
                run_no: finished.run_no,
                settlement,
                journal: JournalAppend {
                    kind: finished.kind,
                    run_no: finished.run_no,
                    recorded_at: now,
                    outcome,
                    note,
                    attachment: report.attachment,
                },
                duration: report.duration,
            }
        },
    }
}

/// What the worker remembers about an in-flight job so it can release the job if a
/// forced shutdown has to abort its handler.
pub struct InflightJob {
    /// The job.
    pub id: ulid::Ulid,
    /// Its kind.
    pub kind: String,
    /// The claim epoch of its run.
    pub run_no: u32,
}

/// An [`InflightJob`] with its kind as a character sequence.
pub struct InflightView {
    /// See [`InflightJob::id`].
    pub id: ulid::Ulid,
    /// See [`InflightJob::kind`].
    pub kind: Seq<char>,
    /// See [`InflightJob::run_no`].
    pub run_no: u32,
}

impl View for InflightJob {
    type V = InflightView;

    open spec fn view(&self) -> InflightView {
        InflightView { id: self.id, kind: self.kind@, run_no: self.run_no }
    }
}

/// The plan that releases an aborted run.
pub open spec fn release_plan(job: InflightView, now: Timestamp) -> SettlePlanView {
    SettlePlanView {
        id: job.id,
        run_no: job.run_no,
        settlement: Settlement::Release { visible_at: now },
        journal: AppendView {
            kind: job.kind,
            run_no: job.run_no,
            recorded_at: now,
            outcome: JournalOutcome::Released,
            note: Some("released by graceful shutdown"@),
            attachment: None,
        },
        duration: 0,
    }
}

/// Release a job abandoned by a forced shutdown: back to pending immediately,
/// recorded as a `released` event, not a failure. Guarded by claim ownership.
pub fn release(job: InflightJob, now: Timestamp) -> (r: SettlePlan)
    ensures
        r@ == release_plan(job@, now),
{
    SettlePlan {
        id: job.id,
        run_no: job.run_no,
        settlement: Settlement::Release { visible_at: now },
        journal: JournalAppend {
            kind: job.kind,
            run_no: job.run_no,
            recorded_at: now,
            outcome: JournalOutcome::Released,
            note: Some("released by graceful shutdown".to_owned()),
            attachment: None,
        },
        duration: Duration::zero(),
    }
}

/// A recovery to apply: what to write to the stale claim, and its journal entry.
pub struct RecoveryPlan {
    /// The job to recover.
    pub id: ulid::Ulid,
    /// When it becomes eligible again.
    pub visible_at: Timestamp,
    /// The failure count to write.
    pub failure_count: i32,
    /// The claim epoch the recovery saw.
    pub run_no: u32,
    /// The journal entry.
    pub journal: JournalAppend,
}

/// A [`RecoveryPlan`] with its texts as character sequences.
pub struct RecoveryPlanView {
    /// See [`RecoveryPlan::id`].
    pub id: ulid::Ulid,
    /// See [`RecoveryPlan::visible_at`].
    pub visible_at: Timestamp,
    /// See [`RecoveryPlan::failure_count`].
    pub failure_count: i32,
    /// See [`RecoveryPlan::run_no`].
    pub run_no: u32,
    /// See [`RecoveryPlan::journal`].
    pub journal: AppendView,
}

impl View for RecoveryPlan {
    type V = RecoveryPlanView;

    open spec fn view(&self) -> RecoveryPlanView {
        RecoveryPlanView {
            id: self.id,
            visible_at: self.visible_at,
            failure_count: self.failure_count,
            run_no: self.run_no,
            journal: self.journal@,
        }
    }
}

/// The note of a recovery: whose lease expired.
pub open spec fn recovery_note(claimed_by: Option<Seq<char>>) -> Seq<char> {
    "lease expired; worker "@ + (match claimed_by {
        Some(by) => by,
        None => "unknown"@,
    }) + " presumed dead"@
}

/// The plan that recovers a stale claim.
pub open spec fn stale_plan(
    config: ConfigView,
    job: JobView,
    now: Timestamp,
    jittered_nanos: u64,
) -> RecoveryPlanView {
    let failures = one_more_failure(job.failure_count);
    RecoveryPlanView {
        id: job.id,
        visible_at: instant_after_nanos(
            now,
            retry_delay_nanos(config.backoff, attempt_number(failures), jittered_nanos),
        ),
        failure_count: failures,
        run_no: job.run_count,
        journal: AppendView {
            kind: job.kind,
            run_no: job.run_count,
            recorded_at: now,
            outcome: JournalOutcome::StaleRecovered,
            note: Some(recovery_note(job.claimed_by)),
            attachment: None,
        },
    }
}

/// Plan the recovery of an abandoned claim: re-pend the expired lease as a failed
/// execution with the worker's backoff and a `stale-recovered` journal entry.
pub fn plan_recovery(
    config: &WorkerConfig,
    job: &JobRecord,
    now: Timestamp,
    jittered_nanos: u64,
) -> (r: RecoveryPlan)
    ensures
        r@ == stale_plan(config@, job@, now, jittered_nanos),
{
    let failures: i32 = next_failures(job.failure_count);
    let backoff = config.backoff();
    let delay = retry_delay(&backoff, attempt_for(failures), jittered_nanos);
    let by = match &job.claimed_by {
        Some(by) => by.as_str(),
        None => "unknown",
    };
    let head = joined("lease expired; worker ", by);
    let note = joined(head.as_str(), " presumed dead");
    RecoveryPlan {
        id: job.id,
        visible_at: add_duration(now, delay),
        failure_count: failures,
        run_no: job.run_count,
        journal: JournalAppend {
            kind: job.kind.clone(),
            run_no: job.run_count,
            recorded_at: now,
            outcome: JournalOutcome::StaleRecovered,
            note: Some(note),
            attachment: None,
        },
    }
}

/// The lease to extend a fresh claim to, when the task asks for another than the
/// worker default.
pub open spec fn lease_override(config: ConfigView, task_lease: Option<Duration>) -> Option<nat> {
    match task_lease {
        Some(lease) => if clamped_lease(lease.nanos()) == config.lease.nanos() {
            None
        } else {
            Some(clamped_lease(lease.nanos()))
        },
        None => None,
    }
}

/// Decide a per-task lease override after the claim, which only stamps the worker
/// default. `None` when the task uses the default.
///
/// The override is clamped to the same bounds as the worker default, so a task
/// returning a degenerate `Task::lease` cannot stamp an already-expired or
/// interval-overflowing lease.
pub fn apply_task_lease(config: &WorkerConfig, task_lease: Option<Duration>) -> (r: Option<Duration>)
    ensures
        r is Some <==> lease_override(config@, task_lease) is Some,
        r matches Some(lease) ==> Some(lease.nanos()) == lease_override(config@, task_lease),
{
    match task_lease {
        Some(lease) => {
            let lease = clamp_lease(lease);
            let default = config.lease();
            if lease.as_nanos() == default.as_nanos() {
                None
            } else {
                Some(lease)
            }
        },
        None => None,
    }
}

/// A completed run is never retried, a paused one is never counted as a failure,
/// and a permanent failure goes straight to dead whatever the backstop.
pub proof fn outcomes_route_to_their_settlement(
    config: ConfigView,
    report: RunReport,
    now: Timestamp,
    failures: i32,
    jittered_nanos: u64,
)
    ensures
        ({
            let settlement = report_settlement(config, report, now, failures, jittered_nanos);
            &&& report.result matches Ok(Outcome::Completed { .. }) ==> settlement is Complete
            &&& report.result matches Ok(Outcome::Pause { .. }) ==> settlement is Pause
            &&& report.result matches Err(error) ==> (error.gives_up() ==> settlement is Dead)
            &&& report.result matches Err(error) ==> (!error.gives_up() ==> (settlement is Dead
                <==> backstopped(config.backstop, failures)))
            &&& report.result matches Err(error) ==> (!error.gives_up() && !backstopped(
                config.backstop,
                failures,
            ) ==> settlement is Retry)
        }),
{
}

/// A job that keeps failing reaches dead at the backstop: by the `max`-th failure
/// no retry is left.
pub proof fn backstop_bounds_failures(
    config: ConfigView,
    report: RunReport,
    now: Timestamp,
    failures: i32,
    jittered_nanos: u64,
)
    requires
        config.backstop matches Some(max) && attempt_number(failures) >= max,
    ensures
        !(report_settlement(config, report, now, failures, jittered_nanos) is Retry),
{
}

/// A retry is never scheduled in the past.
pub proof fn retries_are_not_scheduled_in_the_past(
    config: ConfigView,
    report: RunReport,
    now: Timestamp,
    failures: i32,
    jittered_nanos: u64,
)
    requires
        crate::instants::unix_nanos(crate::instants::MIN_UNIX_SECS as int, 0) <= now.nanos()
            <= crate::instants::last_instant(),
    ensures
        report_settlement(config, report, now, failures, jittered_nanos) matches Settlement::Retry {
            visible_at,
            ..
        } ==> visible_at.nanos() >= now.nanos(),
        report_settlement(config, report, now, failures, jittered_nanos) matches Settlement::Pause {
            visible_at,
            ..
        } ==> visible_at.nanos() >= now.nanos(),
{
    if let Settlement::Retry { visible_at, .. } = report_settlement(
        config,
        report,
        now,
        failures,
        jittered_nanos,
    ) {
        let delay = retry_delay_nanos(
            effective_backoff(config, report),
            attempt_number(failures),
            jittered_nanos,
        );
        Timestamp::at_counts_its_nanos(saturating_sum(now.nanos(), delay));
    }
    if let Ok(Outcome::Pause { resume_in, .. }) = report.result {
        Timestamp::at_counts_its_nanos(saturating_sum(now.nanos(), resume_in.nanos()));
    }
}

/// Settling a finished run of a claim keeps every job's journal hole-free and its
/// failure count exact, whether or not the claim was still held.
pub proof fn settling_a_run_keeps_journal_complete(
    state: QueueState,
    by: Seq<char>,
    config: ConfigView,
    run: FinishedRun,
    now: Timestamp,
    jittered_nanos: u64,
)
    requires
        state.valid(),
        state.next_entry < i64::MAX,
        all_accounted(state),
        settle_applies(state, run.id, by, run.run_no) ==> run.failure_count
            == state.jobs[run.id].failure_count,
        run.failure_count < i32::MAX,
    ensures
        ({
            let plan = run_plan(config, run, now, jittered_nanos);
            all_accounted(
                settle_step(state, plan.id, by, plan.run_no, plan.settlement, plan.journal),
            )
        }),
{
    let plan = run_plan(config, run, now, jittered_nanos);
    settle_keeps_journal_complete(
        state,
        plan.id,
        by,
        plan.run_no,
        plan.settlement,
        plan.journal,
    );
}

/// Recovering a stale claim keeps every job's journal hole-free and counts the
/// failure, whether or not the claim was still there.
pub proof fn recovering_a_claim_keeps_journal_complete(
    state: QueueState,
    config: ConfigView,
    job: JobView,
    now: Timestamp,
    jittered_nanos: u64,
    later: Timestamp,
)
    requires
        state.valid(),
        state.next_entry < i64::MAX,
        all_accounted(state),
        recover_applies(state, job.id, job.run_count, later) ==> state.jobs[job.id].failure_count
            == job.failure_count,
        job.failure_count < i32::MAX,
    ensures
        ({
            let plan = stale_plan(config, job, now, jittered_nanos);
            all_accounted(
                recover_step(
                    state,
                    plan.id,
                    plan.visible_at,
                    plan.failure_count,
                    plan.run_no,
                    plan.journal,
                    later,
                ),
            )
        }),
{
    let plan = stale_plan(config, job, now, jittered_nanos);
    recover_keeps_journal_complete(
        state,
        plan.id,
        plan.visible_at,
        plan.failure_count,
        plan.run_no,
        plan.journal,
        later,
    );
}

/// Releasing an aborted run keeps every job's journal hole-free and is no failure.
pub proof fn releasing_a_run_keeps_journal_complete(
    state: QueueState,
    by: Seq<char>,
    job: InflightView,
    now: Timestamp,
)
    requires
        state.valid(),
        state.next_entry < i64::MAX,
        all_accounted(state),
    ensures
        ({
            let plan = release_plan(job, now);
            let after = settle_step(
                state,
                plan.id,
                by,
                plan.run_no,
                plan.settlement,
                plan.journal,
            );
            &&& all_accounted(after)
            &&& settle_applies(state, job.id, by, job.run_no) ==> after.jobs[job.id].status
                is Pending && after.jobs[job.id].failure_count == state.jobs[job.id].failure_count
                && after.jobs[job.id].carry == state.jobs[job.id].carry
        }),
{
    let plan = release_plan(job, now);
    settle_keeps_journal_complete(
        state,
        plan.id,
        by,
        plan.run_no,
        plan.settlement,
        plan.journal,
    );
}

/// Whether a settlement is what a report deserves.
///
/// A completed run finishes the job now. A pause of length `d` makes it eligible again
/// exactly `d` from now, with the run's carry, and counts no failure. A failure that gives
/// up, or that reaches the backstop, finishes it now with its failures counted. Any other
/// failure makes it eligible again after its backoff's delay, at once for the first two
/// and never later than the ceiling, with the run's carry and its failures counted.
pub open spec fn settles_in_time(
    config: ConfigView,
    report: RunReport,
    now: Timestamp,
    failures: i32,
    jittered_nanos: u64,
    settlement: Settlement,
) -> bool {
    match report.result {
        Ok(Outcome::Completed { .. }) => settlement matches Settlement::Complete { finished_at }
            && finished_at == now,
        Ok(Outcome::Pause { resume_in, .. }) => settlement matches Settlement::Pause {
            visible_at,
            carry,
        } && lies_after(visible_at, now, resume_in.nanos()) && carry == report.carry,
        Err(error) => if error.gives_up() || (config.backstop matches Some(max) && (max == 0
            || failures >= max)) {
            settlement matches Settlement::Dead { finished_at, failure_count } && finished_at
                == now && failure_count == failures
        } else {
            settlement matches Settlement::Retry { visible_at, failure_count, carry }
                && failure_count == failures && carry == report.carry && realized_after(
                visible_at,
                now,
                match report.backoff {
                    Some(own) => own,
                    None => config.backoff,
                },
                failures,
                jittered_nanos,
            )
        },
    }
}

/// Each way a run can conclude settles its job as it deserves, and a pause of length `d`
/// exactly `d` from now, up to the last instant.
pub proof fn conclusions_settle_in_time(
    config: &WorkerConfig,
    report: &RunReport,
    now: Timestamp,
    failures: i32,
    jittered_nanos: u64,
    settlement: Settlement,
)
    requires
        call_ensures(
            settlement_for,
            (config, report, now, failures, jittered_nanos),
            settlement,
        ),
        calendar_instant(now),
    ensures
        settles_in_time(config@, *report, now, failures, jittered_nanos, settlement),
        report.result matches Ok(Outcome::Pause { resume_in, .. }) ==> (
        settlement matches Settlement::Pause { visible_at, .. } && visible_at.nanos()
            == saturating_sum(now.nanos(), resume_in.nanos())),
{
    lemma_settles_in_time(config@, *report, now, failures, jittered_nanos);
    if let Ok(Outcome::Pause { resume_in, .. }) = report.result {
        Timestamp::at_counts_its_nanos(saturating_sum(now.nanos(), resume_in.nanos()));
    }
}

proof fn lemma_settles_in_time(
    config: ConfigView,
    report: RunReport,
    now: Timestamp,
    failures: i32,
    jittered_nanos: u64,
)
    requires
        calendar_instant(now),
    ensures
        settles_in_time(
            config,
            report,
            now,
            failures,
            jittered_nanos,
            report_settlement(config, report, now, failures, jittered_nanos),
        ),
{
    let backoff = effective_backoff(config, report);
    lemma_realized_after(now, backoff, failures, jittered_nanos);
    if let Ok(Outcome::Pause { resume_in, .. }) = report.result {
        lemma_lies_after(now, resume_in.nanos());
    }
}

/// Whether `at` is the realized retry time of a failure: later than now by the jittered
/// delay, or by the backoff's own where that is shorter.
pub open spec fn realized_after(
    at: Timestamp,
    now: Timestamp,
    backoff: Backoff,
    failures: i32,
    jittered_nanos: u64,
) -> bool {
    exists|delay: nat, curve: nat|
        {
            &&& #[trigger] lies_after(at, now, delay)
            &&& #[trigger] on_the_curve(backoff, failures, curve)
            &&& delay <= curve && delay <= jittered_nanos
            &&& delay == curve || delay == jittered_nanos
        }
}

/// Whether `delay` is a backoff's delay after so many failures: none for the first two,
/// and never past the ceiling.
pub open spec fn on_the_curve(backoff: Backoff, failures: i32, delay: nat) -> bool {
    &&& failures <= 2 ==> delay == 0
    &&& delay <= backoff.ceiling().nanos()
    &&& failures >= 0 ==> delay == base_delay_nanos(
        backoff.base_delay().nanos(),
        backoff.ceiling().nanos(),
        failures as nat,
    )
}

proof fn lemma_realized_after(
    now: Timestamp,
    backoff: Backoff,
    failures: i32,
    jittered_nanos: u64,
)
    requires
        calendar_instant(now),
    ensures
        realized_after(
            instant_after_nanos(
                now,
                retry_delay_nanos(backoff, attempt_number(failures), jittered_nanos),
            ),
            now,
            backoff,
            failures,
            jittered_nanos,
        ),
{
    let base = backoff.base_delay().nanos();
    let cap = backoff.ceiling().nanos();
    let attempt = attempt_number(failures);
    let delay = retry_delay_nanos(backoff, attempt, jittered_nanos);
    delay_never_exceeds_cap(base, cap, attempt as nat);
    let curve = base_delay_nanos(base, cap, attempt as nat) as nat;
    lemma_lies_after(now, delay);
    if failures <= 2 {
        first_two_attempts_are_immediate(base, cap, attempt as nat);
    }
    assert(on_the_curve(backoff, failures, curve));
    assert(lies_after(instant_after_nanos(now, delay), now, delay));
}

/// A finished run is settled for its own job at its own claim epoch, one failure further,
/// and its journal entry tells the truth of it: the job's kind, the run's number, the time,
/// the outcome that fits the settlement, what the handler said, and what it attached. An
/// undispatchable job is given up on now.
pub proof fn finished_runs_are_settled_as_they_ended(
    config: &WorkerConfig,
    finished: FinishedRun,
    now: Timestamp,
    jittered_nanos: u64,
    plan: SettlePlan,
)
    requires
        call_ensures(settle, (config, finished, now, jittered_nanos), plan),
        finished.failure_count < i32::MAX,
        calendar_instant(now),
    ensures
        plan.id == finished.id && plan.run_no == finished.run_no,
        plan.journal.kind@ == finished.kind@ && plan.journal.run_no == finished.run_no,
        plan.journal.recorded_at == now,
        plan.settlement is Complete <==> plan.journal.outcome is Completed,
        plan.settlement is Pause <==> plan.journal.outcome is Paused,
        plan.settlement is Retry <==> plan.journal.outcome is Retried,
        plan.settlement is Dead <==> plan.journal.outcome is Dead,
        plan.settlement matches Settlement::Retry { failure_count, .. } ==> failure_count
            == finished.failure_count + 1,
        plan.settlement matches Settlement::Dead { failure_count, .. } ==> failure_count
            == finished.failure_count + 1,
        match finished.report {
            Ok(report) => {
                &&& settles_in_time(
                    config@,
                    report,
                    now,
                    (finished.failure_count + 1) as i32,
                    jittered_nanos,
                    plan.settlement,
                )
                &&& plan.journal.attachment == report.attachment
                &&& plan.duration.nanos() == report.duration.nanos()
                &&& match report.result {
                    Ok(Outcome::Completed { note }) => plan.settlement is Complete && optional_text(
                        plan.journal.note,
                    ) == optional_text(note),
                    Ok(Outcome::Pause { note, .. }) => plan.settlement is Pause && optional_text(
                        plan.journal.note,
                    ) == optional_text(note),
                    Err(error) => (plan.settlement is Retry || plan.settlement is Dead) && (
                    plan.journal.note matches Some(note) && note@ == error.text()),
                }
            },
            Err(error) => {
                &&& plan.settlement matches Settlement::Dead { finished_at, .. } && finished_at
                    == now
                &&& plan.journal.note matches Some(note) && note@ == shown_error(error)
                &&& plan.journal.attachment is None
            },
        },
{
    if let Ok(report) = finished.report {
        lemma_settles_in_time(
            config@,
            report,
            now,
            (finished.failure_count + 1) as i32,
            jittered_nanos,
        );
    }
}

/// A released run's job is eligible again now, as its own claim epoch, and the journal
/// says that it was released and by what; it is no failure.
pub proof fn releases_hand_the_job_back(job: InflightJob, now: Timestamp, plan: SettlePlan)
    requires
        call_ensures(release, (job, now), plan),
    ensures
        plan.id == job.id && plan.run_no == job.run_no,
        plan.settlement matches Settlement::Release { visible_at } && visible_at == now,
        plan.journal.kind@ == job.kind@ && plan.journal.run_no == job.run_no,
        plan.journal.recorded_at == now && plan.journal.outcome is Released,
        !plan.journal.outcome.failed(),
{
}

/// A stale claim is recovered at the epoch it was seen at, one failure further, eligible
/// again after the worker's backoff, and the journal says whose lease expired.
pub proof fn stale_claims_are_recovered_as_failures(
    config: &WorkerConfig,
    job: &JobRecord,
    now: Timestamp,
    jittered_nanos: u64,
    plan: RecoveryPlan,
)
    requires
        call_ensures(plan_recovery, (config, job, now, jittered_nanos), plan),
        job.failure_count < i32::MAX,
        calendar_instant(now),
    ensures
        plan.id == job.id && plan.run_no == job.run_count,
        plan.failure_count == job.failure_count + 1,
        realized_after(
            plan.visible_at,
            now,
            config@.backoff,
            plan.failure_count,
            jittered_nanos,
        ),
        plan.journal.kind@ == job.kind@ && plan.journal.run_no == job.run_count,
        plan.journal.recorded_at == now && plan.journal.outcome is StaleRecovered,
        plan.journal.outcome.failed(),
        job.claimed_by matches Some(by) ==> (plan.journal.note matches Some(note) && exists|
            at: int,
        |
            0 <= at && at + by@.len() <= note@.len() && #[trigger] note@.subrange(
                at,
                at + by@.len(),
            ) == by@),
{
    lemma_realized_after(
        now,
        config@.backoff,
        (job.failure_count + 1) as i32,
        jittered_nanos,
    );
    if let Some(by) = job.claimed_by {
        let head = "lease expired; worker "@;
        let note = recovery_note(Some(by@));
        assert(note.subrange(head.len() as int, head.len() as int + by@.len()) =~= by@);
    }
}

/// The lease a claim ends up with is the task's own where it asks for one within the
/// supported range, is within that range whatever it asks for, and is the worker's default
/// where it asks for none. The claim is extended only where that makes a difference.
pub proof fn claims_get_the_lease_asked_for(
    config: &WorkerConfig,
    task_lease: Option<Duration>,
    extension: Option<Duration>,
)
    requires
        call_ensures(apply_task_lease, (config, task_lease), extension),
        runnable(config@),
    ensures
        extension matches Some(lease) ==> lease.nanos() != config@.lease.nanos(),
        ({
            let lease = match extension {
                Some(lease) => lease.nanos(),
                None => config@.lease.nanos(),
            };
            &&& 1_000_000_000 <= lease <= 31_536_000_000_000_000
            &&& task_lease is None ==> lease == config@.lease.nanos()
            &&& task_lease matches Some(asked) ==> {
                &&& 1_000_000_000 <= asked.nanos() <= 31_536_000_000_000_000 ==> lease
                    == asked.nanos()
                &&& asked.nanos() < 1_000_000_000 ==> lease == 1_000_000_000
                &&& asked.nanos() > 31_536_000_000_000_000 ==> lease == 31_536_000_000_000_000
            }
        }),
{
}

/// The journal's outcome says of a settlement what it was, and counts a failure exactly
/// where the settlement does.
pub proof fn outcomes_tell_settlements_apart(
    settlement: &Settlement,
    other: &Settlement,
    outcome: JournalOutcome,
    other_outcome: JournalOutcome,
)
    requires
        call_ensures(journal_outcome_for, (settlement,), outcome),
        call_ensures(journal_outcome_for, (other,), other_outcome),
    ensures
        outcome.failed() <==> settlement is Retry || settlement is Dead,
        outcome == other_outcome <==> ((settlement is Complete && other is Complete) || (settlement
            is Retry && other is Retry) || (settlement is Pause && other is Pause) || (settlement
            is Dead && other is Dead) || (settlement is Release && other is Release)),
        outcome is Completed <==> settlement is Complete,
        outcome is Released <==> settlement is Release,
        outcome is Paused <==> settlement is Pause,
        outcome is Dead <==> settlement is Dead,
        !(outcome is Merged) && !(outcome is StaleRecovered),
{
}

/// A handler that asks for a pause of length `d` has its job eligible again exactly `d`
/// after it returned.
pub proof fn pauses_asked_for_are_kept(
    config: &WorkerConfig,
    report: &RunReport,
    now: Timestamp,
    failures: i32,
    jittered_nanos: u64,
    resume_in: Duration,
    paused: Outcome,
    settlement: Settlement,
)
    requires
        call_ensures(Outcome::pause_in, (resume_in,), paused),
        report.result == Ok::<Outcome, TaskError>(paused),
        call_ensures(
            settlement_for,
            (config, report, now, failures, jittered_nanos),
            settlement,
        ),
        calendar_instant(now),
    ensures
        settlement matches Settlement::Pause { visible_at, .. } && lies_after(
            visible_at,
            now,
            resume_in.nanos(),
        ),
{
    conclusions_settle_in_time(config, report, now, failures, jittered_nanos, settlement);
}

} // verus!
