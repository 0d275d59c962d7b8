//! The storage vocabulary: lifecycle states, journal outcomes, and the
//! type-erased records that cross the storage boundary.
//!
//! Everything above this layer (the queue, the worker, the registry) depends only
//! on these values, never on a concrete driver. Payloads cross a JSON boundary
//! here: the store only ever sees a `kind` string and opaque JSON values for the
//! payload and carry. Type safety is recovered above this layer at enqueue and at
//! dispatch.
use crate::error::{Error, ErrorView};
use crate::instants::{Duration, Timestamp};
use crate::kinds::KindMap;
use crate::task::Priority;
use crate::text::{optional_text, text_eq};
use vstd::prelude::*;

verus! {

/// A JSON value, opaque here: payloads, carries, and attachments are stored and
/// handed back, never read.
#[verifier::external_type_specification]
#[verifier::external_body]
pub struct ExJsonValue(serde_json::Value);

/// Copies a JSON value: `serde_json::Value::clone` returns an equal value.
pub assume_specification[ <serde_json::Value as Clone>::clone ](
    value: &serde_json::Value,
) -> (r: serde_json::Value)
    ensures
        r == *value,
;

/// Whether a JSON value is `null`.
pub uninterp spec fn json_is_null(value: serde_json::Value) -> bool;

/// Tells whether a JSON value is `null`: `serde_json::Value::is_null`.
pub assume_specification[ serde_json::Value::is_null ](value: &serde_json::Value) -> (r: bool)
    ensures
        r == json_is_null(*value),
;

/// The default JSON value: `serde_json::Value::default` returns `null`.
pub assume_specification[ <serde_json::Value as Default>::default ]() -> (r: serde_json::Value)
    ensures
        json_is_null(r),
;

/// What a stored carry stands for.
#[derive(Debug)]
pub enum StoredCarry {
    /// The initial, never-run state: the default carry.
    Initial,
    /// A carry saved by an earlier run.
    Saved(serde_json::Value),
}

/// Tell what a stored carry stands for: JSON `null` is the initial state, anything
/// else was saved by a run.
pub fn stored_carry(carry: serde_json::Value) -> (r: StoredCarry)
    ensures
        r == (if json_is_null(carry) {
            StoredCarry::Initial
        } else {
            StoredCarry::Saved(carry)
        }),
{
    let null = carry.is_null();
    carry_given(carry, null)
}

/// What a stored carry stands for, given whether it is JSON `null`.
pub fn carry_given(carry: serde_json::Value, null: bool) -> (r: StoredCarry)
    ensures
        r == (if null {
            StoredCarry::Initial
        } else {
            StoredCarry::Saved(carry)
        }),
{
    if null {
        StoredCarry::Initial
    } else {
        StoredCarry::Saved(carry)
    }
}

/// The lifecycle state of a job.
///
/// A job moves `Pending -> Claimed -> (Completed | Dead)`; a claimed job that
/// settles as a retry or a pause returns to `Pending`. The four states are
/// pinned by a `CHECK` constraint in the schema, and this enum is their in-memory
/// mirror.
#[derive(Debug, Clone, Copy, PartialEq, Eq, Structural, Hash)]
pub enum Status {
    /// Eligible to be claimed once `visible_at` has passed.
    Pending,
    /// Held by a worker under a lease until it settles or the lease expires.
    Claimed,
    /// Terminal success.
    Completed,
    /// Terminal give-up.
    Dead,
}

impl Status {
    /// The textual form.
    pub open spec fn column_text(self) -> Seq<char> {
        match self {
            Status::Pending => "pending"@,
            Status::Claimed => "claimed"@,
            Status::Completed => "completed"@,
            Status::Dead => "dead"@,
        }
    }

    /// Whether no further transition leaves this state.
    pub open spec fn terminal(self) -> bool {
        self is Completed || self is Dead
    }

    /// The textual form stored in the `status` column.
    pub fn as_str(self) -> (r: &'static str)
        ensures
            r@ == self.column_text(),
    {
        match self {
            Status::Pending => "pending",
            Status::Claimed => "claimed",
            Status::Completed => "completed",
            Status::Dead => "dead",
        }
    }

    /// Parse the textual form read from the `status` column.
    ///
    /// Returns `None` for any value the schema's `CHECK` constraint would have
    /// rejected, so a `Some` result is a state this code understands.
    pub fn from_db(value: &str) -> (r: Option<Status>)
        ensures
            r is Some <==> exists|status: Status| #[trigger] status.column_text() == value@,
            r matches Some(status) ==> status.column_text() == value@,
    {
        if text_eq(value, "pending") {
            assert(Status::Pending.column_text() == value@);
            Some(Status::Pending)
        } else if text_eq(value, "claimed") {
            assert(Status::Claimed.column_text() == value@);
            Some(Status::Claimed)
        } else if text_eq(value, "completed") {
            assert(Status::Completed.column_text() == value@);
            Some(Status::Completed)
        } else if text_eq(value, "dead") {
            assert(Status::Dead.column_text() == value@);
            Some(Status::Dead)
        } else {
            None
        }
    }
}

/// Distinct states have distinct texts, so a stored text names one state.
pub proof fn status_text_is_unambiguous(a: Status, b: Status)
    ensures
        a.column_text() == b.column_text() ==> a == b,
{
    reveal_strlit("pending");
    reveal_strlit("claimed");
    reveal_strlit("completed");
    reveal_strlit("dead");
    assert("pending"@[0] == 'p' && "claimed"@[0] == 'c' && "completed"@[1] == 'o' && "claimed"@[1]
        == 'l' && "dead"@[0] == 'd' && "completed"@[0] == 'c');
}

/// The outcome recorded by one append-only journal entry.
///
/// Every execution and every applied merge appends exactly one entry. The set is
/// pinned by a `CHECK` constraint in the schema. A task's failure history is the
/// subset of its journal whose outcome is a failure (`Retried`, `Dead`, or
/// `StaleRecovered`).
#[derive(Debug, Clone, Copy, PartialEq, Eq, Structural, Hash)]
pub enum JournalOutcome {
    /// The run completed the job.
    Completed,
    /// The run paused the job cooperatively; not a failure.
    Paused,
    /// The run failed and the job was rescheduled with backoff.
    Retried,
    /// The job gave up and moved to dead.
    Dead,
    /// A lease expired and the claim was reclaimed; counts as a failure.
    StaleRecovered,
    /// A graceful shutdown released the job; not a failure.
    Released,
    /// An enqueue merged into this pending job.
    Merged,
}

impl JournalOutcome {
    /// The textual form.
    pub open spec fn column_text(self) -> Seq<char> {
        match self {
            JournalOutcome::Completed => "completed"@,
            JournalOutcome::Paused => "paused"@,
            JournalOutcome::Retried => "retried"@,
            JournalOutcome::Dead => "dead"@,
            JournalOutcome::StaleRecovered => "stale-recovered"@,
            JournalOutcome::Released => "released"@,
            JournalOutcome::Merged => "merged"@,
        }
    }

    /// Whether the outcome counts as a failed execution.
    pub open spec fn failed(self) -> bool {
        self is Retried || self is Dead || self is StaleRecovered
    }

    /// The textual form stored in the `outcome` column.
    pub fn as_str(self) -> (r: &'static str)
        ensures
            r@ == self.column_text(),
    {
        match self {
            JournalOutcome::Completed => "completed",
            JournalOutcome::Paused => "paused",
            JournalOutcome::Retried => "retried",
            JournalOutcome::Dead => "dead",
            JournalOutcome::StaleRecovered => "stale-recovered",
            JournalOutcome::Released => "released",
            JournalOutcome::Merged => "merged",
        }
    }

    /// Parse the textual form read from the `outcome` column.
    pub fn from_db(value: &str) -> (r: Option<JournalOutcome>)
        ensures
            r is Some <==> exists|outcome: JournalOutcome| #[trigger]
                outcome.column_text() == value@,
            r matches Some(outcome) ==> outcome.column_text() == value@,
    {
        if text_eq(value, "completed") {
            assert(JournalOutcome::Completed.column_text() == value@);
            Some(JournalOutcome::Completed)
        } else if text_eq(value, "paused") {
            assert(JournalOutcome::Paused.column_text() == value@);
            Some(JournalOutcome::Paused)
        } else if text_eq(value, "retried") {
            assert(JournalOutcome::Retried.column_text() == value@);
            Some(JournalOutcome::Retried)
        } else if text_eq(value, "dead") {
            assert(JournalOutcome::Dead.column_text() == value@);
            Some(JournalOutcome::Dead)
        } else if text_eq(value, "stale-recovered") {
            assert(JournalOutcome::StaleRecovered.column_text() == value@);
            Some(JournalOutcome::StaleRecovered)
        } else if text_eq(value, "released") {
            assert(JournalOutcome::Released.column_text() == value@);
            Some(JournalOutcome::Released)
        } else if text_eq(value, "merged") {
            assert(JournalOutcome::Merged.column_text() == value@);
            Some(JournalOutcome::Merged)
        } else {
            None
        }
    }

    /// Whether this outcome counts as a failed execution toward the backstop.
    ///
    /// A cooperative pause and a clean release are not failures; a retry, a death,
    /// and a stale recovery are. A merge is a bookkeeping event, not an execution.
    pub fn is_failure(self) -> (r: bool)
        ensures
            r == self.failed(),
    {
        matches!(
            self,
            JournalOutcome::Retried | JournalOutcome::Dead | JournalOutcome::StaleRecovered
        )
    }
}

/// Distinct outcomes have distinct texts, so a stored text names one outcome.
pub proof fn outcome_text_is_unambiguous(a: JournalOutcome, b: JournalOutcome)
    ensures
        a.column_text() == b.column_text() ==> a == b,
{
    reveal_strlit("completed");
    reveal_strlit("paused");
    reveal_strlit("retried");
    reveal_strlit("dead");
    reveal_strlit("stale-recovered");
    reveal_strlit("released");
    reveal_strlit("merged");
    assert("completed"@[0] == 'c' && "paused"@[0] == 'p' && "retried"@[2] == 't' && "dead"@[0]
        == 'd' && "stale-recovered"@[0] == 's' && "released"@[2] == 'l' && "merged"@[0] == 'm'
        && "retried"@[0] == 'r' && "released"@[0] == 'r');
}

/// Copy an optional text.
pub(crate) fn copy_text(text: &Option<String>) -> (r: Option<String>)
    ensures
        optional_text(r) == optional_text(*text),
{
    match text {
        Some(text) => Some(text.clone()),
        None => None,
    }
}

/// Copy an optional JSON value.
pub(crate) fn copy_json(value: &Option<serde_json::Value>) -> (r: Option<serde_json::Value>)
    ensures
        r == *value,
{
    match value {
        Some(value) => Some(value.clone()),
        None => None,
    }
}

/// A type-erased job row as the storage layer sees it.
///
/// The `payload` and `carry` are opaque JSON; the layer above turns them back
/// into concrete task types using `kind` and the registry.
#[derive(Debug)]
pub struct JobRecord {
    /// The job's ULID identity.
    pub id: ulid::Ulid,
    /// The task discriminator that routes the job to its handler.
    pub kind: String,
    /// The serialized task payload.
    pub payload: serde_json::Value,
    /// Numeric priority tier: 0 high, 1 normal, 2 low.
    pub priority: i16,
    /// Current lifecycle state.
    pub status: Status,
    /// When the job was first enqueued.
    pub created_at: Timestamp,
    /// When the job next becomes eligible to claim.
    pub visible_at: Timestamp,
    /// Lease expiry while claimed; `None` otherwise.
    pub claim_expires_at: Option<Timestamp>,
    /// Claiming worker identity (`host:pid`) while claimed; `None` otherwise.
    pub claimed_by: Option<String>,
    /// When the job reached a terminal state; `None` until then.
    pub finished_at: Option<Timestamp>,
    /// Number of times the job has been claimed/executed.
    pub run_count: u32,
    /// Number of failed executions counted toward the backstop.
    pub failure_count: i32,
    /// The typed carried state, serialized; JSON `null` when empty.
    pub carry: serde_json::Value,
    /// Deduplication candidacy key; `None` means never coalesced.
    pub dedup_key: Option<String>,
}

/// A [`JobRecord`] with its texts as character sequences.
pub struct JobView {
    /// See [`JobRecord::id`].
    pub id: ulid::Ulid,
    /// See [`JobRecord::kind`].
    pub kind: Seq<char>,
    /// See [`JobRecord::payload`].
    pub payload: serde_json::Value,
    /// See [`JobRecord::priority`].
    pub priority: i16,
    /// See [`JobRecord::status`].
    pub status: Status,
    /// See [`JobRecord::created_at`].
    pub created_at: Timestamp,
    /// See [`JobRecord::visible_at`].
    pub visible_at: Timestamp,
    /// See [`JobRecord::claim_expires_at`].
    pub claim_expires_at: Option<Timestamp>,
    /// See [`JobRecord::claimed_by`].
    pub claimed_by: Option<Seq<char>>,
    /// See [`JobRecord::finished_at`].
    pub finished_at: Option<Timestamp>,
    /// See [`JobRecord::run_count`].
    pub run_count: u32,
    /// See [`JobRecord::failure_count`].
    pub failure_count: i32,
    /// See [`JobRecord::carry`].
    pub carry: serde_json::Value,
    /// See [`JobRecord::dedup_key`].
    pub dedup_key: Option<Seq<char>>,
}

impl View for JobRecord {
    type V = JobView;

    open spec fn view(&self) -> JobView {
        JobView {
            id: self.id,
            kind: self.kind@,
            payload: self.payload,
            priority: self.priority,
            status: self.status,
            created_at: self.created_at,
            visible_at: self.visible_at,
            claim_expires_at: self.claim_expires_at,
            claimed_by: optional_text(self.claimed_by),
            finished_at: self.finished_at,
            run_count: self.run_count,
            failure_count: self.failure_count,
            carry: self.carry,
            dedup_key: optional_text(self.dedup_key),
        }
    }
}

impl Clone for JobRecord {
    fn clone(&self) -> (r: JobRecord)
        ensures
            r@ == self@,
    {
        JobRecord {
            id: self.id,
            kind: self.kind.clone(),
            payload: self.payload.clone(),
            priority: self.priority,
            status: self.status,
            created_at: self.created_at,
            visible_at: self.visible_at,
            claim_expires_at: self.claim_expires_at,
            claimed_by: copy_text(&self.claimed_by),
            finished_at: self.finished_at,
            run_count: self.run_count,
            failure_count: self.failure_count,
            carry: self.carry.clone(),
            dedup_key: copy_text(&self.dedup_key),
        }
    }
}

/// One append-only journal entry for a job.
#[derive(Debug)]
pub struct JournalRecord {
    /// Surrogate identity of the entry.
    pub id: i64,
    /// The job this entry belongs to.
    pub job_id: ulid::Ulid,
    /// The job's kind, denormalized so the journal is queryable without a join.
    pub kind: String,
    /// The run number this entry records.
    pub run_no: u32,
    /// When the entry was written.
    pub recorded_at: Timestamp,
    /// The recorded outcome.
    pub outcome: JournalOutcome,
    /// The run's conclusion, or on failure the error message.
    pub note: Option<String>,
    /// Structured evidence set during the run.
    pub attachment: Option<serde_json::Value>,
}

/// A [`JournalRecord`] with its texts as character sequences.
pub struct JournalView {
    /// See [`JournalRecord::id`].
    pub id: i64,
    /// See [`JournalRecord::job_id`].
    pub job_id: ulid::Ulid,
    /// What the entry says.
    pub entry: AppendView,
}

/// A [`JournalAppend`] with its texts as character sequences.
pub struct AppendView {
    /// See [`JournalAppend::kind`].
    pub kind: Seq<char>,
    /// See [`JournalAppend::run_no`].
    pub run_no: u32,
    /// See [`JournalAppend::recorded_at`].
    pub recorded_at: Timestamp,
    /// See [`JournalAppend::outcome`].
    pub outcome: JournalOutcome,
    /// See [`JournalAppend::note`].
    pub note: Option<Seq<char>>,
    /// See [`JournalAppend::attachment`].
    pub attachment: Option<serde_json::Value>,
}

impl View for JournalRecord {
    type V = JournalView;

    open spec fn view(&self) -> JournalView {
        JournalView {
            id: self.id,
            job_id: self.job_id,
            entry: AppendView {
                kind: self.kind@,
                run_no: self.run_no,
                recorded_at: self.recorded_at,
                outcome: self.outcome,
                note: optional_text(self.note),
                attachment: self.attachment,
            },
        }
    }
}

impl Clone for JournalRecord {
    fn clone(&self) -> (r: JournalRecord)
        ensures
            r@ == self@,
    {
        JournalRecord {
            id: self.id,
            job_id: self.job_id,
            kind: self.kind.clone(),
            run_no: self.run_no,
            recorded_at: self.recorded_at,
            outcome: self.outcome,
            note: copy_text(&self.note),
            attachment: copy_json(&self.attachment),
        }
    }
}

/// Parameters for inserting a brand-new pending job.
///
/// This is the producer's enqueue request in type-erased form; the queue handle
/// builds it from a typed task.
#[derive(Debug)]
pub struct NewJob {
    /// The job's ULID identity (generated by the producer).
    pub id: ulid::Ulid,
    /// The task discriminator.
    pub kind: String,
    /// The serialized task payload.
    pub payload: serde_json::Value,
    /// Numeric priority tier.
    pub priority: i16,
    /// Enqueue time.
    pub created_at: Timestamp,
    /// Eligibility time; equal to `created_at` for immediate work.
    pub visible_at: Timestamp,
    /// Initial carried state, serialized.
    pub carry: serde_json::Value,
    /// Deduplication candidacy key; `None` to never coalesce.
    pub dedup_key: Option<String>,
}

/// A [`NewJob`] with its texts as character sequences.
pub struct NewJobView {
    /// See [`NewJob::id`].
    pub id: ulid::Ulid,
    /// See [`NewJob::kind`].
    pub kind: Seq<char>,
    /// See [`NewJob::payload`].
    pub payload: serde_json::Value,
    /// See [`NewJob::priority`].
    pub priority: i16,
    /// See [`NewJob::created_at`].
    pub created_at: Timestamp,
    /// See [`NewJob::visible_at`].
    pub visible_at: Timestamp,
    /// See [`NewJob::carry`].
    pub carry: serde_json::Value,
    /// See [`NewJob::dedup_key`].
    pub dedup_key: Option<Seq<char>>,
}

impl View for NewJob {
    type V = NewJobView;

    open spec fn view(&self) -> NewJobView {
        NewJobView {
            id: self.id,
            kind: self.kind@,
            payload: self.payload,
            priority: self.priority,
            created_at: self.created_at,
            visible_at: self.visible_at,
            carry: self.carry,
            dedup_key: optional_text(self.dedup_key),
        }
    }
}

impl Clone for NewJob {
    fn clone(&self) -> (r: NewJob)
        ensures
            r@ == self@,
    {
        NewJob {
            id: self.id,
            kind: self.kind.clone(),
            payload: self.payload.clone(),
            priority: self.priority,
            created_at: self.created_at,
            visible_at: self.visible_at,
            carry: self.carry.clone(),
            dedup_key: copy_text(&self.dedup_key),
        }
    }
}

/// Whether a priority number is a supported tier.
pub open spec fn supported_tier(priority: i16) -> bool {
    0 <= priority <= 2
}

impl NewJob {
    /// Reject a job whose priority is outside the supported tier range before it
    /// reaches storage. Adapters call this at the start of an enqueue so a direct
    /// store user who hand-builds a `NewJob` gets a typed [`Error`] rather than a
    /// backend-specific constraint violation (the PostgreSQL schema's `CHECK`).
    pub fn validate(&self) -> (r: Result<(), Error>)
        ensures
            r is Ok <==> supported_tier(self.priority),
            r matches Err(error) ==> error@ == ErrorView::InvalidPriority(self.priority),
    {
        if Priority::from_smallint(self.priority).is_none() {
            return Err(Error::InvalidPriority { priority: self.priority });
        }
        Ok(())
    }
}

/// A journal entry to append as part of settling a job.
///
/// Exactly one entry is written per execution and per applied merge, in the same
/// transaction as the job-row transition, so the journal is a hole-free per-job
/// event log.
#[derive(Debug)]
pub struct JournalAppend {
    /// The job's kind, denormalized so the journal is queryable without a join.
    pub kind: String,
    /// The run number this entry records.
    pub run_no: u32,
    /// When the entry is written.
    pub recorded_at: Timestamp,
    /// The recorded outcome.
    pub outcome: JournalOutcome,
    /// The run's conclusion, or on failure the error message.
    pub note: Option<String>,
    /// Structured evidence gathered during the run.
    pub attachment: Option<serde_json::Value>,
}

impl View for JournalAppend {
    type V = AppendView;

    open spec fn view(&self) -> AppendView {
        AppendView {
            kind: self.kind@,
            run_no: self.run_no,
            recorded_at: self.recorded_at,
            outcome: self.outcome,
            note: optional_text(self.note),
            attachment: self.attachment,
        }
    }
}

impl Clone for JournalAppend {
    fn clone(&self) -> (r: JournalAppend)
        ensures
            r@ == self@,
    {
        JournalAppend {
            kind: self.kind.clone(),
            run_no: self.run_no,
            recorded_at: self.recorded_at,
            outcome: self.outcome,
            note: copy_text(&self.note),
            attachment: copy_json(&self.attachment),
        }
    }
}

/// A guarded settlement of a claimed job: the lifecycle transition to apply.
///
/// Every settlement is applied only if the worker still holds the claim at its
/// epoch, so a slow or aborted handler cannot settle a job another worker has
/// reclaimed. This enum is the job-row transition itself; its journal entry rides
/// along as a [`JournalAppend`].
#[derive(Debug)]
pub enum Settlement {
    /// The run completed the job: move to `completed` and stamp `finished_at`.
    Complete {
        /// Terminal timestamp.
        finished_at: Timestamp,
    },
    /// A retryable failure: back to `pending`, eligible again at `visible_at`,
    /// with `failure_count` bumped and the carry persisted for the next run.
    Retry {
        /// When the job becomes eligible again (now + backoff).
        visible_at: Timestamp,
        /// The new failure count to store.
        failure_count: i32,
        /// The carried state to persist for the next run.
        carry: serde_json::Value,
    },
    /// A cooperative pause: back to `pending`, eligible at `visible_at`, carry
    /// persisted, no failure recorded.
    Pause {
        /// When the job becomes eligible again (now + resume_in).
        visible_at: Timestamp,
        /// The carried state to persist for the next run.
        carry: serde_json::Value,
    },
    /// A permanent give-up: move to `dead` and stamp `finished_at`.
    Dead {
        /// Terminal timestamp.
        finished_at: Timestamp,
        /// The new failure count to store.
        failure_count: i32,
    },
    /// A clean shutdown release: back to `pending`, eligible immediately, not a
    /// failure.
    Release {
        /// When the job becomes eligible again (typically now).
        visible_at: Timestamp,
    },
}

impl Settlement {
    /// Whether the settlement returns the job to the claimable set.
    pub open spec fn repends(self) -> bool {
        self is Retry || self is Pause || self is Release
    }
}

impl Clone for Settlement {
    fn clone(&self) -> (r: Settlement)
        ensures
            r == *self,
    {
        match self {
            Settlement::Complete { finished_at } => Settlement::Complete {
                finished_at: *finished_at,
            },
            Settlement::Retry { visible_at, failure_count, carry } => Settlement::Retry {
                visible_at: *visible_at,
                failure_count: *failure_count,
                carry: carry.clone(),
            },
            Settlement::Pause { visible_at, carry } => Settlement::Pause {
                visible_at: *visible_at,
                carry: carry.clone(),
            },
            Settlement::Dead { finished_at, failure_count } => Settlement::Dead {
                finished_at: *finished_at,
                failure_count: *failure_count,
            },
            Settlement::Release { visible_at } => Settlement::Release { visible_at: *visible_at },
        }
    }
}

/// The new payload, carry, and priority to write when applying a Replace or With
/// merge.
#[derive(Debug)]
pub struct MergePayload {
    /// The serialized payload the surviving job should carry.
    pub payload: serde_json::Value,
    /// The serialized carry the surviving job should continue from.
    pub carry: serde_json::Value,
    /// The priority tier of the superseding task, so claim ordering follows the
    /// merged-in work rather than the row it replaced.
    pub priority: i16,
}

impl Clone for MergePayload {
    fn clone(&self) -> (r: MergePayload)
        ensures
            r == *self,
    {
        MergePayload {
            payload: self.payload.clone(),
            carry: self.carry.clone(),
            priority: self.priority,
        }
    }
}

/// A filter for the history query: every set field narrows the result, and the
/// unset fields are unconstrained.
#[derive(Debug)]
pub struct HistoryFilter {
    /// Restrict to one task kind.
    pub kind: Option<String>,
    /// Restrict to one lifecycle status.
    pub status: Option<Status>,
    /// Only jobs that reached a terminal state at or after this time.
    pub finished_since: Option<Timestamp>,
    /// Only jobs that reached a terminal state strictly before this time.
    pub finished_until: Option<Timestamp>,
    /// Keyset cursor for stable pagination. Returns only jobs ordered strictly
    /// after the given `(created_at, id)` under the query's `created_at DESC,
    /// id DESC` order, that is, older than the cursor. `None` starts from the
    /// most recent job. Paired with `limit`, this walks history in pages that
    /// stay correct as rows are inserted or removed between requests, unlike an
    /// offset.
    pub created_before: Option<(Timestamp, ulid::Ulid)>,
    /// Cap the number of rows returned (most recently created first).
    pub limit: Option<i64>,
}

/// A [`HistoryFilter`] with its text as a character sequence.
pub struct FilterView {
    /// See [`HistoryFilter::kind`].
    pub kind: Option<Seq<char>>,
    /// See [`HistoryFilter::status`].
    pub status: Option<Status>,
    /// See [`HistoryFilter::finished_since`].
    pub finished_since: Option<Timestamp>,
    /// See [`HistoryFilter::finished_until`].
    pub finished_until: Option<Timestamp>,
    /// See [`HistoryFilter::created_before`].
    pub created_before: Option<(Timestamp, ulid::Ulid)>,
    /// See [`HistoryFilter::limit`].
    pub limit: Option<i64>,
}

impl View for HistoryFilter {
    type V = FilterView;

    open spec fn view(&self) -> FilterView {
        FilterView {
            kind: optional_text(self.kind),
            status: self.status,
            finished_since: self.finished_since,
            finished_until: self.finished_until,
            created_before: self.created_before,
            limit: self.limit,
        }
    }
}

impl Default for HistoryFilter {
    /// The filter that constrains nothing.
    fn default() -> (r: HistoryFilter)
        ensures
            r@ == (FilterView {
                kind: None,
                status: None,
                finished_since: None,
                finished_until: None,
                created_before: None,
                limit: None,
            }),
    {
        HistoryFilter {
            kind: None,
            status: None,
            finished_since: None,
            finished_until: None,
            created_before: None,
            limit: None,
        }
    }
}

impl Clone for HistoryFilter {
    fn clone(&self) -> (r: HistoryFilter)
        ensures
            r@ == self@,
    {
        HistoryFilter {
            kind: copy_text(&self.kind),
            status: self.status,
            finished_since: self.finished_since,
            finished_until: self.finished_until,
            created_before: match &self.created_before {
                Some((created_at, id)) => Some((*created_at, *id)),
                None => None,
            },
            limit: self.limit,
        }
    }
}

/// Criteria for bulk cleanup: which terminal jobs to delete.
///
/// Only terminal jobs (those with a `finished_at`) are eligible, and removing a
/// job cascades to its journal.
#[derive(Debug)]
pub struct CleanupCriteria {
    /// Delete jobs whose `finished_at` is strictly before this time.
    pub finished_before: Timestamp,
    /// Restrict deletion to one kind.
    pub kind: Option<String>,
    /// Restrict deletion to one terminal status (`Completed` or `Dead`); `None`
    /// deletes both.
    pub status: Option<Status>,
}

/// A [`CleanupCriteria`] with its text as a character sequence.
pub struct CriteriaView {
    /// See [`CleanupCriteria::finished_before`].
    pub finished_before: Timestamp,
    /// See [`CleanupCriteria::kind`].
    pub kind: Option<Seq<char>>,
    /// See [`CleanupCriteria::status`].
    pub status: Option<Status>,
}

impl View for CleanupCriteria {
    type V = CriteriaView;

    open spec fn view(&self) -> CriteriaView {
        CriteriaView {
            finished_before: self.finished_before,
            kind: optional_text(self.kind),
            status: self.status,
        }
    }
}

impl Clone for CleanupCriteria {
    fn clone(&self) -> (r: CleanupCriteria)
        ensures
            r@ == self@,
    {
        CleanupCriteria {
            finished_before: self.finished_before,
            kind: copy_text(&self.kind),
            status: self.status,
        }
    }
}

/// A point-in-time snapshot of live queue state, from on-demand aggregates.
#[derive(Debug)]
pub struct Snapshot {
    /// Backlog depth per kind: the number of pending jobs.
    pub pending_by_kind: KindMap<u64>,
    /// The age of the oldest pending job per kind, measured from its enqueue time.
    pub oldest_pending_age: KindMap<Duration>,
    /// The number of jobs currently claimed (in flight across the system).
    pub claimed: u64,
    /// The number of dead jobs per kind.
    pub dead_by_kind: KindMap<u64>,
}

impl Default for Snapshot {
    /// The snapshot of an empty queue.
    fn default() -> (r: Snapshot)
        ensures
            r.pending_by_kind@ == Map::<Seq<char>, u64>::empty(),
            r.oldest_pending_age@ == Map::<Seq<char>, Duration>::empty(),
            r.claimed == 0,
            r.dead_by_kind@ == Map::<Seq<char>, u64>::empty(),
    {
        Snapshot {
            pending_by_kind: KindMap::new(),
            oldest_pending_age: KindMap::new(),
            claimed: 0,
            dead_by_kind: KindMap::new(),
        }
    }
}

impl Clone for Snapshot {
    fn clone(&self) -> (r: Snapshot)
        ensures
            r.pending_by_kind@ == self.pending_by_kind@,
            r.oldest_pending_age@ == self.oldest_pending_age@,
            r.claimed == self.claimed,
            r.dead_by_kind@ == self.dead_by_kind@,
    {
        Snapshot {
            pending_by_kind: self.pending_by_kind.clone(),
            oldest_pending_age: self.oldest_pending_age.clone(),
            claimed: self.claimed,
            dead_by_kind: self.dead_by_kind.clone(),
        }
    }
}

/// A job is taken exactly when its number is some tier's.
pub proof fn every_tier_and_no_other_is_taken(
    job: &NewJob,
    r: Result<(), Error>,
    priority: Priority,
)
    requires
        call_ensures(NewJob::validate, (job,), r),
    ensures
        job.priority == priority.tier() ==> r is Ok,
        r is Ok ==> job.priority == Priority::High.tier() || job.priority
            == Priority::Normal.tier() || job.priority == Priority::Low.tier(),
{
}

/// A carry that was saved is handed back as it was, and only a null one starts afresh.
pub proof fn saved_carries_are_handed_back(carry: serde_json::Value, r: StoredCarry)
    requires
        call_ensures(stored_carry, (carry,), r),
    ensures
        r is Initial <==> json_is_null(carry),
        r matches StoredCarry::Saved(kept) ==> kept == carry,
{
}

/// A filter's view has each of its fields, and so has a cleanup's.
pub proof fn filters_are_seen_whole(filter: HistoryFilter, criteria: CleanupCriteria)
    ensures
        filter@.kind == optional_text(filter.kind) && filter@.status == filter.status,
        filter@.finished_since == filter.finished_since && filter@.finished_until
            == filter.finished_until,
        filter@.created_before == filter.created_before && filter@.limit == filter.limit,
        criteria@.finished_before == criteria.finished_before,
        criteria@.kind == optional_text(criteria.kind) && criteria@.status == criteria.status,
{
}

} // verus!
