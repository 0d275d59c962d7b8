//! The per-run execution [`Context`] handed to a handler, and the [`JournalEntry`]
//! view it exposes over prior runs.
//!
//! A handler reads its run count and history, reads and mutates its carried
//! state, attaches structured evidence, and observes graceful shutdown, all
//! through the context. The carried state is persisted on both retry and pause;
//! the attachment rides this run's journal entry.
use crate::instants::Timestamp;
use crate::store::{copy_json, copy_text, JournalOutcome, JournalRecord};
use crate::text::optional_text;
use vstd::prelude::*;

verus! {

/// A cancellation token, opaque here: the run carries it and asks it whether
/// shutdown was signalled.
#[verifier::external_type_specification]
#[verifier::external_body]
pub struct ExCancellationToken(tokio_util::sync::CancellationToken);

/// A read-only view of one prior journal entry, as a handler sees its history.
///
/// This is the user-facing projection of a stored journal row: it drops storage
/// surrogates and exposes the run number, the outcome, the note, and any
/// attachment. A task's failure history is the subset whose
/// [`outcome`](JournalEntry::outcome) is a failure.
#[derive(Debug)]
pub struct JournalEntry {
    run_no: u32,
    recorded_at: Timestamp,
    outcome: JournalOutcome,
    note: Option<String>,
    attachment: Option<serde_json::Value>,
}

/// What a [`JournalEntry`] shows.
pub struct JournalEntryView {
    /// The run number.
    pub run_no: u32,
    /// When the entry was written.
    pub recorded_at: Timestamp,
    /// The recorded outcome.
    pub outcome: JournalOutcome,
    /// The note.
    pub note: Option<Seq<char>>,
    /// The attachment.
    pub attachment: Option<serde_json::Value>,
}

impl View for JournalEntry {
    type V = JournalEntryView;

    closed spec fn view(&self) -> JournalEntryView {
        JournalEntryView {
            run_no: self.run_no,
            recorded_at: self.recorded_at,
            outcome: self.outcome,
            note: optional_text(self.note),
            attachment: self.attachment,
        }
    }
}

impl JournalEntry {
    /// Project a stored journal record into the read-only view a handler sees.
    pub fn from_record(record: &JournalRecord) -> (r: JournalEntry)
        ensures
            r@ == shown_entry(*record),
    {
        JournalEntry {
            run_no: record.run_no,
            recorded_at: record.recorded_at,
            outcome: record.outcome,
            note: copy_text(&record.note),
            attachment: copy_json(&record.attachment),
        }
    }

    /// The run number this entry recorded.
    pub fn run_no(&self) -> (r: u32)
        ensures
            r == self@.run_no,
    {
        self.run_no
    }

    /// When the entry was written.
    pub fn recorded_at(&self) -> (r: Timestamp)
        ensures
            r == self@.recorded_at,
    {
        self.recorded_at
    }

    /// The recorded outcome.
    pub fn outcome(&self) -> (r: JournalOutcome)
        ensures
            r == self@.outcome,
    {
        self.outcome
    }

    /// The run's conclusion, or on failure the error message.
    pub fn note(&self) -> (r: Option<&str>)
        ensures
            r is Some <==> self@.note is Some,
            r matches Some(text) ==> self@.note == Some(text@),
    {
        match &self.note {
            Some(text) => Some(text.as_str()),
            None => None,
        }
    }

    /// Structured evidence attached during that run, if any.
    pub fn attachment(&self) -> (r: Option<&serde_json::Value>)
        ensures
            r is Some <==> self@.attachment is Some,
            r matches Some(value) ==> self@.attachment == Some(*value),
    {
        match &self.attachment {
            Some(value) => Some(value),
            None => None,
        }
    }

    /// Whether this entry records a failed execution.
    pub fn is_failure(&self) -> (r: bool)
        ensures
            r == self@.outcome.failed(),
    {
        self.outcome.is_failure()
    }
}

impl Clone for JournalEntry {
    fn clone(&self) -> (r: JournalEntry)
        ensures
            r@ == self@,
    {
        JournalEntry {
            run_no: self.run_no,
            recorded_at: self.recorded_at,
            outcome: self.outcome,
            note: copy_text(&self.note),
            attachment: copy_json(&self.attachment),
        }
    }
}

/// The entry a stored record shows.
pub open spec fn shown_entry(record: JournalRecord) -> JournalEntryView {
    JournalEntryView {
        run_no: record.run_no,
        recorded_at: record.recorded_at,
        outcome: record.outcome,
        note: optional_text(record.note),
        attachment: record.attachment,
    }
}

/// Project a job's stored journal into the history a handler or a merge sees.
pub fn history_from_records(records: Vec<JournalRecord>) -> (r: Vec<JournalEntry>)
    ensures
        r@.len() == records@.len(),
        forall|i: int| 0 <= i < r@.len() ==> (#[trigger] r@[i])@ == shown_entry(records@[i]),
{
    let mut history: Vec<JournalEntry> = Vec::new();
    let mut i: usize = 0;
    while i < records.len()
        invariant
            i <= records@.len(),
            history@.len() == i,
            forall|j: int| 0 <= j < i ==> (#[trigger] history@[j])@ == shown_entry(records@[j]),
        decreases records@.len() - i,
    {
        history.push(JournalEntry::from_record(&records[i]));
        i += 1;
    }
    history
}

/// The execution context for one run of a handler.
///
/// Generic over the task's `Carry` type. The worker builds it from the claimed
/// job (run count, prior journal, deserialized carry) and reads back the carry
/// and attachment after the run to settle the job.
pub struct Context<Carry> {
    id: ulid::Ulid,
    run_count: u32,
    history: Vec<JournalEntry>,
    carry: Carry,
    attachment: Option<serde_json::Value>,
    cancel: tokio_util::sync::CancellationToken,
}

/// What a [`Context`] holds.
pub struct ContextView<Carry> {
    /// The job's identity.
    pub id: ulid::Ulid,
    /// Executions so far, this one counted.
    pub run_count: u32,
    /// Prior journal entries.
    pub history: Seq<JournalEntry>,
    /// The carried state.
    pub carry: Carry,
    /// The attachment set so far.
    pub attachment: Option<serde_json::Value>,
    /// The shutdown token.
    pub cancel: tokio_util::sync::CancellationToken,
}

impl<Carry> View for Context<Carry> {
    type V = ContextView<Carry>;

    closed spec fn view(&self) -> ContextView<Carry> {
        ContextView {
            id: self.id,
            run_count: self.run_count,
            history: self.history@,
            carry: self.carry,
            attachment: self.attachment,
            cancel: self.cancel,
        }
    }
}

/// Asks a token whether it was cancelled:
/// `tokio_util::sync::CancellationToken::is_cancelled`. Any holder may cancel at
/// any time, so nothing is claimed of the answer.
pub assume_specification[ tokio_util::sync::CancellationToken::is_cancelled ](
    token: &tokio_util::sync::CancellationToken,
) -> bool
;

/// Another handle on a token: `tokio_util::sync::CancellationToken::clone`. Both
/// handles name one token, so they compare equal here.
#[verifier::external_body]
fn same_token(token: &tokio_util::sync::CancellationToken) -> (r: tokio_util::sync::CancellationToken)
    ensures
        r == *token,
{
    token.clone()
}

impl<Carry> Context<Carry> {
    /// Build a context for a run. Called by the worker, not by handlers.
    pub fn new(
        id: ulid::Ulid,
        run_count: u32,
        history: Vec<JournalEntry>,
        carry: Carry,
        cancel: tokio_util::sync::CancellationToken,
    ) -> (r: Context<Carry>)
        ensures
            r@ == (ContextView {
                id,
                run_count,
                history: history@,
                carry,
                attachment: None,
                cancel,
            }),
    {
        Context { id, run_count, history, carry, attachment: None, cancel }
    }

    /// The job's stable, globally unique identifier. The same id across every run
    /// of the job, so a handler can use it to correlate this execution with its own
    /// logs, traces, or downstream records.
    pub fn id(&self) -> (r: ulid::Ulid)
        ensures
            r == self@.id,
    {
        self.id
    }

    /// How many times this job has been executed, including the current run.
    pub fn run_count(&self) -> (r: u32)
        ensures
            r == self@.run_count,
    {
        self.run_count
    }

    /// Prior outcomes for this job. The failure count is the number of entries
    /// for which [`JournalEntry::is_failure`] holds.
    pub fn history(&self) -> (r: &[JournalEntry])
        ensures
            r@ == self@.history,
    {
        self.history.as_slice()
    }

    /// Read the carried state.
    pub fn carry(&self) -> (r: &Carry)
        ensures
            *r == self@.carry,
    {
        &self.carry
    }

    /// Mutate the carried state. The value is persisted for the next run on both
    /// retry and pause.
    pub fn carry_mut(&mut self) -> (r: &mut Carry)
        ensures
            *r == old(self)@.carry,
            final(self)@ == (ContextView { carry: *final(r), ..old(self)@ }),
    {
        &mut self.carry
    }

    /// Set the structured attachment for this run's journal entry. Last write
    /// wins, and it is recorded for any outcome including a failure.
    pub fn set_attachment(&mut self, value: serde_json::Value)
        ensures
            final(self)@ == (ContextView { attachment: Some(value), ..old(self)@ }),
    {
        self.attachment = Some(value);
    }

    /// Whether a graceful shutdown has been signalled. A long handler can poll
    /// this at a safe point and stop early, typically by returning `Pause`. The
    /// answer is the one the run's own token gives at the time of the call.
    pub fn is_cancelled(&self) -> (r: bool)
        ensures
            call_ensures(
                tokio_util::sync::CancellationToken::is_cancelled,
                (&self@.cancel,),
                r,
            ),
    {
        self.cancel.is_cancelled()
    }

    /// The run's cancellation token, cloned. Hand this to a child subsystem that
    /// takes a `CancellationToken` so it observes the same cancellation as the
    /// handler, for example by passing it into a nested executor's own
    /// cancellation seam. The token tracks the worker's graceful shutdown.
    pub fn cancellation_token(&self) -> (r: tokio_util::sync::CancellationToken)
        ensures
            r == self@.cancel,
    {
        same_token(&self.cancel)
    }

    /// Consume the context after a run, yielding the (possibly mutated) carry and
    /// attachment for settlement.
    pub fn into_parts(self) -> (r: (Carry, Option<serde_json::Value>))
        ensures
            r.0 == self@.carry,
            r.1 == self@.attachment,
    {
        (self.carry, self.attachment)
    }
}

/// A handler sees its job's journal as it is stored: the same entries in the same order,
/// each with its run number, time, outcome, note, and attachment.
pub proof fn handlers_see_the_stored_journal(
    records: Vec<JournalRecord>,
    history: Vec<JournalEntry>,
    i: int,
)
    requires
        call_ensures(history_from_records, (records,), history),
        0 <= i < records@.len(),
    ensures
        history@.len() == records@.len(),
        history@[i]@.run_no == records@[i].run_no,
        history@[i]@.recorded_at == records@[i].recorded_at,
        history@[i]@.outcome == records@[i].outcome,
        history@[i]@.note == optional_text(records@[i].note),
        history@[i]@.attachment == records@[i].attachment,
{
    assert(history@[i]@ == shown_entry(records@[i]));
}

/// A run's context gives back what the run was made with, and nothing is attached until the
/// handler attaches it.
pub proof fn a_context_gives_back_its_run<Carry>(
    id: ulid::Ulid,
    run_count: u32,
    history: Vec<JournalEntry>,
    carry: Carry,
    cancel: tokio_util::sync::CancellationToken,
    context: Context<Carry>,
    parts: (Carry, Option<serde_json::Value>),
)
    requires
        call_ensures(
            Context::<Carry>::new,
            (id, run_count, history, carry, cancel),
            context,
        ),
        call_ensures(Context::<Carry>::into_parts, (context,), parts),
    ensures
        context@.id == id && context@.run_count == run_count && context@.history == history@,
        context@.cancel == cancel,
        parts.0 == carry,
        parts.1 is None,
{
}

} // verus!
