//! The producer side: the deduplication-aware enqueue as a state machine.
//!
//! A [`Submission`] decides; the caller performs. A task that does not deduplicate,
//! or has no pending sibling, is inserted as a new job. Otherwise the task's merge
//! decision is applied to the oldest sibling; if that sibling was claimed in the
//! meantime, the task is inserted after all, so no work is lost.
use crate::instants::Timestamp;
use crate::lifecycle::{
    claimable, dedup_sibling, enqueue_step, merge_applies, merge_step, QueueState,
};
use crate::store::{
    copy_text, AppendView, JobRecord, JobView, JournalAppend, JournalOutcome, MergePayload, NewJob,
    NewJobView,
};
use crate::task::{DedupKey, Merge, Priority, Task};
use crate::text::optional_text;
use vstd::prelude::*;

verus! {

/// Build a brand-new pending job under a freshly drawn identity.
pub fn new_job(
    kind: &str,
    payload: serde_json::Value,
    priority: Priority,
    created_at: Timestamp,
    visible_at: Timestamp,
    carry: serde_json::Value,
    dedup_key: Option<String>,
) -> (r: NewJob)
    ensures
        r@ == (NewJobView {
            id: r.id,
            kind: kind@,
            payload,
            priority: priority.tier(),
            created_at,
            visible_at,
            carry,
            dedup_key: optional_text(dedup_key),
        }),
        call_ensures(ulid::Ulid::new, (), r.id),
{
    let id = ulid::Ulid::new();
    NewJob {
        id,
        kind: kind.to_owned(),
        payload,
        priority: priority.as_smallint(),
        created_at,
        visible_at,
        carry,
        dedup_key,
    }
}

/// What a task decided about the pending job it collided with, with the values to
/// write in stored form.
pub enum Decision {
    /// Not a duplicate after all.
    Independent,
    /// The incoming task is redundant.
    Keep,
    /// The pending job continues as this: the incoming task with a reset carry for
    /// a replacement, the computed task and carry for a merge.
    Supersede(MergePayload),
}

/// Whether a tier is the one a task asks for.
pub open spec fn asks_for_tier<T: Task>(task: T, tier: i16) -> bool {
    exists|priority: Priority|
        call_ensures(T::priority, (&task,), priority) && tier == #[trigger] priority.tier()
}

/// A merge decision, with the tier of the work that supersedes the pending job.
pub enum Resolution<T: Task> {
    /// Not a duplicate after all.
    Independent,
    /// The incoming task is redundant.
    Keep,
    /// The incoming task takes over, with the default carry.
    Replace {
        /// The incoming task's tier.
        priority: i16,
    },
    /// This work and carry take over.
    With {
        /// The task.
        task: T,
        /// The carry.
        carry: T::Carry,
        /// The task's tier.
        priority: i16,
    },
}

/// Resolve a merge decision: claim ordering follows the superseding work, so a
/// replacement takes the incoming task's tier and a merge the merged task's.
pub fn resolve<T: Task>(incoming: &T, decision: Merge<T>) -> (r: Resolution<T>)
    ensures
        match decision {
            Merge::Independent => r is Independent,
            Merge::Keep => r is Keep,
            Merge::Replace => r matches Resolution::Replace { priority } && asks_for_tier(
                *incoming,
                priority,
            ),
            Merge::With { task: merged, carry: kept } => r matches Resolution::With {
                task,
                carry,
                priority,
            } && task == merged && carry == kept && asks_for_tier(merged, priority),
        },
{
    match decision {
        Merge::Independent => Resolution::Independent,
        Merge::Keep => Resolution::Keep,
        Merge::Replace => {
            let asked = incoming.priority();
            Resolution::Replace { priority: asked.as_smallint() }
        },
        Merge::With { task, carry } => {
            let asked = task.priority();
            Resolution::With { priority: asked.as_smallint(), task, carry }
        },
    }
}

/// What a submission is waiting for.
pub enum Stage {
    /// The pending sibling, if there is one.
    Looking,
    /// The task's decision about this sibling.
    Deciding {
        /// The sibling.
        candidate: JobRecord,
    },
    /// The merge into this sibling.
    Merging {
        /// The sibling's identity.
        id: ulid::Ulid,
    },
    /// The insert of a new job.
    Inserting,
    /// Nothing: the submission is over.
    Finished,
}

/// A [`Stage`] with its texts as character sequences.
pub enum StageView {
    /// See [`Stage::Looking`].
    Looking,
    /// See [`Stage::Deciding`].
    Deciding { candidate: JobView },
    /// See [`Stage::Merging`].
    Merging { id: ulid::Ulid },
    /// See [`Stage::Inserting`].
    Inserting,
    /// See [`Stage::Finished`].
    Finished,
}

impl View for Stage {
    type V = StageView;

    open spec fn view(&self) -> StageView {
        match self {
            Stage::Looking => StageView::Looking,
            Stage::Deciding { candidate } => StageView::Deciding { candidate: candidate@ },
            Stage::Merging { id } => StageView::Merging { id: *id },
            Stage::Inserting => StageView::Inserting,
            Stage::Finished => StageView::Finished,
        }
    }
}

/// What happened to a submission.
pub enum Reply {
    /// The oldest pending sibling was looked up.
    Looked {
        /// The sibling.
        candidate: Option<JobRecord>,
    },
    /// The task decided.
    Decided {
        /// Its decision.
        decision: Decision,
        /// The current time.
        now: Timestamp,
    },
    /// The merge was attempted.
    Merged {
        /// Whether the sibling was still pending.
        applied: bool,
    },
    /// The new job was inserted.
    Inserted {
        /// Its identity.
        id: ulid::Ulid,
    },
}

/// What a submission asks for next.
pub enum Request {
    /// Look up the oldest pending job of the task's kind with this key.
    FindCandidate {
        /// The deduplication key.
        key: String,
    },
    /// Decode this pending job with its journal and ask the task to decide.
    Decide {
        /// The pending job.
        candidate: JobRecord,
    },
    /// Merge into a pending job.
    Merge {
        /// The pending job.
        id: ulid::Ulid,
        /// What to write; `None` leaves the job as it is.
        update: Option<MergePayload>,
        /// The journal entry of the merge.
        journal: JournalAppend,
    },
    /// Insert the task as a new job.
    Insert {
        /// Its deduplication key.
        dedup_key: Option<String>,
    },
    /// Return the identity of the surviving job.
    Return {
        /// The identity.
        id: ulid::Ulid,
    },
    /// Nothing: the reply does not belong to what the submission is waiting for.
    Nothing,
}

/// A [`Request`] with its texts as character sequences.
pub enum RequestView {
    /// See [`Request::FindCandidate`].
    FindCandidate { key: Seq<char> },
    /// See [`Request::Decide`].
    Decide { candidate: JobView },
    /// See [`Request::Merge`].
    Merge { id: ulid::Ulid, update: Option<MergePayload>, journal: AppendView },
    /// See [`Request::Insert`].
    Insert { dedup_key: Option<Seq<char>> },
    /// See [`Request::Return`].
    Return { id: ulid::Ulid },
    /// See [`Request::Nothing`].
    Nothing,
}

impl View for Request {
    type V = RequestView;

    open spec fn view(&self) -> RequestView {
        match self {
            Request::FindCandidate { key } => RequestView::FindCandidate { key: key@ },
            Request::Decide { candidate } => RequestView::Decide { candidate: candidate@ },
            Request::Merge { id, update, journal } => RequestView::Merge {
                id: *id,
                update: *update,
                journal: journal@,
            },
            Request::Insert { dedup_key } => RequestView::Insert {
                dedup_key: optional_text(*dedup_key),
            },
            Request::Return { id } => RequestView::Return { id: *id },
            Request::Nothing => RequestView::Nothing,
        }
    }
}

/// What a submission knows.
pub struct SubmissionView {
    /// The task's deduplication key.
    pub key: Option<Seq<char>>,
    /// What the submission is waiting for.
    pub stage: StageView,
}

/// The journal entry of a merge into a pending job.
pub open spec fn merge_entry(candidate: JobView, now: Timestamp) -> AppendView {
    AppendView {
        kind: candidate.kind,
        run_no: candidate.run_count,
        recorded_at: now,
        outcome: JournalOutcome::Merged,
        note: Some("enqueue merged into pending job"@),
        attachment: None,
    }
}

/// How a submission begins: with a lookup when the task deduplicates, with an
/// insert otherwise.
pub open spec fn begun(key: Option<Seq<char>>) -> (SubmissionView, RequestView) {
    match key {
        Some(text) => (
            SubmissionView { key, stage: StageView::Looking },
            RequestView::FindCandidate { key: text },
        ),
        None => (
            SubmissionView { key, stage: StageView::Inserting },
            RequestView::Insert { dedup_key: None },
        ),
    }
}

/// A submission that inserts its task next.
pub open spec fn inserts(key: Option<Seq<char>>) -> (SubmissionView, RequestView) {
    (SubmissionView { key, stage: StageView::Inserting }, RequestView::Insert { dedup_key: key })
}

/// A submission that merges into a pending job next.
pub open spec fn merges(
    key: Option<Seq<char>>,
    candidate: JobView,
    update: Option<MergePayload>,
    now: Timestamp,
) -> (SubmissionView, RequestView) {
    (
        SubmissionView { key, stage: StageView::Merging { id: candidate.id } },
        RequestView::Merge { id: candidate.id, update, journal: merge_entry(candidate, now) },
    )
}

/// A submission that ends with a surviving job.
pub open spec fn ends(key: Option<Seq<char>>, id: ulid::Ulid) -> (SubmissionView, RequestView) {
    (SubmissionView { key, stage: StageView::Finished }, RequestView::Return { id })
}

/// One step of a submission.
pub open spec fn replied(before: SubmissionView, reply: Reply) -> (SubmissionView, RequestView) {
    match (before.stage, reply) {
        (StageView::Looking, Reply::Looked { candidate }) => match candidate {
            Some(candidate) => (
                SubmissionView {
                    stage: StageView::Deciding { candidate: candidate@ },
                    ..before
                },
                RequestView::Decide { candidate: candidate@ },
            ),
            None => inserts(before.key),
        },
        (StageView::Deciding { candidate }, Reply::Decided { decision, now }) => match decision {
            Decision::Independent => inserts(before.key),
            Decision::Keep => merges(before.key, candidate, None, now),
            Decision::Supersede(update) => merges(before.key, candidate, Some(update), now),
        },
        (StageView::Merging { id }, Reply::Merged { applied }) => if applied {
            ends(before.key, id)
        } else {
            inserts(before.key)
        },
        (StageView::Inserting, Reply::Inserted { id }) => ends(before.key, id),
        _ => (before, RequestView::Nothing),
    }
}

/// The enqueue of one task.
pub struct Submission {
    key: Option<String>,
    stage: Stage,
}

impl View for Submission {
    type V = SubmissionView;

    closed spec fn view(&self) -> SubmissionView {
        SubmissionView { key: optional_text(self.key), stage: self.stage@ }
    }
}

impl Submission {
    /// Begin to enqueue a task with the given deduplication key.
    pub fn begin(dedup_key: Option<DedupKey>) -> (r: (Submission, Request))
        ensures
            (r.0@, r.1@) == begun(
                match dedup_key {
                    Some(key) => Some(key@),
                    None => None,
                },
            ),
    {
        match dedup_key {
            Some(key) => {
                let key = key.into_string();
                let asked = key.clone();
                (
                    Submission { key: Some(key), stage: Stage::Looking },
                    Request::FindCandidate { key: asked },
                )
            },
            None => (
                Submission { key: None, stage: Stage::Inserting },
                Request::Insert { dedup_key: None },
            ),
        }
    }

    fn insert(&mut self) -> (r: Request)
        ensures
            (final(self)@, r@) == inserts(old(self)@.key),
    {
        self.stage = Stage::Inserting;
        Request::Insert { dedup_key: copy_text(&self.key) }
    }

    /// Merge into the candidate, recording a `merged` journal entry.
    fn apply_merge(
        &mut self,
        candidate: JobRecord,
        update: Option<MergePayload>,
        now: Timestamp,
    ) -> (r: Request)
        ensures
            (final(self)@, r@) == merges(old(self)@.key, candidate@, update, now),
    {
        self.stage = Stage::Merging { id: candidate.id };
        Request::Merge {
            id: candidate.id,
            update,
            journal: JournalAppend {
                kind: candidate.kind,
                run_no: candidate.run_count,
                recorded_at: now,
                outcome: JournalOutcome::Merged,
                note: Some("enqueue merged into pending job".to_owned()),
                attachment: None,
            },
        }
    }

    /// Take one step: from what happened to what to do next.
    pub fn step(&mut self, reply: Reply) -> (r: Request)
        ensures
            (final(self)@, r@) == replied(old(self)@, reply),
    {
        let mut stage = Stage::Finished;
        std::mem::swap(&mut stage, &mut self.stage);
        match (stage, reply) {
            (Stage::Looking, Reply::Looked { candidate }) => match candidate {
                Some(candidate) => {
                    let asked = candidate.clone();
                    self.stage = Stage::Deciding { candidate };
                    Request::Decide { candidate: asked }
                },
                None => self.insert(),
            },
            (Stage::Deciding { candidate }, Reply::Decided { decision, now }) => match decision {
                Decision::Independent => self.insert(),
                Decision::Keep => self.apply_merge(candidate, None, now),
                Decision::Supersede(update) => self.apply_merge(candidate, Some(update), now),
            },
            (Stage::Merging { id }, Reply::Merged { applied }) => {
                if applied {
                    self.stage = Stage::Finished;
                    Request::Return { id }
                } else {
                    self.insert()
                }
            },
            (Stage::Inserting, Reply::Inserted { id }) => {
                self.stage = Stage::Finished;
                Request::Return { id }
            },
            (stage, _) => {
                self.stage = stage;
                Request::Nothing
            },
        }
    }
}

/// A task without a deduplication key never coalesces: it is inserted as its own
/// job, whatever else is pending.
pub proof fn keyless_tasks_never_coalesce()
    ensures
        begun(None).1 == (RequestView::Insert { dedup_key: None }),
{
}

/// No work is lost: when the sibling was claimed before the merge, the storage is
/// unchanged and the task is inserted as a new job under the same key.
pub proof fn refused_merge_falls_back_to_insert(
    state: QueueState,
    before: SubmissionView,
    id: ulid::Ulid,
    update: Option<MergePayload>,
    entry: AppendView,
)
    requires
        before.stage == (StageView::Merging { id }),
        !merge_applies(state, id),
    ensures
        merge_step(state, id, update, entry) == state,
        replied(before, Reply::Merged { applied: false }).1 == (RequestView::Insert {
            dedup_key: before.key,
        }),
{
}

/// A submission ends only with a job that is stored: the sibling it merged into, or
/// the job it inserted.
pub proof fn submissions_end_with_one_write(before: SubmissionView, reply: Reply, id: ulid::Ulid)
    requires
        replied(before, reply).1 == (RequestView::Return { id }),
    ensures
        (before.stage == (StageView::Merging { id }) && reply == (Reply::Merged { applied: true }))
            || (before.stage is Inserting && reply == (Reply::Inserted { id })),
{
}

/// Replacing or merging writes the superseding payload, carry, and priority to the
/// sibling and keeps its identity, so claim order follows the merged-in work.
pub proof fn superseding_work_takes_over(
    state: QueueState,
    candidate: JobView,
    update: MergePayload,
    now: Timestamp,
)
    requires
        state.valid(),
        merge_applies(state, candidate.id),
        state.jobs[candidate.id] == candidate,
    ensures
        ({
            let after = merge_step(
                state,
                candidate.id,
                Some(update),
                merge_entry(candidate, now),
            ).jobs[candidate.id];
            &&& after.payload == update.payload
            &&& after.carry == update.carry
            &&& after.priority == update.priority
            &&& after.id == candidate.id
            &&& after.run_count == candidate.run_count
            &&& after.visible_at == candidate.visible_at
        }),
{
}

/// An inserted job is at once a deduplication sibling for the next task of its kind
/// and key.
pub proof fn inserted_job_is_a_candidate(state: QueueState, job: NewJobView, key: Seq<char>)
    requires
        job.dedup_key == Some(key),
    ensures
        enqueue_step(state, job).jobs.contains_key(job.id),
        dedup_sibling(enqueue_step(state, job).jobs[job.id], job.kind, key),
{
}

/// A task is enqueued as it was submitted: under its kind, with its payload and carry, in
/// its tier, under its key, and claimable by a worker of its kind and tier from exactly the
/// time it is scheduled for.
pub proof fn submitted_work_is_claimable_when_due(
    kind: &str,
    payload: serde_json::Value,
    priority: Priority,
    created_at: Timestamp,
    visible_at: Timestamp,
    carry: serde_json::Value,
    dedup_key: Option<String>,
    job: NewJob,
    state: QueueState,
    kinds: Seq<Seq<char>>,
    floor: i16,
    now: Timestamp,
)
    requires
        call_ensures(
            new_job,
            (kind, payload, priority, created_at, visible_at, carry, dedup_key),
            job,
        ),
        kinds.contains(kind@),
        floor <= 0 || (floor == 1 && !(priority is High)) || (floor == 2 && priority is Low),
    ensures
        ({
            let row = enqueue_step(state, job@).jobs[job.id];
            &&& claimable(row, kinds, floor, now) <==> visible_at.nanos() <= now.nanos()
            &&& row.kind == kind@ && row.payload == payload && row.carry == carry
            &&& row.created_at == created_at && row.visible_at == visible_at
            &&& row.dedup_key == optional_text(dedup_key)
            &&& row.priority == (match priority {
                Priority::High => 0i16,
                Priority::Normal => 1i16,
                Priority::Low => 2i16,
            })
        }),
{
    let i = choose|i: int| 0 <= i < kinds.len() && kinds[i] == kind@;
    assert(kinds[i] == kind@);
}

/// A task with a key looks for its sibling under that key, puts the sibling it finds to the
/// task for a decision, and does what was decided to that sibling: nothing is written to
/// it for a task that is redundant, the superseding work is written for one that is not,
/// and a task that is no duplicate, or finds no sibling, is inserted under its key.
pub proof fn decisions_are_carried_out(before: SubmissionView, reply: Reply, key: Seq<char>)
    requires
        before.key == Some(key),
    ensures
        begun(Some(key)).1 == (RequestView::FindCandidate { key }),
        begun(Some(key)).0.stage is Looking && begun(Some(key)).0.key == Some(key),
        before.stage is Looking ==> (reply matches Reply::Looked { candidate: Some(found) } ==> {
            &&& replied(before, reply).1 == (RequestView::Decide { candidate: found@ })
            &&& replied(before, reply).0.stage == (StageView::Deciding { candidate: found@ })
        }),
        before.stage is Looking ==> (reply matches Reply::Looked { candidate: None } ==> replied(
            before,
            reply,
        ).1 == (RequestView::Insert { dedup_key: Some(key) })),
        before.stage matches StageView::Deciding { candidate } ==> (reply matches Reply::Decided {
            decision,
            now,
        } ==> match decision {
            Decision::Independent => replied(before, reply).1 == (RequestView::Insert {
                dedup_key: Some(key),
            }),
            Decision::Keep => replied(before, reply).1 matches RequestView::Merge {
                id,
                update,
                journal,
            } && id == candidate.id && update is None && entered(journal, candidate, now),
            Decision::Supersede(work) => replied(before, reply).1 matches RequestView::Merge {
                id,
                update,
                journal,
            } && id == candidate.id && update == Some(work) && entered(journal, candidate, now),
        }),
        before.stage matches StageView::Deciding { candidate } ==> (reply matches Reply::Decided {
            decision,
            ..
        } ==> !(decision is Independent) ==> replied(before, reply).0.stage == (
        StageView::Merging { id: candidate.id })),
        before.stage matches StageView::Merging { id } ==> (reply matches Reply::Merged { applied }
            ==> applied ==> replied(before, reply).1 == (RequestView::Return { id })),
        before.stage is Inserting ==> (reply matches Reply::Inserted { id } ==> replied(
            before,
            reply,
        ).1 == (RequestView::Return { id })),
        replied(before, reply).0.key == Some(key),
{
}

/// Whether a journal entry records a merge into a pending job: under the job's kind and the
/// number of its last run, at the given time, as no failure.
pub open spec fn entered(journal: AppendView, candidate: JobView, now: Timestamp) -> bool {
    &&& journal.kind == candidate.kind && journal.run_no == candidate.run_count
    &&& journal.recorded_at == now && journal.outcome is Merged && !journal.outcome.failed()
    &&& journal.attachment is None
}

/// The work that takes over brings its own tier: the incoming task's where it replaces the
/// pending one, the merged task's where the two are merged; and nothing takes over where
/// the incoming task is redundant or no duplicate.
pub proof fn superseding_work_brings_its_tier<T: Task>(
    incoming: &T,
    decision: Merge<T>,
    resolution: Resolution<T>,
)
    requires
        call_ensures(resolve::<T>, (incoming, decision), resolution),
    ensures
        decision is Keep <==> resolution is Keep,
        decision is Independent <==> resolution is Independent,
        resolution matches Resolution::Replace { priority } ==> decision is Replace
            && asks_for_tier(*incoming, priority),
        resolution matches Resolution::With { task, carry, priority } ==> (
        decision matches Merge::With { task: merged, carry: kept } && task == merged && carry
            == kept && asks_for_tier(merged, priority)),
{
}

} // verus!
