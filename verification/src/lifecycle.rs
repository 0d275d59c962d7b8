//! The job lifecycle as a state machine over stored jobs and their journal.
//!
//! Each storage operation is a transition of [`QueueState`]: what it does to the
//! jobs and the journal, and when its guard refuses it. The promises the queue
//! makes about every state follow from these transitions and are proved here: a
//! claim takes the most urgent oldest eligible job, a stale run cannot settle a
//! claim that moved on, the journal has no holes, and only terminal jobs are
//! removed.
use crate::instants::{elapsed, instant_after, Duration, Timestamp};
use crate::store::{
    AppendView, CriteriaView, FilterView, JobView, JournalView, MergePayload, NewJobView,
    Settlement, Snapshot, Status,
};
use vstd::prelude::*;

verus! {

/// Everything a queue's storage holds.
#[verifier::ext_equal]
pub struct QueueState {
    /// The jobs, by identity.
    pub jobs: Map<ulid::Ulid, JobView>,
    /// The journal, in the order it was written.
    pub journal: Seq<JournalView>,
    /// The identity the next journal entry gets.
    pub next_entry: i64,
}

/// Whether a job's row agrees with its lifecycle state: the claim columns are set
/// exactly while it is claimed, and the finish time exactly once it is terminal.
pub open spec fn row_agrees(job: JobView) -> bool {
    &&& job.claimed_by is Some <==> job.status is Claimed
    &&& job.claim_expires_at is Some <==> job.status is Claimed
    &&& job.finished_at is Some <==> job.status.terminal()
}

impl QueueState {
    /// What holds of every state the queue reaches: jobs are filed under their own
    /// identity, each row agrees with its lifecycle state, journal entries belong
    /// to stored jobs, and entry identities ascend.
    pub open spec fn valid(self) -> bool {
        &&& forall|id: ulid::Ulid| #[trigger]
            self.jobs.contains_key(id) ==> self.jobs[id].id == id && row_agrees(self.jobs[id])
        &&& forall|i: int|
            0 <= i < self.journal.len() ==> self.jobs.contains_key(
                (#[trigger] self.journal[i]).job_id,
            )
        &&& forall|i: int, j: int|
            0 <= i < j < self.journal.len() ==> (#[trigger] self.journal[i]).id < (
            #[trigger] self.journal[j]).id
        &&& forall|i: int|
            0 <= i < self.journal.len() ==> (#[trigger] self.journal[i]).id < self.next_entry
    }

    /// Replace one job's row.
    pub open spec fn with_job(self, job: JobView) -> QueueState {
        QueueState { jobs: self.jobs.insert(job.id, job), ..self }
    }

    /// Append a journal entry to a job.
    pub open spec fn appended(self, id: ulid::Ulid, entry: AppendView) -> QueueState {
        QueueState {
            journal: self.journal.push(JournalView { id: self.next_entry, job_id: id, entry }),
            next_entry: (self.next_entry + 1) as i64,
            ..self
        }
    }
}

/// The row a new job starts as.
pub open spec fn fresh_row(job: NewJobView) -> JobView {
    JobView {
        id: job.id,
        kind: job.kind,
        payload: job.payload,
        priority: job.priority,
        status: Status::Pending,
        created_at: job.created_at,
        visible_at: job.visible_at,
        claim_expires_at: None,
        claimed_by: None,
        finished_at: None,
        run_count: 0,
        failure_count: 0,
        carry: job.carry,
        dedup_key: job.dedup_key,
    }
}

/// Whether `kind` is among `kinds`.
pub open spec fn names_kind(kinds: Seq<Seq<char>>, kind: Seq<char>) -> bool {
    exists|i: int| 0 <= i < kinds.len() && #[trigger] kinds[i] == kind
}

/// Whether a job is eligible to be claimed now: pending, visible, of one of the
/// kinds, and no more urgent than the floor.
pub open spec fn claimable(
    job: JobView,
    kinds: Seq<Seq<char>>,
    floor: i16,
    now: Timestamp,
) -> bool {
    &&& job.status is Pending
    &&& job.visible_at.nanos() <= now.nanos()
    &&& job.priority >= floor
    &&& names_kind(kinds, job.kind)
}

/// Whether `a` was created before `b`, an equal time decided by identity.
pub open spec fn older(a: JobView, b: JobView) -> bool {
    a.created_at.nanos() < b.created_at.nanos() || (a.created_at.nanos() == b.created_at.nanos()
        && a.id.0 < b.id.0)
}

/// Whether `a` is claimed ahead of `b`: the more urgent tier first, then the older
/// job.
pub open spec fn claimed_ahead(a: JobView, b: JobView) -> bool {
    a.priority < b.priority || (a.priority == b.priority && older(a, b))
}

/// Whether `id` is the job a claim takes: eligible, and ahead of every other
/// eligible job.
pub open spec fn claims_next(
    state: QueueState,
    kinds: Seq<Seq<char>>,
    floor: i16,
    now: Timestamp,
    id: ulid::Ulid,
) -> bool {
    &&& state.jobs.contains_key(id)
    &&& claimable(state.jobs[id], kinds, floor, now)
    &&& forall|other: ulid::Ulid| #[trigger]
        state.jobs.contains_key(other) && other != id && claimable(
            state.jobs[other],
            kinds,
            floor,
            now,
        ) ==> claimed_ahead(state.jobs[id], state.jobs[other])
}

/// Whether no job is eligible.
pub open spec fn nothing_claimable(
    state: QueueState,
    kinds: Seq<Seq<char>>,
    floor: i16,
    now: Timestamp,
) -> bool {
    forall|id: ulid::Ulid| #[trigger]
        state.jobs.contains_key(id) ==> !claimable(state.jobs[id], kinds, floor, now)
}

/// The row of a job once claimed: held by `by` until the lease expires, one run
/// further.
pub open spec fn claimed_row(
    job: JobView,
    now: Timestamp,
    lease: Duration,
    by: Seq<char>,
) -> JobView {
    JobView {
        status: Status::Claimed,
        claimed_by: Some(by),
        claim_expires_at: Some(instant_after(now, lease)),
        run_count: (job.run_count + 1) as u32,
        ..job
    }
}

/// Whether `by` still holds the claim on a job at the claim epoch `run_no`.
pub open spec fn holds_claim(job: JobView, by: Seq<char>, run_no: u32) -> bool {
    job.status is Claimed && job.claimed_by == Some(by) && job.run_count == run_no
}

/// Whether a claim's lease has run out.
pub open spec fn lease_expired(job: JobView, now: Timestamp) -> bool {
    job.status is Claimed && (job.claim_expires_at matches Some(expiry) && expiry.nanos()
        < now.nanos())
}

/// A row with its claim columns cleared.
pub open spec fn unclaimed(job: JobView) -> JobView {
    JobView { claimed_by: None, claim_expires_at: None, ..job }
}

/// The row of a claimed job once the settlement is applied.
pub open spec fn settled_row(job: JobView, settlement: Settlement) -> JobView {
    let job = unclaimed(job);
    match settlement {
        Settlement::Complete { finished_at } => JobView {
            status: Status::Completed,
            finished_at: Some(finished_at),
            ..job
        },
        Settlement::Retry { visible_at, failure_count, carry } => JobView {
            status: Status::Pending,
            visible_at,
            failure_count,
            carry,
            ..job
        },
        Settlement::Pause { visible_at, carry } => JobView {
            status: Status::Pending,
            visible_at,
            carry,
            ..job
        },
        Settlement::Dead { finished_at, failure_count } => JobView {
            status: Status::Dead,
            finished_at: Some(finished_at),
            failure_count,
            ..job
        },
        Settlement::Release { visible_at } => JobView { status: Status::Pending, visible_at, ..job },
    }
}

/// The row of a stale claim once recovered: pending again, as a failure.
pub open spec fn recovered_row(job: JobView, visible_at: Timestamp, failure_count: i32) -> JobView {
    JobView { status: Status::Pending, visible_at, failure_count, ..unclaimed(job) }
}

/// The row of a pending job once a merge is applied; `None` leaves it untouched.
pub open spec fn merged_row(job: JobView, update: Option<MergePayload>) -> JobView {
    match update {
        Some(update) => JobView {
            payload: update.payload,
            carry: update.carry,
            priority: update.priority,
            ..job
        },
        None => job,
    }
}

/// Enqueue: file a fresh pending row.
pub open spec fn enqueue_step(state: QueueState, job: NewJobView) -> QueueState {
    state.with_job(fresh_row(job))
}

/// Claim: mark the job claimed.
pub open spec fn claim_step(
    state: QueueState,
    id: ulid::Ulid,
    now: Timestamp,
    lease: Duration,
    by: Seq<char>,
) -> QueueState {
    state.with_job(claimed_row(state.jobs[id], now, lease, by))
}

/// Whether a settlement applies: its run still holds the claim.
pub open spec fn settle_applies(
    state: QueueState,
    id: ulid::Ulid,
    by: Seq<char>,
    run_no: u32,
) -> bool {
    state.jobs.contains_key(id) && holds_claim(state.jobs[id], by, run_no)
}

/// Settle: apply the transition and its journal entry, or nothing at all when the
/// claim moved on.
pub open spec fn settle_step(
    state: QueueState,
    id: ulid::Ulid,
    by: Seq<char>,
    run_no: u32,
    settlement: Settlement,
    entry: AppendView,
) -> QueueState {
    if settle_applies(state, id, by, run_no) {
        state.with_job(settled_row(state.jobs[id], settlement)).appended(id, entry)
    } else {
        state
    }
}

/// Whether a recovery applies: the claim it saw is still there, and expired.
pub open spec fn recover_applies(
    state: QueueState,
    id: ulid::Ulid,
    run_no: u32,
    now: Timestamp,
) -> bool {
    state.jobs.contains_key(id) && lease_expired(state.jobs[id], now) && state.jobs[id].run_count
        == run_no
}

/// Recover: re-pend a stale claim and journal it, or nothing at all when the claim
/// moved on.
pub open spec fn recover_step(
    state: QueueState,
    id: ulid::Ulid,
    visible_at: Timestamp,
    failure_count: i32,
    run_no: u32,
    entry: AppendView,
    now: Timestamp,
) -> QueueState {
    if recover_applies(state, id, run_no, now) {
        state.with_job(recovered_row(state.jobs[id], visible_at, failure_count)).appended(id, entry)
    } else {
        state
    }
}

/// Extend: move the lease's end of a claim the run still holds.
pub open spec fn extend_step(
    state: QueueState,
    id: ulid::Ulid,
    by: Seq<char>,
    run_no: u32,
    lease: Duration,
    now: Timestamp,
) -> QueueState {
    if settle_applies(state, id, by, run_no) {
        state.with_job(
            JobView { claim_expires_at: Some(instant_after(now, lease)), ..state.jobs[id] },
        )
    } else {
        state
    }
}

/// Whether a merge applies: its candidate is still pending.
pub open spec fn merge_applies(state: QueueState, id: ulid::Ulid) -> bool {
    state.jobs.contains_key(id) && state.jobs[id].status is Pending
}

/// Merge: rewrite the pending candidate as decided and journal it, or nothing at
/// all when it is no longer pending.
pub open spec fn merge_step(
    state: QueueState,
    id: ulid::Ulid,
    update: Option<MergePayload>,
    entry: AppendView,
) -> QueueState {
    if merge_applies(state, id) {
        state.with_job(merged_row(state.jobs[id], update)).appended(id, entry)
    } else {
        state
    }
}

/// Whether a cleanup removes a job.
pub open spec fn cleaned_up(job: JobView, criteria: CriteriaView) -> bool {
    &&& job.finished_at matches Some(finished) && finished.nanos()
        < criteria.finished_before.nanos()
    &&& criteria.kind matches Some(kind) ==> job.kind == kind
    &&& criteria.status matches Some(status) ==> job.status == status
}

/// The jobs a cleanup removes.
pub open spec fn cleaned_ids(state: QueueState, criteria: CriteriaView) -> Set<ulid::Ulid> {
    Set::new(
        |id: ulid::Ulid| state.jobs.contains_key(id) && cleaned_up(state.jobs[id], criteria),
    )
}

/// The journal without the entries of the given jobs.
pub open spec fn journal_without(
    journal: Seq<JournalView>,
    gone: Set<ulid::Ulid>,
) -> Seq<JournalView>
    decreases journal.len(),
{
    if journal.len() == 0 {
        Seq::empty()
    } else {
        let rest = journal_without(journal.drop_last(), gone);
        if gone.contains(journal.last().job_id) {
            rest
        } else {
            rest.push(journal.last())
        }
    }
}

/// Cleanup: remove the matching jobs, and their journal entries with them.
pub open spec fn cleanup_step(state: QueueState, criteria: CriteriaView) -> QueueState {
    QueueState {
        jobs: state.jobs.remove_keys(cleaned_ids(state, criteria)),
        journal: journal_without(state.journal, cleaned_ids(state, criteria)),
        ..state
    }
}

/// The journal entries of one job, in order.
pub open spec fn journal_of(journal: Seq<JournalView>, id: ulid::Ulid) -> Seq<JournalView>
    decreases journal.len(),
{
    if journal.len() == 0 {
        Seq::empty()
    } else {
        let rest = journal_of(journal.drop_last(), id);
        if journal.last().job_id == id {
            rest.push(journal.last())
        } else {
            rest
        }
    }
}

/// Whether a job passes a history filter, its limit aside.
pub open spec fn passes(job: JobView, filter: FilterView) -> bool {
    &&& filter.kind matches Some(kind) ==> job.kind == kind
    &&& filter.status matches Some(status) ==> job.status == status
    &&& filter.finished_since matches Some(since) ==> (job.finished_at matches Some(finished)
        && finished.nanos() >= since.nanos())
    &&& filter.finished_until matches Some(until) ==> (job.finished_at matches Some(finished)
        && finished.nanos() < until.nanos())
    &&& filter.created_before matches Some((created, id)) ==> (job.created_at.nanos()
        < created.nanos() || (job.created_at.nanos() == created.nanos() && job.id.0 < id.0))
}

/// The most rows a filter returns; `None` for no limit. A negative limit returns
/// none.
pub open spec fn row_limit(filter: FilterView) -> Option<int> {
    match filter.limit {
        Some(limit) => Some(
            if limit < 0 {
                0
            } else {
                limit as int
            },
        ),
        None => None,
    }
}

/// Whether a page lists a job.
pub open spec fn lists(page: Seq<JobView>, job: JobView) -> bool {
    exists|i: int| 0 <= i < page.len() && #[trigger] page[i] == job
}

/// Whether `page` is the answer to a history query: the newest passing jobs,
/// newest first, as many as the limit allows.
pub open spec fn history_page(state: QueueState, filter: FilterView, page: Seq<JobView>) -> bool {
    &&& forall|i: int|
        0 <= i < page.len() ==> state.jobs.contains_key((#[trigger] page[i]).id)
            && state.jobs[page[i].id] == page[i] && passes(page[i], filter)
    &&& forall|i: int, j: int|
        0 <= i < j < page.len() ==> older(#[trigger] page[j], #[trigger] page[i])
    &&& row_limit(filter) matches Some(limit) ==> page.len() <= limit
    &&& forall|id: ulid::Ulid| #[trigger]
        state.jobs.contains_key(id) && passes(state.jobs[id], filter) && !lists(
            page,
            state.jobs[id],
        ) ==> row_limit(filter) == Some(page.len() as int) && forall|i: int|
            0 <= i < page.len() ==> older(state.jobs[id], #[trigger] page[i])
}

/// Whether a job is scheduled for the future among the kinds.
pub open spec fn scheduled(job: JobView, kinds: Seq<Seq<char>>, now: Timestamp) -> bool {
    job.status is Pending && job.visible_at.nanos() > now.nanos() && names_kind(kinds, job.kind)
}

/// Whether a job is a deduplication candidate for a kind and key.
pub open spec fn dedup_sibling(job: JobView, kind: Seq<char>, key: Seq<char>) -> bool {
    job.status is Pending && job.kind == kind && job.dedup_key == Some(key)
}

/// The jobs of a kind in a state.
pub open spec fn jobs_in(state: QueueState, kind: Seq<char>, status: Status) -> Set<ulid::Ulid> {
    Set::new(
        |id: ulid::Ulid|
            state.jobs.contains_key(id) && state.jobs[id].kind == kind && state.jobs[id].status
                == status,
    )
}

/// The jobs in a state.
pub open spec fn jobs_with(state: QueueState, status: Status) -> Set<ulid::Ulid> {
    Set::new(|id: ulid::Ulid| state.jobs.contains_key(id) && state.jobs[id].status == status)
}

/// Whether a count map gives the number of a kind's jobs in a state, and leaves the
/// kind out when it has none.
pub open spec fn counts_jobs(
    state: QueueState,
    counts: Map<Seq<char>, u64>,
    kind: Seq<char>,
    status: Status,
) -> bool {
    &&& jobs_in(state, kind, status).finite()
    &&& counts.contains_key(kind) <==> jobs_in(state, kind, status).len() > 0
    &&& counts.contains_key(kind) ==> counts[kind] == jobs_in(state, kind, status).len()
}

/// Whether `age` is the age of a kind's oldest pending job.
pub open spec fn oldest_age(
    state: QueueState,
    kind: Seq<char>,
    now: Timestamp,
    age: Duration,
) -> bool {
    &&& exists|id: ulid::Ulid| #[trigger]
        jobs_in(state, kind, Status::Pending).contains(id) && age.nanos() == elapsed(
            state.jobs[id].created_at.nanos(),
            now.nanos(),
        )
    &&& forall|id: ulid::Ulid| #[trigger]
        jobs_in(state, kind, Status::Pending).contains(id) ==> elapsed(
            state.jobs[id].created_at.nanos(),
            now.nanos(),
        ) <= age.nanos()
}

/// Whether a snapshot sums up a queue's state: the backlog and the dead per kind,
/// the oldest pending job's age per kind with a backlog, and the number in flight.
pub open spec fn snapshot_of(state: QueueState, now: Timestamp, snapshot: Snapshot) -> bool {
    &&& forall|kind: Seq<char>| #[trigger]
        counts_jobs(state, snapshot.pending_by_kind@, kind, Status::Pending)
    &&& forall|kind: Seq<char>| #[trigger]
        counts_jobs(state, snapshot.dead_by_kind@, kind, Status::Dead)
    &&& forall|kind: Seq<char>| #[trigger]
        snapshot.oldest_pending_age@.contains_key(kind)
            <==> snapshot.pending_by_kind@.contains_key(kind)
    &&& forall|kind: Seq<char>| #[trigger]
        snapshot.oldest_pending_age@.contains_key(kind) ==> oldest_age(
            state,
            kind,
            now,
            snapshot.oldest_pending_age@[kind],
        )
    &&& jobs_with(state, Status::Claimed).finite()
    &&& snapshot.claimed == jobs_with(state, Status::Claimed).len()
}

} // verus!
