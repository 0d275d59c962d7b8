//! An in-memory job store.
//!
//! It keeps the same promises as the database adapter: a claim picks the
//! highest-priority oldest eligible row for a registered kind above the priority
//! floor, settlement is guarded by claim ownership at the claim epoch and appends a
//! journal entry in the same step, and `visible_at` gates eligibility. The caller
//! passes the current time in.
use crate::error::{Error, ErrorView};
use crate::ids::same_id;
use crate::instants::{add_duration, elapsed, Duration, Timestamp};
use crate::lifecycle::{
    claim_step, claimable, claimed_ahead, claims_next, cleaned_ids, cleaned_up, cleanup_step,
    counts_jobs, dedup_sibling, enqueue_step, extend_step, fresh_row, history_page, journal_of,
    journal_without, jobs_in, jobs_with, lease_expired, lists, merge_applies, merge_step,
    names_kind, nothing_claimable, older, oldest_age, passes, recover_applies, recover_step,
    row_agrees, row_limit, scheduled, settle_applies, settle_step, snapshot_of, QueueState,
};
use crate::store::{
    copy_text, CleanupCriteria, FilterView, HistoryFilter, JobRecord, JobView, JournalAppend,
    JournalRecord, JournalView, MergePayload, NewJob, Settlement, Snapshot, Status,
};
use crate::text::{optional_text, text_eq, texts};
use vstd::prelude::*;

verus! {

/// Whether row `i` is the job `id`.
pub open spec fn row_of(rows: Seq<JobRecord>, i: int, id: ulid::Ulid) -> bool {
    0 <= i < rows.len() && rows[i].id == id
}

/// Whether no two rows share an identity.
pub open spec fn ids_distinct(rows: Seq<JobRecord>) -> bool {
    forall|i: int, j: int|
        0 <= i < j < rows.len() ==> (#[trigger] rows[i]).id != (#[trigger] rows[j]).id
}

/// The jobs the rows hold, by identity.
pub open spec fn job_table(rows: Seq<JobRecord>) -> Map<ulid::Ulid, JobView> {
    Map::new(
        |id: ulid::Ulid| exists|i: int| row_of(rows, i, id),
        |id: ulid::Ulid| rows[choose|i: int| row_of(rows, i, id)]@,
    )
}

/// The views of journal records.
pub open spec fn journal_views(records: Seq<JournalRecord>) -> Seq<JournalView> {
    Seq::new(records.len(), |i: int| records[i]@)
}

/// The views of job records.
pub open spec fn job_views(records: Seq<JobRecord>) -> Seq<JobView> {
    Seq::new(records.len(), |i: int| records[i]@)
}

proof fn lemma_row_is_filed(rows: Seq<JobRecord>, i: int)
    requires
        ids_distinct(rows),
        0 <= i < rows.len(),
    ensures
        job_table(rows).contains_key(rows[i].id),
        job_table(rows)[rows[i].id] == rows[i]@,
{
    let id = rows[i].id;
    assert(row_of(rows, i, id));
    let j = choose|j: int| row_of(rows, j, id);
    assert(i == j) by {
        if i < j {
            assert(rows[i].id != rows[j].id);
        } else if j < i {
            assert(rows[j].id != rows[i].id);
        }
    }
}

proof fn lemma_rows_are_filed(rows: Seq<JobRecord>)
    requires
        ids_distinct(rows),
    ensures
        forall|i: int|
            0 <= i < rows.len() ==> job_table(rows).contains_key((#[trigger] rows[i]).id)
                && job_table(rows)[rows[i].id] == rows[i]@,
        forall|id: ulid::Ulid| #[trigger]
            job_table(rows).contains_key(id) ==> exists|i: int| row_of(rows, i, id),
{
    assert forall|i: int| 0 <= i < rows.len() implies job_table(rows).contains_key(
        (#[trigger] rows[i]).id,
    ) && job_table(rows)[rows[i].id] == rows[i]@ by {
        lemma_row_is_filed(rows, i);
    }
}

proof fn lemma_row_set(rows: Seq<JobRecord>, at: int, row: JobRecord)
    requires
        ids_distinct(rows),
        row_of(rows, at, row.id),
    ensures
        ids_distinct(rows.update(at, row)),
        job_table(rows.update(at, row)) == job_table(rows).insert(row.id, row@),
{
    let after = rows.update(at, row);
    assert(ids_distinct(after));
    lemma_rows_are_filed(rows);
    lemma_rows_are_filed(after);
    let expected = job_table(rows).insert(row.id, row@);
    assert forall|id: ulid::Ulid|
        job_table(after).contains_key(id) == expected.contains_key(id) by {
        if job_table(after).contains_key(id) {
            let j = choose|j: int| row_of(after, j, id);
            assert(row_of(rows, j, id));
        }
        if expected.contains_key(id) {
            if id == row.id {
                assert(row_of(after, at, id));
            } else {
                let j = choose|j: int| row_of(rows, j, id);
                assert(row_of(after, j, id));
            }
        }
    }
    assert forall|id: ulid::Ulid| job_table(after).contains_key(id) implies job_table(after)[id]
        == expected[id] by {
        let j = choose|j: int| row_of(after, j, id);
        assert(job_table(after)[after[j].id] == after[j]@);
        if j == at {
            assert(after[j] == row);
        } else {
            assert(after[j] == rows[j]);
            assert(row_of(rows, j, id));
            assert(rows[j].id != row.id);
        }
    }
    assert(job_table(after) =~= expected);
}

proof fn lemma_row_pushed(rows: Seq<JobRecord>, row: JobRecord)
    requires
        ids_distinct(rows),
        !job_table(rows).contains_key(row.id),
    ensures
        ids_distinct(rows.push(row)),
        job_table(rows.push(row)) == job_table(rows).insert(row.id, row@),
{
    let after = rows.push(row);
    assert forall|i: int, j: int| 0 <= i < j < after.len() implies (#[trigger] after[i]).id != (
    #[trigger] after[j]).id by {
        if j == rows.len() {
            assert(row_of(rows, i, after[i].id));
        }
    }
    lemma_rows_are_filed(rows);
    lemma_rows_are_filed(after);
    let expected = job_table(rows).insert(row.id, row@);
    assert forall|id: ulid::Ulid|
        job_table(after).contains_key(id) == expected.contains_key(id) by {
        if job_table(after).contains_key(id) {
            let j = choose|j: int| row_of(after, j, id);
            if j < rows.len() {
                assert(row_of(rows, j, id));
            }
        }
        if expected.contains_key(id) {
            if id == row.id {
                assert(row_of(after, rows.len() as int, id));
            } else {
                let j = choose|j: int| row_of(rows, j, id);
                assert(row_of(after, j, id));
            }
        }
    }
    assert forall|id: ulid::Ulid| job_table(after).contains_key(id) implies job_table(after)[id]
        == expected[id] by {
        let j = choose|j: int| row_of(after, j, id);
        assert(job_table(after)[after[j].id] == after[j]@);
        if j < rows.len() {
            assert(after[j] == rows[j]);
            assert(row_of(rows, j, id));
        }
    }
    assert(job_table(after) =~= expected);
}

/// An in-memory job store.
#[derive(Debug)]
pub struct MemoryStore {
    jobs: Vec<JobRecord>,
    journal: Vec<JournalRecord>,
    next_journal_id: i64,
}

impl View for MemoryStore {
    type V = QueueState;

    closed spec fn view(&self) -> QueueState {
        QueueState {
            jobs: job_table(self.jobs@),
            journal: journal_views(self.journal@),
            next_entry: self.next_journal_id,
        }
    }
}

/// Whether `kind` is among `kinds`.
fn kind_listed(kinds: &[String], kind: &str) -> (r: bool)
    ensures
        r == names_kind(texts(kinds@), kind@),
{
    let mut i: usize = 0;
    while i < kinds.len()
        invariant
            i <= kinds@.len(),
            forall|j: int| 0 <= j < i ==> #[trigger] texts(kinds@)[j] != kind@,
        decreases kinds@.len() - i,
    {
        if text_eq(kinds[i].as_str(), kind) {
            assert(texts(kinds@)[i as int] == kind@);
            return true;
        }
        i += 1;
    }
    false
}

/// Whether a job was created before another, an equal time decided by identity.
fn is_older(a: &JobRecord, b: &JobRecord) -> (r: bool)
    ensures
        r == older(a@, b@),
{
    a.created_at.before(&b.created_at) || (a.created_at.same_as(&b.created_at) && a.id.0 < b.id.0)
}

/// Whether an optional text is the given one.
fn is_text(text: &Option<String>, expected: &str) -> (r: bool)
    ensures
        r == (optional_text(*text) == Some(expected@)),
{
    match text {
        Some(text) => text_eq(text.as_str(), expected),
        None => false,
    }
}

impl MemoryStore {
    /// No two rows share an identity, and the state is a valid queue state.
    pub closed spec fn wf(self) -> bool {
        ids_distinct(self.jobs@) && self@.valid()
    }

    /// A well-formed store's state is valid.
    pub proof fn wf_is_valid(self)
        requires
            self.wf(),
        ensures
            self@.valid(),
    {
    }

    /// An empty store.
    pub fn new() -> (r: MemoryStore)
        ensures
            r.wf(),
            r@ == (QueueState {
                jobs: Map::empty(),
                journal: Seq::empty(),
                next_entry: 0,
            }),
    {
        let r = MemoryStore { jobs: Vec::new(), journal: Vec::new(), next_journal_id: 0 };
        assert(r@.jobs =~= Map::<ulid::Ulid, JobView>::empty());
        assert(r@.journal =~= Seq::<JournalView>::empty());
        r
    }

    /// Where a job's row stands.
    fn find(&self, id: ulid::Ulid) -> (r: Option<usize>)
        requires
            self.wf(),
        ensures
            r is Some <==> self@.jobs.contains_key(id),
            r matches Some(i) ==> row_of(self.jobs@, i as int, id) && self@.jobs[id]
                == self.jobs@[i as int]@,
    {
        let mut i: usize = 0;
        while i < self.jobs.len()
            invariant
                self.wf(),
                i <= self.jobs@.len(),
                forall|j: int| 0 <= j < i ==> (#[trigger] self.jobs@[j]).id != id,
            decreases self.jobs@.len() - i,
        {
            if same_id(self.jobs[i].id, id) {
                proof {
                    lemma_row_is_filed(self.jobs@, i as int);
                }
                return Some(i);
            }
            i += 1;
        }
        None
    }

    /// Append a journal entry for a job whose row was just rewritten.
    fn append(&mut self, id: ulid::Ulid, journal: JournalAppend)
        requires
            old(self).wf(),
            old(self)@.jobs.contains_key(id),
            old(self)@.next_entry < i64::MAX,
        ensures
            final(self).wf(),
            final(self)@ == old(self)@.appended(id, journal@),
    {
        let record = JournalRecord {
            id: self.next_journal_id,
            job_id: id,
            kind: journal.kind,
            run_no: journal.run_no,
            recorded_at: journal.recorded_at,
            outcome: journal.outcome,
            note: journal.note,
            attachment: journal.attachment,
        };
        let ghost before = self@;
        self.journal.push(record);
        self.next_journal_id = self.next_journal_id + 1;
        proof {
            assert(self@.journal =~= before.appended(id, journal@).journal);
            assert(self@ =~= before.appended(id, journal@));
            assert forall|i: int, j: int| 0 <= i < j < self@.journal.len() implies (
            #[trigger] self@.journal[i]).id < (#[trigger] self@.journal[j]).id by {
                assert(self@.journal[i] == before.journal[i]);
                if j < before.journal.len() {
                    assert(self@.journal[j] == before.journal[j]);
                }
            }
            assert forall|i: int| 0 <= i < self@.journal.len() implies (
            #[trigger] self@.journal[i]).id < self@.next_entry && self@.jobs.contains_key(
                self@.journal[i].job_id,
            ) by {
                if i < before.journal.len() {
                    assert(self@.journal[i] == before.journal[i]);
                }
            }
        }
    }

    /// Rewrite the row at `at`.
    fn put(&mut self, at: usize, job: JobRecord)
        requires
            old(self).wf(),
            row_of(old(self).jobs@, at as int, job.id),
            row_agrees(job@),
        ensures
            final(self).wf(),
            final(self)@ == old(self)@.with_job(job@),
    {
        let ghost before = self@;
        proof {
            lemma_row_set(self.jobs@, at as int, job);
        }
        self.jobs.set(at, job);
        assert(self@ =~= before.with_job(job@));
    }

    /// Insert a brand-new pending job, once its priority is a supported tier. A job
    /// already stored under the same identity is replaced.
    pub fn enqueue(&mut self, job: &NewJob) -> (r: Result<(), Error>)
        requires
            old(self).wf(),
        ensures
            final(self).wf(),
            r is Ok <==> 0 <= job.priority <= 2,
            r is Ok ==> final(self)@ == enqueue_step(old(self)@, job@),
            r matches Err(error) ==> error@ == ErrorView::InvalidPriority(job.priority)
                && final(self)@ == old(self)@,
    {
        match job.validate() {
            Err(error) => {
                return Err(error);
            },
            Ok(_) => {},
        }
        let record = JobRecord {
            id: job.id,
            kind: job.kind.clone(),
            payload: job.payload.clone(),
            priority: job.priority,
            status: Status::Pending,
            created_at: job.created_at,
            visible_at: job.visible_at,
            claim_expires_at: None,
            claimed_by: None,
            finished_at: None,
            run_count: 0,
            failure_count: 0,
            carry: job.carry.clone(),
            dedup_key: copy_text(&job.dedup_key),
        };
        assert(record@ == fresh_row(job@));
        match self.find(job.id) {
            Some(i) => self.put(i, record),
            None => {
                let ghost before = self@;
                proof {
                    lemma_row_pushed(self.jobs@, record);
                }
                self.jobs.push(record);
                assert(self@ =~= before.with_job(record@));
            },
        }
        Ok(())
    }

    /// Atomically claim the next eligible job among `kinds`, or `None` if there is
    /// nothing claimable right now.
    ///
    /// Eligible jobs are pending and visible, of one of the kinds, with
    /// `priority >= priority_floor` (the anti-starvation floor); the most urgent
    /// oldest one is taken, equal ages decided by identity. Its status becomes
    /// claimed, its `claimed_by` is set, its `run_count` is incremented, and its
    /// lease expires after `lease`. A job whose next run number the storage column
    /// cannot hold is refused.
    pub fn claim_next(
        &mut self,
        kinds: &[String],
        priority_floor: i16,
        lease: Duration,
        claimed_by: &str,
        now: Timestamp,
    ) -> (r: Result<Option<JobRecord>, Error>)
        requires
            old(self).wf(),
        ensures
            final(self).wf(),
            r matches Ok(None) ==> nothing_claimable(
                old(self)@,
                texts(kinds@),
                priority_floor,
                now,
            ) && final(self)@ == old(self)@,
            r matches Ok(Some(job)) ==> claims_next(
                old(self)@,
                texts(kinds@),
                priority_floor,
                now,
                job.id,
            ) && old(self)@.jobs[job.id].run_count < i32::MAX && final(self)@ == claim_step(
                old(self)@,
                job.id,
                now,
                lease,
                claimed_by@,
            ) && job@ == final(self)@.jobs[job.id],
            r matches Err(error) ==> final(self)@ == old(self)@ && exists|id: ulid::Ulid|
                claims_next(old(self)@, texts(kinds@), priority_floor, now, id)
                    && old(self)@.jobs[id].run_count >= i32::MAX && error@
                    == ErrorView::RunNumberOutOfRange(
                    if old(self)@.jobs[id].run_count == u32::MAX {
                        u32::MAX
                    } else {
                        (old(self)@.jobs[id].run_count + 1) as u32
                    },
                ),
    {
        let best = match self.next_claim(kinds, priority_floor, now) {
            Some(i) => i,
            None => {
                return Ok(None);
            },
        };
        let mut job = self.jobs[best].clone();
        if job.run_count >= i32::MAX as u32 {
            assert(claims_next(self@, texts(kinds@), priority_floor, now, job.id));
            return Err(Error::RunNumberOutOfRange { run_no: job.run_count.saturating_add(1) });
        }
        job.status = Status::Claimed;
        job.claimed_by = Some(claimed_by.to_owned());
        job.claim_expires_at = Some(add_duration(now, lease));
        job.run_count = job.run_count + 1;
        let claimed = job.clone();
        self.put(best, job);
        Ok(Some(claimed))
    }

    /// The row a claim takes.
    fn next_claim(&self, kinds: &[String], priority_floor: i16, now: Timestamp) -> (r: Option<usize>)
        requires
            self.wf(),
        ensures
            r is None ==> nothing_claimable(self@, texts(kinds@), priority_floor, now),
            r matches Some(i) ==> i < self.jobs@.len() && self@.jobs[self.jobs@[i as int].id]
                == self.jobs@[i as int]@ && claims_next(
                self@,
                texts(kinds@),
                priority_floor,
                now,
                self.jobs@[i as int].id,
            ),
    {
        proof {
            lemma_rows_are_filed(self.jobs@);
        }
        let ghost wanted = texts(kinds@);
        let mut best: Option<usize> = None;
        let mut i: usize = 0;
        while i < self.jobs.len()
            invariant
                self.wf(),
                i <= self.jobs@.len(),
                wanted == texts(kinds@),
                best is None ==> forall|j: int|
                    0 <= j < i ==> !claimable(
                        (#[trigger] self.jobs@[j])@,
                        wanted,
                        priority_floor,
                        now,
                    ),
                best matches Some(b) ==> b < i && claimable(
                    self.jobs@[b as int]@,
                    wanted,
                    priority_floor,
                    now,
                ) && forall|j: int|
                    0 <= j < i && j != b && claimable(
                        (#[trigger] self.jobs@[j])@,
                        wanted,
                        priority_floor,
                        now,
                    ) ==> claimed_ahead(self.jobs@[b as int]@, self.jobs@[j]@),
            decreases self.jobs@.len() - i,
        {
            let job = &self.jobs[i];
            let eligible = job.status == Status::Pending && !now.before(&job.visible_at)
                && job.priority >= priority_floor && kind_listed(kinds, job.kind.as_str());
            if eligible {
                let ahead = match best {
                    None => true,
                    Some(b) => {
                        let leader = &self.jobs[b];
                        assert(self.jobs@[b as int].id != self.jobs@[i as int].id);
                        job.priority < leader.priority || (job.priority == leader.priority
                            && is_older(job, leader))
                    },
                };
                if ahead {
                    best = Some(i);
                }
            }
            i += 1;
        }
        proof {
            if let Some(b) = best {
                let id = self.jobs@[b as int].id;
                assert forall|other: ulid::Ulid| #[trigger]
                    self@.jobs.contains_key(other) && other != id && claimable(
                        self@.jobs[other],
                        wanted,
                        priority_floor,
                        now,
                    ) implies claimed_ahead(self@.jobs[id], self@.jobs[other]) by {
                    let j = choose|j: int| row_of(self.jobs@, j, other);
                    assert(self.jobs@[j]@ == self@.jobs[other]);
                }
            } else {
                assert forall|id: ulid::Ulid| #[trigger]
                    self@.jobs.contains_key(id) implies !claimable(
                    self@.jobs[id],
                    wanted,
                    priority_floor,
                    now,
                ) by {
                    let j = choose|j: int| row_of(self.jobs@, j, id);
                    assert(self.jobs@[j]@ == self@.jobs[id]);
                }
            }
        }
        best
    }

    /// Apply a settlement to a claimed job, guarded by claim ownership, appending
    /// `journal` in the same step.
    ///
    /// It applies only if the row is still claimed by `claimed_by` at the claim
    /// epoch `run_no`. Matching on the epoch, not just the identity, means a slow or
    /// aborted handler cannot settle a claim that was reclaimed and re-run, even
    /// when the reclaiming worker shares its identity. Returns whether it applied;
    /// when it did not, the journal entry is not written either. One that would apply
    /// fails, with nothing written, once the journal has no identity left for its entry.
    pub fn settle(
        &mut self,
        id: ulid::Ulid,
        claimed_by: &str,
        run_no: u32,
        settlement: Settlement,
        journal: JournalAppend,
    ) -> (r: Result<bool, Error>)
        requires
            old(self).wf(),
        ensures
            final(self).wf(),
            r is Err <==> settle_applies(old(self)@, id, claimed_by@, run_no)
                && old(self)@.next_entry == i64::MAX,
            r matches Ok(applied) ==> applied == settle_applies(old(self)@, id, claimed_by@, run_no),
            r is Ok ==> final(self)@ == settle_step(
                old(self)@,
                id,
                claimed_by@,
                run_no,
                settlement,
                journal@,
            ),
            r matches Err(error) ==> error@ == ErrorView::Database(
                "journal entry identities are exhausted"@,
            ) && final(self)@ == old(self)@,
    {
        let at = match self.find(id) {
            Some(i) => i,
            None => {
                return Ok(false);
            },
        };
        let mut job = self.jobs[at].clone();
        if job.status != Status::Claimed || !is_text(&job.claimed_by, claimed_by) || job.run_count
            != run_no {
            return Ok(false);
        }
        if self.next_journal_id == i64::MAX {
            return Err(Error::Database("journal entry identities are exhausted".to_owned()));
        }
        match settlement {
            Settlement::Complete { finished_at } => {
                job.status = Status::Completed;
                job.finished_at = Some(finished_at);
            },
            Settlement::Retry { visible_at, failure_count, carry } => {
                job.status = Status::Pending;
                job.visible_at = visible_at;
                job.failure_count = failure_count;
                job.carry = carry;
            },
            Settlement::Pause { visible_at, carry } => {
                job.status = Status::Pending;
                job.visible_at = visible_at;
                job.carry = carry;
            },
            Settlement::Dead { finished_at, failure_count } => {
                job.status = Status::Dead;
                job.finished_at = Some(finished_at);
                job.failure_count = failure_count;
            },
            Settlement::Release { visible_at } => {
                job.status = Status::Pending;
                job.visible_at = visible_at;
            },
        }
        job.claimed_by = None;
        job.claim_expires_at = None;
        self.put(at, job);
        self.append(id, journal);
        Ok(true)
    }

    /// Load a job's journal in chronological order.
    pub fn journal(&self, id: ulid::Ulid) -> (r: Vec<JournalRecord>)
        requires
            self.wf(),
        ensures
            journal_views(r@) == journal_of(self@.journal, id),
    {
        let mut entries: Vec<JournalRecord> = Vec::new();
        let mut i: usize = 0;
        assert(self@.journal.take(0) =~= Seq::<JournalView>::empty());
        assert(journal_views(entries@) =~= Seq::<JournalView>::empty());
        while i < self.journal.len()
            invariant
                i <= self.journal@.len(),
                journal_views(entries@) == journal_of(self@.journal.take(i as int), id),
            decreases self.journal@.len() - i,
        {
            let ghost prior = journal_views(entries@);
            assert(self@.journal.take(i + 1).drop_last() =~= self@.journal.take(i as int));
            if same_id(self.journal[i].job_id, id) {
                entries.push(self.journal[i].clone());
                assert(journal_views(entries@) =~= prior.push(self@.journal[i as int]));
            }
            i += 1;
        }
        assert(self@.journal.take(i as int) =~= self@.journal);
        entries
    }

    /// The soonest future eligibility time among pending jobs of the `kinds`, or
    /// `None` if none are scheduled for the future.
    pub fn next_visible_at(&self, kinds: &[String], now: Timestamp) -> (r: Option<Timestamp>)
        requires
            self.wf(),
        ensures
            r is None <==> forall|id: ulid::Ulid| #[trigger]
                self@.jobs.contains_key(id) ==> !scheduled(self@.jobs[id], texts(kinds@), now),
            r matches Some(at) ==> (exists|id: ulid::Ulid| #[trigger]
                self@.jobs.contains_key(id) && scheduled(self@.jobs[id], texts(kinds@), now)
                    && self@.jobs[id].visible_at == at) && forall|id: ulid::Ulid| #[trigger]
                self@.jobs.contains_key(id) && scheduled(self@.jobs[id], texts(kinds@), now)
                    ==> at.nanos() <= self@.jobs[id].visible_at.nanos(),
    {
        proof {
            lemma_rows_are_filed(self.jobs@);
        }
        let ghost wanted = texts(kinds@);
        let mut soonest: Option<usize> = None;
        let mut i: usize = 0;
        while i < self.jobs.len()
            invariant
                self.wf(),
                i <= self.jobs@.len(),
                wanted == texts(kinds@),
                soonest is None ==> forall|j: int|
                    0 <= j < i ==> !scheduled((#[trigger] self.jobs@[j])@, wanted, now),
                soonest matches Some(b) ==> b < i && scheduled(self.jobs@[b as int]@, wanted, now)
                    && forall|j: int|
                    0 <= j < i && scheduled((#[trigger] self.jobs@[j])@, wanted, now)
                        ==> self.jobs@[b as int].visible_at.nanos()
                        <= self.jobs@[j].visible_at.nanos(),
            decreases self.jobs@.len() - i,
        {
            let job = &self.jobs[i];
            if job.status == Status::Pending && now.before(&job.visible_at) && kind_listed(
                kinds,
                job.kind.as_str(),
            ) {
                let sooner = match soonest {
                    None => true,
                    Some(b) => job.visible_at.before(&self.jobs[b].visible_at),
                };
                if sooner {
                    soonest = Some(i);
                }
            }
            i += 1;
        }
        proof {
            assert forall|id: ulid::Ulid| #[trigger]
                self@.jobs.contains_key(id) && scheduled(
                    self@.jobs[id],
                    wanted,
                    now,
                ) implies soonest is Some && self.jobs@[soonest.unwrap() as int].visible_at.nanos()
                <= self@.jobs[id].visible_at.nanos() by {
                let j = choose|j: int| row_of(self.jobs@, j, id);
                assert(self.jobs@[j]@ == self@.jobs[id]);
            }
            if let Some(b) = soonest {
                assert(self@.jobs.contains_key(self.jobs@[b as int].id));
            }
        }
        match soonest {
            Some(b) => Some(self.jobs[b].visible_at),
            None => None,
        }
    }

    /// Find the deduplication candidate for `(kind, dedup_key)`: the oldest pending
    /// job sharing that key, or `None` if there is none.
    pub fn dedup_candidate(&self, kind: &str, dedup_key: &str) -> (r: Option<JobRecord>)
        requires
            self.wf(),
        ensures
            r is None <==> forall|id: ulid::Ulid| #[trigger]
                self@.jobs.contains_key(id) ==> !dedup_sibling(self@.jobs[id], kind@, dedup_key@),
            r matches Some(job) ==> self@.jobs.contains_key(job.id) && self@.jobs[job.id] == job@
                && dedup_sibling(job@, kind@, dedup_key@) && forall|id: ulid::Ulid| #[trigger]
                self@.jobs.contains_key(id) && id != job.id && dedup_sibling(
                    self@.jobs[id],
                    kind@,
                    dedup_key@,
                ) ==> older(job@, self@.jobs[id]),
    {
        proof {
            lemma_rows_are_filed(self.jobs@);
        }
        let mut oldest: Option<usize> = None;
        let mut i: usize = 0;
        while i < self.jobs.len()
            invariant
                self.wf(),
                i <= self.jobs@.len(),
                oldest is None ==> forall|j: int|
                    0 <= j < i ==> !dedup_sibling((#[trigger] self.jobs@[j])@, kind@, dedup_key@),
                oldest matches Some(b) ==> b < i && dedup_sibling(
                    self.jobs@[b as int]@,
                    kind@,
                    dedup_key@,
                ) && forall|j: int|
                    0 <= j < i && j != b && dedup_sibling(
                        (#[trigger] self.jobs@[j])@,
                        kind@,
                        dedup_key@,
                    ) ==> older(self.jobs@[b as int]@, self.jobs@[j]@),
            decreases self.jobs@.len() - i,
        {
            let job = &self.jobs[i];
            if job.status == Status::Pending && text_eq(job.kind.as_str(), kind) && is_text(
                &job.dedup_key,
                dedup_key,
            ) {
                let ahead = match oldest {
                    None => true,
                    Some(b) => {
                        assert(self.jobs@[b as int].id != self.jobs@[i as int].id);
                        is_older(job, &self.jobs[b])
                    },
                };
                if ahead {
                    oldest = Some(i);
                }
            }
            i += 1;
        }
        proof {
            assert forall|id: ulid::Ulid| #[trigger]
                self@.jobs.contains_key(id) && dedup_sibling(
                    self@.jobs[id],
                    kind@,
                    dedup_key@,
                ) implies oldest is Some && (self.jobs@[oldest.unwrap() as int].id == id || older(
                self.jobs@[oldest.unwrap() as int]@,
                self@.jobs[id],
            )) by {
                let j = choose|j: int| row_of(self.jobs@, j, id);
                assert(self.jobs@[j]@ == self@.jobs[id]);
            }
            if let Some(b) = oldest {
                assert(self@.jobs.contains_key(self.jobs@[b as int].id));
            }
        }
        match oldest {
            Some(b) => Some(self.jobs[b].clone()),
            None => None,
        }
    }

    /// Find claimed jobs whose lease has expired, for stale-claim recovery.
    ///
    /// Detection is timeout-only, with no process-liveness check, so it behaves
    /// identically on one host or many.
    pub fn find_stale(&self, now: Timestamp) -> (r: Vec<JobRecord>)
        requires
            self.wf(),
        ensures
            ids_distinct(r@),
            forall|id: ulid::Ulid|
                (self@.jobs.contains_key(id) && lease_expired(self@.jobs[id], now)) <==> (
                #[trigger] job_table(r@).contains_key(id)),
            forall|id: ulid::Ulid| #[trigger]
                job_table(r@).contains_key(id) ==> job_table(r@)[id] == self@.jobs[id],
    {
        proof {
            lemma_rows_are_filed(self.jobs@);
        }
        let mut stale: Vec<JobRecord> = Vec::new();
        let mut i: usize = 0;
        while i < self.jobs.len()
            invariant
                self.wf(),
                i <= self.jobs@.len(),
                forall|k: int|
                    0 <= k < stale@.len() ==> exists|j: int|
                        0 <= j < i && (#[trigger] self.jobs@[j])@ == (#[trigger] stale@[k])@
                            && lease_expired(self.jobs@[j]@, now),
                ids_distinct(stale@),
                forall|j: int|
                    0 <= j < i && lease_expired((#[trigger] self.jobs@[j])@, now) ==> exists|k: int|
                        0 <= k < stale@.len() && (#[trigger] stale@[k])@ == self.jobs@[j]@,
            decreases self.jobs@.len() - i,
        {
            let job = &self.jobs[i];
            let expired = match &job.claim_expires_at {
                Some(expiry) => job.status == Status::Claimed && expiry.before(&now),
                None => false,
            };
            if expired {
                let ghost prior = stale@;
                let copy = job.clone();
                stale.push(copy);
                proof {
                    assert forall|k: int| 0 <= k < stale@.len() implies exists|j: int|
                        0 <= j < i + 1 && (#[trigger] self.jobs@[j])@ == (#[trigger] stale@[k])@
                            && lease_expired(self.jobs@[j]@, now) by {
                        if k < prior.len() {
                            assert(stale@[k] == prior[k]);
                            let j = choose|j: int|
                                0 <= j < i && (#[trigger] self.jobs@[j])@ == prior[k]@
                                    && lease_expired(self.jobs@[j]@, now);
                            assert(self.jobs@[j]@ == stale@[k]@);
                        } else {
                            assert(self.jobs@[i as int]@ == stale@[k]@);
                        }
                    }
                    assert forall|a: int, b: int| 0 <= a < b < stale@.len() implies (
                    #[trigger] stale@[a]).id != (#[trigger] stale@[b]).id by {
                        assert(stale@[a] == prior[a]);
                        if b == prior.len() {
                            let j = choose|j: int|
                                0 <= j < i && (#[trigger] self.jobs@[j])@ == prior[a]@
                                    && lease_expired(self.jobs@[j]@, now);
                            assert(self.jobs@[j]@.id == prior[a]@.id);
                            assert(self.jobs@[j].id != self.jobs@[i as int].id);
                        }
                    }
                    assert forall|j: int|
                        0 <= j < i + 1 && lease_expired(
                            (#[trigger] self.jobs@[j])@,
                            now,
                        ) implies exists|k: int|
                        0 <= k < stale@.len() && (#[trigger] stale@[k])@ == self.jobs@[j]@ by {
                        if j < i {
                            let k = choose|k: int|
                                0 <= k < prior.len() && (#[trigger] prior[k])@ == self.jobs@[j]@;
                            assert(stale@[k] == prior[k]);
                        } else {
                            assert(stale@[prior.len() as int]@ == self.jobs@[j]@);
                        }
                    }
                }
            }
            i += 1;
        }
        proof {
            lemma_rows_are_filed(stale@);
            assert forall|id: ulid::Ulid|
                (self@.jobs.contains_key(id) && lease_expired(self@.jobs[id], now)) <==> (
                #[trigger] job_table(stale@).contains_key(id)) by {
                if self@.jobs.contains_key(id) && lease_expired(self@.jobs[id], now) {
                    let j = choose|j: int| row_of(self.jobs@, j, id);
                    assert(self.jobs@[j]@ == self@.jobs[id]);
                    let k = choose|k: int|
                        0 <= k < stale@.len() && (#[trigger] stale@[k])@ == self.jobs@[j]@;
                    assert(stale@[k]@.id == id);
                    assert(row_of(stale@, k, id));
                }
                if job_table(stale@).contains_key(id) {
                    let k = choose|k: int| row_of(stale@, k, id);
                    let j = choose|j: int|
                        0 <= j < self.jobs@.len() && (#[trigger] self.jobs@[j])@ == stale@[k]@
                            && lease_expired(self.jobs@[j]@, now);
                    assert(self.jobs@[j]@.id == id);
                }
            }
            assert forall|id: ulid::Ulid| #[trigger]
                job_table(stale@).contains_key(id) implies job_table(stale@)[id]
                == self@.jobs[id] by {
                let k = choose|k: int| row_of(stale@, k, id);
                let j = choose|j: int|
                    0 <= j < self.jobs@.len() && (#[trigger] self.jobs@[j])@ == stale@[k]@
                        && lease_expired(self.jobs@[j]@, now);
                assert(self.jobs@[j]@.id == id);
                assert(job_table(stale@)[stale@[k].id] == stale@[k]@);
            }
        }
        stale
    }

    /// Recover a stale claim, re-pending it as a failed execution and appending
    /// `journal`.
    ///
    /// Guarded by the row still being claimed with an expired lease *at the claim
    /// epoch `run_no`* (the `run_count` of the stale claim this recovery observed).
    /// The epoch keeps a recovery computed from an older snapshot from re-pending a
    /// claim that has since been reclaimed and re-run, which would otherwise regress
    /// `failure_count` and journal a stale `run_no`. Returns whether this call
    /// recovered it.
    ///
    /// `failure_count` is the value to write, not an increment; the caller
    /// pre-computes it. A recovery that would apply fails, with nothing written, once
    /// the journal has no identity left for its entry.
    pub fn recover(
        &mut self,
        id: ulid::Ulid,
        visible_at: Timestamp,
        failure_count: i32,
        run_no: u32,
        journal: JournalAppend,
        now: Timestamp,
    ) -> (r: Result<bool, Error>)
        requires
            old(self).wf(),
        ensures
            final(self).wf(),
            r is Err <==> recover_applies(old(self)@, id, run_no, now) && old(self)@.next_entry
                == i64::MAX,
            r matches Ok(applied) ==> applied == recover_applies(old(self)@, id, run_no, now),
            r is Ok ==> final(self)@ == recover_step(
                old(self)@,
                id,
                visible_at,
                failure_count,
                run_no,
                journal@,
                now,
            ),
            r matches Err(error) ==> error@ == ErrorView::Database(
                "journal entry identities are exhausted"@,
            ) && final(self)@ == old(self)@,
    {
        let at = match self.find(id) {
            Some(i) => i,
            None => {
                return Ok(false);
            },
        };
        let mut job = self.jobs[at].clone();
        let expired = match &job.claim_expires_at {
            Some(expiry) => job.status == Status::Claimed && expiry.before(&now),
            None => false,
        };
        if !expired || job.run_count != run_no {
            return Ok(false);
        }
        if self.next_journal_id == i64::MAX {
            return Err(Error::Database("journal entry identities are exhausted".to_owned()));
        }
        job.status = Status::Pending;
        job.visible_at = visible_at;
        job.failure_count = failure_count;
        job.claimed_by = None;
        job.claim_expires_at = None;
        self.put(at, job);
        self.append(id, journal);
        Ok(true)
    }

    /// Extend a claimed job's lease, guarded by claim ownership at the claim epoch
    /// `run_no`. Returns whether the lease was extended.
    ///
    /// Used to apply a per-task lease override after the claim, which sets only the
    /// worker default.
    pub fn extend_lease(
        &mut self,
        id: ulid::Ulid,
        claimed_by: &str,
        run_no: u32,
        lease: Duration,
        now: Timestamp,
    ) -> (r: bool)
        requires
            old(self).wf(),
        ensures
            final(self).wf(),
            r == settle_applies(old(self)@, id, claimed_by@, run_no),
            final(self)@ == extend_step(old(self)@, id, claimed_by@, run_no, lease, now),
    {
        let at = match self.find(id) {
            Some(i) => i,
            None => {
                return false;
            },
        };
        let mut job = self.jobs[at].clone();
        if job.status != Status::Claimed || !is_text(&job.claimed_by, claimed_by) || job.run_count
            != run_no {
            return false;
        }
        job.claim_expires_at = Some(add_duration(now, lease));
        self.put(at, job);
        true
    }

    /// Apply a merge decision to a pending candidate, appending `journal`.
    ///
    /// `update` carries the new payload, carry, and priority for a Replace/With
    /// decision, or is `None` for Keep (the existing row is left untouched but the
    /// merge is still journaled). The write is guarded by the candidate still being
    /// pending; if it has since been claimed or removed, nothing is written and this
    /// returns `false` so the caller can fall back to a fresh enqueue. A merge that
    /// would apply fails, with nothing written, once the journal has no identity left
    /// for its entry.
    pub fn merge_into(
        &mut self,
        id: ulid::Ulid,
        update: Option<MergePayload>,
        journal: JournalAppend,
    ) -> (r: Result<bool, Error>)
        requires
            old(self).wf(),
        ensures
            final(self).wf(),
            r is Err <==> merge_applies(old(self)@, id) && old(self)@.next_entry == i64::MAX,
            r matches Ok(applied) ==> applied == merge_applies(old(self)@, id),
            r is Ok ==> final(self)@ == merge_step(old(self)@, id, update, journal@),
            r matches Err(error) ==> error@ == ErrorView::Database(
                "journal entry identities are exhausted"@,
            ) && final(self)@ == old(self)@,
    {
        let at = match self.find(id) {
            Some(i) => i,
            None => {
                return Ok(false);
            },
        };
        let mut job = self.jobs[at].clone();
        if job.status != Status::Pending {
            return Ok(false);
        }
        if self.next_journal_id == i64::MAX {
            return Err(Error::Database("journal entry identities are exhausted".to_owned()));
        }
        match update {
            Some(MergePayload { payload, carry, priority }) => {
                job.payload = payload;
                job.carry = carry;
                job.priority = priority;
            },
            None => {},
        }
        self.put(at, job);
        self.append(id, journal);
        Ok(true)
    }

    /// Fetch a single job by id, or `None` if no such job exists.
    pub fn job(&self, id: ulid::Ulid) -> (r: Option<JobRecord>)
        requires
            self.wf(),
        ensures
            r is Some <==> self@.jobs.contains_key(id),
            r matches Some(job) ==> job@ == self@.jobs[id],
    {
        match self.find(id) {
            Some(i) => Some(self.jobs[i].clone()),
            None => None,
        }
    }

    /// Query jobs by the history filter, newest first.
    pub fn query_jobs(&self, filter: &HistoryFilter) -> (r: Vec<JobRecord>)
        requires
            self.wf(),
        ensures
            history_page(self@, filter@, job_views(r@)),
    {
        let mut page: Vec<JobRecord> = Vec::new();
        proof {
            lemma_rows_are_filed(self.jobs@);
        }
        loop
            invariant
                self.wf(),
                job_table(self.jobs@) == self@.jobs,
                forall|i: int|
                    0 <= i < self.jobs@.len() ==> self@.jobs.contains_key(
                        (#[trigger] self.jobs@[i]).id,
                    ) && self@.jobs[self.jobs@[i].id] == self.jobs@[i]@,
                page_so_far(self@, filter@, job_views(page@)),
                row_limit(filter@) matches Some(limit) ==> page@.len() <= limit,
            ensures
                history_page(self@, filter@, job_views(page@)),
            decreases self.jobs@.len() - page@.len(),
        {
            proof {
                lemma_page_is_short(self.jobs@, self@, filter@, job_views(page@));
            }
            let full = match filter.limit {
                Some(limit) => limit <= 0 || page.len() as i128 >= limit as i128,
                None => false,
            };
            if full {
                break ;
            }
            let ghost before = job_views(page@);
            match self.next_page_row(filter, &page) {
                Some(i) => {
                    let row = self.jobs[i].clone();
                    page.push(row);
                    proof {
                        let after = job_views(page@);
                        assert(after =~= before.push(self.jobs@[i as int]@));
                        lemma_page_grows(self@, filter@, before, self.jobs@[i as int]@);
                        lemma_page_is_short(self.jobs@, self@, filter@, after);
                    }
                },
                None => {
                    break ;
                },
            }
        }
        page
    }

    /// The newest passing row that the page does not list yet.
    fn next_page_row(&self, filter: &HistoryFilter, page: &Vec<JobRecord>) -> (r: Option<usize>)
        requires
            self.wf(),
            page_so_far(self@, filter@, job_views(page@)),
        ensures
            r is None ==> forall|id: ulid::Ulid| #[trigger]
                self@.jobs.contains_key(id) && passes(self@.jobs[id], filter@) ==> lists(
                    job_views(page@),
                    self@.jobs[id],
                ),
            r matches Some(i) ==> i < self.jobs@.len() && is_next_row(
                self@,
                filter@,
                job_views(page@),
                self.jobs@[i as int]@,
            ),
    {
        proof {
            lemma_rows_are_filed(self.jobs@);
        }
        let ghost listed = job_views(page@);
        let mut newest: Option<usize> = None;
        let mut i: usize = 0;
        while i < self.jobs.len()
            invariant
                self.wf(),
                i <= self.jobs@.len(),
                listed == job_views(page@),
                newest is None ==> forall|j: int|
                    0 <= j < i ==> !next_candidate((#[trigger] self.jobs@[j])@, filter@, listed),
                newest matches Some(b) ==> b < i && next_candidate(
                    self.jobs@[b as int]@,
                    filter@,
                    listed,
                ) && forall|j: int|
                    0 <= j < i && j != b && next_candidate(
                        (#[trigger] self.jobs@[j])@,
                        filter@,
                        listed,
                    ) ==> older(self.jobs@[j]@, self.jobs@[b as int]@),
            decreases self.jobs@.len() - i,
        {
            let job = &self.jobs[i];
            let beyond = page.len() == 0 || is_older(job, &page[page.len() - 1]);
            if beyond && passes_filter(job, filter) {
                let ahead = match newest {
                    None => true,
                    Some(b) => {
                        assert(self.jobs@[b as int].id != self.jobs@[i as int].id);
                        is_older(&self.jobs[b], job)
                    },
                };
                if ahead {
                    newest = Some(i);
                }
            }
            i += 1;
        }
        proof {
            assert forall|id: ulid::Ulid| #[trigger]
                self@.jobs.contains_key(id) && passes(self@.jobs[id], filter@) && !lists(
                    listed,
                    self@.jobs[id],
                ) implies newest is Some && (self.jobs@[newest.unwrap() as int].id == id || older(
                self@.jobs[id],
                self.jobs@[newest.unwrap() as int]@,
            )) by {
                let j = choose|j: int| row_of(self.jobs@, j, id);
                assert(self.jobs@[j]@ == self@.jobs[id]);
                assert(next_candidate(self.jobs@[j]@, filter@, listed));
            }
        }
        newest
    }

    /// Bulk-delete terminal jobs matching the criteria, cascading to the journal.
    /// Returns the number of jobs deleted.
    pub fn cleanup(&mut self, criteria: &CleanupCriteria) -> (r: u64)
        requires
            old(self).wf(),
        ensures
            final(self).wf(),
            final(self)@ == cleanup_step(old(self)@, criteria@),
            cleaned_ids(old(self)@, criteria@).finite(),
            r == cleaned_ids(old(self)@, criteria@).len(),
    {
        let ghost start = self@;
        let ghost mut gone: Set<ulid::Ulid> = Set::empty();
        let total: usize = self.jobs.len();
        let mut removed: u64 = 0;
        let mut i: usize = 0;
        assert(start.jobs.remove_keys(gone) =~= start.jobs);
        while i < self.jobs.len()
            invariant
                start == old(self)@,
                start.valid(),
                self.journal@ == old(self).journal@,
                self.next_journal_id == old(self).next_journal_id,
                ids_distinct(self.jobs@),
                job_table(self.jobs@) == start.jobs.remove_keys(gone),
                gone.finite(),
                gone.len() == removed,
                gone.subset_of(cleaned_ids(start, criteria@)),
                i <= self.jobs@.len(),
                self.jobs@.len() + removed == total,
                forall|j: int| 0 <= j < i ==> !cleaned_up((#[trigger] self.jobs@[j])@, criteria@),
            decreases self.jobs@.len() - i,
        {
            proof {
                lemma_row_is_filed(self.jobs@, i as int);
            }
            if matches_criteria(&self.jobs[i], criteria) {
                let ghost id = self.jobs@[i as int].id;
                let ghost rows = self.jobs@;
                proof {
                    lemma_row_removed(rows, i as int);
                    assert(job_table(rows).contains_key(id));
                    assert(start.jobs.remove_keys(gone).remove(id) =~= start.jobs.remove_keys(
                        gone.insert(id),
                    ));
                    assert(!gone.contains(id));
                }
                let _ = self.jobs.remove(i);
                proof {
                    gone = gone.insert(id);
                }
                removed += 1;
            } else {
                i += 1;
            }
        }
        proof {
            lemma_rows_are_filed(self.jobs@);
            assert forall|id: ulid::Ulid|
                cleaned_ids(start, criteria@).contains(id) implies gone.contains(id) by {
                if !gone.contains(id) {
                    assert(job_table(self.jobs@).contains_key(id));
                    let j = choose|j: int| row_of(self.jobs@, j, id);
                    assert(self.jobs@[j]@ == start.jobs[id]);
                }
            }
            assert(gone =~= cleaned_ids(start, criteria@));
        }
        proof {
            let entries = journal_views(self.journal@);
            assert(entries == start.journal);
            assert(journal_within(entries, start.journal));
        }
        let mut k: usize = 0;
        while k < self.journal.len()
            invariant
                start == old(self)@,
                start.valid(),
                self.next_journal_id == old(self).next_journal_id,
                ids_distinct(self.jobs@),
                job_table(self.jobs@) == start.jobs.remove_keys(gone),
                gone == cleaned_ids(start, criteria@),
                k <= self.journal@.len(),
                journal_within(journal_views(self.journal@), start.journal),
                journal_without(journal_views(self.journal@), gone) == journal_without(
                    start.journal,
                    gone,
                ),
                forall|j: int|
                    0 <= j < k ==> !gone.contains((#[trigger] self.journal@[j]).job_id),
            decreases self.journal@.len() - k,
        {
            let ghost entries = journal_views(self.journal@);
            let ghost job_id = self.journal@[k as int].job_id;
            proof {
                assert(entries[k as int].job_id == job_id);
            }
            if self.stored(self.journal[k].job_id) {
                k += 1;
            } else {
                proof {
                    assert(gone.contains(job_id));
                    lemma_without_gone(entries, k as int, gone);
                }
                let _ = self.journal.remove(k);
                proof {
                    assert(journal_views(self.journal@) =~= entries.remove(k as int));
                }
            }
        }
        proof {
            let entries = journal_views(self.journal@);
            assert forall|j: int| 0 <= j < entries.len() implies !gone.contains(
                (#[trigger] entries[j]).job_id,
            ) by {
                assert(entries[j] == self.journal@[j]@);
            }
            lemma_without_nothing(entries, gone);
            assert(self@ =~= cleanup_step(start, criteria@));
            assert forall|id: ulid::Ulid| #[trigger]
                self@.jobs.contains_key(id) implies self@.jobs[id].id == id && row_agrees(
                self@.jobs[id],
            ) by {
                assert(start.jobs.contains_key(id));
            }
        }
        removed
    }

    /// Whether a job is stored.
    fn stored(&self, id: ulid::Ulid) -> (r: bool)
        ensures
            r == job_table(self.jobs@).contains_key(id),
    {
        let mut i: usize = 0;
        while i < self.jobs.len()
            invariant
                i <= self.jobs@.len(),
                forall|j: int| 0 <= j < i ==> (#[trigger] self.jobs@[j]).id != id,
            decreases self.jobs@.len() - i,
        {
            if same_id(self.jobs[i].id, id) {
                assert(row_of(self.jobs@, i as int, id));
                return true;
            }
            i += 1;
        }
        false
    }

    /// The number of jobs in a lifecycle state.
    pub fn count(&self, status: Status) -> (r: usize)
        requires
            self.wf(),
        ensures
            jobs_with(self@, status).finite(),
            r == jobs_with(self@, status).len(),
    {
        let mut n: usize = 0;
        let mut i: usize = 0;
        assert(rows_with(self.jobs@.take(0), status) =~= Set::empty());
        while i < self.jobs.len()
            invariant
                self.wf(),
                i <= self.jobs@.len(),
                n <= i,
                rows_with(self.jobs@.take(i as int), status).finite(),
                n == rows_with(self.jobs@.take(i as int), status).len(),
            decreases self.jobs@.len() - i,
        {
            proof {
                lemma_rows_with_step(self.jobs@, i as int, status);
            }
            if self.jobs[i].status == status {
                n += 1;
            }
            i += 1;
        }
        proof {
            assert(self.jobs@.take(i as int) =~= self.jobs@);
            lemma_rows_are_filed(self.jobs@);
            lemma_rows_with_table(self.jobs@, self@, status);
        }
        n
    }

    /// A live state snapshot.
    pub fn stats(&self, now: Timestamp) -> (r: Snapshot)
        requires
            self.wf(),
        ensures
            snapshot_of(self@, now, r),
    {
        let mut snapshot = Snapshot::default();
        let mut i: usize = 0;
        proof {
            let none = self.jobs@.take(0);
            assert forall|kind: Seq<char>, status: Status|
                #[trigger] rows_in(none, kind, status) =~= Set::empty() by {}
            assert(rows_with(none, Status::Claimed) =~= Set::empty());
        }
        while i < self.jobs.len()
            invariant
                self.wf(),
                i <= self.jobs@.len(),
                tallied(self.jobs@.take(i as int), now, snapshot),
                snapshot.claimed <= i,
            decreases self.jobs@.len() - i,
        {
            let job = &self.jobs[i];
            let ghost before = snapshot;
            let ghost rows = self.jobs@.take(i as int);
            let ghost next = self.jobs@.take(i + 1);
            proof {
                assert(next.drop_last() =~= rows);
                assert(next.last() == self.jobs@[i as int]);
                assert forall|kind: Seq<char>, status: Status| #[trigger]
                    rows_in(next, kind, status) == (if job@.kind == kind && job@.status == status {
                        rows_in(rows, kind, status).insert(job@.id)
                    } else {
                        rows_in(rows, kind, status)
                    }) && rows_in(rows, kind, status).finite() && !rows_in(
                        rows,
                        kind,
                        status,
                    ).contains(job@.id) && rows_in(rows, kind, status).len() <= i by {
                    lemma_rows_in_step(self.jobs@, i as int, kind, status);
                }
                lemma_rows_with_step(self.jobs@, i as int, Status::Claimed);
            }
            match job.status {
                Status::Pending => {
                    let held: u64 = match snapshot.pending_by_kind.get(job.kind.as_str()) {
                        Some(held) => *held,
                        None => 0,
                    };
                    assert(rows_in(next, job@.kind, Status::Pending).len() == held + 1);
                    let age = now.since(&job.created_at);
                    let oldest = match snapshot.oldest_pending_age.get(job.kind.as_str()) {
                        Some(current) => current.longest(age),
                        None => age,
                    };
                    snapshot.pending_by_kind.insert(job.kind.clone(), held + 1);
                    snapshot.oldest_pending_age.insert(job.kind.clone(), oldest);
                    proof {
                        lemma_oldest_kept(rows, next, now, before, snapshot, oldest, age);
                    }
                },
                Status::Claimed => {
                    snapshot.claimed = snapshot.claimed + 1;
                    proof {
                        lemma_ages_kept(rows, next, now, before, snapshot);
                    }
                },
                Status::Dead => {
                    let held: u64 = match snapshot.dead_by_kind.get(job.kind.as_str()) {
                        Some(held) => *held,
                        None => 0,
                    };
                    assert(rows_in(next, job@.kind, Status::Dead).len() == held + 1);
                    snapshot.dead_by_kind.insert(job.kind.clone(), held + 1);
                    proof {
                        lemma_ages_kept(rows, next, now, before, snapshot);
                    }
                },
                Status::Completed => {
                    proof {
                        lemma_ages_kept(rows, next, now, before, snapshot);
                    }
                },
            }
            i += 1;
        }
        proof {
            assert(self.jobs@.take(i as int) =~= self.jobs@);
            lemma_tally_is_snapshot(self.jobs@, self@, now, snapshot);
        }
        snapshot
    }
}

/// Whether a job passes a history filter, its limit aside.
fn passes_filter(job: &JobRecord, filter: &HistoryFilter) -> (r: bool)
    ensures
        r == passes(job@, filter@),
{
    let kind = match &filter.kind {
        Some(kind) => text_eq(job.kind.as_str(), kind.as_str()),
        None => true,
    };
    let status = match filter.status {
        Some(status) => job.status == status,
        None => true,
    };
    let since = match &filter.finished_since {
        Some(since) => match &job.finished_at {
            Some(finished) => !finished.before(since),
            None => false,
        },
        None => true,
    };
    let until = match &filter.finished_until {
        Some(until) => match &job.finished_at {
            Some(finished) => finished.before(until),
            None => false,
        },
        None => true,
    };
    let cursor = match &filter.created_before {
        Some((created, id)) => job.created_at.before(created) || (job.created_at.same_as(created)
            && job.id.0 < id.0),
        None => true,
    };
    kind && status && since && until && cursor
}

/// Whether a cleanup removes a job.
fn matches_criteria(job: &JobRecord, criteria: &CleanupCriteria) -> (r: bool)
    ensures
        r == cleaned_up(job@, criteria@),
{
    let finished = match &job.finished_at {
        Some(finished) => finished.before(&criteria.finished_before),
        None => false,
    };
    let kind = match &criteria.kind {
        Some(kind) => text_eq(job.kind.as_str(), kind.as_str()),
        None => true,
    };
    let status = match criteria.status {
        Some(status) => job.status == status,
        None => true,
    };
    finished && kind && status
}

/// Whether a job may follow the last one a page lists.
spec fn next_candidate(job: JobView, filter: FilterView, page: Seq<JobView>) -> bool {
    passes(job, filter) && (page.len() == 0 || older(job, page.last()))
}

/// Whether a job is the newest passing one a page does not list.
spec fn is_next_row(state: QueueState, filter: FilterView, page: Seq<JobView>, job: JobView) -> bool {
    &&& state.jobs.contains_key(job.id)
    &&& state.jobs[job.id] == job
    &&& next_candidate(job, filter, page)
    &&& forall|id: ulid::Ulid| #[trigger]
        state.jobs.contains_key(id) && passes(state.jobs[id], filter) && !lists(
            page,
            state.jobs[id],
        ) ==> id == job.id || older(state.jobs[id], job)
}

/// Whether a page lists the newest passing jobs, newest first, up to its length.
spec fn page_so_far(state: QueueState, filter: FilterView, page: Seq<JobView>) -> bool {
    &&& forall|i: int|
        0 <= i < page.len() ==> state.jobs.contains_key((#[trigger] page[i]).id)
            && state.jobs[page[i].id] == page[i] && passes(page[i], filter)
    &&& forall|i: int, j: int|
        0 <= i < j < page.len() ==> older(#[trigger] page[j], #[trigger] page[i])
    &&& forall|id: ulid::Ulid| #[trigger]
        state.jobs.contains_key(id) && passes(state.jobs[id], filter) && !lists(
            page,
            state.jobs[id],
        ) ==> forall|i: int| 0 <= i < page.len() ==> older(state.jobs[id], #[trigger] page[i])
}

proof fn lemma_page_grows(
    state: QueueState,
    filter: FilterView,
    page: Seq<JobView>,
    job: JobView,
)
    requires
        state.valid(),
        page_so_far(state, filter, page),
        is_next_row(state, filter, page, job),
    ensures
        page_so_far(state, filter, page.push(job)),
{
    let after = page.push(job);
    assert forall|i: int, j: int| 0 <= i < j < after.len() implies older(
        #[trigger] after[j],
        #[trigger] after[i],
    ) by {
        if j == page.len() {
            assert(after[j] == job);
            assert(after[i] == page[i]);
            if i < page.len() - 1 {
                assert(older(page[page.len() - 1], page[i]));
            }
        }
    }
    assert forall|id: ulid::Ulid| #[trigger]
        state.jobs.contains_key(id) && passes(state.jobs[id], filter) && !lists(
            after,
            state.jobs[id],
        ) implies forall|i: int| 0 <= i < after.len() ==> older(state.jobs[id], #[trigger] after[i]) by {
        if lists(page, state.jobs[id]) {
            let i = choose|i: int| 0 <= i < page.len() && #[trigger] page[i] == state.jobs[id];
            assert(after[i] == state.jobs[id]);
        }
        assert(after[page.len() as int] == job);
        assert forall|i: int| 0 <= i < after.len() implies older(
            state.jobs[id],
            #[trigger] after[i],
        ) by {
            if i < page.len() {
                assert(after[i] == page[i]);
            }
        }
    }
}

/// A page lists no more jobs than there are.
proof fn lemma_page_is_short(
    rows: Seq<JobRecord>,
    state: QueueState,
    filter: FilterView,
    page: Seq<JobView>,
)
    requires
        ids_distinct(rows),
        job_table(rows) == state.jobs,
        page_so_far(state, filter, page),
    ensures
        page.len() <= rows.len(),
{
    let ids = page.map_values(|job: JobView| job.id);
    let filed = rows.map_values(|row: JobRecord| row.id);
    assert(ids.no_duplicates()) by {
        assert forall|i: int, j: int| 0 <= i < ids.len() && 0 <= j < ids.len() && i != j implies ids[i]
            != ids[j] by {
            if i < j {
                assert(older(page[j], page[i]));
            } else {
                assert(older(page[i], page[j]));
            }
        }
    }
    ids.unique_seq_to_set();
    vstd::seq_lib::seq_to_set_is_finite(filed);
    assert(ids.to_set().subset_of(filed.to_set())) by {
        assert forall|id: ulid::Ulid| ids.to_set().contains(id) implies filed.to_set().contains(
            id,
        ) by {
            let i = choose|i: int| 0 <= i < ids.len() && ids[i] == id;
            assert(state.jobs.contains_key(page[i].id));
            let j = choose|j: int| row_of(rows, j, id);
            assert(filed[j] == id);
        }
    }
    vstd::set_lib::lemma_len_subset(ids.to_set(), filed.to_set());
    filed.lemma_cardinality_of_set();
}

proof fn lemma_row_removed(rows: Seq<JobRecord>, at: int)
    requires
        ids_distinct(rows),
        0 <= at < rows.len(),
    ensures
        ids_distinct(rows.remove(at)),
        job_table(rows.remove(at)) == job_table(rows).remove(rows[at].id),
{
    let after = rows.remove(at);
    let expected = job_table(rows).remove(rows[at].id);
    assert forall|i: int, j: int| 0 <= i < j < after.len() implies (#[trigger] after[i]).id != (
    #[trigger] after[j]).id by {
        let x = if i < at {
            i
        } else {
            i + 1
        };
        let y = if j < at {
            j
        } else {
            j + 1
        };
        assert(after[i] == rows[x]);
        assert(after[j] == rows[y]);
        assert(rows[x].id != rows[y].id);
    }
    lemma_rows_are_filed(rows);
    lemma_rows_are_filed(after);
    assert forall|id: ulid::Ulid|
        job_table(after).contains_key(id) == expected.contains_key(id) by {
        if job_table(after).contains_key(id) {
            let j = choose|j: int| row_of(after, j, id);
            let y = if j < at {
                j
            } else {
                j + 1
            };
            assert(row_of(rows, y, id));
            if y < at {
                assert(rows[y].id != rows[at].id);
            } else {
                assert(rows[at].id != rows[y].id);
            }
        }
        if expected.contains_key(id) {
            let j = choose|j: int| row_of(rows, j, id);
            if j < at {
                assert(row_of(after, j, id));
            } else {
                assert(row_of(after, j - 1, id));
            }
        }
    }
    assert forall|id: ulid::Ulid| job_table(after).contains_key(id) implies job_table(after)[id]
        == expected[id] by {
        let j = choose|j: int| row_of(after, j, id);
        let y = if j < at {
            j
        } else {
            j + 1
        };
        assert(after[j] == rows[y]);
        assert(job_table(after)[after[j].id] == after[j]@);
        assert(job_table(rows)[rows[y].id] == rows[y]@);
    }
    assert(job_table(after) =~= expected);
}

/// Whether a journal's entries belong to the jobs and identities of another.
spec fn journal_within(part: Seq<JournalView>, whole: Seq<JournalView>) -> bool {
    &&& forall|i: int|
        0 <= i < part.len() ==> whole.contains(#[trigger] part[i])
    &&& forall|i: int, j: int|
        0 <= i < j < part.len() ==> (#[trigger] part[i]).id < (#[trigger] part[j]).id
}

proof fn lemma_without_concat(a: Seq<JournalView>, b: Seq<JournalView>, gone: Set<ulid::Ulid>)
    ensures
        journal_without(a + b, gone) == journal_without(a, gone) + journal_without(b, gone),
    decreases b.len(),
{
    if b.len() == 0 {
        assert(a + b =~= a);
        assert(journal_without(a, gone) + journal_without(b, gone) =~= journal_without(a, gone));
    } else {
        lemma_without_concat(a, b.drop_last(), gone);
        assert((a + b).drop_last() =~= a + b.drop_last());
        assert((a + b).last() == b.last());
        assert(journal_without(a + b, gone) =~= journal_without(a, gone) + journal_without(
            b,
            gone,
        ));
    }
}

proof fn lemma_without_gone(entries: Seq<JournalView>, at: int, gone: Set<ulid::Ulid>)
    requires
        0 <= at < entries.len(),
        gone.contains(entries[at].job_id),
    ensures
        journal_without(entries.remove(at), gone) == journal_without(entries, gone),
{
    let head = entries.take(at);
    let tail = entries.skip(at + 1);
    let one = seq![entries[at]];
    assert(entries =~= head + one + tail);
    assert(entries.remove(at) =~= head + tail);
    lemma_without_concat(head + one, tail, gone);
    lemma_without_concat(head, one, gone);
    lemma_without_concat(head, tail, gone);
    assert(one.drop_last() =~= Seq::<JournalView>::empty());
    reveal_with_fuel(journal_without, 2);
    assert(journal_without(one, gone) =~= Seq::<JournalView>::empty());
    assert(journal_without(head, gone) + journal_without(one, gone) =~= journal_without(
        head,
        gone,
    ));
}

proof fn lemma_without_nothing(entries: Seq<JournalView>, gone: Set<ulid::Ulid>)
    requires
        forall|j: int| 0 <= j < entries.len() ==> !gone.contains((#[trigger] entries[j]).job_id),
    ensures
        journal_without(entries, gone) == entries,
    decreases entries.len(),
{
    if entries.len() == 0 {
        assert(entries =~= Seq::<JournalView>::empty());
    } else {
        let shorter = entries.drop_last();
        assert forall|j: int| 0 <= j < shorter.len() implies !gone.contains(
            (#[trigger] shorter[j]).job_id,
        ) by {
            assert(shorter[j] == entries[j]);
        }
        lemma_without_nothing(shorter, gone);
        assert(entries =~= shorter.push(entries.last()));
    }
}

/// The rows of a kind in a state.
spec fn rows_in(rows: Seq<JobRecord>, kind: Seq<char>, status: Status) -> Set<ulid::Ulid>
    decreases rows.len(),
{
    if rows.len() == 0 {
        Set::empty()
    } else {
        let rest = rows_in(rows.drop_last(), kind, status);
        if rows.last()@.kind == kind && rows.last().status == status {
            rest.insert(rows.last().id)
        } else {
            rest
        }
    }
}

/// The rows in a state.
spec fn rows_with(rows: Seq<JobRecord>, status: Status) -> Set<ulid::Ulid>
    decreases rows.len(),
{
    if rows.len() == 0 {
        Set::empty()
    } else {
        let rest = rows_with(rows.drop_last(), status);
        if rows.last().status == status {
            rest.insert(rows.last().id)
        } else {
            rest
        }
    }
}

proof fn lemma_rows_in_members(rows: Seq<JobRecord>, kind: Seq<char>, status: Status)
    ensures
        rows_in(rows, kind, status).finite(),
        rows_in(rows, kind, status).len() <= rows.len(),
        forall|id: ulid::Ulid| #[trigger]
            rows_in(rows, kind, status).contains(id) <==> exists|i: int|
                row_of(rows, i, id) && rows[i]@.kind == kind && rows[i].status == status,
    decreases rows.len(),
{
    if rows.len() > 0 {
        let shorter = rows.drop_last();
        lemma_rows_in_members(shorter, kind, status);
        assert forall|id: ulid::Ulid| #[trigger]
            rows_in(rows, kind, status).contains(id) <==> exists|i: int|
                row_of(rows, i, id) && rows[i]@.kind == kind && rows[i].status == status by {
            if rows_in(rows, kind, status).contains(id) {
                if rows_in(shorter, kind, status).contains(id) {
                    let i = choose|i: int|
                        row_of(shorter, i, id) && shorter[i]@.kind == kind && shorter[i].status
                            == status;
                    assert(row_of(rows, i, id));
                } else {
                    assert(row_of(rows, rows.len() - 1, id));
                }
            }
            if exists|i: int|
                row_of(rows, i, id) && rows[i]@.kind == kind && rows[i].status == status {
                let i = choose|i: int|
                    row_of(rows, i, id) && rows[i]@.kind == kind && rows[i].status == status;
                if i < shorter.len() {
                    assert(row_of(shorter, i, id));
                }
            }
        }
    }
}

proof fn lemma_rows_in_step(rows: Seq<JobRecord>, i: int, kind: Seq<char>, status: Status)
    requires
        ids_distinct(rows),
        0 <= i < rows.len(),
    ensures
        rows_in(rows.take(i + 1), kind, status) == (if rows[i]@.kind == kind && rows[i].status
            == status {
            rows_in(rows.take(i), kind, status).insert(rows[i].id)
        } else {
            rows_in(rows.take(i), kind, status)
        }),
        rows_in(rows.take(i), kind, status).finite(),
        rows_in(rows.take(i), kind, status).len() <= i,
        !rows_in(rows.take(i), kind, status).contains(rows[i].id),
{
    assert(rows.take(i + 1).drop_last() =~= rows.take(i));
    lemma_rows_in_members(rows.take(i), kind, status);
}

proof fn lemma_rows_with_members(rows: Seq<JobRecord>, status: Status)
    ensures
        rows_with(rows, status).finite(),
        rows_with(rows, status).len() <= rows.len(),
        forall|id: ulid::Ulid| #[trigger]
            rows_with(rows, status).contains(id) <==> exists|i: int|
                row_of(rows, i, id) && rows[i].status == status,
    decreases rows.len(),
{
    if rows.len() > 0 {
        let shorter = rows.drop_last();
        lemma_rows_with_members(shorter, status);
        assert forall|id: ulid::Ulid| #[trigger]
            rows_with(rows, status).contains(id) <==> exists|i: int|
                row_of(rows, i, id) && rows[i].status == status by {
            if rows_with(rows, status).contains(id) {
                if rows_with(shorter, status).contains(id) {
                    let i = choose|i: int| row_of(shorter, i, id) && shorter[i].status == status;
                    assert(row_of(rows, i, id));
                } else {
                    assert(row_of(rows, rows.len() - 1, id));
                }
            }
            if exists|i: int| row_of(rows, i, id) && rows[i].status == status {
                let i = choose|i: int| row_of(rows, i, id) && rows[i].status == status;
                if i < shorter.len() {
                    assert(row_of(shorter, i, id));
                }
            }
        }
    }
}

proof fn lemma_rows_with_step(rows: Seq<JobRecord>, i: int, status: Status)
    requires
        ids_distinct(rows),
        0 <= i < rows.len(),
    ensures
        rows_with(rows.take(i + 1), status) == (if rows[i].status == status {
            rows_with(rows.take(i), status).insert(rows[i].id)
        } else {
            rows_with(rows.take(i), status)
        }),
        rows_with(rows.take(i), status).finite(),
        rows_with(rows.take(i), status).len() <= i,
        !rows_with(rows.take(i), status).contains(rows[i].id),
{
    assert(rows.take(i + 1).drop_last() =~= rows.take(i));
    lemma_rows_with_members(rows.take(i), status);
}

proof fn lemma_rows_with_table(rows: Seq<JobRecord>, state: QueueState, status: Status)
    requires
        ids_distinct(rows),
        job_table(rows) == state.jobs,
    ensures
        rows_with(rows, status) == jobs_with(state, status),
{
    lemma_rows_are_filed(rows);
    lemma_rows_with_members(rows, status);
    assert forall|id: ulid::Ulid|
        rows_with(rows, status).contains(id) == jobs_with(state, status).contains(id) by {
        if rows_with(rows, status).contains(id) {
            let i = choose|i: int| row_of(rows, i, id) && rows[i].status == status;
            assert(job_table(rows)[rows[i].id] == rows[i]@);
        }
        if jobs_with(state, status).contains(id) {
            let i = choose|i: int| row_of(rows, i, id);
            assert(job_table(rows)[rows[i].id] == rows[i]@);
        }
    }
    assert(rows_with(rows, status) =~= jobs_with(state, status));
}

proof fn lemma_rows_in_table(
    rows: Seq<JobRecord>,
    state: QueueState,
    kind: Seq<char>,
    status: Status,
)
    requires
        ids_distinct(rows),
        job_table(rows) == state.jobs,
    ensures
        rows_in(rows, kind, status) == jobs_in(state, kind, status),
{
    lemma_rows_are_filed(rows);
    lemma_rows_in_members(rows, kind, status);
    assert forall|id: ulid::Ulid|
        rows_in(rows, kind, status).contains(id) == jobs_in(state, kind, status).contains(id) by {
        if rows_in(rows, kind, status).contains(id) {
            let i = choose|i: int|
                row_of(rows, i, id) && rows[i]@.kind == kind && rows[i].status == status;
            assert(job_table(rows)[rows[i].id] == rows[i]@);
        }
        if jobs_in(state, kind, status).contains(id) {
            let i = choose|i: int| row_of(rows, i, id);
            assert(job_table(rows)[rows[i].id] == rows[i]@);
        }
    }
    assert(rows_in(rows, kind, status) =~= jobs_in(state, kind, status));
}

/// Whether `age` is the age of the oldest pending row of a kind.
spec fn oldest_row_age(rows: Seq<JobRecord>, kind: Seq<char>, now: Timestamp, age: Duration) -> bool {
    &&& exists|i: int|
        0 <= i < rows.len() && (#[trigger] rows[i])@.kind == kind && rows[i].status is Pending
            && age.nanos() == elapsed(rows[i].created_at.nanos(), now.nanos())
    &&& forall|i: int|
        0 <= i < rows.len() && (#[trigger] rows[i])@.kind == kind && rows[i].status is Pending
            ==> elapsed(rows[i].created_at.nanos(), now.nanos()) <= age.nanos()
}

/// Whether a count map holds the number of rows per kind in a state, and only
/// kinds that have one.
spec fn counts_rows(
    rows: Seq<JobRecord>,
    counts: Map<Seq<char>, u64>,
    status: Status,
) -> bool {
    forall|kind: Seq<char>|
        #![trigger counts.contains_key(kind)]
        #![trigger rows_in(rows, kind, status)]
        (counts.contains_key(kind) <==> rows_in(rows, kind, status).len() > 0) && (
        counts.contains_key(kind) ==> counts[kind] == rows_in(rows, kind, status).len())
}

spec fn ages_rows(
    rows: Seq<JobRecord>,
    now: Timestamp,
    counts: Map<Seq<char>, u64>,
    ages: Map<Seq<char>, Duration>,
) -> bool {
    forall|kind: Seq<char>|
        #![trigger counts.contains_key(kind)]
        #![trigger ages.contains_key(kind)]
        (ages.contains_key(kind) <==> counts.contains_key(kind)) && (ages.contains_key(kind)
            ==> oldest_row_age(rows, kind, now, ages[kind]))
}

/// Whether a snapshot sums up the rows.
spec fn tallied(rows: Seq<JobRecord>, now: Timestamp, snapshot: Snapshot) -> bool {
    &&& counts_rows(rows, snapshot.pending_by_kind@, Status::Pending)
    &&& counts_rows(rows, snapshot.dead_by_kind@, Status::Dead)
    &&& ages_rows(rows, now, snapshot.pending_by_kind@, snapshot.oldest_pending_age@)
    &&& rows_with(rows, Status::Claimed).finite()
    &&& snapshot.claimed == rows_with(rows, Status::Claimed).len()
}

proof fn lemma_ages_kept(
    rows: Seq<JobRecord>,
    next: Seq<JobRecord>,
    now: Timestamp,
    before: Snapshot,
    after: Snapshot,
)
    requires
        next.len() > 0,
        next.drop_last() == rows,
        !(next.last().status is Pending),
        ages_rows(rows, now, before.pending_by_kind@, before.oldest_pending_age@),
        before.pending_by_kind@ == after.pending_by_kind@,
        before.oldest_pending_age@ == after.oldest_pending_age@,
    ensures
        ages_rows(next, now, after.pending_by_kind@, after.oldest_pending_age@),
{
    let ages = after.oldest_pending_age@;
    assert forall|kind: Seq<char>| #[trigger] ages.contains_key(kind) implies oldest_row_age(
        next,
        kind,
        now,
        ages[kind],
    ) by {
        let i = choose|i: int|
            0 <= i < rows.len() && (#[trigger] rows[i])@.kind == kind && rows[i].status is Pending
                && ages[kind].nanos() == elapsed(rows[i].created_at.nanos(), now.nanos());
        assert(next[i] == rows[i]);
        assert forall|i: int|
            0 <= i < next.len() && (#[trigger] next[i])@.kind == kind && next[i].status is Pending implies elapsed(
        next[i].created_at.nanos(), now.nanos()) <= ages[kind].nanos() by {
            assert(next[i] == rows[i]);
        }
    }
}

proof fn lemma_oldest_kept(
    rows: Seq<JobRecord>,
    next: Seq<JobRecord>,
    now: Timestamp,
    before: Snapshot,
    after: Snapshot,
    oldest: Duration,
    age: Duration,
)
    requires
        next.len() > 0,
        next.drop_last() == rows,
        next.last().status is Pending,
        age.nanos() == elapsed(next.last().created_at.nanos(), now.nanos()),
        counts_rows(rows, before.pending_by_kind@, Status::Pending),
        ages_rows(rows, now, before.pending_by_kind@, before.oldest_pending_age@),
        after.pending_by_kind@.dom() == before.pending_by_kind@.dom().insert(next.last()@.kind),
        after.oldest_pending_age@ == before.oldest_pending_age@.insert(next.last()@.kind, oldest),
        before.oldest_pending_age@.contains_key(next.last()@.kind) ==> oldest == (if
        before.oldest_pending_age@[next.last()@.kind].nanos() < age.nanos() {
            age
        } else {
            before.oldest_pending_age@[next.last()@.kind]
        }),
        !before.oldest_pending_age@.contains_key(next.last()@.kind) ==> oldest == age,
    ensures
        ages_rows(next, now, after.pending_by_kind@, after.oldest_pending_age@),
{
    let ages = after.oldest_pending_age@;
    let held = before.oldest_pending_age@;
    let key = next.last()@.kind;
    assert forall|kind: Seq<char>|
        #![trigger after.pending_by_kind@.contains_key(kind)]
        #![trigger ages.contains_key(kind)]
        (ages.contains_key(kind) <==> after.pending_by_kind@.contains_key(kind)) && (
        ages.contains_key(kind) ==> oldest_row_age(next, kind, now, ages[kind])) by {
        assert(held.contains_key(kind) <==> before.pending_by_kind@.contains_key(kind));
        assert(after.pending_by_kind@.contains_key(kind) <==> after.pending_by_kind@.dom().contains(
            kind,
        ));
        if ages.contains_key(kind) {
            if held.contains_key(kind) {
                assert(oldest_row_age(rows, kind, now, held[kind]));
                let i = choose|i: int|
                    0 <= i < rows.len() && (#[trigger] rows[i])@.kind == kind
                        && rows[i].status is Pending && held[kind].nanos() == elapsed(
                        rows[i].created_at.nanos(),
                        now.nanos(),
                    );
                assert(next[i] == rows[i]);
            } else {
                assert(rows_in(rows, kind, Status::Pending).len() == 0);
                lemma_rows_in_members(rows, kind, Status::Pending);
            }
            assert(next[next.len() - 1] == next.last());
            assert forall|i: int|
                0 <= i < next.len() && (#[trigger] next[i])@.kind == kind
                    && next[i].status is Pending implies elapsed(
            next[i].created_at.nanos(), now.nanos()) <= ages[kind].nanos() by {
                if i < rows.len() {
                    assert(next[i] == rows[i]);
                    if !held.contains_key(kind) {
                        assert(row_of(rows, i, rows[i].id));
                        assert(rows_in(rows, kind, Status::Pending).contains(rows[i].id));
                        assert(rows_in(rows, kind, Status::Pending) =~= Set::empty());
                    }
                }
            }
        }
    }
}

proof fn lemma_tally_is_snapshot(
    rows: Seq<JobRecord>,
    state: QueueState,
    now: Timestamp,
    snapshot: Snapshot,
)
    requires
        ids_distinct(rows),
        job_table(rows) == state.jobs,
        tallied(rows, now, snapshot),
    ensures
        snapshot_of(state, now, snapshot),
{
    lemma_rows_are_filed(rows);
    assert forall|kind: Seq<char>| #[trigger]
        counts_jobs(state, snapshot.pending_by_kind@, kind, Status::Pending) by {
        lemma_rows_in_members(rows, kind, Status::Pending);
        lemma_rows_in_table(rows, state, kind, Status::Pending);
    }
    assert forall|kind: Seq<char>| #[trigger]
        counts_jobs(state, snapshot.dead_by_kind@, kind, Status::Dead) by {
        lemma_rows_in_members(rows, kind, Status::Dead);
        lemma_rows_in_table(rows, state, kind, Status::Dead);
    }
    assert forall|kind: Seq<char>| #[trigger]
        snapshot.oldest_pending_age@.contains_key(kind) implies oldest_age(
        state,
        kind,
        now,
        snapshot.oldest_pending_age@[kind],
    ) by {
        let age = snapshot.oldest_pending_age@[kind];
        assert(oldest_row_age(rows, kind, now, age));
        let i = choose|i: int|
            0 <= i < rows.len() && (#[trigger] rows[i])@.kind == kind && rows[i].status is Pending
                && age.nanos() == elapsed(rows[i].created_at.nanos(), now.nanos());
        assert(jobs_in(state, kind, Status::Pending).contains(rows[i].id));
        assert forall|id: ulid::Ulid| #[trigger]
            jobs_in(state, kind, Status::Pending).contains(id) implies elapsed(
        state.jobs[id].created_at.nanos(), now.nanos()) <= age.nanos() by {
            let j = choose|j: int| row_of(rows, j, id);
            assert(rows[j]@ == state.jobs[id]);
        }
    }
    lemma_rows_with_table(rows, state, Status::Claimed);
}

} // verus!
