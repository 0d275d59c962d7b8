//! From stored rows to the store's value types.
use crate::error::{debug_form, quoted, Error, ErrorView};
use crate::ids::{id_from_text, id_text_reads_back, is_ulid_text, ulid_bits, ulid_text};
use crate::instants::{elapsed, Duration, Timestamp};
use crate::kinds::KindMap;
use crate::store::{
    outcome_text_is_unambiguous, status_text_is_unambiguous, AppendView, JobRecord, JobView,
    JournalOutcome, JournalRecord, JournalView, Snapshot, Status,
};
use crate::text::{joined, optional_text};
use vstd::prelude::*;

verus! {

/// A job row as stored, its columns in selection order.
pub struct JobRow {
    /// The identity's text.
    pub id: String,
    /// The kind.
    pub kind: String,
    /// The payload.
    pub payload: serde_json::Value,
    /// The priority tier.
    pub priority: i16,
    /// The lifecycle state's text.
    pub status: String,
    /// When the job was enqueued.
    pub created_at: Timestamp,
    /// When the job becomes eligible.
    pub visible_at: Timestamp,
    /// When the lease expires.
    pub claim_expires_at: Option<Timestamp>,
    /// Who holds the claim.
    pub claimed_by: Option<String>,
    /// When the job finished.
    pub finished_at: Option<Timestamp>,
    /// The executions so far.
    pub run_count: i32,
    /// The failed executions so far.
    pub failure_count: i32,
    /// The carried state.
    pub carry: serde_json::Value,
    /// The deduplication key.
    pub dedup_key: Option<String>,
}

/// The identity a text names.
pub open spec fn id_named(text: Seq<char>) -> ulid::Ulid {
    ulid::Ulid(ulid_bits(text) as u128)
}

/// Whether a text names a lifecycle state.
pub open spec fn names_status(text: Seq<char>) -> bool {
    exists|status: Status| #[trigger] status.column_text() == text
}

/// The lifecycle state a text names.
pub open spec fn status_named(text: Seq<char>) -> Status {
    choose|status: Status| #[trigger] status.column_text() == text
}

/// Whether a text names a journal outcome.
pub open spec fn names_outcome(text: Seq<char>) -> bool {
    exists|outcome: JournalOutcome| #[trigger] outcome.column_text() == text
}

/// The journal outcome a text names.
pub open spec fn outcome_named(text: Seq<char>) -> JournalOutcome {
    choose|outcome: JournalOutcome| #[trigger] outcome.column_text() == text
}

/// A stored run number; one below zero counts as none.
pub open spec fn run_number(stored: i32) -> u32 {
    if stored < 0 {
        0
    } else {
        stored as u32
    }
}

/// Read a stored run number; one below zero counts as none.
pub fn run_no_from_storage(stored: i32) -> (r: u32)
    ensures
        r == run_number(stored),
{
    if stored < 0 {
        0
    } else {
        stored as u32
    }
}

/// The text of an error about a stored value that means nothing.
pub open spec fn unreadable_text(
    what: Seq<char>,
    quoted_value: Seq<char>,
    why: Seq<char>,
) -> Seq<char> {
    what + quoted_value + why
}

/// The error about a stored value that means nothing, given the quoted value.
pub fn unreadable(what: &str, quoted_value: &str, why: &str) -> (r: Error)
    ensures
        r@ == ErrorView::Config(unreadable_text(what@, quoted_value@, why@)),
{
    let mut text = joined(what, quoted_value);
    text.append(why);
    Error::Config(text)
}

/// The record a job row stands for, or what is wrong with the row.
pub open spec fn job_of_row(row: JobRow) -> Result<JobView, ErrorView> {
    if !is_ulid_text(row.id@) {
        Err(
            ErrorView::Config(
                unreadable_text("stored job id "@, debug_form(row.id@), " is not a valid ULID"@),
            ),
        )
    } else if !names_status(row.status@) {
        Err(
            ErrorView::Config(
                unreadable_text("stored job status "@, debug_form(row.status@), " is unknown"@),
            ),
        )
    } else {
        Ok(
            JobView {
                id: id_named(row.id@),
                kind: row.kind@,
                payload: row.payload,
                priority: row.priority,
                status: status_named(row.status@),
                created_at: row.created_at,
                visible_at: row.visible_at,
                claim_expires_at: row.claim_expires_at,
                claimed_by: optional_text(row.claimed_by),
                finished_at: row.finished_at,
                run_count: run_number(row.run_count),
                failure_count: row.failure_count,
                carry: row.carry,
                dedup_key: optional_text(row.dedup_key),
            },
        )
    }
}

/// Build a [`JobRecord`] from a row.
pub fn job_from_row(row: JobRow) -> (r: Result<JobRecord, Error>)
    ensures
        r is Ok <==> job_of_row(row) is Ok,
        r matches Ok(job) ==> job_of_row(row) == Ok::<JobView, ErrorView>(job@),
        r matches Err(error) ==> job_of_row(row) == Err::<JobView, ErrorView>(error@),
{
    let id = match id_from_text(row.id.as_str()) {
        Some(id) => id,
        None => {
            let shown = quoted(row.id.as_str());
            return Err(unreadable("stored job id ", shown.as_str(), " is not a valid ULID"));
        },
    };
    let status = match Status::from_db(row.status.as_str()) {
        Some(status) => status,
        None => {
            let shown = quoted(row.status.as_str());
            return Err(unreadable("stored job status ", shown.as_str(), " is unknown"));
        },
    };
    proof {
        status_text_is_unambiguous(status, status_named(row.status@));
    }
    Ok(
        JobRecord {
            id,
            kind: row.kind,
            payload: row.payload,
            priority: row.priority,
            status,
            created_at: row.created_at,
            visible_at: row.visible_at,
            claim_expires_at: row.claim_expires_at,
            claimed_by: row.claimed_by,
            finished_at: row.finished_at,
            run_count: run_no_from_storage(row.run_count),
            failure_count: row.failure_count,
            carry: row.carry,
            dedup_key: row.dedup_key,
        },
    )
}

/// Whether a row is how a job is stored.
pub open spec fn stores_job(row: JobRow, job: JobView) -> bool {
    &&& row.id@ == ulid_text(job.id.0)
    &&& row.kind@ == job.kind
    &&& row.payload == job.payload
    &&& row.priority == job.priority
    &&& row.status@ == job.status.column_text()
    &&& row.created_at == job.created_at
    &&& row.visible_at == job.visible_at
    &&& row.claim_expires_at == job.claim_expires_at
    &&& optional_text(row.claimed_by) == job.claimed_by
    &&& row.finished_at == job.finished_at
    &&& row.run_count == job.run_count
    &&& row.failure_count == job.failure_count
    &&& row.carry == job.carry
    &&& optional_text(row.dedup_key) == job.dedup_key
}

/// A stored job reads back as it was.
pub proof fn stored_job_reads_back(row: JobRow, job: JobView)
    requires
        stores_job(row, job),
    ensures
        job_of_row(row) == Ok::<JobView, ErrorView>(job),
{
    id_text_reads_back(job.id.0);
    status_text_is_unambiguous(job.status, status_named(row.status@));
}

/// A journal row as stored, its columns in selection order.
pub struct JournalRow {
    /// The entry's identity.
    pub id: i64,
    /// The job's identity, as text.
    pub job_id: String,
    /// The job's kind.
    pub kind: String,
    /// The run number.
    pub run_no: i32,
    /// When the entry was written.
    pub recorded_at: Timestamp,
    /// The outcome's text.
    pub outcome: String,
    /// The note.
    pub note: Option<String>,
    /// The attachment.
    pub attachment: Option<serde_json::Value>,
}

/// The record a journal row stands for, or what is wrong with the row.
pub open spec fn journal_of_row(row: JournalRow) -> Result<JournalView, ErrorView> {
    if !is_ulid_text(row.job_id@) {
        Err(
            ErrorView::Config(
                unreadable_text("journal job_id "@, debug_form(row.job_id@), " is not a valid ULID"@),
            ),
        )
    } else if !names_outcome(row.outcome@) {
        Err(
            ErrorView::Config(
                unreadable_text("journal outcome "@, debug_form(row.outcome@), " is unknown"@),
            ),
        )
    } else {
        Ok(
            JournalView {
                id: row.id,
                job_id: id_named(row.job_id@),
                entry: AppendView {
                    kind: row.kind@,
                    run_no: run_number(row.run_no),
                    recorded_at: row.recorded_at,
                    outcome: outcome_named(row.outcome@),
                    note: optional_text(row.note),
                    attachment: row.attachment,
                },
            },
        )
    }
}

/// Build a [`JournalRecord`] from a row.
pub fn journal_from_row(row: JournalRow) -> (r: Result<JournalRecord, Error>)
    ensures
        r is Ok <==> journal_of_row(row) is Ok,
        r matches Ok(record) ==> journal_of_row(row) == Ok::<JournalView, ErrorView>(record@),
        r matches Err(error) ==> journal_of_row(row) == Err::<JournalView, ErrorView>(error@),
{
    let job_id = match id_from_text(row.job_id.as_str()) {
        Some(id) => id,
        None => {
            let shown = quoted(row.job_id.as_str());
            return Err(unreadable("journal job_id ", shown.as_str(), " is not a valid ULID"));
        },
    };
    let outcome = match JournalOutcome::from_db(row.outcome.as_str()) {
        Some(outcome) => outcome,
        None => {
            let shown = quoted(row.outcome.as_str());
            return Err(unreadable("journal outcome ", shown.as_str(), " is unknown"));
        },
    };
    proof {
        outcome_text_is_unambiguous(outcome, outcome_named(row.outcome@));
    }
    Ok(
        JournalRecord {
            id: row.id,
            job_id,
            kind: row.kind,
            run_no: run_no_from_storage(row.run_no),
            recorded_at: row.recorded_at,
            outcome,
            note: row.note,
            attachment: row.attachment,
        },
    )
}

/// Whether a row is how a journal entry is stored.
pub open spec fn stores_entry(row: JournalRow, record: JournalView) -> bool {
    &&& row.id == record.id
    &&& row.job_id@ == ulid_text(record.job_id.0)
    &&& row.kind@ == record.entry.kind
    &&& row.run_no == record.entry.run_no
    &&& row.recorded_at == record.entry.recorded_at
    &&& row.outcome@ == record.entry.outcome.column_text()
    &&& optional_text(row.note) == record.entry.note
    &&& row.attachment == record.entry.attachment
}

/// A stored journal entry reads back as it was.
pub proof fn stored_entry_reads_back(row: JournalRow, record: JournalView)
    requires
        stores_entry(row, record),
    ensures
        journal_of_row(row) == Ok::<JournalView, ErrorView>(record),
{
    id_text_reads_back(record.job_id.0);
    outcome_text_is_unambiguous(record.entry.outcome, outcome_named(row.outcome@));
}

/// A kind's pending backlog, as counted by the database.
pub struct PendingRow {
    /// The kind.
    pub kind: String,
    /// The number of pending jobs.
    pub count: i64,
    /// When the oldest was enqueued.
    pub oldest: Timestamp,
}

/// A kind's number of dead jobs, as counted by the database.
pub struct DeadRow {
    /// The kind.
    pub kind: String,
    /// The number of dead jobs.
    pub count: i64,
}

/// A count read from the database; one below zero counts as none.
pub open spec fn stored_count(count: i64) -> u64 {
    if count < 0 {
        0
    } else {
        count as u64
    }
}

/// Read a count; one below zero counts as none.
fn count_from_storage(count: i64) -> (r: u64)
    ensures
        r == stored_count(count),
{
    if count < 0 {
        0
    } else {
        count as u64
    }
}

/// The backlog per kind.
pub open spec fn pending_counts(rows: Seq<PendingRow>) -> Map<Seq<char>, u64>
    decreases rows.len(),
{
    if rows.len() == 0 {
        Map::empty()
    } else {
        pending_counts(rows.drop_last()).insert(
            rows.last().kind@,
            stored_count(rows.last().count),
        )
    }
}

/// The age of the oldest pending job per kind, in nanoseconds.
pub open spec fn pending_ages(rows: Seq<PendingRow>, now: Timestamp) -> Map<Seq<char>, nat>
    decreases rows.len(),
{
    if rows.len() == 0 {
        Map::empty()
    } else {
        pending_ages(rows.drop_last(), now).insert(
            rows.last().kind@,
            elapsed(rows.last().oldest.nanos(), now.nanos()),
        )
    }
}

/// The dead jobs per kind.
pub open spec fn dead_counts(rows: Seq<DeadRow>) -> Map<Seq<char>, u64>
    decreases rows.len(),
{
    if rows.len() == 0 {
        Map::empty()
    } else {
        dead_counts(rows.drop_last()).insert(rows.last().kind@, stored_count(rows.last().count))
    }
}

/// Build a snapshot from the database's grouped counts.
pub fn snapshot_from_rows(
    pending: Vec<PendingRow>,
    claimed: i64,
    dead: Vec<DeadRow>,
    now: Timestamp,
) -> (r: Snapshot)
    ensures
        r.pending_by_kind@ == pending_counts(pending@),
        r.oldest_pending_age@.map_values(|age: Duration| age.nanos()) == pending_ages(
            pending@,
            now,
        ),
        r.claimed == stored_count(claimed),
        r.dead_by_kind@ == dead_counts(dead@),
{
    let mut pending_by_kind: KindMap<u64> = KindMap::new();
    let mut oldest_pending_age: KindMap<Duration> = KindMap::new();
    let mut dead_by_kind: KindMap<u64> = KindMap::new();
    let mut i: usize = 0;
    assert(pending@.take(0) =~= Seq::empty());
    assert(oldest_pending_age@.map_values(|age: Duration| age.nanos()) =~= Map::empty());
    while i < pending.len()
        invariant
            i <= pending@.len(),
            pending_by_kind@ == pending_counts(pending@.take(i as int)),
            oldest_pending_age@.map_values(|age: Duration| age.nanos()) == pending_ages(
                pending@.take(i as int),
                now,
            ),
        decreases pending@.len() - i,
    {
        proof {
            assert(pending@.take(i + 1).drop_last() =~= pending@.take(i as int));
        }
        let row = &pending[i];
        let ghost held = oldest_pending_age@;
        pending_by_kind.insert(row.kind.clone(), count_from_storage(row.count));
        let age = now.since(&row.oldest);
        oldest_pending_age.insert(row.kind.clone(), age);
        assert(oldest_pending_age@.map_values(|age: Duration| age.nanos()) =~= held.map_values(
            |age: Duration| age.nanos(),
        ).insert(row.kind@, age.nanos()));
        i += 1;
    }
    assert(pending@.take(i as int) =~= pending@);
    let mut k: usize = 0;
    assert(dead@.take(0) =~= Seq::empty());
    while k < dead.len()
        invariant
            k <= dead@.len(),
            dead_by_kind@ == dead_counts(dead@.take(k as int)),
        decreases dead@.len() - k,
    {
        proof {
            assert(dead@.take(k + 1).drop_last() =~= dead@.take(k as int));
        }
        dead_by_kind.insert(dead[k].kind.clone(), count_from_storage(dead[k].count));
        k += 1;
    }
    assert(dead@.take(k as int) =~= dead@);
    Snapshot {
        pending_by_kind,
        oldest_pending_age,
        claimed: count_from_storage(claimed),
        dead_by_kind,
    }
}

} // verus!
