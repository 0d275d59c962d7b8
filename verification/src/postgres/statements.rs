//! The adapter's statements: their text, and the parameters bound to it.
//!
//! Nothing a caller supplies is interpolated into the text but a validated prefix;
//! every value is bound as a positional parameter.
use crate::error::{Error, ErrorView};
use crate::ids::{id_text, ulid_text};
use crate::instants::{Duration, Timestamp};
use crate::postgres::prefix::{channel, channel_name, TablePrefix};
use crate::store::{
    copy_json, copy_text, supported_tier, AppendView, CleanupCriteria, CriteriaView, FilterView,
    HistoryFilter, JournalAppend, MergePayload, NewJob, NewJobView, Settlement, Status,
};
use crate::text::{decimal, decimal_text, joined, optional_text, texts};
use vstd::prelude::*;

verus! {

/// The job columns selected by claim and history queries, in a fixed order so a row
/// can be read positionally.
pub const JOB_COLUMNS: &'static str =
    "id, kind, payload, priority, status, created_at, visible_at, claim_expires_at, claimed_by, finished_at, run_count, failure_count, carry, dedup_key";

/// The journal columns selected by journal queries, in a fixed order so a row can be
/// read positionally.
pub const JOURNAL_COLUMNS: &'static str =
    "id, job_id, kind, run_no, recorded_at, outcome, note, attachment";

/// A value bound to a statement.
#[derive(Debug)]
pub enum Param {
    /// A text.
    Text(String),
    /// A text or null.
    OptionalText(Option<String>),
    /// An array of texts.
    Texts(Vec<String>),
    /// A JSON value.
    Json(serde_json::Value),
    /// A JSON value or null.
    OptionalJson(Option<serde_json::Value>),
    /// A `smallint`.
    SmallInt(i16),
    /// An `integer`.
    Integer(i32),
    /// A `bigint`.
    BigInt(i64),
    /// A timestamp.
    Instant(Timestamp),
    /// A span, as a number of seconds.
    Seconds(Duration),
}

/// A [`Param`] with its texts as character sequences, a span in nanoseconds.
pub enum ParamView {
    /// See [`Param::Text`].
    Text(Seq<char>),
    /// See [`Param::OptionalText`].
    OptionalText(Option<Seq<char>>),
    /// See [`Param::Texts`].
    Texts(Seq<Seq<char>>),
    /// See [`Param::Json`].
    Json(serde_json::Value),
    /// See [`Param::OptionalJson`].
    OptionalJson(Option<serde_json::Value>),
    /// See [`Param::SmallInt`].
    SmallInt(i16),
    /// See [`Param::Integer`].
    Integer(i32),
    /// See [`Param::BigInt`].
    BigInt(i64),
    /// See [`Param::Instant`].
    Instant(Timestamp),
    /// See [`Param::Seconds`].
    Seconds(nat),
}

impl View for Param {
    type V = ParamView;

    open spec fn view(&self) -> ParamView {
        match self {
            Param::Text(text) => ParamView::Text(text@),
            Param::OptionalText(text) => ParamView::OptionalText(optional_text(*text)),
            Param::Texts(list) => ParamView::Texts(texts(list@)),
            Param::Json(value) => ParamView::Json(*value),
            Param::OptionalJson(value) => ParamView::OptionalJson(*value),
            Param::SmallInt(n) => ParamView::SmallInt(*n),
            Param::Integer(n) => ParamView::Integer(*n),
            Param::BigInt(n) => ParamView::BigInt(*n),
            Param::Instant(at) => ParamView::Instant(*at),
            Param::Seconds(span) => ParamView::Seconds(span.nanos()),
        }
    }
}

/// A statement to run, with the values bound to its placeholders in order.
#[derive(Debug)]
pub struct Statement {
    /// The SQL text.
    pub sql: String,
    /// The bound values.
    pub params: Vec<Param>,
}

/// A [`Statement`] with its texts as character sequences.
pub struct StatementView {
    /// See [`Statement::sql`].
    pub sql: Seq<char>,
    /// See [`Statement::params`].
    pub params: Seq<ParamView>,
}

/// The views of bound values.
pub open spec fn param_views(params: Seq<Param>) -> Seq<ParamView> {
    Seq::new(params.len(), |i: int| params[i]@)
}

impl View for Statement {
    type V = StatementView;

    open spec fn view(&self) -> StatementView {
        StatementView { sql: self.sql@, params: param_views(self.params@) }
    }
}

/// Copy a list of texts.
fn copy_texts(list: &[String]) -> (r: Vec<String>)
    ensures
        texts(r@) == texts(list@),
{
    let mut r: Vec<String> = Vec::new();
    let mut i: usize = 0;
    while i < list.len()
        invariant
            i <= list@.len(),
            r@.len() == i,
            forall|j: int| 0 <= j < i ==> (#[trigger] r@[j])@ == list@[j]@,
        decreases list@.len() - i,
    {
        r.push(list[i].clone());
        i += 1;
    }
    assert(texts(r@) =~= texts(list@));
    r
}

/// Whether a run number fits the storage column.
pub open spec fn storable(run_no: u32) -> bool {
    run_no <= i32::MAX
}

/// A run number in the form the storage column holds.
pub fn storable_run_no(run_no: u32) -> (r: Result<i32, Error>)
    ensures
        r is Ok <==> storable(run_no),
        r matches Ok(n) ==> n == run_no,
        r matches Err(error) ==> error@ == ErrorView::RunNumberOutOfRange(run_no),
{
    if run_no <= i32::MAX as u32 {
        Ok(run_no as i32)
    } else {
        Err(Error::RunNumberOutOfRange { run_no })
    }
}

/// The wakeup on a queue's channel.
pub open spec fn notify_statement(prefix: Seq<char>) -> StatementView {
    StatementView {
        sql: "SELECT pg_notify($1, '')"@,
        params: seq![ParamView::Text(channel_name(prefix))],
    }
}

/// Queue a wakeup on this queue's channel.
///
/// Issued inside the transaction of the row change that produced it, so the NOTIFY is
/// delivered on commit and discarded on rollback. The payload is empty: a woken
/// worker re-queries its claimable set rather than acting on the message contents.
pub fn notify(prefix: &TablePrefix) -> (r: Statement)
    ensures
        r@ == notify_statement(prefix@),
{
    let mut sql = "SELECT pg_notify($1, '')".to_owned();
    let params: Vec<Param> = vec![Param::Text(channel(prefix.as_str()))];
    let r = Statement { sql, params };
    assert(r@.params =~= notify_statement(prefix@).params);
    r
}

/// Taking the migration lock.
pub open spec fn lock_statement(key: i64) -> StatementView {
    StatementView {
        sql: "SELECT pg_advisory_lock($1)"@,
        params: seq![ParamView::BigInt(key)],
    }
}

/// Take the migration lock of a key.
pub fn lock(key: i64) -> (r: Statement)
    ensures
        r@ == lock_statement(key),
{
    let mut sql = "SELECT pg_advisory_lock($1)".to_owned();
    let params: Vec<Param> = vec![Param::BigInt(key)];
    let r = Statement { sql, params };
    assert(r@.params =~= lock_statement(key).params);
    r
}

/// Giving back the migration lock.
pub open spec fn unlock_statement(key: i64) -> StatementView {
    StatementView {
        sql: "SELECT pg_advisory_unlock($1)"@,
        params: seq![ParamView::BigInt(key)],
    }
}

/// Give back the migration lock of a key.
pub fn unlock(key: i64) -> (r: Statement)
    ensures
        r@ == unlock_statement(key),
{
    let mut sql = "SELECT pg_advisory_unlock($1)".to_owned();
    let params: Vec<Param> = vec![Param::BigInt(key)];
    let r = Statement { sql, params };
    assert(r@.params =~= unlock_statement(key).params);
    r
}

/// The insert of a new pending job.
pub open spec fn insert_job_statement(prefix: Seq<char>, job: NewJobView) -> StatementView {
    StatementView {
        sql: "INSERT INTO "@ + prefix + "_jobs (id, kind, payload, priority, status, created_at, visible_at, run_count, failure_count, carry, dedup_key) VALUES ($1, $2, $3, $4, 'pending', $5, $6, 0, 0, $7, $8)"@,
        params: seq![ParamView::Text(ulid_text(job.id.0)), ParamView::Text(job.kind), ParamView::Json(job.payload), ParamView::SmallInt(job.priority), ParamView::Instant(job.created_at), ParamView::Instant(job.visible_at), ParamView::Json(job.carry), ParamView::OptionalText(job.dedup_key)],
    }
}

/// Insert a new pending job.
pub fn insert_job(prefix: &TablePrefix, job: &NewJob) -> (r: Statement)
    ensures
        r@ == insert_job_statement(prefix@, job@),
{
    let mut sql = "INSERT INTO ".to_owned();
    sql.append(prefix.as_str());
    sql.append("_jobs (id, kind, payload, priority, status, created_at, visible_at, run_count, failure_count, carry, dedup_key) VALUES ($1, $2, $3, $4, 'pending', $5, $6, 0, 0, $7, $8)");
    let params: Vec<Param> = vec![Param::Text(id_text(job.id)), Param::Text(job.kind.clone()), Param::Json(job.payload.clone()), Param::SmallInt(job.priority), Param::Instant(job.created_at), Param::Instant(job.visible_at), Param::Json(job.carry.clone()), Param::OptionalText(copy_text(&job.dedup_key))];
    let r = Statement { sql, params };
    assert(r@.params =~= insert_job_statement(prefix@, job@).params);
    r
}

/// The atomic claim.
pub open spec fn claim_next_statement(prefix: Seq<char>, kinds: Seq<Seq<char>>, priority_floor: i16, lease: nat, claimed_by: Seq<char>) -> StatementView {
    StatementView {
        sql: "UPDATE "@ + prefix + "_jobs SET status = 'claimed', claimed_by = $1, claim_expires_at = now() + interval '1 second' * $2, run_count = run_count + 1 WHERE id = ( SELECT id FROM "@ + prefix + "_jobs WHERE status = 'pending' AND visible_at <= now() AND kind = ANY($3) AND priority >= $4 ORDER BY priority, created_at LIMIT 1 FOR UPDATE SKIP LOCKED ) RETURNING "@ + JOB_COLUMNS@,
        params: seq![ParamView::Text(claimed_by), ParamView::Seconds(lease), ParamView::Texts(kinds), ParamView::SmallInt(priority_floor)],
    }
}

/// Claim the next eligible job.
///
/// One atomic statement: lock and mark the highest-priority oldest eligible row whose
/// kind is asked for, skipping rows another claimer holds. `visible_at <= now()` is the
/// eligibility gate; the lease is stamped in database time so recovery is
/// clock-consistent across hosts.
pub fn claim_next(prefix: &TablePrefix, kinds: &[String], priority_floor: i16, lease: Duration, claimed_by: &str) -> (r: Statement)
    ensures
        r@ == claim_next_statement(prefix@, texts(kinds@), priority_floor, lease.nanos(), claimed_by@),
{
    let mut sql = "UPDATE ".to_owned();
    sql.append(prefix.as_str());
    sql.append("_jobs SET status = 'claimed', claimed_by = $1, claim_expires_at = now() + interval '1 second' * $2, run_count = run_count + 1 WHERE id = ( SELECT id FROM ");
    sql.append(prefix.as_str());
    sql.append("_jobs WHERE status = 'pending' AND visible_at <= now() AND kind = ANY($3) AND priority >= $4 ORDER BY priority, created_at LIMIT 1 FOR UPDATE SKIP LOCKED ) RETURNING ");
    sql.append(JOB_COLUMNS);
    let params: Vec<Param> = vec![Param::Text(claimed_by.to_owned()), Param::Seconds(lease), Param::Texts(copy_texts(kinds)), Param::SmallInt(priority_floor)];
    let r = Statement { sql, params };
    assert(r@.params =~= claim_next_statement(prefix@, texts(kinds@), priority_floor, lease.nanos(), claimed_by@).params);
    r
}

/// The append of a journal entry.
pub open spec fn insert_entry_statement(prefix: Seq<char>, id: ulid::Ulid, entry: AppendView, run_no: i32) -> StatementView {
    StatementView {
        sql: "INSERT INTO "@ + prefix + "_journal (job_id, kind, run_no, recorded_at, outcome, note, attachment) VALUES ($1, $2, $3, $4, $5, $6, $7)"@,
        params: seq![ParamView::Text(ulid_text(id.0)), ParamView::Text(entry.kind), ParamView::Integer(run_no), ParamView::Instant(entry.recorded_at), ParamView::Text(entry.outcome.column_text()), ParamView::OptionalText(entry.note), ParamView::OptionalJson(entry.attachment)],
    }
}

/// Append a journal entry, its run number in storable form.
pub fn insert_entry(prefix: &TablePrefix, id: ulid::Ulid, journal: &JournalAppend, run_no: i32) -> (r: Statement)
    ensures
        r@ == insert_entry_statement(prefix@, id, journal@, run_no),
{
    let mut sql = "INSERT INTO ".to_owned();
    sql.append(prefix.as_str());
    sql.append("_journal (job_id, kind, run_no, recorded_at, outcome, note, attachment) VALUES ($1, $2, $3, $4, $5, $6, $7)");
    let params: Vec<Param> = vec![Param::Text(id_text(id)), Param::Text(journal.kind.clone()), Param::Integer(run_no), Param::Instant(journal.recorded_at), Param::Text(journal.outcome.as_str().to_owned()), Param::OptionalText(copy_text(&journal.note)), Param::OptionalJson(copy_json(&journal.attachment))];
    let r = Statement { sql, params };
    assert(r@.params =~= insert_entry_statement(prefix@, id, journal@, run_no).params);
    r
}

/// The read of a job's journal.
pub open spec fn journal_statement(prefix: Seq<char>, id: ulid::Ulid) -> StatementView {
    StatementView {
        sql: "SELECT "@ + JOURNAL_COLUMNS@ + " FROM "@ + prefix + "_journal WHERE job_id = $1 ORDER BY id"@,
        params: seq![ParamView::Text(ulid_text(id.0))],
    }
}

/// Load a job's journal in chronological order.
pub fn journal(prefix: &TablePrefix, id: ulid::Ulid) -> (r: Statement)
    ensures
        r@ == journal_statement(prefix@, id),
{
    let mut sql = "SELECT ".to_owned();
    sql.append(JOURNAL_COLUMNS);
    sql.append(" FROM ");
    sql.append(prefix.as_str());
    sql.append("_journal WHERE job_id = $1 ORDER BY id");
    let params: Vec<Param> = vec![Param::Text(id_text(id))];
    let r = Statement { sql, params };
    assert(r@.params =~= journal_statement(prefix@, id).params);
    r
}

/// The read of the soonest future eligibility time.
pub open spec fn next_visible_at_statement(prefix: Seq<char>, kinds: Seq<Seq<char>>) -> StatementView {
    StatementView {
        sql: "SELECT min(visible_at) FROM "@ + prefix + "_jobs WHERE status = 'pending' AND kind = ANY($1) AND visible_at > now()"@,
        params: seq![ParamView::Texts(kinds)],
    }
}

/// Read the soonest future eligibility time among pending jobs of the kinds.
pub fn next_visible_at(prefix: &TablePrefix, kinds: &[String]) -> (r: Statement)
    ensures
        r@ == next_visible_at_statement(prefix@, texts(kinds@)),
{
    let mut sql = "SELECT min(visible_at) FROM ".to_owned();
    sql.append(prefix.as_str());
    sql.append("_jobs WHERE status = 'pending' AND kind = ANY($1) AND visible_at > now()");
    let params: Vec<Param> = vec![Param::Texts(copy_texts(kinds))];
    let r = Statement { sql, params };
    assert(r@.params =~= next_visible_at_statement(prefix@, texts(kinds@)).params);
    r
}

/// The scan for expired leases.
pub open spec fn find_stale_statement(prefix: Seq<char>) -> StatementView {
    StatementView {
        sql: "SELECT "@ + JOB_COLUMNS@ + " FROM "@ + prefix + "_jobs WHERE status = 'claimed' AND claim_expires_at < now() ORDER BY claim_expires_at LIMIT 100"@,
        params: seq![],
    }
}

/// Find claimed jobs whose lease has expired.
///
/// The batch is bounded so a large backlog of expired claims is recovered over several
/// ticks rather than in one oversized statement.
pub fn find_stale(prefix: &TablePrefix) -> (r: Statement)
    ensures
        r@ == find_stale_statement(prefix@),
{
    let mut sql = "SELECT ".to_owned();
    sql.append(JOB_COLUMNS);
    sql.append(" FROM ");
    sql.append(prefix.as_str());
    sql.append("_jobs WHERE status = 'claimed' AND claim_expires_at < now() ORDER BY claim_expires_at LIMIT 100");
    let params: Vec<Param> = vec![];
    let r = Statement { sql, params };
    assert(r@.params =~= find_stale_statement(prefix@).params);
    r
}

/// The read of one job.
pub open spec fn job_statement(prefix: Seq<char>, id: ulid::Ulid) -> StatementView {
    StatementView {
        sql: "SELECT "@ + JOB_COLUMNS@ + " FROM "@ + prefix + "_jobs WHERE id = $1"@,
        params: seq![ParamView::Text(ulid_text(id.0))],
    }
}

/// Fetch a single job by id.
pub fn job(prefix: &TablePrefix, id: ulid::Ulid) -> (r: Statement)
    ensures
        r@ == job_statement(prefix@, id),
{
    let mut sql = "SELECT ".to_owned();
    sql.append(JOB_COLUMNS);
    sql.append(" FROM ");
    sql.append(prefix.as_str());
    sql.append("_jobs WHERE id = $1");
    let params: Vec<Param> = vec![Param::Text(id_text(id))];
    let r = Statement { sql, params };
    assert(r@.params =~= job_statement(prefix@, id).params);
    r
}

/// The read of the oldest pending sibling.
pub open spec fn dedup_candidate_statement(prefix: Seq<char>, kind: Seq<char>, dedup_key: Seq<char>) -> StatementView {
    StatementView {
        sql: "SELECT "@ + JOB_COLUMNS@ + " FROM "@ + prefix + "_jobs WHERE kind = $1 AND dedup_key = $2 AND status = 'pending' ORDER BY created_at LIMIT 1"@,
        params: seq![ParamView::Text(kind), ParamView::Text(dedup_key)],
    }
}

/// Find the oldest pending job sharing a kind and deduplication key.
pub fn dedup_candidate(prefix: &TablePrefix, kind: &str, dedup_key: &str) -> (r: Statement)
    ensures
        r@ == dedup_candidate_statement(prefix@, kind@, dedup_key@),
{
    let mut sql = "SELECT ".to_owned();
    sql.append(JOB_COLUMNS);
    sql.append(" FROM ");
    sql.append(prefix.as_str());
    sql.append("_jobs WHERE kind = $1 AND dedup_key = $2 AND status = 'pending' ORDER BY created_at LIMIT 1");
    let params: Vec<Param> = vec![Param::Text(kind.to_owned()), Param::Text(dedup_key.to_owned())];
    let r = Statement { sql, params };
    assert(r@.params =~= dedup_candidate_statement(prefix@, kind@, dedup_key@).params);
    r
}

/// The pending backlog per kind.
pub open spec fn pending_stats_statement(prefix: Seq<char>) -> StatementView {
    StatementView {
        sql: "SELECT kind, count(*), min(created_at) FROM "@ + prefix + "_jobs WHERE status = 'pending' GROUP BY kind"@,
        params: seq![],
    }
}

/// Count the pending backlog per kind, with the oldest enqueue time.
pub fn pending_stats(prefix: &TablePrefix) -> (r: Statement)
    ensures
        r@ == pending_stats_statement(prefix@),
{
    let mut sql = "SELECT kind, count(*), min(created_at) FROM ".to_owned();
    sql.append(prefix.as_str());
    sql.append("_jobs WHERE status = 'pending' GROUP BY kind");
    let params: Vec<Param> = vec![];
    let r = Statement { sql, params };
    assert(r@.params =~= pending_stats_statement(prefix@).params);
    r
}

/// The number of claimed jobs.
pub open spec fn claimed_stats_statement(prefix: Seq<char>) -> StatementView {
    StatementView {
        sql: "SELECT count(*) FROM "@ + prefix + "_jobs WHERE status = 'claimed'"@,
        params: seq![],
    }
}

/// Count the claimed jobs.
pub fn claimed_stats(prefix: &TablePrefix) -> (r: Statement)
    ensures
        r@ == claimed_stats_statement(prefix@),
{
    let mut sql = "SELECT count(*) FROM ".to_owned();
    sql.append(prefix.as_str());
    sql.append("_jobs WHERE status = 'claimed'");
    let params: Vec<Param> = vec![];
    let r = Statement { sql, params };
    assert(r@.params =~= claimed_stats_statement(prefix@).params);
    r
}

/// The dead jobs per kind.
pub open spec fn dead_stats_statement(prefix: Seq<char>) -> StatementView {
    StatementView {
        sql: "SELECT kind, count(*) FROM "@ + prefix + "_jobs WHERE status = 'dead' GROUP BY kind"@,
        params: seq![],
    }
}

/// Count the dead jobs per kind.
pub fn dead_stats(prefix: &TablePrefix) -> (r: Statement)
    ensures
        r@ == dead_stats_statement(prefix@),
{
    let mut sql = "SELECT kind, count(*) FROM ".to_owned();
    sql.append(prefix.as_str());
    sql.append("_jobs WHERE status = 'dead' GROUP BY kind");
    let params: Vec<Param> = vec![];
    let r = Statement { sql, params };
    assert(r@.params =~= dead_stats_statement(prefix@).params);
    r
}

/// Insert a job and wake the workers, once its priority is a supported tier.
///
/// Both statements run in one transaction, so the NOTIFY is delivered exactly when
/// the row commits: a rollback discards both, and no committed row is ever left
/// without its wakeup.
pub fn enqueue(prefix: &TablePrefix, job: &NewJob) -> (r: Result<(Statement, Statement), Error>)
    ensures
        r is Ok <==> supported_tier(job.priority),
        r matches Ok((insert, wake)) ==> insert@ == insert_job_statement(prefix@, job@) && wake@
            == notify_statement(prefix@),
        r matches Err(error) ==> error@ == ErrorView::InvalidPriority(job.priority),
{
    match job.validate() {
        Ok(_) => Ok((insert_job(prefix, job), notify(prefix))),
        Err(error) => Err(error),
    }
}

/// A guarded update and the writes that follow it in the same transaction, only if
/// the guard matched.
#[derive(Debug)]
pub struct GuardedWrite {
    /// The guarded update.
    pub update: Statement,
    /// What follows it.
    pub follow_up: FollowUp,
}

/// The writes that follow a guarded update whose guard matched.
#[derive(Debug)]
pub struct FollowUp {
    /// The journal entry that records the update.
    pub journal: Statement,
    /// The wakeup, when the update returns a job to the claimable set.
    pub wake: Option<Statement>,
}

/// A [`GuardedWrite`] with its texts as character sequences.
pub struct GuardedWriteView {
    /// See [`GuardedWrite::update`].
    pub update: StatementView,
    /// See [`GuardedWrite::follow_up`].
    pub follow_up: FollowUpView,
}

/// A [`FollowUp`] with its texts as character sequences.
pub struct FollowUpView {
    /// See [`FollowUp::journal`].
    pub journal: StatementView,
    /// See [`FollowUp::wake`].
    pub wake: Option<StatementView>,
}

impl View for GuardedWrite {
    type V = GuardedWriteView;

    open spec fn view(&self) -> GuardedWriteView {
        GuardedWriteView { update: self.update@, follow_up: self.follow_up@ }
    }
}

impl View for FollowUp {
    type V = FollowUpView;

    open spec fn view(&self) -> FollowUpView {
        FollowUpView {
            journal: self.journal@,
            wake: match self.wake {
                Some(wake) => Some(wake@),
                None => None,
            },
        }
    }
}

/// The statements that follow a guarded update, given the rows it changed: none when
/// the guard did not match, so a miss leaves no orphan journal entry and wakes
/// nobody.
pub open spec fn following(follow_up: FollowUpView, affected: u64) -> Seq<StatementView> {
    if affected == 0 {
        Seq::empty()
    } else {
        match follow_up.wake {
            Some(wake) => seq![follow_up.journal, wake],
            None => seq![follow_up.journal],
        }
    }
}

/// The views of statements.
pub open spec fn statement_views(statements: Seq<Statement>) -> Seq<StatementView> {
    Seq::new(statements.len(), |i: int| statements[i]@)
}

impl FollowUp {
    /// The statements to run after the update changed `affected` rows, in order.
    pub fn after(self, affected: u64) -> (r: Vec<Statement>)
        ensures
            statement_views(r@) == following(self@, affected),
    {
        let mut r: Vec<Statement> = Vec::new();
        if affected > 0 {
            r.push(self.journal);
            match self.wake {
                Some(wake) => {
                    r.push(wake);
                },
                None => {},
            }
        }
        assert(statement_views(r@) =~= following(self@, affected));
        r
    }
}

/// Whether a settlement makes its job claimable again and so must wake workers.
///
/// Re-pending transitions (a retry, a pause's resume, a release back to the pool)
/// return a job to the claimable set and need a wakeup; terminal ones (completed,
/// dead) produce no claimable work and must not.
pub fn notifies_on_repend(settlement: &Settlement) -> (r: bool)
    ensures
        r == settlement.repends(),
{
    match settlement {
        Settlement::Retry { .. } | Settlement::Pause { .. } | Settlement::Release { .. } => true,
        Settlement::Complete { .. } | Settlement::Dead { .. } => false,
    }
}

/// What a settlement's update sets, before the claim columns are cleared.
pub open spec fn settle_set(settlement: Settlement) -> Seq<char> {
    match settlement {
        Settlement::Complete { .. } => "status = 'completed', finished_at = $4"@,
        Settlement::Retry { .. } =>
            "status = 'pending', visible_at = $4, failure_count = $5, carry = $6"@,
        Settlement::Pause { .. } => "status = 'pending', visible_at = $4, carry = $5"@,
        Settlement::Dead { .. } => "status = 'dead', finished_at = $4, failure_count = $5"@,
        Settlement::Release { .. } => "status = 'pending', visible_at = $4"@,
    }
}

/// The values a settlement's update sets.
pub open spec fn settle_values(settlement: Settlement) -> Seq<ParamView> {
    match settlement {
        Settlement::Complete { finished_at } => seq![ParamView::Instant(finished_at)],
        Settlement::Retry { visible_at, failure_count, carry } => seq![
            ParamView::Instant(visible_at),
            ParamView::Integer(failure_count),
            ParamView::Json(carry),
        ],
        Settlement::Pause { visible_at, carry } => seq![
            ParamView::Instant(visible_at),
            ParamView::Json(carry),
        ],
        Settlement::Dead { finished_at, failure_count } => seq![
            ParamView::Instant(finished_at),
            ParamView::Integer(failure_count),
        ],
        Settlement::Release { visible_at } => seq![ParamView::Instant(visible_at)],
    }
}

/// A settlement's update: it clears the claim columns and is guarded by claim
/// ownership at the claim epoch.
pub open spec fn settle_statement(
    prefix: Seq<char>,
    id: ulid::Ulid,
    claimed_by: Seq<char>,
    run_no: i32,
    settlement: Settlement,
) -> StatementView {
    StatementView {
        sql: "UPDATE "@ + prefix + "_jobs SET "@ + settle_set(settlement)
            + ", claimed_by = NULL, claim_expires_at = NULL WHERE id = $1 AND claimed_by = $2 AND run_count = $3 AND status = 'claimed'"@,
        params: seq![
            ParamView::Text(ulid_text(id.0)),
            ParamView::Text(claimed_by),
            ParamView::Integer(run_no),
        ] + settle_values(settlement),
    }
}

fn settle_update(
    prefix: &TablePrefix,
    id: ulid::Ulid,
    claimed_by: &str,
    run_no: i32,
    settlement: &Settlement,
) -> (r: Statement)
    ensures
        r@ == settle_statement(prefix@, id, claimed_by@, run_no, *settlement),
{
    let mut sql = "UPDATE ".to_owned();
    sql.append(prefix.as_str());
    sql.append("_jobs SET ");
    let mut params: Vec<Param> = vec![
        Param::Text(id_text(id)),
        Param::Text(claimed_by.to_owned()),
        Param::Integer(run_no),
    ];
    match settlement {
        Settlement::Complete { finished_at } => {
            sql.append("status = 'completed', finished_at = $4");
            params.push(Param::Instant(*finished_at));
        },
        Settlement::Retry { visible_at, failure_count, carry } => {
            sql.append("status = 'pending', visible_at = $4, failure_count = $5, carry = $6");
            params.push(Param::Instant(*visible_at));
            params.push(Param::Integer(*failure_count));
            params.push(Param::Json(carry.clone()));
        },
        Settlement::Pause { visible_at, carry } => {
            sql.append("status = 'pending', visible_at = $4, carry = $5");
            params.push(Param::Instant(*visible_at));
            params.push(Param::Json(carry.clone()));
        },
        Settlement::Dead { finished_at, failure_count } => {
            sql.append("status = 'dead', finished_at = $4, failure_count = $5");
            params.push(Param::Instant(*finished_at));
            params.push(Param::Integer(*failure_count));
        },
        Settlement::Release { visible_at } => {
            sql.append("status = 'pending', visible_at = $4");
            params.push(Param::Instant(*visible_at));
        },
    }
    sql.append(
        ", claimed_by = NULL, claim_expires_at = NULL WHERE id = $1 AND claimed_by = $2 AND run_count = $3 AND status = 'claimed'",
    );
    let r = Statement { sql, params };
    assert(r@.params =~= settle_statement(
        prefix@,
        id,
        claimed_by@,
        run_no,
        *settlement,
    ).params);
    r
}

/// Apply a settlement to a claimed job, guarded by claim ownership at the claim
/// epoch, so a handler cannot settle a job that was reclaimed and re-run, even under
/// the same worker identity. The transition and its journal entry share one
/// transaction, so the journal never records a settlement that did not apply.
pub fn settle(
    prefix: &TablePrefix,
    id: ulid::Ulid,
    claimed_by: &str,
    run_no: u32,
    settlement: &Settlement,
    journal: &JournalAppend,
) -> (r: Result<GuardedWrite, Error>)
    ensures
        r is Ok <==> storable(run_no) && storable(journal.run_no),
        r matches Ok(write) ==> write@ == (GuardedWriteView {
            update: settle_statement(prefix@, id, claimed_by@, run_no as i32, *settlement),
            follow_up: FollowUpView {
                journal: insert_entry_statement(prefix@, id, journal@, journal.run_no as i32),
                wake: if settlement.repends() {
                    Some(notify_statement(prefix@))
                } else {
                    None
                },
            },
        }),
        r matches Err(error) ==> error@ == ErrorView::RunNumberOutOfRange(
            if storable(run_no) {
                journal.run_no
            } else {
                run_no
            },
        ),
{
    let epoch: i32 = match storable_run_no(run_no) {
        Ok(epoch) => epoch,
        Err(error) => {
            return Err(error);
        },
    };
    let entry_run: i32 = match storable_run_no(journal.run_no) {
        Ok(run) => run,
        Err(error) => {
            return Err(error);
        },
    };
    let wake = if notifies_on_repend(settlement) {
        Some(notify(prefix))
    } else {
        None
    };
    Ok(
        GuardedWrite {
            update: settle_update(prefix, id, claimed_by, epoch, settlement),
            follow_up: FollowUp { journal: insert_entry(prefix, id, journal, entry_run), wake },
        },
    )
}

/// The update that re-pends a stale claim at its epoch.
pub open spec fn recover_statement(
    prefix: Seq<char>,
    id: ulid::Ulid,
    visible_at: Timestamp,
    failure_count: i32,
    run_no: i32,
) -> StatementView {
    StatementView {
        sql: "UPDATE "@ + prefix
            + "_jobs SET status = 'pending', visible_at = $2, failure_count = $3, claimed_by = NULL, claim_expires_at = NULL WHERE id = $1 AND status = 'claimed' AND claim_expires_at < now() AND run_count = $4"@,
        params: seq![
            ParamView::Text(ulid_text(id.0)),
            ParamView::Instant(visible_at),
            ParamView::Integer(failure_count),
            ParamView::Integer(run_no),
        ],
    }
}

/// Recover a stale claim at its epoch, re-pending it as a failed execution, and wake
/// the workers.
pub fn recover(
    prefix: &TablePrefix,
    id: ulid::Ulid,
    visible_at: Timestamp,
    failure_count: i32,
    run_no: u32,
    journal: &JournalAppend,
) -> (r: Result<GuardedWrite, Error>)
    ensures
        r is Ok <==> storable(run_no) && storable(journal.run_no),
        r matches Ok(write) ==> write@ == (GuardedWriteView {
            update: recover_statement(prefix@, id, visible_at, failure_count, run_no as i32),
            follow_up: FollowUpView {
                journal: insert_entry_statement(prefix@, id, journal@, journal.run_no as i32),
                wake: Some(notify_statement(prefix@)),
            },
        }),
        r matches Err(error) ==> error@ == ErrorView::RunNumberOutOfRange(
            if storable(run_no) {
                journal.run_no
            } else {
                run_no
            },
        ),
{
    let epoch: i32 = match storable_run_no(run_no) {
        Ok(epoch) => epoch,
        Err(error) => {
            return Err(error);
        },
    };
    let entry_run: i32 = match storable_run_no(journal.run_no) {
        Ok(run) => run,
        Err(error) => {
            return Err(error);
        },
    };
    let mut sql = "UPDATE ".to_owned();
    sql.append(prefix.as_str());
    sql.append(
        "_jobs SET status = 'pending', visible_at = $2, failure_count = $3, claimed_by = NULL, claim_expires_at = NULL WHERE id = $1 AND status = 'claimed' AND claim_expires_at < now() AND run_count = $4",
    );
    let params: Vec<Param> = vec![
        Param::Text(id_text(id)),
        Param::Instant(visible_at),
        Param::Integer(failure_count),
        Param::Integer(epoch),
    ];
    let update = Statement { sql, params };
    assert(update@.params =~= recover_statement(
        prefix@,
        id,
        visible_at,
        failure_count,
        epoch,
    ).params);
    Ok(
        GuardedWrite {
            update,
            follow_up: FollowUp {
                journal: insert_entry(prefix, id, journal, entry_run),
                wake: Some(notify(prefix)),
            },
        },
    )
}

/// The update that moves a held claim's lease.
pub open spec fn extend_lease_statement(
    prefix: Seq<char>,
    id: ulid::Ulid,
    claimed_by: Seq<char>,
    run_no: i32,
    lease: nat,
) -> StatementView {
    StatementView {
        sql: "UPDATE "@ + prefix
            + "_jobs SET claim_expires_at = now() + interval '1 second' * $4 WHERE id = $1 AND claimed_by = $2 AND run_count = $3 AND status = 'claimed'"@,
        params: seq![
            ParamView::Text(ulid_text(id.0)),
            ParamView::Text(claimed_by),
            ParamView::Integer(run_no),
            ParamView::Seconds(lease),
        ],
    }
}

/// Extend a claimed job's lease, guarded by claim ownership at the claim epoch.
pub fn extend_lease(
    prefix: &TablePrefix,
    id: ulid::Ulid,
    claimed_by: &str,
    run_no: u32,
    lease: Duration,
) -> (r: Result<Statement, Error>)
    ensures
        r is Ok <==> storable(run_no),
        r matches Ok(statement) ==> statement@ == extend_lease_statement(
            prefix@,
            id,
            claimed_by@,
            run_no as i32,
            lease.nanos(),
        ),
        r matches Err(error) ==> error@ == ErrorView::RunNumberOutOfRange(run_no),
{
    let epoch: i32 = match storable_run_no(run_no) {
        Ok(epoch) => epoch,
        Err(error) => {
            return Err(error);
        },
    };
    let mut sql = "UPDATE ".to_owned();
    sql.append(prefix.as_str());
    sql.append(
        "_jobs SET claim_expires_at = now() + interval '1 second' * $4 WHERE id = $1 AND claimed_by = $2 AND run_count = $3 AND status = 'claimed'",
    );
    let params: Vec<Param> = vec![
        Param::Text(id_text(id)),
        Param::Text(claimed_by.to_owned()),
        Param::Integer(epoch),
        Param::Seconds(lease),
    ];
    let r = Statement { sql, params };
    assert(r@.params =~= extend_lease_statement(
        prefix@,
        id,
        claimed_by@,
        epoch,
        lease.nanos(),
    ).params);
    Ok(r)
}

/// The update of a pending merge candidate; keeping it self-assigns a column, so the
/// same guarded statement reports whether it is still mergeable without changing it.
pub open spec fn merge_statement(
    prefix: Seq<char>,
    id: ulid::Ulid,
    update: Option<MergePayload>,
) -> StatementView {
    match update {
        Some(update) => StatementView {
            sql: "UPDATE "@ + prefix
                + "_jobs SET payload = $2, carry = $3, priority = $4 WHERE id = $1 AND status = 'pending'"@,
            params: seq![
                ParamView::Text(ulid_text(id.0)),
                ParamView::Json(update.payload),
                ParamView::Json(update.carry),
                ParamView::SmallInt(update.priority),
            ],
        },
        None => StatementView {
            sql: "UPDATE "@ + prefix
                + "_jobs SET dedup_key = dedup_key WHERE id = $1 AND status = 'pending'"@,
            params: seq![ParamView::Text(ulid_text(id.0))],
        },
    }
}

/// Apply a merge decision to a candidate, guarded by it still being pending.
pub fn merge_into(
    prefix: &TablePrefix,
    id: ulid::Ulid,
    update: Option<MergePayload>,
    journal: &JournalAppend,
) -> (r: Result<GuardedWrite, Error>)
    ensures
        r is Ok <==> storable(journal.run_no),
        r matches Ok(write) ==> write@ == (GuardedWriteView {
            update: merge_statement(prefix@, id, update),
            follow_up: FollowUpView {
                journal: insert_entry_statement(prefix@, id, journal@, journal.run_no as i32),
                wake: None,
            },
        }),
        r matches Err(error) ==> error@ == ErrorView::RunNumberOutOfRange(journal.run_no),
{
    let entry_run: i32 = match storable_run_no(journal.run_no) {
        Ok(run) => run,
        Err(error) => {
            return Err(error);
        },
    };
    let mut sql = "UPDATE ".to_owned();
    sql.append(prefix.as_str());
    let mut params: Vec<Param> = vec![Param::Text(id_text(id))];
    let ghost written = update;
    match update {
        Some(MergePayload { payload, carry, priority }) => {
            sql.append(
                "_jobs SET payload = $2, carry = $3, priority = $4 WHERE id = $1 AND status = 'pending'",
            );
            params.push(Param::Json(payload));
            params.push(Param::Json(carry));
            params.push(Param::SmallInt(priority));
        },
        None => {
            sql.append("_jobs SET dedup_key = dedup_key WHERE id = $1 AND status = 'pending'");
        },
    }
    let statement = Statement { sql, params };
    assert(statement@.params =~= merge_statement(prefix@, id, written).params);
    Ok(
        GuardedWrite {
            update: statement,
            follow_up: FollowUp {
                journal: insert_entry(prefix, id, journal, entry_run),
                wake: None,
            },
        },
    )
}

/// The conditions of a query, with the values they bind.
pub struct ConditionsView {
    /// The conditions.
    pub clauses: Seq<Seq<char>>,
    /// The bound values.
    pub params: Seq<ParamView>,
}

/// The placeholder of the `n`-th bound value.
pub open spec fn placeholder(n: nat) -> Seq<char> {
    "$"@ + decimal(n)
}

/// One condition more, against the next bound value.
pub open spec fn and_bound(
    conditions: ConditionsView,
    left: Seq<char>,
    value: ParamView,
) -> ConditionsView {
    ConditionsView {
        clauses: conditions.clauses.push(left + placeholder(conditions.params.len() + 1)),
        params: conditions.params.push(value),
    }
}

/// One condition more where a value is set.
pub open spec fn and_if(
    conditions: ConditionsView,
    left: Seq<char>,
    value: Option<ParamView>,
) -> ConditionsView {
    match value {
        Some(value) => and_bound(conditions, left, value),
        None => conditions,
    }
}

/// The keyset bound: a row-value comparison against the `(created_at, id)` the
/// result is ordered by, so a page is every row strictly older than the cursor.
pub open spec fn and_cursor(
    conditions: ConditionsView,
    cursor: Option<(Timestamp, ulid::Ulid)>,
) -> ConditionsView {
    match cursor {
        Some((created_at, id)) => ConditionsView {
            clauses: conditions.clauses.push(
                "(created_at, id) < ("@ + placeholder(conditions.params.len() + 1) + ", "@
                    + placeholder(conditions.params.len() + 2) + ")"@,
            ),
            params: conditions.params.push(ParamView::Instant(created_at)).push(
                ParamView::Text(ulid_text(id.0)),
            ),
        },
        None => conditions,
    }
}

/// An optional text as a bound value.
pub open spec fn text_value(text: Option<Seq<char>>) -> Option<ParamView> {
    match text {
        Some(text) => Some(ParamView::Text(text)),
        None => None,
    }
}

/// An optional state as a bound value.
pub open spec fn status_value(status: Option<Status>) -> Option<ParamView> {
    match status {
        Some(status) => Some(ParamView::Text(status.column_text())),
        None => None,
    }
}

/// An optional time as a bound value.
pub open spec fn instant_value(at: Option<Timestamp>) -> Option<ParamView> {
    match at {
        Some(at) => Some(ParamView::Instant(at)),
        None => None,
    }
}

/// The conditions a history filter sets: one per set field.
pub open spec fn filter_conditions(filter: FilterView) -> ConditionsView {
    let none = ConditionsView { clauses: Seq::empty(), params: Seq::empty() };
    let kind = and_if(none, "kind = "@, text_value(filter.kind));
    let status = and_if(kind, "status = "@, status_value(filter.status));
    let since = and_if(status, "finished_at >= "@, instant_value(filter.finished_since));
    let until = and_if(since, "finished_at < "@, instant_value(filter.finished_until));
    and_cursor(until, filter.created_before)
}

/// Conditions joined by `AND`.
pub open spec fn conjunction(clauses: Seq<Seq<char>>) -> Seq<char>
    decreases clauses.len(),
{
    if clauses.len() == 0 {
        Seq::empty()
    } else if clauses.len() == 1 {
        clauses[0]
    } else {
        conjunction(clauses.drop_last()) + " AND "@ + clauses.last()
    }
}

/// The history query of a filter: a condition per set field, newest first, limited
/// where a limit is set.
pub open spec fn query_jobs_statement(prefix: Seq<char>, filter: FilterView) -> StatementView {
    let conditions = filter_conditions(filter);
    let where_clause = if conditions.clauses.len() == 0 {
        Seq::empty()
    } else {
        "WHERE "@ + conjunction(conditions.clauses)
    };
    let ordered = "SELECT "@ + JOB_COLUMNS@ + " FROM "@ + prefix + "_jobs "@ + where_clause
        + " ORDER BY created_at DESC, id DESC "@;
    match filter.limit {
        Some(limit) => StatementView {
            sql: ordered + ("LIMIT "@ + placeholder(conditions.params.len() + 1)),
            params: conditions.params.push(ParamView::BigInt(limit)),
        },
        None => StatementView { sql: ordered, params: conditions.params },
    }
}

/// The conditions of a query being built.
struct Conditions {
    clauses: Vec<String>,
    params: Vec<Param>,
}

impl View for Conditions {
    type V = ConditionsView;

    closed spec fn view(&self) -> ConditionsView {
        ConditionsView { clauses: texts(self.clauses@), params: param_views(self.params@) }
    }
}

/// The placeholder of the `n`-th bound value.
fn placeholder_text(n: usize) -> (r: String)
    ensures
        r@ == placeholder(n as nat),
{
    joined("$", decimal_text(n as u64).as_str())
}

impl Conditions {
    /// Add a condition against the next bound value, where a value is set.
    fn and_if(&mut self, left: &str, value: Option<Param>)
        requires
            old(self)@.params.len() < 16,
        ensures
            final(self)@ == and_if(
                old(self)@,
                left@,
                match value {
                    Some(value) => Some(value@),
                    None => None,
                },
            ),
    {
        let ghost before = self@;
        match value {
            Some(value) => {
                let clause = joined(left, placeholder_text(self.params.len() + 1).as_str());
                let ghost added = (clause@, value@);
                self.params.push(value);
                self.clauses.push(clause);
                proof {
                    assert(self@.clauses =~= before.clauses.push(added.0));
                    assert(self@.params =~= before.params.push(added.1));
                }
            },
            None => {},
        }
    }

    /// Add the keyset bound, where a cursor is set.
    fn and_cursor(&mut self, cursor: &Option<(Timestamp, ulid::Ulid)>)
        requires
            old(self)@.params.len() < 16,
        ensures
            final(self)@ == and_cursor(old(self)@, *cursor),
    {
        let ghost before = self@;
        match cursor {
            Some((created_at, id)) => {
                let first = placeholder_text(self.params.len() + 1);
                let second = placeholder_text(self.params.len() + 2);
                let mut clause = joined("(created_at, id) < (", first.as_str());
                clause.append(", ");
                clause.append(second.as_str());
                clause.append(")");
                let ghost added = clause@;
                self.params.push(Param::Instant(*created_at));
                self.params.push(Param::Text(id_text(*id)));
                self.clauses.push(clause);
                proof {
                    assert(self@.clauses =~= before.clauses.push(added));
                    assert(self@.params =~= before.params.push(ParamView::Instant(*created_at)).push(
                        ParamView::Text(ulid_text(id.0)),
                    ));
                }
            },
            None => {},
        }
    }

    /// The conditions joined by `AND`.
    fn conjunction(&self) -> (r: String)
        ensures
            r@ == conjunction(self@.clauses),
    {
        let mut text = String::new();
        let mut i: usize = 0;
        assert(self@.clauses.take(0) =~= Seq::<Seq<char>>::empty());
        while i < self.clauses.len()
            invariant
                i <= self.clauses@.len(),
                text@ == conjunction(self@.clauses.take(i as int)),
            decreases self.clauses@.len() - i,
        {
            proof {
                let longer = self@.clauses.take(i + 1);
                assert(longer.drop_last() =~= self@.clauses.take(i as int));
                assert(longer.last() == self.clauses@[i as int]@);
            }
            if i == 0 {
                assert(text@ + self.clauses@[0]@ =~= self.clauses@[0]@);
            } else {
                text.append(" AND ");
            }
            text.append(self.clauses[i].as_str());
            i += 1;
        }
        assert(self@.clauses.take(i as int) =~= self@.clauses);
        text
    }
}

/// A state as a bound value.
fn status_param(status: &Option<Status>) -> (r: Option<Param>)
    ensures
        status_value(*status) == (match r {
            Some(value) => Some(value@),
            None => None,
        }),
{
    match status {
        Some(status) => Some(Param::Text(status.as_str().to_owned())),
        None => None,
    }
}

/// A text as a bound value.
fn text_param(text: &Option<String>) -> (r: Option<Param>)
    ensures
        text_value(optional_text(*text)) == (match r {
            Some(value) => Some(value@),
            None => None,
        }),
{
    match text {
        Some(text) => Some(Param::Text(text.clone())),
        None => None,
    }
}

/// A time as a bound value.
fn instant_param(at: &Option<Timestamp>) -> (r: Option<Param>)
    ensures
        instant_value(*at) == (match r {
            Some(value) => Some(value@),
            None => None,
        }),
{
    match at {
        Some(at) => Some(Param::Instant(*at)),
        None => None,
    }
}

/// Query jobs by the history filter, newest first, binding each set field as a
/// positional parameter so nothing is interpolated into the SQL.
pub fn query_jobs(prefix: &TablePrefix, filter: &HistoryFilter) -> (r: Statement)
    ensures
        r@ == query_jobs_statement(prefix@, filter@),
{
    let mut conditions = Conditions { clauses: Vec::new(), params: Vec::new() };
    assert(conditions@.clauses =~= Seq::<Seq<char>>::empty());
    assert(conditions@.params =~= Seq::<ParamView>::empty());
    conditions.and_if("kind = ", text_param(&filter.kind));
    conditions.and_if("status = ", status_param(&filter.status));
    conditions.and_if("finished_at >= ", instant_param(&filter.finished_since));
    conditions.and_if("finished_at < ", instant_param(&filter.finished_until));
    conditions.and_cursor(&filter.created_before);
    let ghost built = conditions@;
    assert(built == filter_conditions(filter@));

    let where_clause = if conditions.clauses.len() == 0 {
        String::new()
    } else {
        joined("WHERE ", conditions.conjunction().as_str())
    };
    let mut sql = "SELECT ".to_owned();
    sql.append(JOB_COLUMNS);
    sql.append(" FROM ");
    sql.append(prefix.as_str());
    sql.append("_jobs ");
    sql.append(where_clause.as_str());
    sql.append(" ORDER BY created_at DESC, id DESC ");
    let mut params = conditions.params;
    proof {
        history_query_binds_each_set_field(filter@);
        assert(param_views(params@) == built.params);
    }
    match filter.limit {
        Some(limit) => {
            let ghost bound = param_views(params@);
            let clause = joined("LIMIT ", placeholder_text(params.len() + 1).as_str());
            sql.append(clause.as_str());
            params.push(Param::BigInt(limit));
            assert(param_views(params@) =~= bound.push(ParamView::BigInt(limit)));
        },
        None => {},
    }
    Statement { sql, params }
}

/// The delete of the terminal jobs a cleanup matches. `finished_at < $1` already
/// restricts to terminal jobs, since only completed and dead rows have it set.
pub open spec fn cleanup_statement(prefix: Seq<char>, criteria: CriteriaView) -> StatementView {
    let finished = ConditionsView {
        clauses: seq!["finished_at IS NOT NULL"@, "finished_at < $1"@],
        params: seq![ParamView::Instant(criteria.finished_before)],
    };
    let kind = and_if(finished, "kind = "@, text_value(criteria.kind));
    let status = and_if(kind, "status = "@, status_value(criteria.status));
    StatementView {
        sql: "DELETE FROM "@ + prefix + "_jobs WHERE "@ + conjunction(status.clauses),
        params: status.params,
    }
}

/// Bulk-delete terminal jobs matching the criteria; the journal cascades.
pub fn cleanup(prefix: &TablePrefix, criteria: &CleanupCriteria) -> (r: Statement)
    ensures
        r@ == cleanup_statement(prefix@, criteria@),
{
    let mut conditions = Conditions {
        clauses: vec!["finished_at IS NOT NULL".to_owned(), "finished_at < $1".to_owned()],
        params: vec![Param::Instant(criteria.finished_before)],
    };
    assert(conditions@.clauses =~= seq!["finished_at IS NOT NULL"@, "finished_at < $1"@]);
    assert(conditions@.params =~= seq![ParamView::Instant(criteria.finished_before)]);
    conditions.and_if("kind = ", text_param(&criteria.kind));
    conditions.and_if("status = ", status_param(&criteria.status));
    let mut sql = "DELETE FROM ".to_owned();
    sql.append(prefix.as_str());
    sql.append("_jobs WHERE ");
    sql.append(conditions.conjunction().as_str());
    Statement { sql, params: conditions.params }
}

/// A settlement, a recovery, or a merge that did not apply leaves no journal entry
/// and wakes nobody.
pub proof fn refused_writes_leave_no_trace(follow_up: FollowUpView)
    ensures
        following(follow_up, 0).len() == 0,
{
}

/// An applied write always journals first, and wakes the workers exactly when it
/// returns a job to the claimable set.
pub proof fn applied_writes_are_journaled(follow_up: FollowUpView, affected: u64)
    requires
        affected > 0,
    ensures
        following(follow_up, affected).len() >= 1,
        following(follow_up, affected)[0] == follow_up.journal,
        following(follow_up, affected).len() == 2 <==> follow_up.wake is Some,
        follow_up.wake matches Some(wake) ==> following(follow_up, affected)[1] == wake,
{
}

/// A history query's conditions bind one value per set field, and two for the
/// cursor.
pub proof fn history_query_binds_each_set_field(filter: FilterView)
    ensures
        filter_conditions(filter).params.len() == (if filter.kind is Some {
            1int
        } else {
            0
        }) + (if filter.status is Some {
            1int
        } else {
            0
        }) + (if filter.finished_since is Some {
            1int
        } else {
            0
        }) + (if filter.finished_until is Some {
            1int
        } else {
            0
        }) + (if filter.created_before is Some {
            2int
        } else {
            0
        }),
{
}

} // verus!
