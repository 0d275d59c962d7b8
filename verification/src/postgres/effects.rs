//! What the adapter's statements do: run on stored rows, each is the transition of the
//! lifecycle that it stands for.
use crate::error::Error;
use crate::ids::{id_text_reads_back, ulid_text};
use crate::instants::{calendar_instant, lemma_lies_after, lies_after, Duration, Timestamp};
use crate::lifecycle::{
    claim_step, claimable, claimed_row, claims_next, enqueue_step, extend_step, fresh_row,
    holds_claim, merge_applies, merge_step, names_kind, recover_applies, recover_step,
    settle_applies, settle_step, QueueState,
};
use crate::postgres::notify::listen_text;
use crate::postgres::prefix::{channel, TablePrefix};
use crate::postgres::sql::{
    ahead, appends, assignment_texts, assignments_are_determined, bound, cell, column_names,
    condition_texts, entry_inserts_are_determined, equals, expr_texts, inserts,
    inserts_are_determined, journal_column_names, listed, meets, notifies, order_texts, reassigned,
    row_columns, updates, updates_are_determined, writes, Column, Condition, Datum, Direction,
    EntryInsert, Expr, Insert, JournalColumn, Test, Update, UpdateFirst,
};
use crate::postgres::statements::{
    claim_next, conjunction, enqueue, extend_lease, insert_entry, insert_entry_statement,
    insert_job_statement, lock, merge_into, notify, recover, settle, settle_set, unlock,
    GuardedWrite, ParamView, Statement, StatementView, JOB_COLUMNS,
};
use crate::store::{
    status_text_is_unambiguous, AppendView, JobView, JournalAppend, JournalView, MergePayload,
    NewJob, NewJobView, Settlement, Status,
};
use crate::text::{decimal, optional_text, texts};
use vstd::prelude::*;

verus! {

spec fn insert_reading() -> Insert {
    Insert {
        columns: seq![
            Column::Id,
            Column::Kind,
            Column::Payload,
            Column::Priority,
            Column::Status,
            Column::CreatedAt,
            Column::VisibleAt,
            Column::RunCount,
            Column::FailureCount,
            Column::Carry,
            Column::DedupKey,
        ],
        values: seq![
            Expr::Placeholder(1),
            Expr::Placeholder(2),
            Expr::Placeholder(3),
            Expr::Placeholder(4),
            Expr::State(Status::Pending),
            Expr::Placeholder(5),
            Expr::Placeholder(6),
            Expr::Number(0),
            Expr::Number(0),
            Expr::Placeholder(7),
            Expr::Placeholder(8),
        ],
    }
}

proof fn lemma_insert_text(prefix: Seq<char>, job: NewJobView)
    ensures
        insert_reading().text(prefix) == insert_job_statement(prefix, job).sql,
{
    reveal_with_fuel(listed, 12);
    reveal_with_fuel(decimal, 2);
    reveal_strlit("$");
    reveal_strlit("'");
    reveal_strlit(", ");
    reveal_strlit("id");
    reveal_strlit("kind");
    reveal_strlit("payload");
    reveal_strlit("priority");
    reveal_strlit("status");
    reveal_strlit("created_at");
    reveal_strlit("visible_at");
    reveal_strlit("run_count");
    reveal_strlit("failure_count");
    reveal_strlit("carry");
    reveal_strlit("dedup_key");
    reveal_strlit("pending");
    reveal_strlit("_jobs (");
    reveal_strlit(") VALUES (");
    reveal_strlit(")");
    reveal_strlit(
        "_jobs (id, kind, payload, priority, status, created_at, visible_at, run_count, failure_count, carry, dedup_key) VALUES ($1, $2, $3, $4, 'pending', $5, $6, 0, 0, $7, $8)",
    );
    let read = insert_reading();
    let tail = "_jobs ("@ + listed(column_names(read.columns)) + ") VALUES ("@ + listed(
        expr_texts(read.values),
    ) + ")"@;
    assert(tail
        =~= "_jobs (id, kind, payload, priority, status, created_at, visible_at, run_count, failure_count, carry, dedup_key) VALUES ($1, $2, $3, $4, 'pending', $5, $6, 0, 0, $7, $8)"@);
    assert(read.text(prefix) =~= "INSERT INTO "@ + prefix + tail);
}

/// The insert of a new job stores the row the job starts as, each of its values in the
/// column of its name. It is pending, has not run and has not failed.
pub proof fn insert_stores_the_fresh_row(prefix: Seq<char>, job: NewJobView, now: Timestamp)
    ensures
        inserts(insert_job_statement(prefix, job), prefix, now, fresh_row(job)),
{
    let read = insert_reading();
    let statement = insert_job_statement(prefix, job);
    let row = fresh_row(job);
    lemma_insert_text(prefix, job);
    assert(read.columns[0] == Column::Id);
    assert(read.columns[1] == Column::Kind);
    assert(read.columns[2] == Column::Payload);
    assert(read.columns[3] == Column::Priority);
    assert(read.columns[4] == Column::Status);
    assert(read.columns[5] == Column::CreatedAt);
    assert(read.columns[6] == Column::VisibleAt);
    assert(read.columns[7] == Column::RunCount);
    assert(read.columns[8] == Column::FailureCount);
    assert(read.columns[9] == Column::Carry);
    assert(read.columns[10] == Column::DedupKey);
    assert(read.adds(statement.params, now, row)) by {
        assert forall|i: int| 0 <= i < read.columns.len() implies cell(
            row,
            #[trigger] read.columns[i],
        ) == read.values[i].value(statement.params, now, None) by {}
    }
    assert forall|other: JobView| #[trigger]
        read.adds(statement.params, now, other) implies other == row by {
        inserts_are_determined(read, statement.params, now, other, row);
    }
}


spec fn recover_reading() -> Update {
    Update {
        set: seq![
            (Column::Status, Expr::State(Status::Pending)),
            (Column::VisibleAt, Expr::Placeholder(2)),
            (Column::FailureCount, Expr::Placeholder(3)),
            (Column::ClaimedBy, Expr::Null),
            (Column::ClaimExpiresAt, Expr::Null),
        ],
        conditions: seq![
            Condition::Compares(Column::Id, Test::Equal, Expr::Placeholder(1)),
            Condition::Compares(Column::Status, Test::Equal, Expr::State(Status::Claimed)),
            Condition::Compares(Column::ClaimExpiresAt, Test::Below, Expr::Now),
            Condition::Compares(Column::RunCount, Test::Equal, Expr::Placeholder(4)),
        ],
    }
}

proof fn lemma_recover_text(prefix: Seq<char>)
    ensures
        recover_reading().text(prefix) == "UPDATE "@ + prefix + "_jobs SET status = 'pending', visible_at = $2, failure_count = $3, claimed_by = NULL, claim_expires_at = NULL WHERE id = $1 AND status = 'claimed' AND claim_expires_at < now() AND run_count = $4"@,
{
    reveal_with_fuel(listed, 7);
    reveal_with_fuel(conjunction, 5);
    reveal_with_fuel(decimal, 2);
    reveal_strlit("$");
    reveal_strlit(", ");
    reveal_strlit(" AND ");
    reveal_strlit(" = ");
    reveal_strlit(" WHERE ");
    reveal_strlit("_jobs SET ");
    reveal_strlit("'");
    reveal_strlit("pending");
    reveal_strlit("claimed");
    reveal_strlit("NULL");
    reveal_strlit("now()");
    reveal_strlit(" < ");
    reveal_strlit("id");
    reveal_strlit("status");
    reveal_strlit("visible_at");
    reveal_strlit("claim_expires_at");
    reveal_strlit("claimed_by");
    reveal_strlit("run_count");
    reveal_strlit("failure_count");
    reveal_strlit(
        "_jobs SET status = 'pending', visible_at = $2, failure_count = $3, claimed_by = NULL, claim_expires_at = NULL WHERE id = $1 AND status = 'claimed' AND claim_expires_at < now() AND run_count = $4",
    );
    let read = recover_reading();
    let tail = "_jobs SET "@ + listed(assignment_texts(read.set)) + " WHERE "@ + conjunction(
        condition_texts(read.conditions),
    );
    assert(tail
        =~= "_jobs SET status = 'pending', visible_at = $2, failure_count = $3, claimed_by = NULL, claim_expires_at = NULL WHERE id = $1 AND status = 'claimed' AND claim_expires_at < now() AND run_count = $4"@);
    assert(read.text(prefix) =~= "UPDATE "@ + prefix + tail);
}

spec fn extend_reading() -> Update {
    Update {
        set: seq![
            (Column::ClaimExpiresAt, Expr::NowPlus(4)),
        ],
        conditions: seq![
            Condition::Compares(Column::Id, Test::Equal, Expr::Placeholder(1)),
            Condition::Compares(Column::ClaimedBy, Test::Equal, Expr::Placeholder(2)),
            Condition::Compares(Column::RunCount, Test::Equal, Expr::Placeholder(3)),
            Condition::Compares(Column::Status, Test::Equal, Expr::State(Status::Claimed)),
        ],
    }
}

proof fn lemma_extend_text(prefix: Seq<char>)
    ensures
        extend_reading().text(prefix) == "UPDATE "@ + prefix + "_jobs SET claim_expires_at = now() + interval '1 second' * $4 WHERE id = $1 AND claimed_by = $2 AND run_count = $3 AND status = 'claimed'"@,
{
    reveal_with_fuel(listed, 7);
    reveal_with_fuel(conjunction, 5);
    reveal_with_fuel(decimal, 2);
    reveal_strlit("$");
    reveal_strlit(", ");
    reveal_strlit(" AND ");
    reveal_strlit(" = ");
    reveal_strlit(" WHERE ");
    reveal_strlit("_jobs SET ");
    reveal_strlit("'");
    reveal_strlit("claimed");
    reveal_strlit("now() + interval '1 second' * ");
    reveal_strlit("id");
    reveal_strlit("status");
    reveal_strlit("claim_expires_at");
    reveal_strlit("claimed_by");
    reveal_strlit("run_count");
    reveal_strlit(
        "_jobs SET claim_expires_at = now() + interval '1 second' * $4 WHERE id = $1 AND claimed_by = $2 AND run_count = $3 AND status = 'claimed'",
    );
    let read = extend_reading();
    let tail = "_jobs SET "@ + listed(assignment_texts(read.set)) + " WHERE "@ + conjunction(
        condition_texts(read.conditions),
    );
    assert(tail
        =~= "_jobs SET claim_expires_at = now() + interval '1 second' * $4 WHERE id = $1 AND claimed_by = $2 AND run_count = $3 AND status = 'claimed'"@);
    assert(read.text(prefix) =~= "UPDATE "@ + prefix + tail);
}

spec fn merge_reading() -> Update {
    Update {
        set: seq![
            (Column::Payload, Expr::Placeholder(2)),
            (Column::Carry, Expr::Placeholder(3)),
            (Column::Priority, Expr::Placeholder(4)),
        ],
        conditions: seq![
            Condition::Compares(Column::Id, Test::Equal, Expr::Placeholder(1)),
            Condition::Compares(Column::Status, Test::Equal, Expr::State(Status::Pending)),
        ],
    }
}

proof fn lemma_merge_text(prefix: Seq<char>)
    ensures
        merge_reading().text(prefix) == "UPDATE "@ + prefix + "_jobs SET payload = $2, carry = $3, priority = $4 WHERE id = $1 AND status = 'pending'"@,
{
    reveal_with_fuel(listed, 7);
    reveal_with_fuel(conjunction, 5);
    reveal_with_fuel(decimal, 2);
    reveal_strlit("$");
    reveal_strlit(", ");
    reveal_strlit(" AND ");
    reveal_strlit(" = ");
    reveal_strlit(" WHERE ");
    reveal_strlit("_jobs SET ");
    reveal_strlit("'");
    reveal_strlit("pending");
    reveal_strlit("id");
    reveal_strlit("payload");
    reveal_strlit("priority");
    reveal_strlit("status");
    reveal_strlit("carry");
    reveal_strlit(
        "_jobs SET payload = $2, carry = $3, priority = $4 WHERE id = $1 AND status = 'pending'",
    );
    let read = merge_reading();
    let tail = "_jobs SET "@ + listed(assignment_texts(read.set)) + " WHERE "@ + conjunction(
        condition_texts(read.conditions),
    );
    assert(tail
        =~= "_jobs SET payload = $2, carry = $3, priority = $4 WHERE id = $1 AND status = 'pending'"@);
    assert(read.text(prefix) =~= "UPDATE "@ + prefix + tail);
}

spec fn keep_reading() -> Update {
    Update {
        set: seq![
            (Column::DedupKey, Expr::Field(Column::DedupKey)),
        ],
        conditions: seq![
            Condition::Compares(Column::Id, Test::Equal, Expr::Placeholder(1)),
            Condition::Compares(Column::Status, Test::Equal, Expr::State(Status::Pending)),
        ],
    }
}

proof fn lemma_keep_text(prefix: Seq<char>)
    ensures
        keep_reading().text(prefix) == "UPDATE "@ + prefix + "_jobs SET dedup_key = dedup_key WHERE id = $1 AND status = 'pending'"@,
{
    reveal_with_fuel(listed, 7);
    reveal_with_fuel(conjunction, 5);
    reveal_with_fuel(decimal, 2);
    reveal_strlit("$");
    reveal_strlit(", ");
    reveal_strlit(" AND ");
    reveal_strlit(" = ");
    reveal_strlit(" WHERE ");
    reveal_strlit("_jobs SET ");
    reveal_strlit("'");
    reveal_strlit("pending");
    reveal_strlit("id");
    reveal_strlit("status");
    reveal_strlit("dedup_key");
    reveal_strlit(
        "_jobs SET dedup_key = dedup_key WHERE id = $1 AND status = 'pending'",
    );
    let read = keep_reading();
    let tail = "_jobs SET "@ + listed(assignment_texts(read.set)) + " WHERE "@ + conjunction(
        condition_texts(read.conditions),
    );
    assert(tail
        =~= "_jobs SET dedup_key = dedup_key WHERE id = $1 AND status = 'pending'"@);
    assert(read.text(prefix) =~= "UPDATE "@ + prefix + tail);
}

spec fn entry_reading() -> EntryInsert {
    EntryInsert {
        columns: seq![
            JournalColumn::JobId,
            JournalColumn::Kind,
            JournalColumn::RunNo,
            JournalColumn::RecordedAt,
            JournalColumn::Outcome,
            JournalColumn::Note,
            JournalColumn::Attachment,
        ],
        values: seq![
            Expr::Placeholder(1),
            Expr::Placeholder(2),
            Expr::Placeholder(3),
            Expr::Placeholder(4),
            Expr::Placeholder(5),
            Expr::Placeholder(6),
            Expr::Placeholder(7),
        ],
    }
}

proof fn lemma_entry_text(prefix: Seq<char>)
    ensures
        entry_reading().text(prefix) == "INSERT INTO "@ + prefix
            + "_journal (job_id, kind, run_no, recorded_at, outcome, note, attachment) VALUES ($1, $2, $3, $4, $5, $6, $7)"@,
{
    reveal_with_fuel(listed, 8);
    reveal_with_fuel(decimal, 2);
    reveal_strlit("$");
    reveal_strlit(", ");
    reveal_strlit("job_id");
    reveal_strlit("kind");
    reveal_strlit("run_no");
    reveal_strlit("recorded_at");
    reveal_strlit("outcome");
    reveal_strlit("note");
    reveal_strlit("attachment");
    reveal_strlit("_journal (");
    reveal_strlit(") VALUES (");
    reveal_strlit(")");
    reveal_strlit(
        "_journal (job_id, kind, run_no, recorded_at, outcome, note, attachment) VALUES ($1, $2, $3, $4, $5, $6, $7)",
    );
    let read = entry_reading();
    let tail = "_journal ("@ + listed(journal_column_names(read.columns)) + ") VALUES ("@ + listed(
        expr_texts(read.values),
    ) + ")"@;
    assert(tail
        =~= "_journal (job_id, kind, run_no, recorded_at, outcome, note, attachment) VALUES ($1, $2, $3, $4, $5, $6, $7)"@);
    assert(read.text(prefix) =~= "INSERT INTO "@ + prefix + tail);
}

/// The append of a journal entry stores the entry for its job, each of its values in the
/// column of its name.
pub proof fn append_stores_the_entry(
    prefix: &TablePrefix,
    id: ulid::Ulid,
    journal: &JournalAppend,
    run_no: i32,
    statement: Statement,
    now: Timestamp,
    next_entry: i64,
)
    requires
        call_ensures(insert_entry, (prefix, id, journal, run_no), statement),
        run_no == journal.run_no,
    ensures
        appends(
            statement@,
            prefix@,
            now,
            next_entry,
            (JournalView { id: next_entry, job_id: id, entry: journal@ }),
        ),
{
    lemma_append(prefix@, id, journal@, run_no, now, next_entry);
}

proof fn lemma_append(
    prefix: Seq<char>,
    id: ulid::Ulid,
    entry: AppendView,
    run_no: i32,
    now: Timestamp,
    next_entry: i64,
)
    requires
        run_no == entry.run_no,
    ensures
        appends(
            insert_entry_statement(prefix, id, entry, run_no),
            prefix,
            now,
            next_entry,
            (JournalView { id: next_entry, job_id: id, entry }),
        ),
{
    let read = entry_reading();
    let params = insert_entry_statement(prefix, id, entry, run_no).params;
    let row = JournalView { id: next_entry, job_id: id, entry };
    lemma_entry_text(prefix);
    assert(read.columns[0] == JournalColumn::JobId);
    assert(read.columns[1] == JournalColumn::Kind);
    assert(read.columns[2] == JournalColumn::RunNo);
    assert(read.columns[3] == JournalColumn::RecordedAt);
    assert(read.columns[4] == JournalColumn::Outcome);
    assert(read.columns[5] == JournalColumn::Note);
    assert(read.columns[6] == JournalColumn::Attachment);
    assert(read.adds(params, now, next_entry, row));
    assert forall|other: JournalView| #[trigger]
        read.adds(params, now, next_entry, other) implies other == row by {
        entry_inserts_are_determined(read, params, now, next_entry, other, row);
    }
}

/// What an update reads as and does settles what its statement does.
proof fn lemma_updates(
    read: Update,
    statement: StatementView,
    prefix: Seq<char>,
    now: Timestamp,
    before: Map<ulid::Ulid, JobView>,
    after: Map<ulid::Ulid, JobView>,
    hit: bool,
)
    requires
        read.text(prefix) == statement.sql,
        read.turns(statement.params, now, before, after),
        hit == read.hits(statement.params, now, before),
    ensures
        updates(statement, prefix, now, before, after, hit),
{
    assert forall|other: Map<ulid::Ulid, JobView>| #[trigger]
        read.turns(statement.params, now, before, other) implies other == after by {
        updates_are_determined(read, statement.params, now, before, other, after);
    }
}

/// Whether a row has an identity, asked by its text.
pub(crate) proof fn lemma_same_id(row: JobView, id: ulid::Ulid)
    ensures
        equals(cell(row, Column::Id), Datum::Text(ulid_text(id.0))) <==> row.id == id,
{
    id_text_reads_back(row.id.0);
    id_text_reads_back(id.0);
}

/// Whether a row has a state, asked by its text.
pub(crate) proof fn lemma_same_status(row: JobView, status: Status)
    ensures
        equals(cell(row, Column::Status), Datum::Text(status.column_text())) <==> row.status
            == status,
{
    status_text_is_unambiguous(row.status, status);
}

/// A recovery's statements, run on stored rows, are the recovery: where the claim seen is
/// still there and expired, the job is pending again from the given time on, with the
/// given failure count and without a claim; the entry is journaled; and the workers are
/// woken. Anywhere else nothing changes.
pub proof fn recovery_is_written(
    prefix: &TablePrefix,
    id: ulid::Ulid,
    visible_at: Timestamp,
    failure_count: i32,
    run_no: u32,
    journal: &JournalAppend,
    write: GuardedWrite,
    state: QueueState,
    now: Timestamp,
)
    requires
        call_ensures(
            recover,
            (prefix, id, visible_at, failure_count, run_no, journal),
            Ok::<GuardedWrite, Error>(write),
        ),
        state.valid(),
        state.next_entry < i64::MAX,
    ensures
        ({
            let after = recover_step(
                state,
                id,
                visible_at,
                failure_count,
                run_no,
                journal@,
                now,
            );
            let hit = recover_applies(state, id, run_no, now);
            &&& writes(write@, prefix@, now, state, after, hit)
            &&& hit ==> after.journal.len() == state.journal.len() + 1 && after.journal.last().job_id
                == id && after.journal.last().entry == journal@
            &&& !hit ==> after == state
            &&& hit ==> after.jobs[id].status is Pending && after.jobs[id].visible_at == visible_at
                && after.jobs[id].failure_count == failure_count && after.jobs[id].claimed_by
                is None && after.jobs[id].claim_expires_at is None
        }),
{
    let read = recover_reading();
    let params = write@.update.params;
    let hit = recover_applies(state, id, run_no, now);
    let after = recover_step(state, id, visible_at, failure_count, run_no, journal@, now);
    lemma_recover_text(prefix@);
    assert forall|key: ulid::Ulid| #[trigger] state.jobs.contains_key(key) implies (meets(
        read.conditions,
        params,
        now,
        state.jobs[key],
    ) <==> key == id && hit) by {
        let row = state.jobs[key];
        lemma_same_id(row, id);
        lemma_same_status(row, Status::Claimed);
        assert(read.conditions[0].holds(params, now, row) <==> key == id);
        assert(read.conditions[1].holds(params, now, row) <==> row.status is Claimed);
        assert(read.conditions[2].holds(params, now, row) <==> (row.claim_expires_at matches Some(
            expiry,
        ) && expiry.nanos() < now.nanos()));
        assert(read.conditions[3].holds(params, now, row) <==> row.run_count == run_no);
    }
    if hit {
        assert(state.jobs.contains_key(id));
        assert(read.set[0].0 == Column::Status);
        assert(read.set[1].0 == Column::VisibleAt);
        assert(read.set[2].0 == Column::FailureCount);
        assert(read.set[3].0 == Column::ClaimedBy);
        assert(read.set[4].0 == Column::ClaimExpiresAt);
        assert(reassigned(read.set, params, now, state.jobs[id], after.jobs[id]));
        lemma_append(prefix@, id, journal@, journal.run_no as i32, now, state.next_entry);
        assert(after.journal.drop_last() =~= state.journal);
        assert(after.jobs.contains_key(id));
    }
    assert(after.jobs.dom() =~= state.jobs.dom());
    lemma_updates(read, write@.update, prefix@, now, state.jobs, after.jobs, hit);
}

/// A merge's statements, run on stored rows, are the merge: where the candidate is still
/// pending it holds the payload, the carry and the priority of the decision, or what it
/// held where the decision is to keep it; the entry is journaled. Anywhere else nothing
/// changes.
pub proof fn merge_is_written(
    prefix: &TablePrefix,
    id: ulid::Ulid,
    update: Option<MergePayload>,
    journal: &JournalAppend,
    write: GuardedWrite,
    state: QueueState,
    now: Timestamp,
)
    requires
        call_ensures(
            merge_into,
            (prefix, id, update, journal),
            Ok::<GuardedWrite, Error>(write),
        ),
        state.valid(),
        state.next_entry < i64::MAX,
    ensures
        ({
            let after = merge_step(state, id, update, journal@);
            let hit = merge_applies(state, id);
            &&& writes(write@, prefix@, now, state, after, hit)
            &&& hit ==> after.journal.len() == state.journal.len() + 1 && after.journal.last().job_id
                == id && after.journal.last().entry == journal@
            &&& !hit ==> after == state
            &&& hit && update is Some ==> {
                &&& after.jobs[id].payload == update->Some_0.payload
                &&& after.jobs[id].carry == update->Some_0.carry
                &&& after.jobs[id].priority == update->Some_0.priority
            }
            &&& hit && update is None ==> after.jobs == state.jobs
        }),
{
    let read = if update is Some {
        merge_reading()
    } else {
        keep_reading()
    };
    let params = write@.update.params;
    let hit = merge_applies(state, id);
    let after = merge_step(state, id, update, journal@);
    lemma_merge_text(prefix@);
    lemma_keep_text(prefix@);
    assert forall|key: ulid::Ulid| #[trigger] state.jobs.contains_key(key) implies (meets(
        read.conditions,
        params,
        now,
        state.jobs[key],
    ) <==> key == id && hit) by {
        let row = state.jobs[key];
        lemma_same_id(row, id);
        lemma_same_status(row, Status::Pending);
        assert(read.conditions[0].holds(params, now, row) <==> key == id);
        assert(read.conditions[1].holds(params, now, row) <==> row.status is Pending);
    }
    if hit {
        assert(state.jobs.contains_key(id));
        if update is Some {
            assert(read.set[0].0 == Column::Payload);
            assert(read.set[1].0 == Column::Carry);
            assert(read.set[2].0 == Column::Priority);
        } else {
            assert(read.set[0].0 == Column::DedupKey);
            assert(after.jobs =~= state.jobs);
        }
        assert(reassigned(read.set, params, now, state.jobs[id], after.jobs[id]));
        lemma_append(prefix@, id, journal@, journal.run_no as i32, now, state.next_entry);
        assert(after.journal.drop_last() =~= state.journal);
    }
    assert(after.jobs.dom() =~= state.jobs.dom());
    lemma_updates(read, write@.update, prefix@, now, state.jobs, after.jobs, hit);
}

/// An extension's statement, run on stored rows, is the extension: where the run still
/// holds its claim the lease ends that much after now, and nothing else changes.
pub proof fn extension_is_written(
    prefix: &TablePrefix,
    id: ulid::Ulid,
    claimed_by: &str,
    run_no: u32,
    lease: Duration,
    statement: Statement,
    state: QueueState,
    now: Timestamp,
)
    requires
        call_ensures(
            extend_lease,
            (prefix, id, claimed_by, run_no, lease),
            Ok::<Statement, Error>(statement),
        ),
        state.valid(),
        calendar_instant(now),
    ensures
        ({
            let after = extend_step(state, id, claimed_by@, run_no, lease, now);
            let hit = settle_applies(state, id, claimed_by@, run_no);
            &&& updates(statement@, prefix@, now, state.jobs, after.jobs, hit)
            &&& hit ==> (after.jobs[id].claim_expires_at matches Some(expiry) && lies_after(
                expiry,
                now,
                lease.nanos(),
            ))
            &&& hit ==> after.jobs[id] == (JobView {
                claim_expires_at: after.jobs[id].claim_expires_at,
                ..state.jobs[id]
            })
            &&& !hit ==> after == state
        }),
{
    let read = extend_reading();
    let params = statement@.params;
    let hit = settle_applies(state, id, claimed_by@, run_no);
    let after = extend_step(state, id, claimed_by@, run_no, lease, now);
    lemma_extend_text(prefix@);
    assert forall|key: ulid::Ulid| #[trigger] state.jobs.contains_key(key) implies (meets(
        read.conditions,
        params,
        now,
        state.jobs[key],
    ) <==> key == id && hit) by {
        let row = state.jobs[key];
        lemma_same_id(row, id);
        lemma_same_status(row, Status::Claimed);
        assert(read.conditions[0].holds(params, now, row) <==> key == id);
        assert(read.conditions[1].holds(params, now, row) <==> row.claimed_by == Some(claimed_by@));
        assert(read.conditions[2].holds(params, now, row) <==> row.run_count == run_no);
        assert(read.conditions[3].holds(params, now, row) <==> row.status is Claimed);
    }
    if hit {
        assert(state.jobs.contains_key(id));
        assert(read.set[0].0 == Column::ClaimExpiresAt);
        assert(reassigned(read.set, params, now, state.jobs[id], after.jobs[id]));
        lemma_lies_after(now, lease.nanos());
    }
    assert(after.jobs.dom() =~= state.jobs.dom());
    lemma_updates(read, statement@, prefix@, now, state.jobs, after.jobs, hit);
}

/// An enqueue's statements store the row the job starts as and wake the workers. The row
/// is pending and holds each of the new job's values in the column of its name: in
/// particular it is eligible from the time the job asks for. It has not run and has not
/// failed.
pub proof fn enqueue_is_written(
    prefix: &TablePrefix,
    job: &NewJob,
    insert: Statement,
    wake: Statement,
    state: QueueState,
    now: Timestamp,
)
    requires
        call_ensures(
            enqueue,
            (prefix, job),
            Ok::<(Statement, Statement), Error>((insert, wake)),
        ),
    ensures
        ({
            let row = enqueue_step(state, job@).jobs[job.id];
            &&& inserts(insert@, prefix@, now, row)
            &&& enqueue_step(state, job@).jobs == state.jobs.insert(job.id, row)
            &&& row.id == job.id && row.kind == job.kind@ && row.payload == job.payload
            &&& row.priority == job.priority && row.created_at == job.created_at
            &&& row.visible_at == job.visible_at && row.carry == job.carry
            &&& row.dedup_key == optional_text(job.dedup_key)
            &&& row.status is Pending && row.run_count == 0 && row.failure_count == 0
            &&& row.claimed_by is None && row.claim_expires_at is None && row.finished_at is None
            &&& notifies(wake@, prefix@ + "_jobs"@)
        }),
{
    insert_stores_the_fresh_row(prefix@, job@, now);
}

spec fn settle_head(settlement: Settlement) -> Seq<(Column, Expr)> {
    match settlement {
        Settlement::Complete { .. } => seq![
            (Column::Status, Expr::State(Status::Completed)),
            (Column::FinishedAt, Expr::Placeholder(4)),
        ],
        Settlement::Retry { .. } => seq![
            (Column::Status, Expr::State(Status::Pending)),
            (Column::VisibleAt, Expr::Placeholder(4)),
            (Column::FailureCount, Expr::Placeholder(5)),
            (Column::Carry, Expr::Placeholder(6)),
        ],
        Settlement::Pause { .. } => seq![
            (Column::Status, Expr::State(Status::Pending)),
            (Column::VisibleAt, Expr::Placeholder(4)),
            (Column::Carry, Expr::Placeholder(5)),
        ],
        Settlement::Dead { .. } => seq![
            (Column::Status, Expr::State(Status::Dead)),
            (Column::FinishedAt, Expr::Placeholder(4)),
            (Column::FailureCount, Expr::Placeholder(5)),
        ],
        Settlement::Release { .. } => seq![
            (Column::Status, Expr::State(Status::Pending)),
            (Column::VisibleAt, Expr::Placeholder(4)),
        ],
    }
}

spec fn settle_reading(settlement: Settlement) -> Update {
    Update {
        set: settle_head(settlement).push((Column::ClaimedBy, Expr::Null)).push(
            (Column::ClaimExpiresAt, Expr::Null),
        ),
        conditions: seq![
            Condition::Compares(Column::Id, Test::Equal, Expr::Placeholder(1)),
            Condition::Compares(Column::ClaimedBy, Test::Equal, Expr::Placeholder(2)),
            Condition::Compares(Column::RunCount, Test::Equal, Expr::Placeholder(3)),
            Condition::Compares(Column::Status, Test::Equal, Expr::State(Status::Claimed)),
        ],
    }
}

proof fn lemma_settle_set_text(settlement: Settlement)
    ensures
        listed(assignment_texts(settle_reading(settlement).set)) == settle_set(settlement)
            + ", claimed_by = NULL, claim_expires_at = NULL"@,
{
    reveal_with_fuel(listed, 7);
    reveal_with_fuel(decimal, 2);
    reveal_strlit("$");
    reveal_strlit("'");
    reveal_strlit(", ");
    reveal_strlit(" = ");
    reveal_strlit("NULL");
    reveal_strlit("status");
    reveal_strlit("finished_at");
    reveal_strlit("visible_at");
    reveal_strlit("failure_count");
    reveal_strlit("carry");
    reveal_strlit("claimed_by");
    reveal_strlit("claim_expires_at");
    reveal_strlit("completed");
    reveal_strlit("pending");
    reveal_strlit("dead");
    reveal_strlit("status = 'completed', finished_at = $4");
    reveal_strlit("status = 'pending', visible_at = $4, failure_count = $5, carry = $6");
    reveal_strlit("status = 'pending', visible_at = $4, carry = $5");
    reveal_strlit("status = 'dead', finished_at = $4, failure_count = $5");
    reveal_strlit("status = 'pending', visible_at = $4");
    reveal_strlit(", claimed_by = NULL, claim_expires_at = NULL");
    let read = settle_reading(settlement);
    match settlement {
        Settlement::Complete { .. } => {
            assert(listed(assignment_texts(read.set)) =~= settle_set(settlement)
                + ", claimed_by = NULL, claim_expires_at = NULL"@);
        },
        Settlement::Retry { .. } => {
            assert(listed(assignment_texts(read.set)) =~= settle_set(settlement)
                + ", claimed_by = NULL, claim_expires_at = NULL"@);
        },
        Settlement::Pause { .. } => {
            assert(listed(assignment_texts(read.set)) =~= settle_set(settlement)
                + ", claimed_by = NULL, claim_expires_at = NULL"@);
        },
        Settlement::Dead { .. } => {
            assert(listed(assignment_texts(read.set)) =~= settle_set(settlement)
                + ", claimed_by = NULL, claim_expires_at = NULL"@);
        },
        Settlement::Release { .. } => {
            assert(listed(assignment_texts(read.set)) =~= settle_set(settlement)
                + ", claimed_by = NULL, claim_expires_at = NULL"@);
        },
    }
}

proof fn lemma_settle_text(prefix: Seq<char>, settlement: Settlement)
    ensures
        settle_reading(settlement).text(prefix) == "UPDATE "@ + prefix + "_jobs SET "@ + settle_set(
            settlement,
        )
            + ", claimed_by = NULL, claim_expires_at = NULL WHERE id = $1 AND claimed_by = $2 AND run_count = $3 AND status = 'claimed'"@,
{
    reveal_with_fuel(conjunction, 5);
    reveal_with_fuel(decimal, 2);
    reveal_strlit("$");
    reveal_strlit("'");
    reveal_strlit(" AND ");
    reveal_strlit(" = ");
    reveal_strlit(" WHERE ");
    reveal_strlit("id");
    reveal_strlit("claimed_by");
    reveal_strlit("run_count");
    reveal_strlit("status");
    reveal_strlit("claimed");
    reveal_strlit(", claimed_by = NULL, claim_expires_at = NULL");
    reveal_strlit(
        ", claimed_by = NULL, claim_expires_at = NULL WHERE id = $1 AND claimed_by = $2 AND run_count = $3 AND status = 'claimed'",
    );
    let read = settle_reading(settlement);
    lemma_settle_set_text(settlement);
    let tail = ", claimed_by = NULL, claim_expires_at = NULL"@ + " WHERE "@ + conjunction(
        condition_texts(read.conditions),
    );
    assert(tail
        =~= ", claimed_by = NULL, claim_expires_at = NULL WHERE id = $1 AND claimed_by = $2 AND run_count = $3 AND status = 'claimed'"@);
    assert(read.text(prefix) =~= "UPDATE "@ + prefix + "_jobs SET "@ + settle_set(settlement)
        + tail);
}

/// A settlement's statements, run on stored rows, are the settlement: where the run still
/// holds its claim the job is in the state, and has the times, the failure count and the
/// carry, that the settlement gives; it has no claim; the entry is journaled; and the
/// workers are woken exactly when the job is pending again. Anywhere else nothing changes.
pub proof fn settlement_is_written(
    prefix: &TablePrefix,
    id: ulid::Ulid,
    claimed_by: &str,
    run_no: u32,
    settlement: &Settlement,
    journal: &JournalAppend,
    write: GuardedWrite,
    state: QueueState,
    now: Timestamp,
)
    requires
        call_ensures(
            settle,
            (prefix, id, claimed_by, run_no, settlement, journal),
            Ok::<GuardedWrite, Error>(write),
        ),
        state.valid(),
        state.next_entry < i64::MAX,
    ensures
        ({
            let after = settle_step(state, id, claimed_by@, run_no, *settlement, journal@);
            let hit = settle_applies(state, id, claimed_by@, run_no);
            let row = after.jobs[id];
            &&& writes(write@, prefix@, now, state, after, hit)
            &&& hit ==> after.journal.len() == state.journal.len() + 1 && after.journal.last().job_id
                == id && after.journal.last().entry == journal@
            &&& !hit ==> after == state
            &&& hit ==> row.claimed_by is None && row.claim_expires_at is None
            &&& hit ==> match *settlement {
                Settlement::Complete { finished_at } => row.status is Completed && row.finished_at
                    == Some(finished_at),
                Settlement::Retry { visible_at, failure_count, carry } => row.status is Pending
                    && row.visible_at == visible_at && row.failure_count == failure_count
                    && row.carry == carry,
                Settlement::Pause { visible_at, carry } => row.status is Pending && row.visible_at
                    == visible_at && row.carry == carry && row.failure_count
                    == state.jobs[id].failure_count,
                Settlement::Dead { finished_at, failure_count } => row.status is Dead
                    && row.finished_at == Some(finished_at) && row.failure_count == failure_count,
                Settlement::Release { visible_at } => row.status is Pending && row.visible_at
                    == visible_at && row.failure_count == state.jobs[id].failure_count && row.carry
                    == state.jobs[id].carry,
            }
        }),
{
    let read = settle_reading(*settlement);
    let params = write@.update.params;
    let hit = settle_applies(state, id, claimed_by@, run_no);
    let after = settle_step(state, id, claimed_by@, run_no, *settlement, journal@);
    lemma_settle_text(prefix@, *settlement);
    assert forall|key: ulid::Ulid| #[trigger] state.jobs.contains_key(key) implies (meets(
        read.conditions,
        params,
        now,
        state.jobs[key],
    ) <==> key == id && hit) by {
        let row = state.jobs[key];
        lemma_same_id(row, id);
        lemma_same_status(row, Status::Claimed);
        assert(read.conditions[0].holds(params, now, row) <==> key == id);
        assert(read.conditions[1].holds(params, now, row) <==> row.claimed_by == Some(claimed_by@));
        assert(read.conditions[2].holds(params, now, row) <==> row.run_count == run_no);
        assert(read.conditions[3].holds(params, now, row) <==> row.status is Claimed);
    }
    if hit {
        assert(state.jobs.contains_key(id));
        let head = settle_head(*settlement);
        let n = head.len() as int;
        assert(read.set[n].0 == Column::ClaimedBy);
        assert(read.set[n + 1].0 == Column::ClaimExpiresAt);
        assert(read.set[0] == head[0] && read.set[1] == head[1]);
        if n > 2 {
            assert(read.set[2] == head[2]);
        }
        if n > 3 {
            assert(read.set[3] == head[3]);
        }
        assert(reassigned(read.set, params, now, state.jobs[id], after.jobs[id]));
        lemma_append(prefix@, id, journal@, journal.run_no as i32, now, state.next_entry);
        assert(after.journal.drop_last() =~= state.journal);
        assert(after.jobs.contains_key(id));
    }
    assert(after.jobs.dom() =~= state.jobs.dom());
    lemma_updates(read, write@.update, prefix@, now, state.jobs, after.jobs, hit);
}

/// The job columns name every column of a row, each at its place.
pub proof fn job_columns_name_the_row()
    ensures
        JOB_COLUMNS@ == listed(column_names(row_columns())),
        forall|column: Column| #[trigger] row_columns().contains(column),
{
    reveal_with_fuel(listed, 15);
    reveal_strlit(", ");
    reveal_strlit("id");
    reveal_strlit("kind");
    reveal_strlit("payload");
    reveal_strlit("priority");
    reveal_strlit("status");
    reveal_strlit("created_at");
    reveal_strlit("visible_at");
    reveal_strlit("claim_expires_at");
    reveal_strlit("claimed_by");
    reveal_strlit("finished_at");
    reveal_strlit("run_count");
    reveal_strlit("failure_count");
    reveal_strlit("carry");
    reveal_strlit("dedup_key");
    reveal_strlit(
        "id, kind, payload, priority, status, created_at, visible_at, claim_expires_at, claimed_by, finished_at, run_count, failure_count, carry, dedup_key",
    );
    assert(JOB_COLUMNS@ =~= listed(column_names(row_columns())));
    let columns = row_columns();
    assert(columns[0] == Column::Id && columns[1] == Column::Kind && columns[2] == Column::Payload
        && columns[3] == Column::Priority && columns[4] == Column::Status && columns[5]
        == Column::CreatedAt && columns[6] == Column::VisibleAt && columns[7]
        == Column::ClaimExpiresAt && columns[8] == Column::ClaimedBy && columns[9]
        == Column::FinishedAt && columns[10] == Column::RunCount && columns[11]
        == Column::FailureCount && columns[12] == Column::Carry && columns[13]
        == Column::DedupKey);
}

spec fn claim_reading() -> UpdateFirst {
    UpdateFirst {
        set: seq![
            (Column::Status, Expr::State(Status::Claimed)),
            (Column::ClaimedBy, Expr::Placeholder(1)),
            (Column::ClaimExpiresAt, Expr::NowPlus(2)),
            (Column::RunCount, Expr::Next(Column::RunCount)),
        ],
        conditions: seq![
            Condition::Compares(Column::Status, Test::Equal, Expr::State(Status::Pending)),
            Condition::Compares(Column::VisibleAt, Test::AtMost, Expr::Now),
            Condition::Among(Column::Kind, 3),
            Condition::Compares(Column::Priority, Test::AtLeast, Expr::Placeholder(4)),
        ],
        order: seq![
            (Column::Priority, Direction::Ascending),
            (Column::CreatedAt, Direction::Ascending),
        ],
        returned: row_columns(),
    }
}

proof fn lemma_claim_set_text()
    ensures
        "_jobs SET "@ + listed(assignment_texts(claim_reading().set))
            + " WHERE id = ( SELECT id FROM "@
            == "_jobs SET status = 'claimed', claimed_by = $1, claim_expires_at = now() + interval '1 second' * $2, run_count = run_count + 1 WHERE id = ( SELECT id FROM "@,
{
    reveal_with_fuel(listed, 5);
    reveal_with_fuel(decimal, 2);
    reveal_strlit("$");
    reveal_strlit("'");
    reveal_strlit(", ");
    reveal_strlit(" = ");
    reveal_strlit(" + 1");
    reveal_strlit("now() + interval '1 second' * ");
    reveal_strlit("status");
    reveal_strlit("claimed");
    reveal_strlit("claimed_by");
    reveal_strlit("claim_expires_at");
    reveal_strlit("run_count");
    reveal_strlit("_jobs SET ");
    reveal_strlit(" WHERE id = ( SELECT id FROM ");
    reveal_strlit(
        "_jobs SET status = 'claimed', claimed_by = $1, claim_expires_at = now() + interval '1 second' * $2, run_count = run_count + 1 WHERE id = ( SELECT id FROM ",
    );
    assert("_jobs SET "@ + listed(assignment_texts(claim_reading().set))
        + " WHERE id = ( SELECT id FROM "@
        =~= "_jobs SET status = 'claimed', claimed_by = $1, claim_expires_at = now() + interval '1 second' * $2, run_count = run_count + 1 WHERE id = ( SELECT id FROM "@);
}

proof fn lemma_claim_where_text()
    ensures
        "_jobs WHERE "@ + conjunction(condition_texts(claim_reading().conditions)) + " ORDER BY "@
            + listed(order_texts(claim_reading().order))
            + " LIMIT 1 FOR UPDATE SKIP LOCKED ) RETURNING "@
            == "_jobs WHERE status = 'pending' AND visible_at <= now() AND kind = ANY($3) AND priority >= $4 ORDER BY priority, created_at LIMIT 1 FOR UPDATE SKIP LOCKED ) RETURNING "@,
{
    reveal_with_fuel(listed, 3);
    reveal_with_fuel(conjunction, 5);
    reveal_with_fuel(decimal, 2);
    reveal_strlit("$");
    reveal_strlit("'");
    reveal_strlit(", ");
    reveal_strlit(" AND ");
    reveal_strlit(" = ");
    reveal_strlit(" <= ");
    reveal_strlit(" >= ");
    reveal_strlit(" = ANY(");
    reveal_strlit(")");
    reveal_strlit("now()");
    reveal_strlit("status");
    reveal_strlit("pending");
    reveal_strlit("visible_at");
    reveal_strlit("kind");
    reveal_strlit("priority");
    reveal_strlit("created_at");
    reveal_strlit("_jobs WHERE ");
    reveal_strlit(" ORDER BY ");
    reveal_strlit(" LIMIT 1 FOR UPDATE SKIP LOCKED ) RETURNING ");
    reveal_strlit(
        "_jobs WHERE status = 'pending' AND visible_at <= now() AND kind = ANY($3) AND priority >= $4 ORDER BY priority, created_at LIMIT 1 FOR UPDATE SKIP LOCKED ) RETURNING ",
    );
    assert("_jobs WHERE "@ + conjunction(condition_texts(claim_reading().conditions))
        + " ORDER BY "@ + listed(order_texts(claim_reading().order))
        + " LIMIT 1 FOR UPDATE SKIP LOCKED ) RETURNING "@
        =~= "_jobs WHERE status = 'pending' AND visible_at <= now() AND kind = ANY($3) AND priority >= $4 ORDER BY priority, created_at LIMIT 1 FOR UPDATE SKIP LOCKED ) RETURNING "@);
}

/// Whether a claim may take a job: it is stored, no other transaction has it locked, it
/// is pending, visible, of a kind asked for, and not above the floor.
pub open spec fn offered(
    state: QueueState,
    kinds: Seq<Seq<char>>,
    floor: i16,
    now: Timestamp,
    locked: Set<ulid::Ulid>,
    id: ulid::Ulid,
) -> bool {
    state.jobs.contains_key(id) && !locked.contains(id) && claimable(
        state.jobs[id],
        kinds,
        floor,
        now,
    )
}

/// Whether a claim takes a job: it may, and no other that it may take is more urgent, or
/// as urgent and created earlier.
pub open spec fn takes_next(
    state: QueueState,
    kinds: Seq<Seq<char>>,
    floor: i16,
    now: Timestamp,
    locked: Set<ulid::Ulid>,
    id: ulid::Ulid,
) -> bool {
    &&& offered(state, kinds, floor, now, locked, id)
    &&& forall|other: ulid::Ulid| #[trigger]
        offered(state, kinds, floor, now, locked, other) ==> {
            let job = state.jobs[id];
            let rival = state.jobs[other];
            &&& job.priority <= rival.priority
            &&& job.priority == rival.priority ==> job.created_at.nanos()
                <= rival.created_at.nanos()
        }
}

/// Whether the statement is a claim with these outcomes: it takes `id` exactly where
/// `takes` holds of it and turns the table into `after` of it, and takes none, changing
/// nothing, exactly where `offers` holds of no job. It returns the whole row.
pub open spec fn claims_as(
    statement: StatementView,
    prefix: Seq<char>,
    now: Timestamp,
    locked: Set<ulid::Ulid>,
    before: Map<ulid::Ulid, JobView>,
    offers: spec_fn(ulid::Ulid) -> bool,
    takes: spec_fn(ulid::Ulid) -> bool,
    after: spec_fn(ulid::Ulid) -> Map<ulid::Ulid, JobView>,
) -> bool {
    exists|update: UpdateFirst|
        {
            &&& #[trigger] update.text(prefix) == statement.sql
            &&& update.returned == row_columns()
            &&& forall|id: ulid::Ulid, jobs: Map<ulid::Ulid, JobView>| #[trigger]
                update.turns(statement.params, now, locked, before, Some(id), jobs) <==> takes(id)
                    && jobs == after(id)
            &&& forall|jobs: Map<ulid::Ulid, JobView>| #[trigger]
                update.turns(statement.params, now, locked, before, None, jobs) <==> jobs == before
                    && forall|id: ulid::Ulid| !#[trigger] offers(id)
        }
}

/// A claim's statement, run on stored rows, is the claim: it takes the most urgent oldest
/// job that is eligible and not locked, and that job is held from then on by the worker
/// that asked, at its next run number, until the lease ends. A settlement or an extension
/// by that worker at that run number finds it.
pub proof fn claim_is_written(
    prefix: &TablePrefix,
    kinds: &[String],
    priority_floor: i16,
    lease: Duration,
    claimed_by: &str,
    statement: Statement,
    state: QueueState,
    locked: Set<ulid::Ulid>,
    now: Timestamp,
)
    requires
        call_ensures(
            claim_next,
            (prefix, kinds, priority_floor, lease, claimed_by),
            statement,
        ),
        state.valid(),
        calendar_instant(now),
        forall|id: ulid::Ulid| #[trigger]
            state.jobs.contains_key(id) ==> state.jobs[id].run_count < i32::MAX,
    ensures
        claims_as(
            statement@,
            prefix@,
            now,
            locked,
            state.jobs,
            |id: ulid::Ulid| offered(state, texts(kinds@), priority_floor, now, locked, id),
            |id: ulid::Ulid|
                takes_next(state, texts(kinds@), priority_floor, now, locked, id),
            |id: ulid::Ulid| claim_step(state, id, now, lease, claimed_by@).jobs,
        ),
        forall|id: ulid::Ulid| #[trigger]
            takes_next(state, texts(kinds@), priority_floor, now, locked, id) ==> {
                let after = claim_step(state, id, now, lease, claimed_by@);
                let row = after.jobs[id];
                &&& row.run_count == state.jobs[id].run_count + 1
                &&& row.status is Claimed && row.claimed_by == Some(claimed_by@)
                &&& holds_claim(row, claimed_by@, row.run_count)
                &&& settle_applies(after, id, claimed_by@, row.run_count)
                &&& row.claim_expires_at matches Some(expiry) && lies_after(
                    expiry,
                    now,
                    lease.nanos(),
                )
            },
{
    let read = claim_reading();
    let params = statement@.params;
    let list = texts(kinds@);
    let offers = |id: ulid::Ulid| offered(state, list, priority_floor, now, locked, id);
    let takes = |id: ulid::Ulid| takes_next(state, list, priority_floor, now, locked, id);
    let after = |id: ulid::Ulid| claim_step(state, id, now, lease, claimed_by@).jobs;
    job_columns_name_the_row();
    lemma_claim_set_text();
    lemma_claim_where_text();
    lemma_lies_after(now, lease.nanos());
    assert(read.text(prefix@) =~= "UPDATE "@ + prefix@ + ("_jobs SET "@ + listed(
        assignment_texts(read.set),
    ) + " WHERE id = ( SELECT id FROM "@) + prefix@ + ("_jobs WHERE "@ + conjunction(
        condition_texts(read.conditions),
    ) + " ORDER BY "@ + listed(order_texts(read.order))
        + " LIMIT 1 FOR UPDATE SKIP LOCKED ) RETURNING "@) + listed(column_names(read.returned)));
    assert(read.text(prefix@) == statement@.sql);
    assert forall|id: ulid::Ulid| #[trigger]
        read.offers(params, now, locked, state.jobs, id) <==> offered(
            state,
            list,
            priority_floor,
            now,
            locked,
            id,
        ) by {
        if state.jobs.contains_key(id) {
            lemma_claim_conditions(params, now, state.jobs[id], list, priority_floor);
        }
    }
    assert forall|a: JobView, b: JobView| #[trigger] ahead(read.order, a, b) <==> a.priority
        < b.priority || (a.priority == b.priority && a.created_at.nanos()
        < b.created_at.nanos()) by {
        reveal_with_fuel(ahead, 3);
        assert(read.order[0].0 == Column::Priority);
        assert(read.order.drop_first()[0].0 == Column::CreatedAt);
    }
    assert(read.set[0].0 == Column::Status);
    assert(read.set[1].0 == Column::ClaimedBy);
    assert(read.set[2].0 == Column::ClaimExpiresAt);
    assert(read.set[3].0 == Column::RunCount);
    assert forall|id: ulid::Ulid| #[trigger] state.jobs.contains_key(id) implies reassigned(
        read.set,
        params,
        now,
        state.jobs[id],
        claimed_row(state.jobs[id], now, lease, claimed_by@),
    ) by {}
    assert forall|id: ulid::Ulid, jobs: Map<ulid::Ulid, JobView>| #[trigger]
        read.turns(params, now, locked, state.jobs, Some(id), jobs) <==> takes(id) && jobs == after(
            id,
        ) by {
        if read.turns(params, now, locked, state.jobs, Some(id), jobs) {
            assert(offered(state, list, priority_floor, now, locked, id));
            assert forall|other: ulid::Ulid| #[trigger]
                offered(state, list, priority_floor, now, locked, other) implies ({
                let job = state.jobs[id];
                let rival = state.jobs[other];
                &&& job.priority <= rival.priority
                &&& job.priority == rival.priority ==> job.created_at.nanos()
                    <= rival.created_at.nanos()
            }) by {
                assert(read.offers(params, now, locked, state.jobs, other));
                assert(!ahead(read.order, state.jobs[other], state.jobs[id]));
            }
            assignments_are_determined(
                read.set,
                params,
                now,
                state.jobs[id],
                jobs[id],
                after(id)[id],
            );
            assert forall|other: ulid::Ulid| #[trigger]
                state.jobs.contains_key(other) implies jobs[other] == after(id)[other] by {}
            assert(jobs =~= after(id));
        }
        if takes(id) && jobs == after(id) {
            assert(jobs.dom() =~= state.jobs.dom());
            assert(read.offers(params, now, locked, state.jobs, id));
            assert forall|other: ulid::Ulid| #[trigger]
                read.offers(params, now, locked, state.jobs, other) implies !ahead(
                read.order,
                state.jobs[other],
                state.jobs[id],
            ) by {
                assert(offered(state, list, priority_floor, now, locked, other));
            }
        }
    }
    assert forall|jobs: Map<ulid::Ulid, JobView>| #[trigger]
        read.turns(params, now, locked, state.jobs, None, jobs) <==> jobs == state.jobs && forall|
            id: ulid::Ulid,
        |
            !#[trigger] offers(id) by {
        if forall|id: ulid::Ulid| !#[trigger] offers(id) {
            assert forall|id: ulid::Ulid| !read.offers(params, now, locked, state.jobs, id) by {
                assert(!offers(id));
            }
        }
        if read.turns(params, now, locked, state.jobs, None, jobs) {
            assert forall|id: ulid::Ulid| !#[trigger] offers(id) by {
                assert(!read.offers(params, now, locked, state.jobs, id));
            }
        }
    }
}

proof fn lemma_claim_conditions(
    params: Seq<ParamView>,
    now: Timestamp,
    row: JobView,
    kinds: Seq<Seq<char>>,
    floor: i16,
)
    requires
        params.len() == 4,
        params[2] == ParamView::Texts(kinds),
        params[3] == ParamView::SmallInt(floor),
    ensures
        meets(claim_reading().conditions, params, now, row) <==> claimable(row, kinds, floor, now),
{
    let conditions = claim_reading().conditions;
    lemma_same_status(row, Status::Pending);
    assert(conditions[0].holds(params, now, row) <==> row.status is Pending);
    assert(conditions[1].holds(params, now, row) <==> row.visible_at.nanos() <= now.nanos());
    assert(conditions[3].holds(params, now, row) <==> row.priority >= floor);
    assert(conditions[2].holds(params, now, row) <==> names_kind(kinds, row.kind)) by {
        assert(bound(params, 3) == Datum::Texts(kinds));
        assert(conditions[2] == Condition::Among(Column::Kind, 3));
        if names_kind(kinds, row.kind) {
            let i = choose|i: int| 0 <= i < kinds.len() && #[trigger] kinds[i] == row.kind;
            assert(kinds.contains(kinds[i]));
        }
    }
}

/// The workers listen on the channel that a queue's writes notify.
pub proof fn workers_listen_where_writes_notify(
    prefix: &TablePrefix,
    text: &str,
    name: String,
    listening: &str,
    listen: String,
    wake: Statement,
)
    requires
        text@ == prefix@,
        call_ensures(channel, (text,), name),
        listening@ == name@,
        call_ensures(listen_text, (listening,), listen),
        call_ensures(notify, (prefix,), wake),
    ensures
        notifies(wake@, name@),
        listen@ == "LISTEN "@ + name@,
{
}

/// The migration lock that is given back is the one that was taken: one key is bound to
/// both statements.
pub proof fn the_lock_taken_is_given_back(key: i64, taking: Statement, giving: Statement)
    requires
        call_ensures(lock, (key,), taking),
        call_ensures(unlock, (key,), giving),
    ensures
        taking@.sql == "SELECT pg_advisory_lock($1)"@,
        giving@.sql == "SELECT pg_advisory_unlock($1)"@,
        taking@.params.len() == 1 && giving@.params.len() == 1,
        bound(taking@.params, 1) == Datum::Int(key as int),
        bound(giving@.params, 1) == bound(taking@.params, 1),
{
}

/// Where nothing is locked, the job that a claim takes ahead of every other is one that the
/// statement may take. They part only over jobs of one tier that were created at the same
/// instant, which the statement does not order.
pub proof fn the_next_claim_may_be_taken(
    state: QueueState,
    kinds: Seq<Seq<char>>,
    floor: i16,
    now: Timestamp,
    id: ulid::Ulid,
)
    requires
        claims_next(state, kinds, floor, now, id),
    ensures
        takes_next(state, kinds, floor, now, Set::empty(), id),
        forall|other: ulid::Ulid| #[trigger]
            takes_next(state, kinds, floor, now, Set::empty(), other) ==> state.jobs[other].priority
                == state.jobs[id].priority && state.jobs[other].created_at.nanos()
                == state.jobs[id].created_at.nanos(),
{
    assert(offered(state, kinds, floor, now, Set::empty(), id));
    assert forall|other: ulid::Ulid| #[trigger]
        offered(state, kinds, floor, now, Set::empty(), other) implies ({
        let job = state.jobs[id];
        let rival = state.jobs[other];
        &&& job.priority <= rival.priority
        &&& job.priority == rival.priority ==> job.created_at.nanos() <= rival.created_at.nanos()
    }) by {
        assert(state.jobs.contains_key(other));
    }
}

} // verus!
