//! What the adapter's queries answer: run on stored rows, each returns what the store
//! promises of it.
use crate::error::Error;
use crate::ids::{id_order_is_text_order, id_text_reads_back, ulid_text};
use crate::instants::{elapsed, Duration, Timestamp};
use crate::lifecycle::{
    cleaned_ids, cleaned_up, cleanup_step, counts_jobs, dedup_sibling, history_page, jobs_in,
    jobs_with, journal_of, lease_expired, lists, names_kind, older, oldest_age, passes, row_limit,
    scheduled, snapshot_of, QueueState,
};
use crate::postgres::effects::{job_columns_name_the_row, lemma_same_id, lemma_same_status};
use crate::postgres::prefix::TablePrefix;
use crate::postgres::rows::{
    dead_counts, job_from_row, journal_from_row, pending_ages, pending_counts, snapshot_from_rows,
    stored_count, stored_entry_reads_back, stored_job_reads_back, DeadRow, JobRow, JournalRow,
    PendingRow,
};
use crate::postgres::sql::{
    ahead, answered_by, bound, cell, comes_before, compares, condition_texts, datum, ending_text,
    entry_cell, instant_or_null, journal_column_names, json_or_null, listed, meets, order_texts,
    row_columns, text_or_null, where_text, Column, Condition, Datum, Delete, Direction, Expr,
    JournalColumn, KindRow, Limit, Select, SelectByKind, SelectCount, SelectEntries, SelectLeast,
    Test,
};
use crate::postgres::statements::{
    and_cursor, and_if, claimed_stats, cleanup, cleanup_statement, conjunction, dead_stats,
    dedup_candidate, filter_conditions, find_stale, instant_value, job, journal, next_visible_at,
    pending_stats, placeholder, query_jobs, query_jobs_statement, status_value, text_value,
    ConditionsView, ParamView, Statement, StatementView, JOB_COLUMNS, JOURNAL_COLUMNS,
};
use crate::store::{
    CleanupCriteria, CriteriaView, FilterView, HistoryFilter, JobRecord, JobView, JournalRecord,
    JournalView, Snapshot, Status,
};
use crate::text::{decimal, optional_text, texts};
use vstd::prelude::*;

verus! {

proof fn lemma_job_text(prefix: Seq<char>)
    ensures
        job_reading().text(prefix) == "SELECT "@ + JOB_COLUMNS@ + " FROM "@ + prefix
            + "_jobs WHERE id = $1"@,
{
    reveal_with_fuel(conjunction, 2);
    reveal_with_fuel(decimal, 2);
    reveal_strlit("$");
    reveal_strlit(" = ");
    reveal_strlit("id");
    reveal_strlit("WHERE ");
    reveal_strlit("_jobs ");
    reveal_strlit("_jobs WHERE id = $1");
    job_columns_name_the_row();
    let read = job_reading();
    let tail = "_jobs "@ + where_text(read.conditions);
    assert(tail =~= "_jobs WHERE id = $1"@);
    assert(read.text(prefix) =~= "SELECT "@ + JOB_COLUMNS@ + " FROM "@ + prefix + tail);
}

spec fn job_reading() -> Select {
    Select {
        returned: row_columns(),
        conditions: seq![Condition::Compares(Column::Id, Test::Equal, Expr::Placeholder(1))],
        order: seq![],
        limit: Limit::Unbounded,
    }
}

/// The query for one job returns the job of that identity, and nothing where there is
/// none.
pub proof fn job_query_finds_the_job(
    prefix: &TablePrefix,
    id: ulid::Ulid,
    statement: Statement,
    state: QueueState,
    now: Timestamp,
)
    requires
        call_ensures(job, (prefix, id), statement),
        state.valid(),
    ensures
        answered_by(
            statement@,
            prefix@,
            now,
            state.jobs,
            |page: Seq<JobView>|
                page == (if state.jobs.contains_key(id) {
                    seq![state.jobs[id]]
                } else {
                    Seq::empty()
                }),
        ),
{
    let read = job_reading();
    let params = statement@.params;
    let found: Seq<JobView> = if state.jobs.contains_key(id) {
        seq![state.jobs[id]]
    } else {
        Seq::empty()
    };
    let pages = |page: Seq<JobView>|
        page == (if state.jobs.contains_key(id) {
            seq![state.jobs[id]]
        } else {
            Seq::empty()
        });
    lemma_job_text(prefix@);
    assert forall|row: JobView| #[trigger] meets(read.conditions, params, now, row) <==> row.id
        == id by {
        lemma_same_id(row, id);
        assert(read.conditions[0].holds(params, now, row) <==> row.id == id);
    }
    assert forall|page: Seq<JobView>| #[trigger]
        read.answers(params, now, state.jobs, page) <==> pages(page) by {
        if read.answers(params, now, state.jobs, page) {
            assert(page.len() <= 1) by {
                if page.len() > 1 {
                    assert(page[0].id != page[1].id);
                }
            }
            if state.jobs.contains_key(id) {
                assert(page.contains(state.jobs[id]));
            } else if page.len() > 0 {
                assert(page[0].id == id);
            }
            assert(page =~= found);
        }
        if pages(page) && state.jobs.contains_key(id) {
            assert(page[0] == state.jobs[id]);
        }
    }
}

spec fn dedup_reading() -> Select {
    Select {
        returned: row_columns(),
        conditions: seq![
            Condition::Compares(Column::Kind, Test::Equal, Expr::Placeholder(1)),
            Condition::Compares(Column::DedupKey, Test::Equal, Expr::Placeholder(2)),
            Condition::Compares(Column::Status, Test::Equal, Expr::State(Status::Pending)),
        ],
        order: seq![(Column::CreatedAt, Direction::Ascending)],
        limit: Limit::Number(1),
    }
}

proof fn lemma_dedup_text(prefix: Seq<char>)
    ensures
        dedup_reading().text(prefix) == "SELECT "@ + JOB_COLUMNS@ + " FROM "@ + prefix
            + "_jobs WHERE kind = $1 AND dedup_key = $2 AND status = 'pending' ORDER BY created_at LIMIT 1"@,
{
    reveal_with_fuel(conjunction, 4);
    reveal_with_fuel(listed, 2);
    reveal_with_fuel(decimal, 2);
    reveal_strlit("$");
    reveal_strlit("'");
    reveal_strlit(" = ");
    reveal_strlit(" AND ");
    reveal_strlit("kind");
    reveal_strlit("dedup_key");
    reveal_strlit("status");
    reveal_strlit("pending");
    reveal_strlit("created_at");
    reveal_strlit("WHERE ");
    reveal_strlit(" ORDER BY ");
    reveal_strlit(" ");
    reveal_strlit("LIMIT ");
    reveal_strlit("_jobs ");
    reveal_strlit(
        "_jobs WHERE kind = $1 AND dedup_key = $2 AND status = 'pending' ORDER BY created_at LIMIT 1",
    );
    job_columns_name_the_row();
    let read = dedup_reading();
    let tail = "_jobs "@ + where_text(read.conditions) + ending_text(read.order, read.limit);
    assert(tail
        =~= "_jobs WHERE kind = $1 AND dedup_key = $2 AND status = 'pending' ORDER BY created_at LIMIT 1"@);
    assert(read.text(prefix) =~= "SELECT "@ + JOB_COLUMNS@ + " FROM "@ + prefix + tail);
}

/// Whether a page is the deduplication candidate: a pending job of the kind and the key
/// that none of the others is older than, or nothing where there is none.
pub open spec fn candidate_page(
    state: QueueState,
    kind: Seq<char>,
    key: Seq<char>,
    page: Seq<JobView>,
) -> bool {
    if exists|id: ulid::Ulid| #[trigger]
        state.jobs.contains_key(id) && dedup_sibling(state.jobs[id], kind, key) {
        &&& page.len() == 1
        &&& state.jobs.contains_key(page[0].id) && state.jobs[page[0].id] == page[0]
        &&& dedup_sibling(page[0], kind, key)
        &&& forall|id: ulid::Ulid| #[trigger]
            state.jobs.contains_key(id) && dedup_sibling(state.jobs[id], kind, key)
                ==> page[0].created_at.nanos() <= state.jobs[id].created_at.nanos()
    } else {
        page.len() == 0
    }
}

/// The query for a deduplication candidate returns the oldest pending job of the kind and
/// the key.
pub proof fn dedup_query_finds_the_oldest_sibling(
    prefix: &TablePrefix,
    kind: &str,
    dedup_key: &str,
    statement: Statement,
    state: QueueState,
    now: Timestamp,
)
    requires
        call_ensures(dedup_candidate, (prefix, kind, dedup_key), statement),
        state.valid(),
    ensures
        answered_by(
            statement@,
            prefix@,
            now,
            state.jobs,
            |page: Seq<JobView>| candidate_page(state, kind@, dedup_key@, page),
        ),
{
    let read = dedup_reading();
    let params = statement@.params;
    let pages = |page: Seq<JobView>| candidate_page(state, kind@, dedup_key@, page);
    lemma_dedup_text(prefix@);
    assert forall|row: JobView| #[trigger]
        meets(read.conditions, params, now, row) <==> dedup_sibling(row, kind@, dedup_key@) by {
        lemma_same_status(row, Status::Pending);
        assert(read.conditions[0].holds(params, now, row) <==> row.kind == kind@);
        assert(read.conditions[1].holds(params, now, row) <==> row.dedup_key == Some(dedup_key@));
        assert(read.conditions[2].holds(params, now, row) <==> row.status is Pending);
    }
    assert forall|a: JobView, b: JobView| #[trigger]
        ahead(read.order, a, b) <==> a.created_at.nanos() < b.created_at.nanos() by {
        reveal_with_fuel(ahead, 2);
        assert(read.order[0].0 == Column::CreatedAt);
    }
    assert forall|page: Seq<JobView>| #[trigger]
        read.answers(params, now, state.jobs, page) <==> pages(page) by {
        if read.answers(params, now, state.jobs, page) {
            assert forall|id: ulid::Ulid| #[trigger]
                state.jobs.contains_key(id) && dedup_sibling(
                    state.jobs[id],
                    kind@,
                    dedup_key@,
                ) implies page.len() == 1 && page[0].created_at.nanos()
                <= state.jobs[id].created_at.nanos() by {
                if page.contains(state.jobs[id]) {
                    let i = choose|i: int| 0 <= i < page.len() && page[i] == state.jobs[id];
                    assert(page[0] == page[i]);
                }
            }
            if page.len() > 0 {
                assert(state.jobs.contains_key(page[0].id));
            }
        }
        if pages(page) && page.len() > 0 {
            assert(page.contains(page[0]));
            assert forall|id: ulid::Ulid| #[trigger]
                state.jobs.contains_key(id) && meets(
                    read.conditions,
                    params,
                    now,
                    state.jobs[id],
                ) && !page.contains(state.jobs[id]) implies forall|i: int|
                0 <= i < page.len() ==> !ahead(read.order, state.jobs[id], #[trigger] page[i]) by {
                assert(dedup_sibling(state.jobs[id], kind@, dedup_key@));
            }
        }
    }
}

spec fn stale_reading() -> Select {
    Select {
        returned: row_columns(),
        conditions: seq![
            Condition::Compares(Column::Status, Test::Equal, Expr::State(Status::Claimed)),
            Condition::Compares(Column::ClaimExpiresAt, Test::Below, Expr::Now),
        ],
        order: seq![(Column::ClaimExpiresAt, Direction::Ascending)],
        limit: Limit::Number(100),
    }
}

proof fn lemma_stale_text(prefix: Seq<char>)
    ensures
        stale_reading().text(prefix) == "SELECT "@ + JOB_COLUMNS@ + " FROM "@ + prefix
            + "_jobs WHERE status = 'claimed' AND claim_expires_at < now() ORDER BY claim_expires_at LIMIT 100"@,
{
    reveal_with_fuel(conjunction, 3);
    reveal_with_fuel(listed, 2);
    reveal_with_fuel(decimal, 4);
    reveal_strlit("'");
    reveal_strlit(" = ");
    reveal_strlit(" < ");
    reveal_strlit(" AND ");
    reveal_strlit("status");
    reveal_strlit("claimed");
    reveal_strlit("claim_expires_at");
    reveal_strlit("now()");
    reveal_strlit("WHERE ");
    reveal_strlit(" ORDER BY ");
    reveal_strlit(" ");
    reveal_strlit("LIMIT ");
    reveal_strlit("_jobs ");
    reveal_strlit(
        "_jobs WHERE status = 'claimed' AND claim_expires_at < now() ORDER BY claim_expires_at LIMIT 100",
    );
    job_columns_name_the_row();
    let read = stale_reading();
    let tail = "_jobs "@ + where_text(read.conditions) + ending_text(read.order, read.limit);
    assert(tail
        =~= "_jobs WHERE status = 'claimed' AND claim_expires_at < now() ORDER BY claim_expires_at LIMIT 100"@);
    assert(read.text(prefix) =~= "SELECT "@ + JOB_COLUMNS@ + " FROM "@ + prefix + tail);
}

/// When a claim expires, where the job is claimed.
pub open spec fn expiry(job: JobView) -> int {
    job.claim_expires_at->Some_0.nanos()
}

/// Whether a page is a batch of stale claims: expired ones, each once, the longest
/// expired first, at most a hundred; one is left out only from a full batch, and has
/// expired no longer ago than those in it.
pub open spec fn stale_batch(state: QueueState, now: Timestamp, page: Seq<JobView>) -> bool {
    &&& forall|i: int|
        0 <= i < page.len() ==> state.jobs.contains_key((#[trigger] page[i]).id)
            && state.jobs[page[i].id] == page[i] && lease_expired(page[i], now)
    &&& forall|i: int, j: int|
        0 <= i < j < page.len() ==> (#[trigger] page[i]).id != (#[trigger] page[j]).id && expiry(
            page[i],
        ) <= expiry(page[j])
    &&& page.len() <= 100
    &&& forall|id: ulid::Ulid| #[trigger]
        state.jobs.contains_key(id) && lease_expired(state.jobs[id], now) && !page.contains(
            state.jobs[id],
        ) ==> page.len() == 100 && forall|i: int|
            0 <= i < page.len() ==> expiry(#[trigger] page[i]) <= expiry(state.jobs[id])
}

/// The scan for stale claims returns a batch of those whose lease has expired: all of
/// them, where they are no more than a hundred.
pub proof fn stale_scan_finds_expired_claims(
    prefix: &TablePrefix,
    statement: Statement,
    state: QueueState,
    now: Timestamp,
)
    requires
        call_ensures(find_stale, (prefix,), statement),
        state.valid(),
    ensures
        answered_by(
            statement@,
            prefix@,
            now,
            state.jobs,
            |page: Seq<JobView>| stale_batch(state, now, page),
        ),
{
    let read = stale_reading();
    let params = statement@.params;
    let pages = |page: Seq<JobView>| stale_batch(state, now, page);
    lemma_stale_text(prefix@);
    assert forall|row: JobView| #[trigger]
        meets(read.conditions, params, now, row) <==> lease_expired(row, now) by {
        lemma_same_status(row, Status::Claimed);
        assert(read.conditions[0].holds(params, now, row) <==> row.status is Claimed);
        assert(read.conditions[1].holds(params, now, row) <==> (row.claim_expires_at matches Some(
            at,
        ) && at.nanos() < now.nanos()));
    }
    assert forall|a: JobView, b: JobView|
        a.claim_expires_at is Some && b.claim_expires_at is Some implies (#[trigger] ahead(
        read.order,
        a,
        b,
    ) <==> expiry(a) < expiry(b)) by {
        reveal_with_fuel(ahead, 2);
        assert(read.order[0].0 == Column::ClaimExpiresAt);
    }
    assert forall|page: Seq<JobView>| #[trigger]
        read.answers(params, now, state.jobs, page) <==> pages(page) by {
        if read.answers(params, now, state.jobs, page) {
            assert forall|i: int, j: int| 0 <= i < j < page.len() implies (#[trigger] page[i]).id
                != (#[trigger] page[j]).id && expiry(page[i]) <= expiry(page[j]) by {
                assert(!ahead(read.order, page[j], page[i]));
                assert(meets(read.conditions, params, now, page[i]));
                assert(meets(read.conditions, params, now, page[j]));
            }
            assert forall|id: ulid::Ulid| #[trigger]
                state.jobs.contains_key(id) && lease_expired(state.jobs[id], now)
                    && !page.contains(state.jobs[id]) implies page.len() == 100 && forall|i: int|
                0 <= i < page.len() ==> expiry(#[trigger] page[i]) <= expiry(state.jobs[id]) by {
                assert(meets(read.conditions, params, now, state.jobs[id]));
                assert forall|i: int| 0 <= i < page.len() implies expiry(#[trigger] page[i])
                    <= expiry(state.jobs[id]) by {
                    assert(!ahead(read.order, state.jobs[id], page[i]));
                    assert(meets(read.conditions, params, now, page[i]));
                }
            }
        }
        if pages(page) {
            assert forall|i: int, j: int| 0 <= i < j < page.len() implies (#[trigger] page[i]).id
                != (#[trigger] page[j]).id && !ahead(read.order, page[j], page[i]) by {
                assert(lease_expired(page[i], now) && lease_expired(page[j], now));
            }
            assert forall|id: ulid::Ulid| #[trigger]
                state.jobs.contains_key(id) && meets(
                    read.conditions,
                    params,
                    now,
                    state.jobs[id],
                ) && !page.contains(state.jobs[id]) implies read.limit.rows(params) == Some(
                page.len() as int,
            ) && forall|i: int|
                0 <= i < page.len() ==> !ahead(read.order, state.jobs[id], #[trigger] page[i]) by {
                assert(lease_expired(state.jobs[id], now));
                assert forall|i: int| 0 <= i < page.len() implies !ahead(
                    read.order,
                    state.jobs[id],
                    #[trigger] page[i],
                ) by {
                    assert(lease_expired(page[i], now));
                }
            }
        }
    }
}

spec fn soonest_reading() -> SelectLeast {
    SelectLeast {
        column: Column::VisibleAt,
        conditions: seq![
            Condition::Compares(Column::Status, Test::Equal, Expr::State(Status::Pending)),
            Condition::Among(Column::Kind, 1),
            Condition::Compares(Column::VisibleAt, Test::Above, Expr::Now),
        ],
    }
}

proof fn lemma_soonest_text(prefix: Seq<char>)
    ensures
        soonest_reading().text(prefix) == "SELECT min(visible_at) FROM "@ + prefix
            + "_jobs WHERE status = 'pending' AND kind = ANY($1) AND visible_at > now()"@,
{
    reveal_with_fuel(conjunction, 4);
    reveal_with_fuel(decimal, 2);
    reveal_strlit("$");
    reveal_strlit("'");
    reveal_strlit(" = ");
    reveal_strlit(" > ");
    reveal_strlit(" = ANY(");
    reveal_strlit(")");
    reveal_strlit(" AND ");
    reveal_strlit("status");
    reveal_strlit("pending");
    reveal_strlit("kind");
    reveal_strlit("visible_at");
    reveal_strlit("now()");
    reveal_strlit("_jobs WHERE ");
    reveal_strlit("SELECT min(");
    reveal_strlit(") FROM ");
    reveal_strlit("SELECT min(visible_at) FROM ");
    reveal_strlit("_jobs WHERE status = 'pending' AND kind = ANY($1) AND visible_at > now()");
    let read = soonest_reading();
    let head = "SELECT min("@ + read.column.name() + ") FROM "@;
    let tail = "_jobs WHERE "@ + conjunction(condition_texts(read.conditions));
    assert(head =~= "SELECT min(visible_at) FROM "@);
    assert(tail
        =~= "_jobs WHERE status = 'pending' AND kind = ANY($1) AND visible_at > now()"@);
    assert(read.text(prefix) =~= head + prefix + tail);
}

/// Whether `at` is the soonest time at which a job of the kinds that is scheduled for the
/// future becomes eligible; `None` where none is scheduled.
pub open spec fn soonest(
    state: QueueState,
    kinds: Seq<Seq<char>>,
    now: Timestamp,
    at: Option<Timestamp>,
) -> bool {
    match at {
        Some(at) => {
            &&& exists|id: ulid::Ulid| #[trigger]
                state.jobs.contains_key(id) && scheduled(state.jobs[id], kinds, now)
                    && state.jobs[id].visible_at == at
            &&& forall|id: ulid::Ulid| #[trigger]
                state.jobs.contains_key(id) && scheduled(state.jobs[id], kinds, now) ==> at.nanos()
                    <= state.jobs[id].visible_at.nanos()
        },
        None => forall|id: ulid::Ulid| #[trigger]
            state.jobs.contains_key(id) ==> !scheduled(state.jobs[id], kinds, now),
    }
}

/// The query for the next eligibility time returns the soonest among the pending jobs of
/// the kinds that are scheduled for the future.
pub proof fn next_visible_query_finds_the_soonest(
    prefix: &TablePrefix,
    kinds: &[String],
    statement: Statement,
    state: QueueState,
    now: Timestamp,
)
    requires
        call_ensures(next_visible_at, (prefix, kinds), statement),
    ensures
        exists|select: SelectLeast|
            {
                &&& #[trigger] select.text(prefix@) == statement@.sql
                &&& forall|at: Option<Timestamp>|
                    select.answers(statement@.params, now, state.jobs, #[trigger] instant_or_null(at))
                        <==> soonest(state, texts(kinds@), now, at)
            },
{
    let read = soonest_reading();
    let params = statement@.params;
    let list = texts(kinds@);
    lemma_soonest_text(prefix@);
    assert forall|row: JobView| #[trigger]
        meets(read.conditions, params, now, row) <==> scheduled(row, list, now) by {
        lemma_same_status(row, Status::Pending);
        assert(read.conditions[0].holds(params, now, row) <==> row.status is Pending);
        assert(read.conditions[1] == Condition::Among(Column::Kind, 1));
        assert(bound(params, 1) == Datum::Texts(list));
        assert(read.conditions[2].holds(params, now, row) <==> row.visible_at.nanos()
            > now.nanos());
        if names_kind(list, row.kind) {
            let i = choose|i: int| 0 <= i < list.len() && #[trigger] list[i] == row.kind;
            assert(list.contains(list[i]));
        }
        assert(read.conditions[1].holds(params, now, row) <==> names_kind(list, row.kind));
    }
    assert forall|at: Option<Timestamp>|
        read.answers(params, now, state.jobs, #[trigger] instant_or_null(at)) <==> soonest(
            state,
            list,
            now,
            at,
        ) by {
        if exists|id: ulid::Ulid| #[trigger]
            state.jobs.contains_key(id) && meets(read.conditions, params, now, state.jobs[id]) {
            let id = choose|id: ulid::Ulid| #[trigger]
                state.jobs.contains_key(id) && meets(read.conditions, params, now, state.jobs[id]);
            assert(scheduled(state.jobs[id], list, now));
        }
        if read.answers(params, now, state.jobs, instant_or_null(at)) && at is Some {
            let id = choose|id: ulid::Ulid| #[trigger]
                state.jobs.contains_key(id) && meets(read.conditions, params, now, state.jobs[id])
                    && cell(state.jobs[id], read.column) == instant_or_null(at);
            assert(state.jobs[id].visible_at == at->Some_0);
            assert(scheduled(state.jobs[id], list, now));
        }
        if soonest(state, list, now, at) && at is Some {
            let id = choose|id: ulid::Ulid| #[trigger]
                state.jobs.contains_key(id) && scheduled(state.jobs[id], list, now)
                    && state.jobs[id].visible_at == at->Some_0;
            assert(meets(read.conditions, params, now, state.jobs[id]));
            assert(cell(state.jobs[id], read.column) == instant_or_null(at));
        }
    }
}

/// One condition more where a value is set, against the placeholder after `n`.
spec fn read_if(
    conditions: Seq<Condition>,
    n: nat,
    column: Column,
    test: Test,
    value: Option<ParamView>,
) -> Seq<Condition> {
    match value {
        Some(_) => conditions.push(Condition::Compares(column, test, Expr::Placeholder(n + 1))),
        None => conditions,
    }
}

/// Whether conditions read as those written, and the values bound to them come first in
/// `params`.
spec fn reads_as(
    conditions: Seq<Condition>,
    view: ConditionsView,
    params: Seq<ParamView>,
) -> bool {
    condition_texts(conditions) == view.clauses && view.params.is_prefix_of(params)
}

proof fn lemma_read_if(
    conditions: Seq<Condition>,
    view: ConditionsView,
    params: Seq<ParamView>,
    column: Column,
    test: Test,
    left: Seq<char>,
    value: Option<ParamView>,
    now: Timestamp,
    row: JobView,
)
    requires
        condition_texts(conditions) == view.clauses,
        and_if(view, left, value).params.is_prefix_of(params),
        left == column.name() + test.text(),
    ensures
        reads_as(
            read_if(conditions, view.params.len(), column, test, value),
            and_if(view, left, value),
            params,
        ),
        meets(
            read_if(conditions, view.params.len(), column, test, value),
            params,
            now,
            row,
        ) <==> meets(conditions, params, now, row) && (value matches Some(value) ==> compares(
            cell(row, column),
            test,
            datum(value),
        )),
{
    if let Some(param) = value {
        let n = view.params.len();
        let added = Condition::Compares(column, test, Expr::Placeholder(n + 1));
        let longer = conditions.push(added);
        assert(added.text() =~= left + placeholder(n + 1));
        assert(condition_texts(longer) =~= view.clauses.push(added.text()));
        assert(view.params.push(param)[n as int] == param);
        assert(bound(params, n + 1) == datum(param));
        assert(longer[conditions.len() as int] == added);
        assert(added.holds(params, now, row) == compares(cell(row, column), test, datum(param)));
        assert forall|i: int| 0 <= i < conditions.len() implies longer[i] == conditions[i] by {}
        if meets(longer, params, now, row) {
            assert forall|i: int| 0 <= i < conditions.len() implies (
            #[trigger] conditions[i]).holds(params, now, row) by {
                assert(longer[i].holds(params, now, row));
            }
            assert(longer[conditions.len() as int].holds(params, now, row));
        }
    }
}

proof fn lemma_lefts()
    ensures
        "kind = "@ == Column::Kind.name() + Test::Equal.text(),
        "status = "@ == Column::Status.name() + Test::Equal.text(),
        "finished_at >= "@ == Column::FinishedAt.name() + Test::AtLeast.text(),
        "finished_at < "@ == Column::FinishedAt.name() + Test::Below.text(),
{
    reveal_strlit("kind");
    reveal_strlit("status");
    reveal_strlit("finished_at");
    reveal_strlit(" = ");
    reveal_strlit(" >= ");
    reveal_strlit(" < ");
    reveal_strlit("kind = ");
    reveal_strlit("status = ");
    reveal_strlit("finished_at >= ");
    reveal_strlit("finished_at < ");
    assert("kind = "@ =~= Column::Kind.name() + Test::Equal.text());
    assert("status = "@ =~= Column::Status.name() + Test::Equal.text());
    assert("finished_at >= "@ =~= Column::FinishedAt.name() + Test::AtLeast.text());
    assert("finished_at < "@ =~= Column::FinishedAt.name() + Test::Below.text());
}

spec fn cleanup_head() -> Seq<Condition> {
    seq![
        Condition::Present(Column::FinishedAt),
        Condition::Compares(Column::FinishedAt, Test::Below, Expr::Placeholder(1)),
    ]
}

spec fn cleanup_reading(criteria: CriteriaView) -> Delete {
    let kind = read_if(
        cleanup_head(),
        1,
        Column::Kind,
        Test::Equal,
        text_value(criteria.kind),
    );
    let n: nat = if criteria.kind is Some {
        2
    } else {
        1
    };
    Delete {
        conditions: read_if(kind, n, Column::Status, Test::Equal, status_value(criteria.status)),
    }
}

proof fn lemma_cleanup_reading(criteria: CriteriaView, prefix: Seq<char>, now: Timestamp, row: JobView)
    ensures
        cleanup_reading(criteria).text(prefix) == cleanup_statement(prefix, criteria).sql,
        meets(
            cleanup_reading(criteria).conditions,
            cleanup_statement(prefix, criteria).params,
            now,
            row,
        ) <==> cleaned_up(row, criteria),
{
    reveal_with_fuel(decimal, 2);
    reveal_strlit("$");
    reveal_strlit(" < ");
    reveal_strlit("finished_at");
    reveal_strlit(" IS NOT NULL");
    reveal_strlit("finished_at IS NOT NULL");
    reveal_strlit("finished_at < $1");
    let finished = ConditionsView {
        clauses: seq!["finished_at IS NOT NULL"@, "finished_at < $1"@],
        params: seq![ParamView::Instant(criteria.finished_before)],
    };
    let kind = and_if(finished, "kind = "@, text_value(criteria.kind));
    let params = cleanup_statement(prefix, criteria).params;
    let head = cleanup_head();
    assert(head[0].text() =~= "finished_at IS NOT NULL"@);
    assert(head[1].text() =~= "finished_at < $1"@);
    assert(condition_texts(head) =~= finished.clauses);
    lemma_lefts();
    lemma_read_if(
        head,
        finished,
        params,
        Column::Kind,
        Test::Equal,
        "kind = "@,
        text_value(criteria.kind),
        now,
        row,
    );
    let read_kind = read_if(head, 1, Column::Kind, Test::Equal, text_value(criteria.kind));
    lemma_read_if(
        read_kind,
        kind,
        params,
        Column::Status,
        Test::Equal,
        "status = "@,
        status_value(criteria.status),
        now,
        row,
    );
    assert(bound(params, 1) == Datum::Instant(criteria.finished_before));
    assert(head[0].holds(params, now, row) <==> row.finished_at is Some);
    assert(head[1].holds(params, now, row) <==> (row.finished_at matches Some(at) && at.nanos()
        < criteria.finished_before.nanos()));
    assert(meets(head, params, now, row) <==> head[0].holds(params, now, row) && head[1].holds(
        params,
        now,
        row,
    ));
    if let Some(status) = criteria.status {
        lemma_same_status(row, status);
    }
}

/// A cleanup's statement, run on stored rows, is the cleanup: it deletes the jobs that
/// finished before the given time, of the kind and in the state where one is given, and
/// no other.
pub proof fn cleanup_is_written(
    prefix: &TablePrefix,
    criteria: &CleanupCriteria,
    statement: Statement,
    state: QueueState,
    now: Timestamp,
)
    requires
        call_ensures(cleanup, (prefix, criteria), statement),
    ensures
        exists|delete: Delete|
            {
                &&& #[trigger] delete.text(prefix@) == statement@.sql
                &&& delete.deletes(statement@.params, now, state.jobs) == cleaned_ids(
                    state,
                    criteria@,
                )
            },
        forall|id: ulid::Ulid| #[trigger]
            cleaned_ids(state, criteria@).contains(id) <==> {
                &&& state.jobs.contains_key(id)
                &&& state.jobs[id].finished_at matches Some(finished) && finished.nanos()
                    < criteria.finished_before.nanos()
                &&& criteria@.kind matches Some(kind) ==> state.jobs[id].kind == kind
                &&& criteria@.status matches Some(status) ==> state.jobs[id].status == status
            },
        forall|id: ulid::Ulid| #[trigger]
            cleanup_step(state, criteria@).jobs.contains_key(id) <==> state.jobs.contains_key(id)
                && !cleaned_ids(state, criteria@).contains(id),
{
    let read = cleanup_reading(criteria@);
    let params = statement@.params;
    assert forall|row: JobView| #[trigger]
        meets(read.conditions, params, now, row) <==> cleaned_up(row, criteria@) by {
        lemma_cleanup_reading(criteria@, prefix@, now, row);
    }
    lemma_cleanup_reading(criteria@, prefix@, now, arbitrary());
    assert(read.deletes(params, now, state.jobs) =~= cleaned_ids(state, criteria@));
}

spec fn filter_kind(filter: FilterView) -> ConditionsView {
    and_if(
        ConditionsView { clauses: Seq::empty(), params: Seq::empty() },
        "kind = "@,
        text_value(filter.kind),
    )
}

spec fn filter_status(filter: FilterView) -> ConditionsView {
    and_if(filter_kind(filter), "status = "@, status_value(filter.status))
}

spec fn filter_since(filter: FilterView) -> ConditionsView {
    and_if(filter_status(filter), "finished_at >= "@, instant_value(filter.finished_since))
}

spec fn filter_until(filter: FilterView) -> ConditionsView {
    and_if(filter_since(filter), "finished_at < "@, instant_value(filter.finished_until))
}

spec fn read_kind(filter: FilterView) -> Seq<Condition> {
    read_if(Seq::empty(), 0, Column::Kind, Test::Equal, text_value(filter.kind))
}

spec fn read_status(filter: FilterView) -> Seq<Condition> {
    read_if(
        read_kind(filter),
        filter_kind(filter).params.len(),
        Column::Status,
        Test::Equal,
        status_value(filter.status),
    )
}

spec fn read_since(filter: FilterView) -> Seq<Condition> {
    read_if(
        read_status(filter),
        filter_status(filter).params.len(),
        Column::FinishedAt,
        Test::AtLeast,
        instant_value(filter.finished_since),
    )
}

spec fn read_until(filter: FilterView) -> Seq<Condition> {
    read_if(
        read_since(filter),
        filter_since(filter).params.len(),
        Column::FinishedAt,
        Test::Below,
        instant_value(filter.finished_until),
    )
}

spec fn read_filter(filter: FilterView) -> Seq<Condition> {
    let n = filter_until(filter).params.len();
    match filter.created_before {
        Some(_) => read_until(filter).push(Condition::Older(n + 1, n + 2)),
        None => read_until(filter),
    }
}

spec fn history_reading(filter: FilterView) -> Select {
    Select {
        returned: row_columns(),
        conditions: read_filter(filter),
        order: seq![
            (Column::CreatedAt, Direction::Descending),
            (Column::Id, Direction::Descending),
        ],
        limit: match filter.limit {
            Some(_) => Limit::Placeholder(filter_conditions(filter).params.len() + 1),
            None => Limit::Unbounded,
        },
    }
}

proof fn lemma_filter_reading(
    filter: FilterView,
    params: Seq<ParamView>,
    now: Timestamp,
    row: JobView,
)
    requires
        filter_conditions(filter).params.is_prefix_of(params),
    ensures
        condition_texts(read_filter(filter)) == filter_conditions(filter).clauses,
        meets(read_filter(filter), params, now, row) <==> passes(row, filter),
{
    let none = ConditionsView { clauses: Seq::empty(), params: Seq::empty() };
    let start = Seq::<Condition>::empty();
    assert(condition_texts(start) =~= none.clauses);
    lemma_lefts();
    assert(filter_conditions(filter) == and_cursor(filter_until(filter), filter.created_before));
    assert(filter_until(filter).params.is_prefix_of(params)) by {
        assert(filter_until(filter).params.is_prefix_of(filter_conditions(filter).params));
    }
    assert(filter_since(filter).params.is_prefix_of(params));
    assert(filter_status(filter).params.is_prefix_of(params));
    assert(filter_kind(filter).params.is_prefix_of(params));
    lemma_read_if(
        start,
        none,
        params,
        Column::Kind,
        Test::Equal,
        "kind = "@,
        text_value(filter.kind),
        now,
        row,
    );
    lemma_read_if(
        read_kind(filter),
        filter_kind(filter),
        params,
        Column::Status,
        Test::Equal,
        "status = "@,
        status_value(filter.status),
        now,
        row,
    );
    lemma_read_if(
        read_status(filter),
        filter_status(filter),
        params,
        Column::FinishedAt,
        Test::AtLeast,
        "finished_at >= "@,
        instant_value(filter.finished_since),
        now,
        row,
    );
    lemma_read_if(
        read_since(filter),
        filter_since(filter),
        params,
        Column::FinishedAt,
        Test::Below,
        "finished_at < "@,
        instant_value(filter.finished_until),
        now,
        row,
    );
    if let Some(status) = filter.status {
        lemma_same_status(row, status);
    }
    if let Some((created, id)) = filter.created_before {
        let view = filter_until(filter);
        let n = view.params.len();
        let added = Condition::Older(n + 1, n + 2);
        let before = read_until(filter);
        let longer = before.push(added);
        assert(condition_texts(longer) =~= view.clauses.push(added.text()));
        let all = filter_conditions(filter).params;
        assert(all[n as int] == ParamView::Instant(created));
        assert(all[n as int + 1] == ParamView::Text(ulid_text(id.0)));
        assert(bound(params, n + 1) == Datum::Instant(created));
        assert(bound(params, n + 2) == Datum::Text(ulid_text(id.0)));
        id_order_is_text_order(row.id.0, id.0);
        assert(longer[before.len() as int] == added);
        assert forall|i: int| 0 <= i < before.len() implies longer[i] == before[i] by {}
        if meets(longer, params, now, row) {
            assert forall|i: int| 0 <= i < before.len() implies (#[trigger] before[i]).holds(
                params,
                now,
                row,
            ) by {
                assert(longer[i].holds(params, now, row));
            }
            assert(longer[before.len() as int].holds(params, now, row));
        }
    }
}

proof fn lemma_history_text(prefix: Seq<char>, filter: FilterView)
    ensures
        history_reading(filter).text(prefix) == query_jobs_statement(prefix, filter).sql,
{
    reveal_with_fuel(listed, 3);
    reveal_strlit(", ");
    reveal_strlit(" ");
    reveal_strlit(" DESC");
    reveal_strlit("created_at");
    reveal_strlit("id");
    reveal_strlit(" ORDER BY ");
    reveal_strlit("");
    reveal_strlit(" ORDER BY created_at DESC, id DESC ");
    job_columns_name_the_row();
    let read = history_reading(filter);
    lemma_filter_reading(filter, filter_conditions(filter).params, arbitrary(), arbitrary());
    let order = " ORDER BY "@ + listed(order_texts(read.order)) + " "@;
    assert(order =~= " ORDER BY created_at DESC, id DESC "@);
    let ordered = "SELECT "@ + JOB_COLUMNS@ + " FROM "@ + prefix + "_jobs "@ + where_text(
        read.conditions,
    ) + " ORDER BY created_at DESC, id DESC "@;
    assert(read.conditions.len() == filter_conditions(filter).clauses.len());
    assert(read.text(prefix) =~= ordered + read.limit.text());
    assert(ordered + ""@ =~= ordered);
}

/// A history query returns the page the filter asks for: the newest jobs that pass it,
/// newest first, as many as the limit allows. PostgreSQL refuses a limit below zero.
pub proof fn history_query_returns_the_page(
    prefix: &TablePrefix,
    filter: &HistoryFilter,
    statement: Statement,
    state: QueueState,
    now: Timestamp,
)
    requires
        call_ensures(query_jobs, (prefix, filter), statement),
        state.valid(),
        filter.limit matches Some(limit) ==> limit >= 0,
    ensures
        answered_by(
            statement@,
            prefix@,
            now,
            state.jobs,
            |page: Seq<JobView>| history_page(state, filter@, page),
        ),
{
    let read = history_reading(filter@);
    let params = statement@.params;
    let pages = |page: Seq<JobView>| history_page(state, filter@, page);
    lemma_history_text(prefix@, filter@);
    let first = filter_conditions(filter@).params;
    assert(first.is_prefix_of(params));
    assert forall|row: JobView| #[trigger]
        meets(read.conditions, params, now, row) <==> passes(row, filter@) by {
        lemma_filter_reading(filter@, params, now, row);
    }
    assert(read.limit.rows(params) == row_limit(filter@)) by {
        if filter.limit is Some {
            assert(params[first.len() as int] == ParamView::BigInt(filter.limit->Some_0));
            assert(bound(params, first.len() + 1) == Datum::Int(filter.limit->Some_0 as int));
        }
    }
    assert forall|a: JobView, b: JobView| #[trigger] ahead(read.order, a, b) <==> older(b, a) by {
        reveal_with_fuel(ahead, 3);
        assert(read.order[0].0 == Column::CreatedAt);
        assert(read.order.drop_first()[0].0 == Column::Id);
        id_order_is_text_order(b.id.0, a.id.0);
    }
    assert forall|page: Seq<JobView>| #[trigger]
        read.answers(params, now, state.jobs, page) <==> pages(page) by {
        assert forall|job: JobView| #[trigger] lists(page, job) <==> page.contains(job) by {
            if page.contains(job) {
                let i = choose|i: int| 0 <= i < page.len() && page[i] == job;
                assert(page[i] == job);
            }
        }
        if read.answers(params, now, state.jobs, page) {
            assert forall|i: int, j: int| 0 <= i < j < page.len() implies older(
                #[trigger] page[j],
                #[trigger] page[i],
            ) by {
                assert(page[i].id != page[j].id);
                assert(!ahead(read.order, page[j], page[i]));
            }
            assert forall|id: ulid::Ulid| #[trigger]
                state.jobs.contains_key(id) && passes(state.jobs[id], filter@) && !lists(
                    page,
                    state.jobs[id],
                ) implies row_limit(filter@) == Some(page.len() as int) && forall|i: int|
                0 <= i < page.len() ==> older(state.jobs[id], #[trigger] page[i]) by {
                assert(meets(read.conditions, params, now, state.jobs[id]));
                assert forall|i: int| 0 <= i < page.len() implies older(
                    state.jobs[id],
                    #[trigger] page[i],
                ) by {
                    assert(!ahead(read.order, state.jobs[id], page[i]));
                    assert(page.contains(page[i]));
                }
            }
        }
        if pages(page) {
            assert forall|i: int, j: int| 0 <= i < j < page.len() implies (#[trigger] page[i]).id
                != (#[trigger] page[j]).id && !ahead(read.order, page[j], page[i]) by {
                assert(older(page[j], page[i]));
            }
            assert forall|id: ulid::Ulid| #[trigger]
                state.jobs.contains_key(id) && meets(
                    read.conditions,
                    params,
                    now,
                    state.jobs[id],
                ) && !page.contains(state.jobs[id]) implies read.limit.rows(params) == Some(
                page.len() as int,
            ) && forall|i: int|
                0 <= i < page.len() ==> !ahead(read.order, state.jobs[id], #[trigger] page[i]) by {
                assert(!lists(page, state.jobs[id]));
            }
        }
    }
}

spec fn journal_columns() -> Seq<JournalColumn> {
    seq![
        JournalColumn::Id,
        JournalColumn::JobId,
        JournalColumn::Kind,
        JournalColumn::RunNo,
        JournalColumn::RecordedAt,
        JournalColumn::Outcome,
        JournalColumn::Note,
        JournalColumn::Attachment,
    ]
}

spec fn journal_reading() -> SelectEntries {
    SelectEntries {
        returned: journal_columns(),
        column: JournalColumn::JobId,
        with: 1,
        order: JournalColumn::Id,
    }
}

proof fn lemma_journal_text(prefix: Seq<char>)
    ensures
        journal_reading().text(prefix) == "SELECT "@ + JOURNAL_COLUMNS@ + " FROM "@ + prefix
            + "_journal WHERE job_id = $1 ORDER BY id"@,
{
    reveal_with_fuel(listed, 9);
    reveal_with_fuel(decimal, 2);
    reveal_strlit(", ");
    reveal_strlit("$");
    reveal_strlit(" = ");
    reveal_strlit("id");
    reveal_strlit("job_id");
    reveal_strlit("kind");
    reveal_strlit("run_no");
    reveal_strlit("recorded_at");
    reveal_strlit("outcome");
    reveal_strlit("note");
    reveal_strlit("attachment");
    reveal_strlit("_journal WHERE ");
    reveal_strlit(" ORDER BY ");
    reveal_strlit("_journal WHERE job_id = $1 ORDER BY id");
    reveal_strlit("id, job_id, kind, run_no, recorded_at, outcome, note, attachment");
    let read = journal_reading();
    assert(JOURNAL_COLUMNS@ =~= listed(journal_column_names(read.returned)));
    let tail = "_journal WHERE "@ + read.column.name() + " = "@ + placeholder(read.with)
        + " ORDER BY "@ + read.order.name();
    assert(tail =~= "_journal WHERE job_id = $1 ORDER BY id"@);
    assert(read.text(prefix) =~= "SELECT "@ + JOURNAL_COLUMNS@ + " FROM "@ + prefix + tail);
}

proof fn lemma_journal_of(journal: Seq<JournalView>, id: ulid::Ulid)
    requires
        forall|i: int, j: int|
            0 <= i < j < journal.len() ==> (#[trigger] journal[i]).id < (#[trigger] journal[j]).id,
    ensures
        forall|i: int|
            0 <= i < journal_of(journal, id).len() ==> journal.contains(
                #[trigger] journal_of(journal, id)[i],
            ) && journal_of(journal, id)[i].job_id == id,
        forall|i: int, j: int|
            0 <= i < j < journal_of(journal, id).len() ==> (#[trigger] journal_of(journal, id)[i]).id
                < (#[trigger] journal_of(journal, id)[j]).id,
        forall|k: int|
            0 <= k < journal.len() && (#[trigger] journal[k]).job_id == id ==> journal_of(
                journal,
                id,
            ).contains(journal[k]),
    decreases journal.len(),
{
    if journal.len() > 0 {
        let shorter = journal.drop_last();
        let last = journal.last();
        lemma_journal_of(shorter, id);
        let rest = journal_of(shorter, id);
        let all = journal_of(journal, id);
        assert forall|x: JournalView| shorter.contains(x) implies #[trigger] journal.contains(x)
            && x.id < last.id by {
            let k = choose|k: int| 0 <= k < shorter.len() && shorter[k] == x;
            assert(journal[k] == x);
        }
        assert(journal[journal.len() - 1] == last);
        assert(journal.contains(last));
        if last.job_id == id {
            assert(all == rest.push(last));
            assert forall|i: int| 0 <= i < all.len() implies journal.contains(#[trigger] all[i])
                && all[i].job_id == id by {
                if i < rest.len() {
                    assert(all[i] == rest[i]);
                }
            }
            assert forall|i: int, j: int| 0 <= i < j < all.len() implies (#[trigger] all[i]).id < (
            #[trigger] all[j]).id by {
                assert(all[i] == rest[i]);
                if j < rest.len() {
                    assert(all[j] == rest[j]);
                } else {
                    assert(shorter.contains(rest[i]));
                    assert(journal.contains(rest[i]));
                }
            }
            assert(all[rest.len() as int] == last);
        } else {
            assert(all == rest);
            assert forall|i: int| 0 <= i < all.len() implies journal.contains(#[trigger] all[i])
                && all[i].job_id == id by {
                assert(all[i] == rest[i]);
                assert(shorter.contains(rest[i]));
            }
        }
        assert forall|k: int| 0 <= k < journal.len() && (#[trigger] journal[k]).job_id
            == id implies all.contains(journal[k]) by {
            if k < shorter.len() {
                assert(shorter[k] == journal[k]);
                assert(rest.contains(shorter[k]));
                let m = choose|m: int| 0 <= m < rest.len() && rest[m] == shorter[k];
                assert(all[m] == rest[m]);
            }
        }
    }
}

/// Two ascending lists of the same entries are the same.
proof fn lemma_ascending_lists_agree(a: Seq<JournalView>, b: Seq<JournalView>)
    requires
        forall|i: int, j: int| 0 <= i < j < a.len() ==> (#[trigger] a[i]).id < (#[trigger] a[j]).id,
        forall|i: int, j: int| 0 <= i < j < b.len() ==> (#[trigger] b[i]).id < (#[trigger] b[j]).id,
        forall|x: JournalView| #[trigger] a.contains(x) <==> b.contains(x),
    ensures
        a == b,
    decreases a.len(),
{
    if a.len() == 0 {
        if b.len() > 0 {
            assert(b.contains(b[0]));
            assert(a.contains(b[0]));
        }
        assert(a =~= b);
    } else {
        assert(a.contains(a.last()));
        assert(b.contains(a.last()));
        let p = choose|p: int| 0 <= p < b.len() && b[p] == a.last();
        assert(b.contains(b.last()));
        assert(a.contains(b.last()));
        let q = choose|q: int| 0 <= q < a.len() && a[q] == b.last();
        assert(a.last() == b.last()) by {
            if p < b.len() - 1 {
                assert(b[p].id < b[b.len() - 1].id);
                if q < a.len() - 1 {
                    assert(a[q].id < a[a.len() - 1].id);
                }
            }
        }
        let x = a.drop_last();
        let y = b.drop_last();
        assert forall|e: JournalView| #[trigger] x.contains(e) <==> y.contains(e) by {
            if x.contains(e) {
                let i = choose|i: int| 0 <= i < x.len() && x[i] == e;
                assert(a[i] == e && a[i].id < a[a.len() - 1].id);
                assert(a.contains(e));
                let j = choose|j: int| 0 <= j < b.len() && b[j] == e;
                assert(y[j] == e);
            }
            if y.contains(e) {
                let i = choose|i: int| 0 <= i < y.len() && y[i] == e;
                assert(b[i] == e && b[i].id < b[b.len() - 1].id);
                assert(b.contains(e));
                assert(a.contains(e));
                let j = choose|j: int| 0 <= j < a.len() && a[j] == e;
                assert(a[a.len() - 1] == b[b.len() - 1]);
                assert(x[j] == e);
            }
        }
        lemma_ascending_lists_agree(x, y);
        assert(a =~= x.push(a.last()));
        assert(b =~= y.push(b.last()));
    }
}

/// The query for a job's journal returns that job's entries, and no other's, in the order
/// they were written, each with all of its columns at their places.
pub proof fn journal_query_returns_the_journal(
    prefix: &TablePrefix,
    id: ulid::Ulid,
    statement: Statement,
    state: QueueState,
)
    requires
        call_ensures(journal, (prefix, id), statement),
        state.valid(),
    ensures
        exists|select: SelectEntries|
            {
                &&& #[trigger] select.text(prefix@) == statement@.sql
                &&& select.returned == seq![
                    JournalColumn::Id,
                    JournalColumn::JobId,
                    JournalColumn::Kind,
                    JournalColumn::RunNo,
                    JournalColumn::RecordedAt,
                    JournalColumn::Outcome,
                    JournalColumn::Note,
                    JournalColumn::Attachment,
                ]
                &&& forall|rows: Seq<JournalView>| #[trigger]
                    select.answers(statement@.params, state.journal, rows) <==> rows == journal_of(
                        state.journal,
                        id,
                    )
            },
{
    let read = journal_reading();
    let params = statement@.params;
    let mine = journal_of(state.journal, id);
    lemma_journal_text(prefix@);
    lemma_journal_of(state.journal, id);
    assert forall|row: JournalView| #[trigger] read.wants(params, row) <==> row.job_id == id by {
        id_text_reads_back(row.job_id.0);
        id_text_reads_back(id.0);
        assert(bound(params, 1) == Datum::Text(ulid_text(id.0)));
    }
    assert forall|rows: Seq<JournalView>| #[trigger]
        read.answers(params, state.journal, rows) <==> rows == mine by {
        if read.answers(params, state.journal, rows) {
            assert forall|x: JournalView| #[trigger] rows.contains(x) <==> mine.contains(x) by {
                if rows.contains(x) {
                    let i = choose|i: int| 0 <= i < rows.len() && rows[i] == x;
                    assert(state.journal.contains(rows[i]));
                    let k = choose|k: int|
                        0 <= k < state.journal.len() && state.journal[k] == rows[i];
                    assert(mine.contains(state.journal[k]));
                }
                if mine.contains(x) {
                    let i = choose|i: int| 0 <= i < mine.len() && mine[i] == x;
                    assert(state.journal.contains(mine[i]));
                    let k = choose|k: int|
                        0 <= k < state.journal.len() && state.journal[k] == mine[i];
                    assert(read.wants(params, state.journal[k]));
                }
            }
            assert forall|i: int, j: int| 0 <= i < j < rows.len() implies (#[trigger] rows[i]).id
                < (#[trigger] rows[j]).id by {
                assert(comes_before(
                    entry_cell(rows[i], read.order),
                    entry_cell(rows[j], read.order),
                ));
            }
            lemma_ascending_lists_agree(rows, mine);
        }
        if rows == mine {
            assert forall|k: int|
                0 <= k < state.journal.len() && read.wants(
                    params,
                    #[trigger] state.journal[k],
                ) implies rows.contains(state.journal[k]) by {
                assert(state.journal[k].job_id == id);
            }
        }
    }
}

/// The rows of a state's jobs per kind: one for each kind that has any in the state, with
/// as many as it has and, where `aged`, with the creation time of the oldest.
pub open spec fn counted_by_kind(
    state: QueueState,
    status: Status,
    aged: bool,
    rows: Seq<KindRow>,
) -> bool {
    &&& forall|i: int, j: int|
        0 <= i < j < rows.len() ==> (#[trigger] rows[i]).kind != (#[trigger] rows[j]).kind
    &&& forall|id: ulid::Ulid| #[trigger]
        state.jobs.contains_key(id) && state.jobs[id].status == status ==> exists|i: int|
            0 <= i < rows.len() && (#[trigger] rows[i]).kind == state.jobs[id].kind
    &&& forall|i: int|
        0 <= i < rows.len() ==> (#[trigger] rows[i]).sums_up(
            state.jobs,
            jobs_in(state, rows[i].kind, status),
            aged,
        )
}

/// Whether the statement is a query that exactly these rows answer.
pub open spec fn counted_as(
    statement: StatementView,
    prefix: Seq<char>,
    now: Timestamp,
    state: QueueState,
    status: Status,
    aged: bool,
) -> bool {
    exists|select: SelectByKind|
        {
            &&& #[trigger] select.text(prefix) == statement.sql
            &&& select.oldest == aged
            &&& forall|rows: Seq<KindRow>| #[trigger]
                select.answers(statement.params, now, state.jobs, rows) <==> counted_by_kind(
                    state,
                    status,
                    aged,
                    rows,
                )
        }
}

spec fn state_condition(status: Status) -> Seq<Condition> {
    seq![Condition::Compares(Column::Status, Test::Equal, Expr::State(status))]
}

proof fn lemma_state_condition(
    status: Status,
    params: Seq<ParamView>,
    now: Timestamp,
    row: JobView,
)
    ensures
        meets(state_condition(status), params, now, row) <==> row.status == status,
{
    lemma_same_status(row, status);
    assert(state_condition(status)[0].holds(params, now, row) <==> row.status == status);
}

proof fn lemma_counted(
    statement: StatementView,
    prefix: Seq<char>,
    now: Timestamp,
    state: QueueState,
    status: Status,
    aged: bool,
)
    requires
        (SelectByKind { conditions: state_condition(status), oldest: aged }).text(prefix)
            == statement.sql,
    ensures
        counted_as(statement, prefix, now, state, status, aged),
{
    let read = SelectByKind { conditions: state_condition(status), oldest: aged };
    let params = statement.params;
    assert forall|row: JobView| #[trigger]
        meets(read.conditions, params, now, row) <==> row.status == status by {
        lemma_state_condition(status, params, now, row);
    }
    assert forall|kind: Seq<char>| #[trigger]
        read.group(params, now, state.jobs, kind) == jobs_in(state, kind, status) by {
        assert(read.group(params, now, state.jobs, kind) =~= jobs_in(state, kind, status));
    }
    assert forall|rows: Seq<KindRow>| #[trigger]
        read.answers(params, now, state.jobs, rows) <==> counted_by_kind(
            state,
            status,
            aged,
            rows,
        ) by {
        assert forall|i: int| 0 <= i < rows.len() implies (#[trigger] rows[i]).sums_up(
            state.jobs,
            jobs_in(state, rows[i].kind, status),
            aged,
        ) == rows[i].sums_up(
            state.jobs,
            read.group(params, now, state.jobs, rows[i].kind),
            aged,
        ) by {}
    }
}

/// The backlog query counts the pending jobs of each kind, with the creation time of the
/// oldest.
pub proof fn backlog_query_counts_pending_jobs(
    prefix: &TablePrefix,
    statement: Statement,
    state: QueueState,
    now: Timestamp,
)
    requires
        call_ensures(pending_stats, (prefix,), statement),
    ensures
        counted_as(statement@, prefix@, now, state, Status::Pending, true),
{
    reveal_with_fuel(conjunction, 2);
    reveal_strlit("'");
    reveal_strlit(" = ");
    reveal_strlit("status");
    reveal_strlit("pending");
    reveal_strlit("SELECT kind, count(*)");
    reveal_strlit(", min(created_at)");
    reveal_strlit(" FROM ");
    reveal_strlit("_jobs WHERE ");
    reveal_strlit(" GROUP BY kind");
    reveal_strlit("SELECT kind, count(*), min(created_at) FROM ");
    reveal_strlit("_jobs WHERE status = 'pending' GROUP BY kind");
    let read = SelectByKind { conditions: state_condition(Status::Pending), oldest: true };
    let head = "SELECT kind, count(*)"@ + ", min(created_at)"@ + " FROM "@;
    let tail = "_jobs WHERE "@ + conjunction(condition_texts(read.conditions)) + " GROUP BY kind"@;
    assert(head =~= "SELECT kind, count(*), min(created_at) FROM "@);
    assert(tail =~= "_jobs WHERE status = 'pending' GROUP BY kind"@);
    assert(read.text(prefix@) =~= head + prefix@ + tail);
    lemma_counted(statement@, prefix@, now, state, Status::Pending, true);
}

/// The query for the dead counts the dead jobs of each kind.
pub proof fn dead_query_counts_dead_jobs(
    prefix: &TablePrefix,
    statement: Statement,
    state: QueueState,
    now: Timestamp,
)
    requires
        call_ensures(dead_stats, (prefix,), statement),
    ensures
        counted_as(statement@, prefix@, now, state, Status::Dead, false),
{
    reveal_with_fuel(conjunction, 2);
    reveal_strlit("'");
    reveal_strlit(" = ");
    reveal_strlit("");
    reveal_strlit("status");
    reveal_strlit("dead");
    reveal_strlit("SELECT kind, count(*)");
    reveal_strlit(" FROM ");
    reveal_strlit("_jobs WHERE ");
    reveal_strlit(" GROUP BY kind");
    reveal_strlit("SELECT kind, count(*) FROM ");
    reveal_strlit("_jobs WHERE status = 'dead' GROUP BY kind");
    let read = SelectByKind { conditions: state_condition(Status::Dead), oldest: false };
    let head = "SELECT kind, count(*)"@ + ""@ + " FROM "@;
    let tail = "_jobs WHERE "@ + conjunction(condition_texts(read.conditions)) + " GROUP BY kind"@;
    assert(head =~= "SELECT kind, count(*) FROM "@);
    assert(tail =~= "_jobs WHERE status = 'dead' GROUP BY kind"@);
    assert(read.text(prefix@) =~= head + prefix@ + tail);
    lemma_counted(statement@, prefix@, now, state, Status::Dead, false);
}

/// The query for the jobs in flight counts the claimed jobs.
pub proof fn in_flight_query_counts_claimed_jobs(
    prefix: &TablePrefix,
    statement: Statement,
    state: QueueState,
    now: Timestamp,
)
    requires
        call_ensures(claimed_stats, (prefix,), statement),
    ensures
        exists|select: SelectCount|
            {
                &&& #[trigger] select.text(prefix@) == statement@.sql
                &&& forall|count: int| #[trigger]
                    select.answers(statement@.params, now, state.jobs, count) <==> jobs_with(
                        state,
                        Status::Claimed,
                    ).finite() && count == jobs_with(state, Status::Claimed).len()
            },
{
    reveal_with_fuel(conjunction, 2);
    reveal_strlit("'");
    reveal_strlit(" = ");
    reveal_strlit("status");
    reveal_strlit("claimed");
    reveal_strlit("_jobs WHERE ");
    reveal_strlit("_jobs WHERE status = 'claimed'");
    let read = SelectCount { conditions: state_condition(Status::Claimed) };
    let params = statement@.params;
    let tail = "_jobs WHERE "@ + conjunction(condition_texts(read.conditions));
    assert(tail =~= "_jobs WHERE status = 'claimed'"@);
    assert(read.text(prefix@) =~= "SELECT count(*) FROM "@ + prefix@ + tail);
    assert forall|row: JobView| #[trigger]
        meets(read.conditions, params, now, row) <==> row.status == Status::Claimed by {
        lemma_state_condition(Status::Claimed, params, now, row);
    }
    let rows = Set::new(
        |id: ulid::Ulid|
            state.jobs.contains_key(id) && meets(read.conditions, params, now, state.jobs[id]),
    );
    assert(rows =~= jobs_with(state, Status::Claimed));
}

/// The backlog as rows per kind.
pub open spec fn pending_kind_rows(rows: Seq<PendingRow>) -> Seq<KindRow> {
    Seq::new(
        rows.len(),
        |i: int|
            KindRow {
                kind: rows[i].kind@,
                count: rows[i].count as int,
                oldest: Some(rows[i].oldest),
            },
    )
}

/// The dead as rows per kind.
pub open spec fn dead_kind_rows(rows: Seq<DeadRow>) -> Seq<KindRow> {
    Seq::new(
        rows.len(),
        |i: int| KindRow { kind: rows[i].kind@, count: rows[i].count as int, oldest: None },
    )
}

proof fn lemma_pending_maps(rows: Seq<PendingRow>, now: Timestamp)
    requires
        forall|i: int, j: int|
            0 <= i < j < rows.len() ==> (#[trigger] rows[i]).kind@ != (#[trigger] rows[j]).kind@,
    ensures
        pending_ages(rows, now).dom() == pending_counts(rows).dom(),
        forall|kind: Seq<char>| #[trigger]
            pending_counts(rows).contains_key(kind) ==> exists|i: int|
                0 <= i < rows.len() && (#[trigger] rows[i]).kind@ == kind,
        forall|i: int|
            0 <= i < rows.len() ==> pending_counts(rows).contains_key((#[trigger] rows[i]).kind@)
                && pending_counts(rows)[rows[i].kind@] == stored_count(rows[i].count)
                && pending_ages(rows, now)[rows[i].kind@] == elapsed(
                rows[i].oldest.nanos(),
                now.nanos(),
            ),
    decreases rows.len(),
{
    if rows.len() > 0 {
        let shorter = rows.drop_last();
        lemma_pending_maps(shorter, now);
        assert(rows[rows.len() - 1] == rows.last());
        assert forall|kind: Seq<char>| #[trigger]
            pending_counts(rows).contains_key(kind) implies exists|i: int|
            0 <= i < rows.len() && (#[trigger] rows[i]).kind@ == kind by {
            if kind != rows.last().kind@ {
                assert(pending_counts(shorter).contains_key(kind));
                let i = choose|i: int|
                    0 <= i < shorter.len() && (#[trigger] shorter[i]).kind@ == kind;
                assert(rows[i].kind@ == kind);
            }
        }
        assert forall|i: int| 0 <= i < rows.len() implies pending_counts(rows).contains_key(
            (#[trigger] rows[i]).kind@,
        ) && pending_counts(rows)[rows[i].kind@] == stored_count(rows[i].count) && pending_ages(
            rows,
            now,
        )[rows[i].kind@] == elapsed(rows[i].oldest.nanos(), now.nanos()) by {
            if i < shorter.len() {
                assert(shorter[i] == rows[i]);
                assert(rows[i].kind@ != rows[rows.len() - 1].kind@);
            }
        }
    }
    assert(pending_ages(rows, now).dom() =~= pending_counts(rows).dom());
}

proof fn lemma_dead_map(rows: Seq<DeadRow>)
    requires
        forall|i: int, j: int|
            0 <= i < j < rows.len() ==> (#[trigger] rows[i]).kind@ != (#[trigger] rows[j]).kind@,
    ensures
        forall|kind: Seq<char>| #[trigger]
            dead_counts(rows).contains_key(kind) ==> exists|i: int|
                0 <= i < rows.len() && (#[trigger] rows[i]).kind@ == kind,
        forall|i: int|
            0 <= i < rows.len() ==> dead_counts(rows).contains_key((#[trigger] rows[i]).kind@)
                && dead_counts(rows)[rows[i].kind@] == stored_count(rows[i].count),
    decreases rows.len(),
{
    if rows.len() > 0 {
        let shorter = rows.drop_last();
        lemma_dead_map(shorter);
        assert(rows[rows.len() - 1] == rows.last());
        assert forall|kind: Seq<char>| #[trigger]
            dead_counts(rows).contains_key(kind) implies exists|i: int|
            0 <= i < rows.len() && (#[trigger] rows[i]).kind@ == kind by {
            if kind != rows.last().kind@ {
                assert(dead_counts(shorter).contains_key(kind));
                let i = choose|i: int|
                    0 <= i < shorter.len() && (#[trigger] shorter[i]).kind@ == kind;
                assert(rows[i].kind@ == kind);
            }
        }
        assert forall|i: int| 0 <= i < rows.len() implies dead_counts(rows).contains_key(
            (#[trigger] rows[i]).kind@,
        ) && dead_counts(rows)[rows[i].kind@] == stored_count(rows[i].count) by {
            if i < shorter.len() {
                assert(shorter[i] == rows[i]);
                assert(rows[i].kind@ != rows[rows.len() - 1].kind@);
            }
        }
    }
}

/// The counts of rows per kind are the counts of the state's jobs.
proof fn lemma_counts_jobs(
    state: QueueState,
    status: Status,
    aged: bool,
    rows: Seq<KindRow>,
    counts: Map<Seq<char>, u64>,
    kind: Seq<char>,
)
    requires
        counted_by_kind(state, status, aged, rows),
        forall|kind: Seq<char>| #[trigger]
            counts.contains_key(kind) ==> exists|i: int|
                0 <= i < rows.len() && (#[trigger] rows[i]).kind == kind,
        forall|i: int|
            0 <= i < rows.len() ==> counts.contains_key((#[trigger] rows[i]).kind)
                && counts[rows[i].kind] == rows[i].count,
    ensures
        counts_jobs(state, counts, kind, status),
{
    let group = jobs_in(state, kind, status);
    if counts.contains_key(kind) {
        let i = choose|i: int| 0 <= i < rows.len() && (#[trigger] rows[i]).kind == kind;
        assert(jobs_in(state, rows[i].kind, status) == group);
    } else {
        assert forall|id: ulid::Ulid| !#[trigger] group.contains(id) by {
            if group.contains(id) {
                assert(state.jobs.contains_key(id) && state.jobs[id].status == status);
                let i = choose|i: int|
                    0 <= i < rows.len() && (#[trigger] rows[i]).kind == state.jobs[id].kind;
                assert(counts.contains_key(rows[i].kind));
            }
        }
        assert(group =~= Set::empty());
    }
}

/// The three counts put together sum up the queue's state: the backlog and the dead per
/// kind, the age of the oldest pending job per kind, and the number in flight.
pub proof fn counts_sum_up_the_state(
    state: QueueState,
    now: Timestamp,
    pending: Vec<PendingRow>,
    claimed: i64,
    dead: Vec<DeadRow>,
    snapshot: Snapshot,
)
    requires
        counted_by_kind(state, Status::Pending, true, pending_kind_rows(pending@)),
        jobs_with(state, Status::Claimed).finite(),
        claimed == jobs_with(state, Status::Claimed).len(),
        counted_by_kind(state, Status::Dead, false, dead_kind_rows(dead@)),
        call_ensures(snapshot_from_rows, (pending, claimed, dead, now), snapshot),
    ensures
        snapshot_of(state, now, snapshot),
{
    let backlog = pending_kind_rows(pending@);
    let given_up = dead_kind_rows(dead@);
    assert forall|i: int, j: int| 0 <= i < j < pending@.len() implies (#[trigger] pending@[i]).kind@
        != (#[trigger] pending@[j]).kind@ by {
        assert(backlog[i].kind != backlog[j].kind);
    }
    assert forall|i: int, j: int| 0 <= i < j < dead@.len() implies (#[trigger] dead@[i]).kind@ != (
    #[trigger] dead@[j]).kind@ by {
        assert(given_up[i].kind != given_up[j].kind);
    }
    lemma_pending_maps(pending@, now);
    lemma_dead_map(dead@);
    let counts = snapshot.pending_by_kind@;
    let ages = snapshot.oldest_pending_age@;
    let nanos = ages.map_values(|age: Duration| age.nanos());
    assert forall|kind: Seq<char>| #[trigger] counts.contains_key(kind) implies exists|i: int|
        0 <= i < backlog.len() && (#[trigger] backlog[i]).kind == kind by {
        let i = choose|i: int| 0 <= i < pending@.len() && (#[trigger] pending@[i]).kind@ == kind;
        assert(backlog[i].kind == kind);
    }
    assert forall|i: int| 0 <= i < backlog.len() implies counts.contains_key(
        (#[trigger] backlog[i]).kind,
    ) && counts[backlog[i].kind] == backlog[i].count by {
        assert(pending@[i].kind@ == backlog[i].kind);
    }
    assert forall|kind: Seq<char>| #[trigger]
        snapshot.dead_by_kind@.contains_key(kind) implies exists|i: int|
        0 <= i < given_up.len() && (#[trigger] given_up[i]).kind == kind by {
        let i = choose|i: int| 0 <= i < dead@.len() && (#[trigger] dead@[i]).kind@ == kind;
        assert(given_up[i].kind == kind);
    }
    assert forall|i: int| 0 <= i < given_up.len() implies snapshot.dead_by_kind@.contains_key(
        (#[trigger] given_up[i]).kind,
    ) && snapshot.dead_by_kind@[given_up[i].kind] == given_up[i].count by {
        assert(dead@[i].kind@ == given_up[i].kind);
    }
    assert forall|kind: Seq<char>| #[trigger]
        counts_jobs(state, counts, kind, Status::Pending) by {
        lemma_counts_jobs(state, Status::Pending, true, backlog, counts, kind);
    }
    assert forall|kind: Seq<char>| #[trigger]
        counts_jobs(state, snapshot.dead_by_kind@, kind, Status::Dead) by {
        lemma_counts_jobs(
            state,
            Status::Dead,
            false,
            given_up,
            snapshot.dead_by_kind@,
            kind,
        );
    }
    assert(nanos.dom() =~= ages.dom());
    assert forall|kind: Seq<char>| #[trigger] ages.contains_key(kind) implies oldest_age(
        state,
        kind,
        now,
        ages[kind],
    ) by {
        assert(nanos.contains_key(kind));
        assert(counts.contains_key(kind));
        let i = choose|i: int| 0 <= i < backlog.len() && (#[trigger] backlog[i]).kind == kind;
        assert(pending@[i].kind@ == kind);
        assert(nanos[kind] == ages[kind].nanos());
        let group = jobs_in(state, kind, Status::Pending);
        let oldest = backlog[i].oldest->Some_0;
        let id = choose|id: ulid::Ulid| #[trigger]
            group.contains(id) && state.jobs[id].created_at == oldest;
        assert(group.contains(id) && ages[kind].nanos() == elapsed(
            state.jobs[id].created_at.nanos(),
            now.nanos(),
        ));
    }
}

/// What a returned row holds in a column.
pub open spec fn returned(row: JobRow, column: Column) -> Datum {
    match column {
        Column::Id => Datum::Text(row.id@),
        Column::Kind => Datum::Text(row.kind@),
        Column::Payload => Datum::Json(row.payload),
        Column::Priority => Datum::Int(row.priority as int),
        Column::Status => Datum::Text(row.status@),
        Column::CreatedAt => Datum::Instant(row.created_at),
        Column::VisibleAt => Datum::Instant(row.visible_at),
        Column::ClaimExpiresAt => instant_or_null(row.claim_expires_at),
        Column::ClaimedBy => text_or_null(optional_text(row.claimed_by)),
        Column::FinishedAt => instant_or_null(row.finished_at),
        Column::RunCount => Datum::Int(row.run_count as int),
        Column::FailureCount => Datum::Int(row.failure_count as int),
        Column::Carry => Datum::Json(row.carry),
        Column::DedupKey => text_or_null(optional_text(row.dedup_key)),
    }
}

/// A row returned of a stored job, each column as it is stored, reads back as the job.
pub proof fn returned_rows_read_back(row: JobRow, job: JobView, r: Result<JobRecord, Error>)
    requires
        call_ensures(job_from_row, (row,), r),
        forall|column: Column| #[trigger] returned(row, column) == cell(job, column),
    ensures
        r matches Ok(record) && record@ == job,
{
    assert(returned(row, Column::Id) == cell(job, Column::Id));
    assert(returned(row, Column::Kind) == cell(job, Column::Kind));
    assert(returned(row, Column::Payload) == cell(job, Column::Payload));
    assert(returned(row, Column::Priority) == cell(job, Column::Priority));
    assert(returned(row, Column::Status) == cell(job, Column::Status));
    assert(returned(row, Column::CreatedAt) == cell(job, Column::CreatedAt));
    assert(returned(row, Column::VisibleAt) == cell(job, Column::VisibleAt));
    assert(returned(row, Column::ClaimExpiresAt) == cell(job, Column::ClaimExpiresAt));
    assert(returned(row, Column::ClaimedBy) == cell(job, Column::ClaimedBy));
    assert(returned(row, Column::FinishedAt) == cell(job, Column::FinishedAt));
    assert(returned(row, Column::RunCount) == cell(job, Column::RunCount));
    assert(returned(row, Column::FailureCount) == cell(job, Column::FailureCount));
    assert(returned(row, Column::Carry) == cell(job, Column::Carry));
    assert(returned(row, Column::DedupKey) == cell(job, Column::DedupKey));
    stored_job_reads_back(row, job);
}

/// What a returned journal row holds in a column.
pub open spec fn returned_entry(row: JournalRow, column: JournalColumn) -> Datum {
    match column {
        JournalColumn::Id => Datum::Int(row.id as int),
        JournalColumn::JobId => Datum::Text(row.job_id@),
        JournalColumn::Kind => Datum::Text(row.kind@),
        JournalColumn::RunNo => Datum::Int(row.run_no as int),
        JournalColumn::RecordedAt => Datum::Instant(row.recorded_at),
        JournalColumn::Outcome => Datum::Text(row.outcome@),
        JournalColumn::Note => text_or_null(optional_text(row.note)),
        JournalColumn::Attachment => json_or_null(row.attachment),
    }
}

/// A row returned of a journal entry, each column as it is stored, reads back as the
/// entry.
pub proof fn returned_entries_read_back(
    row: JournalRow,
    entry: JournalView,
    r: Result<JournalRecord, Error>,
)
    requires
        call_ensures(journal_from_row, (row,), r),
        forall|column: JournalColumn| #[trigger]
            returned_entry(row, column) == entry_cell(entry, column),
    ensures
        r matches Ok(record) && record@ == entry,
{
    assert(returned_entry(row, JournalColumn::Id) == entry_cell(entry, JournalColumn::Id));
    assert(returned_entry(row, JournalColumn::JobId) == entry_cell(entry, JournalColumn::JobId));
    assert(returned_entry(row, JournalColumn::Kind) == entry_cell(entry, JournalColumn::Kind));
    assert(returned_entry(row, JournalColumn::RunNo) == entry_cell(entry, JournalColumn::RunNo));
    assert(returned_entry(row, JournalColumn::RecordedAt) == entry_cell(
        entry,
        JournalColumn::RecordedAt,
    ));
    assert(returned_entry(row, JournalColumn::Outcome) == entry_cell(
        entry,
        JournalColumn::Outcome,
    ));
    assert(returned_entry(row, JournalColumn::Note) == entry_cell(entry, JournalColumn::Note));
    assert(returned_entry(row, JournalColumn::Attachment) == entry_cell(
        entry,
        JournalColumn::Attachment,
    ));
    stored_entry_reads_back(row, entry);
}

} // verus!
