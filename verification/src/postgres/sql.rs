//! What the adapter's statements mean: the part of SQL they are written in, and what
//! running such a statement does to the stored rows.
//!
//! A statement is read as an [`Insert`], an [`Update`], and so on: each has the text it is
//! written as, and a meaning over rows that follows SQL's own rules. Both are given for
//! the form as a whole, so that what one statement does follows from its text and from
//! the values bound to it. An instant and a span are taken exactly; PostgreSQL keeps them
//! to the microsecond.
use crate::ids::ulid_text;
use crate::instants::{instant_after_nanos, Timestamp};
use crate::lifecycle::QueueState;
use crate::postgres::statements::{
    conjunction, following, placeholder, GuardedWriteView, ParamView, StatementView,
};
use crate::store::{JobView, JournalView, Status};
use crate::text::{decimal, text_precedes};
use vstd::prelude::*;

verus! {

/// A column of the jobs table.
pub enum Column {
    /// `id`
    Id,
    /// `kind`
    Kind,
    /// `payload`
    Payload,
    /// `priority`
    Priority,
    /// `status`
    Status,
    /// `created_at`
    CreatedAt,
    /// `visible_at`
    VisibleAt,
    /// `claim_expires_at`
    ClaimExpiresAt,
    /// `claimed_by`
    ClaimedBy,
    /// `finished_at`
    FinishedAt,
    /// `run_count`
    RunCount,
    /// `failure_count`
    FailureCount,
    /// `carry`
    Carry,
    /// `dedup_key`
    DedupKey,
}

impl Column {
    /// The column's name.
    pub open spec fn name(self) -> Seq<char> {
        match self {
            Column::Id => "id"@,
            Column::Kind => "kind"@,
            Column::Payload => "payload"@,
            Column::Priority => "priority"@,
            Column::Status => "status"@,
            Column::CreatedAt => "created_at"@,
            Column::VisibleAt => "visible_at"@,
            Column::ClaimExpiresAt => "claim_expires_at"@,
            Column::ClaimedBy => "claimed_by"@,
            Column::FinishedAt => "finished_at"@,
            Column::RunCount => "run_count"@,
            Column::FailureCount => "failure_count"@,
            Column::Carry => "carry"@,
            Column::DedupKey => "dedup_key"@,
        }
    }
}

/// A column of the journal table.
pub enum JournalColumn {
    /// `id`
    Id,
    /// `job_id`
    JobId,
    /// `kind`
    Kind,
    /// `run_no`
    RunNo,
    /// `recorded_at`
    RecordedAt,
    /// `outcome`
    Outcome,
    /// `note`
    Note,
    /// `attachment`
    Attachment,
}

impl JournalColumn {
    /// The column's name.
    pub open spec fn name(self) -> Seq<char> {
        match self {
            JournalColumn::Id => "id"@,
            JournalColumn::JobId => "job_id"@,
            JournalColumn::Kind => "kind"@,
            JournalColumn::RunNo => "run_no"@,
            JournalColumn::RecordedAt => "recorded_at"@,
            JournalColumn::Outcome => "outcome"@,
            JournalColumn::Note => "note"@,
            JournalColumn::Attachment => "attachment"@,
        }
    }
}

/// What a column of a row, or a placeholder, holds.
pub enum Datum {
    /// Nothing.
    Null,
    /// A text.
    Text(Seq<char>),
    /// An array of texts.
    Texts(Seq<Seq<char>>),
    /// A JSON value.
    Json(serde_json::Value),
    /// An integer of any width.
    Int(int),
    /// An instant.
    Instant(Timestamp),
    /// A number of seconds, in nanoseconds.
    Span(nat),
}

/// An optional text as a value.
pub open spec fn text_or_null(text: Option<Seq<char>>) -> Datum {
    match text {
        Some(text) => Datum::Text(text),
        None => Datum::Null,
    }
}

/// An optional instant as a value.
pub open spec fn instant_or_null(at: Option<Timestamp>) -> Datum {
    match at {
        Some(at) => Datum::Instant(at),
        None => Datum::Null,
    }
}

/// An optional JSON value as a value.
pub open spec fn json_or_null(json: Option<serde_json::Value>) -> Datum {
    match json {
        Some(json) => Datum::Json(json),
        None => Datum::Null,
    }
}

/// What a column of a stored job holds.
pub open spec fn cell(job: JobView, column: Column) -> Datum {
    match column {
        Column::Id => Datum::Text(ulid_text(job.id.0)),
        Column::Kind => Datum::Text(job.kind),
        Column::Payload => Datum::Json(job.payload),
        Column::Priority => Datum::Int(job.priority as int),
        Column::Status => Datum::Text(job.status.column_text()),
        Column::CreatedAt => Datum::Instant(job.created_at),
        Column::VisibleAt => Datum::Instant(job.visible_at),
        Column::ClaimExpiresAt => instant_or_null(job.claim_expires_at),
        Column::ClaimedBy => text_or_null(job.claimed_by),
        Column::FinishedAt => instant_or_null(job.finished_at),
        Column::RunCount => Datum::Int(job.run_count as int),
        Column::FailureCount => Datum::Int(job.failure_count as int),
        Column::Carry => Datum::Json(job.carry),
        Column::DedupKey => text_or_null(job.dedup_key),
    }
}

/// What a column of a stored journal entry holds.
pub open spec fn entry_cell(row: JournalView, column: JournalColumn) -> Datum {
    match column {
        JournalColumn::Id => Datum::Int(row.id as int),
        JournalColumn::JobId => Datum::Text(ulid_text(row.job_id.0)),
        JournalColumn::Kind => Datum::Text(row.entry.kind),
        JournalColumn::RunNo => Datum::Int(row.entry.run_no as int),
        JournalColumn::RecordedAt => Datum::Instant(row.entry.recorded_at),
        JournalColumn::Outcome => Datum::Text(row.entry.outcome.column_text()),
        JournalColumn::Note => text_or_null(row.entry.note),
        JournalColumn::Attachment => json_or_null(row.entry.attachment),
    }
}

/// What a bound value holds.
pub open spec fn datum(param: ParamView) -> Datum {
    match param {
        ParamView::Text(text) => Datum::Text(text),
        ParamView::OptionalText(text) => text_or_null(text),
        ParamView::Texts(list) => Datum::Texts(list),
        ParamView::Json(json) => Datum::Json(json),
        ParamView::OptionalJson(json) => json_or_null(json),
        ParamView::SmallInt(n) => Datum::Int(n as int),
        ParamView::Integer(n) => Datum::Int(n as int),
        ParamView::BigInt(n) => Datum::Int(n as int),
        ParamView::Instant(at) => Datum::Instant(at),
        ParamView::Seconds(span) => Datum::Span(span),
    }
}

/// What the `n`-th placeholder holds.
pub open spec fn bound(params: Seq<ParamView>, n: nat) -> Datum {
    if 1 <= n <= params.len() {
        datum(params[n - 1])
    } else {
        Datum::Null
    }
}

/// An expression.
pub enum Expr {
    /// A placeholder.
    Placeholder(nat),
    /// A lifecycle state, as a quoted text.
    State(Status),
    /// A number.
    Number(nat),
    /// `NULL`
    Null,
    /// The time of the transaction.
    Now,
    /// That time and as many seconds more as a placeholder says.
    NowPlus(nat),
    /// A column of the row at hand.
    Field(Column),
    /// One more than a column of the row at hand.
    Next(Column),
}

impl Expr {
    /// How the expression is written.
    pub open spec fn text(self) -> Seq<char> {
        match self {
            Expr::Placeholder(n) => placeholder(n),
            Expr::State(status) => "'"@ + status.column_text() + "'"@,
            Expr::Number(n) => decimal(n),
            Expr::Null => "NULL"@,
            Expr::Now => "now()"@,
            Expr::NowPlus(n) => "now() + interval '1 second' * "@ + placeholder(n),
            Expr::Field(column) => column.name(),
            Expr::Next(column) => column.name() + " + 1"@,
        }
    }

    /// What the expression comes to, on a row where there is one.
    pub open spec fn value(
        self,
        params: Seq<ParamView>,
        now: Timestamp,
        row: Option<JobView>,
    ) -> Datum {
        match self {
            Expr::Placeholder(n) => bound(params, n),
            Expr::State(status) => Datum::Text(status.column_text()),
            Expr::Number(n) => Datum::Int(n as int),
            Expr::Null => Datum::Null,
            Expr::Now => Datum::Instant(now),
            Expr::NowPlus(n) => match bound(params, n) {
                Datum::Span(span) => Datum::Instant(instant_after_nanos(now, span)),
                _ => Datum::Null,
            },
            Expr::Field(column) => match row {
                Some(row) => cell(row, column),
                None => Datum::Null,
            },
            Expr::Next(column) => match row {
                Some(row) => match cell(row, column) {
                    Datum::Int(n) => Datum::Int(n + 1),
                    _ => Datum::Null,
                },
                None => Datum::Null,
            },
        }
    }
}

/// A comparison.
pub enum Test {
    /// `=`
    Equal,
    /// `<`
    Below,
    /// `<=`
    AtMost,
    /// `>`
    Above,
    /// `>=`
    AtLeast,
}

impl Test {
    /// How the comparison is written, with the blanks around it.
    pub open spec fn text(self) -> Seq<char> {
        match self {
            Test::Equal => " = "@,
            Test::Below => " < "@,
            Test::AtMost => " <= "@,
            Test::Above => " > "@,
            Test::AtLeast => " >= "@,
        }
    }
}

/// Whether one value comes before another. Values of different kinds, and nothing at
/// all, are not ordered.
pub open spec fn comes_before(a: Datum, b: Datum) -> bool {
    match (a, b) {
        (Datum::Int(a), Datum::Int(b)) => a < b,
        (Datum::Instant(a), Datum::Instant(b)) => a.nanos() < b.nanos(),
        (Datum::Text(a), Datum::Text(b)) => text_precedes(a, b),
        _ => false,
    }
}

/// Whether two values are the same, neither of them null.
pub open spec fn equals(a: Datum, b: Datum) -> bool {
    match (a, b) {
        (Datum::Int(a), Datum::Int(b)) => a == b,
        (Datum::Instant(a), Datum::Instant(b)) => a.nanos() == b.nanos(),
        (Datum::Text(a), Datum::Text(b)) => a == b,
        _ => false,
    }
}

/// Whether a comparison holds. It holds of no null.
pub open spec fn compares(a: Datum, test: Test, b: Datum) -> bool {
    match test {
        Test::Equal => equals(a, b),
        Test::Below => comes_before(a, b),
        Test::AtMost => comes_before(a, b) || equals(a, b),
        Test::Above => comes_before(b, a),
        Test::AtLeast => comes_before(b, a) || equals(a, b),
    }
}

/// Whether a value is one of the texts.
pub open spec fn among(value: Datum, list: Seq<Seq<char>>) -> bool {
    match value {
        Datum::Text(text) => list.contains(text),
        _ => false,
    }
}

/// A condition on a row.
pub enum Condition {
    /// A column compares with an expression.
    Compares(Column, Test, Expr),
    /// A column is among the texts bound to a placeholder.
    Among(Column, nat),
    /// The row's creation time and identity are below the two that are bound.
    Older(nat, nat),
    /// A column is not null.
    Present(Column),
}

impl Condition {
    /// How the condition is written.
    pub open spec fn text(self) -> Seq<char> {
        match self {
            Condition::Compares(column, test, expr) => column.name() + test.text() + expr.text(),
            Condition::Among(column, n) => column.name() + " = ANY("@ + placeholder(n) + ")"@,
            Condition::Older(n, m) => "(created_at, id) < ("@ + placeholder(n) + ", "@
                + placeholder(m) + ")"@,
            Condition::Present(column) => column.name() + " IS NOT NULL"@,
        }
    }

    /// Whether the condition holds of a row.
    pub open spec fn holds(self, params: Seq<ParamView>, now: Timestamp, row: JobView) -> bool {
        match self {
            Condition::Compares(column, test, expr) => compares(
                cell(row, column),
                test,
                expr.value(params, now, Some(row)),
            ),
            Condition::Among(column, n) => match bound(params, n) {
                Datum::Texts(list) => among(cell(row, column), list),
                _ => false,
            },
            Condition::Older(n, m) => {
                let created = cell(row, Column::CreatedAt);
                ||| comes_before(created, bound(params, n))
                ||| (equals(created, bound(params, n)) && comes_before(
                    cell(row, Column::Id),
                    bound(params, m),
                ))
            },
            Condition::Present(column) => !(cell(row, column) is Null),
        }
    }
}

/// Whether a row meets every condition.
pub open spec fn meets(
    conditions: Seq<Condition>,
    params: Seq<ParamView>,
    now: Timestamp,
    row: JobView,
) -> bool {
    forall|i: int| 0 <= i < conditions.len() ==> (#[trigger] conditions[i]).holds(params, now, row)
}

/// Texts separated by commas.
pub open spec fn listed(texts: Seq<Seq<char>>) -> Seq<char>
    decreases texts.len(),
{
    if texts.len() == 0 {
        Seq::empty()
    } else if texts.len() == 1 {
        texts[0]
    } else {
        listed(texts.drop_last()) + ", "@ + texts.last()
    }
}

/// How expressions are written.
pub open spec fn expr_texts(exprs: Seq<Expr>) -> Seq<Seq<char>> {
    exprs.map_values(|expr: Expr| expr.text())
}

/// The names of columns.
pub open spec fn column_names(columns: Seq<Column>) -> Seq<Seq<char>> {
    columns.map_values(|column: Column| column.name())
}

/// The names of the journal's columns.
pub open spec fn journal_column_names(columns: Seq<JournalColumn>) -> Seq<Seq<char>> {
    columns.map_values(|column: JournalColumn| column.name())
}

/// How conditions are written.
pub open spec fn condition_texts(conditions: Seq<Condition>) -> Seq<Seq<char>> {
    conditions.map_values(|condition: Condition| condition.text())
}

/// How assignments are written.
pub open spec fn assignment_texts(set: Seq<(Column, Expr)>) -> Seq<Seq<char>> {
    set.map_values(|assignment: (Column, Expr)| assignment.0.name() + " = "@ + assignment.1.text())
}

/// Whether a list of assignments names a column.
pub open spec fn assigns(set: Seq<(Column, Expr)>, column: Column) -> bool {
    exists|i: int| 0 <= i < set.len() && (#[trigger] set[i]).0 == column
}

/// Whether `after` is the row `before` with the assignments made: each named column holds
/// what its expression comes to on the row before, and every other column what it held.
pub open spec fn reassigned(
    set: Seq<(Column, Expr)>,
    params: Seq<ParamView>,
    now: Timestamp,
    before: JobView,
    after: JobView,
) -> bool {
    &&& forall|i: int|
        0 <= i < set.len() ==> cell(after, (#[trigger] set[i]).0) == set[i].1.value(
            params,
            now,
            Some(before),
        )
    &&& forall|column: Column|
        !assigns(set, column) ==> #[trigger] cell(after, column) == cell(before, column)
}

/// An insert of one job.
pub struct Insert {
    /// The columns that are given a value.
    pub columns: Seq<Column>,
    /// The values, in the order of the columns.
    pub values: Seq<Expr>,
}

impl Insert {
    /// How the insert is written.
    pub open spec fn text(self, prefix: Seq<char>) -> Seq<char> {
        "INSERT INTO "@ + prefix + "_jobs ("@ + listed(column_names(self.columns)) + ") VALUES ("@
            + listed(expr_texts(self.values)) + ")"@
    }

    /// Whether `row` is the row inserted: each column holds its value, and a column that
    /// is given none is null.
    pub open spec fn adds(self, params: Seq<ParamView>, now: Timestamp, row: JobView) -> bool {
        &&& self.columns.len() == self.values.len()
        &&& forall|i: int|
            0 <= i < self.columns.len() ==> cell(row, #[trigger] self.columns[i])
                == self.values[i].value(params, now, None)
        &&& forall|column: Column|
            !self.columns.contains(column) ==> #[trigger] cell(row, column) is Null
    }
}

/// Whether running the statement inserts the row, and no other.
pub open spec fn inserts(
    statement: StatementView,
    prefix: Seq<char>,
    now: Timestamp,
    row: JobView,
) -> bool {
    exists|insert: Insert| #[trigger]
        insert.text(prefix) == statement.sql && forall|other: JobView| #[trigger]
            insert.adds(statement.params, now, other) <==> other == row
}

/// An insert of one journal entry.
pub struct EntryInsert {
    /// The columns that are given a value.
    pub columns: Seq<JournalColumn>,
    /// The values, in the order of the columns.
    pub values: Seq<Expr>,
}

impl EntryInsert {
    /// How the insert is written.
    pub open spec fn text(self, prefix: Seq<char>) -> Seq<char> {
        "INSERT INTO "@ + prefix + "_journal ("@ + listed(journal_column_names(self.columns))
            + ") VALUES ("@ + listed(expr_texts(self.values)) + ")"@
    }

    /// Whether `row` is the entry inserted: each column holds its value, the identity is
    /// the next of its sequence, and any other column is null.
    pub open spec fn adds(
        self,
        params: Seq<ParamView>,
        now: Timestamp,
        next_entry: i64,
        row: JournalView,
    ) -> bool {
        &&& self.columns.len() == self.values.len()
        &&& !self.columns.contains(JournalColumn::Id)
        &&& row.id == next_entry
        &&& forall|i: int|
            0 <= i < self.columns.len() ==> entry_cell(row, #[trigger] self.columns[i])
                == self.values[i].value(params, now, None)
        &&& forall|column: JournalColumn|
            !(column is Id) && !self.columns.contains(column) ==> #[trigger] entry_cell(
                row,
                column,
            ) is Null
    }
}

/// Whether running the statement appends the entry, and no other, where `next_entry` is
/// the next identity.
pub open spec fn appends(
    statement: StatementView,
    prefix: Seq<char>,
    now: Timestamp,
    next_entry: i64,
    row: JournalView,
) -> bool {
    exists|insert: EntryInsert| #[trigger]
        insert.text(prefix) == statement.sql && forall|other: JournalView| #[trigger]
            insert.adds(statement.params, now, next_entry, other) <==> other == row
}

/// An update of the rows that meet its conditions.
pub struct Update {
    /// The assignments.
    pub set: Seq<(Column, Expr)>,
    /// The conditions.
    pub conditions: Seq<Condition>,
}

impl Update {
    /// How the update is written.
    pub open spec fn text(self, prefix: Seq<char>) -> Seq<char> {
        "UPDATE "@ + prefix + "_jobs SET "@ + listed(assignment_texts(self.set)) + " WHERE "@
            + conjunction(condition_texts(self.conditions))
    }

    /// Whether the update changes a row of the table.
    pub open spec fn hits(
        self,
        params: Seq<ParamView>,
        now: Timestamp,
        jobs: Map<ulid::Ulid, JobView>,
    ) -> bool {
        exists|id: ulid::Ulid| #[trigger]
            jobs.contains_key(id) && meets(self.conditions, params, now, jobs[id])
    }

    /// Whether the update turns one table into another.
    pub open spec fn turns(
        self,
        params: Seq<ParamView>,
        now: Timestamp,
        before: Map<ulid::Ulid, JobView>,
        after: Map<ulid::Ulid, JobView>,
    ) -> bool {
        &&& after.dom() == before.dom()
        &&& forall|id: ulid::Ulid| #[trigger]
            before.contains_key(id) ==> if meets(self.conditions, params, now, before[id]) {
                reassigned(self.set, params, now, before[id], after[id])
            } else {
                after[id] == before[id]
            }
    }
}

/// Whether running the statement turns one table into the other, and into no other.
/// `hit` tells whether it changes a row.
pub open spec fn updates(
    statement: StatementView,
    prefix: Seq<char>,
    now: Timestamp,
    before: Map<ulid::Ulid, JobView>,
    after: Map<ulid::Ulid, JobView>,
    hit: bool,
) -> bool {
    exists|update: Update| #[trigger]
        update.text(prefix) == statement.sql && hit == update.hits(statement.params, now, before)
            && forall|other: Map<ulid::Ulid, JobView>| #[trigger]
            update.turns(statement.params, now, before, other) <==> other == after
}

/// Whether running the statement notifies the listeners of a channel.
pub open spec fn notifies(statement: StatementView, channel: Seq<char>) -> bool {
    statement.sql == "SELECT pg_notify($1, '')"@ && statement.params.len() == 1 && bound(
        statement.params,
        1,
    ) == Datum::Text(channel)
}

/// Whether a job that was not pending is.
pub open spec fn repended(before: QueueState, after: QueueState) -> bool {
    exists|id: ulid::Ulid| #[trigger]
        after.jobs.contains_key(id) && after.jobs[id].status is Pending && !(
        before.jobs.contains_key(id) && before.jobs[id].status is Pending)
}

/// Whether a guarded write turns one state into the other: its update changes the jobs,
/// and of the statements that follow for as many rows as it changed, the first appends to
/// the journal, and a second notifies the workers exactly when a job is pending again.
/// `hit` tells whether it changed a row.
pub open spec fn writes(
    write: GuardedWriteView,
    prefix: Seq<char>,
    now: Timestamp,
    before: QueueState,
    after: QueueState,
    hit: bool,
) -> bool {
    let affected: u64 = if hit {
        1
    } else {
        0
    };
    let rest = following(write.follow_up, affected);
    &&& updates(write.update, prefix, now, before.jobs, after.jobs, hit)
    &&& if rest.len() == 0 {
        after.journal == before.journal && after.next_entry == before.next_entry
    } else {
        &&& after.journal.len() == before.journal.len() + 1
        &&& after.journal.drop_last() == before.journal
        &&& after.next_entry == before.next_entry + 1
        &&& appends(rest[0], prefix, now, before.next_entry, after.journal.last())
    }
    &&& if repended(before, after) {
        rest.len() == 2 && notifies(rest[1], prefix + "_jobs"@)
    } else {
        rest.len() <= 1
    }
}

/// A direction to order by.
pub enum Direction {
    /// The least first.
    Ascending,
    /// The greatest first.
    Descending,
}

/// How ordering by a column is written.
pub open spec fn order_text(by: (Column, Direction)) -> Seq<char> {
    match by.1 {
        Direction::Ascending => by.0.name(),
        Direction::Descending => by.0.name() + " DESC"@,
    }
}

/// How an order is written.
pub open spec fn order_texts(order: Seq<(Column, Direction)>) -> Seq<Seq<char>> {
    order.map_values(|by: (Column, Direction)| order_text(by))
}

/// Whether an order puts one row ahead of another: by the first column that tells them
/// apart.
pub open spec fn ahead(order: Seq<(Column, Direction)>, a: JobView, b: JobView) -> bool
    decreases order.len(),
{
    if order.len() == 0 {
        false
    } else {
        let x = cell(a, order[0].0);
        let y = cell(b, order[0].0);
        let first = match order[0].1 {
            Direction::Ascending => comes_before(x, y),
            Direction::Descending => comes_before(y, x),
        };
        first || (equals(x, y) && ahead(order.drop_first(), a, b))
    }
}

/// An update of the first row of an order, among those that meet its conditions and that
/// no other transaction has locked. It returns the row as updated.
pub struct UpdateFirst {
    /// The assignments.
    pub set: Seq<(Column, Expr)>,
    /// The conditions.
    pub conditions: Seq<Condition>,
    /// The order.
    pub order: Seq<(Column, Direction)>,
    /// The columns returned.
    pub returned: Seq<Column>,
}

impl UpdateFirst {
    /// How the update is written.
    pub open spec fn text(self, prefix: Seq<char>) -> Seq<char> {
        "UPDATE "@ + prefix + "_jobs SET "@ + listed(assignment_texts(self.set))
            + " WHERE id = ( SELECT id FROM "@ + prefix + "_jobs WHERE "@ + conjunction(
            condition_texts(self.conditions),
        ) + " ORDER BY "@ + listed(order_texts(self.order))
            + " LIMIT 1 FOR UPDATE SKIP LOCKED ) RETURNING "@ + listed(column_names(self.returned))
    }

    /// Whether a row may be the one: it meets the conditions and is not locked.
    pub open spec fn offers(
        self,
        params: Seq<ParamView>,
        now: Timestamp,
        locked: Set<ulid::Ulid>,
        jobs: Map<ulid::Ulid, JobView>,
        id: ulid::Ulid,
    ) -> bool {
        jobs.contains_key(id) && !locked.contains(id) && meets(
            self.conditions,
            params,
            now,
            jobs[id],
        )
    }

    /// Whether the update takes the row `taken` and turns one table into another. Of two
    /// rows that the order does not tell apart it may take either.
    pub open spec fn turns(
        self,
        params: Seq<ParamView>,
        now: Timestamp,
        locked: Set<ulid::Ulid>,
        before: Map<ulid::Ulid, JobView>,
        taken: Option<ulid::Ulid>,
        after: Map<ulid::Ulid, JobView>,
    ) -> bool {
        match taken {
            Some(id) => {
                &&& self.offers(params, now, locked, before, id)
                &&& forall|other: ulid::Ulid| #[trigger]
                    self.offers(params, now, locked, before, other) ==> !ahead(
                        self.order,
                        before[other],
                        before[id],
                    )
                &&& after.dom() == before.dom()
                &&& reassigned(self.set, params, now, before[id], after[id])
                &&& forall|other: ulid::Ulid|
                    before.contains_key(other) && other != id ==> #[trigger] after[other]
                        == before[other]
            },
            None => {
                &&& forall|other: ulid::Ulid| !self.offers(params, now, locked, before, other)
                &&& after == before
            },
        }
    }
}

/// A delete of the rows that meet its conditions.
pub struct Delete {
    /// The conditions.
    pub conditions: Seq<Condition>,
}

impl Delete {
    /// How the delete is written.
    pub open spec fn text(self, prefix: Seq<char>) -> Seq<char> {
        "DELETE FROM "@ + prefix + "_jobs WHERE "@ + conjunction(condition_texts(self.conditions))
    }

    /// The rows it deletes.
    pub open spec fn deletes(
        self,
        params: Seq<ParamView>,
        now: Timestamp,
        jobs: Map<ulid::Ulid, JobView>,
    ) -> Set<ulid::Ulid> {
        Set::new(
            |id: ulid::Ulid|
                jobs.contains_key(id) && meets(self.conditions, params, now, jobs[id]),
        )
    }
}

/// A bound on the rows returned.
pub enum Limit {
    /// As many as there are.
    Unbounded,
    /// A number.
    Number(nat),
    /// What a placeholder says.
    Placeholder(nat),
}

impl Limit {
    /// How the bound is written.
    pub open spec fn text(self) -> Seq<char> {
        match self {
            Limit::Unbounded => ""@,
            Limit::Number(n) => "LIMIT "@ + decimal(n),
            Limit::Placeholder(n) => "LIMIT "@ + placeholder(n),
        }
    }

    /// The most rows returned; `None` for as many as there are.
    pub open spec fn rows(self, params: Seq<ParamView>) -> Option<int> {
        match self {
            Limit::Unbounded => None,
            Limit::Number(n) => Some(n as int),
            Limit::Placeholder(n) => match bound(params, n) {
                Datum::Int(n) => Some(n),
                _ => None,
            },
        }
    }
}

/// A query for the jobs that meet its conditions.
pub struct Select {
    /// The columns returned.
    pub returned: Seq<Column>,
    /// The conditions.
    pub conditions: Seq<Condition>,
    /// The order.
    pub order: Seq<(Column, Direction)>,
    /// The bound on the rows.
    pub limit: Limit,
}

/// How a query's conditions are written.
pub open spec fn where_text(conditions: Seq<Condition>) -> Seq<char> {
    if conditions.len() == 0 {
        Seq::empty()
    } else {
        "WHERE "@ + conjunction(condition_texts(conditions))
    }
}

/// How a query's order and bound are written.
pub open spec fn ending_text(order: Seq<(Column, Direction)>, limit: Limit) -> Seq<char> {
    if order.len() == 0 {
        Seq::empty()
    } else {
        " ORDER BY "@ + listed(order_texts(order)) + " "@ + limit.text()
    }
}

impl Select {
    /// How the query is written.
    pub open spec fn text(self, prefix: Seq<char>) -> Seq<char> {
        "SELECT "@ + listed(column_names(self.returned)) + " FROM "@ + prefix + "_jobs "@
            + where_text(self.conditions) + ending_text(self.order, self.limit)
    }

    /// Whether `page` answers the query: rows that meet the conditions, each once, in
    /// order, no more than the bound; and if any is left out, the bound is reached and
    /// it is not ahead of a row returned.
    pub open spec fn answers(
        self,
        params: Seq<ParamView>,
        now: Timestamp,
        jobs: Map<ulid::Ulid, JobView>,
        page: Seq<JobView>,
    ) -> bool {
        &&& forall|i: int|
            0 <= i < page.len() ==> jobs.contains_key((#[trigger] page[i]).id)
                && jobs[page[i].id] == page[i] && meets(self.conditions, params, now, page[i])
        &&& forall|i: int, j: int|
            0 <= i < j < page.len() ==> (#[trigger] page[i]).id != (#[trigger] page[j]).id && !ahead(
                self.order,
                page[j],
                page[i],
            )
        &&& self.limit.rows(params) matches Some(limit) ==> page.len() <= limit
        &&& forall|id: ulid::Ulid| #[trigger]
            jobs.contains_key(id) && meets(self.conditions, params, now, jobs[id])
                && !page.contains(jobs[id]) ==> self.limit.rows(params) == Some(page.len() as int)
                && forall|i: int|
                0 <= i < page.len() ==> !ahead(self.order, jobs[id], #[trigger] page[i])
    }
}

/// The columns of a job's row, in the order they are returned.
pub open spec fn row_columns() -> Seq<Column> {
    seq![
        Column::Id,
        Column::Kind,
        Column::Payload,
        Column::Priority,
        Column::Status,
        Column::CreatedAt,
        Column::VisibleAt,
        Column::ClaimExpiresAt,
        Column::ClaimedBy,
        Column::FinishedAt,
        Column::RunCount,
        Column::FailureCount,
        Column::Carry,
        Column::DedupKey,
    ]
}

/// Whether the statement is a query that exactly these pages answer. It returns the
/// whole row.
pub open spec fn answered_by(
    statement: StatementView,
    prefix: Seq<char>,
    now: Timestamp,
    jobs: Map<ulid::Ulid, JobView>,
    pages: spec_fn(Seq<JobView>) -> bool,
) -> bool {
    exists|select: Select|
        {
            &&& #[trigger] select.text(prefix) == statement.sql
            &&& select.returned == row_columns()
            &&& forall|page: Seq<JobView>| #[trigger]
                select.answers(statement.params, now, jobs, page) <==> pages(page)
        }
}

/// A query for the least value of a column among the rows that meet its conditions.
pub struct SelectLeast {
    /// The column.
    pub column: Column,
    /// The conditions.
    pub conditions: Seq<Condition>,
}

impl SelectLeast {
    /// How the query is written.
    pub open spec fn text(self, prefix: Seq<char>) -> Seq<char> {
        "SELECT min("@ + self.column.name() + ") FROM "@ + prefix + "_jobs WHERE "@ + conjunction(
            condition_texts(self.conditions),
        )
    }

    /// Whether `least` answers the query: null where no row meets the conditions.
    pub open spec fn answers(
        self,
        params: Seq<ParamView>,
        now: Timestamp,
        jobs: Map<ulid::Ulid, JobView>,
        least: Datum,
    ) -> bool {
        if exists|id: ulid::Ulid| #[trigger]
            jobs.contains_key(id) && meets(self.conditions, params, now, jobs[id]) {
            &&& exists|id: ulid::Ulid| #[trigger]
                jobs.contains_key(id) && meets(self.conditions, params, now, jobs[id]) && cell(
                    jobs[id],
                    self.column,
                ) == least
            &&& forall|id: ulid::Ulid| #[trigger]
                jobs.contains_key(id) && meets(self.conditions, params, now, jobs[id])
                    ==> !comes_before(cell(jobs[id], self.column), least)
        } else {
            least is Null
        }
    }
}

/// A query for the number of rows of each kind, among those that meet its conditions,
/// with the earliest creation time where that is asked for.
pub struct SelectByKind {
    /// The conditions.
    pub conditions: Seq<Condition>,
    /// Whether the earliest creation time is asked for.
    pub oldest: bool,
}

/// What such a query returns of one kind.
pub struct KindRow {
    /// The kind.
    pub kind: Seq<char>,
    /// The number of rows.
    pub count: int,
    /// The earliest creation time.
    pub oldest: Option<Timestamp>,
}

impl KindRow {
    /// Whether the row tells how many rows a group has, at least one, and where `aged` the
    /// earliest creation time among them.
    pub open spec fn sums_up(
        self,
        jobs: Map<ulid::Ulid, JobView>,
        group: Set<ulid::Ulid>,
        aged: bool,
    ) -> bool {
        &&& group.finite() && group.len() > 0 && self.count == group.len()
        &&& aged ==> (self.oldest matches Some(oldest) && (exists|id: ulid::Ulid| #[trigger]
            group.contains(id) && jobs[id].created_at == oldest) && forall|id: ulid::Ulid|
         #[trigger]
            group.contains(id) ==> oldest.nanos() <= jobs[id].created_at.nanos())
    }
}

impl SelectByKind {
    /// How the query is written.
    pub open spec fn text(self, prefix: Seq<char>) -> Seq<char> {
        "SELECT kind, count(*)"@ + (if self.oldest {
            ", min(created_at)"@
        } else {
            ""@
        }) + " FROM "@ + prefix + "_jobs WHERE "@ + conjunction(condition_texts(self.conditions))
            + " GROUP BY kind"@
    }

    /// The rows of a kind that meet the conditions.
    pub open spec fn group(
        self,
        params: Seq<ParamView>,
        now: Timestamp,
        jobs: Map<ulid::Ulid, JobView>,
        kind: Seq<char>,
    ) -> Set<ulid::Ulid> {
        Set::new(
            |id: ulid::Ulid|
                jobs.contains_key(id) && jobs[id].kind == kind && meets(
                    self.conditions,
                    params,
                    now,
                    jobs[id],
                ),
        )
    }

    /// Whether `rows` answer the query: one for each kind that has a row, with as many as
    /// it has, and the earliest creation time among them where that is asked for.
    pub open spec fn answers(
        self,
        params: Seq<ParamView>,
        now: Timestamp,
        jobs: Map<ulid::Ulid, JobView>,
        rows: Seq<KindRow>,
    ) -> bool {
        &&& forall|i: int, j: int|
            0 <= i < j < rows.len() ==> (#[trigger] rows[i]).kind != (#[trigger] rows[j]).kind
        &&& forall|id: ulid::Ulid| #[trigger]
            jobs.contains_key(id) && meets(self.conditions, params, now, jobs[id]) ==> exists|
                i: int,
            |
                0 <= i < rows.len() && (#[trigger] rows[i]).kind == jobs[id].kind
        &&& forall|i: int|
            0 <= i < rows.len() ==> (#[trigger] rows[i]).sums_up(
                jobs,
                self.group(params, now, jobs, rows[i].kind),
                self.oldest,
            )
    }
}

/// A query for the number of rows that meet its conditions.
pub struct SelectCount {
    /// The conditions.
    pub conditions: Seq<Condition>,
}

impl SelectCount {
    /// How the query is written.
    pub open spec fn text(self, prefix: Seq<char>) -> Seq<char> {
        "SELECT count(*) FROM "@ + prefix + "_jobs WHERE "@ + conjunction(
            condition_texts(self.conditions),
        )
    }

    /// Whether `count` answers the query.
    pub open spec fn answers(
        self,
        params: Seq<ParamView>,
        now: Timestamp,
        jobs: Map<ulid::Ulid, JobView>,
        count: int,
    ) -> bool {
        let rows = Set::new(
            |id: ulid::Ulid|
                jobs.contains_key(id) && meets(self.conditions, params, now, jobs[id]),
        );
        rows.finite() && count == rows.len()
    }
}

/// A query for the journal entries whose job a placeholder names, in the order of their
/// identities.
pub struct SelectEntries {
    /// The columns returned.
    pub returned: Seq<JournalColumn>,
    /// The column compared.
    pub column: JournalColumn,
    /// The placeholder it is compared with.
    pub with: nat,
    /// The column to order by.
    pub order: JournalColumn,
}

impl SelectEntries {
    /// How the query is written.
    pub open spec fn text(self, prefix: Seq<char>) -> Seq<char> {
        "SELECT "@ + listed(journal_column_names(self.returned)) + " FROM "@ + prefix
            + "_journal WHERE "@ + self.column.name() + " = "@ + placeholder(self.with)
            + " ORDER BY "@ + self.order.name()
    }

    /// Whether an entry is asked for.
    pub open spec fn wants(self, params: Seq<ParamView>, row: JournalView) -> bool {
        equals(entry_cell(row, self.column), bound(params, self.with))
    }

    /// Whether `rows` answer the query: every entry asked for, once, in order.
    pub open spec fn answers(
        self,
        params: Seq<ParamView>,
        journal: Seq<JournalView>,
        rows: Seq<JournalView>,
    ) -> bool {
        &&& forall|i: int|
            0 <= i < rows.len() ==> journal.contains(#[trigger] rows[i]) && self.wants(
                params,
                rows[i],
            )
        &&& forall|i: int, j: int|
            0 <= i < j < rows.len() ==> comes_before(
                entry_cell(#[trigger] rows[i], self.order),
                entry_cell(#[trigger] rows[j], self.order),
            )
        &&& forall|k: int|
            0 <= k < journal.len() && self.wants(params, #[trigger] journal[k]) ==> rows.contains(
                journal[k],
            )
    }
}

/// A row is told by what its columns hold.
pub proof fn cells_tell_a_row(a: JobView, b: JobView)
    requires
        forall|column: Column| #[trigger] cell(a, column) == cell(b, column),
    ensures
        a == b,
{
    assert(cell(a, Column::Id) == cell(b, Column::Id));
    crate::ids::id_text_reads_back(a.id.0);
    crate::ids::id_text_reads_back(b.id.0);
    assert(cell(a, Column::Kind) == cell(b, Column::Kind));
    assert(cell(a, Column::Payload) == cell(b, Column::Payload));
    assert(cell(a, Column::Priority) == cell(b, Column::Priority));
    assert(cell(a, Column::Status) == cell(b, Column::Status));
    crate::store::status_text_is_unambiguous(a.status, b.status);
    assert(cell(a, Column::CreatedAt) == cell(b, Column::CreatedAt));
    assert(cell(a, Column::VisibleAt) == cell(b, Column::VisibleAt));
    assert(cell(a, Column::ClaimExpiresAt) == cell(b, Column::ClaimExpiresAt));
    assert(cell(a, Column::ClaimedBy) == cell(b, Column::ClaimedBy));
    assert(cell(a, Column::FinishedAt) == cell(b, Column::FinishedAt));
    assert(cell(a, Column::RunCount) == cell(b, Column::RunCount));
    assert(cell(a, Column::FailureCount) == cell(b, Column::FailureCount));
    assert(cell(a, Column::Carry) == cell(b, Column::Carry));
    assert(cell(a, Column::DedupKey) == cell(b, Column::DedupKey));
}

/// An entry is told by what its columns hold.
pub proof fn cells_tell_an_entry(a: JournalView, b: JournalView)
    requires
        forall|column: JournalColumn| #[trigger] entry_cell(a, column) == entry_cell(b, column),
    ensures
        a == b,
{
    assert(entry_cell(a, JournalColumn::Id) == entry_cell(b, JournalColumn::Id));
    assert(entry_cell(a, JournalColumn::JobId) == entry_cell(b, JournalColumn::JobId));
    crate::ids::id_text_reads_back(a.job_id.0);
    crate::ids::id_text_reads_back(b.job_id.0);
    assert(entry_cell(a, JournalColumn::Kind) == entry_cell(b, JournalColumn::Kind));
    assert(entry_cell(a, JournalColumn::RunNo) == entry_cell(b, JournalColumn::RunNo));
    assert(entry_cell(a, JournalColumn::RecordedAt) == entry_cell(b, JournalColumn::RecordedAt));
    assert(entry_cell(a, JournalColumn::Outcome) == entry_cell(b, JournalColumn::Outcome));
    crate::store::outcome_text_is_unambiguous(a.entry.outcome, b.entry.outcome);
    assert(entry_cell(a, JournalColumn::Note) == entry_cell(b, JournalColumn::Note));
    assert(entry_cell(a, JournalColumn::Attachment) == entry_cell(b, JournalColumn::Attachment));
}

/// The assignments leave no choice: they make one row of a row.
pub proof fn assignments_are_determined(
    set: Seq<(Column, Expr)>,
    params: Seq<ParamView>,
    now: Timestamp,
    before: JobView,
    a: JobView,
    b: JobView,
)
    requires
        reassigned(set, params, now, before, a),
        reassigned(set, params, now, before, b),
    ensures
        a == b,
{
    assert forall|column: Column| #[trigger] cell(a, column) == cell(b, column) by {
        if assigns(set, column) {
            let i = choose|i: int| 0 <= i < set.len() && (#[trigger] set[i]).0 == column;
            assert(cell(a, set[i].0) == cell(b, set[i].0));
        } else {
            assert(cell(a, column) == cell(before, column));
            assert(cell(b, column) == cell(before, column));
        }
    }
    cells_tell_a_row(a, b);
}

/// An update leaves no choice: it turns a table into one table.
pub proof fn updates_are_determined(
    update: Update,
    params: Seq<ParamView>,
    now: Timestamp,
    before: Map<ulid::Ulid, JobView>,
    a: Map<ulid::Ulid, JobView>,
    b: Map<ulid::Ulid, JobView>,
)
    requires
        update.turns(params, now, before, a),
        update.turns(params, now, before, b),
    ensures
        a == b,
{
    assert forall|id: ulid::Ulid| #[trigger] before.contains_key(id) implies a[id] == b[id] by {
        if meets(update.conditions, params, now, before[id]) {
            assignments_are_determined(update.set, params, now, before[id], a[id], b[id]);
        }
    }
    assert(a =~= b);
}

/// An insert leaves no choice.
pub proof fn inserts_are_determined(
    insert: Insert,
    params: Seq<ParamView>,
    now: Timestamp,
    a: JobView,
    b: JobView,
)
    requires
        insert.adds(params, now, a),
        insert.adds(params, now, b),
    ensures
        a == b,
{
    assert forall|column: Column| #[trigger] cell(a, column) == cell(b, column) by {
        if insert.columns.contains(column) {
            let i = choose|i: int|
                0 <= i < insert.columns.len() && #[trigger] insert.columns[i] == column;
            assert(cell(a, insert.columns[i]) == cell(b, insert.columns[i]));
        } else {
            assert(cell(a, column) is Null);
            assert(cell(b, column) is Null);
        }
    }
    cells_tell_a_row(a, b);
}

/// An insert into the journal leaves no choice.
pub proof fn entry_inserts_are_determined(
    insert: EntryInsert,
    params: Seq<ParamView>,
    now: Timestamp,
    next_entry: i64,
    a: JournalView,
    b: JournalView,
)
    requires
        insert.adds(params, now, next_entry, a),
        insert.adds(params, now, next_entry, b),
    ensures
        a == b,
{
    assert forall|column: JournalColumn| #[trigger] entry_cell(a, column) == entry_cell(
        b,
        column,
    ) by {
        if insert.columns.contains(column) {
            let i = choose|i: int|
                0 <= i < insert.columns.len() && #[trigger] insert.columns[i] == column;
            assert(entry_cell(a, insert.columns[i]) == entry_cell(b, insert.columns[i]));
        } else if !(column is Id) {
            assert(entry_cell(a, column) is Null);
            assert(entry_cell(b, column) is Null);
        }
    }
    cells_tell_an_entry(a, b);
}

} // verus!
