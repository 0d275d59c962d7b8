//! Prefix-substituted schema migrations.
//!
//! Migrations are authored with the literal `{{prefix}}` token. At apply time the
//! token is replaced with the configured prefix, and the migration-history table is
//! named per prefix too. Two prefixes in one database therefore track and apply
//! migrations independently.
use crate::error::{debug_form, quoted, Error, ErrorView};
use crate::text::{chars_of, decimal, digit_char, joined};
use vstd::prelude::*;

verus! {

/// The jobs and journal tables.
pub const V1_INITIAL: &'static str =
    "CREATE TABLE {{prefix}}_jobs (
    id text PRIMARY KEY,
    kind text NOT NULL,
    payload jsonb NOT NULL,
    priority smallint NOT NULL CHECK (priority IN (0, 1, 2)),
    status text NOT NULL CHECK (status IN ('pending', 'claimed', 'completed', 'dead')),
    created_at timestamptz NOT NULL,
    visible_at timestamptz NOT NULL,
    claim_expires_at timestamptz,
    claimed_by text,
    finished_at timestamptz,
    run_count integer NOT NULL DEFAULT 0,
    failure_count integer NOT NULL DEFAULT 0,
    carry jsonb NOT NULL,
    dedup_key text
);
CREATE TABLE {{prefix}}_journal (
    id bigserial PRIMARY KEY,
    job_id text NOT NULL REFERENCES {{prefix}}_jobs (id) ON DELETE CASCADE,
    kind text NOT NULL,
    run_no integer NOT NULL,
    recorded_at timestamptz NOT NULL,
    outcome text NOT NULL CHECK (outcome IN ('completed', 'paused', 'retried', 'dead', 'stale-recovered', 'released', 'merged')),
    note text,
    attachment jsonb
);
CREATE INDEX {{prefix}}_jobs_claim ON {{prefix}}_jobs (priority, created_at) WHERE status = 'pending';
CREATE INDEX {{prefix}}_jobs_dedup ON {{prefix}}_jobs (kind, dedup_key) WHERE status = 'pending';
CREATE INDEX {{prefix}}_journal_job ON {{prefix}}_journal (job_id, id);
";

/// The index behind the keyset cursor of the history query.
pub const V2_HISTORY_CURSOR: &'static str =
    "CREATE INDEX {{prefix}}_jobs_history ON {{prefix}}_jobs (created_at DESC, id DESC);
";

/// The indexes behind stale-claim scans, wakeup scheduling, and cleanup.
pub const V3_INDEX_TUNING: &'static str =
    "CREATE INDEX {{prefix}}_jobs_stale ON {{prefix}}_jobs (claim_expires_at) WHERE status = 'claimed';
CREATE INDEX {{prefix}}_jobs_visible ON {{prefix}}_jobs (kind, visible_at) WHERE status = 'pending';
CREATE INDEX {{prefix}}_jobs_finished ON {{prefix}}_jobs (finished_at) WHERE finished_at IS NOT NULL;
";

/// A text with every occurrence of a token replaced, found from left to right
/// without overlap.
pub open spec fn replaced(text: Seq<char>, token: Seq<char>, with: Seq<char>) -> Seq<char>
    decreases text.len(),
{
    if token.len() == 0 || text.len() < token.len() {
        text
    } else if text.take(token.len() as int) == token {
        with + replaced(text.skip(token.len() as int), token, with)
    } else {
        seq![text[0]] + replaced(text.skip(1), token, with)
    }
}

/// Replaces every occurrence of a token: `str::replace`, whose matches are found
/// from left to right without overlap.
#[verifier::external_body]
fn replace_all(text: &str, token: &str, with: &str) -> (r: String)
    requires
        token@.len() > 0,
    ensures
        r@ == replaced(text@, token@, with@),
{
    text.replace(token, with)
}

/// Substitute the prefix into a migration's body.
pub fn render(template: &str, prefix: &str) -> (r: String)
    ensures
        r@ == replaced(template@, "{{prefix}}"@, prefix@),
{
    proof {
        reveal_strlit("{{prefix}}");
    }
    replace_all(template, "{{prefix}}", prefix)
}

/// A migration ready to run.
#[derive(Debug)]
pub struct RenderedMigration {
    /// Its name, in the form `V{version}__{description}`; the version drives ordering
    /// and the applied-history comparison.
    pub name: &'static str,
    /// Its body, with the prefix substituted.
    pub body: String,
}

/// The ordered set of migrations for a prefix. Only the body is substituted; the
/// name stays as it is, since per-queue isolation comes from the per-prefix history
/// table.
pub fn rendered_migrations(prefix: &str) -> (r: Vec<RenderedMigration>)
    ensures
        r@.len() == 3,
        r@[0].name@ == "V1__initial"@,
        r@[0].body@ == replaced(V1_INITIAL@, "{{prefix}}"@, prefix@),
        r@[1].name@ == "V2__history_cursor"@,
        r@[1].body@ == replaced(V2_HISTORY_CURSOR@, "{{prefix}}"@, prefix@),
        r@[2].name@ == "V3__index_tuning"@,
        r@[2].body@ == replaced(V3_INDEX_TUNING@, "{{prefix}}"@, prefix@),
{
    vec![
        RenderedMigration { name: "V1__initial", body: render(V1_INITIAL, prefix) },
        RenderedMigration { name: "V2__history_cursor", body: render(V2_HISTORY_CURSOR, prefix) },
        RenderedMigration { name: "V3__index_tuning", body: render(V3_INDEX_TUNING, prefix) },
    ]
}

/// A migration as the migration runner takes it, opaque here.
#[verifier::external_type_specification]
#[verifier::external_body]
pub struct ExMigration(refinery_core::Migration);

/// The runner's form of a migration with this name and body, or the text of the error
/// it refuses the name with.
pub uninterp spec fn runner_migration(name: Seq<char>, body: Seq<char>) -> Result<
    refinery_core::Migration,
    Seq<char>,
>;

/// Whether a text starts with a vertical bar.
pub open spec fn starts_with_bar(text: Seq<char>) -> bool {
    text.len() > 0 && text[0] == '|'
}

/// Prepares a migration for the runner: `refinery_core::Migration::unapplied`, an
/// error rendered as its text.
///
/// The result, the error's text with it, depends on the name and the body alone; the
/// naming convention and the checksum are left unstated. A name that starts with a
/// vertical bar is left out: the call may panic on it.
#[verifier::external_body]
fn unapplied(name: &str, body: &str) -> (r: Result<refinery_core::Migration, String>)
    requires
        !starts_with_bar(name@),
    ensures
        runner_migration(name@, body@) == (match r {
            Ok(migration) => Ok::<refinery_core::Migration, Seq<char>>(migration),
            Err(text) => Err(text@),
        }),
{
    refinery_core::Migration::unapplied(name, body).map_err(|error| error.to_string())
}

/// Whether the runner takes a migration.
pub open spec fn runner_takes(migration: RenderedMigration) -> bool {
    !starts_with_bar(migration.name@) && runner_migration(
        migration.name@,
        migration.body@,
    ) is Ok
}

/// The text a migration that the runner does not take is refused with.
pub open spec fn refusal_text(migration: RenderedMigration) -> Seq<char> {
    if starts_with_bar(migration.name@) {
        "a migration name starts with U or V"@
    } else {
        runner_migration(migration.name@, migration.body@)->Err_0
    }
}

/// Prepare rendered migrations for the runner, in order, or report the first one it
/// does not take.
pub fn prepare(rendered: &Vec<RenderedMigration>) -> (r: Result<
    Vec<refinery_core::Migration>,
    Error,
>)
    ensures
        r is Ok <==> forall|i: int|
            0 <= i < rendered@.len() ==> runner_takes(#[trigger] rendered@[i]),
        r matches Ok(list) ==> list@.len() == rendered@.len() && forall|i: int|
            0 <= i < list@.len() ==> runner_migration(
                (#[trigger] rendered@[i]).name@,
                rendered@[i].body@,
            ) == Ok::<refinery_core::Migration, Seq<char>>(list@[i]),
        r matches Err(error) ==> exists|i: int|
            0 <= i < rendered@.len() && !runner_takes(#[trigger] rendered@[i]) && (forall|j: int|
                0 <= j < i ==> runner_takes(#[trigger] rendered@[j])) && error@
                == ErrorView::Migration(refusal_text(rendered@[i])),
{
    let mut list: Vec<refinery_core::Migration> = Vec::new();
    let mut i: usize = 0;
    while i < rendered.len()
        invariant
            i <= rendered@.len(),
            list@.len() == i,
            forall|j: int| 0 <= j < i ==> runner_takes(#[trigger] rendered@[j]),
            forall|j: int|
                0 <= j < i ==> runner_migration(
                    (#[trigger] rendered@[j]).name@,
                    rendered@[j].body@,
                ) == Ok::<refinery_core::Migration, Seq<char>>(list@[j]),
        decreases rendered@.len() - i,
    {
        let start = chars_of(rendered[i].name);
        if start.len() > 0 && start[0] == '|' {
            assert(!runner_takes(rendered@[i as int]));
            return Err(Error::Migration("a migration name starts with U or V".to_owned()));
        }
        match unapplied(rendered[i].name, rendered[i].body.as_str()) {
            Ok(migration) => {
                list.push(migration);
            },
            Err(text) => {
                assert(!runner_takes(rendered@[i as int]));
                return Err(Error::Migration(text));
            },
        }
        i += 1;
    }
    Ok(list)
}

/// Whether a text is made of decimal digits.
pub open spec fn all_digits(text: Seq<char>) -> bool {
    forall|i: int| 0 <= i < text.len() ==> '0' <= #[trigger] text[i] && text[i] <= '9'
}

/// The number a digit string stands for.
pub open spec fn digits_value(text: Seq<char>) -> nat
    decreases text.len(),
{
    if text.len() == 0 {
        0
    } else {
        (digits_value(text.drop_last()) * 10 + (text.last() as u32 - '0' as u32)) as nat
    }
}

/// The 64-bit number a text stands for: an optional plus sign and decimal digits.
pub open spec fn parsed_u64(text: Seq<char>) -> Option<nat> {
    let digits = if text.len() > 0 && text[0] == '+' {
        text.drop_first()
    } else {
        text
    };
    if digits.len() > 0 && all_digits(digits) && digits_value(digits) <= u64::MAX {
        Some(digits_value(digits))
    } else {
        None
    }
}

proof fn lemma_value_grows(text: Seq<char>, n: int)
    requires
        all_digits(text),
        0 <= n <= text.len(),
    ensures
        digits_value(text.take(n)) <= digits_value(text),
    decreases text.len() - n,
{
    if n < text.len() {
        lemma_value_grows(text, n + 1);
        assert(text.take(n + 1).drop_last() =~= text.take(n));
        assert(text.take(n + 1).last() == text[n]);
    } else {
        assert(text.take(n) =~= text);
    }
}

/// Parse a 64-bit number.
pub fn parse_u64(text: &str) -> (r: Option<u64>)
    ensures
        r is Some <==> parsed_u64(text@) is Some,
        r matches Some(n) ==> parsed_u64(text@) == Some(n as nat),
{
    let chars = chars_of(text);
    let start: usize = if chars.len() > 0 && chars[0] == '+' {
        1
    } else {
        0
    };
    let ghost digits = text@.skip(start as int);
    proof {
        assert(start == 0 ==> digits =~= text@);
        assert(start == 1 ==> digits =~= text@.drop_first());
    }
    if chars.len() == start {
        return None;
    }
    let mut value: u64 = 0;
    let mut i: usize = start;
    assert(digits.take(0) =~= Seq::<char>::empty());
    while i < chars.len()
        invariant
            start <= i <= chars@.len(),
            start <= 1,
            chars@ == text@,
            digits == text@.skip(start as int),
            digits == (if text@.len() > 0 && text@[0] == '+' {
                text@.drop_first()
            } else {
                text@
            }),
            forall|j: int|
                0 <= j < i - start ==> '0' <= #[trigger] digits[j] && digits[j] <= '9',
            value == digits_value(digits.take(i - start)),
        decreases chars@.len() - i,
    {
        let c = chars[i];
        assert(digits[i - start] == c);
        if !('0' <= c && c <= '9') {
            return None;
        }
        let digit: u64 = (c as u32 - '0' as u32) as u64;
        proof {
            let longer = digits.take(i - start + 1);
            assert(longer.drop_last() =~= digits.take(i - start));
            assert(longer.last() == c);
            if all_digits(digits) {
                lemma_value_grows(digits, i - start + 1);
            }
        }
        match value.checked_mul(10) {
            Some(tens) => match tens.checked_add(digit) {
                Some(next) => {
                    value = next;
                },
                None => {
                    return None;
                },
            },
            None => {
                return None;
            },
        }
        i += 1;
    }
    assert(digits.take(i - start) =~= digits);
    Some(value)
}

proof fn lemma_decimal_value(n: nat)
    ensures
        decimal(n).len() > 0,
        all_digits(decimal(n)),
        digits_value(decimal(n)) == n,
    decreases n,
{
    if n < 10 {
        reveal_with_fuel(digits_value, 2);
        assert(decimal(n).drop_last() =~= Seq::<char>::empty());
        assert(decimal(n).last() == digit_char(n));
    } else {
        lemma_decimal_value(n / 10);
        assert(decimal(n).drop_last() =~= decimal(n / 10));
        assert(decimal(n).last() == digit_char(n % 10));
    }
}

/// The decimal form of a 64-bit number reads back as the number.
pub proof fn decimal_reads_back(n: u64)
    ensures
        parsed_u64(decimal(n as nat)) == Some(n as nat),
{
    lemma_decimal_value(n as nat);
    assert('0' <= decimal(n as nat)[0]);
}

/// An instant with an offset from UTC, as the migration runner keeps application times.
/// It is handed on as it was read, and nothing here looks inside.
#[verifier::external_type_specification]
#[verifier::external_body]
pub struct ExOffsetDateTime(time::OffsetDateTime);

/// What `time::OffsetDateTime::parse` makes of a text under the well-known `Rfc3339`
/// description; `None` for a text it refuses.
///
/// The result depends on the text alone; the grammar is left unstated.
pub uninterp spec fn rfc3339_instant(text: Seq<char>) -> Option<time::OffsetDateTime>;

/// Parses an RFC 3339 text: `time::OffsetDateTime::parse` with the well-known
/// `Rfc3339` description.
///
/// The instant, or its absence, is trusted to be what `rfc3339_instant` names for the
/// text.
#[verifier::external_body]
fn parse_rfc3339(text: &str) -> (r: Option<time::OffsetDateTime>)
    ensures
        r == rfc3339_instant(text@),
{
    time::OffsetDateTime::parse(text, &time::format_description::well_known::Rfc3339).ok()
}

/// A row of the migration-history table.
pub struct HistoryRow {
    /// The migration's version.
    pub version: i32,
    /// The migration's name.
    pub name: String,
    /// When it was applied, as RFC 3339 text.
    pub applied_on: String,
    /// Its checksum, as decimal text.
    pub checksum: String,
}

/// A migration that was applied.
#[derive(Debug)]
pub struct AppliedMigration {
    /// The migration's version.
    pub version: i32,
    /// The migration's name.
    pub name: String,
    /// When it was applied.
    pub applied_on: time::OffsetDateTime,
    /// Its checksum.
    pub checksum: u64,
}

/// A history column that can be malformed.
#[derive(Debug, Clone, Copy, PartialEq, Eq, Structural)]
pub enum HistoryField {
    /// The application time.
    AppliedOn,
    /// The checksum.
    Checksum,
}

/// A migration-history column that held a value this code could not parse.
///
/// It cannot happen for history this code wrote; it guards against a row corrupted
/// by a manual edit, a partial restore, or a future format change, surfacing it as a
/// recoverable error.
#[derive(Debug)]
pub struct MalformedHistory {
    /// The history column that failed to parse.
    pub field: HistoryField,
    /// The raw text that did not parse.
    pub value: String,
}

/// The name of a history column.
pub open spec fn field_name(field: HistoryField) -> Seq<char> {
    match field {
        HistoryField::AppliedOn => "applied_on"@,
        HistoryField::Checksum => "checksum"@,
    }
}

/// The text of a malformed-history error, given the quoted value.
pub open spec fn malformed_text(field: HistoryField, quoted_value: Seq<char>) -> Seq<char> {
    "migration history row has a malformed "@ + field_name(field) + ": "@ + quoted_value
}

impl MalformedHistory {
    /// The text shown for this error.
    pub fn message(&self) -> (r: String)
        ensures
            r@ == malformed_text(self.field, debug_form(self.value@)),
    {
        let shown = quoted(self.value.as_str());
        self.message_quoting(shown.as_str())
    }

    /// The text shown for this error, given the quoted value.
    pub fn message_quoting(&self, quoted_value: &str) -> (r: String)
        ensures
            r@ == malformed_text(self.field, quoted_value@),
    {
        let name = match self.field {
            HistoryField::AppliedOn => "applied_on",
            HistoryField::Checksum => "checksum",
        };
        let mut text = joined("migration history row has a malformed ", name);
        text.append(": ");
        text.append(quoted_value);
        text
    }
}

/// What reading a history row gives, given the parsed application time.
pub open spec fn reads_history(
    row: HistoryRow,
    applied: Option<time::OffsetDateTime>,
    r: Result<AppliedMigration, MalformedHistory>,
) -> bool {
    match applied {
        None => r matches Err(error) && error.field is AppliedOn && error.value@ == row.applied_on@,
        Some(instant) => match parsed_u64(row.checksum@) {
            None => r matches Err(error) && error.field is Checksum && error.value@
                == row.checksum@,
            Some(checksum) => r matches Ok(migration) && migration.version == row.version
                && migration.name@ == row.name@ && migration.applied_on == instant
                && migration.checksum == checksum,
        },
    }
}

/// Read a migration-history row.
pub fn read_history_row(row: HistoryRow) -> (r: Result<AppliedMigration, MalformedHistory>)
    ensures
        reads_history(row, rfc3339_instant(row.applied_on@), r),
{
    let applied = parse_rfc3339(row.applied_on.as_str());
    history_from_parts(row, applied)
}

/// Read a migration-history row, given the parsed application time.
pub fn history_from_parts(row: HistoryRow, applied: Option<time::OffsetDateTime>) -> (r: Result<
    AppliedMigration,
    MalformedHistory,
>)
    ensures
        reads_history(row, applied, r),
{
    let applied_on = match applied {
        Some(instant) => instant,
        None => {
            return Err(
                MalformedHistory { field: HistoryField::AppliedOn, value: row.applied_on },
            );
        },
    };
    let checksum: u64 = match parse_u64(row.checksum.as_str()) {
        Some(checksum) => checksum,
        None => {
            return Err(MalformedHistory { field: HistoryField::Checksum, value: row.checksum });
        },
    };
    Ok(
        AppliedMigration {
            version: row.version,
            name: row.name,
            applied_on,
            checksum,
        },
    )
}

/// Whether a history row can be read.
pub open spec fn readable(row: HistoryRow) -> bool {
    rfc3339_instant(row.applied_on@) is Some && parsed_u64(row.checksum@) is Some
}

/// Read the migration history, in order, or report the first row that cannot be read.
pub fn read_history(rows: Vec<HistoryRow>) -> (r: Result<Vec<AppliedMigration>, MalformedHistory>)
    ensures
        r is Ok <==> forall|i: int| 0 <= i < rows@.len() ==> readable(#[trigger] rows@[i]),
        r matches Ok(list) ==> list@.len() == rows@.len() && forall|i: int|
            0 <= i < rows@.len() ==> reads_history(
                #[trigger] rows@[i],
                rfc3339_instant(rows@[i].applied_on@),
                Ok(list@[i]),
            ),
        r matches Err(error) ==> exists|i: int|
            0 <= i < rows@.len() && !readable(#[trigger] rows@[i]) && (forall|j: int|
                0 <= j < i ==> readable(#[trigger] rows@[j])) && reads_history(
                rows@[i],
                rfc3339_instant(rows@[i].applied_on@),
                Err(error),
            ),
{
    let mut list: Vec<AppliedMigration> = Vec::new();
    let mut i: usize = 0;
    while i < rows.len()
        invariant
            i <= rows@.len(),
            list@.len() == i,
            forall|j: int| 0 <= j < i ==> readable(#[trigger] rows@[j]),
            forall|j: int|
                0 <= j < i ==> reads_history(
                    #[trigger] rows@[j],
                    rfc3339_instant(rows@[j].applied_on@),
                    Ok(list@[j]),
                ),
        decreases rows@.len() - i,
    {
        let row = &rows[i];
        let read = read_history_row(
            HistoryRow {
                version: row.version,
                name: row.name.clone(),
                applied_on: row.applied_on.clone(),
                checksum: row.checksum.clone(),
            },
        );
        assert(reads_history(rows@[i as int], rfc3339_instant(rows@[i as int].applied_on@), read));
        match read {
            Ok(migration) => {
                list.push(migration);
            },
            Err(error) => {
                assert(!readable(rows@[i as int]));
                return Err(error);
            },
        }
        i += 1;
    }
    Ok(list)
}

/// A history row that the runner wrote reads back: the version, the name, the instant, and
/// the checksum, which is stored in decimal.
pub proof fn written_history_reads_back(
    row: HistoryRow,
    instant: time::OffsetDateTime,
    checksum: u64,
    r: Result<AppliedMigration, MalformedHistory>,
)
    requires
        call_ensures(read_history_row, (row,), r),
        rfc3339_instant(row.applied_on@) == Some(instant),
        row.checksum@ == decimal(checksum as nat),
    ensures
        r matches Ok(migration) && {
            &&& migration.version == row.version && migration.name@ == row.name@
            &&& migration.applied_on == instant && migration.checksum == checksum
        },
{
    decimal_reads_back(checksum);
}

/// A text without the token's first character has nothing to replace.
proof fn lemma_nothing_replaced(text: Seq<char>, token: Seq<char>, with: Seq<char>)
    requires
        token.len() > 0,
        forall|i: int| 0 <= i < text.len() ==> #[trigger] text[i] != token[0],
    ensures
        replaced(text, token, with) == text,
    decreases text.len(),
{
    if text.len() >= token.len() {
        assert(text.take(token.len() as int)[0] == text[0]);
        let rest = text.skip(1);
        assert forall|i: int| 0 <= i < rest.len() implies #[trigger] rest[i] != token[0] by {
            assert(rest[i] == text[i + 1]);
        }
        lemma_nothing_replaced(rest, token, with);
        assert(seq![text[0]] + rest =~= text);
    }
}

/// The first token of a text is replaced, and what follows it as if it stood alone.
proof fn lemma_token_replaced(
    before: Seq<char>,
    after: Seq<char>,
    token: Seq<char>,
    with: Seq<char>,
)
    requires
        token.len() > 0,
        forall|i: int| 0 <= i < before.len() ==> #[trigger] before[i] != token[0],
    ensures
        replaced(before + token + after, token, with) == before + with + replaced(
            after,
            token,
            with,
        ),
    decreases before.len(),
{
    let text = before + token + after;
    let n = token.len() as int;
    if before.len() == 0 {
        assert(text.take(n) =~= token);
        assert(text.skip(n) =~= after);
        assert(before + with + replaced(after, token, with) =~= with + replaced(
            after,
            token,
            with,
        ));
    } else {
        assert(text.take(n)[0] == before[0]);
        assert(text.take(n) != token);
        let rest = before.skip(1);
        assert forall|i: int| 0 <= i < rest.len() implies #[trigger] rest[i] != token[0] by {
            assert(rest[i] == before[i + 1]);
        }
        lemma_token_replaced(rest, after, token, with);
        assert(text.skip(1) =~= rest + token + after);
        assert(seq![before[0]] + (rest + with + replaced(after, token, with)) =~= before + with
            + replaced(after, token, with));
    }
}

proof fn lemma_cursor_rendered(prefix: Seq<char>)
    ensures
        replaced(V2_HISTORY_CURSOR@, "{{prefix}}"@, prefix) == "CREATE INDEX "@ + prefix + "_jobs_history ON "@ + prefix + "_jobs (created_at DESC, id DESC);\n"@,
{
    let token = "{{prefix}}"@;
    reveal_strlit("{{prefix}}");
    reveal_strlit("CREATE INDEX ");
    reveal_strlit("_jobs_history ON ");
    reveal_strlit("_jobs (created_at DESC, id DESC);\n");
    reveal_strlit("CREATE INDEX {{prefix}}_jobs_history ON {{prefix}}_jobs (created_at DESC, id DESC);\n");
    let rest2 = "_jobs (created_at DESC, id DESC);\n"@;
    let rest1 = "_jobs_history ON "@ + token + rest2;
    let rest0 = "CREATE INDEX "@ + token + rest1;
    assert(V2_HISTORY_CURSOR@ =~= rest0);
    lemma_token_replaced("CREATE INDEX "@, rest1, token, prefix);
    lemma_token_replaced("_jobs_history ON "@, rest2, token, prefix);
    lemma_nothing_replaced(rest2, token, prefix);
    assert(replaced(rest0, token, prefix) =~= "CREATE INDEX "@ + prefix + "_jobs_history ON "@ + prefix + "_jobs (created_at DESC, id DESC);\n"@);
}

proof fn lemma_tuning_rendered(prefix: Seq<char>)
    ensures
        replaced(V3_INDEX_TUNING@, "{{prefix}}"@, prefix) == "CREATE INDEX "@ + prefix + "_jobs_stale ON "@ + prefix + "_jobs (claim_expires_at) WHERE status = 'claimed';\nCREATE INDEX "@ + prefix + "_jobs_visible ON "@ + prefix + "_jobs (kind, visible_at) WHERE status = 'pending';\nCREATE INDEX "@ + prefix + "_jobs_finished ON "@ + prefix + "_jobs (finished_at) WHERE finished_at IS NOT NULL;\n"@,
{
    let token = "{{prefix}}"@;
    reveal_strlit("{{prefix}}");
    reveal_strlit("CREATE INDEX ");
    reveal_strlit("_jobs_stale ON ");
    reveal_strlit("_jobs (claim_expires_at) WHERE status = 'claimed';\nCREATE INDEX ");
    reveal_strlit("_jobs_visible ON ");
    reveal_strlit("_jobs (kind, visible_at) WHERE status = 'pending';\nCREATE INDEX ");
    reveal_strlit("_jobs_finished ON ");
    reveal_strlit("_jobs (finished_at) WHERE finished_at IS NOT NULL;\n");
    reveal_strlit("CREATE INDEX {{prefix}}_jobs_stale ON {{prefix}}_jobs (claim_expires_at) WHERE status = 'claimed';\nCREATE INDEX {{prefix}}_jobs_visible ON {{prefix}}_jobs (kind, visible_at) WHERE status = 'pending';\nCREATE INDEX {{prefix}}_jobs_finished ON {{prefix}}_jobs (finished_at) WHERE finished_at IS NOT NULL;\n");
    let rest6 = "_jobs (finished_at) WHERE finished_at IS NOT NULL;\n"@;
    let rest5 = "_jobs_finished ON "@ + token + rest6;
    let rest4 = "_jobs (kind, visible_at) WHERE status = 'pending';\nCREATE INDEX "@ + token + rest5;
    let rest3 = "_jobs_visible ON "@ + token + rest4;
    let rest2 = "_jobs (claim_expires_at) WHERE status = 'claimed';\nCREATE INDEX "@ + token + rest3;
    let rest1 = "_jobs_stale ON "@ + token + rest2;
    let rest0 = "CREATE INDEX "@ + token + rest1;
    assert(V3_INDEX_TUNING@ =~= rest0);
    lemma_token_replaced("CREATE INDEX "@, rest1, token, prefix);
    lemma_token_replaced("_jobs_stale ON "@, rest2, token, prefix);
    lemma_token_replaced("_jobs (claim_expires_at) WHERE status = 'claimed';\nCREATE INDEX "@, rest3, token, prefix);
    lemma_token_replaced("_jobs_visible ON "@, rest4, token, prefix);
    lemma_token_replaced("_jobs (kind, visible_at) WHERE status = 'pending';\nCREATE INDEX "@, rest5, token, prefix);
    lemma_token_replaced("_jobs_finished ON "@, rest6, token, prefix);
    lemma_nothing_replaced(rest6, token, prefix);
    assert(replaced(rest0, token, prefix) =~= "CREATE INDEX "@ + prefix + "_jobs_stale ON "@ + prefix + "_jobs (claim_expires_at) WHERE status = 'claimed';\nCREATE INDEX "@ + prefix + "_jobs_visible ON "@ + prefix + "_jobs (kind, visible_at) WHERE status = 'pending';\nCREATE INDEX "@ + prefix + "_jobs_finished ON "@ + prefix + "_jobs (finished_at) WHERE finished_at IS NOT NULL;\n"@);
}

/// The later migrations index a prefix's own table by what the queue looks it up by:
/// history by creation time and identity, both descending; stale claims by the end of
/// their lease; the next eligible job by kind and time; and cleanups by the time of
/// finishing.
pub proof fn indexes_serve_the_queries(prefix: &str, r: Vec<RenderedMigration>)
    requires
        call_ensures(rendered_migrations, (prefix,), r),
    ensures
        r@.len() == 3,
        r@[1].body@ == "CREATE INDEX "@ + prefix@ + "_jobs_history ON "@ + prefix@ + "_jobs (created_at DESC, id DESC);\n"@,
        r@[2].body@ == "CREATE INDEX "@ + prefix@ + "_jobs_stale ON "@ + prefix@ + "_jobs (claim_expires_at) WHERE status = 'claimed';\nCREATE INDEX "@ + prefix@ + "_jobs_visible ON "@ + prefix@ + "_jobs (kind, visible_at) WHERE status = 'pending';\nCREATE INDEX "@ + prefix@ + "_jobs_finished ON "@ + prefix@ + "_jobs (finished_at) WHERE finished_at IS NOT NULL;\n"@,
{
    lemma_cursor_rendered(prefix@);
    lemma_tuning_rendered(prefix@);
}

} // verus!
