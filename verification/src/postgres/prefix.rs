//! Prefix validation, the names built from a prefix, and the advisory-lock key.
use crate::error::{debug_form, quoted, Error, ErrorView};
use crate::text::{chars_of, decimal, decimal_text, joined};
use vstd::prelude::*;
use vstd::utf8::{encode_utf8, is_ascii_chars};

verus! {

/// The length of the longest suffix appended to a prefix,
/// `_refinery_schema_history`. A prefix plus this suffix must fit PostgreSQL's
/// 63-character identifier limit.
pub const LONGEST_SUFFIX_LEN: usize = 24;

/// The longest accepted prefix.
pub const MAX_PREFIX_LEN: usize = 39;

/// Whether a character is a lowercase ASCII letter.
pub open spec fn is_lower(c: char) -> bool {
    'a' <= c && c <= 'z'
}

/// Whether a character may occur in a prefix.
pub open spec fn is_prefix_char(c: char) -> bool {
    is_lower(c) || ('0' <= c && c <= '9') || c == '_'
}

/// Whether a prefix is a safe, short SQL identifier fragment: it starts with a
/// lowercase letter, contains only `[a-z0-9_]`, and is at most 39 characters.
pub open spec fn safe_prefix(prefix: Seq<char>) -> bool {
    &&& 0 < prefix.len() <= 39
    &&& is_lower(prefix[0])
    &&& forall|i: int| 0 <= i < prefix.len() ==> is_prefix_char(#[trigger] prefix[i])
}

/// What makes a prefix unusable.
#[derive(Debug, Clone, Copy, PartialEq, Eq, Structural)]
pub enum PrefixProblem {
    /// It is empty.
    Empty,
    /// It is longer than the limit, by bytes.
    TooLong(usize),
    /// It does not start with a lowercase ASCII letter.
    BadStart,
    /// It contains this character, the first one that is not permitted.
    BadChar(char),
}

/// The first problem with a prefix, in the order they are looked for.
pub open spec fn first_problem(prefix: Seq<char>) -> Option<PrefixProblem> {
    if prefix.len() == 0 {
        Some(PrefixProblem::Empty)
    } else if encode_utf8(prefix).len() > 39 {
        Some(PrefixProblem::TooLong(encode_utf8(prefix).len() as usize))
    } else if !is_lower(prefix[0]) {
        Some(PrefixProblem::BadStart)
    } else if exists|i: int| 0 <= i < prefix.len() && !is_prefix_char(#[trigger] prefix[i]) {
        Some(PrefixProblem::BadChar(first_bad_char(prefix)))
    } else {
        None
    }
}

/// The first character that is not permitted.
pub open spec fn first_bad_char(prefix: Seq<char>) -> char
    decreases prefix.len(),
{
    if prefix.len() == 0 {
        arbitrary()
    } else if !is_prefix_char(prefix[0]) {
        prefix[0]
    } else {
        first_bad_char(prefix.drop_first())
    }
}

proof fn lemma_first_bad_char(prefix: Seq<char>, at: int)
    requires
        0 <= at < prefix.len(),
        !is_prefix_char(prefix[at]),
        forall|j: int| 0 <= j < at ==> is_prefix_char(#[trigger] prefix[j]),
    ensures
        first_bad_char(prefix) == prefix[at],
    decreases at,
{
    if at > 0 {
        assert(is_prefix_char(prefix[0]));
        let rest = prefix.drop_first();
        assert forall|j: int| 0 <= j < at - 1 implies is_prefix_char(#[trigger] rest[j]) by {
            assert(rest[j] == prefix[j + 1]);
        }
        lemma_first_bad_char(rest, at - 1);
    }
}

proof fn lemma_permitted_is_ascii(prefix: Seq<char>)
    requires
        forall|i: int| 0 <= i < prefix.len() ==> is_prefix_char(#[trigger] prefix[i]),
    ensures
        is_ascii_chars(prefix),
        encode_utf8(prefix).len() == prefix.len(),
{
    assert(is_ascii_chars(prefix));
    vstd::utf8::is_ascii_chars_encode_utf8(prefix);
}

/// A prefix has no problem exactly when it is safe.
pub proof fn safe_prefixes_have_no_problem(prefix: Seq<char>)
    ensures
        first_problem(prefix) is None <==> safe_prefix(prefix),
{
    if forall|i: int| 0 <= i < prefix.len() ==> is_prefix_char(#[trigger] prefix[i]) {
        lemma_permitted_is_ascii(prefix);
    }
}

/// Find what makes a prefix unusable.
pub fn prefix_problem(prefix: &str) -> (r: Option<PrefixProblem>)
    ensures
        r == first_problem(prefix@),
{
    if prefix.is_empty() {
        return Some(PrefixProblem::Empty);
    }
    let length: usize = prefix.as_bytes().len();
    if length > MAX_PREFIX_LEN {
        return Some(PrefixProblem::TooLong(length));
    }
    let chars = chars_of(prefix);
    let first = chars[0];
    if !('a' <= first && first <= 'z') {
        return Some(PrefixProblem::BadStart);
    }
    let mut i: usize = 0;
    while i < chars.len()
        invariant
            i <= chars@.len(),
            forall|j: int| 0 <= j < i ==> is_prefix_char(#[trigger] chars@[j]),
            chars@ == prefix@,
            prefix@.len() > 0,
            encode_utf8(prefix@).len() <= 39,
            is_lower(prefix@[0]),
        decreases chars@.len() - i,
    {
        let c = chars[i];
        if !(('a' <= c && c <= 'z') || ('0' <= c && c <= '9') || c == '_') {
            proof {
                lemma_first_bad_char(prefix@, i as int);
                assert(!is_prefix_char(prefix@[i as int]));
            }
            return Some(PrefixProblem::BadChar(c));
        }
        i += 1;
    }
    None
}

/// The text of a prefix problem, given the quoted prefix and the quoted character
/// it may name.
pub open spec fn problem_text(
    problem: PrefixProblem,
    quoted_prefix: Seq<char>,
    quoted_char: Seq<char>,
) -> Seq<char> {
    match problem {
        PrefixProblem::Empty => "table prefix must not be empty"@,
        PrefixProblem::TooLong(length) => "table prefix "@ + quoted_prefix + " is too long ("@
            + decimal(length as nat)
            + " chars); at most 39 are allowed so every generated identifier stays within PostgreSQL's 63-character limit"@,
        PrefixProblem::BadStart => "table prefix "@ + quoted_prefix
            + " must start with a lowercase ASCII letter"@,
        PrefixProblem::BadChar(_) => "table prefix "@ + quoted_prefix
            + " contains the disallowed character "@ + quoted_char
            + "; only [a-z0-9_] are permitted"@,
    }
}

/// Describe a prefix problem, given the quoted prefix and the quoted character it
/// may name.
pub fn describe_problem(
    problem: PrefixProblem,
    quoted_prefix: &str,
    quoted_char: &str,
) -> (r: String)
    ensures
        r@ == problem_text(problem, quoted_prefix@, quoted_char@),
{
    match problem {
        PrefixProblem::Empty => "table prefix must not be empty".to_owned(),
        PrefixProblem::TooLong(length) => {
            let mut text = joined("table prefix ", quoted_prefix);
            text.append(" is too long (");
            text.append(decimal_text(length as u64).as_str());
            text.append(
                " chars); at most 39 are allowed so every generated identifier stays within PostgreSQL's 63-character limit",
            );
            text
        },
        PrefixProblem::BadStart => {
            let mut text = joined("table prefix ", quoted_prefix);
            text.append(" must start with a lowercase ASCII letter");
            text
        },
        PrefixProblem::BadChar(_) => {
            let mut text = joined("table prefix ", quoted_prefix);
            text.append(" contains the disallowed character ");
            text.append(quoted_char);
            text.append("; only [a-z0-9_] are permitted");
            text
        },
    }
}

/// The quoted, escaped form the standard library's `Debug` gives a character.
pub uninterp spec fn debug_form_of_char(c: char) -> Seq<char>;

/// Quotes a character: the `Debug` formatting of `char`.
///
/// The result depends on the character alone; its escaping rules are left unstated.
#[verifier::external_body]
fn quoted_char(c: char) -> (r: String)
    ensures
        r@ == debug_form_of_char(c),
{
    format!("{c:?}")
}

/// The error an unsafe prefix is refused with: a configuration error that shows the
/// prefix, and the character at fault where the problem is one character.
pub open spec fn prefix_refusal(prefix: Seq<char>) -> ErrorView
    recommends
        !safe_prefix(prefix),
{
    let problem = first_problem(prefix)->Some_0;
    ErrorView::Config(
        problem_text(
            problem,
            debug_form(prefix),
            match problem {
                PrefixProblem::BadChar(c) => debug_form_of_char(c),
                _ => Seq::empty(),
            },
        ),
    )
}

/// Validate a table-name prefix, rejecting anything that could break identifier
/// generation or smuggle SQL into a name.
pub fn validate_prefix(prefix: &str) -> (r: Result<(), Error>)
    ensures
        r is Ok <==> safe_prefix(prefix@),
        r matches Err(error) ==> error@ == prefix_refusal(prefix@),
{
    proof {
        safe_prefixes_have_no_problem(prefix@);
    }
    match prefix_problem(prefix) {
        None => Ok(()),
        Some(problem) => {
            let shown = quoted(prefix);
            let bad = match problem {
                PrefixProblem::BadChar(c) => quoted_char(c),
                _ => String::new(),
            };
            Err(Error::Config(describe_problem(problem, shown.as_str(), bad.as_str())))
        },
    }
}

/// A validated table-name prefix.
#[derive(Debug)]
pub struct TablePrefix {
    text: String,
}

impl View for TablePrefix {
    type V = Seq<char>;

    closed spec fn view(&self) -> Seq<char> {
        self.text@
    }
}

impl TablePrefix {
    #[verifier::type_invariant]
    spec fn validated(self) -> bool {
        safe_prefix(self.text@)
    }

    /// Validate a prefix.
    pub fn new(prefix: &str) -> (r: Result<TablePrefix, Error>)
        ensures
            r is Ok <==> safe_prefix(prefix@),
            r matches Ok(accepted) ==> accepted@ == prefix@,
            r matches Err(error) ==> error@ == prefix_refusal(prefix@),
    {
        match validate_prefix(prefix) {
            Ok(_) => Ok(TablePrefix { text: prefix.to_owned() }),
            Err(error) => Err(error),
        }
    }

    /// The prefix's text, always a safe one.
    pub fn as_str(&self) -> (r: &str)
        ensures
            r@ == self@,
            safe_prefix(r@),
    {
        proof {
            use_type_invariant(self);
        }
        self.text.as_str()
    }
}

impl Clone for TablePrefix {
    fn clone(&self) -> (r: TablePrefix)
        ensures
            r@ == self@,
    {
        proof {
            use_type_invariant(self);
        }
        TablePrefix { text: self.text.clone() }
    }
}

/// The `NOTIFY`/`LISTEN` channel of a prefix.
pub open spec fn channel_name(prefix: Seq<char>) -> Seq<char> {
    prefix + "_jobs"@
}

/// The migration-history table of a prefix.
pub open spec fn history_table_name(prefix: Seq<char>) -> Seq<char> {
    prefix + "_refinery_schema_history"@
}

/// The `NOTIFY`/`LISTEN` channel for this prefix.
pub fn channel(prefix: &str) -> (r: String)
    ensures
        r@ == channel_name(prefix@),
{
    joined(prefix, "_jobs")
}

/// The migration-history table for this prefix.
pub fn history_table(prefix: &str) -> (r: String)
    ensures
        r@ == history_table_name(prefix@),
{
    joined(prefix, "_refinery_schema_history")
}

/// Whether a text is an identifier PostgreSQL takes unquoted and does not truncate.
pub open spec fn safe_identifier(name: Seq<char>) -> bool {
    &&& 0 < name.len() <= 63
    &&& encode_utf8(name).len() == name.len()
    &&& is_lower(name[0])
    &&& forall|i: int| 0 <= i < name.len() ==> is_prefix_char(#[trigger] name[i])
}

/// Every name built from an accepted prefix is a safe identifier that PostgreSQL
/// does not truncate: the tables, the channel, and the history table.
pub proof fn generated_names_are_safe(prefix: Seq<char>)
    requires
        safe_prefix(prefix),
    ensures
        safe_identifier(channel_name(prefix)),
        safe_identifier(prefix + "_journal"@),
        safe_identifier(history_table_name(prefix)),
{
    reveal_strlit("_jobs");
    reveal_strlit("_journal");
    reveal_strlit("_refinery_schema_history");
    lemma_suffixed_is_safe(prefix, "_jobs"@);
    lemma_suffixed_is_safe(prefix, "_journal"@);
    lemma_suffixed_is_safe(prefix, "_refinery_schema_history"@);
}

proof fn lemma_suffixed_is_safe(prefix: Seq<char>, suffix: Seq<char>)
    requires
        safe_prefix(prefix),
        suffix.len() <= 24,
        forall|i: int| 0 <= i < suffix.len() ==> is_prefix_char(#[trigger] suffix[i]),
    ensures
        safe_identifier(prefix + suffix),
{
    let name = prefix + suffix;
    assert forall|i: int| 0 <= i < name.len() implies is_prefix_char(#[trigger] name[i]) by {
        if i < prefix.len() {
            assert(name[i] == prefix[i]);
        } else {
            assert(name[i] == suffix[i - prefix.len()]);
        }
    }
    lemma_permitted_is_ascii(name);
}

/// Different prefixes name different channels and history tables, so independent
/// queues share a database without touching each other's tables.
pub proof fn prefixes_do_not_collide(a: Seq<char>, b: Seq<char>)
    requires
        a != b,
    ensures
        channel_name(a) != channel_name(b),
        history_table_name(a) != history_table_name(b),
{
    if channel_name(a) == channel_name(b) {
        assert(channel_name(a).take(channel_name(a).len() - "_jobs"@.len()) =~= a);
        assert(channel_name(b).take(channel_name(b).len() - "_jobs"@.len()) =~= b);
    }
    if history_table_name(a) == history_table_name(b) {
        let n = history_table_name(a).len() - "_refinery_schema_history"@.len();
        assert(history_table_name(a).take(n) =~= a);
        assert(history_table_name(b).take(n) =~= b);
    }
}

/// The FNV-1a hash of bytes.
pub open spec fn fnv1a(bytes: Seq<u8>) -> u64
    decreases bytes.len(),
{
    if bytes.len() == 0 {
        0xcbf2_9ce4_8422_2325
    } else {
        vstd::wrapping::u64_specs::wrapping_mul(
            fnv1a(bytes.drop_last()) ^ (bytes.last() as u64),
            0x0000_0100_0000_01b3,
        )
    }
}

/// The signed value with the same bits.
pub open spec fn as_signed(bits: u64) -> int {
    if bits <= i64::MAX {
        bits as int
    } else {
        bits - 0x1_0000_0000_0000_0000
    }
}

/// Derive a stable advisory-lock key from the prefix via FNV-1a.
///
/// Different prefixes should map to different keys so independent queues do not
/// serialize against each other; the same prefix maps to the same key across
/// processes, which a content hash guarantees where a process-seeded hasher would
/// not.
pub fn advisory_lock_id(prefix: &str) -> (r: i64)
    ensures
        r == as_signed(fnv1a(encode_utf8(prefix@))),
{
    let bytes = prefix.as_bytes();
    let mut hash: u64 = 0xcbf2_9ce4_8422_2325;
    let mut i: usize = 0;
    assert(bytes@.take(0) =~= Seq::<u8>::empty());
    while i < bytes.len()
        invariant
            i <= bytes@.len(),
            bytes@ == encode_utf8(prefix@),
            hash == fnv1a(bytes@.take(i as int)),
        decreases bytes@.len() - i,
    {
        assert(bytes@.take(i + 1).drop_last() =~= bytes@.take(i as int));
        hash = hash ^ (bytes[i] as u64);
        hash = hash.wrapping_mul(0x0000_0100_0000_01b3);
        i += 1;
    }
    assert(bytes@.take(i as int) =~= bytes@);
    // Postgres advisory-lock keys are signed 64-bit; reinterpret the bits.
    if hash <= i64::MAX as u64 {
        hash as i64
    } else {
        let low: u64 = hash - 0x8000_0000_0000_0000;
        i64::MIN + low as i64
    }
}

/// Multiplying by the FNV prime loses nothing: its inverse modulo `2^64` undoes it.
proof fn lemma_prime_is_invertible(x: u64, y: u64)
    requires
        vstd::wrapping::u64_specs::wrapping_mul(x, 0x0000_0100_0000_01b3)
            == vstd::wrapping::u64_specs::wrapping_mul(y, 0x0000_0100_0000_01b3),
    ensures
        x == y,
{
    let prime: int = 0x0000_0100_0000_01b3;
    let inverse: int = 0xce96_5057_aff6_957b;
    let range: int = 0x1_0000_0000_0000_0000;
    assert(prime * inverse == 1 + 887285111055 * range);
    let a = (x as int * prime) / range;
    let b = (y as int * prime) / range;
    let d = x as int - y as int;
    assert(d * prime == (a - b) * range) by {
        vstd::arithmetic::div_mod::lemma_fundamental_div_mod(x as int * prime, range);
        vstd::arithmetic::div_mod::lemma_fundamental_div_mod(y as int * prime, range);
    }
    let m = (a - b) * inverse - d * 887285111055;
    assert(d == m * range) by {
        assert(d * prime * inverse == (a - b) * range * inverse);
        assert(d * prime * inverse == d + d * 887285111055 * range);
    }
    assert(m == 0);
}

proof fn lemma_last_byte_tells_apart(bytes: Seq<u8>, a: u8, b: u8)
    requires
        a != b,
    ensures
        fnv1a(bytes.push(a)) != fnv1a(bytes.push(b)),
{
    assert(bytes.push(a).drop_last() =~= bytes);
    assert(bytes.push(b).drop_last() =~= bytes);
    let h = fnv1a(bytes);
    let x = a as u64;
    let y = b as u64;
    assert(x != y ==> h ^ x != h ^ y) by (bit_vector);
    if fnv1a(bytes.push(a)) == fnv1a(bytes.push(b)) {
        lemma_prime_is_invertible(h ^ x, h ^ y);
    }
}

/// Prefixes that differ only in their last character take different migration locks.
pub proof fn neighbouring_prefixes_lock_apart(stem: Seq<char>, a: char, b: char)
    requires
        safe_prefix(stem.push(a)),
        safe_prefix(stem.push(b)),
        a != b,
    ensures
        as_signed(fnv1a(encode_utf8(stem.push(a)))) != as_signed(fnv1a(encode_utf8(stem.push(b)))),
{
    let p = stem.push(a);
    let q = stem.push(b);
    lemma_permitted_is_ascii(p);
    lemma_permitted_is_ascii(q);
    vstd::utf8::is_ascii_chars_encode_utf8(p);
    vstd::utf8::is_ascii_chars_encode_utf8(q);
    let n = stem.len() as int;
    let bytes = encode_utf8(p).take(n);
    assert(p[n] == a && q[n] == b);
    assert(encode_utf8(p)[n] == a as u8 && encode_utf8(q)[n] == b as u8);
    assert forall|i: int| 0 <= i < n implies encode_utf8(p)[i] == encode_utf8(q)[i] by {
        assert(p[i] == stem[i] && q[i] == stem[i]);
    }
    assert(encode_utf8(p) =~= bytes.push(a as u8));
    assert(encode_utf8(q) =~= bytes.push(b as u8));
    assert(is_prefix_char(p[n]) && is_prefix_char(q[n]));
    lemma_last_byte_tells_apart(bytes, a as u8, b as u8);
}

/// A prefix is accepted exactly when the longest name built from it is an identifier that
/// PostgreSQL takes unquoted and does not truncate.
pub proof fn accepted_prefixes_name_identifiers(prefix: &str, r: Result<TablePrefix, Error>)
    requires
        call_ensures(TablePrefix::new, (prefix,), r),
    ensures
        r is Ok <==> safe_identifier(history_table_name(prefix@)),
        history_table_name(prefix@) == prefix@ + "_refinery_schema_history"@,
{
    let suffix = "_refinery_schema_history"@;
    let name = history_table_name(prefix@);
    reveal_strlit("_refinery_schema_history");
    if safe_prefix(prefix@) {
        generated_names_are_safe(prefix@);
    }
    if safe_identifier(name) {
        if prefix@.len() == 0 {
            assert(name[0] == suffix[0]);
        }
        assert(name[0] == prefix@[0]);
        assert forall|i: int| 0 <= i < prefix@.len() implies is_prefix_char(
            #[trigger] prefix@[i],
        ) by {
            assert(name[i] == prefix@[i]);
        }
    }
}

} // verus!
