//! The task-authoring surface: the [`Task`] trait a consuming project implements,
//! plus the small value types it uses.
//!
//! A unit of work is one struct that serves as both the payload and the identity
//! of a job. It is touched at two sites: a **producer** enqueues it (needs only
//! [`Task`]: identity and enqueue-time policy) and a **worker** runs it (needs a
//! handler: the execution logic against the worker's shared state). Splitting the
//! two lets a producer binary depend on neither the handler nor its runtime
//! dependencies.
use crate::backoff::Backoff;
use crate::context::JournalEntry;
use crate::ids::{id_text, ulid_text};
use crate::instants::Duration;
use crate::text::{decimal, decimal_text, signed_decimal, signed_decimal_text};
use vstd::prelude::*;
use vstd::std_specs::convert::FromSpecImpl;

verus! {

/// A job's scheduling priority tier.
///
/// Three fixed tiers, defaulting to [`Priority::Normal`]. The claim orders by
/// priority then age, so `High` is served before `Normal` before `Low`, subject
/// to the worker's anti-starvation rotation.
#[derive(Debug, Clone, Copy, PartialEq, Eq, Structural, Hash)]
pub enum Priority {
    /// Served first.
    High,
    /// The default tier.
    Normal,
    /// Served last.
    Low,
}

impl Default for Priority {
    fn default() -> (r: Priority)
        ensures
            r == Priority::Normal,
    {
        Priority::Normal
    }
}

impl Priority {
    /// The numeric tier: 0 high, 1 normal, 2 low.
    pub open spec fn tier(self) -> i16 {
        match self {
            Priority::High => 0i16,
            Priority::Normal => 1i16,
            Priority::Low => 2i16,
        }
    }

    /// The numeric tier stored in the `priority` column: 0 high, 1 normal, 2 low.
    ///
    /// The ordering is deliberate: a plain `ORDER BY priority ASC` puts `High`
    /// first.
    pub fn as_smallint(self) -> (r: i16)
        ensures
            r == self.tier(),
    {
        match self {
            Priority::High => 0,
            Priority::Normal => 1,
            Priority::Low => 2,
        }
    }

    /// Parse the numeric tier read from storage.
    pub fn from_smallint(value: i16) -> (r: Option<Priority>)
        ensures
            r is Some <==> 0 <= value <= 2,
            r matches Some(priority) ==> priority.tier() == value,
    {
        match value {
            0 => Some(Priority::High),
            1 => Some(Priority::Normal),
            2 => Some(Priority::Low),
            _ => None,
        }
    }
}

/// Distinct tiers have distinct numbers, so a number read from storage names one
/// tier, and a more urgent tier has the smaller number.
pub proof fn tiers_are_ordered_and_distinct(a: Priority, b: Priority)
    ensures
        a.tier() == b.tier() ==> a == b,
        0 <= a.tier() <= 2,
        Priority::High.tier() < Priority::Normal.tier() < Priority::Low.tier(),
{
}

/// A candidacy key for deduplication.
///
/// Two pending jobs with the same `(KIND, DedupKey)` are collision candidates,
/// found through an index. Returning `None` from [`Task::dedup_key`] opts a task
/// out of coalescing entirely. Build one from any string-like or identifier value
/// via [`From`].
#[derive(Debug, Clone, PartialEq, Eq, Hash)]
pub struct DedupKey(String);

impl View for DedupKey {
    type V = Seq<char>;

    closed spec fn view(&self) -> Seq<char> {
        self.0@
    }
}

impl DedupKey {
    /// Build a key from a text.
    pub fn new(key: &str) -> (r: DedupKey)
        ensures
            r@ == key@,
    {
        DedupKey(key.to_owned())
    }

    /// The key's string form, as stored in the `dedup_key` column.
    pub fn as_str(&self) -> (r: &str)
        ensures
            r@ == self@,
    {
        self.0.as_str()
    }

    /// Consume the key, yielding its owned string.
    pub fn into_string(self) -> (r: String)
        ensures
            r@ == self@,
    {
        self.0
    }
}

impl From<String> for DedupKey {
    fn from(value: String) -> (r: DedupKey)
        ensures
            r@ == value@,
    {
        DedupKey(value)
    }
}

impl FromSpecImpl<String> for DedupKey {
    open spec fn obeys_from_spec() -> bool {
        false
    }

    open spec fn from_spec(value: String) -> DedupKey {
        arbitrary()
    }
}

impl From<&str> for DedupKey {
    fn from(value: &str) -> (r: DedupKey)
        ensures
            r@ == value@,
    {
        DedupKey(value.to_owned())
    }
}

impl FromSpecImpl<&str> for DedupKey {
    open spec fn obeys_from_spec() -> bool {
        false
    }

    open spec fn from_spec(value: &str) -> DedupKey {
        arbitrary()
    }
}

impl From<ulid::Ulid> for DedupKey {
    fn from(value: ulid::Ulid) -> (r: DedupKey)
        ensures
            r@ == ulid_text(value.0),
    {
        DedupKey(id_text(value))
    }
}

impl FromSpecImpl<ulid::Ulid> for DedupKey {
    open spec fn obeys_from_spec() -> bool {
        false
    }

    open spec fn from_spec(value: ulid::Ulid) -> DedupKey {
        arbitrary()
    }
}

impl From<u64> for DedupKey {
    fn from(value: u64) -> (r: DedupKey)
        ensures
            r@ == decimal(value as nat),
    {
        DedupKey(decimal_text(value))
    }
}

impl FromSpecImpl<u64> for DedupKey {
    open spec fn obeys_from_spec() -> bool {
        false
    }

    open spec fn from_spec(value: u64) -> DedupKey {
        arbitrary()
    }
}

impl From<i64> for DedupKey {
    fn from(value: i64) -> (r: DedupKey)
        ensures
            r@ == signed_decimal(value as int),
    {
        DedupKey(signed_decimal_text(value))
    }
}

impl FromSpecImpl<i64> for DedupKey {
    open spec fn obeys_from_spec() -> bool {
        false
    }

    open spec fn from_spec(value: i64) -> DedupKey {
        arbitrary()
    }
}

/// The existing pending job that a [`Task::merge`] decision sees.
///
/// Carries the full state of the colliding pending job, so the decision is
/// informed by content and history and can continue in-progress work.
pub struct Pending<T: Task> {
    payload: T,
    carry: T::Carry,
    run_count: u32,
    journal: Vec<JournalEntry>,
}

impl<T: Task> Pending<T> {
    /// The existing payload.
    pub closed spec fn held_payload(self) -> T {
        self.payload
    }

    /// The existing carried state.
    pub closed spec fn held_carry(self) -> T::Carry {
        self.carry
    }

    /// How many times the existing job has run.
    pub closed spec fn runs(self) -> u32 {
        self.run_count
    }

    /// The existing journal.
    pub closed spec fn entries(self) -> Seq<JournalEntry> {
        self.journal@
    }

    /// Build a view of an existing pending job. Used by the enqueue dedup flow.
    pub fn new(
        payload: T,
        carry: T::Carry,
        run_count: u32,
        journal: Vec<JournalEntry>,
    ) -> (r: Pending<T>)
        ensures
            r.held_payload() == payload,
            r.held_carry() == carry,
            r.runs() == run_count,
            r.entries() == journal@,
    {
        Pending { payload, carry, run_count, journal }
    }

    /// The existing job's deserialized payload.
    pub fn payload(&self) -> (r: &T)
        ensures
            *r == self.held_payload(),
    {
        &self.payload
    }

    /// The existing job's carried state.
    pub fn carry(&self) -> (r: &T::Carry)
        ensures
            *r == self.held_carry(),
    {
        &self.carry
    }

    /// How many times the existing job has already run.
    pub fn run_count(&self) -> (r: u32)
        ensures
            r == self.runs(),
    {
        self.run_count
    }

    /// The existing job's journal so far.
    pub fn journal(&self) -> (r: &[JournalEntry])
        ensures
            r@ == self.entries(),
    {
        self.journal.as_slice()
    }
}

/// The decision returned by [`Task::merge`] when an enqueue collides with a
/// pending job sharing its `(KIND, dedup_key)`.
pub enum Merge<T: Task> {
    /// The incoming task is redundant; leave the existing job untouched.
    Keep,
    /// Replace the existing payload with the incoming one; reset carry to default.
    Replace,
    /// Replace the existing job with a computed payload and carry, continuing its
    /// work.
    With {
        /// The payload the surviving job should carry.
        task: T,
        /// The carry the surviving job should continue from.
        carry: T::Carry,
    },
    /// Not a duplicate after all; enqueue as a new, independent row.
    Independent,
}

/// Identity and enqueue-time policy for a unit of work.
///
/// State-free, so a producer that never runs the work can implement and use it
/// without the worker's dependencies. Implemented directly on the payload struct.
pub trait Task: Sized {
    /// A stable discriminator stored alongside the payload and used to route the
    /// job back to its handler. Must be unique per task type and stable across
    /// releases.
    const KIND: &'static str;

    /// State carried between runs of the same job, also visible to
    /// [`merge`](Task::merge). Use `()` for tasks that keep nothing.
    type Carry;

    /// The scheduling priority of the work. Defaults to [`Priority::Normal`].
    fn priority(&self) -> (r: Priority)
        default_ensures
            r == Priority::Normal,
    {
        Priority::Normal
    }

    /// The deduplication candidacy key. `None` (the default) never coalesces.
    fn dedup_key(&self) -> (r: Option<DedupKey>)
        default_ensures
            r is None,
    {
        None
    }

    /// Decide what happens when a pending job with the same `(KIND, dedup_key)`
    /// already exists. Called only on a collision; the default replaces the
    /// existing payload.
    fn merge(&self, existing: &Pending<Self>) -> (r: Merge<Self>)
        default_ensures
            r is Replace,
    {
        Merge::Replace
    }

    /// A per-task override of the retry backoff. `None` (the default) uses the
    /// worker default.
    fn backoff(&self) -> (r: Option<Backoff>)
        default_ensures
            r is None,
    {
        None
    }

    /// A per-task override of the claim lease. `None` (the default) uses the
    /// worker default. A task known to run long can request a longer lease so a
    /// healthy worker is not reclaimed mid-run.
    fn lease(&self) -> (r: Option<Duration>)
        default_ensures
            r is None,
    {
        None
    }
}

/// Different identities make different deduplication keys.
pub proof fn different_ids_make_different_keys(
    a: ulid::Ulid,
    b: ulid::Ulid,
    key_of_a: DedupKey,
    key_of_b: DedupKey,
)
    requires
        call_ensures(<DedupKey as From<ulid::Ulid>>::from, (a,), key_of_a),
        call_ensures(<DedupKey as From<ulid::Ulid>>::from, (b,), key_of_b),
    ensures
        key_of_a@ == key_of_b@ <==> a == b,
{
    crate::ids::id_text_reads_back(a.0);
    crate::ids::id_text_reads_back(b.0);
}

/// Different numbers make different deduplication keys.
pub proof fn different_numbers_make_different_keys(
    a: u64,
    b: u64,
    key_of_a: DedupKey,
    key_of_b: DedupKey,
)
    requires
        call_ensures(<DedupKey as From<u64>>::from, (a,), key_of_a),
        call_ensures(<DedupKey as From<u64>>::from, (b,), key_of_b),
    ensures
        key_of_a@ == key_of_b@ <==> a == b,
{
    crate::postgres::migrations::decimal_reads_back(a);
    crate::postgres::migrations::decimal_reads_back(b);
}

/// A key built from a text is that text, and reads as it was built.
pub proof fn keys_are_their_text(
    text: &str,
    key: DedupKey,
    shown: &str,
    owned: String,
)
    requires
        call_ensures(DedupKey::new, (text,), key),
        call_ensures(DedupKey::as_str, (&key,), shown),
        call_ensures(DedupKey::into_string, (key,), owned),
    ensures
        shown@ == text@,
        owned@ == text@,
{
}

/// Different signed numbers make different deduplication keys.
pub proof fn different_signed_numbers_make_different_keys(
    a: i64,
    b: i64,
    key_of_a: DedupKey,
    key_of_b: DedupKey,
)
    requires
        call_ensures(<DedupKey as From<i64>>::from, (a,), key_of_a),
        call_ensures(<DedupKey as From<i64>>::from, (b,), key_of_b),
    ensures
        key_of_a@ == key_of_b@ <==> a == b,
{
    let x = if a < 0 {
        -(a as int)
    } else {
        a as int
    };
    let y = if b < 0 {
        -(b as int)
    } else {
        b as int
    };
    crate::postgres::migrations::decimal_reads_back(x as u64);
    crate::postgres::migrations::decimal_reads_back(y as u64);
    let p = decimal(x as nat);
    let q = decimal(y as nat);
    if key_of_a@ == key_of_b@ {
        if a < 0 && b < 0 {
            assert((seq!['-'] + p).skip(1) =~= p);
            assert((seq!['-'] + q).skip(1) =~= q);
        } else if a < 0 {
            assert(q[0] == (seq!['-'] + p)[0]);
        } else if b < 0 {
            assert(p[0] == (seq!['-'] + q)[0]);
        }
    }
}

} // verus!
