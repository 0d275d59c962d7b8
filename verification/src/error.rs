//! Public error types for venturi's queue and storage operations.
//!
//! Everything a producer or worker call can return surfaces as [`Error`], so
//! consumers can match on concrete failure modes. Handler results use a separate
//! [`crate::outcome::TaskError`] (the execution side); this type is the
//! infrastructure side: pools, the driver, migrations, and serialization.
use crate::text::{decimal, decimal_text, joined, signed_decimal, signed_decimal_text};
use vstd::prelude::*;

verus! {

/// The error type returned by queue, worker, and storage operations.
///
/// A failure of the driver, the pool, the migration runner, or the JSON layer
/// carries the text that layer reported.
#[derive(Debug, Clone, PartialEq, Eq)]
#[non_exhaustive]
pub enum Error {
    /// A database statement failed at the driver level.
    Database(String),
    /// A connection could not be obtained from the pool.
    Pool(String),
    /// The connection pool could not be built from the given configuration.
    PoolBuild(String),
    /// Applying the schema migrations failed.
    Migration(String),
    /// A task payload or carried state could not be (de)serialized to JSON.
    Serialization(String),
    /// A stored job referenced a `kind` that is not registered with this worker.
    UnknownKind {
        /// The unregistered discriminator read from storage.
        kind: String,
    },
    /// A configuration value was invalid (for example an empty table prefix).
    Config(String),
    /// A job was enqueued with a priority tier outside the supported `0..=2`
    /// range. The typed queue path cannot produce this; it guards direct store
    /// users who build a `NewJob` by hand.
    InvalidPriority {
        /// The out-of-range tier that was supplied.
        priority: i16,
    },
    /// A run number exceeded the signed `integer` range the storage column holds.
    /// Run numbers originate from the database and only increment, so this cannot
    /// arise on the normal path; it guards the storage boundary against a
    /// hand-built run number above `i32::MAX` rather than letting it wrap to a
    /// negative on the way to the database.
    RunNumberOutOfRange {
        /// The run number that did not fit the storage column.
        run_no: u32,
    },
}

/// An [`Error`] with its texts as character sequences.
pub enum ErrorView {
    /// See [`Error::Database`].
    Database(Seq<char>),
    /// See [`Error::Pool`].
    Pool(Seq<char>),
    /// See [`Error::PoolBuild`].
    PoolBuild(Seq<char>),
    /// See [`Error::Migration`].
    Migration(Seq<char>),
    /// See [`Error::Serialization`].
    Serialization(Seq<char>),
    /// See [`Error::UnknownKind`].
    UnknownKind(Seq<char>),
    /// See [`Error::Config`].
    Config(Seq<char>),
    /// See [`Error::InvalidPriority`].
    InvalidPriority(i16),
    /// See [`Error::RunNumberOutOfRange`].
    RunNumberOutOfRange(u32),
}

impl View for Error {
    type V = ErrorView;

    open spec fn view(&self) -> ErrorView {
        match self {
            Error::Database(text) => ErrorView::Database(text@),
            Error::Pool(text) => ErrorView::Pool(text@),
            Error::PoolBuild(text) => ErrorView::PoolBuild(text@),
            Error::Migration(text) => ErrorView::Migration(text@),
            Error::Serialization(text) => ErrorView::Serialization(text@),
            Error::UnknownKind { kind } => ErrorView::UnknownKind(kind@),
            Error::Config(text) => ErrorView::Config(text@),
            Error::InvalidPriority { priority } => ErrorView::InvalidPriority(*priority),
            Error::RunNumberOutOfRange { run_no } => ErrorView::RunNumberOutOfRange(*run_no),
        }
    }
}

/// The quoted, escaped form the standard library's `Debug` gives a text.
pub uninterp spec fn debug_form(text: Seq<char>) -> Seq<char>;

/// Quotes a text: the `Debug` formatting of `str`.
///
/// The result depends on the text alone; its escaping rules are left unstated.
#[verifier::external_body]
pub(crate) fn quoted(text: &str) -> (r: String)
    ensures
        r@ == debug_form(text@),
{
    format!("{text:?}")
}

/// The text an error shows, with the quoted kind it names where it names one.
pub open spec fn error_text(error: ErrorView, quoted_kind: Seq<char>) -> Seq<char> {
    match error {
        ErrorView::Database(text) => "while talking to PostgreSQL: "@ + text,
        ErrorView::Pool(text) => "while acquiring a pooled connection: "@ + text,
        ErrorView::PoolBuild(text) => "while building the connection pool: "@ + text,
        ErrorView::Migration(text) => "while applying migrations: "@ + text,
        ErrorView::Serialization(text) => "while (de)serializing a job payload or carry: "@ + text,
        ErrorView::UnknownKind(_) => "no handler registered for job kind "@ + quoted_kind,
        ErrorView::Config(text) => "invalid configuration: "@ + text,
        ErrorView::InvalidPriority(priority) => "invalid priority tier "@ + signed_decimal(
            priority as int,
        ) + ": expected 0 (high), 1 (normal), or 2 (low)"@,
        ErrorView::RunNumberOutOfRange(run_no) => "run number "@ + decimal(run_no as nat)
            + " exceeds the storable range"@,
    }
}

impl Error {
    /// The text shown for this error: its context, and the underlying detail.
    pub fn message(&self) -> (r: String)
        ensures
            r@ == error_text(
                self@,
                match self@ {
                    ErrorView::UnknownKind(kind) => debug_form(kind),
                    _ => Seq::empty(),
                },
            ),
    {
        match self {
            Error::UnknownKind { kind } => {
                let shown = quoted(kind.as_str());
                self.message_quoting(shown.as_str())
            },
            _ => self.message_quoting(""),
        }
    }

    /// The text shown for this error, given the quoted form of the kind it names.
    /// Errors that name no kind do not use it.
    pub fn message_quoting(&self, quoted_kind: &str) -> (r: String)
        ensures
            r@ == error_text(self@, quoted_kind@),
    {
        match self {
            Error::Database(text) => joined("while talking to PostgreSQL: ", text.as_str()),
            Error::Pool(text) => joined("while acquiring a pooled connection: ", text.as_str()),
            Error::PoolBuild(text) => joined(
                "while building the connection pool: ",
                text.as_str(),
            ),
            Error::Migration(text) => joined("while applying migrations: ", text.as_str()),
            Error::Serialization(text) => joined(
                "while (de)serializing a job payload or carry: ",
                text.as_str(),
            ),
            Error::UnknownKind { .. } => joined("no handler registered for job kind ", quoted_kind),
            Error::Config(text) => joined("invalid configuration: ", text.as_str()),
            Error::InvalidPriority { priority } => {
                let tier = signed_decimal_text(*priority as i64);
                let head = joined("invalid priority tier ", tier.as_str());
                joined(head.as_str(), ": expected 0 (high), 1 (normal), or 2 (low)")
            },
            Error::RunNumberOutOfRange { run_no } => {
                let number = decimal_text(*run_no as u64);
                let head = joined("run number ", number.as_str());
                joined(head.as_str(), " exceeds the storable range")
            },
        }
    }
}

/// An error that wraps a detail shows that detail in full, after its context.
pub proof fn shown_errors_end_with_their_detail(detail: Seq<char>, quoted_kind: Seq<char>)
    ensures
        error_text(ErrorView::Database(detail), quoted_kind).skip(
            "while talking to PostgreSQL: "@.len() as int,
        ) == detail,
        error_text(ErrorView::Pool(detail), quoted_kind).skip(
            "while acquiring a pooled connection: "@.len() as int,
        ) == detail,
        error_text(ErrorView::PoolBuild(detail), quoted_kind).skip(
            "while building the connection pool: "@.len() as int,
        ) == detail,
        error_text(ErrorView::Migration(detail), quoted_kind).skip(
            "while applying migrations: "@.len() as int,
        ) == detail,
        error_text(ErrorView::Serialization(detail), quoted_kind).skip(
            "while (de)serializing a job payload or carry: "@.len() as int,
        ) == detail,
        error_text(ErrorView::Config(detail), quoted_kind).skip(
            "invalid configuration: "@.len() as int,
        ) == detail,
{
    assert(error_text(ErrorView::Database(detail), quoted_kind).skip(
        "while talking to PostgreSQL: "@.len() as int,
    ) =~= detail);
    assert(error_text(ErrorView::Pool(detail), quoted_kind).skip(
        "while acquiring a pooled connection: "@.len() as int,
    ) =~= detail);
    assert(error_text(ErrorView::PoolBuild(detail), quoted_kind).skip(
        "while building the connection pool: "@.len() as int,
    ) =~= detail);
    assert(error_text(ErrorView::Migration(detail), quoted_kind).skip(
        "while applying migrations: "@.len() as int,
    ) =~= detail);
    assert(error_text(ErrorView::Serialization(detail), quoted_kind).skip(
        "while (de)serializing a job payload or carry: "@.len() as int,
    ) =~= detail);
    assert(error_text(ErrorView::Config(detail), quoted_kind).skip(
        "invalid configuration: "@.len() as int,
    ) =~= detail);
}

} // verus!
