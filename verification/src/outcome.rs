//! What a single execution of a handler concludes: an [`Outcome`] on success or
//! a [`TaskError`] on failure.
//!
//! A handler returns `Result<Outcome, TaskError>`, which encodes the four things a
//! run can decide: complete, pause, retry, or give up. Success and pause are the
//! `Ok` variants; a retryable or permanent failure is the `Err` side. Retryable is
//! the default, so any error propagated with `?` becomes a retry.
use crate::instants::Duration;
use crate::text::optional_text;
use vstd::prelude::*;
use vstd::string::to_string_from_display_ensures;

verus! {

/// The successful conclusion of a run.
///
/// A handler returns `Ok(Outcome)` to either finish the job or pause it. A pause
/// is **not** a failure: the job returns to pending, becomes eligible again after
/// `resume_in`, keeps its carried state, and does not consume the failure
/// backstop. Use the constructors rather than the variants directly.
#[derive(Debug, Clone, PartialEq, Eq)]
pub enum Outcome {
    /// The job is finished and moves to a terminal completed state.
    Completed {
        /// Optional human-readable conclusion recorded in the journal.
        note: Option<String>,
    },
    /// The job yields and becomes eligible again after `resume_in`.
    Pause {
        /// How long until the job is eligible again; a zero span yields
        /// immediately.
        resume_in: Duration,
        /// Optional human-readable conclusion recorded in the journal.
        note: Option<String>,
    },
}

/// An [`Outcome`] with its note as a character sequence.
pub enum OutcomeView {
    /// See [`Outcome::Completed`].
    Completed { note: Option<Seq<char>> },
    /// See [`Outcome::Pause`].
    Pause { resume_in: Duration, note: Option<Seq<char>> },
}

impl View for Outcome {
    type V = OutcomeView;

    open spec fn view(&self) -> OutcomeView {
        match self {
            Outcome::Completed { note } => OutcomeView::Completed { note: optional_text(*note) },
            Outcome::Pause { resume_in, note } => OutcomeView::Pause {
                resume_in: *resume_in,
                note: optional_text(*note),
            },
        }
    }
}

impl Outcome {
    /// Complete the job with no note.
    pub fn completed() -> (r: Outcome)
        ensures
            r@ == (OutcomeView::Completed { note: None }),
    {
        Outcome::Completed { note: None }
    }

    /// Complete the job with a note recorded in the journal.
    pub fn completed_with(note: &str) -> (r: Outcome)
        ensures
            r@ == (OutcomeView::Completed { note: Some(note@) }),
    {
        Outcome::Completed { note: Some(note.to_owned()) }
    }

    /// Pause the job, making it eligible again after `resume_in`.
    pub fn pause_in(resume_in: Duration) -> (r: Outcome)
        ensures
            r@ == (OutcomeView::Pause { resume_in, note: None }),
    {
        Outcome::Pause { resume_in, note: None }
    }

    /// Pause the job with a note, making it eligible again after `resume_in`.
    pub fn pause_in_with(resume_in: Duration, note: &str) -> (r: Outcome)
        ensures
            r@ == (OutcomeView::Pause { resume_in, note: Some(note@) }),
    {
        Outcome::Pause { resume_in, note: Some(note.to_owned()) }
    }
}

/// A handler failure.
///
/// Failures are **retryable by default**: any error propagated with `?` converts
/// into a retryable `TaskError`, and the run is rescheduled with backoff. A task
/// that knows further attempts are pointless returns [`TaskError::permanent`] to
/// send the job straight to dead. The error's message becomes the journal note for
/// the failed run.
#[derive(Debug)]
pub struct TaskError {
    permanent: bool,
    message: String,
    source: Option<String>,
}

/// Whether `text` is what `error` displays.
pub open spec fn displays<E: std::fmt::Display>(error: E, text: Seq<char>) -> bool {
    exists|shown: String| shown@ == text && #[trigger] to_string_from_display_ensures(&error, shown)
}

/// Whether `error` displays one text only, however often it is asked.
pub open spec fn displays_one_text<E: std::fmt::Display>(error: E) -> bool {
    forall|a: Seq<char>, b: Seq<char>|
        #![trigger displays(error, a), displays(error, b)]
        displays(error, a) && displays(error, b) ==> a == b
}

impl TaskError {
    /// Whether the failure sends the job straight to dead.
    pub closed spec fn gives_up(self) -> bool {
        self.permanent
    }

    /// The failure message.
    pub closed spec fn text(self) -> Seq<char> {
        self.message@
    }

    /// What the wrapped cause displayed.
    pub closed spec fn wrapped(self) -> Option<Seq<char>> {
        optional_text(self.source)
    }

    /// A retryable failure built from any error. Equivalent to the `?` conversion.
    pub fn retryable<E: std::fmt::Display>(error: E) -> (r: TaskError)
        ensures
            !r.gives_up(),
            displays(error, r.text()),
            r.wrapped() == Some(r.text()),
    {
        TaskError::build(false, error)
    }

    /// A permanent failure: the job moves to dead immediately, no retry.
    pub fn permanent<E: std::fmt::Display>(error: E) -> (r: TaskError)
        ensures
            r.gives_up(),
            displays(error, r.text()),
            r.wrapped() == Some(r.text()),
    {
        TaskError::build(true, error)
    }

    /// Whether this failure sends the job straight to dead.
    pub fn is_permanent(&self) -> (r: bool)
        ensures
            r == self.gives_up(),
    {
        self.permanent
    }

    /// The failure message recorded as the journal note.
    pub fn message(&self) -> (r: &str)
        ensures
            r@ == self.text(),
    {
        self.message.as_str()
    }

    /// What the wrapped cause displayed, if there is one.
    pub fn cause(&self) -> (r: Option<&str>)
        ensures
            r is Some <==> self.wrapped() is Some,
            r matches Some(text) ==> self.wrapped() == Some(text@),
    {
        match &self.source {
            Some(text) => Some(text.as_str()),
            None => None,
        }
    }

    /// A failure with the given message, which is also its cause's text.
    pub(crate) fn from_text(permanent: bool, message: String) -> (r: TaskError)
        ensures
            r.gives_up() == permanent,
            r.text() == message@,
            r.wrapped() == Some(message@),
    {
        let source = Some(message.clone());
        TaskError { permanent, message, source }
    }

    fn build<E: std::fmt::Display>(permanent: bool, error: E) -> (r: TaskError)
        ensures
            r.gives_up() == permanent,
            displays(error, r.text()),
            r.wrapped() == Some(r.text()),
    {
        let message = error.to_string();
        TaskError::from_text(permanent, message)
    }
}

/// Any error propagated with `?` inside a handler becomes a retryable failure.
impl<E: std::fmt::Display> From<E> for TaskError {
    fn from(error: E) -> (r: TaskError)
        ensures
            !r.gives_up(),
            displays(error, r.text()),
            r.wrapped() == Some(r.text()),
    {
        TaskError::retryable(error)
    }
}

impl<E: std::fmt::Display> vstd::std_specs::convert::FromSpecImpl<E> for TaskError {
    open spec fn obeys_from_spec() -> bool {
        false
    }

    open spec fn from_spec(error: E) -> TaskError {
        arbitrary()
    }
}

/// An error carries its text into a failure the same way by every route.
///
/// Of one error, [`TaskError::retryable`] and the `?` conversion make failures that are
/// both retryable, and [`TaskError::permanent`] makes one that is not. All three have the
/// message the error displays, and a cause that displays the same. An error that displays
/// a different text each time it is asked is left out.
pub proof fn failures_of_one_error_agree<E: std::fmt::Display>(
    error: E,
    retryable: TaskError,
    converted: TaskError,
    permanent: TaskError,
)
    requires
        displays_one_text(error),
        call_ensures(TaskError::retryable::<E>, (error,), retryable),
        call_ensures(<TaskError as From<E>>::from, (error,), converted),
        call_ensures(TaskError::permanent::<E>, (error,), permanent),
    ensures
        !retryable.gives_up(),
        !converted.gives_up(),
        permanent.gives_up(),
        displays(error, retryable.text()),
        converted.text() == retryable.text(),
        permanent.text() == retryable.text(),
        retryable.wrapped() == Some(retryable.text()),
        converted.wrapped() == retryable.wrapped(),
        permanent.wrapped() == retryable.wrapped(),
{
}

/// The constructors of an outcome keep what they are given: a pause its length, and either
/// outcome its note.
pub proof fn outcomes_keep_what_they_are_given(
    resume_in: Duration,
    note: &str,
    paused: Outcome,
    paused_with: Outcome,
    completed: Outcome,
    completed_with: Outcome,
)
    requires
        call_ensures(Outcome::pause_in, (resume_in,), paused),
        call_ensures(Outcome::pause_in_with, (resume_in, note), paused_with),
        call_ensures(Outcome::completed, (), completed),
        call_ensures(Outcome::completed_with, (note,), completed_with),
    ensures
        paused matches Outcome::Pause { resume_in: asked, note: said } && asked == resume_in && said
            is None,
        paused_with matches Outcome::Pause { resume_in: asked, note: Some(said) } && asked
            == resume_in && said@ == note@,
        completed matches Outcome::Completed { note: said } && said is None,
        completed_with matches Outcome::Completed { note: Some(said) } && said@ == note@,
{
}

} // verus!
