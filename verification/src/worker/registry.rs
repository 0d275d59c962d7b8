//! The handler registry: which kinds a worker runs, with what cap.
//!
//! Each entry is type-erased by the caller: given a stored job's JSON payload and
//! carry, it runs the handler and reports the outcome. What the registry decides is
//! which entry a kind is routed to, how many of a kind may run at once, and how a
//! run's conclusion becomes a report.
use crate::backoff::Backoff;
use crate::error::{Error, ErrorView};
use crate::instants::Duration;
use crate::kinds::KindMap;
use crate::outcome::{Outcome, TaskError};
use crate::store::json_is_null;
use crate::text::{joined, text_precedes};
use crate::worker::config::PanicPolicy;
use vstd::prelude::*;

verus! {

/// The set of handlers a worker can run, keyed by kind.
pub struct Registry<E> {
    entries: KindMap<(E, Option<usize>)>,
}

impl<E> View for Registry<E> {
    type V = Map<Seq<char>, (E, Option<usize>)>;

    closed spec fn view(&self) -> Map<Seq<char>, (E, Option<usize>)> {
        self.entries@
    }
}

/// The cap of each kind, where it has one.
pub open spec fn caps_of<E>(entries: Map<Seq<char>, (E, Option<usize>)>) -> Map<
    Seq<char>,
    Option<usize>,
> {
    entries.map_values(|entry: (E, Option<usize>)| entry.1)
}

impl<E> Registry<E> {
    /// An empty registry.
    pub fn new() -> (r: Registry<E>)
        ensures
            r@ == Map::<Seq<char>, (E, Option<usize>)>::empty(),
    {
        Registry { entries: KindMap::new() }
    }

    /// Register an entry with an optional per-kind concurrency cap.
    ///
    /// Re-registering the same kind overwrites the prior entry; the contract is one
    /// type per discriminator.
    pub fn register(&mut self, kind: &str, entry: E, cap: Option<usize>)
        ensures
            final(self)@ == old(self)@.insert(kind@, (entry, cap)),
    {
        self.entries.insert(kind.to_owned(), (entry, cap));
    }

    /// The registered kinds in ascending order, each once, which also form the base
    /// claim filter.
    pub fn kinds(&self) -> (r: Vec<String>)
        ensures
            forall|i: int, j: int|
                0 <= i < j < r@.len() ==> text_precedes(#[trigger] r@[i]@, #[trigger] r@[j]@),
            forall|kind: Seq<char>|
                self@.contains_key(kind) <==> exists|i: int|
                    0 <= i < r@.len() && #[trigger] r@[i]@ == kind,
    {
        self.entries.kinds()
    }

    /// The per-kind concurrency cap for `kind`, if one was set.
    pub fn cap(&self, kind: &str) -> (r: Option<usize>)
        ensures
            r == (if self@.contains_key(kind@) {
                self@[kind@].1
            } else {
                None
            }),
    {
        match self.entries.get(kind) {
            Some(entry) => entry.1,
            None => None,
        }
    }

    /// The caps of all registered kinds.
    pub fn caps(&self) -> (r: KindMap<Option<usize>>)
        ensures
            r@ == caps_of(self@),
    {
        let entries = self.entries.entries();
        let mut caps: KindMap<Option<usize>> = KindMap::new();
        let mut i: usize = 0;
        assert(entries@.take(0) =~= Seq::empty());
        assert(caps@ =~= caps_of(crate::kinds::entries_map(entries@.take(0))));
        while i < entries.len()
            invariant
                i <= entries@.len(),
                crate::kinds::keys_ascend(entries@),
                crate::kinds::entries_map(entries@) == self@,
                caps@ == caps_of(crate::kinds::entries_map(entries@.take(i as int))),
            decreases entries@.len() - i,
        {
            proof {
                crate::kinds::entries_map_grows(entries@, i as int);
                let shorter = crate::kinds::entries_map(entries@.take(i as int));
                let entry = entries@[i as int];
                assert(caps_of(shorter.insert(entry.0@, entry.1)) =~= caps_of(shorter).insert(
                    entry.0@,
                    entry.1.1,
                ));
            }
            caps.insert(entries[i].0.clone(), entries[i].1.1);
            i += 1;
        }
        assert(entries@.take(i as int) =~= entries@);
        caps
    }

    /// The entry that runs `kind`, or an error if the kind is unknown.
    pub fn dispatch(&self, kind: &str) -> (r: Result<&E, Error>)
        ensures
            r is Ok <==> self@.contains_key(kind@),
            r matches Ok(entry) ==> *entry == self@[kind@].0,
            r matches Err(error) ==> error@ == ErrorView::UnknownKind(kind@),
    {
        match self.entries.get(kind) {
            Some(entry) => Ok(&entry.0),
            None => Err(Error::UnknownKind { kind: kind.to_owned() }),
        }
    }
}

/// What one completed run yields back to the worker for settlement.
pub struct RunReport {
    /// The handler's result: complete/pause, or a retryable/permanent failure.
    pub result: Result<Outcome, TaskError>,
    /// The serialized carry after the run, persisted on pause and retry.
    pub carry: serde_json::Value,
    /// The task's per-task backoff override, if any, for scheduling a retry.
    pub backoff: Option<Backoff>,
    /// Structured evidence the handler attached during the run, for the journal.
    pub attachment: Option<serde_json::Value>,
    /// How long the handler's call took, for the duration metric.
    pub duration: Duration,
}

/// How a handler's call ended.
pub enum RunEnd {
    /// It returned. `carry` is the mutated carry, serialized, or the text of the
    /// serialization error.
    Returned {
        /// The handler's result.
        result: Result<Outcome, TaskError>,
        /// The serialized carry after the run.
        carry: Result<serde_json::Value, String>,
        /// The attachment set during the run.
        attachment: Option<serde_json::Value>,
    },
    /// It panicked, with the text of the panic where it had one.
    Panicked {
        /// The panic's text.
        message: Option<String>,
    },
}

/// The failure message of a panicking handler.
pub open spec fn panic_text(message: Option<Seq<char>>) -> Seq<char> {
    match message {
        Some(message) => "handler panicked: "@ + message,
        None => "handler panicked"@,
    }
}

/// A readable message for a caught panic, from the value passed to `panic!` where
/// it was a text.
pub fn panic_message(message: Option<&str>) -> (r: String)
    ensures
        r@ == panic_text(
            match message {
                Some(text) => Some(text@),
                None => None,
            },
        ),
{
    match message {
        Some(message) => joined("handler panicked: ", message),
        None => "handler panicked".to_owned(),
    }
}

/// Turn the end of a run into its report.
///
/// A handler that returned reports its result with its carry and attachment. If the
/// carry cannot be serialized that is not a dispatch failure, since the handler ran
/// to completion: it is a permanent failure with an accurate message (re-running
/// would only fail to encode again), and the carry reported is JSON `null`. A panic
/// discards the run's context: the report holds the carry from before the run
/// and no attachment, and the policy decides whether it is retryable.
pub fn conclude_run(
    end: RunEnd,
    carry_before: serde_json::Value,
    policy: PanicPolicy,
    backoff: Option<Backoff>,
    duration: Duration,
) -> (r: RunReport)
    ensures
        r.backoff == backoff,
        r.duration == duration,
        match end {
            RunEnd::Returned { result, carry, attachment } => {
                &&& r.attachment == attachment
                &&& carry matches Ok(value) ==> r.result == result && r.carry == value
                &&& carry matches Err(text) ==> json_is_null(r.carry) && (r.result matches Err(
                    error,
                ) && error.gives_up() && error.text()
                    == "handler completed but its carry could not be serialized: "@ + text@)
            },
            RunEnd::Panicked { message } => {
                &&& r.attachment is None
                &&& r.carry == carry_before
                &&& r.result matches Err(error) && error.gives_up() == (policy is Dead)
                    && error.text() == panic_text(crate::text::optional_text(message))
            },
        },
{
    match end {
        RunEnd::Returned { result, carry, attachment } => match carry {
            Ok(carry) => RunReport { result, carry, backoff, attachment, duration },
            Err(text) => {
                let message = joined(
                    "handler completed but its carry could not be serialized: ",
                    text.as_str(),
                );
                RunReport {
                    result: Err(TaskError::from_text(true, message)),
                    carry: serde_json::Value::default(),
                    backoff,
                    attachment,
                    duration,
                }
            },
        },
        RunEnd::Panicked { message } => {
            let text = match &message {
                Some(text) => panic_message(Some(text.as_str())),
                None => panic_message(None),
            };
            let permanent = match policy {
                PanicPolicy::Retry => false,
                PanicPolicy::Dead => true,
            };
            RunReport {
                result: Err(TaskError::from_text(permanent, text)),
                carry: carry_before,
                backoff,
                attachment: None,
                duration,
            }
        },
    }
}

/// A run that returned is reported as it returned; one whose carry cannot be stored is
/// given up on; and one that panicked is reported as a failure from which the next run
/// starts where this one did, given up on exactly where the policy says so.
pub proof fn runs_are_reported_as_they_ended(
    end: RunEnd,
    carry_before: serde_json::Value,
    policy: PanicPolicy,
    backoff: Option<Backoff>,
    duration: Duration,
    report: RunReport,
)
    requires
        call_ensures(conclude_run, (end, carry_before, policy, backoff, duration), report),
    ensures
        report.backoff == backoff && report.duration == duration,
        end matches RunEnd::Returned { result, carry: Ok(carry), attachment } ==> {
            &&& report.result == result && report.carry == carry
            &&& report.attachment == attachment
        },
        end matches RunEnd::Returned { carry: Err(_), attachment, .. } ==> {
            &&& report.result matches Err(error) && error.gives_up()
            &&& report.attachment == attachment
        },
        end is Panicked ==> {
            &&& report.result matches Err(error) && (error.gives_up() <==> policy is Dead)
            &&& report.carry == carry_before && report.attachment is None
        },
{
}

} // verus!
