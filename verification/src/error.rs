//! Error definitions

use std::sync::PoisonError;
use vstd::prelude::*;

verus! {

/// `std::sync::PoisonError`, the error of a lock whose holder panicked. Nothing is claimed of it.
#[verifier::external_type_specification]
#[verifier::external_body]
#[verifier::reject_recursive_types(T)]
pub struct ExPoisonError<T>(PoisonError<T>);

/// Error variants for event emitters
#[derive(Debug, Clone, Copy, PartialEq, Eq, Structural)]
pub enum EventError {
    /// Converted from a `PoisonError<T>` to remove the `T`.
    ///
    /// Still means the same thing, that a lock was poisoned by a panicking thread.
    PoisonError,
}

/// Shorthand result type for `EventError`s
pub type EventResult<T> = Result<T, EventError>;

impl EventError {
    /// Short description of the error.
    pub fn description(&self) -> (text: &str)
        ensures
            text@ == "Poison Error"@,
    {
        match *self {
            EventError::PoisonError => "Poison Error",
        }
    }

    /// The text that the error is displayed as: its description.
    pub fn to_string(&self) -> (text: String)
        ensures
            text@ == "Poison Error"@,
    {
        self.description().to_owned()
    }
}

impl<T> From<PoisonError<T>> for EventError {
    fn from(_err: PoisonError<T>) -> (error: EventError) {
        EventError::PoisonError
    }
}

impl<T> vstd::std_specs::convert::FromSpecImpl<PoisonError<T>> for EventError {
    open spec fn obeys_from_spec() -> bool {
        true
    }

    open spec fn from_spec(_err: PoisonError<T>) -> EventError {
        EventError::PoisonError
    }
}

/// Turns the outcome of taking a lock into an `EventResult`: the guard where the lock was taken,
/// `EventError::PoisonError` where it was poisoned.
pub fn try_throw<G>(lock: Result<G, PoisonError<G>>) -> (result: EventResult<G>)
    ensures
        lock matches Ok(guard) ==> result == Ok::<G, EventError>(guard),
        lock is Err ==> result == Err::<G, EventError>(EventError::PoisonError),
{
    match lock {
        Ok(guard) => Ok(guard),
        Err(err) => Err(EventError::from(err)),
    }
}

} // verus!
