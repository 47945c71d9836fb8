//! Listeners, the arguments they receive, and what their invocations report

use std::marker::PhantomData;
use std::sync::{Arc, PoisonError};

use crate::calls::{Fails, Incoming, OneCall, Shot};
use crate::error::{try_throw, EventError, EventResult};
use vstd::prelude::*;

verus! {

/// Integer type used to represent unique listener ids
pub type ListenerId = u64;

/// This allows callbacks to take both values and references depending on the situation:
/// an argument is either the listener's own (`O`) or shared by all listeners (`B`).
pub enum ArcCowish<O, B> {
    /// The listener has this to itself.
    Owned(O),
    /// All listeners of the emission share this.
    Borrowed(B),
}

/// An argument as it is emitted.
pub type Emitted<T> = ArcCowish<T, Arc<T>>;

/// An argument as a listener for values of type `T` finds it: `None` in either variant means that
/// the emitted value was of another type.
pub type Downcast<'a, T> = ArcCowish<Option<T>, Option<&'a T>>;

/// Stores the listener callback and its ID value
pub struct SyncEventListener<C> {
    /// The id that the listener was registered under.
    pub id: ListenerId,
    /// Whether the listener is removed by its first invocation.
    pub once: bool,
    /// The callback.
    pub cb: C,
}

impl<C> SyncEventListener<C> {
    /// Create a new `SyncEventListener` from an id and callback
    pub fn new(id: ListenerId, once: bool, cb: C) -> (listener: Arc<SyncEventListener<C>>)
        ensures
            *listener == (SyncEventListener { id, once, cb }),
    {
        Arc::new(SyncEventListener { id, once, cb })
    }

    /// Claims one invocation of the listener, where its emitter can only be reached through `from_emitter`:
    /// the emitter decides over a listener that is to run once, and is not asked about a permanent one.
    pub fn claim_through<K: FnOnce() -> EventResult<bool>>(&self, from_emitter: K) -> (result:
        EventResult<bool>)
        requires
            self.once ==> call_requires(from_emitter, ()),
        ensures
            self.once ==> call_ensures(from_emitter, (), result),
            !self.once ==> result == Ok::<bool, EventError>(true),
    {
        if self.once {
            from_emitter()
        } else {
            Ok(true)
        }
    }
}

/// One listener to invoke in the course of an emission, and what to invoke it with.
pub struct Invocation<C, T> {
    /// The listener, as it was registered when the event was emitted.
    pub listener: Arc<SyncEventListener<C>>,
    /// The argument: `None` for an event that was emitted without a value.
    pub arg: Option<Emitted<T>>,
}

/// No invocation has an argument.
pub open spec fn carry_nothing<C, T>(invocations: Seq<Invocation<C, T>>) -> bool {
    forall|i: int| 0 <= i < invocations.len() ==> (#[trigger] invocations[i]).arg is None
}

/// Each invocation has a copy of the value to itself.
pub open spec fn carry_copies<C, T: Clone>(invocations: Seq<Invocation<C, T>>, value: T) -> bool {
    forall|i: int|
        0 <= i < invocations.len() ==> ((#[trigger] invocations[i]).arg matches Some(
            ArcCowish::Owned(copy),
        ) && vstd::pervasive::strictly_cloned(value, copy))
}

/// All invocations share the value.
pub open spec fn carry_shared<C, T>(invocations: Seq<Invocation<C, T>>, value: T) -> bool {
    forall|i: int|
        0 <= i < invocations.len() ==> ((#[trigger] invocations[i]).arg matches Some(
            ArcCowish::Borrowed(shared),
        ) && *shared == value)
}

/// What a listener finds of an emitted argument of its own type `T`: the value that was emitted.
pub open spec fn found_same<T>(arg: Option<Emitted<T>>, found: Option<Downcast<T>>) -> bool {
    match arg {
        None => found is None,
        Some(ArcCowish::Owned(value)) => found matches Some(ArcCowish::Owned(Some(seen))) && seen
            == value,
        Some(ArcCowish::Borrowed(value)) => found matches Some(ArcCowish::Borrowed(Some(seen)))
            && *seen == *value,
    }
}

/// What a listener for values of type `T` finds of an emitted argument of another type `U`: that there is
/// one, and that it is no `T`.
pub open spec fn found_other<U, T>(arg: Option<Emitted<U>>, found: Option<Downcast<T>>) -> bool {
    match arg {
        None => found is None,
        Some(ArcCowish::Owned(_)) => found matches Some(ArcCowish::Owned(None)),
        Some(ArcCowish::Borrowed(_)) => found matches Some(ArcCowish::Borrowed(None)),
    }
}

/// A callback that does not accept any arguments.
pub struct PlainListener<F> {
    /// The user's callback.
    pub cb: F,
}

impl<F> PlainListener<F> {
    /// Wraps the callback.
    pub fn new(cb: F) -> (listener: Self)
        ensures
            listener == (PlainListener { cb }),
    {
        PlainListener { cb }
    }
}

impl<X, F: Fails<Error = X>> PlainListener<F> {
    /// Invokes the callback once, whatever was emitted.
    ///
    /// The bounds hold of every callback `Fn() -> Result<(), X>`, for an `arg` of type `Option<A>`.
    pub fn call<'s, A>(&'s self, arg: Incoming<'s, F, Option<A>>) -> (result: Result<(), X>) where
        F: OneCall<'s, Option<A>>,
        Shot<'s, F, Option<A>>: FnOnce() -> Result<(), X>,

        requires
            call_requires(self.cb.shot(), ()),
        ensures
            call_ensures(self.cb.shot(), (), result),
    {
        let (_, cb) = self.cb.begin(arg);
        cb()
    }
}

/// A callback that takes values of type `T`.
pub struct ValueListener<T, F> {
    /// The user's callback.
    pub cb: F,
    /// Ties the listener to the type of the values that it takes.
    pub takes: PhantomData<T>,
}

impl<T, F> ValueListener<T, F> {
    /// The listener around the callback `cb`.
    pub open spec fn around(cb: F) -> Self {
        ValueListener { cb, takes: PhantomData }
    }

    /// Wraps the callback.
    pub fn new(cb: F) -> (listener: Self)
        ensures
            listener == Self::around(cb),
    {
        ValueListener { cb, takes: PhantomData }
    }

    /// Whether `given` is what the callback takes when `arg` was emitted: the value itself if it is the
    /// listener's own, a clone if it is shared, and `None` if there was no value or one of another type.
    pub open spec fn may_take(arg: Option<Downcast<T>>, given: Option<T>) -> bool where T: Clone {
        match arg {
            Some(ArcCowish::Owned(Some(value))) => given == Some(value),
            Some(ArcCowish::Borrowed(Some(value))) => given matches Some(copy)
                && vstd::pervasive::strictly_cloned(*value, copy),
            _ => given is None,
        }
    }
}

impl<T: Clone, F> ValueListener<T, F> {
    /// Invokes the callback once, with the emitted value if it is a `T`.
    ///
    /// The bounds hold of every callback `Fn(Option<T>) -> Result<(), X>`, for an `arg` of type
    /// `Option<Downcast<T>>`.
    pub fn call<'s, 'a, X>(
        &'s self,
        arg: Incoming<'s, F, Option<Downcast<'a, T>>>,
    ) -> (result: Result<(), X>) where
        T: 'a,
        F: OneCall<'s, Option<Downcast<'a, T>>>,
        Shot<'s, F, Option<Downcast<'a, T>>>: FnOnce(Option<T>) -> Result<(), X>,

        requires
            forall|given: Option<T>| #[trigger]
                Self::may_take(F::carried(arg), given) ==> call_requires(self.cb.shot(), (given,)),
        ensures
            exists|given: Option<T>| #[trigger]
                Self::may_take(F::carried(arg), given) && call_ensures(
                    self.cb.shot(),
                    (given,),
                    result,
                ),
    {
        let (arg, cb) = self.cb.begin(arg);
        let ghost whole = arg;
        if let Some(arg) = arg {
            match arg {
                ArcCowish::Borrowed(value) => {
                    // If the value is borrowed, but T is Clone, we can clone a unique value
                    if let Some(value) = value {
                        let copy = (*value).clone();
                        assert(Self::may_take(whole, Some(copy)));
                        return cb(Some(copy));
                    }
                },
                ArcCowish::Owned(value) => {
                    // If it's owned, it is handed over as it is
                    if let Some(value) = value {
                        assert(Self::may_take(whole, Some(value)));
                        return cb(Some(value));
                    }
                },
            }
        }
        assert(Self::may_take(whole, None));
        cb(None)
    }
}

/// A callback that takes references to values of type `T`.
pub struct SyncListener<T, F> {
    /// The user's callback.
    pub cb: F,
    /// Ties the listener to the type of the values that it looks at.
    pub sees: PhantomData<T>,
}

impl<T, F> SyncListener<T, F> {
    /// The listener around the callback `cb`.
    pub open spec fn around(cb: F) -> Self {
        SyncListener { cb, sees: PhantomData }
    }

    /// Wraps the callback.
    pub fn new(cb: F) -> (listener: Self)
        ensures
            listener == Self::around(cb),
    {
        SyncListener { cb, sees: PhantomData }
    }

    /// What the callback looks at when `arg` was emitted: the value, owned or shared, and `None` if there
    /// was no value or one of another type.
    pub open spec fn seen(arg: Option<Downcast<T>>) -> Option<T> {
        match arg {
            Some(ArcCowish::Owned(value)) => value,
            Some(ArcCowish::Borrowed(Some(value))) => Some(*value),
            _ => None,
        }
    }
}

impl<T, X, F: Fn(Option<&T>) -> Result<(), X>> SyncListener<T, F> {
    /// Whether the callback accepts a reference to `seen`.
    pub open spec fn accepts(&self, seen: Option<T>) -> bool {
        match seen {
            Some(value) => call_requires(self.cb, (Some(&value),)),
            None => call_requires(self.cb, (None,)),
        }
    }

    /// Whether `result` can come of invoking the callback with a reference to `seen`.
    pub open spec fn returns_on(&self, seen: Option<T>, result: Result<(), X>) -> bool {
        match seen {
            Some(value) => call_ensures(self.cb, (Some(&value),), result),
            None => call_ensures(self.cb, (None,), result),
        }
    }
}

impl<T, F> SyncListener<T, F> {
    /// Invokes the callback once, with a reference to the emitted value if it is a `T`.
    ///
    /// The bounds hold of every callback `Fn(Option<&T>) -> Result<(), X>`, for an `arg` of type
    /// `Option<Downcast<T>>`.
    pub fn call<'s, 'a, X>(
        &'s self,
        arg: Incoming<'s, F, Option<Downcast<'a, T>>>,
    ) -> (result: Result<(), X>) where
        T: 'a,
        F: OneCall<'s, Option<Downcast<'a, T>>>,
        Shot<'s, F, Option<Downcast<'a, T>>>: FnOnce(Option<&T>) -> Result<(), X>,

        requires
            match Self::seen(F::carried(arg)) {
                Some(value) => call_requires(self.cb.shot(), (Some(&value),)),
                None => call_requires(self.cb.shot(), (None,)),
            },
        ensures
            match Self::seen(F::carried(arg)) {
                Some(value) => call_ensures(self.cb.shot(), (Some(&value),), result),
                None => call_ensures(self.cb.shot(), (None,), result),
            },
    {
        let (arg, cb) = self.cb.begin(arg);
        if let Some(arg) = &arg {
            match arg {
                ArcCowish::Borrowed(value) => {
                    // If the value is borrowed, give a reference to the shared copy
                    if let Some(value) = value {
                        return cb(Some(*value));
                    }
                },
                ArcCowish::Owned(value) => {
                    // If it's owned, do the same thing, although it'll reference the listener's copy
                    if let Some(value) = value {
                        return cb(Some(value));
                    }
                },
            }
        }
        cb(None)
    }
}

/// Helper function to map listener results with
pub fn ran(_done: ()) -> (b: bool)
    ensures
        b,
{
    true
}

/// Why an invocation failed.
#[derive(Debug, PartialEq, Eq)]
pub enum InvocationError<X> {
    /// A lock that the invocation had to take was poisoned.
    Event(EventError),
    /// The callback returned this error.
    Callback(X),
}

/// Whether an invocation whose callback returned `outcome` reports `result`: that the listener ran, or
/// the callback's error.
pub open spec fn reports<X>(outcome: Result<(), X>, result: Result<bool, InvocationError<X>>) -> bool {
    match outcome {
        Ok(_) => result == Ok::<bool, InvocationError<X>>(true),
        Err(err) => result == Err::<bool, InvocationError<X>>(InvocationError::Callback(err)),
    }
}

/// Whether an invocation reports `result`, given what claiming it returned and what its callback returned if
/// it was run: it is run exactly if it was claimed, and otherwise the claim's result stands.
pub open spec fn invoked<X>(
    claimed: EventResult<bool>,
    outcome: Result<(), X>,
    result: Result<bool, InvocationError<X>>,
) -> bool {
    match claimed {
        Ok(true) => reports(outcome, result),
        Ok(false) => result == Ok::<bool, InvocationError<X>>(false),
        Err(err) => result == Err::<bool, InvocationError<X>>(InvocationError::Event(err)),
    }
}

/// Second half of an invocation: runs the callback if the invocation was claimed, and reports whether it
/// ran. An invocation that was not claimed is passed over; an error in claiming it is forwarded.
pub fn run_claimed<X, F: FnOnce() -> Result<(), X>>(claimed: EventResult<bool>, cb: F) -> (result:
    Result<bool, InvocationError<X>>)
    requires
        claimed == Ok::<bool, EventError>(true) ==> call_requires(cb, ()),
    ensures
        match claimed {
            Ok(true) => exists|outcome: Result<(), X>|
                call_ensures(cb, (), outcome) && #[trigger] invoked(claimed, outcome, result),
            Ok(false) => result == Ok::<bool, InvocationError<X>>(false),
            Err(err) => result == Err::<bool, InvocationError<X>>(InvocationError::Event(err)),
        },
{
    match claimed {
        Ok(true) => {
            let outcome = cb();
            let ghost returned = outcome;
            let result = match outcome {
                Ok(done) => Ok(ran(done)),
                Err(err) => Err(InvocationError::Callback(err)),
            };
            assert(invoked(claimed, returned, result));
            result
        },
        Ok(false) => Ok(false),
        Err(err) => Err(InvocationError::Event(err)),
    }
}

/// One whole invocation, given the outcome of taking the lock on the listener's callback.
///
/// The lock comes first: where it is poisoned, the invocation fails, and nothing is claimed or run. Then
/// the invocation is claimed, and only then is the callback run, with the lock still held. The callback
/// may rely on the claim: it is not run before it, nor without it.
pub fn invoke<G, K, X, F>(lock: Result<G, PoisonError<G>>, claim: K, cb: F) -> (result: Result<
    bool,
    InvocationError<X>,
>) where K: FnOnce() -> EventResult<bool>, F: FnOnce(G) -> Result<(), X>
    requires
        lock matches Ok(guard) ==> call_requires(claim, ()) && (call_ensures(
            claim,
            (),
            Ok::<bool, EventError>(true),
        ) ==> call_requires(cb, (guard,))),
    ensures
        lock is Err ==> result == Err::<bool, InvocationError<X>>(
            InvocationError::Event(EventError::PoisonError),
        ),
        lock matches Ok(guard) ==> exists|claimed: EventResult<bool>| #[trigger]
            call_ensures(claim, (), claimed) && match claimed {
                Ok(true) => exists|outcome: Result<(), X>|
                    call_ensures(cb, (guard,), outcome) && #[trigger] invoked(
                        claimed,
                        outcome,
                        result,
                    ),
                Ok(false) => result == Ok::<bool, InvocationError<X>>(false),
                Err(err) => result == Err::<bool, InvocationError<X>>(InvocationError::Event(err)),
            },
{
    match try_throw(lock) {
        Ok(guard) => {
            let claimed = claim();
            let run = || -> (outcome: Result<(), X>)
                requires
                    call_requires(cb, (guard,)),
                ensures
                    call_ensures(cb, (guard,), outcome),
                { cb(guard) };
            run_claimed(claimed, run)
        },
        Err(err) => Err(InvocationError::Event(err)),
    }
}

/// The number of invocations that ran.
pub open spec fn number_ran(executed: Seq<bool>) -> nat {
    executed.filter(|b: bool| b).len()
}

/// Counts the listeners of an emission that ran.
pub fn count_ran(executed: &Vec<bool>) -> (count: usize)
    ensures
        count == number_ran(executed@),
{
    let mut count: usize = 0;
    let mut i: usize = 0;
    while i < executed.len()
        invariant
            i <= executed.len(),
            count <= i,
            count == number_ran(executed@.take(i as int)),
        decreases executed.len() - i,
    {
        proof {
            reveal(Seq::filter);
            assert(executed@.take(i + 1).drop_last() =~= executed@.take(i as int));
        }
        if executed[i] {
            count = count + 1;
        }
        i = i + 1;
    }
    proof {
        assert(executed@.take(i as int) =~= executed@);
    }
    count
}

} // verus!
