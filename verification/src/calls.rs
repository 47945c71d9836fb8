//! How often a callback is called
//!
//! Contracts say which calls a callback accepts and what comes of them, and not how often it is called. The
//! functions that call a user's callback leave that to the types. They know the callback only through a trait
//! of this module, which trades something that they have but one of for the right to call.

use vstd::prelude::*;

verus! {

/// A callback that can be called once for each argument that comes in.
///
/// To a function that knows the callback only as an `OneCall`, the argument is a value of the unknown type `Arg`,
/// and what it can call is of the unknown type `Shot`. The one is used up to get the other, and the other is
/// used up by the call, so that the function calls the callback at most once.
pub trait OneCall<'s, A>: Sized {
    /// An argument as it comes in.
    type Arg;

    /// The callback, for one call.
    type Shot;

    /// The argument itself.
    spec fn carried(arg: Self::Arg) -> A;

    /// What is called.
    spec fn shot(&self) -> Self::Shot;

    /// Trades the argument for itself and one call of the callback.
    fn begin(&'s self, arg: Self::Arg) -> (begun: (A, Self::Shot))
        ensures
            begun.0 == Self::carried(arg),
            begun.1 == self.shot(),
    ;
}

impl<'s, A, F: 's> OneCall<'s, A> for F {
    type Arg = A;

    type Shot = &'s F;

    open spec fn carried(arg: A) -> A {
        arg
    }

    open spec fn shot(&self) -> &'s F {
        self
    }

    fn begin(&'s self, arg: A) -> (begun: (A, &'s F)) {
        (arg, self)
    }
}

/// An argument of type `A` for the callback `F`, as it comes in.
pub type Incoming<'s, F, A> = <F as OneCall<'s, A>>::Arg;

/// The callback `F`, for one call with an argument of type `A`.
pub type Shot<'s, F, A> = <F as OneCall<'s, A>>::Shot;

/// A callback without arguments that may fail.
pub trait Fails {
    /// What it fails with.
    type Error;
}

impl<X, F: Fn() -> Result<(), X>> Fails for F {
    type Error = X;
}

/// Names that a visitor can be shown once each.
///
/// To a function that knows the names only as a `Round`, they are of the unknown type `Name` once the round has
/// begun, and the visitor is used up to begin it. A visit uses the name up, so that the function shows each of
/// them at most once.
pub trait Round<'n, F>: Sized {
    /// A name that can be shown.
    type Name;

    /// The visitor, once the round has begun.
    type Visitor;

    /// The names of the round.
    spec fn names(self) -> Seq<&'n String>;

    /// The name itself.
    spec fn shown(name: Self::Name) -> &'n String;

    /// What is called with the names.
    spec fn visiting(visitor: F) -> Self::Visitor;

    /// Trades the visitor for itself and the names to show it, no two of which are the same.
    fn begin(self, visitor: F) -> (begun: (Vec<Self::Name>, Self::Visitor))
        requires
            forall|i: int, j: int|
                0 <= i < j < self.names().len() ==> (#[trigger] self.names()[i])@ != (
                #[trigger] self.names()[j])@,
        ensures
            begun.0.len() == self.names().len(),
            forall|i: int|
                0 <= i < begun.0.len() ==> Self::shown(#[trigger] begun.0@[i]) == self.names()[i],
            begun.1 == Self::visiting(visitor),
    ;
}

impl<'n, F> Round<'n, F> for Vec<&'n String> {
    type Name = &'n String;

    type Visitor = F;

    open spec fn names(self) -> Seq<&'n String> {
        self@
    }

    open spec fn shown(name: &'n String) -> &'n String {
        name
    }

    open spec fn visiting(visitor: F) -> F {
        visitor
    }

    fn begin(self, visitor: F) -> (begun: (Vec<&'n String>, F)) {
        (self, visitor)
    }
}

/// A name that the visitor `F` can be shown once.
pub type Visit<'n, F> = <Vec<&'n String> as Round<'n, F>>::Name;

/// The visitor `F`, once it can be shown names.
pub type Visitor<'n, F> = <Vec<&'n String> as Round<'n, F>>::Visitor;

} // verus!
