//! Wrapping a value in an `Option` by a method call.

use vstd::prelude::*;

verus! {

/// Values that can be put into an `Option`, or dropped for an empty one.
pub trait OptionOps<A>: Sized {
    /// The value that `some` wraps.
    spec fn wrapped(self) -> A;

    fn some(self) -> (r: Option<A>)
        ensures
            r == Some(self.wrapped()),
    ;

    fn none(self) -> (r: Option<A>)
        ensures
            r is None,
    ;
}

impl OptionOps<String> for String {
    open spec fn wrapped(self) -> String {
        self
    }

    fn some(self) -> (r: Option<String>) {
        Some(self)
    }

    fn none(self) -> (r: Option<String>) {
        None
    }
}

impl<A, E> OptionOps<Result<A, E>> for Result<A, E> {
    open spec fn wrapped(self) -> Result<A, E> {
        self
    }

    fn some(self) -> (r: Option<Result<A, E>>) {
        Some(self)
    }

    fn none(self) -> (r: Option<Result<A, E>>) {
        None
    }
}

} // verus!
