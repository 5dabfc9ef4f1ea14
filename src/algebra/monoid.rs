//! Monoids: semigroups with a neutral element.

use vstd::prelude::*;
use crate::algebra::laws::{Associativity, Identity};
use crate::algebra::semigroup::Semigroup;

verus! {

/// A semigroup with an identity element.
pub trait Monoid<A>: Semigroup<A> where A: Associativity<A> + Identity<A> {
    fn empty() -> (r: A)
        ensures
            <A as Associativity<A>>::model(r) == <A as Identity<A>>::unit(),
    ;
}

impl<T> Monoid<T> for T where T: Associativity<T> + Identity<T> {
    fn empty() -> (r: T) {
        T::identity()
    }
}

} // verus!
