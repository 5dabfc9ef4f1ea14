//! Semigroups: types that can be combined.

use vstd::prelude::*;
use crate::algebra::laws::Associativity;

verus! {

/// A set with an associative binary operation, such as integers under
/// addition or lists under concatenation.
pub trait Semigroup<A> where A: Associativity<A> {
    fn combine(a: A, b: A) -> (r: A)
        ensures
            <A as Associativity<A>>::model(r) == <A as Associativity<A>>::op(
                <A as Associativity<A>>::model(a),
                <A as Associativity<A>>::model(b),
            ),
    ;
}

impl<T> Semigroup<T> for T where T: Associativity<T> {
    fn combine(a: T, b: T) -> (r: T) {
        T::associativity(a, b)
    }
}

} // verus!
