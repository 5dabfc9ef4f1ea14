//! The capabilities a type registers: an associative combination, and a
//! neutral element for it. Each registration proves its law.

use vstd::prelude::*;

verus! {

/// An associative binary operation on `A`.
///
/// `Model` is what a value means for the law, `model` maps a value to it, and
/// `op` is the operation on meanings; `lemma_associative` is the law itself.
pub trait Associativity<A>: Sized {
    type Model;

    spec fn model(a: A) -> Self::Model;

    spec fn op(x: Self::Model, y: Self::Model) -> Self::Model;

    proof fn lemma_associative(x: Self::Model, y: Self::Model, z: Self::Model)
        ensures
            Self::op(Self::op(x, y), z) == Self::op(x, Self::op(y, z)),
    ;

    fn associativity(lhs: A, rhs: A) -> (r: A)
        ensures
            Self::model(r) == Self::op(Self::model(lhs), Self::model(rhs)),
    ;
}

/// A neutral element for the associative operation on `A`.
pub trait Identity<A>: Associativity<A> {
    spec fn unit() -> Self::Model;

    proof fn lemma_identity(x: Self::Model)
        ensures
            Self::op(Self::unit(), x) == x,
            Self::op(x, Self::unit()) == x,
    ;

    fn identity() -> (r: A)
        ensures
            Self::model(r) == Self::unit(),
    ;
}

} // verus!
