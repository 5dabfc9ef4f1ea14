//! Reading a value of some type from text.

use vstd::prelude::*;

verus! {

/// A type that reads values of `A` from text, or says why it cannot.
pub trait Parser<A> {
    fn parse(input: &str) -> Result<A, String>;
}

} // verus!
