//! Things that run on their own and return a value or an error.

use vstd::prelude::*;

verus! {

/// Something that runs without arguments, giving a `B` or failing with a `C`.
pub trait Execute<A, B, C> {
    /// Holds of what running returns.
    spec fn executed(&self, r: Result<B, C>) -> bool;

    fn execute(&self) -> (r: Result<B, C>)
        ensures
            self.executed(r),
    ;
}

} // verus!
