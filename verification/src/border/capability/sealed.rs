//! What keeps the set of seat states closed: the module is private, so no other
//! crate can name the trait and none can add a state.
use vstd::prelude::*;

verus! {

pub trait Sealed {

}

} // verus!
