//! Sealing of the [`Pattern`][crate::Pattern] trait.
use vstd::prelude::*;

verus! {

/// Implemented only by the recurrence patterns of this crate.
pub trait Sealed {

}

} // verus!
