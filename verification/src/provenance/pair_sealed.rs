//! The seal that keeps the strength pairs closed to outside implementations.

use vstd::prelude::*;

verus! {

/// Implemented only for the pairs of strength markers of this crate.
pub trait Sealed<Rhs> {}

} // verus!
