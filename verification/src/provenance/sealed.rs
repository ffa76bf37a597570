//! The seal that keeps the strength markers closed to outside implementations.

use vstd::prelude::*;

verus! {

/// Implemented only by the strength markers of this crate.
pub trait Sealed {}

} // verus!
