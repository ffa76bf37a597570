//! Provenance of evidence records: chains, blinding, signing messages, typed
//! nodes and witnesses.

pub mod aggregator;
pub mod compose;
mod pair_sealed;
mod sealed;
pub mod signing;
pub mod typed_node;
pub mod verify;
pub mod witness;
