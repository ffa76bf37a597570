//! NexoIA: evidence-strength bookkeeping, provenance chains, the NEX policy
//! language and the wire formats of the peer-to-peer layer, with their
//! contracts proved by Verus.

pub mod ai;
pub mod bytes;
pub mod clock;
pub mod decision;
pub mod defense;
pub mod evidence;
pub mod explain;
pub mod hash;
pub mod ids;
pub mod lgpd;
pub mod lgpd_rights;
pub mod limits;
pub mod text;
pub mod textmap;
pub mod addrmap;
pub mod types;
pub mod pipeline;
pub mod provenance;
pub mod quality;
pub mod state;
pub mod sync;
pub mod network;
pub mod nex;
