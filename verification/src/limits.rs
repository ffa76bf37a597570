//! Resource limits. Each is enforced when an entry is inserted, by eviction
//! or rejection.

use vstd::prelude::*;

verus! {

/// Most handshakes under way at once; further ones are rejected.
pub const MAX_PENDING_HANDSHAKES: usize = 1_024;

/// Most known peers. The peer list evicts the oldest; the list of
/// authenticated peers evicts the one authenticated earliest.
pub const MAX_PEERS: usize = 512;

/// Most peers whose heartbeat state is tracked; the one seen least recently
/// leaves first.
pub const MAX_PEER_STATES: usize = 512;

/// Most active sessions.
pub const MAX_SESSIONS: usize = 4_096;

/// Most reputation entries.
pub const MAX_REPUTATION_ENTRIES: usize = 10_000;

/// Most evidence packages held in memory; the oldest leaves first.
pub const MAX_EPA_ENTRIES: usize = 10_000;

/// Most distinct sources the rate limiter tracks.
pub const MAX_RATE_LIMIT_SOURCES: usize = 100_000;

/// Longest source key the rate limiter accepts, in bytes.
pub const MAX_RATE_LIMIT_KEY_LEN: usize = 128;

} // verus!
