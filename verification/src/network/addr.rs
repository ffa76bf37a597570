//! Peer addresses, as plain values: an IP address (IPv4 as a `u32`, IPv6 as a
//! `u128`, both in network order) and a port.

use vstd::prelude::*;

verus! {

/// A peer's socket address.
#[derive(Debug, Clone, Copy, PartialEq, Eq, Structural, Hash)]
pub enum PeerAddr {
    V4 { ip: u32, port: u16 },
    V6 { ip: u128, port: u16, flowinfo: u32, scope_id: u32 },
}

} // verus!
