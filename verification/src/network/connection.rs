//! Connection states as types: a connection can only reach a state through
//! the transitions allowed from the state before it (disconnected → handshaking
//! → authenticated → encrypted), so data cannot be sent encrypted before the
//! handshake, nor a session used before authentication.

use vstd::prelude::*;
use crate::network::addr::PeerAddr;
use crate::network::session::SessionState;

verus! {

/// Not connected.
pub struct Disconnected;

/// Handshake under way.
pub struct Handshaking {
    pub remote_addr: PeerAddr,
    pub local_nonce: [u8; 32],
}

/// Peer authenticated, traffic not yet encrypted.
pub struct Authenticated {
    pub remote_addr: PeerAddr,
    pub remote_node_id: String,
    pub remote_x25519_pubkey: [u8; 32],
}

/// Encrypted and ready for traffic.
pub struct Encrypted {
    pub session: SessionState,
}

/// A connection in state `S`.
pub struct Connection<S> {
    state: S,
}

impl<S> View for Connection<S> {
    type V = S;

    closed spec fn view(&self) -> S {
        self.state
    }
}

impl Connection<Disconnected> {
    /// A new, disconnected connection.
    pub fn new() -> (c: Self)
        ensures
            c@ == Disconnected,
    {
        Connection { state: Disconnected }
    }

    /// Starts a handshake with a peer.
    pub fn start_handshake(self, remote_addr: PeerAddr, local_nonce: [u8; 32]) -> (c: Connection<Handshaking>)
        ensures
            c@ == (Handshaking { remote_addr, local_nonce }),
    {
        Connection { state: Handshaking { remote_addr, local_nonce } }
    }
}

impl Connection<Handshaking> {
    /// The peer's address.
    pub fn remote_addr(&self) -> (a: PeerAddr)
        ensures
            a == self@.remote_addr,
    {
        self.state.remote_addr
    }

    /// The nonce this side chose.
    pub fn local_nonce(&self) -> (n: [u8; 32])
        ensures
            n == self@.local_nonce,
    {
        self.state.local_nonce
    }

    /// The peer proved its identity: the connection is authenticated.
    pub fn authenticate(self, remote_node_id: String, remote_x25519_pubkey: [u8; 32]) -> (c: Connection<Authenticated>)
        ensures
            c@.remote_addr == self@.remote_addr,
            c@.remote_node_id == remote_node_id,
            c@.remote_x25519_pubkey == remote_x25519_pubkey,
    {
        Connection {
            state: Authenticated { remote_addr: self.state.remote_addr, remote_node_id, remote_x25519_pubkey },
        }
    }

    /// The handshake failed: back to disconnected.
    pub fn fail(self) -> (c: Connection<Disconnected>)
        ensures
            c@ == Disconnected,
    {
        Connection { state: Disconnected }
    }
}

impl Connection<Authenticated> {
    /// The peer's address.
    pub fn remote_addr(&self) -> (a: PeerAddr)
        ensures
            a == self@.remote_addr,
    {
        self.state.remote_addr
    }

    /// The peer's node identifier.
    pub fn remote_node_id(&self) -> (id: &str)
        ensures
            id@ == self@.remote_node_id@,
    {
        self.state.remote_node_id.as_str()
    }

    /// The peer's X25519 public key.
    pub fn remote_x25519_pubkey(&self) -> (k: &[u8; 32])
        ensures
            *k == self@.remote_x25519_pubkey,
    {
        &self.state.remote_x25519_pubkey
    }

    /// A session was established: the connection is encrypted.
    pub fn encrypt(self, session: SessionState) -> (c: Connection<Encrypted>)
        ensures
            c@.session == session,
    {
        Connection { state: Encrypted { session } }
    }
}

impl Connection<Encrypted> {
    /// The session.
    pub fn session(&self) -> (s: &SessionState)
        ensures
            *s == self@.session,
    {
        &self.state.session
    }

    /// The session, for updating its counters.
    pub fn session_mut(&mut self) -> (s: &mut SessionState)
        ensures
            *s == old(self)@.session,
            final(self)@.session == *final(s),
    {
        &mut self.state.session
    }

    /// Closes the connection.
    pub fn disconnect(self) -> (c: Connection<Disconnected>)
        ensures
            c@ == Disconnected,
    {
        Connection { state: Disconnected }
    }
}

impl Default for Connection<Disconnected> {
    fn default() -> (c: Self)
        ensures
            c@ == Disconnected,
    {
        Connection::new()
    }
}

} // verus!
