//! Peer bookkeeping of the transport: the heartbeat state of a peer, the list
//! of known peers, the list of authenticated peers, and the frame that wraps a
//! message on the wire.
//!
//! Times are milliseconds since the Unix epoch, UTC.

use vstd::prelude::*;
use crate::bytes::{be_u32, copy_range, push_bytes, push_u32_be, read_u32_be, u32_be};
use crate::clock::now_millis;
use crate::network::addr::PeerAddr;

verus! {

/// Heartbeats kept in the sliding window of a peer.
pub const HEARTBEAT_WINDOW_SIZE: usize = 5;

/// Misses needed before a silent peer counts as inactive.
pub const MIN_MISSES_FOR_INACTIVE: u32 = 3;

/// Reconnection attempts after which a peer is no longer retried.
pub const MAX_RECONNECT_ATTEMPTS: u32 = 5;

/// Heartbeat and reconnection state of a peer.
#[derive(Debug, Clone)]
pub struct PeerState {
    pub last_heartbeat: i64,
    pub consecutive_misses: u32,
    pub last_seen: i64,
    pub reconnect_attempts: u32,
    pub next_reconnect: i64,
    /// The times of the last heartbeats, oldest first.
    pub heartbeat_window: Vec<i64>,
}

/// The window after a heartbeat at `now`: the oldest entry leaves a full window.
pub open spec fn window_after(w: Seq<i64>, now: i64) -> Seq<i64> {
    if w.len() == HEARTBEAT_WINDOW_SIZE {
        w.drop_first().push(now)
    } else {
        w.push(now)
    }
}

/// The reconnection delay, in seconds, after `attempts` attempts: five
/// seconds doubled per attempt, capped at the fifth.
pub open spec fn backoff_secs(attempts: u32) -> int {
    let e: nat = if attempts < 5 { attempts as nat } else { 5 };
    (vstd::arithmetic::power2::pow2(e) * 5) as int
}

/// A peer is inactive when it never sent a heartbeat, or when its last
/// heartbeat is older than the timeout and enough heartbeats were missed.
pub open spec fn spec_is_inactive(w: Seq<i64>, misses: u32, timeout_secs: i64, now: i64) -> bool {
    if w.len() == 0 {
        true
    } else {
        now - w.last() > timeout_secs * 1000 && misses >= MIN_MISSES_FOR_INACTIVE
    }
}

impl PeerState {
    /// A fresh state at time `now`: no misses, no attempts, an empty window.
    pub fn new_at(now: i64) -> (s: Self)
        ensures
            s.last_heartbeat == now,
            s.last_seen == now,
            s.next_reconnect == now,
            s.consecutive_misses == 0,
            s.reconnect_attempts == 0,
            s.heartbeat_window@ == Seq::<i64>::empty(),
    {
        PeerState {
            last_heartbeat: now,
            consecutive_misses: 0,
            last_seen: now,
            reconnect_attempts: 0,
            next_reconnect: now,
            heartbeat_window: Vec::new(),
        }
    }

    /// A fresh state at the current time.
    pub fn new() -> (s: Self)
        ensures
            s.consecutive_misses == 0,
            s.reconnect_attempts == 0,
            s.heartbeat_window@ == Seq::<i64>::empty(),
            s.last_heartbeat == s.last_seen,
            s.next_reconnect == s.last_seen,
    {
        PeerState::new_at(now_millis())
    }

    /// Records a heartbeat received at `now`: misses and attempts reset, and
    /// `now` enters the window, which keeps its last entries only.
    pub fn record_heartbeat_at(&mut self, now: i64)
        ensures
            final(self).last_heartbeat == now,
            final(self).last_seen == now,
            final(self).consecutive_misses == 0,
            final(self).reconnect_attempts == 0,
            final(self).next_reconnect == old(self).next_reconnect,
            final(self).heartbeat_window@ == window_after(old(self).heartbeat_window@, now),
    {
        self.last_heartbeat = now;
        self.last_seen = now;
        self.consecutive_misses = 0;
        self.reconnect_attempts = 0;
        if self.heartbeat_window.len() == HEARTBEAT_WINDOW_SIZE {
            self.heartbeat_window.remove(0);
        }
        self.heartbeat_window.push(now);
    }

    /// Records a heartbeat received now.
    pub fn record_heartbeat(&mut self)
        ensures
            final(self).last_heartbeat == final(self).last_seen,
            final(self).consecutive_misses == 0,
            final(self).reconnect_attempts == 0,
            final(self).next_reconnect == old(self).next_reconnect,
            final(self).heartbeat_window@ == window_after(old(self).heartbeat_window@, final(self).last_seen),
    {
        let now = now_millis();
        self.record_heartbeat_at(now);
    }

    /// Records a missed heartbeat.
    pub fn record_miss(&mut self)
        requires
            old(self).consecutive_misses < u32::MAX,
        ensures
            final(self).consecutive_misses == old(self).consecutive_misses + 1,
            final(self).heartbeat_window@ == old(self).heartbeat_window@,
            final(self).last_heartbeat == old(self).last_heartbeat,
            final(self).last_seen == old(self).last_seen,
            final(self).reconnect_attempts == old(self).reconnect_attempts,
            final(self).next_reconnect == old(self).next_reconnect,
    {
        self.consecutive_misses = self.consecutive_misses + 1;
    }

    /// Whether the peer is inactive at `now` (see `spec_is_inactive`).
    pub fn is_inactive_at(&self, timeout_secs: i64, now: i64) -> (b: bool)
        requires
            -9_223_372_036_854_775 <= timeout_secs <= 9_223_372_036_854_775,
        ensures
            b == spec_is_inactive(self.heartbeat_window@, self.consecutive_misses, timeout_secs, now),
    {
        if self.heartbeat_window.len() == 0 {
            return true;
        }
        let last = self.heartbeat_window[self.heartbeat_window.len() - 1];
        let age: i128 = now as i128 - last as i128;
        let limit: i128 = timeout_secs as i128 * 1000;
        age > limit && self.consecutive_misses >= MIN_MISSES_FOR_INACTIVE
    }

    /// Whether the peer is inactive now.
    pub fn is_inactive(&self, timeout_secs: i64) -> (b: bool)
        requires
            -9_223_372_036_854_775 <= timeout_secs <= 9_223_372_036_854_775,
        ensures
            self.heartbeat_window@.len() == 0 ==> b,
            self.consecutive_misses < MIN_MISSES_FOR_INACTIVE && self.heartbeat_window@.len() > 0 ==> !b,
    {
        self.is_inactive_at(timeout_secs, now_millis())
    }

    /// Counts a reconnection attempt and schedules the next one after the
    /// backoff delay from `now`.
    pub fn schedule_reconnect_at(&mut self, now: i64)
        requires
            old(self).reconnect_attempts < u32::MAX,
            now <= i64::MAX - 160_000,
        ensures
            final(self).reconnect_attempts == old(self).reconnect_attempts + 1,
            final(self).next_reconnect == now + backoff_secs(final(self).reconnect_attempts) * 1000,
            final(self).consecutive_misses == old(self).consecutive_misses,
            final(self).heartbeat_window@ == old(self).heartbeat_window@,
            final(self).last_heartbeat == old(self).last_heartbeat,
            final(self).last_seen == old(self).last_seen,
    {
        self.reconnect_attempts = self.reconnect_attempts + 1;
        let e: u32 = if self.reconnect_attempts < 5 { self.reconnect_attempts } else { 5 };
        let mut p: i64 = 1;
        let mut i: u32 = 0;
        proof {
            vstd::arithmetic::power2::lemma2_to64();
        }
        while i < e
            invariant
                i <= e <= 5,
                p == vstd::arithmetic::power2::pow2(i as nat),
            decreases e - i,
        {
            proof {
                vstd::arithmetic::power2::lemma_pow2_unfold((i + 1) as nat);
                vstd::arithmetic::power2::lemma_pow2_strictly_increases(i as nat, 5);
                vstd::arithmetic::power2::lemma2_to64();
            }
            p = p * 2;
            i = i + 1;
        }
        proof {
            vstd::arithmetic::power2::lemma2_to64();
        }
        let backoff: i64 = p * 5;
        self.next_reconnect = now + backoff * 1000;
    }

    /// Schedules the next reconnection from now.
    pub fn schedule_reconnect(&mut self)
        requires
            old(self).reconnect_attempts < u32::MAX,
        ensures
            final(self).reconnect_attempts == old(self).reconnect_attempts + 1,
            final(self).consecutive_misses == old(self).consecutive_misses,
            final(self).heartbeat_window@ == old(self).heartbeat_window@,
            final(self).last_heartbeat == old(self).last_heartbeat,
            final(self).last_seen == old(self).last_seen,
    {
        let now = now_millis();
        if now <= i64::MAX - 160_000 {
            self.schedule_reconnect_at(now);
        } else {
            self.reconnect_attempts = self.reconnect_attempts + 1;
            self.next_reconnect = i64::MAX;
        }
    }

    /// Whether a reconnection is due at `now`: its time has come and the
    /// attempts are not exhausted.
    pub fn should_reconnect_at(&self, now: i64) -> (b: bool)
        ensures
            b == (now >= self.next_reconnect && self.reconnect_attempts <= MAX_RECONNECT_ATTEMPTS),
    {
        now >= self.next_reconnect && self.reconnect_attempts <= MAX_RECONNECT_ATTEMPTS
    }

    /// Whether a reconnection is due now.
    pub fn should_reconnect(&self) -> (b: bool)
        ensures
            self.reconnect_attempts > MAX_RECONNECT_ATTEMPTS ==> !b,
    {
        self.should_reconnect_at(now_millis())
    }
}

/// No address occurs twice.
pub open spec fn distinct_addrs(s: Seq<PeerAddr>) -> bool {
    forall|i: int, j: int| 0 <= i < j < s.len() ==> s[i] != s[j]
}

/// The list after `add`: a known address changes nothing; a new one is
/// appended, after the oldest entry left a full list (a list with no room at
/// all takes nothing).
pub open spec fn peers_after_add(s: Seq<PeerAddr>, max: nat, a: PeerAddr) -> Seq<PeerAddr> {
    if s.contains(a) {
        s
    } else if s.len() >= max {
        if s.len() == 0 { s } else { s.drop_first().push(a) }
    } else {
        s.push(a)
    }
}

/// The list after adding each address in turn.
pub open spec fn peers_after_adds(s: Seq<PeerAddr>, max: nat, addrs: Seq<PeerAddr>) -> Seq<PeerAddr>
    decreases addrs.len(),
{
    if addrs.len() == 0 {
        s
    } else {
        peers_after_add(peers_after_adds(s, max, addrs.drop_last()), max, addrs.last())
    }
}

/// Known peers, oldest first, at most `max_peers` of them and each once.
pub struct PeerList {
    peers: Vec<PeerAddr>,
    max_peers: usize,
}

impl View for PeerList {
    type V = Seq<PeerAddr>;

    closed spec fn view(&self) -> Seq<PeerAddr> {
        self.peers@
    }
}

impl PeerList {
    #[verifier::type_invariant]
    closed spec fn wf(self) -> bool {
        distinct_addrs(self.peers@) && self.peers@.len() <= self.max_peers
    }

    /// The capacity of the list.
    pub closed spec fn capacity(&self) -> nat {
        self.max_peers as nat
    }

    /// An empty list with room for `max_peers` peers.
    pub fn new(max_peers: usize) -> (l: Self)
        ensures
            l@ == Seq::<PeerAddr>::empty(),
            l.capacity() == max_peers,
    {
        PeerList { peers: Vec::new(), max_peers }
    }

    /// A list built by adding each address in turn.
    pub fn from_addrs(addrs: Vec<PeerAddr>, max_peers: usize) -> (l: Self)
        ensures
            l@ == peers_after_adds(Seq::empty(), max_peers as nat, addrs@),
            l.capacity() == max_peers,
    {
        let mut list = PeerList::new(max_peers);
        let mut i: usize = 0;
        while i < addrs.len()
            invariant
                i <= addrs.len(),
                list.capacity() == max_peers,
                list@ == peers_after_adds(Seq::empty(), max_peers as nat, addrs@.take(i as int)),
            decreases addrs.len() - i,
        {
            proof {
                assert(addrs@.take(i + 1).drop_last() =~= addrs@.take(i as int));
            }
            list.add(addrs[i]);
            i += 1;
        }
        proof {
            assert(addrs@.take(addrs.len() as int) =~= addrs@);
        }
        list
    }

    fn position(&self, addr: &PeerAddr) -> (r: Option<usize>)
        ensures
            match r {
                Some(i) => i < self@.len() && self@[i as int] == *addr,
                None => !self@.contains(*addr),
            },
    {
        let mut i: usize = 0;
        while i < self.peers.len()
            invariant
                i <= self.peers.len(),
                forall|k: int| 0 <= k < i ==> self.peers@[k] != *addr,
            decreases self.peers.len() - i,
        {
            if self.peers[i] == *addr {
                return Some(i);
            }
            i += 1;
        }
        None
    }

    /// Adds an address; see `peers_after_add`. Returns whether it was taken.
    pub fn add(&mut self, addr: PeerAddr) -> (taken: bool)
        ensures
            final(self)@ == peers_after_add(old(self)@, old(self).capacity(), addr),
            final(self).capacity() == old(self).capacity(),
            taken == (!old(self)@.contains(addr) && (old(self)@.len() < old(self).capacity() || old(self)@.len() > 0)),
    {
        proof { use_type_invariant(&*self); }
        if self.position(&addr).is_some() {
            return false;
        }
        let mut peers: Vec<PeerAddr> = Vec::new();
        std::mem::swap(&mut peers, &mut self.peers);
        let ghost p0 = peers@;
        if peers.len() >= self.max_peers {
            if peers.len() == 0 {
                self.peers = peers;
                return false;
            }
            peers.remove(0);
            assert(peers@ =~= p0.drop_first());
        }
        peers.push(addr);
        proof {
            let p1 = peers@;
            assert forall|i: int, j: int| 0 <= i < j < p1.len() implies p1[i] != p1[j] by {
                if j == p1.len() - 1 {
                    if p0.len() >= self.max_peers {
                        assert(p1[i] == p0[i + 1]);
                    } else {
                        assert(p1[i] == p0[i]);
                    }
                } else if p0.len() >= self.max_peers {
                    assert(p1[i] == p0[i + 1] && p1[j] == p0[j + 1]);
                }
            }
        }
        self.peers = peers;
        true
    }

    /// Removes an address; returns whether it was there.
    pub fn remove(&mut self, addr: &PeerAddr) -> (removed: bool)
        ensures
            final(self).capacity() == old(self).capacity(),
            removed == old(self)@.contains(*addr),
            removed ==> exists|k: int| 0 <= k < old(self)@.len() && old(self)@[k] == *addr
                && final(self)@ == old(self)@.remove(k),
            !removed ==> final(self)@ == old(self)@,
    {
        proof { use_type_invariant(&*self); }
        let ghost p0 = self.peers@;
        match self.position(addr) {
            Some(i) => {
                let mut peers: Vec<PeerAddr> = Vec::new();
                std::mem::swap(&mut peers, &mut self.peers);
                peers.remove(i);
                proof {
                    let p1 = peers@;
                    assert(p1 =~= p0.remove(i as int));
                    assert forall|a: int, b: int| 0 <= a < b < p1.len() implies p1[a] != p1[b] by {
                        let a0 = if a < i { a } else { a + 1 };
                        let b0 = if b < i { b } else { b + 1 };
                        assert(p1[a] == p0[a0] && p1[b] == p0[b0]);
                    }
                }
                self.peers = peers;
                true
            },
            None => false,
        }
    }

    /// Whether the address is known.
    pub fn contains(&self, addr: &PeerAddr) -> (b: bool)
        ensures
            b == self@.contains(*addr),
    {
        self.position(addr).is_some()
    }

    /// The known addresses, oldest first.
    pub fn peers(&self) -> (s: &[PeerAddr])
        ensures
            s@ == self@,
    {
        self.peers.as_slice()
    }

    /// The number of known peers.
    pub fn len(&self) -> (n: usize)
        ensures
            n == self@.len(),
    {
        self.peers.len()
    }

    /// Whether no peer is known.
    pub fn is_empty(&self) -> (b: bool)
        ensures
            b == (self@.len() == 0),
    {
        self.peers.len() == 0
    }
}

/// A peer authenticated by the handshake.
#[derive(Debug, Clone)]
pub struct TrustedPeer {
    pub node_id: String,
    pub public_key: String,
    pub encryption_public_key: [u8; 32],
    pub addr: PeerAddr,
    /// When the handshake completed.
    pub authenticated_at: i64,
}

/// The addresses of a list of peers.
pub open spec fn trusted_addrs(s: Seq<TrustedPeer>) -> Seq<PeerAddr> {
    s.map_values(|p: TrustedPeer| p.addr)
}

/// `k` is the first of the peers authenticated earliest.
pub open spec fn is_oldest(s: Seq<TrustedPeer>, k: int) -> bool {
    &&& 0 <= k < s.len()
    &&& forall|j: int| 0 <= j < s.len() ==> s[k].authenticated_at <= #[trigger] s[j].authenticated_at
    &&& forall|j: int| 0 <= j < k ==> s[k].authenticated_at < #[trigger] s[j].authenticated_at
}

/// The list after adding a peer, and whether the peer was taken: a known
/// address changes nothing; in a full list the first of the earliest
/// authenticated peers leaves first; a list with no room at all takes nothing.
pub open spec fn trusted_after_add(s: Seq<TrustedPeer>, cap: nat, peer: TrustedPeer, t: Seq<TrustedPeer>, taken: bool) -> bool {
    if trusted_addrs(s).contains(peer.addr) {
        !taken && t == s
    } else if s.len() < cap {
        taken && t == s.push(peer)
    } else if s.len() == 0 {
        !taken && t == s
    } else {
        taken && exists|k: int| is_oldest(s, k) && t == s.remove(k).push(peer)
    }
}

/// Authenticated peers, each address once, at most `max_peers` of them.
pub struct TrustedPeerList {
    peers: Vec<TrustedPeer>,
    max_peers: usize,
}

impl View for TrustedPeerList {
    type V = Seq<TrustedPeer>;

    closed spec fn view(&self) -> Seq<TrustedPeer> {
        self.peers@
    }
}

impl TrustedPeerList {
    #[verifier::type_invariant]
    closed spec fn wf(self) -> bool {
        distinct_addrs(trusted_addrs(self.peers@)) && self.peers@.len() <= self.max_peers
    }

    /// The capacity of the list.
    pub closed spec fn capacity(&self) -> nat {
        self.max_peers as nat
    }

    /// An empty list with room for `max_peers` peers.
    pub fn new(max_peers: usize) -> (l: Self)
        ensures
            l@ == Seq::<TrustedPeer>::empty(),
            l.capacity() == max_peers,
    {
        TrustedPeerList { peers: Vec::new(), max_peers }
    }

    fn position(&self, addr: &PeerAddr) -> (r: Option<usize>)
        ensures
            match r {
                Some(i) => i < self@.len() && self@[i as int].addr == *addr,
                None => !trusted_addrs(self@).contains(*addr),
            },
    {
        let mut i: usize = 0;
        while i < self.peers.len()
            invariant
                i <= self.peers.len(),
                forall|k: int| 0 <= k < i ==> self.peers@[k].addr != *addr,
            decreases self.peers.len() - i,
        {
            if self.peers[i].addr == *addr {
                return Some(i);
            }
            i += 1;
        }
        proof {
            if trusted_addrs(self@).contains(*addr) {
                let k = choose|k: int| 0 <= k < trusted_addrs(self@).len() && trusted_addrs(self@)[k] == *addr;
                assert(self.peers@[k].addr == *addr);
            }
        }
        None
    }

    fn oldest(&self) -> (k: usize)
        requires
            self@.len() > 0,
        ensures
            is_oldest(self@, k as int),
    {
        let mut best: usize = 0;
        let mut i: usize = 1;
        while i < self.peers.len()
            invariant
                1 <= i <= self.peers.len(),
                best < i,
                forall|j: int| 0 <= j < i ==> self.peers@[best as int].authenticated_at <= #[trigger] self.peers@[j].authenticated_at,
                forall|j: int| 0 <= j < best ==> self.peers@[best as int].authenticated_at < #[trigger] self.peers@[j].authenticated_at,
            decreases self.peers.len() - i,
        {
            if self.peers[i].authenticated_at < self.peers[best].authenticated_at {
                best = i;
            }
            i += 1;
        }
        best
    }

    /// Adds a peer. A known address changes nothing and gives `false`; in a
    /// full list the first of the earliest authenticated peers leaves first;
    /// a list with no room at all takes nothing.
    pub fn add(&mut self, peer: TrustedPeer) -> (taken: bool)
        ensures
            final(self).capacity() == old(self).capacity(),
            trusted_after_add(old(self)@, old(self).capacity(), peer, final(self)@, taken),
            trusted_addrs(old(self)@).contains(peer.addr) ==> !taken && final(self)@ == old(self)@,
            !trusted_addrs(old(self)@).contains(peer.addr) && old(self)@.len() < old(self).capacity() ==>
                taken && final(self)@ == old(self)@.push(peer),
            !trusted_addrs(old(self)@).contains(peer.addr) && old(self)@.len() >= old(self).capacity()
                && old(self)@.len() == 0 ==> !taken && final(self)@ == old(self)@,
            !trusted_addrs(old(self)@).contains(peer.addr) && old(self)@.len() >= old(self).capacity()
                && old(self)@.len() > 0 ==> taken && exists|k: int| is_oldest(old(self)@, k)
                    && final(self)@ == old(self)@.remove(k).push(peer),
    {
        proof { use_type_invariant(&*self); }
        match self.position(&peer.addr) {
            Some(i) => {
                proof {
                    assert(trusted_addrs(self@)[i as int] == peer.addr);
                }
                return false;
            },
            None => {},
        }
        let ghost p0 = self.peers@;
        let ghost a0 = trusted_addrs(p0);
        let mut peers: Vec<TrustedPeer> = Vec::new();
        if self.peers.len() >= self.max_peers {
            if self.peers.len() == 0 {
                return false;
            }
            let k = self.oldest();
            std::mem::swap(&mut peers, &mut self.peers);
            peers.remove(k);
            let ghost p1 = peers@;
            assert(p1 =~= p0.remove(k as int));
            let ghost addr = peer.addr;
            peers.push(peer);
            proof {
                let p2 = peers@;
                let a2 = trusted_addrs(p2);
                assert forall|i: int, j: int| 0 <= i < j < a2.len() implies a2[i] != a2[j] by {
                    let i0 = if i < k { i } else { i + 1 };
                    assert(a2[i] == a0[i0]);
                    if j == p2.len() - 1 {
                        assert(a2[j] == addr);
                        assert(a0.contains(a0[i0]));
                    } else {
                        let j0 = if j < k { j } else { j + 1 };
                        assert(a2[j] == a0[j0]);
                    }
                }
                assert(p2 =~= p0.remove(k as int).push(p2.last()));
            }
            self.peers = peers;
            return true;
        }
        std::mem::swap(&mut peers, &mut self.peers);
        let ghost addr = peer.addr;
        peers.push(peer);
        proof {
            let p2 = peers@;
            let a2 = trusted_addrs(p2);
            assert forall|i: int, j: int| 0 <= i < j < a2.len() implies a2[i] != a2[j] by {
                assert(a2[i] == a0[i]);
                if j < p0.len() {
                    assert(a2[j] == a0[j]);
                } else {
                    assert(a0.contains(a0[i]));
                }
            }
        }
        self.peers = peers;
        true
    }

    /// The peer with this address, if any.
    pub fn get(&self, addr: &PeerAddr) -> (r: Option<&TrustedPeer>)
        ensures
            match r {
                Some(p) => exists|i: int| 0 <= i < self@.len() && self@[i] == *p && p.addr == *addr,
                None => !trusted_addrs(self@).contains(*addr),
            },
    {
        match self.position(addr) {
            Some(i) => Some(&self.peers[i]),
            None => None,
        }
    }

    /// Whether a peer with this address is in the list.
    pub fn contains(&self, addr: &PeerAddr) -> (b: bool)
        ensures
            b == trusted_addrs(self@).contains(*addr),
    {
        match self.position(addr) {
            Some(i) => {
                proof {
                    assert(trusted_addrs(self@)[i as int] == *addr);
                }
                true
            },
            None => false,
        }
    }

    /// The number of peers.
    pub fn len(&self) -> (n: usize)
        ensures
            n == self@.len(),
    {
        self.peers.len()
    }

    /// Whether the list is empty.
    pub fn is_empty(&self) -> (b: bool)
        ensures
            b == (self@.len() == 0),
    {
        self.peers.len() == 0
    }

    /// The peers, in the order they were added.
    pub fn peers(&self) -> (s: &[TrustedPeer])
        ensures
            s@ == self@,
    {
        self.peers.as_slice()
    }

    /// The addresses of the peers, in the order they were added.
    pub fn addrs(&self) -> (r: Vec<PeerAddr>)
        ensures
            r@ == trusted_addrs(self@),
    {
        let mut r: Vec<PeerAddr> = Vec::new();
        let mut i: usize = 0;
        while i < self.peers.len()
            invariant
                i <= self.peers.len(),
                r@ =~= trusted_addrs(self.peers@.take(i as int)),
            decreases self.peers.len() - i,
        {
            r.push(self.peers[i].addr);
            proof {
                assert(trusted_addrs(self.peers@.take(i + 1)) =~= trusted_addrs(self.peers@.take(i as int)).push(self.peers@[i as int].addr));
            }
            i += 1;
        }
        proof {
            assert(self.peers@.take(self.peers.len() as int) =~= self.peers@);
        }
        r
    }

    /// Removes the peer with this address; returns whether there was one.
    pub fn remove(&mut self, addr: &PeerAddr) -> (removed: bool)
        ensures
            final(self).capacity() == old(self).capacity(),
            removed == trusted_addrs(old(self)@).contains(*addr),
            removed ==> exists|k: int| 0 <= k < old(self)@.len() && old(self)@[k].addr == *addr
                && final(self)@ == old(self)@.remove(k),
            !removed ==> final(self)@ == old(self)@,
            !trusted_addrs(final(self)@).contains(*addr),
    {
        proof { use_type_invariant(&*self); }
        match self.position(addr) {
            Some(k) => {
                let ghost p0 = self.peers@;
                let ghost a0 = trusted_addrs(p0);
                let mut peers: Vec<TrustedPeer> = Vec::new();
                std::mem::swap(&mut peers, &mut self.peers);
                peers.remove(k);
                proof {
                    let p1 = peers@;
                    assert(p1 =~= p0.remove(k as int));
                    let a1 = trusted_addrs(p1);
                    assert forall|i: int, j: int| 0 <= i < j < a1.len() implies a1[i] != a1[j] by {
                        let i0 = if i < k { i } else { i + 1 };
                        let j0 = if j < k { j } else { j + 1 };
                        assert(a1[i] == a0[i0] && a1[j] == a0[j0]);
                    }
                    assert(a0[k as int] == *addr);
                    if a1.contains(*addr) {
                        let j = choose|j: int| 0 <= j < a1.len() && a1[j] == *addr;
                        let j0 = if j < k { j } else { j + 1 };
                        assert(a0[j0] == *addr);
                    }
                }
                self.peers = peers;
                true
            },
            None => false,
        }
    }
}

/// Why a received datagram is not a frame.
#[derive(Debug, Clone, Copy, PartialEq, Eq, Structural)]
pub enum FrameError {
    /// Fewer than the four bytes of the length prefix.
    TooShort,
    /// Fewer payload bytes than the prefix announces.
    Truncated,
}

impl FrameError {
    /// The message of the error.
    pub open spec fn spec_message(self) -> Seq<char> {
        match self {
            FrameError::TooShort => "Message too short for frame header"@,
            FrameError::Truncated => "Message truncated"@,
        }
    }

    /// The message of the error.
    pub fn message(self) -> (s: &'static str)
        ensures
            s@ == self.spec_message(),
    {
        match self {
            FrameError::TooShort => "Message too short for frame header",
            FrameError::Truncated => "Message truncated",
        }
    }
}

/// The frame of a payload: its length as four big-endian bytes (the length
/// taken modulo 2^32, as a `u32` cast does), then the payload.
pub open spec fn spec_frame(data: Seq<u8>) -> Seq<u8> {
    u32_be(data.len() as u32) + data
}

/// What a received datagram holds: the payload its prefix announces.
pub open spec fn spec_unframe(buf: Seq<u8>) -> Result<Seq<u8>, FrameError> {
    if buf.len() < 4 {
        Err(FrameError::TooShort)
    } else {
        let n = be_u32(buf.subrange(0, 4));
        if buf.len() < 4 + n {
            Err(FrameError::Truncated)
        } else {
            Ok(buf.subrange(4, 4 + n))
        }
    }
}

/// Frames a payload for sending (see `spec_frame`).
pub fn frame(data: &[u8]) -> (f: Vec<u8>)
    ensures
        f@ == spec_frame(data@),
{
    let mut f: Vec<u8> = Vec::new();
    push_u32_be(&mut f, data.len() as u32);
    push_bytes(&mut f, data);
    f
}

/// Takes the payload out of a received datagram (see `spec_unframe`).
pub fn unframe(buf: &[u8]) -> (r: Result<Vec<u8>, FrameError>)
    ensures
        match (r, spec_unframe(buf@)) {
            (Ok(p), Ok(q)) => p@ == q,
            (Err(e), Err(f)) => e == f,
            _ => false,
        },
{
    if buf.len() < 4 {
        return Err(FrameError::TooShort);
    }
    let n = read_u32_be(buf, 0);
    if buf.len() - 4 < n as usize {
        return Err(FrameError::Truncated);
    }
    Ok(copy_range(buf, 4, 4 + n as usize))
}

/// Framing and unframing give the payload back, for any payload shorter than
/// 2^32 bytes.
pub proof fn law_unframe_inverts_frame(data: Seq<u8>)
    requires
        data.len() <= u32::MAX,
    ensures
        spec_unframe(spec_frame(data)) == Ok::<Seq<u8>, FrameError>(data),
{
    let f = spec_frame(data);
    let n = data.len() as u32;
    assert(f.subrange(0, 4) =~= u32_be(n));
    crate::bytes::lemma_u32_be_roundtrip(n);
    assert(f.subrange(4, 4 + n) =~= data);
}

} // verus!
