//! Session keys, the sliding-window anti-replay check of received counters,
//! and the table of the sessions with the peers.

use vstd::prelude::*;
use crate::addrmap::AddrMap;
use crate::network::addr::PeerAddr;

verus! {

/// Number of counters, the highest one included, that the window remembers:
/// one bit of the bitmap for each.
pub const ANTI_REPLAY_WINDOW_SIZE: u64 = 64;

/// Bit `i` of `x`.
pub open spec fn bit_of(x: u64, i: u64) -> bool {
    (x >> i) & 1u64 == 1u64
}

/// The counters the bitmap remembers: entry `k` says whether the counter
/// `k` steps behind the highest one was received.
pub open spec fn window_view(w: u64) -> Seq<bool> {
    Seq::new(64, |k: int| bit_of(w, k as u64))
}

/// A window that remembers no counter.
pub open spec fn empty_window() -> Seq<bool> {
    Seq::new(64, |k: int| false)
}

/// Result of checking counter `c` against the highest counter `recv` and the
/// remembered counters `seen`: whether it is accepted, and the new highest
/// counter and window. A counter above the highest is accepted and slides
/// the window; one inside the window is accepted when not seen yet; one
/// further behind is refused.
pub open spec fn spec_check_counter(recv: u64, seen: Seq<bool>, c: u64) -> (bool, u64, Seq<bool>) {
    if c > recv {
        let diff = c - recv;
        if diff < ANTI_REPLAY_WINDOW_SIZE {
            (true, c, Seq::new(64, |k: int| k == 0 || (k >= diff && seen[k - diff])))
        } else {
            (true, c, Seq::new(64, |k: int| k == 0))
        }
    } else {
        let diff = recv - c;
        if diff >= ANTI_REPLAY_WINDOW_SIZE {
            (false, recv, seen)
        } else if seen[diff] {
            (false, recv, seen)
        } else {
            (true, recv, seen.update(diff, true))
        }
    }
}

/// Every accepted counter is at most the highest one, and remembered while
/// it lies inside the window.
pub open spec fn remembers(recv: u64, seen: Seq<bool>, accepted: Set<u64>) -> bool {
    forall|c: u64| #[trigger] accepted.contains(c) ==> c <= recv && (recv - c < 64 ==> seen[recv - c])
}

/// No counter is accepted twice: a session that remembers the counters it
/// accepted refuses each of them again, and keeps remembering them (and the
/// new one) after each check. A fresh session remembers the empty set.
pub proof fn law_no_counter_accepted_twice(recv: u64, seen: Seq<bool>, accepted: Set<u64>, c: u64)
    requires
        seen.len() == 64,
        remembers(recv, seen, accepted),
    ensures
        ({
            let (ok, recv2, seen2) = spec_check_counter(recv, seen, c);
            &&& accepted.contains(c) ==> !ok
            &&& seen2.len() == 64
            &&& remembers(recv2, seen2, if ok { accepted.insert(c) } else { accepted })
        }),
        remembers(0, empty_window(), Set::empty()),
{
    let (ok, recv2, seen2) = spec_check_counter(recv, seen, c);
    let acc2 = if ok { accepted.insert(c) } else { accepted };
    assert forall|d: u64| #[trigger] acc2.contains(d) implies d <= recv2 && (recv2 - d < 64 ==> seen2[recv2 - d]) by {
        if d != c || !ok {
            assert(accepted.contains(d));
        }
    }
}

/// Bit `i` of a word with bit `k` set.
proof fn lemma_bit_set(x: u64, k: u64, i: u64)
    requires
        k < 64,
        i < 64,
    ensures
        bit_of(x | (1u64 << k), i) == (i == k || bit_of(x, i)),
{
    assert(((x | (1u64 << k)) >> i) & 1u64 == 1u64 <==> (i == k || (x >> i) & 1u64 == 1u64)) by (bit_vector)
        requires
            k < 64,
            i < 64,
    ;
}

/// Testing bit `k` with a mask.
proof fn lemma_bit_test(x: u64, k: u64)
    requires
        k < 64,
    ensures
        (x & (1u64 << k) != 0) == bit_of(x, k),
{
    assert((x & (1u64 << k) != 0) == ((x >> k) & 1u64 == 1u64)) by (bit_vector)
        requires
            k < 64,
    ;
}

/// The bits of a window slid `d` steps, with the newest counter recorded.
proof fn lemma_bit_slide(x: u64, d: u64, i: u64)
    requires
        0 < d < 64,
        i < 64,
    ensures
        bit_of((x << d) | 1u64, i) == (i == 0 || (i >= d && bit_of(x, (i - d) as u64))),
{
    assert((((x << d) | 1u64) >> i) & 1u64 == 1u64
        <==> (i == 0 || (i >= d && (x >> ((i - d) as u64)) & 1u64 == 1u64))) by (bit_vector)
        requires
            0 < d < 64,
            i < 64,
    ;
}

/// The bits of the word 1, and of the word 0.
proof fn lemma_bit_one_zero(i: u64)
    requires
        i < 64,
    ensures
        bit_of(1u64, i) == (i == 0),
        !bit_of(0u64, i),
{
    assert(((1u64 >> i) & 1u64 == 1u64) == (i == 0)) by (bit_vector)
        requires
            i < 64,
    ;
    assert((0u64 >> i) & 1u64 != 1u64) by (bit_vector);
}

/// State of a session with one peer.
#[derive(Debug, Clone, Copy)]
pub struct SessionState {
    /// Session key derived from X25519 + ML-KEM through HKDF.
    pub session_key: [u8; 32],
    /// Counter of the next message to send.
    pub send_counter: u64,
    /// Highest counter received so far.
    pub recv_counter: u64,
    /// Bitmap of the counters received at and below `recv_counter`, one
    /// bit for each counter of the window.
    pub recv_window: u64,
    pub nonce_local: [u8; 32],
    pub nonce_remote: [u8; 32],
}

impl SessionState {
    /// The counters the anti-replay window remembers.
    pub open spec fn window(self) -> Seq<bool> {
        window_view(self.recv_window)
    }

    /// A fresh session: nothing sent, nothing received.
    pub fn new(session_key: [u8; 32], nonce_local: [u8; 32], nonce_remote: [u8; 32]) -> (s: Self)
        ensures
            s.session_key == session_key,
            s.nonce_local == nonce_local,
            s.nonce_remote == nonce_remote,
            s.send_counter == 0,
            s.recv_counter == 0,
            s.window() == empty_window(),
    {
        proof {
            assert forall|k: int| 0 <= k < 64 implies window_view(0u64)[k] == empty_window()[k] by {
                lemma_bit_one_zero(k as u64);
            }
            assert(window_view(0u64) =~= empty_window());
        }
        SessionState {
            session_key,
            send_counter: 0,
            recv_counter: 0,
            recv_window: 0,
            nonce_local,
            nonce_remote,
        }
    }

    /// Returns the current send counter and advances it by one (wrapping).
    pub fn next_send_counter(&mut self) -> (c: u64)
        ensures
            c == old(self).send_counter,
            final(self).send_counter == vstd::wrapping::u64_specs::wrapping_add(c, 1),
            final(self).recv_counter == old(self).recv_counter,
            final(self).recv_window == old(self).recv_window,
            final(self).session_key == old(self).session_key,
            final(self).nonce_local == old(self).nonce_local,
            final(self).nonce_remote == old(self).nonce_remote,
    {
        let c = self.send_counter;
        self.send_counter = c.wrapping_add(1);
        c
    }

    /// Anti-replay check of a received counter: a counter above the highest
    /// one is accepted and advances the window; one within the window is
    /// accepted once; one further behind, or already seen, is refused.
    pub fn check_counter(&mut self, counter: u64) -> (ok: bool)
        ensures
            (ok, final(self).recv_counter, final(self).window())
                == spec_check_counter(old(self).recv_counter, old(self).window(), counter),
            final(self).send_counter == old(self).send_counter,
            final(self).session_key == old(self).session_key,
            final(self).nonce_local == old(self).nonce_local,
            final(self).nonce_remote == old(self).nonce_remote,
    {
        let ghost w0 = self.recv_window;
        let ghost seen = window_view(w0);
        if counter > self.recv_counter {
            let diff = counter - self.recv_counter;
            if diff < ANTI_REPLAY_WINDOW_SIZE {
                self.recv_window = (self.recv_window << diff) | 1u64;
                proof {
                    assert forall|k: int| 0 <= k < 64 implies window_view(self.recv_window)[k]
                        == (k == 0 || (k >= diff && seen[k - diff])) by {
                        lemma_bit_slide(w0, diff, k as u64);
                    }
                    assert(window_view(self.recv_window) =~= Seq::new(64, |k: int| k == 0 || (k >= diff && seen[k - diff])));
                }
            } else {
                self.recv_window = 1;
                proof {
                    assert forall|k: int| 0 <= k < 64 implies window_view(1u64)[k] == (k == 0) by {
                        lemma_bit_one_zero(k as u64);
                    }
                    assert(window_view(1u64) =~= Seq::new(64, |k: int| k == 0));
                }
            }
            self.recv_counter = counter;
            true
        } else {
            let diff = self.recv_counter - counter;
            if diff >= ANTI_REPLAY_WINDOW_SIZE {
                return false;
            }
            let bit: u64 = 1u64 << diff;
            proof {
                lemma_bit_test(w0, diff);
            }
            if self.recv_window & bit != 0 {
                return false;
            }
            self.recv_window = self.recv_window | bit;
            proof {
                assert forall|k: int| 0 <= k < 64 implies window_view(self.recv_window)[k]
                    == seen.update(diff as int, true)[k] by {
                    lemma_bit_set(w0, diff, k as u64);
                }
                assert(window_view(self.recv_window) =~= seen.update(diff as int, true));
            }
            true
        }
    }
}

/// `s1` is `s0` after a counter check that left the highest counter `recv`
/// and the window `seen`.
pub open spec fn counter_checked(s0: SessionState, s1: SessionState, recv: u64, seen: Seq<bool>) -> bool {
    &&& s1.recv_counter == recv
    &&& s1.window() == seen
    &&& s1.send_counter == s0.send_counter
    &&& s1.session_key == s0.session_key
    &&& s1.nonce_local == s0.nonce_local
    &&& s1.nonce_remote == s0.nonce_remote
}

/// The sessions with the peers, by address.
pub struct SessionManager {
    sessions: AddrMap<SessionState>,
}

impl View for SessionManager {
    type V = Map<PeerAddr, SessionState>;

    closed spec fn view(&self) -> Map<PeerAddr, SessionState> {
        self.sessions@
    }
}

impl SessionManager {
    /// No session.
    pub fn new() -> (m: Self)
        ensures
            m@ == Map::<PeerAddr, SessionState>::empty(),
    {
        SessionManager { sessions: AddrMap::new() }
    }

    /// Records the session with a peer once its handshake completed,
    /// replacing any earlier one.
    pub fn insert(&mut self, addr: PeerAddr, session: SessionState)
        ensures
            final(self)@ == old(self)@.insert(addr, session),
    {
        self.sessions.insert(addr, session);
    }

    /// The session with a peer.
    pub fn get(&self, addr: &PeerAddr) -> (r: Option<SessionState>)
        ensures
            match r {
                Some(s) => self@.contains_key(*addr) && s == self@[*addr],
                None => !self@.contains_key(*addr),
            },
    {
        match self.sessions.get(addr) {
            Some(s) => Some(*s),
            None => None,
        }
    }

    /// Ends the session with a peer; returns whether there was one.
    pub fn remove(&mut self, addr: &PeerAddr) -> (removed: bool)
        ensures
            removed == old(self)@.contains_key(*addr),
            final(self)@ == old(self)@.remove(*addr),
    {
        self.sessions.remove(addr).is_some()
    }

    /// Whether there is a session with the peer.
    pub fn contains(&self, addr: &PeerAddr) -> (b: bool)
        ensures
            b == self@.contains_key(*addr),
    {
        self.sessions.get(addr).is_some()
    }

    /// The addresses of the peers with a session, each once.
    pub fn all_addrs(&self) -> (v: Vec<PeerAddr>)
        ensures
            forall|j: int| 0 <= j < v.len() ==> self@.contains_key(#[trigger] v@[j]),
            forall|k: PeerAddr| #[trigger] self@.contains_key(k) ==> exists|j: int| 0 <= j < v.len() && v@[j] == k,
            forall|a: int, b: int| 0 <= a < b < v.len() ==> v@[a] != v@[b],
    {
        self.sessions.keys_list()
    }

    /// Expiry of idle sessions. Sessions carry no time of last activity, so
    /// none is considered expired and the table stays as it is.
    pub fn cleanup(&mut self, timeout_secs: u64)
        ensures
            final(self)@ == old(self)@,
    {
    }

    /// Anti-replay check of a counter received from a peer, on its stored
    /// session; `false` when there is no session.
    pub fn check_counter(&mut self, addr: &PeerAddr, counter: u64) -> (ok: bool)
        ensures
            !old(self)@.contains_key(*addr) ==> !ok && final(self)@ == old(self)@,
            old(self)@.contains_key(*addr) ==> {
                let s0 = old(self)@[*addr];
                let (accepted, recv, window) = spec_check_counter(s0.recv_counter, s0.window(), counter);
                &&& ok == accepted
                &&& final(self)@.dom() == old(self)@.dom()
                &&& forall|k: PeerAddr| k != *addr && #[trigger] old(self)@.contains_key(k) ==> final(self)@[k] == old(self)@[k]
                &&& counter_checked(s0, final(self)@[*addr], recv, window)
            },
    {
        match self.sessions.remove(addr) {
            None => false,
            Some(s) => {
                let mut s = s;
                let ok = s.check_counter(counter);
                self.sessions.insert(*addr, s);
                proof {
                    assert(self@.dom() =~= old(self)@.dom());
                }
                ok
            },
        }
    }

    /// The next send counter of the session with a peer, advancing it;
    /// `None` when there is no session.
    pub fn next_send_counter(&mut self, addr: &PeerAddr) -> (r: Option<u64>)
        ensures
            !old(self)@.contains_key(*addr) ==> r is None && final(self)@ == old(self)@,
            old(self)@.contains_key(*addr) ==> {
                let s0 = old(self)@[*addr];
                &&& r == Some(s0.send_counter)
                &&& final(self)@ == old(self)@.insert(*addr, SessionState {
                    send_counter: vstd::wrapping::u64_specs::wrapping_add(s0.send_counter, 1), ..s0 })
            },
    {
        match self.sessions.remove(addr) {
            None => None,
            Some(s) => {
                let mut s = s;
                let c = s.next_send_counter();
                self.sessions.insert(*addr, s);
                proof {
                    assert(self@ =~= old(self)@.insert(*addr, s));
                }
                Some(c)
            },
        }
    }
}

impl Default for SessionManager {
    fn default() -> (m: Self)
        ensures
            m@ == Map::<PeerAddr, SessionState>::empty(),
    {
        SessionManager::new()
    }
}

/// A counter above the highest one received is always accepted and becomes
/// the new highest.
pub proof fn law_fresh_counter_accepted(recv: u64, window: Seq<bool>, c: u64)
    requires
        c > recv,
    ensures
        spec_check_counter(recv, window, c).0,
        spec_check_counter(recv, window, c).1 == c,
{
}

/// A counter at least a full window behind the highest one is refused and
/// leaves the state unchanged.
pub proof fn law_stale_counter_refused(recv: u64, window: Seq<bool>, c: u64)
    requires
        c as int + ANTI_REPLAY_WINDOW_SIZE as int <= recv as int,
    ensures
        spec_check_counter(recv, window, c) == (false, recv, window),
{
}

/// Replaying a counter that was just accepted is refused, and the refusal
/// leaves the state unchanged.
pub proof fn law_replay_refused(recv: u64, window: Seq<bool>, c: u64)
    requires
        window.len() == 64,
        spec_check_counter(recv, window, c).0,
    ensures
        ({
            let (_, recv2, window2) = spec_check_counter(recv, window, c);
            spec_check_counter(recv2, window2, c) == (false, recv2, window2)
        }),
{
}

} // verus!
