//! The decisions of the heartbeat tasks: the sender counts misses of silent
//! peers and shares known peers every fifth beat; the monitor sorts the
//! tracked peers into inactive ones (dropped), ones to reconnect and suspect
//! ones. Timing, sockets and the rule engine's effects are the caller's.

use vstd::prelude::*;
use crate::addrmap::AddrMap;
use crate::clock::now_millis;
use crate::network::addr::PeerAddr;
use crate::network::transport::{spec_is_inactive, PeerState, TrustedPeerList, MAX_RECONNECT_ATTEMPTS};

verus! {

/// Seconds of silence after which the sender counts a miss.
pub const SENDER_TIMEOUT_SECS: i64 = 30;

/// Seconds of silence after which the monitor drops a peer.
pub const MONITOR_TIMEOUT_SECS: i64 = 300;

/// Heartbeats between two peer exchanges.
pub const PEER_EXCHANGE_EVERY: u32 = 5;

/// Advances the count of heartbeats since the last peer exchange: every
/// fifth beat shares the peers and starts the count again.
pub fn advance_exchange_counter(counter: u32) -> (r: (u32, bool))
    requires
        counter < PEER_EXCHANGE_EVERY,
    ensures
        counter + 1 >= PEER_EXCHANGE_EVERY ==> r == (0u32, true),
        counter + 1 < PEER_EXCHANGE_EVERY ==> r == ((counter + 1) as u32, false),
{
    let c = counter + 1;
    if c >= PEER_EXCHANGE_EVERY {
        (0, true)
    } else {
        (c, false)
    }
}

/// The misses of a peer with heartbeat window `w`, starting from `m`, after
/// `n` sender rounds at `now`: each round counts one more miss while the peer
/// is inactive by the sender's timeout and the count can grow.
pub open spec fn misses_after_rounds(w: Seq<i64>, m: u32, n: nat, now: i64) -> u32
    decreases n,
{
    if n == 0 {
        m
    } else {
        let p = misses_after_rounds(w, m, (n - 1) as nat, now);
        if spec_is_inactive(w, p, SENDER_TIMEOUT_SECS, now) && p < u32::MAX { (p + 1) as u32 } else { p }
    }
}

/// `after` is `before` after `n` sender rounds at `now`: only its count of
/// misses moves.
pub open spec fn sender_rounds_counted(before: PeerState, after: PeerState, n: nat, now: i64) -> bool {
    &&& after.consecutive_misses == misses_after_rounds(before.heartbeat_window@, before.consecutive_misses, n, now)
    &&& after.heartbeat_window@ == before.heartbeat_window@
    &&& after.last_heartbeat == before.last_heartbeat
    &&& after.last_seen == before.last_seen
    &&& after.reconnect_attempts == before.reconnect_attempts
    &&& after.next_reconnect == before.next_reconnect
}

/// One sender round counts a miss of a silent peer: a tracked peer that is
/// inactive by the sender's timeout (a peer never heard from always is) has
/// exactly one more consecutive miss afterwards, unless the count is at its
/// largest; a peer that is not inactive keeps its count. Nothing else of the
/// peer's state moves.
pub proof fn law_sender_round_counts_silent_peer(before: PeerState, after: PeerState, now: i64)
    requires
        sender_rounds_counted(before, after, 1, now),
    ensures
        spec_is_inactive(before.heartbeat_window@, before.consecutive_misses, SENDER_TIMEOUT_SECS, now)
            && before.consecutive_misses < u32::MAX ==> after.consecutive_misses == before.consecutive_misses + 1,
        before.heartbeat_window@.len() == 0 && before.consecutive_misses < u32::MAX
            ==> after.consecutive_misses == before.consecutive_misses + 1,
        !spec_is_inactive(before.heartbeat_window@, before.consecutive_misses, SENDER_TIMEOUT_SECS, now)
            ==> after.consecutive_misses == before.consecutive_misses,
        after.heartbeat_window@ == before.heartbeat_window@,
        after.last_seen == before.last_seen,
{
    assert(misses_after_rounds(before.heartbeat_window@, before.consecutive_misses, 0, now) == before.consecutive_misses);
}

/// After a round of heartbeats at `now` to `addrs`: a tracked peer silent for
/// longer than the sender's timeout (with enough misses) counts one more
/// miss; an untracked one starts being tracked.
pub fn record_sender_round_at(peer_states: &mut AddrMap<PeerState>, addrs: &Vec<PeerAddr>, now: i64)
    ensures
        final(peer_states)@.dom() == old(peer_states)@.dom().union(addrs@.to_set()),
        forall|a: PeerAddr| #[trigger] old(peer_states)@.contains_key(a) && !addrs@.contains(a)
            ==> final(peer_states)@[a] == old(peer_states)@[a],
        forall|a: PeerAddr| #[trigger] old(peer_states)@.contains_key(a) && addrs@.contains(a)
            ==> final(peer_states)@[a].consecutive_misses >= old(peer_states)@[a].consecutive_misses,
        forall|a: PeerAddr| #[trigger] old(peer_states)@.contains_key(a)
            ==> sender_rounds_counted(old(peer_states)@[a], final(peer_states)@[a], occurrences(addrs@, a), now),
{
    let ghost s0 = peer_states@;
    let mut i: usize = 0;
    while i < addrs.len()
        invariant
            i <= addrs@.len(),
            peer_states@.dom() == s0.dom().union(addrs@.take(i as int).to_set()),
            forall|a: PeerAddr| #[trigger] s0.contains_key(a)
                ==> sender_rounds_counted(s0[a], peer_states@[a], occurrences(addrs@.take(i as int), a), now),
            forall|a: PeerAddr| #[trigger] s0.contains_key(a) && !addrs@.take(i as int).contains(a)
                ==> peer_states@[a] == s0[a],
            forall|a: PeerAddr| #[trigger] s0.contains_key(a) && addrs@.take(i as int).contains(a)
                ==> peer_states@[a].consecutive_misses >= s0[a].consecutive_misses,
            forall|a: PeerAddr| #[trigger] peer_states@.contains_key(a) && s0.contains_key(a)
                ==> peer_states@[a].consecutive_misses >= s0[a].consecutive_misses,
        decreases addrs@.len() - i,
    {
        let addr = addrs[i];
        let ghost before = peer_states@;
        match peer_states.remove(&addr) {
            Some(st) => {
                let mut st = st;
                if st.is_inactive_at(SENDER_TIMEOUT_SECS, now) && st.consecutive_misses < u32::MAX {
                    st.record_miss();
                }
                peer_states.insert(addr, st);
            },
            None => {
                peer_states.insert(addr, PeerState::new_at(now));
            },
        }
        proof {
            let t0 = addrs@.take(i as int);
            let t1 = addrs@.take(i + 1);
            assert(t1 =~= t0.push(addr));
            assert(t1.to_set() =~= t0.to_set().insert(addr)) by {
                t0.lemma_push_to_set_commute(addr);
            }
            assert(peer_states@.dom() =~= s0.dom().union(t1.to_set()));
            assert(t1.drop_last() =~= t0);
            assert forall|a: PeerAddr| #[trigger] s0.contains_key(a)
                implies sender_rounds_counted(s0[a], peer_states@[a], occurrences(t1, a), now) by {
                assert(occurrences(t1, a) == occurrences(t0, a) + if a == addr { 1nat } else { 0nat });
                if a != addr {
                    assert(peer_states@[a] == before[a]);
                } else {
                    assert(before.contains_key(a));
                    assert(sender_rounds_counted(s0[a], before[a], occurrences(t0, a), now));
                }
            }
            assert forall|a: PeerAddr| #[trigger] s0.contains_key(a) && !t1.contains(a) implies peer_states@[a] == s0[a] by {
                assert(!t0.contains(a)) by {
                    if t0.contains(a) {
                        let k = choose|k: int| 0 <= k < t0.len() && t0[k] == a;
                        assert(t1[k] == a);
                    }
                }
                assert(a != addr) by {
                    assert(t1[i as int] == addr);
                }
            }
            assert forall|a: PeerAddr| #[trigger] s0.contains_key(a) && t1.contains(a)
                implies peer_states@[a].consecutive_misses >= s0[a].consecutive_misses by {
                assert(before.contains_key(a));
            }
        }
        i += 1;
    }
    proof {
        assert(addrs@.take(addrs@.len() as int) =~= addrs@);
    }
}

/// After a round of heartbeats now.
pub fn record_sender_round(peer_states: &mut AddrMap<PeerState>, addrs: &Vec<PeerAddr>)
    ensures
        final(peer_states)@.dom() == old(peer_states)@.dom().union(addrs@.to_set()),
        forall|a: PeerAddr| #[trigger] old(peer_states)@.contains_key(a) && !addrs@.contains(a)
            ==> final(peer_states)@[a] == old(peer_states)@[a],
{
    record_sender_round_at(peer_states, addrs, now_millis());
}

/// How the monitor judges a tracked peer.
#[derive(Debug, Clone, Copy, PartialEq, Eq, Structural)]
pub enum PeerVerdict {
    /// Silent past the monitor's timeout: to be dropped.
    Inactive,
    /// Three or more misses and a reconnection due (the miss count).
    Reconnect(u32),
    /// Two or more misses (the miss count).
    Suspect(u32),
}

/// The monitor's verdict on a state at `now`, if any.
pub open spec fn spec_verdict(s: PeerState, now: i64) -> Option<PeerVerdict> {
    if spec_is_inactive(s.heartbeat_window@, s.consecutive_misses, MONITOR_TIMEOUT_SECS, now) {
        Some(PeerVerdict::Inactive)
    } else if s.consecutive_misses >= 3 && now >= s.next_reconnect && s.reconnect_attempts <= MAX_RECONNECT_ATTEMPTS {
        Some(PeerVerdict::Reconnect(s.consecutive_misses))
    } else if s.consecutive_misses >= 2 {
        Some(PeerVerdict::Suspect(s.consecutive_misses))
    } else {
        None
    }
}

/// The monitor's verdicts at `now` on the tracked peers that get one: each
/// such peer once, with its verdict.
pub fn monitor_verdicts_at(peer_states: &AddrMap<PeerState>, now: i64) -> (v: Vec<(PeerAddr, PeerVerdict)>)
    ensures
        forall|i: int| 0 <= i < v@.len() ==> peer_states@.contains_key((#[trigger] v@[i]).0)
            && spec_verdict(peer_states@[v@[i].0], now) == Some(v@[i].1),
        forall|a: PeerAddr| #[trigger] peer_states@.contains_key(a) && spec_verdict(peer_states@[a], now) is Some
            ==> exists|i: int| 0 <= i < v@.len() && v@[i].0 == a,
        forall|i: int, j: int| 0 <= i < j < v@.len() ==> v@[i].0 != v@[j].0,
{
    let n = peer_states.len();
    let mut v: Vec<(PeerAddr, PeerVerdict)> = Vec::new();
    let mut i: usize = 0;
    while i < n
        invariant
            n == peer_states@.len(),
            i <= n,
            forall|a: int, b: int| 0 <= a < b < n ==> peer_states.spec_key_at(a) != peer_states.spec_key_at(b),
            forall|j: int| 0 <= j < n ==> peer_states@.contains_key(#[trigger] peer_states.spec_key_at(j)),
            forall|k: PeerAddr| #[trigger] peer_states@.contains_key(k) ==> exists|j: int| 0 <= j < n && peer_states.spec_key_at(j) == k,
            forall|k: int| 0 <= k < v@.len() ==> peer_states@.contains_key((#[trigger] v@[k]).0)
                && spec_verdict(peer_states@[v@[k].0], now) == Some(v@[k].1),
            forall|k: int| 0 <= k < v@.len() ==> exists|j: int| 0 <= j < i && (#[trigger] v@[k]).0 == peer_states.spec_key_at(j),
            forall|j: int| 0 <= j < i && spec_verdict(peer_states@[#[trigger] peer_states.spec_key_at(j)], now) is Some
                ==> exists|k: int| 0 <= k < v@.len() && v@[k].0 == peer_states.spec_key_at(j),
            forall|a: int, b: int| 0 <= a < b < v@.len() ==> v@[a].0 != v@[b].0,
        decreases n - i,
    {
        let (k, st) = peer_states.entry(i);
        let verdict = if st.is_inactive_at(MONITOR_TIMEOUT_SECS, now) {
            Some(PeerVerdict::Inactive)
        } else if st.consecutive_misses >= 3 && st.should_reconnect_at(now) {
            Some(PeerVerdict::Reconnect(st.consecutive_misses))
        } else if st.consecutive_misses >= 2 {
            Some(PeerVerdict::Suspect(st.consecutive_misses))
        } else {
            None
        };
        let ghost v0 = v@;
        match verdict {
            Some(d) => {
                v.push((*k, d));
                proof {
                    assert forall|a: int, b: int| 0 <= a < b < v@.len() implies v@[a].0 != v@[b].0 by {
                        if b == v0.len() {
                            let j = choose|j: int| 0 <= j < i && v0[a].0 == peer_states.spec_key_at(j);
                        }
                    }
                    assert forall|kk: int| 0 <= kk < v@.len() implies exists|j: int| 0 <= j < i + 1 && (#[trigger] v@[kk]).0 == peer_states.spec_key_at(j) by {
                        if kk < v0.len() {
                            assert(v@[kk] == v0[kk]);
                        } else {
                            assert(v@[kk].0 == peer_states.spec_key_at(i as int));
                        }
                    }
                    assert forall|j: int| 0 <= j < i + 1 && spec_verdict(peer_states@[#[trigger] peer_states.spec_key_at(j)], now) is Some
                        implies exists|kk: int| 0 <= kk < v@.len() && v@[kk].0 == peer_states.spec_key_at(j) by {
                        if j < i {
                            let kk = choose|kk: int| 0 <= kk < v0.len() && v0[kk].0 == peer_states.spec_key_at(j);
                            assert(v@[kk] == v0[kk]);
                        } else {
                            assert(v@[v0.len() as int].0 == peer_states.spec_key_at(j));
                        }
                    }
                }
            },
            None => {
                proof {
                    assert forall|kk: int| 0 <= kk < v@.len() implies exists|j: int| 0 <= j < i + 1 && (#[trigger] v@[kk]).0 == peer_states.spec_key_at(j) by {
                        let j = choose|j: int| 0 <= j < i && v@[kk].0 == peer_states.spec_key_at(j);
                    }
                }
            },
        }
        i += 1;
    }
    proof {
        assert forall|a: PeerAddr| #[trigger] peer_states@.contains_key(a) && spec_verdict(peer_states@[a], now) is Some
            implies exists|i: int| 0 <= i < v@.len() && v@[i].0 == a by {
            let j = choose|j: int| 0 <= j < n && peer_states.spec_key_at(j) == a;
        }
    }
    v
}

/// The monitor's verdicts now.
pub fn monitor_verdicts(peer_states: &AddrMap<PeerState>) -> (v: Vec<(PeerAddr, PeerVerdict)>)
    ensures
        forall|i: int| 0 <= i < v@.len() ==> peer_states@.contains_key((#[trigger] v@[i]).0),
        forall|i: int, j: int| 0 <= i < j < v@.len() ==> v@[i].0 != v@[j].0,
{
    monitor_verdicts_at(peer_states, now_millis())
}

/// Drops inactive peers: from the trusted list and from tracking.
pub fn remove_inactive(peer_states: &mut AddrMap<PeerState>, trusted: &mut TrustedPeerList, inactive: &Vec<PeerAddr>)
    ensures
        final(peer_states)@ == old(peer_states)@.remove_keys(inactive@.to_set()),
        forall|a: PeerAddr| #[trigger] inactive@.contains(a)
            ==> !crate::network::transport::trusted_addrs(final(trusted)@).contains(a),
        final(trusted).capacity() == old(trusted).capacity(),
{
    let ghost s0 = peer_states@;
    let mut i: usize = 0;
    while i < inactive.len()
        invariant
            i <= inactive@.len(),
            peer_states@ == s0.remove_keys(inactive@.take(i as int).to_set()),
            forall|k: int| 0 <= k < i ==> !crate::network::transport::trusted_addrs(trusted@).contains(#[trigger] inactive@[k]),
            trusted.capacity() == old(trusted).capacity(),
        decreases inactive@.len() - i,
    {
        let a = inactive[i];
        let ghost t0 = trusted@;
        trusted.remove(&a);
        peer_states.remove(&a);
        proof {
            let k0 = inactive@.take(i as int);
            let k1 = inactive@.take(i + 1);
            assert(k1 =~= k0.push(a));
            assert(k1.to_set() =~= k0.to_set().insert(a)) by {
                k0.lemma_push_to_set_commute(a);
            }
            assert(peer_states@ =~= s0.remove_keys(k1.to_set()));
            assert forall|k: int| 0 <= k < i + 1 implies !crate::network::transport::trusted_addrs(trusted@).contains(#[trigger] inactive@[k]) by {
                if k < i {
                    let x = inactive@[k];
                    if crate::network::transport::trusted_addrs(trusted@).contains(x) {
                        let j = choose|j: int| 0 <= j < trusted@.len() && crate::network::transport::trusted_addrs(trusted@)[j] == x;
                        if trusted@ == t0 {
                            assert(crate::network::transport::trusted_addrs(t0)[j] == x);
                        } else {
                            let kk = choose|kk: int| 0 <= kk < t0.len() && t0[kk].addr == a && trusted@ == t0.remove(kk);
                            let j0 = if j < kk { j } else { j + 1 };
                            assert(t0[j0].addr == x);
                            assert(crate::network::transport::trusted_addrs(t0)[j0] == x);
                        }
                    }
                }
            }
        }
        i += 1;
    }
    proof {
        assert(inactive@.take(inactive@.len() as int) =~= inactive@);
        assert forall|a: PeerAddr| #[trigger] inactive@.contains(a)
            implies !crate::network::transport::trusted_addrs(trusted@).contains(a) by {
            let k = choose|k: int| 0 <= k < inactive@.len() && inactive@[k] == a;
        }
    }
}

/// How many times `a` occurs in `s`.
pub open spec fn occurrences(s: Seq<PeerAddr>, a: PeerAddr) -> nat
    decreases s.len(),
{
    if s.len() == 0 {
        0
    } else {
        occurrences(s.drop_last(), a) + if s.last() == a { 1nat } else { 0nat }
    }
}

/// `after` is `before` with `n` more reconnection attempts counted (up to
/// the largest count) and its heartbeat record untouched.
pub open spec fn reconnects_counted(before: PeerState, after: PeerState, n: nat) -> bool {
    &&& after.reconnect_attempts == if before.reconnect_attempts + n <= u32::MAX {
        (before.reconnect_attempts + n) as u32
    } else {
        u32::MAX
    }
    &&& after.consecutive_misses == before.consecutive_misses
    &&& after.heartbeat_window@ == before.heartbeat_window@
    &&& after.last_heartbeat == before.last_heartbeat
    &&& after.last_seen == before.last_seen
}

/// Schedules a reconnection of each tracked peer in `addrs` (while its
/// attempt count can grow): a peer listed `n` times counts `n` more
/// attempts, each scheduled from the current time.
pub fn schedule_reconnects(peer_states: &mut AddrMap<PeerState>, addrs: &Vec<PeerAddr>)
    ensures
        final(peer_states)@.dom() == old(peer_states)@.dom(),
        forall|a: PeerAddr| #[trigger] old(peer_states)@.contains_key(a) && !addrs@.contains(a)
            ==> final(peer_states)@[a] == old(peer_states)@[a],
        forall|a: PeerAddr| #[trigger] old(peer_states)@.contains_key(a)
            ==> reconnects_counted(old(peer_states)@[a], final(peer_states)@[a], occurrences(addrs@, a)),
{
    let ghost s0 = peer_states@;
    let mut i: usize = 0;
    while i < addrs.len()
        invariant
            i <= addrs@.len(),
            peer_states@.dom() == s0.dom(),
            forall|a: PeerAddr| #[trigger] s0.contains_key(a) && !addrs@.take(i as int).contains(a)
                ==> peer_states@[a] == s0[a],
            forall|a: PeerAddr| #[trigger] s0.contains_key(a)
                ==> reconnects_counted(s0[a], peer_states@[a], occurrences(addrs@.take(i as int), a)),
        decreases addrs@.len() - i,
    {
        let ghost before = peer_states@;
        let addr = addrs[i];
        match peer_states.remove(&addr) {
            Some(st) => {
                let mut st = st;
                if st.reconnect_attempts < u32::MAX {
                    st.schedule_reconnect();
                }
                peer_states.insert(addr, st);
                proof {
                    assert(peer_states@.dom() =~= s0.dom());
                }
            },
            None => {},
        }
        proof {
            let t0 = addrs@.take(i as int);
            let t1 = addrs@.take(i + 1);
            assert(t1 =~= t0.push(addr));
            assert(t1.drop_last() =~= t0);
            assert forall|a: PeerAddr| #[trigger] s0.contains_key(a)
                implies reconnects_counted(s0[a], peer_states@[a], occurrences(t1, a)) by {
                assert(occurrences(t1, a) == occurrences(t0, a) + if a == addr { 1nat } else { 0nat });
                if a != addr {
                    assert(peer_states@[a] == before[a]);
                }
            }
            assert forall|a: PeerAddr| #[trigger] s0.contains_key(a) && !t1.contains(a) implies peer_states@[a] == s0[a] by {
                assert(!t0.contains(a)) by {
                    if t0.contains(a) {
                        let k = choose|k: int| 0 <= k < t0.len() && t0[k] == a;
                        assert(t1[k] == a);
                    }
                }
                assert(a != addr) by {
                    assert(t1[i as int] == addr);
                }
            }
        }
        i += 1;
    }
    proof {
        assert(addrs@.take(addrs@.len() as int) =~= addrs@);
    }
}

} // verus!
