//! Reputation of the nodes of the network: failures lead to a ban of a day,
//! and a long run of successes forgives past failures.
//!
//! Times are milliseconds since the Unix epoch, UTC.

use vstd::prelude::*;
use crate::clock::now_millis;
use crate::text::to_string;
use crate::textmap::TextMap;

verus! {

/// Failures after which a node is banned.
pub const BAN_THRESHOLD: u32 = 10;

/// How long a ban lasts: a day, in milliseconds.
pub const BAN_DURATION_MS: i64 = 86_400_000;

/// Successes after which the failures of a node are forgotten.
pub const FORGIVE_AFTER_SUCCESSES: u32 = 100;

/// Reputation of one node.
#[derive(Debug, Clone)]
pub struct NodeReputation {
    pub node_id: String,
    pub failures: u32,
    pub successes: u32,
    pub last_seen: i64,
    pub banned: bool,
    pub ban_expires_at: Option<i64>,
}

/// The end of a ban that starts at `now` (the last representable time when
/// a day would run past it).
pub open spec fn ban_end(now: i64) -> i64 {
    if now <= i64::MAX - BAN_DURATION_MS { (now + BAN_DURATION_MS) as i64 } else { i64::MAX }
}

/// A node is banned while its ban has not expired.
pub open spec fn spec_is_banned(r: NodeReputation, now: i64) -> bool {
    r.banned && match r.ban_expires_at {
        Some(expires) => !(now > expires),
        None => true,
    }
}

/// A ban lasts until its expiry and no longer: a node whose flag is clear is
/// never banned; one whose flag is set is banned at every time up to its
/// expiry (always, when it has none) and at no time after it.
pub proof fn law_ban_lasts_until_expiry(r: NodeReputation, now: i64)
    ensures
        !r.banned ==> !spec_is_banned(r, now),
        r.banned && r.ban_expires_at is None ==> spec_is_banned(r, now),
        r.ban_expires_at matches Some(e) && now > e ==> !spec_is_banned(r, now),
        r.banned ==> (r.ban_expires_at matches Some(e) && now <= e ==> spec_is_banned(r, now)),
{
}

/// A ban started at `start` holds for a day: the node is banned at every
/// time from `start` to the end of that day, and at no time after it.
pub proof fn law_ban_lasts_a_day(r: NodeReputation, start: i64, now: i64)
    requires
        r.banned,
        r.ban_expires_at == Some(ban_end(start)),
        start <= i64::MAX - BAN_DURATION_MS,
    ensures
        start <= now <= start + BAN_DURATION_MS ==> spec_is_banned(r, now),
        now > start + BAN_DURATION_MS ==> !spec_is_banned(r, now),
{
}

impl NodeReputation {
    /// A clean reputation seen at `now`.
    pub fn new_at(node_id: String, now: i64) -> (r: Self)
        ensures
            r.node_id@ == node_id@,
            r.failures == 0,
            r.successes == 0,
            r.last_seen == now,
            !r.banned,
            r.ban_expires_at is None,
    {
        NodeReputation { node_id, failures: 0, successes: 0, last_seen: now, banned: false, ban_expires_at: None }
    }

    /// A clean reputation seen now.
    pub fn new(node_id: String) -> (r: Self)
        ensures
            r.node_id@ == node_id@,
            r.failures == 0,
            r.successes == 0,
            !r.banned,
            r.ban_expires_at is None,
    {
        NodeReputation::new_at(node_id, now_millis())
    }

    /// Records a failure at `now`; the tenth failure, and each one after it,
    /// (re)starts a ban of a day.
    pub fn record_failure_at(&mut self, now: i64)
        requires
            old(self).failures < u32::MAX,
        ensures
            final(self).failures == old(self).failures + 1,
            final(self).successes == old(self).successes,
            final(self).last_seen == now,
            final(self).node_id@ == old(self).node_id@,
            final(self).failures >= BAN_THRESHOLD ==> final(self).banned && final(self).ban_expires_at == Some(ban_end(now)),
            final(self).failures < BAN_THRESHOLD ==> final(self).banned == old(self).banned
                && final(self).ban_expires_at == old(self).ban_expires_at,
    {
        self.failures = self.failures + 1;
        self.last_seen = now;
        if self.failures >= BAN_THRESHOLD {
            self.banned = true;
            let end: i64 = if now <= i64::MAX - BAN_DURATION_MS { now + BAN_DURATION_MS } else { i64::MAX };
            self.ban_expires_at = Some(end);
        }
    }

    /// Records a failure now.
    pub fn record_failure(&mut self)
        requires
            old(self).failures < u32::MAX,
        ensures
            final(self).failures == old(self).failures + 1,
            final(self).successes == old(self).successes,
            final(self).node_id@ == old(self).node_id@,
            final(self).failures >= BAN_THRESHOLD ==> final(self).banned
                && final(self).ban_expires_at == Some(ban_end(final(self).last_seen)),
            final(self).failures < BAN_THRESHOLD ==> final(self).banned == old(self).banned
                && final(self).ban_expires_at == old(self).ban_expires_at,
    {
        self.record_failure_at(now_millis());
    }

    /// Records a success at `now`; every hundredth success clears the failures.
    pub fn record_success_at(&mut self, now: i64)
        requires
            old(self).successes < u32::MAX,
        ensures
            final(self).successes == old(self).successes + 1,
            final(self).last_seen == now,
            final(self).node_id@ == old(self).node_id@,
            final(self).failures == (if final(self).successes % FORGIVE_AFTER_SUCCESSES == 0 { 0 } else { old(self).failures }),
            final(self).banned == old(self).banned,
            final(self).ban_expires_at == old(self).ban_expires_at,
    {
        self.successes = self.successes + 1;
        self.last_seen = now;
        if self.successes % FORGIVE_AFTER_SUCCESSES == 0 {
            self.failures = 0;
        }
    }

    /// Records a success now.
    pub fn record_success(&mut self)
        requires
            old(self).successes < u32::MAX,
        ensures
            final(self).successes == old(self).successes + 1,
            final(self).node_id@ == old(self).node_id@,
            final(self).failures == (if final(self).successes % FORGIVE_AFTER_SUCCESSES == 0 { 0 } else { old(self).failures }),
            final(self).banned == old(self).banned,
            final(self).ban_expires_at == old(self).ban_expires_at,
    {
        self.record_success_at(now_millis());
    }

    /// Whether the node is banned at `now`.
    pub fn is_banned_at(&self, now: i64) -> (b: bool)
        ensures
            b == spec_is_banned(*self, now),
    {
        if !self.banned {
            return false;
        }
        match self.ban_expires_at {
            Some(expires) => !(now > expires),
            None => true,
        }
    }

    /// Whether the node is banned now.
    pub fn is_banned(&self) -> (b: bool)
        ensures
            !self.banned ==> !b,
            self.banned && self.ban_expires_at is None ==> b,
            exists|now: i64| b == #[trigger] spec_is_banned(*self, now),
    {
        let now = now_millis();
        let b = self.is_banned_at(now);
        assert(b == spec_is_banned(*self, now));
        b
    }
}

/// The reputations of the nodes, by node identifier.
pub struct ReputationStore {
    reputations: TextMap<NodeReputation>,
}

impl View for ReputationStore {
    type V = Map<Seq<char>, NodeReputation>;

    closed spec fn view(&self) -> Map<Seq<char>, NodeReputation> {
        self.reputations@
    }
}

/// The reputation of a node as `get_or_create` leaves it: the stored one, or
/// a clean one seen at `now`.
pub open spec fn stored_or_clean(m: Map<Seq<char>, NodeReputation>, id: Seq<char>, r: NodeReputation, now: i64) -> bool {
    if m.contains_key(id) {
        r == m[id]
    } else {
        r.node_id@ == id && r.failures == 0 && r.successes == 0 && r.last_seen == now && !r.banned
            && r.ban_expires_at is None
    }
}

impl ReputationStore {
    /// An empty store.
    pub fn new() -> (s: Self)
        ensures
            s@ == Map::<Seq<char>, NodeReputation>::empty(),
    {
        ReputationStore { reputations: TextMap::new() }
    }

    /// Puts a reputation under a node identifier, replacing any earlier one
    /// (as reading a saved store does).
    pub fn restore(&mut self, node_id: String, reputation: NodeReputation)
        ensures
            final(self)@ == old(self)@.insert(node_id@, reputation),
    {
        self.reputations.insert(node_id, reputation);
    }

    fn take_or_create_at(&mut self, node_id: &str, now: i64) -> (r: NodeReputation)
        ensures
            final(self)@ == old(self)@.remove(node_id@),
            stored_or_clean(old(self)@, node_id@, r, now),
    {
        match self.reputations.remove(node_id) {
            Some(r) => r,
            None => NodeReputation::new_at(to_string(node_id), now),
        }
    }

    /// Takes the reputation of a node out of the store, or a clean one seen
    /// now when it has none (to put it back with `restore`).
    pub fn take_or_create(&mut self, node_id: &str) -> (r: NodeReputation)
        ensures
            final(self)@ == old(self)@.remove(node_id@),
            old(self)@.contains_key(node_id@) ==> r == old(self)@[node_id@],
            !old(self)@.contains_key(node_id@) ==> r.node_id@ == node_id@ && r.failures == 0 && r.successes == 0
                && !r.banned && r.ban_expires_at is None,
    {
        self.take_or_create_at(node_id, now_millis())
    }

    /// The reputation of a node, created clean at `now` when there is none.
    pub fn get_or_create_at(&mut self, node_id: &str, now: i64) -> (r: &NodeReputation)
        ensures
            final(self)@.contains_key(node_id@),
            *r == final(self)@[node_id@],
            stored_or_clean(old(self)@, node_id@, *r, now),
            final(self)@ == old(self)@.insert(node_id@, *r),
    {
        let rep = self.take_or_create_at(node_id, now);
        proof {
            assert(old(self)@.contains_key(node_id@) ==> old(self)@.remove(node_id@).insert(node_id@, rep) =~= old(self)@);
            assert(self@.insert(node_id@, rep) =~= old(self)@.insert(node_id@, rep));
        }
        self.reputations.insert(to_string(node_id), rep);
        match self.reputations.get(node_id) {
            Some(r) => r,
            None => {
                proof { assert(false); }
                &self.reputations.entry(0).1
            },
        }
    }

    /// The reputation of a node, created clean now when there is none.
    pub fn get_or_create(&mut self, node_id: &str) -> (r: &NodeReputation)
        ensures
            final(self)@.contains_key(node_id@),
            *r == final(self)@[node_id@],
            old(self)@.contains_key(node_id@) ==> final(self)@ == old(self)@,
            !old(self)@.contains_key(node_id@) ==> r.failures == 0 && r.successes == 0 && !r.banned,
    {
        self.get_or_create_at(node_id, now_millis())
    }

    /// Records a failure of a node at `now` (creating its reputation first).
    pub fn record_failure_at(&mut self, node_id: &str, now: i64)
        requires
            old(self)@.contains_key(node_id@) ==> old(self)@[node_id@].failures < u32::MAX,
        ensures
            final(self)@.dom() == old(self)@.dom().insert(node_id@),
            forall|k: Seq<char>| k != node_id@ && #[trigger] old(self)@.contains_key(k) ==> final(self)@[k] == old(self)@[k],
            exists|r: NodeReputation| stored_or_clean(old(self)@, node_id@, r, now) && {
                let n = final(self)@[node_id@];
                &&& n.failures == r.failures + 1
                &&& n.successes == r.successes
                &&& n.last_seen == now
                &&& n.failures >= BAN_THRESHOLD ==> n.banned && n.ban_expires_at == Some(ban_end(now))
                &&& n.failures < BAN_THRESHOLD ==> n.banned == r.banned && n.ban_expires_at == r.ban_expires_at
            },
    {
        let mut rep = self.take_or_create_at(node_id, now);
        let ghost r0 = rep;
        rep.record_failure_at(now);
        self.reputations.insert(to_string(node_id), rep);
        proof {
            assert(self@.dom() =~= old(self)@.dom().insert(node_id@));
        }
    }

    /// Records a failure of a node now.
    pub fn record_failure(&mut self, node_id: &str)
        requires
            old(self)@.contains_key(node_id@) ==> old(self)@[node_id@].failures < u32::MAX,
        ensures
            final(self)@.dom() == old(self)@.dom().insert(node_id@),
            forall|k: Seq<char>| k != node_id@ && #[trigger] old(self)@.contains_key(k) ==> final(self)@[k] == old(self)@[k],
            final(self)@[node_id@].failures == (if old(self)@.contains_key(node_id@) { old(self)@[node_id@].failures + 1 } else { 1 }),
    {
        self.record_failure_at(node_id, now_millis());
    }

    /// Records a success of a node at `now` (creating its reputation first).
    pub fn record_success_at(&mut self, node_id: &str, now: i64)
        requires
            old(self)@.contains_key(node_id@) ==> old(self)@[node_id@].successes < u32::MAX,
        ensures
            final(self)@.dom() == old(self)@.dom().insert(node_id@),
            forall|k: Seq<char>| k != node_id@ && #[trigger] old(self)@.contains_key(k) ==> final(self)@[k] == old(self)@[k],
            exists|r: NodeReputation| stored_or_clean(old(self)@, node_id@, r, now) && {
                let n = final(self)@[node_id@];
                &&& n.successes == r.successes + 1
                &&& n.last_seen == now
                &&& n.failures == (if n.successes % FORGIVE_AFTER_SUCCESSES == 0 { 0 } else { r.failures })
                &&& n.banned == r.banned
                &&& n.ban_expires_at == r.ban_expires_at
            },
    {
        let mut rep = self.take_or_create_at(node_id, now);
        rep.record_success_at(now);
        self.reputations.insert(to_string(node_id), rep);
        proof {
            assert(self@.dom() =~= old(self)@.dom().insert(node_id@));
        }
    }

    /// Records a success of a node now.
    pub fn record_success(&mut self, node_id: &str)
        requires
            old(self)@.contains_key(node_id@) ==> old(self)@[node_id@].successes < u32::MAX,
        ensures
            final(self)@.dom() == old(self)@.dom().insert(node_id@),
            forall|k: Seq<char>| k != node_id@ && #[trigger] old(self)@.contains_key(k) ==> final(self)@[k] == old(self)@[k],
            final(self)@[node_id@].successes == (if old(self)@.contains_key(node_id@) { old(self)@[node_id@].successes + 1 } else { 1 }),
    {
        self.record_success_at(node_id, now_millis());
    }

    /// The reputation of a node, if it has one.
    pub fn get(&self, node_id: &str) -> (r: Option<&NodeReputation>)
        ensures
            match r {
                Some(x) => self@.contains_key(node_id@) && *x == self@[node_id@],
                None => !self@.contains_key(node_id@),
            },
    {
        self.reputations.get(node_id)
    }

    /// Whether a node is banned at `now`; an unknown node is not.
    pub fn is_banned_at(&self, node_id: &str, now: i64) -> (b: bool)
        ensures
            b == (self@.contains_key(node_id@) && spec_is_banned(self@[node_id@], now)),
    {
        match self.reputations.get(node_id) {
            Some(r) => r.is_banned_at(now),
            None => false,
        }
    }

    /// Whether a node is banned now: the per-node rule at the clock's reading.
    pub fn is_banned(&self, node_id: &str) -> (b: bool)
        ensures
            !self@.contains_key(node_id@) ==> !b,
            self@.contains_key(node_id@) && !self@[node_id@].banned ==> !b,
            exists|now: i64| b == (self@.contains_key(node_id@) && #[trigger] spec_is_banned(self@[node_id@], now)),
    {
        let now = now_millis();
        let b = self.is_banned_at(node_id, now);
        proof {
            let banned_then = spec_is_banned(self@[node_id@], now);
            assert(b == (self@.contains_key(node_id@) && banned_then));
        }
        b
    }

    /// All the reputations.
    pub fn all(&self) -> (m: &TextMap<NodeReputation>)
        ensures
            m@ == self@,
    {
        &self.reputations
    }

    /// The number of nodes banned at `now`.
    pub fn banned_count_at(&self, now: i64) -> (n: usize)
        ensures
            n == self@.dom().filter(|k: Seq<char>| spec_is_banned(self@[k], now)).len(),
            n <= self@.dom().len(),
    {
        let total = self.reputations.len();
        let ghost p = |k: Seq<char>| spec_is_banned(self@[k], now);
        let mut n: usize = 0;
        let mut i: usize = 0;
        let ghost mut seen: Set<Seq<char>> = Set::empty();
        proof {
            assert(seen.filter(p) =~= Set::<Seq<char>>::empty());
        }
        while i < total
            invariant
                total == self@.dom().len(),
                self@.dom().finite(),
                forall|a: int, b: int| 0 <= a < b < total ==> self.reputations.spec_key_at(a) != self.reputations.spec_key_at(b),
                forall|j: int| 0 <= j < total ==> self@.contains_key(#[trigger] self.reputations.spec_key_at(j)),
                forall|k: Seq<char>| #[trigger] self@.contains_key(k) ==> exists|j: int| 0 <= j < total && self.reputations.spec_key_at(j) == k,
                p == (|k: Seq<char>| spec_is_banned(self@[k], now)),
                i <= total,
                n <= i,
                seen.finite(),
                seen.len() == i,
                n == seen.filter(p).len(),
                forall|k: Seq<char>| #[trigger] seen.contains(k) <==> exists|j: int| 0 <= j < i && self.reputations.spec_key_at(j) == k,
            decreases total - i,
        {
            let (k, r) = self.reputations.entry(i);
            let ghost key = k@;
            if r.is_banned_at(now) {
                n = n + 1;
            }
            proof {
                assert(!seen.contains(key)) by {
                    if seen.contains(key) {
                        let j = choose|j: int| 0 <= j < i && self.reputations.spec_key_at(j) == key;
                        assert(self.reputations.spec_key_at(j) != self.reputations.spec_key_at(i as int));
                    }
                }
                let s1 = seen.insert(key);
                seen.filter(p).lemma_len_filter(p);
                if p(key) {
                    assert(s1.filter(p) =~= seen.filter(p).insert(key));
                    assert(!seen.filter(p).contains(key));
                } else {
                    assert(s1.filter(p) =~= seen.filter(p));
                }
                assert forall|k: Seq<char>| #[trigger] s1.contains(k) <==> exists|j: int| 0 <= j < i + 1 && self.reputations.spec_key_at(j) == k by {
                    if s1.contains(k) && k != key {
                        assert(seen.contains(k));
                    }
                    if exists|j: int| 0 <= j < i + 1 && self.reputations.spec_key_at(j) == k {
                        let j = choose|j: int| 0 <= j < i + 1 && self.reputations.spec_key_at(j) == k;
                        if j < i {
                            assert(seen.contains(k));
                        }
                    }
                }
                seen = s1;
            }
            i += 1;
        }
        proof {
            assert(seen =~= self@.dom()) by {
                assert forall|k: Seq<char>| self@.dom().contains(k) implies seen.contains(k) by {
                    assert(self@.contains_key(k));
                }
                assert forall|k: Seq<char>| seen.contains(k) implies self@.dom().contains(k) by {
                    let j = choose|j: int| 0 <= j < i && self.reputations.spec_key_at(j) == k;
                    assert(self@.contains_key(self.reputations.spec_key_at(j)));
                }
            }
        }
        n
    }

    /// The number of nodes banned now.
    pub fn banned_count(&self) -> (n: usize)
        ensures
            n <= self@.dom().len(),
    {
        self.banned_count_at(now_millis())
    }
}

} // verus!
