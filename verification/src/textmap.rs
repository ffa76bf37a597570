//! A small map keyed by text, kept as parallel lists of distinct keys and
//! their values; its view is a mathematical map from key text to value.

use vstd::prelude::*;
use crate::text::string_eq_str;

verus! {

/// A map from text keys to values.
#[derive(Debug)]
pub struct TextMap<V> {
    keys: Vec<String>,
    vals: Vec<V>,
}

spec fn has_key(keys: Seq<String>, k: Seq<char>) -> bool {
    exists|i: int| 0 <= i < keys.len() && #[trigger] keys[i]@ == k
}

spec fn distinct_keys(keys: Seq<String>) -> bool {
    forall|i: int, j: int| 0 <= i < j < keys.len() ==> keys[i]@ != keys[j]@
}

spec fn map_of<V>(keys: Seq<String>, vals: Seq<V>) -> Map<Seq<char>, V> {
    Map::new(
        |k: Seq<char>| has_key(keys, k),
        |k: Seq<char>| vals[choose|i: int| 0 <= i < keys.len() && #[trigger] keys[i]@ == k],
    )
}

proof fn lemma_map_of_at<V>(keys: Seq<String>, vals: Seq<V>, i: int)
    requires
        distinct_keys(keys),
        0 <= i < keys.len(),
    ensures
        map_of(keys, vals).contains_key(keys[i]@),
        map_of(keys, vals)[keys[i]@] == vals[i],
{
    let k = keys[i]@;
    assert(has_key(keys, k));
    let j = choose|j: int| 0 <= j < keys.len() && #[trigger] keys[j]@ == k;
    if j != i {
        if j < i {
            assert(keys[j]@ != keys[i]@);
        } else {
            assert(keys[i]@ != keys[j]@);
        }
    }
}

impl<V> View for TextMap<V> {
    type V = Map<Seq<char>, V>;

    closed spec fn view(&self) -> Map<Seq<char>, V> {
        map_of(self.keys@, self.vals@)
    }
}

impl<V> TextMap<V> {
    #[verifier::type_invariant]
    closed spec fn wf(self) -> bool {
        &&& self.keys@.len() == self.vals@.len()
        &&& distinct_keys(self.keys@)
    }

    /// An empty map.
    pub fn new() -> (m: Self)
        ensures
            m@ == Map::<Seq<char>, V>::empty(),
    {
        let m = TextMap { keys: Vec::new(), vals: Vec::new() };
        assert(m@ =~= Map::<Seq<char>, V>::empty());
        m
    }

    fn position(&self, key: &str) -> (r: Option<usize>)
        ensures
            match r {
                Some(i) => i < self.keys@.len() && self.keys@[i as int]@ == key@,
                None => !has_key(self.keys@, key@),
            },
    {
        let mut i: usize = 0;
        while i < self.keys.len()
            invariant
                i <= self.keys@.len(),
                forall|k: int| 0 <= k < i ==> #[trigger] self.keys@[k]@ != key@,
            decreases self.keys@.len() - i,
        {
            if string_eq_str(&self.keys[i], key) {
                return Some(i);
            }
            i += 1;
        }
        None
    }

    /// The value under `key`.
    pub fn get(&self, key: &str) -> (r: Option<&V>)
        ensures
            match r {
                Some(v) => self@.contains_key(key@) && *v == self@[key@],
                None => !self@.contains_key(key@),
            },
    {
        proof { use_type_invariant(self); }
        match self.position(key) {
            Some(i) => {
                proof { lemma_map_of_at(self.keys@, self.vals@, i as int); }
                Some(&self.vals[i])
            },
            None => None,
        }
    }

    /// Sets the value under `key`, replacing any earlier one.
    pub fn insert(&mut self, key: String, value: V)
        ensures
            final(self)@ == old(self)@.insert(key@, value),
    {
        proof { use_type_invariant(&*self); }
        let ghost k0 = self.keys@;
        let ghost v0 = self.vals@;
        let ghost want = map_of(k0, v0).insert(key@, value);
        let pos = self.position(key.as_str());
        let mut taken = TextMap { keys: Vec::new(), vals: Vec::new() };
        std::mem::swap(&mut taken, self);
        let TextMap { mut keys, mut vals } = taken;
        match pos {
            Some(i) => {
                vals.set(i, value);
                proof {
                    let (k1, v1) = (keys@, vals@);
                    assert(k1 == k0);
                    assert forall|k: Seq<char>| #[trigger] map_of(k1, v1).contains_key(k) == want.contains_key(k) by {
                        if k == key@ {
                            assert(has_key(k1, k)) by { assert(k1[i as int]@ == k); }
                        }
                    }
                    assert forall|k: Seq<char>| #[trigger] map_of(k1, v1).contains_key(k) implies map_of(k1, v1)[k] == want[k] by {
                        let j = choose|j: int| 0 <= j < k1.len() && #[trigger] k1[j]@ == k;
                        lemma_map_of_at(k1, v1, j);
                        if j != i {
                            lemma_map_of_at(k0, v0, j);
                        }
                    }
                    assert(map_of(k1, v1) =~= want);
                }
            },
            None => {
                keys.push(key);
                vals.push(value);
                proof {
                    let (k1, v1) = (keys@, vals@);
                    let n = k0.len() as int;
                    assert(distinct_keys(k1)) by {
                        assert forall|a: int, b: int| 0 <= a < b < k1.len() implies k1[a]@ != k1[b]@ by {
                            if b == n {
                                assert(k0[a]@ != key@);
                            }
                        }
                    }
                    assert forall|k: Seq<char>| #[trigger] map_of(k1, v1).contains_key(k) == want.contains_key(k) by {
                        if has_key(k0, k) {
                            let j = choose|j: int| 0 <= j < k0.len() && #[trigger] k0[j]@ == k;
                            assert(k1[j]@ == k);
                        }
                        if has_key(k1, k) && k != key@ {
                            let j = choose|j: int| 0 <= j < k1.len() && #[trigger] k1[j]@ == k;
                            assert(k0[j]@ == k);
                        }
                        if k == key@ {
                            assert(k1[n]@ == k);
                        }
                    }
                    assert forall|k: Seq<char>| #[trigger] map_of(k1, v1).contains_key(k) implies map_of(k1, v1)[k] == want[k] by {
                        let j = choose|j: int| 0 <= j < k1.len() && #[trigger] k1[j]@ == k;
                        lemma_map_of_at(k1, v1, j);
                        if j != n {
                            assert(k0[j]@ == k);
                            lemma_map_of_at(k0, v0, j);
                        }
                    }
                    assert(map_of(k1, v1) =~= want);
                }
            },
        }
        *self = TextMap { keys, vals };
    }

    /// Takes the value under `key` out of the map.
    pub fn remove(&mut self, key: &str) -> (r: Option<V>)
        ensures
            final(self)@ == old(self)@.remove(key@),
            match r {
                Some(v) => old(self)@.contains_key(key@) && v == old(self)@[key@],
                None => !old(self)@.contains_key(key@),
            },
    {
        proof { use_type_invariant(&*self); }
        let ghost k0 = self.keys@;
        let ghost v0 = self.vals@;
        let ghost want = map_of(k0, v0).remove(key@);
        match self.position(key) {
            None => {
                proof {
                    assert(map_of(k0, v0).remove(key@) =~= map_of(k0, v0));
                }
                None
            },
            Some(i) => {
                proof { lemma_map_of_at(k0, v0, i as int); }
                let mut taken = TextMap { keys: Vec::new(), vals: Vec::new() };
                std::mem::swap(&mut taken, self);
                let TextMap { mut keys, mut vals } = taken;
                keys.remove(i);
                let v = vals.remove(i);
                proof {
                    let (k1, v1) = (keys@, vals@);
                    assert(k1 =~= k0.remove(i as int));
                    assert(v1 =~= v0.remove(i as int));
                    assert(distinct_keys(k1)) by {
                        assert forall|a: int, b: int| 0 <= a < b < k1.len() implies k1[a]@ != k1[b]@ by {
                            let a0 = if a < i { a } else { a + 1 };
                            let b0 = if b < i { b } else { b + 1 };
                            assert(k1[a] == k0[a0] && k1[b] == k0[b0]);
                        }
                    }
                    assert forall|k: Seq<char>| #[trigger] map_of(k1, v1).contains_key(k) == want.contains_key(k) by {
                        if has_key(k0, k) && k != key@ {
                            let j = choose|j: int| 0 <= j < k0.len() && #[trigger] k0[j]@ == k;
                            let j1 = if j < i { j } else { j - 1 };
                            assert(j != i);
                            assert(k1[j1]@ == k);
                        }
                        if has_key(k1, k) {
                            let j = choose|j: int| 0 <= j < k1.len() && #[trigger] k1[j]@ == k;
                            let j0 = if j < i { j } else { j + 1 };
                            assert(k0[j0]@ == k);
                            assert(j0 != i);
                            assert(k0[j0]@ != k0[i as int]@);
                        }
                    }
                    assert forall|k: Seq<char>| #[trigger] map_of(k1, v1).contains_key(k) implies map_of(k1, v1)[k] == want[k] by {
                        let j = choose|j: int| 0 <= j < k1.len() && #[trigger] k1[j]@ == k;
                        lemma_map_of_at(k1, v1, j);
                        let j0 = if j < i { j } else { j + 1 };
                        assert(k0[j0]@ == k);
                        lemma_map_of_at(k0, v0, j0);
                    }
                    assert(map_of(k1, v1) =~= want);
                }
                *self = TextMap { keys, vals };
                Some(v)
            },
        }
    }

    /// The key at position `i` in the order `entry` walks the map.
    pub closed spec fn spec_key_at(&self, i: int) -> Seq<char> {
        self.keys@[i]@
    }

    /// Number of keys; positions `0..n` hold each key of the map once.
    pub fn len(&self) -> (n: usize)
        ensures
            n == self@.dom().len(),
            self@.dom().finite(),
            forall|a: int, b: int| 0 <= a < b < n ==> self.spec_key_at(a) != self.spec_key_at(b),
            forall|j: int| 0 <= j < n ==> self@.contains_key(#[trigger] self.spec_key_at(j)),
            forall|k: Seq<char>| #[trigger] self@.contains_key(k) ==> exists|j: int| 0 <= j < n && self.spec_key_at(j) == k,
    {
        proof {
            use_type_invariant(self);
            lemma_dom_len(self.keys@, self.vals@);
            assert forall|j: int| 0 <= j < self.keys@.len() implies self@.contains_key(#[trigger] self.spec_key_at(j)) by {
                lemma_map_of_at(self.keys@, self.vals@, j);
            }
            assert forall|k: Seq<char>| #[trigger] self@.contains_key(k) implies exists|j: int| 0 <= j < self.keys@.len() && self.spec_key_at(j) == k by {
                let j = choose|j: int| 0 <= j < self.keys@.len() && #[trigger] self.keys@[j]@ == k;
                assert(self.spec_key_at(j) == k);
            }
        }
        self.keys.len()
    }

    /// The `i`-th key and its value, in an order fixed by the map's history.
    pub fn entry(&self, i: usize) -> (r: (&String, &V))
        requires
            i < self@.dom().len(),
        ensures
            self@.contains_key(r.0@),
            *r.1 == self@[r.0@],
            r.0@ == self.spec_key_at(i as int),
    {
        proof {
            use_type_invariant(self);
            lemma_dom_len(self.keys@, self.vals@);
            lemma_map_of_at(self.keys@, self.vals@, i as int);
        }
        (&self.keys[i], &self.vals[i])
    }

    /// The keys, each once, in an order fixed by the map's history.
    pub fn keys_list(&self) -> (v: Vec<String>)
        ensures
            forall|j: int| 0 <= j < v.len() ==> self@.contains_key(#[trigger] v@[j]@),
            forall|k: Seq<char>| #[trigger] self@.contains_key(k) ==> exists|j: int| 0 <= j < v.len() && v@[j]@ == k,
            forall|a: int, b: int| 0 <= a < b < v.len() ==> v@[a]@ != v@[b]@,
    {
        proof { use_type_invariant(self); }
        let mut v: Vec<String> = Vec::new();
        let mut i: usize = 0;
        while i < self.keys.len()
            invariant
                i <= self.keys@.len(),
                self.keys@.len() == self.vals@.len(),
                distinct_keys(self.keys@),
                v@.len() == i,
                forall|j: int| 0 <= j < i ==> #[trigger] v@[j]@ == self.keys@[j]@,
            decreases self.keys@.len() - i,
        {
            let k = self.keys[i].clone();
            v.push(k);
            i += 1;
        }
        proof {
            assert forall|j: int| 0 <= j < v.len() implies self@.contains_key(#[trigger] v@[j]@) by {
                lemma_map_of_at(self.keys@, self.vals@, j);
            }
            assert forall|k: Seq<char>| #[trigger] self@.contains_key(k) implies exists|j: int| 0 <= j < v.len() && v@[j]@ == k by {
                let j = choose|j: int| 0 <= j < self.keys@.len() && #[trigger] self.keys@[j]@ == k;
                assert(v@[j]@ == k);
            }
        }
        v
    }
}

proof fn lemma_dom_len<V>(keys: Seq<String>, vals: Seq<V>)
    requires
        distinct_keys(keys),
    ensures
        map_of(keys, vals).dom().len() == keys.len(),
        map_of(keys, vals).dom().finite(),
{
    let ks = keys.map_values(|s: String| s@);
    assert(ks.no_duplicates()) by {
        assert forall|a: int, b: int| 0 <= a < ks.len() && 0 <= b < ks.len() && a != b implies ks[a] != ks[b] by {
            if a < b {
                assert(keys[a]@ != keys[b]@);
            } else {
                assert(keys[b]@ != keys[a]@);
            }
        }
    }
    ks.unique_seq_to_set();
    assert(map_of(keys, vals).dom() =~= ks.to_set()) by {
        assert forall|k: Seq<char>| map_of(keys, vals).dom().contains(k) <==> ks.to_set().contains(k) by {
            if has_key(keys, k) {
                let j = choose|j: int| 0 <= j < keys.len() && #[trigger] keys[j]@ == k;
                assert(ks[j] == k);
            }
            if ks.to_set().contains(k) {
                let j = choose|j: int| 0 <= j < ks.len() && ks[j] == k;
                assert(keys[j]@ == k);
            }
        }
    }
    vstd::seq_lib::seq_to_set_is_finite(ks);
}

} // verus!
