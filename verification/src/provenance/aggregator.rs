//! Provenance chains: parent links (active, or blinded after the parent was
//! anonymised), the reverse derivation index, the strength of a chain, and the
//! blinding of every link to an anonymised record.

use vstd::prelude::*;
use crate::hash::{canonical_hash, is_lower_hex_char, text_hash};
use crate::text::{push_str, string_eq_str, to_string};
use crate::types::EvidenceStrength;

verus! {

/// Link to a parent in a provenance chain. `Active` names the parent record;
/// `Blinded` replaces that name once the parent was anonymised: the blinded
/// hash mixes the unblinded name with a salt derived from the integrity hash of
/// the suppression record, so it is deterministic and checkable.
#[derive(Debug, Clone, PartialEq, Eq)]
pub enum ProvenanceRef {
    Active(String),
    Blinded { blinded_hash: String, blinding_salt: String },
}

/// Mathematical view of a parent link.
pub enum ProvenanceRefV {
    Active(Seq<char>),
    Blinded { blinded_hash: Seq<char>, blinding_salt: Seq<char> },
}

impl View for ProvenanceRef {
    type V = ProvenanceRefV;

    open spec fn view(&self) -> ProvenanceRefV {
        match self {
            ProvenanceRef::Active(h) => ProvenanceRefV::Active(h@),
            ProvenanceRef::Blinded { blinded_hash, blinding_salt } => ProvenanceRefV::Blinded {
                blinded_hash: blinded_hash@,
                blinding_salt: blinding_salt@,
            },
        }
    }
}

impl ProvenanceRefV {
    /// The name the link carries: the parent's name, or the blinded hash.
    pub open spec fn id(self) -> Seq<char> {
        match self {
            ProvenanceRefV::Active(h) => h,
            ProvenanceRefV::Blinded { blinded_hash, .. } => blinded_hash,
        }
    }
}

/// The salt that blinds links to a record suppressed by `suppression`.
pub open spec fn blinding_salt_of(suppression: Seq<char>) -> Seq<char> {
    text_hash(suppression)
}

/// The blinded form of the name `original` under that salt.
pub open spec fn blinded_hash_of(original: Seq<char>, suppression: Seq<char>) -> Seq<char> {
    text_hash(original + ":"@ + blinding_salt_of(suppression))
}

/// The blinded link that replaces a link named `original`.
pub open spec fn spec_blind(original: Seq<char>, suppression: Seq<char>) -> ProvenanceRefV {
    ProvenanceRefV::Blinded {
        blinded_hash: blinded_hash_of(original, suppression),
        blinding_salt: blinding_salt_of(suppression),
    }
}

impl ProvenanceRef {
    /// A link to the parent named `hash`.
    pub fn active(hash: String) -> (r: Self)
        ensures
            r@ == ProvenanceRefV::Active(hash@),
    {
        ProvenanceRef::Active(hash)
    }

    /// The blinded link that replaces a link to `original_hash`, salted by the
    /// integrity hash of the suppression record.
    pub fn blind(original_hash: &str, suppression_integrity_hash: &str) -> (r: Self)
        ensures
            r@ == spec_blind(original_hash@, suppression_integrity_hash@),
            r@.id().len() == 64,
            forall|i: int| 0 <= i < 64 ==> is_lower_hex_char(#[trigger] r@.id()[i]),
    {
        let salt = canonical_hash(suppression_integrity_hash);
        let mut text = String::new();
        push_str(&mut text, original_hash);
        push_str(&mut text, ":");
        push_str(&mut text, salt.as_str());
        let blinded = canonical_hash(text.as_str());
        ProvenanceRef::Blinded { blinded_hash: blinded, blinding_salt: salt }
    }

    /// The link is blinded.
    pub fn is_blinded(&self) -> (b: bool)
        ensures
            b == (self@ is Blinded),
    {
        match self {
            ProvenanceRef::Active(_) => false,
            ProvenanceRef::Blinded { .. } => true,
        }
    }

    /// The name the link carries.
    pub fn as_str(&self) -> (s: &str)
        ensures
            s@ == self@.id(),
    {
        match self {
            ProvenanceRef::Active(h) => h.as_str(),
            ProvenanceRef::Blinded { blinded_hash, .. } => blinded_hash.as_str(),
        }
    }
}

fn copy_ref(r: &ProvenanceRef) -> (c: ProvenanceRef)
    ensures
        c@ == r@,
{
    match r {
        ProvenanceRef::Active(h) => ProvenanceRef::Active(h.clone()),
        ProvenanceRef::Blinded { blinded_hash, blinding_salt } => ProvenanceRef::Blinded {
            blinded_hash: blinded_hash.clone(),
            blinding_salt: blinding_salt.clone(),
        },
    }
}

/// One record of a provenance chain.
#[derive(Debug, Clone, PartialEq, Eq)]
pub struct ProvenanceNode {
    pub node_id: String,
    pub parent_ref: Option<ProvenanceRef>,
    pub strength: EvidenceStrength,
    pub depth: u32,
}

/// Mathematical view of a chain record.
pub struct ProvenanceNodeV {
    pub node_id: Seq<char>,
    pub parent_ref: Option<ProvenanceRefV>,
    pub strength: EvidenceStrength,
    pub depth: u32,
}

impl View for ProvenanceNode {
    type V = ProvenanceNodeV;

    open spec fn view(&self) -> ProvenanceNodeV {
        ProvenanceNodeV {
            node_id: self.node_id@,
            parent_ref: match self.parent_ref {
                Some(r) => Some(r@),
                None => None,
            },
            strength: self.strength,
            depth: self.depth,
        }
    }
}

/// View of a list of records.
pub open spec fn nodes_view(v: Seq<ProvenanceNode>) -> Seq<ProvenanceNodeV> {
    v.map_values(|n: ProvenanceNode| n@)
}

fn copy_node(n: &ProvenanceNode) -> (c: ProvenanceNode)
    ensures
        c@ == n@,
{
    ProvenanceNode {
        node_id: n.node_id.clone(),
        parent_ref: match &n.parent_ref {
            Some(r) => Some(copy_ref(r)),
            None => None,
        },
        strength: n.strength,
        depth: n.depth,
    }
}

/// A chain from its root to the record it was walked from, with the strength
/// of its weakest record.
#[derive(Debug, Clone, PartialEq, Eq)]
pub struct ProvenanceChain {
    pub nodes: Vec<ProvenanceNode>,
    pub chain_strength: EvidenceStrength,
}

// ------------------------------------------------------------------
// Chain strength
// ------------------------------------------------------------------

/// The weakest strength among the records (`Anchored` when there are none).
pub open spec fn weakest_of(s: Seq<ProvenanceNodeV>) -> EvidenceStrength
    decreases s.len(),
{
    if s.len() == 0 {
        EvidenceStrength::Anchored
    } else {
        weakest_of(s.drop_last()).spec_min(s.last().strength)
    }
}

/// The strength of a chain: its weakest record, `Unverifiable` when empty.
pub open spec fn spec_chain_strength(s: Seq<ProvenanceNodeV>) -> EvidenceStrength {
    if s.len() == 0 { EvidenceStrength::Unverifiable } else { weakest_of(s) }
}

/// A chain is no stronger than any of its records, and as strong as one of them.
pub proof fn law_chain_strength_is_weakest_link(s: Seq<ProvenanceNodeV>)
    ensures
        forall|i: int| 0 <= i < s.len() ==> spec_chain_strength(s).level() <= #[trigger] s[i].strength.level(),
        s.len() == 0 ==> spec_chain_strength(s) == EvidenceStrength::Unverifiable,
        s.len() > 0 ==> exists|i: int| 0 <= i < s.len() && #[trigger] s[i].strength == spec_chain_strength(s),
    decreases s.len(),
{
    if s.len() > 0 {
        let init = s.drop_last();
        law_chain_strength_is_weakest_link(init);
        assert forall|i: int| 0 <= i < s.len() implies weakest_of(s).level() <= #[trigger] s[i].strength.level() by {
            if i < s.len() - 1 {
                assert(s[i] == init[i]);
            }
        }
        if weakest_of(s) != s.last().strength {
            let j = choose|j: int| 0 <= j < init.len() && #[trigger] init[j].strength == spec_chain_strength(init);
            assert(s[j] == init[j]);
        } else {
            assert(s[s.len() - 1].strength == spec_chain_strength(s));
        }
    }
}

/// The strength of a chain: its weakest record, `Unverifiable` when empty.
pub fn aggregate_chain_strength(nodes: &[ProvenanceNode]) -> (r: EvidenceStrength)
    ensures
        r == spec_chain_strength(nodes_view(nodes@)),
{
    let ghost s = nodes_view(nodes@);
    if nodes.len() == 0 {
        return EvidenceStrength::Unverifiable;
    }
    let mut m = EvidenceStrength::Anchored;
    let mut i: usize = 0;
    while i < nodes.len()
        invariant
            i <= nodes.len(),
            s == nodes_view(nodes@),
            m == weakest_of(s.take(i as int)),
        decreases nodes.len() - i,
    {
        assert(s.take(i + 1).drop_last() =~= s.take(i as int));
        m = m.weakest(nodes[i].strength);
        i += 1;
    }
    assert(s.take(i as int) =~= s);
    m
}

// ------------------------------------------------------------------
// Walking a chain
// ------------------------------------------------------------------

/// The record named `id` among `parents`; when several carry the name, the
/// last one.
pub open spec fn spec_find_node(parents: Seq<ProvenanceNodeV>, id: Seq<char>) -> Option<ProvenanceNodeV>
    decreases parents.len(),
{
    if parents.len() == 0 {
        None
    } else if parents.last().node_id == id {
        Some(parents.last())
    } else {
        spec_find_node(parents.drop_last(), id)
    }
}

/// The records met walking up from `cur` (in walking order): the walk stops at
/// a record without a parent link, at a link to no known record, or at a
/// record already met (`seen`). `fuel` bounds the number of steps.
pub open spec fn spec_walk(
    parents: Seq<ProvenanceNodeV>,
    cur: ProvenanceNodeV,
    seen: Seq<Seq<char>>,
    fuel: nat,
) -> Seq<ProvenanceNodeV>
    decreases fuel,
{
    if fuel == 0 || seen.contains(cur.node_id) {
        Seq::empty()
    } else {
        match cur.parent_ref {
            None => seq![cur],
            Some(r) => match spec_find_node(parents, r.id()) {
                None => seq![cur],
                Some(p) => seq![cur] + spec_walk(parents, p, seen.push(cur.node_id), (fuel - 1) as nat),
            },
        }
    }
}

/// The chain of `start`, root first: the walk of `start` reversed. The bound
/// on steps (`parents.len() + 2`) is never the reason the walk stops.
pub open spec fn spec_chain_nodes(start: ProvenanceNodeV, parents: Seq<ProvenanceNodeV>) -> Seq<ProvenanceNodeV> {
    spec_walk(parents, start, Seq::empty(), (parents.len() + 2) as nat).reverse()
}

fn find_node(parents: &[ProvenanceNode], id: &str) -> (r: Option<usize>)
    ensures
        match spec_find_node(nodes_view(parents@), id@) {
            None => r is None,
            Some(n) => r matches Some(i) && i < parents.len() && parents@[i as int]@ == n,
        },
{
    let ghost s = nodes_view(parents@);
    let mut j: usize = parents.len();
    assert(s.take(j as int) =~= s);
    while j > 0
        invariant
            j <= parents.len(),
            s == nodes_view(parents@),
            spec_find_node(s, id@) == spec_find_node(s.take(j as int), id@),
        decreases j,
    {
        assert(s.take(j as int).drop_last() =~= s.take(j - 1));
        if string_eq_str(&parents[j - 1].node_id, id) {
            return Some(j - 1);
        }
        j -= 1;
    }
    None
}

fn contains_text(v: &Vec<String>, t: &String) -> (b: bool)
    ensures
        b == v@.map_values(|s: String| s@).contains(t@),
{
    let ghost sv = v@.map_values(|s: String| s@);
    let mut i: usize = 0;
    while i < v.len()
        invariant
            i <= v.len(),
            sv == v@.map_values(|s: String| s@),
            forall|k: int| 0 <= k < i ==> sv[k] != t@,
        decreases v.len() - i,
    {
        if string_eq_str(&v[i], t.as_str()) {
            assert(sv[i as int] == t@);
            return true;
        }
        i += 1;
    }
    false
}

/// The names of the records, in order.
pub open spec fn ids_of(s: Seq<ProvenanceNodeV>) -> Seq<Seq<char>> {
    s.map_values(|n: ProvenanceNodeV| n.node_id)
}

proof fn lemma_find_node_in(parents: Seq<ProvenanceNodeV>, id: Seq<char>)
    ensures
        spec_find_node(parents, id) matches Some(n) ==> n.node_id == id && parents.contains(n),
    decreases parents.len(),
{
    if parents.len() > 0 && parents.last().node_id != id {
        lemma_find_node_in(parents.drop_last(), id);
        if let Some(n) = spec_find_node(parents, id) {
            let k = choose|k: int| 0 <= k < parents.drop_last().len() && parents.drop_last()[k] == n;
            assert(parents[k] == n);
        }
    } else if parents.len() > 0 {
        assert(parents[parents.len() - 1] == parents.last());
    }
}

/// At most `parents.len() + 1` distinct names can be met: every one after the
/// first names a parent.
proof fn lemma_seen_bound(seen: Seq<Seq<char>>, parents: Seq<ProvenanceNodeV>)
    requires
        seen.no_duplicates(),
        forall|k: int| 1 <= k < seen.len() ==> #[trigger] ids_of(parents).contains(seen[k]),
    ensures
        seen.len() <= parents.len() + 1,
{
    if seen.len() > 0 {
        let rest = seen.subrange(1, seen.len() as int);
        assert(rest.no_duplicates());
        rest.unique_seq_to_set();
        ids_of(parents).lemma_cardinality_of_set();
        assert(rest.to_set().subset_of(ids_of(parents).to_set())) by {
            assert forall|x: Seq<char>| rest.to_set().contains(x) implies ids_of(parents).to_set().contains(x) by {
                let k = choose|k: int| 0 <= k < rest.len() && rest[k] == x;
                assert(seen[k + 1] == x);
            }
        }
        vstd::seq_lib::seq_to_set_is_finite(ids_of(parents));
        vstd::set_lib::lemma_len_subset(rest.to_set(), ids_of(parents).to_set());
    }
}

fn reversed(v: Vec<ProvenanceNode>) -> (r: Vec<ProvenanceNode>)
    ensures
        nodes_view(r@) == nodes_view(v@).reverse(),
{
    let mut r: Vec<ProvenanceNode> = Vec::new();
    let mut v = v;
    let ghost orig = nodes_view(v@);
    while v.len() > 0
        invariant
            orig.len() == v.len() + r.len(),
            nodes_view(v@) == orig.take(v.len() as int),
            nodes_view(r@) == orig.reverse().take(r.len() as int),
        decreases v.len(),
    {
        let ghost before_v = v@;
        let ghost before_r = r@;
        let n = v.pop().unwrap();
        proof {
            assert(nodes_view(before_v)[before_v.len() - 1] == orig[before_v.len() - 1]);
            assert(n@ == orig[before_v.len() - 1]);
            assert(orig.reverse()[before_r.len() as int] == orig[before_v.len() - 1]);
        }
        r.push(n);
        proof {
            assert(nodes_view(v@) =~= orig.take(v.len() as int));
            assert(nodes_view(r@) =~= nodes_view(before_r).push(n@));
            assert(nodes_view(r@) =~= orig.reverse().take(r.len() as int));
        }
    }
    assert(nodes_view(r@) =~= orig.reverse());
    r
}

/// Walks from `start` up through the parent links to the root, looking each
/// parent up by name among `parents`, and returns the chain root first with
/// the strength of its weakest record. The walk ends at a record without a
/// link, at a link that names no known record, or when a name comes back.
pub fn walk_provenance_chain(start: ProvenanceNode, parents: &[ProvenanceNode]) -> (c: ProvenanceChain)
    ensures
        nodes_view(c.nodes@) == spec_chain_nodes(start@, nodes_view(parents@)),
        c.chain_strength == spec_chain_strength(nodes_view(c.nodes@)),
{
    let ghost ps = nodes_view(parents@);
    let ghost fuel0: nat = (parents.len() + 2) as nat;
    let mut nodes: Vec<ProvenanceNode> = Vec::new();
    let mut seen: Vec<String> = Vec::new();
    let mut current = start;
    let mut done = false;
    proof {
        assert(seen@.map_values(|s: String| s@) =~= Seq::<Seq<char>>::empty());
        assert(nodes_view(nodes@) + spec_walk(ps, current@, Seq::empty(), fuel0) =~= spec_walk(ps, current@, Seq::empty(), fuel0));
    }
    while !done
        invariant
            ps == nodes_view(parents@),
            fuel0 == ps.len() + 2,
            seen.len() == nodes.len(),
            seen.len() <= ps.len() + 1,
            seen@.map_values(|s: String| s@).no_duplicates(),
            forall|k: int| 0 <= k < seen.len() ==> #[trigger] seen@[k]@ == nodes@[k]@.node_id,
            forall|k: int| 1 <= k < seen.len() ==> #[trigger] ids_of(ps).contains(seen@[k]@),
            !done && seen.len() >= 1 ==> ps.contains(current@),
            done ==> spec_walk(ps, start@, Seq::empty(), fuel0) == nodes_view(nodes@),
            !done ==> spec_walk(ps, start@, Seq::empty(), fuel0) == nodes_view(nodes@)
                + spec_walk(ps, current@, seen@.map_values(|s: String| s@), (fuel0 - seen.len()) as nat),
        decreases fuel0 - seen.len(), if done { 0nat } else { 1nat },
    {
        let ghost sv = seen@.map_values(|s: String| s@);
        let ghost nv = nodes_view(nodes@);
        let ghost fuel: nat = (fuel0 - seen.len()) as nat;
        if contains_text(&seen, &current.node_id) {
            assert(nv + Seq::<ProvenanceNodeV>::empty() =~= nv);
            done = true;
        } else {
            let ghost sv2 = sv.push(current@.node_id);
            proof {
                assert(sv2.no_duplicates());
                assert forall|k: int| 1 <= k < sv2.len() implies #[trigger] ids_of(ps).contains(sv2[k]) by {
                    if k == sv.len() {
                        let j = choose|j: int| 0 <= j < ps.len() && ps[j] == current@;
                        assert(ids_of(ps)[j] == current@.node_id);
                    } else {
                        assert(sv2[k] == seen@[k]@);
                    }
                }
                lemma_seen_bound(sv2, ps);
            }
            seen.push(current.node_id.clone());
            nodes.push(copy_node(&current));
            proof {
                assert(seen@.map_values(|s: String| s@) =~= sv2);
                assert forall|k: int| 1 <= k < seen.len() implies #[trigger] ids_of(ps).contains(seen@[k]@) by {
                    assert(seen@[k]@ == sv2[k]);
                }
                assert(nodes_view(nodes@) =~= nv.push(current@));
            }
            let next = match &current.parent_ref {
                None => None,
                Some(r) => find_node(parents, r.as_str()),
            };
            match next {
                None => {
                    assert(nv + seq![current@] =~= nv.push(current@));
                    done = true;
                },
                Some(i) => {
                    let p = copy_node(&parents[i]);
                    proof {
                        assert(ps[i as int] == p@);
                        assert(ps.contains(p@));
                        assert(nv + (seq![current@] + spec_walk(ps, p@, sv2, (fuel - 1) as nat))
                            =~= nv.push(current@) + spec_walk(ps, p@, sv2, (fuel - 1) as nat));
                    }
                    current = p;
                },
            }
        }
    }
    let ordered = reversed(nodes);
    let chain_strength = aggregate_chain_strength(ordered.as_slice());
    ProvenanceChain { nodes: ordered, chain_strength }
}

/// Every record of `w` links to the record after it.
pub open spec fn follows_links(w: Seq<ProvenanceNodeV>) -> bool {
    forall|i: int| 0 <= i < w.len() - 1 ==> #[trigger] links_to(w[i], w[i + 1].node_id)
}

/// No name occurs twice in `w`.
pub open spec fn distinct_ids(w: Seq<ProvenanceNodeV>) -> bool {
    forall|i: int, j: int| 0 <= i < j < w.len() ==> (#[trigger] w[i]).node_id != (#[trigger] w[j]).node_id
}

/// No record of `w` carries a name of `seen`.
spec fn avoids(w: Seq<ProvenanceNodeV>, seen: Seq<Seq<char>>) -> bool {
    forall|i: int| 0 <= i < w.len() ==> !seen.contains((#[trigger] w[i]).node_id)
}

proof fn lemma_walk_step(parents: Seq<ProvenanceNodeV>, cur: ProvenanceNodeV, seen: Seq<Seq<char>>, fuel: nat)
    requires
        fuel > 0,
        !seen.contains(cur.node_id),
    ensures
        spec_walk(parents, cur, seen, fuel).len() >= 1,
        spec_walk(parents, cur, seen, fuel)[0] == cur,
        spec_walk(parents, cur, seen, fuel).len() > 1 ==> cur.parent_ref is Some
            && spec_find_node(parents, cur.parent_ref->0.id()) is Some
            && spec_walk(parents, cur, seen, fuel) == seq![cur] + spec_walk(
                parents,
                spec_find_node(parents, cur.parent_ref->0.id())->0,
                seen.push(cur.node_id),
                (fuel - 1) as nat,
            ),
{
}

proof fn lemma_walk_links(parents: Seq<ProvenanceNodeV>, cur: ProvenanceNodeV, seen: Seq<Seq<char>>, fuel: nat)
    ensures
        follows_links(spec_walk(parents, cur, seen, fuel)),
        forall|i: int| 1 <= i < spec_walk(parents, cur, seen, fuel).len()
            ==> parents.contains(#[trigger] spec_walk(parents, cur, seen, fuel)[i]),
    decreases fuel,
{
    let w = spec_walk(parents, cur, seen, fuel);
    if fuel > 0 && !seen.contains(cur.node_id) {
        lemma_walk_step(parents, cur, seen, fuel);
        if w.len() > 1 {
            let r = cur.parent_ref->0;
            let p = spec_find_node(parents, r.id())->0;
            let seen2 = seen.push(cur.node_id);
            let t = spec_walk(parents, p, seen2, (fuel - 1) as nat);
            lemma_walk_links(parents, p, seen2, (fuel - 1) as nat);
            lemma_find_node_in(parents, r.id());
            assert(t.len() >= 1);
            lemma_walk_step(parents, p, seen2, (fuel - 1) as nat);
            assert forall|i: int| 0 <= i < w.len() - 1 implies #[trigger] links_to(w[i], w[i + 1].node_id) by {
                assert(w[i + 1] == t[i]);
                if i > 0 {
                    assert(w[i] == t[i - 1]);
                    assert(links_to(t[i - 1], t[i - 1 + 1].node_id));
                } else {
                    assert(t[0] == p);
                    assert(p.node_id == r.id());
                }
            }
            assert forall|i: int| 1 <= i < w.len() implies parents.contains(#[trigger] w[i]) by {
                assert(w[i] == t[i - 1]);
            }
        }
    }
}

proof fn lemma_walk_distinct(parents: Seq<ProvenanceNodeV>, cur: ProvenanceNodeV, seen: Seq<Seq<char>>, fuel: nat)
    ensures
        avoids(spec_walk(parents, cur, seen, fuel), seen),
        distinct_ids(spec_walk(parents, cur, seen, fuel)),
    decreases fuel,
{
    let w = spec_walk(parents, cur, seen, fuel);
    if fuel > 0 && !seen.contains(cur.node_id) {
        lemma_walk_step(parents, cur, seen, fuel);
        if w.len() > 1 {
            let r = cur.parent_ref->0;
            let p = spec_find_node(parents, r.id())->0;
            let seen2 = seen.push(cur.node_id);
            let t = spec_walk(parents, p, seen2, (fuel - 1) as nat);
            lemma_walk_distinct(parents, p, seen2, (fuel - 1) as nat);
            assert forall|i: int| 0 <= i < w.len() implies !seen.contains((#[trigger] w[i]).node_id) by {
                if i > 0 {
                    assert(w[i] == t[i - 1]);
                    if seen.contains(t[i - 1].node_id) {
                        let k = choose|k: int| 0 <= k < seen.len() && seen[k] == t[i - 1].node_id;
                        assert(seen2[k] == t[i - 1].node_id);
                    }
                }
            }
            assert forall|i: int, j: int| 0 <= i < j < w.len() implies (#[trigger] w[i]).node_id != (#[trigger] w[j]).node_id by {
                assert(w[j] == t[j - 1]);
                if i == 0 {
                    assert(seen2[seen.len() as int] == cur.node_id);
                } else {
                    assert(w[i] == t[i - 1]);
                }
            }
        }
    }
}

/// The chain of a record ends with that record; every record in it links to
/// the record just before it; no name occurs twice; and every record but the
/// last is one of the known parents.
pub proof fn law_chain_follows_links(start: ProvenanceNodeV, parents: Seq<ProvenanceNodeV>)
    ensures
        spec_chain_nodes(start, parents).len() >= 1,
        spec_chain_nodes(start, parents).last() == start,
        forall|k: int| 0 <= k < spec_chain_nodes(start, parents).len() - 1
            ==> #[trigger] links_to(spec_chain_nodes(start, parents)[k + 1], spec_chain_nodes(start, parents)[k].node_id),
        distinct_ids(spec_chain_nodes(start, parents)),
        forall|k: int| 0 <= k < spec_chain_nodes(start, parents).len() - 1
            ==> parents.contains(#[trigger] spec_chain_nodes(start, parents)[k]),
{
    let fuel = (parents.len() + 2) as nat;
    let w = spec_walk(parents, start, Seq::empty(), fuel);
    lemma_walk_step(parents, start, Seq::empty(), fuel);
    lemma_walk_links(parents, start, Seq::empty(), fuel);
    lemma_walk_distinct(parents, start, Seq::empty(), fuel);
    let c = w.reverse();
    let n = w.len() as int;
    assert(c[n - 1] == w[0]);
    assert forall|k: int| 0 <= k < c.len() - 1 implies #[trigger] links_to(c[k + 1], c[k].node_id) by {
        assert(c[k + 1] == w[n - 2 - k]);
        assert(c[k] == w[n - 2 - k + 1]);
    }
    assert forall|i: int, j: int| 0 <= i < j < c.len() implies (#[trigger] c[i]).node_id != (#[trigger] c[j]).node_id by {
        assert(c[i] == w[n - 1 - i]);
        assert(c[j] == w[n - 1 - j]);
    }
    assert forall|k: int| 0 <= k < c.len() - 1 implies parents.contains(#[trigger] c[k]) by {
        assert(c[k] == w[n - 1 - k]);
    }
}

// ------------------------------------------------------------------
// Blinding links
// ------------------------------------------------------------------

/// The record links (actively or not) to a record named `target`.
pub open spec fn links_to(n: ProvenanceNodeV, target: Seq<char>) -> bool {
    n.parent_ref matches Some(r) && r.id() == target
}

/// The record with its link to `target` blinded; other records unchanged.
pub open spec fn spec_blind_node(n: ProvenanceNodeV, target: Seq<char>, suppression: Seq<char>) -> ProvenanceNodeV {
    if links_to(n, target) {
        ProvenanceNodeV { parent_ref: Some(spec_blind(target, suppression)), ..n }
    } else {
        n
    }
}

/// How many records link to `target`.
pub open spec fn link_count(s: Seq<ProvenanceNodeV>, target: Seq<char>) -> nat
    decreases s.len(),
{
    if s.len() == 0 {
        0
    } else {
        link_count(s.drop_last(), target) + if links_to(s.last(), target) { 1nat } else { 0nat }
    }
}

proof fn lemma_link_count_bound(s: Seq<ProvenanceNodeV>, target: Seq<char>)
    ensures
        link_count(s, target) <= s.len(),
    decreases s.len(),
{
    if s.len() > 0 {
        lemma_link_count_bound(s.drop_last(), target);
    }
}

/// Replaces every link to `target` (the anonymised record) by its blinded
/// form, salted by the suppression record's integrity hash, and returns how
/// many links were replaced.
pub fn blind_derivation_links(
    nodes: &mut [ProvenanceNode],
    target_epa_id: &str,
    suppression_integrity_hash: &str,
) -> (count: usize)
    ensures
        final(nodes)@.len() == old(nodes)@.len(),
        forall|i: int| 0 <= i < old(nodes)@.len() ==> #[trigger] final(nodes)@[i]@
            == spec_blind_node(old(nodes)@[i]@, target_epa_id@, suppression_integrity_hash@),
        count == link_count(nodes_view(old(nodes)@), target_epa_id@),
{
    let ghost orig = nodes_view(old(nodes)@);
    let mut count: usize = 0;
    let mut i: usize = 0;
    while i < nodes.len()
        invariant
            i <= nodes@.len(),
            nodes@.len() == orig.len(),
            orig == nodes_view(old(nodes)@),
            forall|k: int| 0 <= k < i ==> #[trigger] nodes@[k]@
                == spec_blind_node(orig[k], target_epa_id@, suppression_integrity_hash@),
            forall|k: int| i <= k < nodes@.len() ==> #[trigger] nodes@[k]@ == orig[k],
            count == link_count(orig.take(i as int), target_epa_id@),
        decreases nodes@.len() - i,
    {
        assert(orig.take(i + 1).drop_last() =~= orig.take(i as int));
        assert(orig.take(i + 1).last() == orig[i as int]);
        assert(nodes@[i as int]@ == orig[i as int]);
        proof { lemma_link_count_bound(orig.take(i as int), target_epa_id@); }
        let hit = match &nodes[i].parent_ref {
            Some(r) => string_eq_str(&to_string(r.as_str()), target_epa_id),
            None => false,
        };
        if hit {
            let blinded = ProvenanceRef::blind(target_epa_id, suppression_integrity_hash);
            let n = ProvenanceNode {
                node_id: nodes[i].node_id.clone(),
                parent_ref: Some(blinded),
                strength: nodes[i].strength,
                depth: nodes[i].depth,
            };
            assert(n@ == spec_blind_node(orig[i as int], target_epa_id@, suppression_integrity_hash@));
            nodes[i] = n;
            assert(nodes@[i as int]@ == spec_blind_node(orig[i as int], target_epa_id@, suppression_integrity_hash@));
            count = count + 1;
        } else {
            assert(!links_to(orig[i as int], target_epa_id@));
        }
        i += 1;
    }
    assert(orig.take(i as int) =~= orig);
    count
}

/// After blinding, no record keeps an active link to the anonymised record,
/// and records that did not link to it are unchanged.
pub proof fn law_blinding_removes_active_links(n: ProvenanceNodeV, target: Seq<char>, suppression: Seq<char>)
    ensures
        !(spec_blind_node(n, target, suppression).parent_ref matches Some(ProvenanceRefV::Active(h)) && h == target),
        !links_to(n, target) ==> spec_blind_node(n, target, suppression) == n,
        links_to(n, target) ==> spec_blind_node(n, target, suppression).node_id == n.node_id
            && spec_blind_node(n, target, suppression).strength == n.strength
            && spec_blind_node(n, target, suppression).depth == n.depth,
{
}

// ------------------------------------------------------------------
// Derivation index
// ------------------------------------------------------------------

/// The children recorded under one parent, in insertion order.
struct ChildList {
    parent: String,
    children: Vec<String>,
}

/// View of a list of names.
pub open spec fn strs_view(v: Seq<String>) -> Seq<Seq<char>> {
    v.map_values(|s: String| s@)
}

spec fn distinct_parents(e: Seq<ChildList>) -> bool {
    forall|i: int, j: int| 0 <= i < j < e.len() ==> e[i].parent@ != e[j].parent@
}

spec fn has_parent(e: Seq<ChildList>, k: Seq<char>) -> bool {
    exists|i: int| 0 <= i < e.len() && #[trigger] e[i].parent@ == k
}

spec fn index_view(e: Seq<ChildList>) -> Map<Seq<char>, Seq<Seq<char>>> {
    Map::new(
        |k: Seq<char>| has_parent(e, k),
        |k: Seq<char>| strs_view(e[choose|i: int| 0 <= i < e.len() && #[trigger] e[i].parent@ == k].children@),
    )
}

proof fn lemma_index_view_at(e: Seq<ChildList>, i: int)
    requires
        distinct_parents(e),
        0 <= i < e.len(),
    ensures
        index_view(e).contains_key(e[i].parent@),
        index_view(e)[e[i].parent@] == strs_view(e[i].children@),
{
    let k = e[i].parent@;
    assert(has_parent(e, k));
    let j = choose|j: int| 0 <= j < e.len() && #[trigger] e[j].parent@ == k;
    if j != i {
        if j < i {
            assert(e[j].parent@ != e[i].parent@);
        } else {
            assert(e[i].parent@ != e[j].parent@);
        }
    }
}

/// `m` with `child` appended to the children of `parent`.
pub open spec fn spec_add_child(
    m: Map<Seq<char>, Seq<Seq<char>>>,
    parent: Seq<char>,
    child: Seq<char>,
) -> Map<Seq<char>, Seq<Seq<char>>> {
    m.insert(parent, (if m.contains_key(parent) { m[parent] } else { Seq::empty() }).push(child))
}

/// The index of a list of records: each record with a parent link is a child
/// of the name the link carries, in the order of the list.
pub open spec fn spec_index_of(s: Seq<ProvenanceNodeV>) -> Map<Seq<char>, Seq<Seq<char>>>
    decreases s.len(),
{
    if s.len() == 0 {
        Map::empty()
    } else {
        let m = spec_index_of(s.drop_last());
        match s.last().parent_ref {
            Some(r) => spec_add_child(m, r.id(), s.last().node_id),
            None => m,
        }
    }
}

/// Reverse derivation index: parent record → the records derived from it, in
/// the order they were recorded.
pub struct DerivationIndex {
    entries: Vec<ChildList>,
}

impl View for DerivationIndex {
    type V = Map<Seq<char>, Seq<Seq<char>>>;

    closed spec fn view(&self) -> Map<Seq<char>, Seq<Seq<char>>> {
        index_view(self.entries@)
    }
}

impl DerivationIndex {
    #[verifier::type_invariant]
    closed spec fn wf(self) -> bool {
        distinct_parents(self.entries@)
    }

    /// An empty index.
    pub fn new() -> (r: Self)
        ensures
            r@ == Map::<Seq<char>, Seq<Seq<char>>>::empty(),
    {
        let r = DerivationIndex { entries: Vec::new() };
        assert(r@ =~= Map::<Seq<char>, Seq<Seq<char>>>::empty());
        r
    }

    fn position(&self, key: &str) -> (r: Option<usize>)
        ensures
            match r {
                Some(i) => i < self.entries.len() && self.entries@[i as int].parent@ == key@,
                None => !has_parent(self.entries@, key@),
            },
    {
        let mut i: usize = 0;
        while i < self.entries.len()
            invariant
                i <= self.entries.len(),
                forall|k: int| 0 <= k < i ==> #[trigger] self.entries@[k].parent@ != key@,
            decreases self.entries.len() - i,
        {
            if string_eq_str(&self.entries[i].parent, key) {
                return Some(i);
            }
            i += 1;
        }
        None
    }

    /// Records `child_epa_id` as derived from `parent_epa_id`.
    pub fn insert(&mut self, parent_epa_id: &str, child_epa_id: &str)
        ensures
            final(self)@ == spec_add_child(old(self)@, parent_epa_id@, child_epa_id@),
    {
        proof { use_type_invariant(&*self); }
        let ghost e0 = self.entries@;
        let ghost p = parent_epa_id@;
        let pos = self.position(parent_epa_id);
        let mut entries: Vec<ChildList> = Vec::new();
        std::mem::swap(&mut entries, &mut self.entries);
        match pos {
            Some(i) => {
                let ghost old_kids = entries@[i as int].children@;
                entries[i].children.push(to_string(child_epa_id));
                proof {
                    let e1 = entries@;
                    assert(distinct_parents(e1)) by {
                        assert forall|a: int, b: int| 0 <= a < b < e1.len() implies e1[a].parent@ != e1[b].parent@ by {
                            assert(e1[a].parent@ == e0[a].parent@);
                            assert(e1[b].parent@ == e0[b].parent@);
                        }
                    }
                    lemma_index_view_at(e0, i as int);
                    lemma_index_view_at(e1, i as int);
                    assert(strs_view(e1[i as int].children@) =~= strs_view(old_kids).push(child_epa_id@));
                    let want = spec_add_child(index_view(e0), p, child_epa_id@);
                    assert forall|k: Seq<char>| #[trigger] index_view(e1).contains_key(k) == want.contains_key(k) by {
                        if has_parent(e0, k) {
                            let j = choose|j: int| 0 <= j < e0.len() && #[trigger] e0[j].parent@ == k;
                            assert(e1[j].parent@ == k);
                        }
                        if has_parent(e1, k) {
                            let j = choose|j: int| 0 <= j < e1.len() && #[trigger] e1[j].parent@ == k;
                            assert(e0[j].parent@ == k);
                        }
                    }
                    assert forall|k: Seq<char>| #[trigger] index_view(e1).contains_key(k) implies index_view(e1)[k] == want[k] by {
                        let j = choose|j: int| 0 <= j < e1.len() && #[trigger] e1[j].parent@ == k;
                        lemma_index_view_at(e1, j);
                        if j != i {
                            assert(e0[j].parent@ == k);
                            lemma_index_view_at(e0, j);
                        }
                    }
                    assert(index_view(e1) =~= want);
                }
                self.entries = entries;
            },
            None => {
                let mut kids: Vec<String> = Vec::new();
                kids.push(to_string(child_epa_id));
                entries.push(ChildList { parent: to_string(parent_epa_id), children: kids });
                proof {
                    let e1 = entries@;
                    let n = e0.len() as int;
                    assert(distinct_parents(e1)) by {
                        assert forall|a: int, b: int| 0 <= a < b < e1.len() implies e1[a].parent@ != e1[b].parent@ by {
                            if b == n {
                                assert(e0[a].parent@ != p);
                            }
                        }
                    }
                    lemma_index_view_at(e1, n);
                    assert(strs_view(e1[n].children@) =~= seq![child_epa_id@]);
                    let want = spec_add_child(index_view(e0), p, child_epa_id@);
                    assert forall|k: Seq<char>| #[trigger] index_view(e1).contains_key(k) == want.contains_key(k) by {
                        if has_parent(e0, k) {
                            let j = choose|j: int| 0 <= j < e0.len() && #[trigger] e0[j].parent@ == k;
                            assert(e1[j].parent@ == k);
                        }
                        if has_parent(e1, k) && k != p {
                            let j = choose|j: int| 0 <= j < e1.len() && #[trigger] e1[j].parent@ == k;
                            assert(e0[j].parent@ == k);
                        }
                    }
                    assert forall|k: Seq<char>| #[trigger] index_view(e1).contains_key(k) implies index_view(e1)[k] == want[k] by {
                        let j = choose|j: int| 0 <= j < e1.len() && #[trigger] e1[j].parent@ == k;
                        lemma_index_view_at(e1, j);
                        if j != n {
                            assert(e0[j].parent@ == k);
                            lemma_index_view_at(e0, j);
                        }
                    }
                    assert(index_view(e1) =~= want);
                }
                self.entries = entries;
            },
        }
    }

    /// The records derived from `epa_id`, in the order they were recorded.
    pub fn children_of(&self, epa_id: &str) -> (r: Vec<String>)
        ensures
            strs_view(r@) == (if self@.contains_key(epa_id@) { self@[epa_id@] } else { Seq::empty() }),
    {
        proof { use_type_invariant(self); }
        match self.position(epa_id) {
            Some(i) => {
                proof { lemma_index_view_at(self.entries@, i as int); }
                let kids = &self.entries[i].children;
                let mut r: Vec<String> = Vec::new();
                let mut k: usize = 0;
                while k < kids.len()
                    invariant
                        k <= kids.len(),
                        strs_view(r@) =~= strs_view(kids@).take(k as int),
                    decreases kids.len() - k,
                {
                    let ghost before = r@;
                    let c = kids[k].clone();
                    assert(c@ == kids@[k as int]@);
                    r.push(c);
                    assert(strs_view(r@) =~= strs_view(before).push(c@));
                    k += 1;
                }
                assert(strs_view(kids@).take(k as int) =~= strs_view(kids@));
                r
            },
            None => {
                let r: Vec<String> = Vec::new();
                assert(strs_view(r@) =~= Seq::<Seq<char>>::empty());
                r
            },
        }
    }

    /// The index of a list of records: each record with a parent link is
    /// recorded as a child of the name the link carries.
    pub fn build_from_chain_refs(nodes: &[ProvenanceNode]) -> (r: Self)
        ensures
            r@ == spec_index_of(nodes_view(nodes@)),
    {
        let ghost s = nodes_view(nodes@);
        let mut index = DerivationIndex::new();
        let mut i: usize = 0;
        while i < nodes.len()
            invariant
                i <= nodes.len(),
                s == nodes_view(nodes@),
                index@ == spec_index_of(s.take(i as int)),
            decreases nodes.len() - i,
        {
            assert(s.take(i + 1).drop_last() =~= s.take(i as int));
            assert(s.take(i + 1).last() == nodes@[i as int]@);
            match &nodes[i].parent_ref {
                Some(r) => {
                    index.insert(r.as_str(), nodes[i].node_id.as_str());
                },
                None => {},
            }
            i += 1;
        }
        assert(s.take(i as int) =~= s);
        index
    }
}

impl Default for DerivationIndex {
    fn default() -> (r: Self)
        ensures
            r@ == Map::<Seq<char>, Seq<Seq<char>>>::empty(),
    {
        DerivationIndex::new()
    }
}

/// Recording a child never loses what was recorded before: every earlier child
/// of every parent is still listed, in the same place.
pub proof fn law_add_child_keeps_earlier(
    m: Map<Seq<char>, Seq<Seq<char>>>,
    parent: Seq<char>,
    child: Seq<char>,
    k: Seq<char>,
)
    requires
        m.contains_key(k),
    ensures
        spec_add_child(m, parent, child).contains_key(k),
        spec_add_child(m, parent, child)[k].len() >= m[k].len(),
        forall|j: int| 0 <= j < m[k].len() ==> #[trigger] spec_add_child(m, parent, child)[k][j] == m[k][j],
        spec_add_child(m, parent, child)[parent].last() == child,
{
}

} // verus!
