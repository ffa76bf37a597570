//! Verifying a run's output directory once its files are read and parsed:
//! the manifest's hashes and sizes, the run identifiers, and for each
//! decision whether the evidence chain recomputed from its records reaches
//! the strength the decision declared.

use vstd::prelude::*;
use crate::clock::UtcInstant;
use crate::decision::DecisionStatus;
use crate::evidence::{EvidenceKind, EvidenceRecord};
use crate::hash::{canonical_hash, text_hash};
use crate::ids::{spec_uuid_text, uuid_text};
use crate::provenance::aggregator::{
    nodes_view, spec_chain_nodes, spec_chain_strength, walk_provenance_chain, ProvenanceNode,
    ProvenanceNodeV, ProvenanceRef, ProvenanceRefV,
};
use crate::text::{
    chars_of, push_decimal, push_str, spec_decimal, spec_is_blank, spec_lines, spec_trim, split_lines,
    string_from_chars, string_eq_str, trim_chars, is_blank, lines_view,
};
use crate::types::EvidenceStrength;

verus! {

/// The verdict on one decision.
#[derive(Debug, Clone)]
pub struct VerifyEntry {
    pub decision_id: u128,
    pub declared_strength: EvidenceStrength,
    pub recomputed_strength: EvidenceStrength,
    pub valid: bool,
    pub reason_code: String,
    pub message: String,
}

/// The verdicts on all decisions, in the order of the decisions.
#[derive(Debug, Clone)]
pub struct VerifyReport {
    pub entries: Vec<VerifyEntry>,
}

/// Why a directory could not be verified.
#[derive(Debug, Clone)]
pub struct VerifyError {
    pub message: String,
}

impl VerifyError {
    /// The text of the error.
    pub fn to_string(&self) -> (s: String)
        ensures
            s@ == self.message@,
    {
        self.message.clone()
    }
}

/// An artifact listed in the manifest.
#[derive(Debug, Clone)]
pub struct ArtifactSummary {
    pub path: String,
    pub hash: String,
    pub bytes: usize,
}

/// The quality report stored with a decision.
#[derive(Debug, Clone)]
pub struct QualityReportArtifact {
    pub chosen_side: String,
    pub reason_code: String,
    pub message: String,
    pub left_strength: EvidenceStrength,
    pub right_strength: EvidenceStrength,
    pub resolution_hash: String,
}

/// A decision as stored.
#[derive(Debug, Clone)]
pub struct DecisionArtifact {
    pub decision_id: u128,
    pub run_id: u128,
    pub created_at_utc: UtcInstant,
    pub status: DecisionStatus,
    pub reason_code: String,
    pub message: String,
    pub state_hash: String,
    pub quality_left_strength: Option<EvidenceStrength>,
    pub quality_right_strength: Option<EvidenceStrength>,
    pub quality_report: Option<QualityReportArtifact>,
    pub hash: String,
}

/// The manifest of a run's output.
#[derive(Debug, Clone)]
pub struct Manifest {
    pub project: String,
    pub run_id: u128,
    pub generated_at_utc: UtcInstant,
    pub status: DecisionStatus,
    pub reason_code: String,
    pub message: String,
    pub artifacts: Vec<ArtifactSummary>,
}

/// The position of the first artifact listed under `path`.
pub open spec fn spec_find_artifact(arts: Seq<ArtifactSummary>, path: Seq<char>) -> Option<int> {
    if exists|i: int| 0 <= i < arts.len() && #[trigger] arts[i].path@ == path {
        Some(choose|i: int| 0 <= i < arts.len() && #[trigger] arts[i].path@ == path
            && forall|j: int| 0 <= j < i ==> #[trigger] arts[j].path@ != path)
    } else {
        None
    }
}

/// The verdict of the manifest on one artifact's contents: a listed artifact
/// must match the hash and byte count of the contents; an unlisted one is an
/// error only when it is required.
pub open spec fn spec_check_artifact(arts: Seq<ArtifactSummary>, path: Seq<char>, contents: Seq<char>, required: bool) -> Result<(), Seq<char>> {
    match spec_find_artifact(arts, path) {
        Some(i) => {
            let actual_hash = text_hash(contents);
            let actual_bytes = vstd::utf8::encode_utf8(contents).len();
            if arts[i].hash@ != actual_hash {
                Err("manifest hash mismatch for "@ + path + ": expected "@ + arts[i].hash@ + ", got "@ + actual_hash)
            } else if arts[i].bytes != actual_bytes {
                Err("manifest byte count mismatch for "@ + path + ": expected "@ + spec_decimal(arts[i].bytes as nat)
                    + ", got "@ + spec_decimal(actual_bytes))
            } else {
                Ok(())
            }
        },
        None => if required {
            Err("manifest does not list required artifact "@ + path)
        } else {
            Ok(())
        },
    }
}

fn find_artifact(manifest: &Manifest, path: &str) -> (r: Option<usize>)
    ensures
        r matches Some(i) ==> i < manifest.artifacts@.len(),
        match (r, spec_find_artifact(manifest.artifacts@, path@)) {
            (Some(i), Some(j)) => i == j,
            (None, None) => true,
            _ => false,
        },
{
    let mut i: usize = 0;
    while i < manifest.artifacts.len()
        invariant
            i <= manifest.artifacts@.len(),
            forall|j: int| 0 <= j < i ==> #[trigger] manifest.artifacts@[j].path@ != path@,
        decreases manifest.artifacts@.len() - i,
    {
        if string_eq_str(&manifest.artifacts[i].path, path) {
            proof {
                let arts = manifest.artifacts@;
                assert(arts[i as int].path@ == path@);
                let c = choose|c: int| 0 <= c < arts.len() && #[trigger] arts[c].path@ == path@
                    && forall|j: int| 0 <= j < c ==> #[trigger] arts[j].path@ != path@;
                if c < i {
                    assert(arts[c].path@ != path@);
                } else if c > i {
                    assert(arts[i as int].path@ != path@);
                }
            }
            return Some(i);
        }
        i += 1;
    }
    None
}

/// Checks one artifact's contents against the manifest.
pub fn validate_manifest_artifact(manifest: &Manifest, path: &str, contents: &str, required: bool) -> (r: Result<(), VerifyError>)
    ensures
        match (r, spec_check_artifact(manifest.artifacts@, path@, contents@, required)) {
            (Ok(_), Ok(_)) => true,
            (Err(e), Err(m)) => e.message@ == m,
            _ => false,
        },
{
    broadcast use vstd::string::group_string_axioms;
    match find_artifact(manifest, path) {
        Some(i) => {
            let artifact = &manifest.artifacts[i];
            let actual_hash = canonical_hash(contents);
            let actual_bytes = contents.as_bytes().len();
            if !string_eq_str(&artifact.hash, actual_hash.as_str()) {
                let mut m = String::new();
                push_str(&mut m, "manifest hash mismatch for ");
                push_str(&mut m, path);
                push_str(&mut m, ": expected ");
                push_str(&mut m, artifact.hash.as_str());
                push_str(&mut m, ", got ");
                push_str(&mut m, actual_hash.as_str());
                return Err(VerifyError { message: m });
            }
            if artifact.bytes != actual_bytes {
                let mut m = String::new();
                push_str(&mut m, "manifest byte count mismatch for ");
                push_str(&mut m, path);
                push_str(&mut m, ": expected ");
                push_decimal(&mut m, artifact.bytes as u64);
                push_str(&mut m, ", got ");
                push_decimal(&mut m, actual_bytes as u64);
                return Err(VerifyError { message: m });
            }
            Ok(())
        },
        None => {
            if required {
                let mut m = String::new();
                push_str(&mut m, "manifest does not list required artifact ");
                push_str(&mut m, path);
                Err(VerifyError { message: m })
            } else {
                Ok(())
            }
        },
    }
}

/// The strength a decision declares: the side its quality report chose
/// (the stronger one on a tie or an unknown side), the stronger side without
/// a report, and `Signed` when a side is missing.
pub open spec fn spec_declared_strength(d: DecisionArtifact) -> EvidenceStrength {
    match (d.quality_left_strength, d.quality_right_strength) {
        (Some(l), Some(r)) => match d.quality_report {
            Some(rep) => if rep.chosen_side@ == "left"@ {
                l
            } else if rep.chosen_side@ == "right"@ {
                r
            } else {
                l.spec_max(r)
            },
            None => l.spec_max(r),
        },
        _ => EvidenceStrength::Signed,
    }
}

/// The strength a decision declares.
pub fn declared_strength(decision: &DecisionArtifact) -> (s: EvidenceStrength)
    ensures
        s == spec_declared_strength(*decision),
{
    match (decision.quality_left_strength, decision.quality_right_strength) {
        (Some(l), Some(r)) => match &decision.quality_report {
            Some(rep) => {
                if string_eq_str(&rep.chosen_side, "left") {
                    l
                } else if string_eq_str(&rep.chosen_side, "right") {
                    r
                } else {
                    l.strongest(r)
                }
            },
            None => l.strongest(r),
        },
        _ => EvidenceStrength::Signed,
    }
}

/// The strength a record of each kind carries.
pub open spec fn spec_kind_strength(k: EvidenceKind) -> EvidenceStrength {
    match k {
        EvidenceKind::StateSnapshot => EvidenceStrength::Signed,
        EvidenceKind::DecisionAttestation => EvidenceStrength::Anchored,
    }
}

/// The strength a record of each kind carries.
pub fn evidence_kind_strength(kind: EvidenceKind) -> (s: EvidenceStrength)
    ensures
        s == spec_kind_strength(kind),
{
    match kind {
        EvidenceKind::StateSnapshot => EvidenceStrength::Signed,
        EvidenceKind::DecisionAttestation => EvidenceStrength::Anchored,
    }
}

/// The rank of a kind among records made at the same time.
pub open spec fn spec_kind_rank(k: EvidenceKind) -> u8 {
    match k {
        EvidenceKind::StateSnapshot => 0,
        EvidenceKind::DecisionAttestation => 1,
    }
}

fn kind_rank(kind: EvidenceKind) -> (r: u8)
    ensures
        r == spec_kind_rank(kind),
{
    match kind {
        EvidenceKind::StateSnapshot => 0,
        EvidenceKind::DecisionAttestation => 1,
    }
}

/// Record `a` sorts after record `b`: later time, then higher kind rank,
/// then higher identifier.
pub open spec fn spec_after(a: EvidenceRecord, b: EvidenceRecord) -> bool {
    let (x, y) = (a.body, b.body);
    if x.recorded_at_utc.secs != y.recorded_at_utc.secs {
        x.recorded_at_utc.secs > y.recorded_at_utc.secs
    } else if x.recorded_at_utc.nanos != y.recorded_at_utc.nanos {
        x.recorded_at_utc.nanos > y.recorded_at_utc.nanos
    } else if spec_kind_rank(x.kind) != spec_kind_rank(y.kind) {
        spec_kind_rank(x.kind) > spec_kind_rank(y.kind)
    } else {
        x.evidence_id > y.evidence_id
    }
}

fn after(a: &EvidenceRecord, b: &EvidenceRecord) -> (r: bool)
    ensures
        r == spec_after(*a, *b),
{
    let (x, y) = (&a.body, &b.body);
    if x.recorded_at_utc.secs != y.recorded_at_utc.secs {
        x.recorded_at_utc.secs > y.recorded_at_utc.secs
    } else if x.recorded_at_utc.nanos != y.recorded_at_utc.nanos {
        x.recorded_at_utc.nanos > y.recorded_at_utc.nanos
    } else if kind_rank(x.kind) != kind_rank(y.kind) {
        kind_rank(x.kind) > kind_rank(y.kind)
    } else {
        x.evidence_id > y.evidence_id
    }
}

/// The position at which `x` enters a sorted list of positions into `recs`:
/// after every entry it does not sort before (so equal keys keep their
/// order).
pub open spec fn spec_insert_pos(recs: Seq<EvidenceRecord>, order: Seq<int>, x: int) -> int
    decreases order.len(),
{
    if order.len() == 0 {
        0
    } else if spec_after(recs[order.last()], recs[x]) {
        spec_insert_pos(recs, order.drop_last(), x)
    } else {
        order.len() as int
    }
}

/// Insertion of the record at `x` into a sorted list of positions.
pub open spec fn spec_insert_sorted(recs: Seq<EvidenceRecord>, order: Seq<int>, x: int) -> Seq<int> {
    order.insert(spec_insert_pos(recs, order, x), x)
}

/// The positions of the records of a decision (those carrying its hash),
/// among the first `n` records, in the order of a stable sort by time, kind
/// and identifier.
pub open spec fn spec_chain_order(recs: Seq<EvidenceRecord>, decision_hash: Seq<char>, n: int) -> Seq<int>
    decreases n,
{
    if n <= 0 {
        Seq::empty()
    } else {
        let prev = spec_chain_order(recs, decision_hash, n - 1);
        if recs[n - 1].body.decision_hash@ == decision_hash {
            spec_insert_sorted(recs, prev, n - 1)
        } else {
            prev
        }
    }
}

proof fn lemma_insert_pos_bounds(recs: Seq<EvidenceRecord>, order: Seq<int>, x: int)
    ensures
        0 <= spec_insert_pos(recs, order, x) <= order.len(),
    decreases order.len(),
{
    if order.len() > 0 {
        lemma_insert_pos_bounds(recs, order.drop_last(), x);
    }
}

fn insert_pos(recs: &Vec<EvidenceRecord>, order: &Vec<usize>, x: usize) -> (p: usize)
    requires
        x < recs@.len(),
        forall|k: int| 0 <= k < order@.len() ==> #[trigger] order@[k] < recs@.len(),
    ensures
        p == spec_insert_pos(recs@, order@.map_values(|v: usize| v as int), x as int),
        p <= order@.len(),
{
    let ghost o = order@.map_values(|v: usize| v as int);
    let mut p: usize = order.len();
    proof {
        assert(o.take(p as int) =~= o);
    }
    while p > 0 && after(&recs[order[p - 1]], &recs[x])
        invariant
            p <= order@.len(),
            o == order@.map_values(|v: usize| v as int),
            x < recs@.len(),
            forall|k: int| 0 <= k < order@.len() ==> #[trigger] order@[k] < recs@.len(),
            spec_insert_pos(recs@, o.take(p as int), x as int) == spec_insert_pos(recs@, o, x as int),
        decreases p,
    {
        proof {
            assert(o.take(p as int).drop_last() =~= o.take(p - 1));
            assert(o.take(p as int).last() == order@[p - 1] as int);
        }
        p -= 1;
    }
    proof {
        if p > 0 {
            assert(o.take(p as int).last() == order@[p - 1] as int);
            assert(o.take(p as int).len() == p);
        } else {
            assert(o.take(0) =~= Seq::<int>::empty());
        }
    }
    p
}

/// The positions of the records of a decision, stably sorted by time, kind
/// and identifier.
pub fn chain_order(recs: &Vec<EvidenceRecord>, decision_hash: &String) -> (order: Vec<usize>)
    ensures
        order@.map_values(|v: usize| v as int) == spec_chain_order(recs@, decision_hash@, recs@.len() as int),
        forall|k: int| 0 <= k < order@.len() ==> #[trigger] order@[k] < recs@.len(),
{
    let mut order: Vec<usize> = Vec::new();
    let mut i: usize = 0;
    proof {
        assert(order@.map_values(|v: usize| v as int) =~= Seq::<int>::empty());
    }
    while i < recs.len()
        invariant
            i <= recs@.len(),
            order@.map_values(|v: usize| v as int) == spec_chain_order(recs@, decision_hash@, i as int),
            forall|k: int| 0 <= k < order@.len() ==> #[trigger] order@[k] < recs@.len(),
        decreases recs@.len() - i,
    {
        if string_eq_str(&recs[i].body.decision_hash, decision_hash.as_str()) {
            let p = insert_pos(recs, &order, i);
            let ghost o0 = order@;
            order.insert(p, i);
            proof {
                let m0 = o0.map_values(|v: usize| v as int);
                assert(order@.map_values(|v: usize| v as int) =~= m0.insert(p as int, i as int));
                assert forall|k: int| 0 <= k < order@.len() implies #[trigger] order@[k] < recs@.len() by {
                    if k < p {
                        assert(order@[k] == o0[k]);
                    } else if k > p {
                        assert(order@[k] == o0[k - 1]);
                    }
                }
            }
        }
        i += 1;
    }
    order
}

/// The provenance node of the record at position `k` of a chain: named by
/// its identifier, linked to the record before it, with its kind's strength
/// and its position as depth.
pub open spec fn spec_chain_node(recs: Seq<EvidenceRecord>, order: Seq<int>, k: int) -> ProvenanceNodeV {
    ProvenanceNodeV {
        node_id: spec_uuid_text(recs[order[k]].body.evidence_id),
        parent_ref: if k == 0 { None } else { Some(ProvenanceRefV::Active(spec_uuid_text(recs[order[k - 1]].body.evidence_id))) },
        strength: spec_kind_strength(recs[order[k]].body.kind),
        depth: k as u32,
    }
}

/// The strength of a chain recomputed from its records: the provenance walk
/// from its last record up through its links.
pub open spec fn spec_recomputed(recs: Seq<EvidenceRecord>, order: Seq<int>) -> EvidenceStrength {
    if order.len() == 0 {
        EvidenceStrength::Unverifiable
    } else {
        let nodes = Seq::new(order.len(), |k: int| spec_chain_node(recs, order, k));
        spec_chain_strength(spec_chain_nodes(nodes.last(), nodes.drop_last()))
    }
}

/// Recomputes the strength of a chain of records.
pub fn recompute_chain_strength(recs: &Vec<EvidenceRecord>, order: &Vec<usize>) -> (s: EvidenceStrength)
    requires
        forall|k: int| 0 <= k < order@.len() ==> #[trigger] order@[k] < recs@.len(),
        order@.len() <= u32::MAX,
    ensures
        s == spec_recomputed(recs@, order@.map_values(|v: usize| v as int)),
{
    let ghost o = order@.map_values(|v: usize| v as int);
    if order.len() == 0 {
        return EvidenceStrength::Unverifiable;
    }
    let ghost spec_nodes = Seq::new(o.len(), |k: int| spec_chain_node(recs@, o, k));
    let mut nodes: Vec<ProvenanceNode> = Vec::new();
    let mut k: usize = 0;
    while k < order.len()
        invariant
            k <= order@.len(),
            order@.len() <= u32::MAX,
            o == order@.map_values(|v: usize| v as int),
            spec_nodes == Seq::new(o.len(), |k: int| spec_chain_node(recs@, o, k)),
            forall|j: int| 0 <= j < order@.len() ==> #[trigger] order@[j] < recs@.len(),
            nodes_view(nodes@) =~= spec_nodes.take(k as int),
        decreases order@.len() - k,
    {
        let rec = &recs[order[k]];
        let parent_ref = if k == 0 {
            None
        } else {
            Some(ProvenanceRef::active(uuid_text(recs[order[k - 1]].body.evidence_id)))
        };
        let node = ProvenanceNode {
            node_id: uuid_text(rec.body.evidence_id),
            parent_ref,
            strength: evidence_kind_strength(rec.body.kind),
            depth: k as u32,
        };
        proof {
            assert(node@ == spec_chain_node(recs@, o, k as int));
            assert(spec_nodes[k as int] == spec_chain_node(recs@, o, k as int));
        }
        let ghost n0 = nodes@;
        nodes.push(node);
        proof {
            assert(nodes_view(nodes@) =~= nodes_view(n0).push(spec_nodes[k as int]));
            assert(spec_nodes.take(k + 1) =~= spec_nodes.take(k as int).push(spec_nodes[k as int]));
        }
        k += 1;
    }
    let start = match nodes.pop() {
        Some(n) => n,
        None => return EvidenceStrength::Unverifiable,
    };
    proof {
        assert(spec_nodes.take(o.len() as int) =~= spec_nodes);
        assert(nodes_view(nodes@) =~= spec_nodes.drop_last());
        assert(start@ == spec_nodes.last());
    }
    let walked = walk_provenance_chain(start, nodes.as_slice());
    walked.chain_strength
}

/// The verdict on one decision: without records of its own it is refused
/// (`NO_EVIDENCE`); otherwise it holds when the recomputed strength reaches
/// the declared one (`VERIFIED`), else `CHAIN_TOO_WEAK`.
pub open spec fn spec_entry(d: DecisionArtifact, recs: Seq<EvidenceRecord>) -> (EvidenceStrength, bool, Seq<char>, Seq<char>) {
    let declared = spec_declared_strength(d);
    let order = spec_chain_order(recs, d.hash@, recs.len() as int);
    if order.len() == 0 {
        (EvidenceStrength::Unverifiable, false, "NO_EVIDENCE"@, "no evidence chain found"@)
    } else {
        let r = spec_recomputed(recs, order);
        if r.level() >= declared.level() {
            (r, true, "VERIFIED"@, "recomputed strength "@ + r.spec_name() + " satisfied declared strength "@ + declared.spec_name())
        } else {
            (r, false, "CHAIN_TOO_WEAK"@, "recomputed strength "@ + r.spec_name() + " is below declared strength "@ + declared.spec_name())
        }
    }
}

/// A decision's verdict follows the strengths: without an evidence chain it
/// is invalid with reason NO_EVIDENCE; with one, the recomputed strength is
/// that chain's strength, and the decision is valid exactly when that
/// strength is at least the declared one, with reason VERIFIED, and
/// otherwise CHAIN_TOO_WEAK.
pub proof fn law_verdict_follows_strengths(d: DecisionArtifact, recs: Seq<EvidenceRecord>)
    ensures
        ({
            let (r, v, code, _msg) = spec_entry(d, recs);
            let order = spec_chain_order(recs, d.hash@, recs.len() as int);
            let declared = spec_declared_strength(d);
            &&& order.len() == 0 ==> !v && code == "NO_EVIDENCE"@
            &&& order.len() > 0 ==> r == spec_recomputed(recs, order)
            &&& order.len() > 0 ==> (v <==> r.level() >= declared.level())
            &&& v ==> r.level() >= declared.level() && code == "VERIFIED"@
            &&& order.len() > 0 && r.level() < declared.level() ==> !v && code == "CHAIN_TOO_WEAK"@
        }),
{
}

proof fn lemma_chain_order_len(recs: Seq<EvidenceRecord>, h: Seq<char>, n: int)
    ensures
        spec_chain_order(recs, h, n).len() <= if n < 0 { 0 } else { n },
    decreases n,
{
    if n > 0 {
        lemma_chain_order_len(recs, h, n - 1);
        lemma_insert_pos_bounds(recs, spec_chain_order(recs, h, n - 1), n - 1);
    }
}

fn verify_entry(decision: &DecisionArtifact, recs: &Vec<EvidenceRecord>) -> (e: VerifyEntry)
    requires
        recs@.len() <= u32::MAX,
    ensures
        ({
            let (r, v, code, msg) = spec_entry(*decision, recs@);
            &&& e.decision_id == decision.decision_id
            &&& e.declared_strength == spec_declared_strength(*decision)
            &&& e.recomputed_strength == r
            &&& e.valid == v
            &&& e.reason_code@ == code
            &&& e.message@ == msg
        }),
{
    let declared = declared_strength(decision);
    let order = chain_order(recs, &decision.hash);
    proof {
        lemma_chain_order_len(recs@, decision.hash@, recs@.len() as int);
    }
    if order.len() == 0 {
        return VerifyEntry {
            decision_id: decision.decision_id,
            declared_strength: declared,
            recomputed_strength: EvidenceStrength::Unverifiable,
            valid: false,
            reason_code: crate::text::to_string("NO_EVIDENCE"),
            message: crate::text::to_string("no evidence chain found"),
        };
    }
    let recomputed = recompute_chain_strength(recs, &order);
    let valid = recomputed.at_least(declared);
    let mut message = String::new();
    push_str(&mut message, "recomputed strength ");
    push_str(&mut message, recomputed.as_str());
    let reason_code = if valid {
        push_str(&mut message, " satisfied declared strength ");
        crate::text::to_string("VERIFIED")
    } else {
        push_str(&mut message, " is below declared strength ");
        crate::text::to_string("CHAIN_TOO_WEAK")
    };
    push_str(&mut message, declared.as_str());
    VerifyEntry {
        decision_id: decision.decision_id,
        declared_strength: declared,
        recomputed_strength: recomputed,
        valid,
        reason_code,
        message,
    }
}

/// The first `n` lines, trimmed and numbered from 1, blank ones left out.
pub open spec fn spec_numbered_nonblank(lines: Seq<Seq<char>>, n: int) -> Seq<(int, Seq<char>)>
    decreases n,
{
    if n <= 0 {
        Seq::empty()
    } else {
        spec_numbered_nonblank(lines, n - 1) + if spec_trim(lines[n - 1]).len() > 0 {
            seq![(n, spec_trim(lines[n - 1]))]
        } else {
            Seq::empty()
        }
    }
}

/// The numbered lines of a JSON-lines text that hold something: each line
/// (without its line break) trimmed, with its 1-based number, blank ones
/// left out.
pub open spec fn spec_jsonl_lines(text: Seq<char>) -> Seq<(int, Seq<char>)> {
    spec_numbered_nonblank(spec_lines(text), spec_lines(text).len() as int)
}

/// The numbered non-blank lines of a JSON-lines text (see
/// `spec_jsonl_lines`), each to be parsed as one item.
pub fn jsonl_lines(text: &str) -> (r: Vec<(usize, String)>)
    ensures
        r@.map_values(|p: (usize, String)| (p.0 as int, p.1@)) == spec_jsonl_lines(text@),
{
    let chars = chars_of(text);
    let lines = split_lines(&chars);
    let ghost ls = lines_view(lines@);
    let mut r: Vec<(usize, String)> = Vec::new();
    let mut i: usize = 0;
    proof {
        assert(r@.map_values(|p: (usize, String)| (p.0 as int, p.1@)) =~= Seq::<(int, Seq<char>)>::empty());
    }
    while i < lines.len()
        invariant
            i <= lines@.len(),
            ls == lines_view(lines@),
            ls == spec_lines(text@),
            r@.map_values(|p: (usize, String)| (p.0 as int, p.1@)) == spec_numbered_nonblank(ls, i as int),
        decreases lines@.len() - i,
    {
        let t = trim_chars(&lines[i]);
        let ghost before = r@;
        if t.len() > 0 {
            r.push((i + 1, string_from_chars(&t)));
            proof {
                assert(r@.map_values(|p: (usize, String)| (p.0 as int, p.1@))
                    =~= before.map_values(|p: (usize, String)| (p.0 as int, p.1@)).push((i + 1, spec_trim(ls[i as int]))));
            }
        }
        proof {
            assert(ls[i as int] == lines@[i as int]@);
        }
        i += 1;
    }
    r
}

/// The verdicts of a directory whose files were read and parsed: the
/// manifest must vouch for the decisions (required), the state (when
/// present) and the evidence (when it holds more than blanks); every
/// decision and record must belong to the manifest's run; then each
/// decision gets its verdict.
pub open spec fn spec_verify(
    manifest: Manifest,
    decisions_text: Seq<char>,
    decisions: Seq<DecisionArtifact>,
    state_text: Option<Seq<char>>,
    evidence_text: Option<Seq<char>>,
    evidence: Seq<EvidenceRecord>,
) -> Result<Seq<(EvidenceStrength, bool, Seq<char>, Seq<char>)>, Seq<char>> {
    let arts = manifest.artifacts@;
    if spec_check_artifact(arts, "decisions.jsonl"@, decisions_text, true) is Err {
        Err(spec_check_artifact(arts, "decisions.jsonl"@, decisions_text, true)->Err_0)
    } else if state_text is Some && spec_check_artifact(arts, "state.json"@, state_text->0, false) is Err {
        Err(spec_check_artifact(arts, "state.json"@, state_text->0, false)->Err_0)
    } else if evidence_text is Some && !spec_is_blank(evidence_text->0)
        && spec_check_artifact(arts, "evidence.jsonl"@, evidence_text->0, true) is Err {
        Err(spec_check_artifact(arts, "evidence.jsonl"@, evidence_text->0, true)->Err_0)
    } else if exists|i: int| 0 <= i < decisions.len() && #[trigger] decisions[i].run_id != manifest.run_id {
        Err("decisions.jsonl contains a run_id that does not match manifest run_id "@ + spec_uuid_text(manifest.run_id))
    } else if exists|i: int| 0 <= i < evidence.len() && #[trigger] evidence[i].body.run_id != manifest.run_id {
        Err("evidence.jsonl contains a run_id that does not match manifest run_id "@ + spec_uuid_text(manifest.run_id))
    } else {
        Ok(Seq::new(decisions.len(), |i: int| spec_entry(decisions[i], evidence)))
    }
}

/// What a verdict says: the strength found, whether it holds, its reason and its message.
pub open spec fn entry_view(e: VerifyEntry) -> (EvidenceStrength, bool, Seq<char>, Seq<char>) {
    (e.recomputed_strength, e.valid, e.reason_code@, e.message@)
}

/// Verifies a directory whose files were read and parsed (see `spec_verify`).
#[verifier::rlimit(40)]
pub fn verify_parsed(
    manifest: &Manifest,
    decisions_text: &str,
    decisions: &Vec<DecisionArtifact>,
    state_text: Option<&str>,
    evidence_text: Option<&str>,
    evidence: &Vec<EvidenceRecord>,
) -> (r: Result<VerifyReport, VerifyError>)
    requires
        evidence@.len() <= u32::MAX,
    ensures
        match (r, spec_verify(*manifest, decisions_text@, decisions@,
            match state_text { Some(t) => Some(t@), None => None },
            match evidence_text { Some(t) => Some(t@), None => None },
            evidence@)) {
            (Ok(rep), Ok(entries)) => rep.entries@.map_values(|e: VerifyEntry| entry_view(e)) == entries
                && forall|i: int| 0 <= i < rep.entries@.len() ==> (#[trigger] rep.entries@[i]).decision_id == decisions@[i].decision_id
                    && rep.entries@[i].declared_strength == spec_declared_strength(decisions@[i]),
            (Err(e), Err(m)) => e.message@ == m,
            _ => false,
        },
{
    match validate_manifest_artifact(manifest, "decisions.jsonl", decisions_text, true) {
        Ok(_) => {},
        Err(e) => return Err(e),
    }
    match state_text {
        Some(t) => {
            match validate_manifest_artifact(manifest, "state.json", t, false) {
                Ok(_) => {},
                Err(e) => return Err(e),
            }
        },
        None => {},
    }
    match evidence_text {
        Some(t) => {
            let c = chars_of(t);
            if !is_blank(&c) {
                match validate_manifest_artifact(manifest, "evidence.jsonl", t, true) {
                    Ok(_) => {},
                    Err(e) => return Err(e),
                }
            }
        },
        None => {},
    }
    let mut i: usize = 0;
    while i < decisions.len()
        invariant
            i <= decisions@.len(),
            spec_check_artifact(manifest.artifacts@, "decisions.jsonl"@, decisions_text@, true) is Ok,
            state_text matches Some(t) ==> spec_check_artifact(manifest.artifacts@, "state.json"@, t@, false) is Ok,
            evidence_text matches Some(t) ==> spec_is_blank(t@) || spec_check_artifact(manifest.artifacts@, "evidence.jsonl"@, t@, true) is Ok,
            forall|j: int| 0 <= j < i ==> (#[trigger] decisions@[j]).run_id == manifest.run_id,
        decreases decisions@.len() - i,
    {
        if decisions[i].run_id != manifest.run_id {
            assert(decisions@[i as int].run_id != manifest.run_id);
            let mut m = String::new();
            push_str(&mut m, "decisions.jsonl contains a run_id that does not match manifest run_id ");
            let id = uuid_text(manifest.run_id);
            push_str(&mut m, id.as_str());
            return Err(VerifyError { message: m });
        }
        i += 1;
    }
    let mut j: usize = 0;
    while j < evidence.len()
        invariant
            j <= evidence@.len(),
            spec_check_artifact(manifest.artifacts@, "decisions.jsonl"@, decisions_text@, true) is Ok,
            state_text matches Some(t) ==> spec_check_artifact(manifest.artifacts@, "state.json"@, t@, false) is Ok,
            evidence_text matches Some(t) ==> spec_is_blank(t@) || spec_check_artifact(manifest.artifacts@, "evidence.jsonl"@, t@, true) is Ok,
            forall|k: int| 0 <= k < decisions@.len() ==> (#[trigger] decisions@[k]).run_id == manifest.run_id,
            forall|k: int| 0 <= k < j ==> (#[trigger] evidence@[k]).body.run_id == manifest.run_id,
        decreases evidence@.len() - j,
    {
        if evidence[j].body.run_id != manifest.run_id {
            assert(evidence@[j as int].body.run_id != manifest.run_id);
            let mut m = String::new();
            push_str(&mut m, "evidence.jsonl contains a run_id that does not match manifest run_id ");
            let id = uuid_text(manifest.run_id);
            push_str(&mut m, id.as_str());
            return Err(VerifyError { message: m });
        }
        j += 1;
    }
    let mut entries: Vec<VerifyEntry> = Vec::new();
    let mut k: usize = 0;
    while k < decisions.len()
        invariant
            k <= decisions@.len(),
            evidence@.len() <= u32::MAX,
            spec_check_artifact(manifest.artifacts@, "decisions.jsonl"@, decisions_text@, true) is Ok,
            state_text matches Some(t) ==> spec_check_artifact(manifest.artifacts@, "state.json"@, t@, false) is Ok,
            evidence_text matches Some(t) ==> spec_is_blank(t@) || spec_check_artifact(manifest.artifacts@, "evidence.jsonl"@, t@, true) is Ok,
            forall|x: int| 0 <= x < decisions@.len() ==> (#[trigger] decisions@[x]).run_id == manifest.run_id,
            forall|x: int| 0 <= x < evidence@.len() ==> (#[trigger] evidence@[x]).body.run_id == manifest.run_id,
            entries@.len() == k,
            forall|x: int| 0 <= x < k ==> entry_view(#[trigger] entries@[x]) == spec_entry(decisions@[x], evidence@)
                && entries@[x].decision_id == decisions@[x].decision_id
                && entries@[x].declared_strength == spec_declared_strength(decisions@[x]),
        decreases decisions@.len() - k,
    {
        let e = verify_entry(&decisions[k], evidence);
        entries.push(e);
        k += 1;
    }
    proof {
        assert(entries@.map_values(|e: VerifyEntry| entry_view(e))
            =~= Seq::new(decisions@.len(), |i: int| spec_entry(decisions@[i], evidence@)));
    }
    Ok(VerifyReport { entries })
}

} // verus!
