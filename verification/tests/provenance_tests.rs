use nexoia::provenance::aggregator::{
    aggregate_chain_strength, blind_derivation_links, walk_provenance_chain, DerivationIndex,
    ProvenanceNode, ProvenanceRef,
};
use nexoia::provenance::compose;
use nexoia::provenance::signing::length_prefixed_signing_message;
use nexoia::provenance::typed_node::{
    Anchored, DowncastError, Local, Signed, TypedNode, Unverifiable, Witnessed,
};
use nexoia::provenance::witness::{InsufficientWitnessesError, Witness, WitnessKind, WitnessSet};
use nexoia::types::EvidenceStrength;
use uuid::Uuid;

fn node(
    node_id: &str,
    parent_ref: Option<ProvenanceRef>,
    strength: EvidenceStrength,
    depth: u32,
) -> ProvenanceNode {
    ProvenanceNode { node_id: node_id.to_string(), parent_ref, strength, depth }
}

#[test]
fn provenance_ref_active_as_str() {
    let r = ProvenanceRef::active("hash123".to_string());
    assert_eq!(r.as_str(), "hash123");
    assert!(!r.is_blinded());
}

#[test]
fn provenance_ref_blind_creates_blinded() {
    let r = ProvenanceRef::blind("original_hash", "suppression_hash");
    assert!(r.is_blinded());
    assert_ne!(r.as_str(), "original_hash");
}

#[test]
fn blind_deterministic_with_same_salt() {
    let r1 = ProvenanceRef::blind("abc", "salt");
    let r2 = ProvenanceRef::blind("abc", "salt");
    assert_eq!(r1.as_str(), r2.as_str());
}

#[test]
fn blind_differs_with_another_salt() {
    let r1 = ProvenanceRef::blind("abc", "salt");
    let r2 = ProvenanceRef::blind("abc", "pepper");
    assert_ne!(r1.as_str(), r2.as_str());
    assert_eq!(r1.as_str().len(), 64);
}

#[test]
fn aggregate_chain_strength_returns_minimum_strength() {
    let nodes = vec![
        node("a", None, EvidenceStrength::Anchored, 0),
        node("b", None, EvidenceStrength::Signed, 1),
        node("c", None, EvidenceStrength::Witnessed, 2),
    ];
    assert_eq!(aggregate_chain_strength(&nodes), EvidenceStrength::Witnessed);
}

#[test]
fn aggregate_chain_strength_returns_unverifiable_for_empty_chain() {
    let nodes: Vec<ProvenanceNode> = Vec::new();
    assert_eq!(aggregate_chain_strength(&nodes), EvidenceStrength::Unverifiable);
}

#[test]
fn walk_provenance_chain_single_node() {
    let root = node("root", None, EvidenceStrength::Signed, 0);
    let chain = walk_provenance_chain(root.clone(), &[]);
    assert_eq!(chain.nodes, vec![root]);
    assert_eq!(chain.chain_strength, EvidenceStrength::Signed);
}

#[test]
fn walk_provenance_chain_three_nodes_weakest_in_middle() {
    let root = node("root", None, EvidenceStrength::Anchored, 0);
    let middle = node(
        "middle",
        Some(ProvenanceRef::active("root".to_string())),
        EvidenceStrength::Local,
        1,
    );
    let leaf = node(
        "leaf",
        Some(ProvenanceRef::active("middle".to_string())),
        EvidenceStrength::Signed,
        2,
    );
    let chain = walk_provenance_chain(leaf, &[middle.clone(), root.clone()]);
    assert_eq!(
        chain.nodes,
        vec![
            root,
            middle,
            node(
                "leaf",
                Some(ProvenanceRef::active("middle".to_string())),
                EvidenceStrength::Signed,
                2
            )
        ]
    );
    assert_eq!(chain.chain_strength, EvidenceStrength::Local);
}

#[test]
fn walk_provenance_chain_stops_at_missing_parent() {
    let leaf = node(
        "leaf",
        Some(ProvenanceRef::active("gone".to_string())),
        EvidenceStrength::Anchored,
        1,
    );
    let chain = walk_provenance_chain(leaf.clone(), &[]);
    assert_eq!(chain.nodes, vec![leaf]);
    assert_eq!(chain.chain_strength, EvidenceStrength::Anchored);
}

#[test]
fn walk_provenance_chain_stops_at_blinded_parent() {
    let root = node("root", None, EvidenceStrength::Anchored, 0);
    let leaf = node(
        "leaf",
        Some(ProvenanceRef::blind("root", "suppression")),
        EvidenceStrength::Signed,
        1,
    );
    let chain = walk_provenance_chain(leaf.clone(), &[root]);
    assert_eq!(chain.nodes, vec![leaf]);
    assert_eq!(chain.chain_strength, EvidenceStrength::Signed);
}

#[test]
fn walk_provenance_chain_empty_chain_strength_is_unverifiable() {
    let nodes: Vec<ProvenanceNode> = Vec::new();
    assert_eq!(aggregate_chain_strength(&nodes), EvidenceStrength::Unverifiable);
}

#[test]
fn derivation_index_tracks_children() {
    let mut idx = DerivationIndex::new();
    idx.insert("epa_a", "epa_b");
    idx.insert("epa_a", "epa_c");
    idx.insert("epa_b", "epa_d");
    assert_eq!(idx.children_of("epa_a"), vec!["epa_b", "epa_c"]);
    assert_eq!(idx.children_of("epa_b"), vec!["epa_d"]);
    assert!(idx.children_of("epa_z").is_empty());
}

#[test]
fn blind_derivation_links_converts_active_refs() {
    let mut nodes = vec![
        node("epa_b", Some(ProvenanceRef::active("epa_a".to_string())), EvidenceStrength::Signed, 1),
        node("epa_c", Some(ProvenanceRef::active("epa_x".to_string())), EvidenceStrength::Local, 1),
        node("epa_d", Some(ProvenanceRef::active("epa_a".to_string())), EvidenceStrength::Witnessed, 2),
    ];
    let blinded = blind_derivation_links(&mut nodes, "epa_a", "suppression_hash");
    assert_eq!(blinded, 2);
    assert!(nodes[0].parent_ref.as_ref().unwrap().is_blinded());
    assert!(!nodes[1].parent_ref.as_ref().unwrap().is_blinded());
    assert!(nodes[2].parent_ref.as_ref().unwrap().is_blinded());
}

#[test]
fn blind_derivation_links_no_match_returns_zero() {
    let mut nodes = vec![node(
        "epa_b",
        Some(ProvenanceRef::active("epa_x".to_string())),
        EvidenceStrength::Signed,
        1,
    )];
    let blinded = blind_derivation_links(&mut nodes, "epa_a", "suppression_hash");
    assert_eq!(blinded, 0);
    assert!(!nodes[0].parent_ref.as_ref().unwrap().is_blinded());
}

#[test]
fn build_from_chain_refs_creates_reverse_index() {
    let nodes = vec![
        node("epa_b", Some(ProvenanceRef::active("epa_a".to_string())), EvidenceStrength::Signed, 1),
        node("epa_c", Some(ProvenanceRef::active("epa_a".to_string())), EvidenceStrength::Local, 1),
    ];
    let idx = DerivationIndex::build_from_chain_refs(&nodes);
    assert_eq!(idx.children_of("epa_a"), vec!["epa_b", "epa_c"]);
}

#[test]
fn length_prefixed_signing_message_uses_little_endian_lengths() {
    let message = length_prefixed_signing_message(&[b"ab", b"c"]);
    assert_eq!(message, vec![2, 0, 0, 0, b'a', b'b', 1, 0, 0, 0, b'c']);
}

#[test]
fn length_prefixed_signing_message_of_no_fields_is_empty() {
    let message = length_prefixed_signing_message(&[]);
    assert!(message.is_empty());
    let message = length_prefixed_signing_message(&[b""]);
    assert_eq!(message, vec![0, 0, 0, 0]);
}

fn node_id(seed: &str) -> u128 {
    Uuid::new_v5(&Uuid::NAMESPACE_URL, seed.as_bytes()).as_u128()
}

fn expected_node_id(left: u128, right: u128) -> u128 {
    Uuid::new_v5(&Uuid::from_u128(left), &right.to_be_bytes()).as_u128()
}

#[test]
fn derive_signed_and_local_is_local() {
    let left = TypedNode::<_, Signed>::new(node_id("signed-left"), "alpha".to_owned());
    let right = TypedNode::<_, Local>::new(node_id("local-right"), "beta".to_owned());
    let derived = compose::derive(&left, &right, |l, r| format!("{l}:{r}"));
    assert_eq!(derived.strength(), EvidenceStrength::Local);
    assert_eq!(derived.node_id, expected_node_id(left.node_id, right.node_id));
    assert_eq!(derived.value, "alpha:beta");
}

#[test]
fn derive_anchored_and_anchored_is_anchored() {
    let left = TypedNode::<_, Anchored>::new(node_id("anchored-left"), "left".to_owned());
    let right = TypedNode::<_, Anchored>::new(node_id("anchored-right"), "right".to_owned());
    let derived = left.derive_from(&right, |l, r| format!("{l}+{r}"));
    assert_eq!(derived.strength(), EvidenceStrength::Anchored);
    assert_eq!(derived.node_id, expected_node_id(left.node_id, right.node_id));
    assert_eq!(derived.value, "left+right");
}

#[test]
fn derive_local_and_witnessed_is_local() {
    let left = TypedNode::<_, Local>::new(node_id("local-left"), 2_u32);
    let right = TypedNode::<_, Witnessed>::new(node_id("witnessed-right"), 5_u32);
    let derived = compose::derive(&left, &right, |l, r| l + r);
    assert_eq!(derived.strength(), EvidenceStrength::Local);
    assert_eq!(derived.node_id, expected_node_id(left.node_id, right.node_id));
    assert_eq!(derived.value, 7);
}

#[test]
fn derive_unverifiable_wins_as_bottom() {
    let left = TypedNode::<_, Unverifiable>::new(node_id("unverifiable-left"), 1_u32);
    let right = TypedNode::<_, Signed>::new(node_id("signed-right"), 9_u32);
    let derived = compose::derive(&left, &right, |l, r| l + r);
    assert_eq!(derived.strength(), EvidenceStrength::Unverifiable);
    assert_eq!(derived.node_id, expected_node_id(left.node_id, right.node_id));
    assert_eq!(derived.value, 10);
}

#[test]
fn constructs_with_each_marker_type() {
    let id = node_id("typed-node-construct");
    let unverifiable = TypedNode::<_, Unverifiable>::new(id, "u");
    let local = TypedNode::<_, Local>::new(id, "l");
    let witnessed = TypedNode::<_, Witnessed>::new(id, "w");
    let signed = TypedNode::<_, Signed>::new(id, "s");
    let anchored = TypedNode::<_, Anchored>::new(id, "a");
    assert_eq!(unverifiable.strength(), EvidenceStrength::Unverifiable);
    assert_eq!(local.strength(), EvidenceStrength::Local);
    assert_eq!(witnessed.strength(), EvidenceStrength::Witnessed);
    assert_eq!(signed.strength(), EvidenceStrength::Signed);
    assert_eq!(anchored.strength(), EvidenceStrength::Anchored);
}

#[test]
fn successful_downcast_to_witnessed_from_signed_and_anchored() {
    let id = node_id("typed-node-downcast");
    let signed = TypedNode::<_, Signed>::new(id, "payload");
    let anchored = TypedNode::<_, Anchored>::new(id, "payload");
    let signed_to_witnessed: TypedNode<_, Witnessed> = signed.into();
    let anchored_to_witnessed: TypedNode<_, Witnessed> = anchored.into();
    assert_eq!(signed_to_witnessed.node_id, id);
    assert_eq!(anchored_to_witnessed.node_id, id);
    assert_eq!(signed_to_witnessed.value, "payload");
    assert_eq!(anchored_to_witnessed.value, "payload");
}

#[test]
fn try_into_anchored_requires_runtime_witness_check() {
    let id = node_id("typed-node-anchored");
    let signed = TypedNode::<_, Signed>::new(id, "payload");
    let anchored = signed.clone().try_into_anchored(Some(id)).expect("witnessed anchor should succeed");
    assert_eq!(anchored.node_id, id);
    assert_eq!(anchored.value, "payload");
    let wrong = signed
        .clone()
        .try_into_anchored(Some(node_id("typed-node-wrong-id")))
        .expect_err("wrong node id should fail");
    assert_eq!(wrong, DowncastError::WrongNodeId);
    let low = signed.try_into_anchored(None).expect_err("missing witness should fail");
    assert_eq!(low, DowncastError::StrengthTooLow);
}

const WITNESSED_AT: i64 = 1_781_352_000;

fn witness(seed: &str, kind: WitnessKind) -> Witness {
    Witness { witness_id: node_id(seed), witnessed_at_utc: WITNESSED_AT, kind }
}

fn signed_node() -> TypedNode<String, Signed> {
    TypedNode::new(node_id("signed-node"), "payload".to_owned())
}

#[test]
fn attests_with_two_valid_witnesses() {
    let mut set = WitnessSet::new();
    set.add(witness("external", WitnessKind::CrossReferencedInExternalLedger));
    set.add(witness("cosigned", WitnessKind::Cosigned));
    let node = signed_node();
    let anchored = set.attest(node.clone()).expect("attestation should succeed");
    assert_eq!(anchored.node_id, node.node_id);
    assert_eq!(anchored.value, node.value);
}

#[test]
fn fails_with_one_witness() {
    let mut set = WitnessSet::new();
    set.add(witness("external", WitnessKind::CrossReferencedInExternalLedger));
    let err = set.attest(signed_node()).expect_err("single witness should fail");
    assert_eq!(err, InsufficientWitnessesError::NotEnoughWitnesses);
}

#[test]
fn fails_with_duplicate_witness_ids() {
    let mut set = WitnessSet::new();
    let duplicate_id = node_id("duplicate");
    set.add(Witness {
        witness_id: duplicate_id,
        witnessed_at_utc: WITNESSED_AT,
        kind: WitnessKind::CrossReferencedInExternalLedger,
    });
    set.add(Witness { witness_id: duplicate_id, witnessed_at_utc: WITNESSED_AT, kind: WitnessKind::Cosigned });
    let err = set.attest(signed_node()).expect_err("duplicate witness ids should fail");
    assert_eq!(err, InsufficientWitnessesError::DuplicateWitnessId);
}

#[test]
fn fails_without_external_reference() {
    let mut set = WitnessSet::new();
    set.add(witness("left", WitnessKind::Cosigned));
    set.add(witness("right", WitnessKind::TimestampedByTrustedSource));
    let err = set.attest(signed_node()).expect_err("missing external witness should fail");
    assert_eq!(err, InsufficientWitnessesError::NoExternalReference);
}
