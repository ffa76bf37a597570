//! Nodes whose evidence strength is part of their type: a marker type per
//! strength level, so that a weaker node cannot be passed where a stronger one
//! is required, and only the sound conversions between levels exist.

use vstd::prelude::*;
use crate::provenance::sealed::Sealed;
use crate::types::EvidenceStrength;

verus! {

/// A strength level carried by a type.
pub trait Marker: Sealed + Copy + Clone + Sized {
    /// The strength the marker stands for.
    spec fn spec_strength() -> EvidenceStrength;

    /// The strength the marker stands for.
    fn strength_of() -> (s: EvidenceStrength)
        ensures
            s == Self::spec_strength();

    /// The marker value.
    fn marker() -> Self;
}

/// Marker of `Unverifiable` evidence.
#[derive(Debug, Clone, Copy, PartialEq, Eq, Structural)]
pub struct UnverifiableMarker;

impl Sealed for UnverifiableMarker {}

impl Marker for UnverifiableMarker {
    open spec fn spec_strength() -> EvidenceStrength {
        EvidenceStrength::Unverifiable
    }

    fn strength_of() -> (s: EvidenceStrength) {
        EvidenceStrength::Unverifiable
    }

    fn marker() -> Self {
        UnverifiableMarker
    }
}

/// Nodes of `Unverifiable` strength.
pub type Unverifiable = UnverifiableMarker;

/// Marker of `Local` evidence.
#[derive(Debug, Clone, Copy, PartialEq, Eq, Structural)]
pub struct LocalMarker;

impl Sealed for LocalMarker {}

impl Marker for LocalMarker {
    open spec fn spec_strength() -> EvidenceStrength {
        EvidenceStrength::Local
    }

    fn strength_of() -> (s: EvidenceStrength) {
        EvidenceStrength::Local
    }

    fn marker() -> Self {
        LocalMarker
    }
}

/// Nodes of `Local` strength.
pub type Local = LocalMarker;

/// Marker of `Witnessed` evidence.
#[derive(Debug, Clone, Copy, PartialEq, Eq, Structural)]
pub struct WitnessedMarker;

impl Sealed for WitnessedMarker {}

impl Marker for WitnessedMarker {
    open spec fn spec_strength() -> EvidenceStrength {
        EvidenceStrength::Witnessed
    }

    fn strength_of() -> (s: EvidenceStrength) {
        EvidenceStrength::Witnessed
    }

    fn marker() -> Self {
        WitnessedMarker
    }
}

/// Nodes of `Witnessed` strength.
pub type Witnessed = WitnessedMarker;

/// Marker of `Signed` evidence.
#[derive(Debug, Clone, Copy, PartialEq, Eq, Structural)]
pub struct SignedMarker;

impl Sealed for SignedMarker {}

impl Marker for SignedMarker {
    open spec fn spec_strength() -> EvidenceStrength {
        EvidenceStrength::Signed
    }

    fn strength_of() -> (s: EvidenceStrength) {
        EvidenceStrength::Signed
    }

    fn marker() -> Self {
        SignedMarker
    }
}

/// Nodes of `Signed` strength.
pub type Signed = SignedMarker;

/// Marker of `Anchored` evidence.
#[derive(Debug, Clone, Copy, PartialEq, Eq, Structural)]
pub struct AnchoredMarker;

impl Sealed for AnchoredMarker {}

impl Marker for AnchoredMarker {
    open spec fn spec_strength() -> EvidenceStrength {
        EvidenceStrength::Anchored
    }

    fn strength_of() -> (s: EvidenceStrength) {
        EvidenceStrength::Anchored
    }

    fn marker() -> Self {
        AnchoredMarker
    }
}

/// Nodes of `Anchored` strength.
pub type Anchored = AnchoredMarker;

/// A node with identifier, value and strength marker `S`.
#[derive(Debug, Clone, PartialEq, Eq)]
pub struct TypedNode<T, S: Marker> {
    pub node_id: u128,
    pub value: T,
    pub marker: S,
}

impl<T, S: Marker> TypedNode<T, S> {
    /// A node of strength `S`.
    pub fn new(node_id: u128, value: T) -> (n: Self)
        ensures
            n.node_id == node_id,
            n.value == value,
    {
        TypedNode { node_id, value, marker: S::marker() }
    }

    /// The strength of the node.
    pub fn strength(&self) -> (s: EvidenceStrength)
        ensures
            s == S::spec_strength(),
    {
        S::strength_of()
    }
}

/// Why a node could not be raised to a stronger level.
#[derive(Debug, Clone, Copy, PartialEq, Eq, Structural)]
pub enum DowncastError {
    StrengthTooLow,
    WrongNodeId,
}

impl<T> From<TypedNode<T, SignedMarker>> for TypedNode<T, WitnessedMarker> {
    fn from(node: TypedNode<T, SignedMarker>) -> (r: Self) {
        TypedNode { node_id: node.node_id, value: node.value, marker: WitnessedMarker }
    }
}

impl<T> vstd::std_specs::convert::FromSpecImpl<TypedNode<T, SignedMarker>> for TypedNode<T, WitnessedMarker> {
    open spec fn obeys_from_spec() -> bool {
        true
    }

    open spec fn from_spec(node: TypedNode<T, SignedMarker>) -> Self {
        TypedNode { node_id: node.node_id, value: node.value, marker: WitnessedMarker }
    }
}

impl<T> From<TypedNode<T, AnchoredMarker>> for TypedNode<T, WitnessedMarker> {
    fn from(node: TypedNode<T, AnchoredMarker>) -> (r: Self) {
        TypedNode { node_id: node.node_id, value: node.value, marker: WitnessedMarker }
    }
}

impl<T> vstd::std_specs::convert::FromSpecImpl<TypedNode<T, AnchoredMarker>> for TypedNode<T, WitnessedMarker> {
    open spec fn obeys_from_spec() -> bool {
        true
    }

    open spec fn from_spec(node: TypedNode<T, AnchoredMarker>) -> Self {
        TypedNode { node_id: node.node_id, value: node.value, marker: WitnessedMarker }
    }
}

impl<T> TypedNode<T, SignedMarker> {
    /// Raises a signed node to anchored once a witness vouches for it: the
    /// witness must name this very node.
    pub fn try_into_anchored(self, witness_node_id: Option<u128>) -> (r: Result<TypedNode<T, AnchoredMarker>, DowncastError>)
        ensures
            match witness_node_id {
                None => r == Err::<TypedNode<T, AnchoredMarker>, DowncastError>(DowncastError::StrengthTooLow),
                Some(w) => if w != self.node_id {
                    r == Err::<TypedNode<T, AnchoredMarker>, DowncastError>(DowncastError::WrongNodeId)
                } else {
                    r matches Ok(n) && n.node_id == self.node_id && n.value == self.value
                },
            },
    {
        let w = match witness_node_id {
            Some(w) => w,
            None => return Err(DowncastError::StrengthTooLow),
        };
        if w != self.node_id {
            return Err(DowncastError::WrongNodeId);
        }
        Ok(TypedNode::new(self.node_id, self.value))
    }
}

} // verus!
