//! Combining two typed nodes: the result is typed with the weaker of the two
//! strengths, chosen at compile time.

use vstd::prelude::*;
use crate::ids::{uuid_v5, uuid_v5_of};
use crate::provenance::pair_sealed::Sealed as PairSealed;
use crate::provenance::typed_node::{
    AnchoredMarker, LocalMarker, Marker, SignedMarker, TypedNode, UnverifiableMarker, WitnessedMarker,
};

verus! {

/// The weaker of two strength markers, as a type.
pub trait MinStrength<Rhs: Marker>: PairSealed<Rhs> + Marker {
    /// The marker of the weaker strength.
    type Output: Marker;

    /// The output stands for the weaker of the two strengths.
    proof fn lemma_output_is_weakest()
        ensures
            Self::Output::spec_strength() == Self::spec_strength().spec_min(Rhs::spec_strength());
}

impl PairSealed<UnverifiableMarker> for UnverifiableMarker {}

impl MinStrength<UnverifiableMarker> for UnverifiableMarker {
    type Output = UnverifiableMarker;

    proof fn lemma_output_is_weakest() {
    }
}

impl PairSealed<LocalMarker> for UnverifiableMarker {}

impl MinStrength<LocalMarker> for UnverifiableMarker {
    type Output = UnverifiableMarker;

    proof fn lemma_output_is_weakest() {
    }
}

impl PairSealed<WitnessedMarker> for UnverifiableMarker {}

impl MinStrength<WitnessedMarker> for UnverifiableMarker {
    type Output = UnverifiableMarker;

    proof fn lemma_output_is_weakest() {
    }
}

impl PairSealed<SignedMarker> for UnverifiableMarker {}

impl MinStrength<SignedMarker> for UnverifiableMarker {
    type Output = UnverifiableMarker;

    proof fn lemma_output_is_weakest() {
    }
}

impl PairSealed<AnchoredMarker> for UnverifiableMarker {}

impl MinStrength<AnchoredMarker> for UnverifiableMarker {
    type Output = UnverifiableMarker;

    proof fn lemma_output_is_weakest() {
    }
}

impl PairSealed<UnverifiableMarker> for LocalMarker {}

impl MinStrength<UnverifiableMarker> for LocalMarker {
    type Output = UnverifiableMarker;

    proof fn lemma_output_is_weakest() {
    }
}

impl PairSealed<LocalMarker> for LocalMarker {}

impl MinStrength<LocalMarker> for LocalMarker {
    type Output = LocalMarker;

    proof fn lemma_output_is_weakest() {
    }
}

impl PairSealed<WitnessedMarker> for LocalMarker {}

impl MinStrength<WitnessedMarker> for LocalMarker {
    type Output = LocalMarker;

    proof fn lemma_output_is_weakest() {
    }
}

impl PairSealed<SignedMarker> for LocalMarker {}

impl MinStrength<SignedMarker> for LocalMarker {
    type Output = LocalMarker;

    proof fn lemma_output_is_weakest() {
    }
}

impl PairSealed<AnchoredMarker> for LocalMarker {}

impl MinStrength<AnchoredMarker> for LocalMarker {
    type Output = LocalMarker;

    proof fn lemma_output_is_weakest() {
    }
}

impl PairSealed<UnverifiableMarker> for WitnessedMarker {}

impl MinStrength<UnverifiableMarker> for WitnessedMarker {
    type Output = UnverifiableMarker;

    proof fn lemma_output_is_weakest() {
    }
}

impl PairSealed<LocalMarker> for WitnessedMarker {}

impl MinStrength<LocalMarker> for WitnessedMarker {
    type Output = LocalMarker;

    proof fn lemma_output_is_weakest() {
    }
}

impl PairSealed<WitnessedMarker> for WitnessedMarker {}

impl MinStrength<WitnessedMarker> for WitnessedMarker {
    type Output = WitnessedMarker;

    proof fn lemma_output_is_weakest() {
    }
}

impl PairSealed<SignedMarker> for WitnessedMarker {}

impl MinStrength<SignedMarker> for WitnessedMarker {
    type Output = WitnessedMarker;

    proof fn lemma_output_is_weakest() {
    }
}

impl PairSealed<AnchoredMarker> for WitnessedMarker {}

impl MinStrength<AnchoredMarker> for WitnessedMarker {
    type Output = WitnessedMarker;

    proof fn lemma_output_is_weakest() {
    }
}

impl PairSealed<UnverifiableMarker> for SignedMarker {}

impl MinStrength<UnverifiableMarker> for SignedMarker {
    type Output = UnverifiableMarker;

    proof fn lemma_output_is_weakest() {
    }
}

impl PairSealed<LocalMarker> for SignedMarker {}

impl MinStrength<LocalMarker> for SignedMarker {
    type Output = LocalMarker;

    proof fn lemma_output_is_weakest() {
    }
}

impl PairSealed<WitnessedMarker> for SignedMarker {}

impl MinStrength<WitnessedMarker> for SignedMarker {
    type Output = WitnessedMarker;

    proof fn lemma_output_is_weakest() {
    }
}

impl PairSealed<SignedMarker> for SignedMarker {}

impl MinStrength<SignedMarker> for SignedMarker {
    type Output = SignedMarker;

    proof fn lemma_output_is_weakest() {
    }
}

impl PairSealed<AnchoredMarker> for SignedMarker {}

impl MinStrength<AnchoredMarker> for SignedMarker {
    type Output = SignedMarker;

    proof fn lemma_output_is_weakest() {
    }
}

impl PairSealed<UnverifiableMarker> for AnchoredMarker {}

impl MinStrength<UnverifiableMarker> for AnchoredMarker {
    type Output = UnverifiableMarker;

    proof fn lemma_output_is_weakest() {
    }
}

impl PairSealed<LocalMarker> for AnchoredMarker {}

impl MinStrength<LocalMarker> for AnchoredMarker {
    type Output = LocalMarker;

    proof fn lemma_output_is_weakest() {
    }
}

impl PairSealed<WitnessedMarker> for AnchoredMarker {}

impl MinStrength<WitnessedMarker> for AnchoredMarker {
    type Output = WitnessedMarker;

    proof fn lemma_output_is_weakest() {
    }
}

impl PairSealed<SignedMarker> for AnchoredMarker {}

impl MinStrength<SignedMarker> for AnchoredMarker {
    type Output = SignedMarker;

    proof fn lemma_output_is_weakest() {
    }
}

impl PairSealed<AnchoredMarker> for AnchoredMarker {}

impl MinStrength<AnchoredMarker> for AnchoredMarker {
    type Output = AnchoredMarker;

    proof fn lemma_output_is_weakest() {
    }
}

/// The 16 bytes of a 128-bit value, most significant first.
pub open spec fn u128_be(x: u128) -> Seq<u8> {
    Seq::new(16, |i: int| (x >> ((8 * (15 - i)) as u128)) as u8)
}

pub(crate) fn u128_be_bytes(x: u128) -> (b: [u8; 16])
    ensures
        b@ == u128_be(x),
{
    let mut b = [0u8; 16];
    let mut i: usize = 0;
    while i < 16
        invariant
            i <= 16,
            forall|k: int| 0 <= k < i ==> b@[k] == (x >> ((8 * (15 - k)) as u128)) as u8,
        decreases 16 - i,
    {
        let shift: u128 = (8 * (15 - i)) as u128;
        b[i] = (x >> shift) as u8;
        i += 1;
    }
    assert(b@ =~= u128_be(x));
    b
}

/// The identifier of a node derived from two others: the version-5 UUID of
/// the right identifier's bytes in the namespace of the left one.
pub open spec fn derived_node_id(left: u128, right: u128) -> u128 {
    uuid_v5_of(left, u128_be(right))
}

/// The node derived from `left` and `right` by `f`, typed with the weaker of
/// their strengths.
pub fn derive<U, V, W, S1, S2, F>(
    left: &TypedNode<U, S1>,
    right: &TypedNode<V, S2>,
    f: F,
) -> (r: TypedNode<W, <S1 as MinStrength<S2>>::Output>)
    where
        S1: Marker + MinStrength<S2>,
        S2: Marker,
        F: Fn(&U, &V) -> W,
    requires
        f.requires((&left.value, &right.value)),
    ensures
        r.node_id == derived_node_id(left.node_id, right.node_id),
        f.ensures((&left.value, &right.value), r.value),
{
    let name = u128_be_bytes(right.node_id);
    let node_id = uuid_v5(left.node_id, name.as_slice());
    let value = f(&left.value, &right.value);
    TypedNode::new(node_id, value)
}

impl<T, S1: Marker> TypedNode<T, S1> {
    /// The node derived from this one and `other` by `f`, typed with the
    /// weaker of their strengths.
    pub fn derive_from<U, S2: Marker, V, F: Fn(&T, &U) -> V>(
        &self,
        other: &TypedNode<U, S2>,
        f: F,
    ) -> (r: TypedNode<V, <S1 as MinStrength<S2>>::Output>)
        where
            S1: MinStrength<S2>,
        requires
            f.requires((&self.value, &other.value)),
        ensures
            r.node_id == derived_node_id(self.node_id, other.node_id),
            f.ensures((&self.value, &other.value), r.value),
    {
        derive(self, other, f)
    }
}

/// A derived node is exactly as strong as the weaker of its inputs.
pub proof fn law_derived_strength_is_weakest<S1: Marker + MinStrength<S2>, S2: Marker>()
    ensures
        <S1 as MinStrength<S2>>::Output::spec_strength() == S1::spec_strength().spec_min(S2::spec_strength()),
{
    S1::lemma_output_is_weakest();
}

} // verus!
