//! Witnesses that raise a signed node to anchored: at least two, with
//! distinct identifiers, one of them cross-referenced in an external ledger.

use vstd::prelude::*;
use crate::provenance::typed_node::{AnchoredMarker, SignedMarker, TypedNode};

verus! {

/// How a witness vouches for a node.
#[derive(Debug, Clone, Copy, PartialEq, Eq, Structural)]
pub enum WitnessKind {
    Cosigned,
    TimestampedByTrustedSource,
    CrossReferencedInExternalLedger,
}

/// One witness: its identifier, when it witnessed (seconds since the Unix
/// epoch, UTC) and how.
#[derive(Debug, Clone, Copy, PartialEq, Eq, Structural)]
pub struct Witness {
    pub witness_id: u128,
    pub witnessed_at_utc: i64,
    pub kind: WitnessKind,
}

/// Why witnesses did not suffice.
#[derive(Debug, Clone, Copy, PartialEq, Eq, Structural)]
pub enum InsufficientWitnessesError {
    NotEnoughWitnesses,
    DuplicateWitnessId,
    NoExternalReference,
}

impl InsufficientWitnessesError {
    /// The message of the error.
    pub open spec fn spec_message(self) -> Seq<char> {
        match self {
            InsufficientWitnessesError::NotEnoughWitnesses => "not enough witnesses"@,
            InsufficientWitnessesError::DuplicateWitnessId => "duplicate witness id"@,
            InsufficientWitnessesError::NoExternalReference => "no external witness reference"@,
        }
    }

    /// The message of the error.
    pub fn message(self) -> (s: &'static str)
        ensures
            s@ == self.spec_message(),
    {
        match self {
            InsufficientWitnessesError::NotEnoughWitnesses => "not enough witnesses",
            InsufficientWitnessesError::DuplicateWitnessId => "duplicate witness id",
            InsufficientWitnessesError::NoExternalReference => "no external witness reference",
        }
    }
}

/// The identifiers of the witnesses, in order.
pub open spec fn witness_ids(ws: Seq<Witness>) -> Seq<u128> {
    ws.map_values(|w: Witness| w.witness_id)
}

/// Some witness is cross-referenced in an external ledger.
pub open spec fn has_external(ws: Seq<Witness>) -> bool {
    exists|i: int| 0 <= i < ws.len() && #[trigger] ws[i].kind == WitnessKind::CrossReferencedInExternalLedger
}

/// The verdict on a set of witnesses: at least two, no identifier twice, and
/// an external reference (checked in that order).
pub open spec fn spec_attest_verdict(ws: Seq<Witness>) -> Result<(), InsufficientWitnessesError> {
    if ws.len() < 2 {
        Err(InsufficientWitnessesError::NotEnoughWitnesses)
    } else if !witness_ids(ws).no_duplicates() {
        Err(InsufficientWitnessesError::DuplicateWitnessId)
    } else if !has_external(ws) {
        Err(InsufficientWitnessesError::NoExternalReference)
    } else {
        Ok(())
    }
}

/// A collection of witnesses, in the order they were added.
#[derive(Debug, Clone, PartialEq, Eq)]
pub struct WitnessSet {
    witnesses: Vec<Witness>,
}

impl View for WitnessSet {
    type V = Seq<Witness>;

    closed spec fn view(&self) -> Seq<Witness> {
        self.witnesses@
    }
}

impl WitnessSet {
    /// No witnesses.
    pub fn new() -> (s: Self)
        ensures
            s@ == Seq::<Witness>::empty(),
    {
        WitnessSet { witnesses: Vec::new() }
    }

    /// Adds a witness.
    pub fn add(&mut self, witness: Witness)
        ensures
            final(self)@ == old(self)@.push(witness),
    {
        self.witnesses.push(witness);
    }

    /// Number of witnesses.
    pub fn len(&self) -> (n: usize)
        ensures
            n == self@.len(),
    {
        self.witnesses.len()
    }

    /// No witness yet.
    pub fn is_empty(&self) -> (b: bool)
        ensures
            b == (self@.len() == 0),
    {
        self.witnesses.len() == 0
    }

    fn ids_distinct(&self) -> (b: bool)
        ensures
            b == witness_ids(self@).no_duplicates(),
    {
        let ghost ids = witness_ids(self@);
        let n = self.witnesses.len();
        let mut i: usize = 0;
        while i < n
            invariant
                n == self@.len(),
                ids == witness_ids(self@),
                i <= n,
                forall|a: int, b: int| 0 <= a < i && 0 <= b < n && a != b ==> ids[a] != ids[b],
            decreases n - i,
        {
            let mut j: usize = 0;
            while j < n
                invariant
                    n == self@.len(),
                    ids == witness_ids(self@),
                    i < n,
                    j <= n,
                    forall|a: int, b: int| 0 <= a < i && 0 <= b < n && a != b ==> ids[a] != ids[b],
                    forall|b: int| 0 <= b < j && b != i ==> ids[i as int] != ids[b],
                decreases n - j,
            {
                if j != i && self.witnesses[i].witness_id == self.witnesses[j].witness_id {
                    assert(ids[i as int] == ids[j as int]);
                    return false;
                }
                j += 1;
            }
            i += 1;
        }
        true
    }

    fn any_external(&self) -> (b: bool)
        ensures
            b == has_external(self@),
    {
        let mut i: usize = 0;
        while i < self.witnesses.len()
            invariant
                i <= self@.len(),
                forall|k: int| 0 <= k < i ==> #[trigger] self@[k].kind != WitnessKind::CrossReferencedInExternalLedger,
            decreases self@.len() - i,
        {
            match self.witnesses[i].kind {
                WitnessKind::CrossReferencedInExternalLedger => return true,
                _ => {},
            }
            i += 1;
        }
        false
    }

    /// Raises a signed node to anchored when the witnesses suffice.
    pub fn attest<T>(self, node: TypedNode<T, SignedMarker>) -> (r: Result<TypedNode<T, AnchoredMarker>, InsufficientWitnessesError>)
        ensures
            match spec_attest_verdict(self@) {
                Ok(_) => r matches Ok(n) && n.node_id == node.node_id && n.value == node.value,
                Err(e) => r == Err::<TypedNode<T, AnchoredMarker>, InsufficientWitnessesError>(e),
            },
    {
        if self.witnesses.len() < 2 {
            return Err(InsufficientWitnessesError::NotEnoughWitnesses);
        }
        if !self.ids_distinct() {
            return Err(InsufficientWitnessesError::DuplicateWitnessId);
        }
        if !self.any_external() {
            return Err(InsufficientWitnessesError::NoExternalReference);
        }
        Ok(TypedNode::new(node.node_id, node.value))
    }
}

impl Default for WitnessSet {
    fn default() -> (s: Self)
        ensures
            s@ == Seq::<Witness>::empty(),
    {
        WitnessSet::new()
    }
}

} // verus!
