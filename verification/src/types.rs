//! Shared vocabulary: the five ordered levels of evidence strength.

use vstd::prelude::*;

verus! {

/// How strongly a piece of evidence is backed, from weakest to strongest.
#[derive(Debug, Clone, Copy, PartialEq, Eq, Structural, PartialOrd, Ord, Hash)]
pub enum EvidenceStrength {
    Unverifiable,
    Local,
    Witnessed,
    Signed,
    Anchored,
}

impl EvidenceStrength {
    /// Position of the level in the order `Unverifiable < Local < Witnessed < Signed < Anchored`.
    pub open spec fn level(self) -> nat {
        match self {
            EvidenceStrength::Unverifiable => 0,
            EvidenceStrength::Local => 1,
            EvidenceStrength::Witnessed => 2,
            EvidenceStrength::Signed => 3,
            EvidenceStrength::Anchored => 4,
        }
    }

    /// The stable upper-case name of the level.
    pub open spec fn spec_name(self) -> Seq<char> {
        match self {
            EvidenceStrength::Unverifiable => "UNVERIFIABLE"@,
            EvidenceStrength::Local => "LOCAL"@,
            EvidenceStrength::Witnessed => "WITNESSED"@,
            EvidenceStrength::Signed => "SIGNED"@,
            EvidenceStrength::Anchored => "ANCHORED"@,
        }
    }

    /// The level with the given position (positions above 4 saturate at `Anchored`).
    pub open spec fn from_level(n: nat) -> EvidenceStrength {
        if n == 0 {
            EvidenceStrength::Unverifiable
        } else if n == 1 {
            EvidenceStrength::Local
        } else if n == 2 {
            EvidenceStrength::Witnessed
        } else if n == 3 {
            EvidenceStrength::Signed
        } else {
            EvidenceStrength::Anchored
        }
    }

    /// The weaker of two levels.
    pub open spec fn spec_min(self, other: EvidenceStrength) -> EvidenceStrength {
        if self.level() <= other.level() { self } else { other }
    }

    /// The stronger of two levels.
    pub open spec fn spec_max(self, other: EvidenceStrength) -> EvidenceStrength {
        if self.level() >= other.level() { self } else { other }
    }

    /// Numeric position of the level.
    pub fn rank(self) -> (r: u8)
        ensures
            r as nat == self.level(),
    {
        match self {
            EvidenceStrength::Unverifiable => 0,
            EvidenceStrength::Local => 1,
            EvidenceStrength::Witnessed => 2,
            EvidenceStrength::Signed => 3,
            EvidenceStrength::Anchored => 4,
        }
    }

    /// The upper-case name of the level.
    pub fn as_str(self) -> (s: &'static str)
        ensures
            s@ == self.spec_name(),
    {
        proof {
            reveal_strlit("UNVERIFIABLE");
            reveal_strlit("LOCAL");
            reveal_strlit("WITNESSED");
            reveal_strlit("SIGNED");
            reveal_strlit("ANCHORED");
        }
        match self {
            EvidenceStrength::Unverifiable => "UNVERIFIABLE",
            EvidenceStrength::Local => "LOCAL",
            EvidenceStrength::Witnessed => "WITNESSED",
            EvidenceStrength::Signed => "SIGNED",
            EvidenceStrength::Anchored => "ANCHORED",
        }
    }

    /// `self` is at least as strong as `other`.
    pub fn at_least(self, other: EvidenceStrength) -> (b: bool)
        ensures
            b == (self.level() >= other.level()),
    {
        self.rank() >= other.rank()
    }

    /// The weaker of two levels (the bottleneck of a combination).
    pub fn weakest(self, other: EvidenceStrength) -> (m: EvidenceStrength)
        ensures
            m == self.spec_min(other),
    {
        if self.rank() <= other.rank() { self } else { other }
    }

    /// The stronger of two levels.
    pub fn strongest(self, other: EvidenceStrength) -> (m: EvidenceStrength)
        ensures
            m == self.spec_max(other),
    {
        if self.rank() >= other.rank() { self } else { other }
    }
}

/// Two levels with the same position are the same level.
pub proof fn lemma_level_injective(a: EvidenceStrength, b: EvidenceStrength)
    ensures
        a.level() == b.level() <==> a == b,
{
}

/// Combining two levels never yields something stronger than either input, and
/// the result is one of them; the combination is symmetric.
pub proof fn law_min_is_bottleneck(a: EvidenceStrength, b: EvidenceStrength)
    ensures
        a.spec_min(b).level() <= a.level(),
        a.spec_min(b).level() <= b.level(),
        a.spec_min(b) == a || a.spec_min(b) == b,
        a.spec_min(b) == b.spec_min(a),
{
}

} // verus!
