//! Reconciling two decisions: the left record's left strength against the
//! right record's right strength.

use vstd::prelude::*;
use crate::decision::DecisionRecord;
use crate::quality::{
    resolve_quality_divergence, spec_chosen_side, spec_reason_code, spec_resolution_message, ResolutionReport,
};

verus! {

/// Two decisions to reconcile.
#[derive(Debug, Clone)]
pub struct SyncContract {
    pub left: DecisionRecord,
    pub right: DecisionRecord,
}

impl SyncContract {
    /// The contract between `left` and `right`.
    pub fn new(left: DecisionRecord, right: DecisionRecord) -> (c: SyncContract)
        ensures
            c.left == left,
            c.right == right,
    {
        SyncContract { left, right }
    }

    /// Resolves the divergence between the left record's left strength and
    /// the right record's right strength.
    pub fn resolve(&self) -> (rep: ResolutionReport)
        ensures
            rep.left_strength == self.left.body.quality_left_strength,
            rep.right_strength == self.right.body.quality_right_strength,
            rep.chosen_side@ == spec_chosen_side(self.left.body.quality_left_strength, self.right.body.quality_right_strength),
            rep.reason_code@ == spec_reason_code(self.left.body.quality_left_strength, self.right.body.quality_right_strength),
            rep.message@ == spec_resolution_message(self.left.body.quality_left_strength, self.right.body.quality_right_strength),
    {
        resolve_quality_divergence(self.left.body.quality_left_strength, self.right.body.quality_right_strength)
    }
}

} // verus!
