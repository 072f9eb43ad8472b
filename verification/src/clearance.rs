//! The one sanctioned route from the data channel to the instruction channel.
//!
//! A [`Declassification`] cannot be forged, copied or reused: its fields are
//! private, it is neither `Clone` nor `Copy`, and only a holder of
//! [`ClearanceAuthority`] can mint one. The authority trait is sealed, so the
//! policy engine of this crate is its only implementor.

use vstd::prelude::*;

use crate::ids::{DecisionId, RegionId, RulesetVersion};
use crate::sealed::Sealed;

verus! {

/// The right to issue [`Declassification`] witnesses. Sealed: implemented
/// only by [`crate::engine::PolicyEngine`].
pub trait ClearanceAuthority: Sealed {}

/// Proof that the policy engine cleared one specific region under one specific
/// ruleset.
#[derive(Debug)]
pub struct Declassification {
    decision_id: DecisionId,
    region: RegionId,
    ruleset: RulesetVersion,
}

impl Declassification {
    /// The decision that issued this clearance.
    pub closed spec fn spec_decision_id(&self) -> DecisionId {
        self.decision_id
    }

    /// The region this clearance covers.
    pub closed spec fn spec_region(&self) -> RegionId {
        self.region
    }

    /// The text of the ruleset version in force when it was issued.
    pub closed spec fn spec_ruleset(&self) -> Seq<char> {
        self.ruleset.0@
    }

    /// Mint a witness. Requires a [`ClearanceAuthority`], which only the policy
    /// engine is.
    pub fn mint<A: ClearanceAuthority>(
        _authority: &A,
        decision_id: DecisionId,
        region: RegionId,
        ruleset: RulesetVersion,
    ) -> (d: Self)
        ensures
            d.spec_decision_id() == decision_id,
            d.spec_region() == region,
            d.spec_ruleset() == ruleset.0@,
    {
        Declassification { decision_id, region, ruleset }
    }

    /// The decision that issued this clearance.
    pub fn decision_id(&self) -> (id: DecisionId)
        ensures
            id == self.spec_decision_id(),
    {
        self.decision_id
    }

    /// The region this clearance covers, and only this region.
    pub fn region(&self) -> (r: RegionId)
        ensures
            r == self.spec_region(),
    {
        self.region
    }

    /// The ruleset version in force when the clearance was issued.
    pub fn ruleset(&self) -> (v: &RulesetVersion)
        ensures
            v.0@ == self.spec_ruleset(),
    {
        &self.ruleset
    }
}

} // verus!
