//! Decision vocabulary shared between the policy engine and everything that
//! reads its output.

use vstd::prelude::*;

use crate::ids::RegionId;

verus! {

/// What the policy engine decided to do with one region.
///
/// The declaration order is the severity order, `Allow < Flag < Redact <
/// Block`, and the derived `Ord` follows it: a request's outcome is the most
/// severe of its regions.
#[derive(Debug, Clone, Copy, PartialEq, Eq, PartialOrd, Ord, Hash, Structural)]
pub enum RegionAction {
    /// Forward unchanged.
    Allow,
    /// Forward, but annotate the decision record.
    Flag,
    /// Black out the region's pixels before forwarding.
    Redact,
    /// Redaction is not possible, so the whole input is refused.
    Block,
}

impl RegionAction {
    /// The action's place in the severity order.
    pub open spec fn severity(self) -> int {
        match self {
            RegionAction::Allow => 0,
            RegionAction::Flag => 1,
            RegionAction::Redact => 2,
            RegionAction::Block => 3,
        }
    }

    /// The action's place in the severity order, `0` for `Allow` to `3` for
    /// `Block`.
    pub fn rank(&self) -> (r: u8)
        ensures
            r == self.severity(),
    {
        match self {
            RegionAction::Allow => 0,
            RegionAction::Flag => 1,
            RegionAction::Redact => 2,
            RegionAction::Block => 3,
        }
    }

    /// Whether this action changes the bytes sent upstream: only redaction
    /// does.
    pub fn mutates_input(&self) -> (b: bool)
        ensures
            b == (*self is Redact),
    {
        matches!(self, RegionAction::Redact)
    }
}

/// What happens to the request as a whole.
#[derive(Debug, Clone, PartialEq, Eq)]
pub enum RequestOutcome {
    /// Forward as received. Some regions may still be flagged in the record.
    Allow,
    /// Forward with the listed regions blacked out.
    AllowRedacted {
        /// Regions whose pixels were destroyed, in ascending id order.
        redactions: Vec<RegionId>,
    },
    /// Refuse, with the rule that caused it.
    Block {
        /// Stable rule identifier, e.g. `R2_EXTRACTION_FAILED`.
        rule_id: String,
        /// Human-readable explanation for the refusal shown to the caller.
        reason: String,
    },
}

} // verus!
