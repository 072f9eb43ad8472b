//! Thresholds and the lexicon, plus the validation that makes a misconfigured
//! ruleset a load-time failure rather than a silently inverted policy.

use vstd::prelude::*;

use crate::ids::RulesetVersion;
use crate::reading::{Reading, RANK_ONE, RANK_UNORDERED, RANK_ZERO};
use crate::wrappers::{lowercase_of, to_lowercase};

verus! {

/// A ruleset that does not describe a coherent policy.
#[derive(Debug, Clone, PartialEq, Eq)]
pub enum RulesetError {
    /// A threshold fell outside `0.0..=1.0`.
    OutOfRange {
        /// Which field.
        field: &'static str,
        /// What it was set to.
        value: Reading,
    },
    /// The flag threshold sits above the block threshold, which would make
    /// `R6` unreachable.
    FlagAboveBlock {
        /// The flag threshold.
        flag: Reading,
        /// The block threshold.
        block: Reading,
    },
    /// The degraded threshold sits above the normal one, which would make
    /// `R3` a de-escalation.
    DegradedAboveFlag {
        /// The degraded threshold.
        degraded: Reading,
        /// The normal flag threshold.
        flag: Reading,
    },
    /// A threshold was NaN, which would make every comparison false and every
    /// region allowed.
    NotANumber {
        /// Which field.
        field: &'static str,
    },
}

/// The tunable half of the policy, frozen into [`RulesetVersion`].
#[derive(Debug, Clone, PartialEq)]
pub struct Ruleset {
    /// Version stamp, e.g. `v1@e81f`.
    pub version: RulesetVersion,
    /// At or above this score a region is redacted outright (`R4`); quoted
    /// to two decimals.
    pub tau_block: Reading,
    /// At or above this score a region is flagged (`R6`), or redacted if it
    /// also hits the lexicon (`R5`); quoted to two decimals.
    pub tau_flag: Reading,
    /// The flag threshold used when extraction reported itself degraded
    /// (`R3`); quoted to two decimals.
    pub tau_flag_degraded: Reading,
    /// A region covering more than this fraction of the image cannot be
    /// redacted; quoted as a whole percentage.
    pub max_redact_frac: Reading,
    /// Terms whose presence, combined with a flag-level score, is enough to
    /// redact rather than merely flag (`R5`).
    pub tool_lexicon: Vec<String>,
}

/// The four thresholds in the order validation checks them.
pub open spec fn threshold(rs: Ruleset, i: int) -> Reading {
    if i == 0 {
        rs.tau_block
    } else if i == 1 {
        rs.tau_flag
    } else if i == 2 {
        rs.tau_flag_degraded
    } else {
        rs.max_redact_frac
    }
}

/// The field name of the `i`-th threshold.
pub open spec fn threshold_name(i: int) -> Seq<char> {
    if i == 0 {
        "tau_block"@
    } else if i == 1 {
        "tau_flag"@
    } else if i == 2 {
        "tau_flag_degraded"@
    } else {
        "max_redact_frac"@
    }
}

/// Whether a rank is that of a number in `0.0..=1.0`.
pub open spec fn in_unit_range(rank: u32) -> bool {
    RANK_ZERO <= rank <= RANK_ONE
}

/// Whether a threshold is usable: a number, and within `0.0..=1.0`.
pub open spec fn usable(r: Reading) -> bool {
    r.rank != RANK_UNORDERED && in_unit_range(r.rank)
}

/// The first threshold that is not usable, or `4` when all are.
pub open spec fn first_unusable(rs: Ruleset) -> int {
    if !usable(threshold(rs, 0)) {
        0
    } else if !usable(threshold(rs, 1)) {
        1
    } else if !usable(threshold(rs, 2)) {
        2
    } else if !usable(threshold(rs, 3)) {
        3
    } else {
        4
    }
}

/// Whether the ruleset describes a coherent policy: every threshold is a
/// number in `0.0..=1.0`, and `tau_flag_degraded <= tau_flag <= tau_block`.
pub open spec fn coherent(rs: Ruleset) -> bool {
    &&& first_unusable(rs) == 4
    &&& rs.tau_flag.rank <= rs.tau_block.rank
    &&& rs.tau_flag_degraded.rank <= rs.tau_flag.rank
}

/// Whether two readings have the same rank and text.
pub open spec fn same_reading(a: Reading, b: Reading) -> bool {
    a.rank == b.rank && a.shown@ == b.shown@
}

/// The error validation reports for an incoherent ruleset: the first failing
/// check, in the order NaN or range for each threshold, then the flag and
/// block order, then the degraded and flag order.
pub open spec fn reported(rs: Ruleset, e: RulesetError) -> bool {
    let i = first_unusable(rs);
    if i < 4 {
        if threshold(rs, i).rank == RANK_UNORDERED {
            e matches RulesetError::NotANumber { field } && field@ == threshold_name(i)
        } else {
            e matches RulesetError::OutOfRange { field, value } && field@ == threshold_name(i)
                && same_reading(value, threshold(rs, i))
        }
    } else if rs.tau_flag.rank > rs.tau_block.rank {
        e matches RulesetError::FlagAboveBlock { flag, block } && same_reading(flag, rs.tau_flag)
            && same_reading(block, rs.tau_block)
    } else {
        e matches RulesetError::DegradedAboveFlag { degraded, flag } && same_reading(
            degraded,
            rs.tau_flag_degraded,
        ) && same_reading(flag, rs.tau_flag)
    }
}

/// Checks one threshold: NaN first, then the range.
fn check_threshold(field: &'static str, value: &Reading) -> (r: Result<(), RulesetError>)
    ensures
        r is Ok <==> usable(*value),
        r matches Err(e) ==> (if value.rank == RANK_UNORDERED {
            e matches RulesetError::NotANumber { field: f } && f@ == field@
        } else {
            e matches RulesetError::OutOfRange { field: f, value: v } && f@ == field@
                && same_reading(v, *value)
        }),
{
    if value.rank == RANK_UNORDERED {
        return Err(RulesetError::NotANumber { field });
    }
    if !(RANK_ZERO <= value.rank && value.rank <= RANK_ONE) {
        return Err(RulesetError::OutOfRange { field, value: value.copy() });
    }
    Ok(())
}

impl Ruleset {
    /// Check the ruleset describes a coherent policy.
    pub fn validate(&self) -> (r: Result<(), RulesetError>)
        ensures
            r is Ok <==> coherent(*self),
            r matches Err(e) ==> reported(*self, e),
    {
        check_threshold("tau_block", &self.tau_block)?;
        check_threshold("tau_flag", &self.tau_flag)?;
        check_threshold("tau_flag_degraded", &self.tau_flag_degraded)?;
        check_threshold("max_redact_frac", &self.max_redact_frac)?;
        if self.tau_flag.rank > self.tau_block.rank {
            return Err(
                RulesetError::FlagAboveBlock {
                    flag: self.tau_flag.copy(),
                    block: self.tau_block.copy(),
                },
            );
        }
        if self.tau_flag_degraded.rank > self.tau_flag.rank {
            return Err(
                RulesetError::DegradedAboveFlag {
                    degraded: self.tau_flag_degraded.copy(),
                    flag: self.tau_flag.copy(),
                },
            );
        }
        Ok(())
    }

    /// Lexicon terms, lowercased once so matching does not re-lowercase them
    /// per region.
    pub fn normalised_lexicon(&self) -> (r: Vec<String>)
        ensures
            r@.len() == self.tool_lexicon@.len(),
            forall|i: int|
                0 <= i < r@.len() ==> #[trigger] r@[i]@ == lowercase_of(self.tool_lexicon@[i]@),
    {
        let mut out: Vec<String> = Vec::new();
        let mut i: usize = 0;
        while i < self.tool_lexicon.len()
            invariant
                i <= self.tool_lexicon@.len(),
                out@.len() == i,
                forall|k: int|
                    0 <= k < i ==> #[trigger] out@[k]@ == lowercase_of(self.tool_lexicon@[k]@),
            decreases self.tool_lexicon@.len() - i,
        {
            out.push(to_lowercase(self.tool_lexicon[i].as_str()));
            i = i + 1;
        }
        out
    }
}

/// The default lexicon: tool, system and exfiltration terms.
pub open spec fn default_lexicon() -> Seq<Seq<char>> {
    seq![
        "ignore previous"@,
        "system prompt"@,
        "you are now"@,
        "disregard"@,
        "send to"@,
        "email"@,
        "curl"@,
        "http://"@,
        "https://"@,
        "api key"@,
        "tool"@,
        "function call"@,
    ]
}

/// The placeholder ruleset: version `uncalibrated@0000`, `tau_block` 0.80,
/// `tau_flag` 0.50, `tau_flag_degraded` 0.35, `max_redact_frac` 0.40, and the
/// default lexicon. Ranks are those of the `f32` values.
pub open spec fn is_default_ruleset(rs: Ruleset) -> bool {
    &&& rs.version.0@ == "uncalibrated@0000"@
    &&& rs.tau_block.rank == 0xBF4C_CCCDu32 && rs.tau_block.shown@ == "0.80"@
    &&& rs.tau_flag.rank == 0xBF00_0000u32 && rs.tau_flag.shown@ == "0.50"@
    &&& rs.tau_flag_degraded.rank == 0xBEB3_3333u32 && rs.tau_flag_degraded.shown@ == "0.35"@
    &&& rs.max_redact_frac.rank == 0xBECC_CCCDu32 && rs.max_redact_frac.shown@ == "40"@
    &&& rs.tool_lexicon@.len() == default_lexicon().len()
    &&& forall|i: int|
        0 <= i < rs.tool_lexicon@.len() ==> #[trigger] rs.tool_lexicon@[i]@ == default_lexicon()[i]
}

impl Default for Ruleset {
    /// Placeholder thresholds for tests and first boot. They are not
    /// calibrated, and the version stamp says so.
    fn default() -> (rs: Self)
        ensures
            is_default_ruleset(rs),
    {
        let mut tool_lexicon: Vec<String> = Vec::new();
        tool_lexicon.push(String::from_str("ignore previous"));
        tool_lexicon.push(String::from_str("system prompt"));
        tool_lexicon.push(String::from_str("you are now"));
        tool_lexicon.push(String::from_str("disregard"));
        tool_lexicon.push(String::from_str("send to"));
        tool_lexicon.push(String::from_str("email"));
        tool_lexicon.push(String::from_str("curl"));
        tool_lexicon.push(String::from_str("http://"));
        tool_lexicon.push(String::from_str("https://"));
        tool_lexicon.push(String::from_str("api key"));
        tool_lexicon.push(String::from_str("tool"));
        tool_lexicon.push(String::from_str("function call"));
        Ruleset {
            version: RulesetVersion(String::from_str("uncalibrated@0000")),
            tau_block: Reading::new(0xBF4C_CCCDu32, String::from_str("0.80")),
            tau_flag: Reading::new(0xBF00_0000u32, String::from_str("0.50")),
            tau_flag_degraded: Reading::new(0xBEB3_3333u32, String::from_str("0.35")),
            max_redact_frac: Reading::new(0xBECC_CCCDu32, String::from_str("40")),
            tool_lexicon,
        }
    }
}

/// Law: the shipped default ruleset is coherent, so an engine built from it
/// never fails to start.
pub proof fn law_default_ruleset_is_coherent(rs: Ruleset)
    requires
        is_default_ruleset(rs),
    ensures
        coherent(rs),
{
}

/// Law: validation accepts a ruleset only if each of its four thresholds,
/// `tau_block` included, is a number in `0.0..=1.0`, and `tau_flag_degraded
/// <= tau_flag <= tau_block`.
pub proof fn law_accepted_thresholds_are_in_range(rs: Ruleset)
    requires
        coherent(rs),
    ensures
        RANK_ZERO <= rs.tau_block.rank <= RANK_ONE,
        RANK_ZERO <= rs.tau_flag.rank <= RANK_ONE,
        RANK_ZERO <= rs.tau_flag_degraded.rank <= RANK_ONE,
        RANK_ZERO <= rs.max_redact_frac.rank <= RANK_ONE,
        rs.tau_flag_degraded.rank <= rs.tau_flag.rank <= rs.tau_block.rank,
{
}

/// Law: validation checks the thresholds in the order `tau_block`,
/// `tau_flag`, `tau_flag_degraded`, `max_redact_frac`, and refuses the first
/// that is not a number in `0.0..=1.0`: a NaN as `NotANumber`, any other
/// value as `OutOfRange` carrying it, each naming its field.
pub proof fn law_first_bad_threshold_is_reported(rs: Ruleset, e: RulesetError)
    requires
        reported(rs, e),
    ensures
        rs.tau_block.rank == RANK_UNORDERED ==> (e matches RulesetError::NotANumber { field }
            && field@ == "tau_block"@),
        rs.tau_block.rank != RANK_UNORDERED && !(RANK_ZERO <= rs.tau_block.rank <= RANK_ONE) ==> (
        e matches RulesetError::OutOfRange { field, value } && field@ == "tau_block"@ && value.rank
            == rs.tau_block.rank && value.shown@ == rs.tau_block.shown@),
        RANK_ZERO <= rs.tau_block.rank <= RANK_ONE && rs.tau_flag.rank == RANK_UNORDERED ==> (
        e matches RulesetError::NotANumber { field } && field@ == "tau_flag"@),
        RANK_ZERO <= rs.tau_block.rank <= RANK_ONE && rs.tau_flag.rank != RANK_UNORDERED && !(
        RANK_ZERO <= rs.tau_flag.rank <= RANK_ONE) ==> (e matches RulesetError::OutOfRange {
            field,
            value,
        } && field@ == "tau_flag"@ && value.rank == rs.tau_flag.rank),
        RANK_ZERO <= rs.tau_block.rank <= RANK_ONE && RANK_ZERO <= rs.tau_flag.rank <= RANK_ONE
            && rs.tau_flag_degraded.rank == RANK_UNORDERED ==> (e matches RulesetError::NotANumber {
            field,
        } && field@ == "tau_flag_degraded"@),
        RANK_ZERO <= rs.tau_block.rank <= RANK_ONE && RANK_ZERO <= rs.tau_flag.rank <= RANK_ONE
            && rs.tau_flag_degraded.rank != RANK_UNORDERED && !(RANK_ZERO <= rs.tau_flag_degraded.rank
            <= RANK_ONE) ==> (e matches RulesetError::OutOfRange { field, value } && field@
            == "tau_flag_degraded"@ && value.rank == rs.tau_flag_degraded.rank),
        RANK_ZERO <= rs.tau_block.rank <= RANK_ONE && RANK_ZERO <= rs.tau_flag.rank <= RANK_ONE
            && RANK_ZERO <= rs.tau_flag_degraded.rank <= RANK_ONE && rs.max_redact_frac.rank
            == RANK_UNORDERED ==> (e matches RulesetError::NotANumber { field } && field@
            == "max_redact_frac"@),
        RANK_ZERO <= rs.tau_block.rank <= RANK_ONE && RANK_ZERO <= rs.tau_flag.rank <= RANK_ONE
            && RANK_ZERO <= rs.tau_flag_degraded.rank <= RANK_ONE && rs.max_redact_frac.rank
            != RANK_UNORDERED && !(RANK_ZERO <= rs.max_redact_frac.rank <= RANK_ONE) ==> (
        e matches RulesetError::OutOfRange { field, value } && field@ == "max_redact_frac"@
            && value.rank == rs.max_redact_frac.rank),
{
}

} // verus!
