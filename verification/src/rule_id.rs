//! Stable rule identifiers and their wire form.

use vstd::prelude::*;

use crate::chars::same_text;

verus! {

/// Stable rule identifiers. These strings go verbatim into the decision
/// record's `rule_id` field, so they are part of the output contract.
#[derive(Debug, Clone, Copy, PartialEq, Eq, Hash, Structural)]
pub enum RuleId {
    /// Instruction-channel content, forwarded uninspected.
    R1InstructionChannel,
    /// Extraction failed; the image is dropped.
    R2ExtractionFailed,
    /// Extraction degraded; thresholds escalated.
    R3ExtractionDegraded,
    /// Score at or above the block threshold.
    R4HighConfidence,
    /// Flag-level score plus a tool or system term.
    R5ImperativeToolRef,
    /// Flag-level score alone.
    R6LowConfidence,
    /// Nothing fired.
    R7Default,
}

/// The wire form of a rule identifier.
pub open spec fn wire(id: RuleId) -> Seq<char> {
    match id {
        RuleId::R1InstructionChannel => "R1_INSTRUCTION_CHANNEL"@,
        RuleId::R2ExtractionFailed => "R2_EXTRACTION_FAILED"@,
        RuleId::R3ExtractionDegraded => "R3_EXTRACTION_DEGRADED"@,
        RuleId::R4HighConfidence => "R4_HIGH_CONFIDENCE"@,
        RuleId::R5ImperativeToolRef => "R5_IMPERATIVE_TOOL_REF"@,
        RuleId::R6LowConfidence => "R6_LOW_CONFIDENCE"@,
        RuleId::R7Default => "R7_DEFAULT"@,
    }
}

/// The rule whose wire form is `s`, if any.
pub open spec fn rule_of_wire(s: Seq<char>) -> Option<RuleId> {
    if s == "R1_INSTRUCTION_CHANNEL"@ {
        Some(RuleId::R1InstructionChannel)
    } else if s == "R2_EXTRACTION_FAILED"@ {
        Some(RuleId::R2ExtractionFailed)
    } else if s == "R3_EXTRACTION_DEGRADED"@ {
        Some(RuleId::R3ExtractionDegraded)
    } else if s == "R4_HIGH_CONFIDENCE"@ {
        Some(RuleId::R4HighConfidence)
    } else if s == "R5_IMPERATIVE_TOOL_REF"@ {
        Some(RuleId::R5ImperativeToolRef)
    } else if s == "R6_LOW_CONFIDENCE"@ {
        Some(RuleId::R6LowConfidence)
    } else if s == "R7_DEFAULT"@ {
        Some(RuleId::R7Default)
    } else {
        None
    }
}

/// A `rule_id` string that does not name a known rule.
#[derive(Debug, Clone, PartialEq, Eq)]
pub struct UnknownRuleId(String);

impl UnknownRuleId {
    /// The text that named no rule.
    pub closed spec fn text(&self) -> Seq<char> {
        self.0@
    }

    /// The text that named no rule.
    pub fn as_str(&self) -> (s: &str)
        ensures
            s@ == self.text(),
    {
        self.0.as_str()
    }
}

impl RuleId {
    /// The stable wire form.
    pub fn as_str(self) -> (s: &'static str)
        ensures
            s@ == wire(self),
    {
        match self {
            RuleId::R1InstructionChannel => "R1_INSTRUCTION_CHANNEL",
            RuleId::R2ExtractionFailed => "R2_EXTRACTION_FAILED",
            RuleId::R3ExtractionDegraded => "R3_EXTRACTION_DEGRADED",
            RuleId::R4HighConfidence => "R4_HIGH_CONFIDENCE",
            RuleId::R5ImperativeToolRef => "R5_IMPERATIVE_TOOL_REF",
            RuleId::R6LowConfidence => "R6_LOW_CONFIDENCE",
            RuleId::R7Default => "R7_DEFAULT",
        }
    }

    /// The wire form as an owned string; also the displayed form.
    pub fn to_string(self) -> (s: String)
        ensures
            s@ == wire(self),
    {
        String::from_str(self.as_str())
    }

    /// Parse a wire form back into the rule it names.
    pub fn try_from(value: String) -> (r: Result<RuleId, UnknownRuleId>)
        ensures
            match r {
                Ok(id) => rule_of_wire(value@) == Some(id),
                Err(e) => rule_of_wire(value@) is None && e.text() == value@,
            },
    {
        let s = value.as_str();
        if same_text(s, "R1_INSTRUCTION_CHANNEL") {
            Ok(RuleId::R1InstructionChannel)
        } else if same_text(s, "R2_EXTRACTION_FAILED") {
            Ok(RuleId::R2ExtractionFailed)
        } else if same_text(s, "R3_EXTRACTION_DEGRADED") {
            Ok(RuleId::R3ExtractionDegraded)
        } else if same_text(s, "R4_HIGH_CONFIDENCE") {
            Ok(RuleId::R4HighConfidence)
        } else if same_text(s, "R5_IMPERATIVE_TOOL_REF") {
            Ok(RuleId::R5ImperativeToolRef)
        } else if same_text(s, "R6_LOW_CONFIDENCE") {
            Ok(RuleId::R6LowConfidence)
        } else if same_text(s, "R7_DEFAULT") {
            Ok(RuleId::R7Default)
        } else {
            Err(UnknownRuleId(value))
        }
    }
}

/// Law: every rule identifier parses back from its wire form, so a log row's
/// `rule_id` can always be read back into the rule that wrote it.
pub proof fn law_rule_id_round_trips(id: RuleId)
    ensures
        rule_of_wire(wire(id)) == Some(id),
{
    reveal_strlit("R1_INSTRUCTION_CHANNEL");
    reveal_strlit("R2_EXTRACTION_FAILED");
    reveal_strlit("R3_EXTRACTION_DEGRADED");
    reveal_strlit("R4_HIGH_CONFIDENCE");
    reveal_strlit("R5_IMPERATIVE_TOOL_REF");
    reveal_strlit("R6_LOW_CONFIDENCE");
    reveal_strlit("R7_DEFAULT");
    let w = wire(id);
    assert(w.len() != "R1_INSTRUCTION_CHANNEL"@.len() || w[1] != '1' ==> w != "R1_INSTRUCTION_CHANNEL"@);
    assert(w[1] != '2' ==> w != "R2_EXTRACTION_FAILED"@);
    assert(w[1] != '3' ==> w != "R3_EXTRACTION_DEGRADED"@);
    assert(w[1] != '4' ==> w != "R4_HIGH_CONFIDENCE"@);
    assert(w[1] != '5' ==> w != "R5_IMPERATIVE_TOOL_REF"@);
    assert(w[1] != '6' ==> w != "R6_LOW_CONFIDENCE"@);
}

} // verus!
