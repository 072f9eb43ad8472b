//! The parts of a decision record that carry no measurement: timings, where a
//! record came from, the rule table served to the dashboard, and the defaults
//! of an evaluation request.

use vstd::prelude::*;

use crate::region::ExtractionOutcome;
use crate::rule_id::RuleId;

verus! {

/// Pipeline version stamped into every record.
pub const PIPELINE_VERSION: &'static str = "0.1.0";

/// Per-stage latency in milliseconds.
#[derive(Debug, Clone, Copy, PartialEq, Eq, Structural)]
pub struct Timings {
    /// Image decode.
    pub decode: u32,
    /// Text extraction.
    pub ocr: u32,
    /// Classification.
    pub classify: u32,
    /// The policy engine.
    pub policy: u32,
    /// Redaction.
    pub redact: u32,
    /// End to end.
    pub total: u32,
}

impl Default for Timings {
    /// Every stage at zero.
    fn default() -> (t: Self)
        ensures
            t == (Timings { decode: 0, ocr: 0, classify: 0, policy: 0, redact: 0, total: 0 }),
    {
        Timings { decode: 0, ocr: 0, classify: 0, policy: 0, redact: 0, total: 0 }
    }
}

/// Budget-shaped timings for a boot fixture: decode 14 ms, policy 0 ms, and
/// a total that adds 25 ms of overhead to the stages.
pub fn timings(ocr: u32, classify: u32, redact: u32) -> (t: Timings)
    requires
        14 + ocr + classify + redact + 25 <= u32::MAX,
    ensures
        t == (Timings {
            decode: 14,
            ocr,
            classify,
            policy: 0,
            redact,
            total: (14 + ocr + classify + redact + 25) as u32,
        }),
{
    let decode: u32 = 14;
    let policy: u32 = 0;
    Timings {
        decode,
        ocr,
        classify,
        policy,
        redact,
        total: decode + ocr + classify + policy + redact + 25,
    }
}

/// Where a record came from, so fixture numbers are never shown as measured
/// ones.
#[derive(Debug, Clone, Copy, PartialEq, Eq, Structural)]
pub enum RecordSource {
    /// A real call to the evaluation endpoint.
    Live,
    /// Seeded at boot so the dashboard opens in a working state.
    Seed,
}

/// One row of the rule table.
#[derive(Debug, Clone, Copy, PartialEq, Eq)]
pub struct RuleDoc {
    /// Position in evaluation order, from 1.
    pub ordinal: u8,
    /// The rule.
    pub rule_id: RuleId,
    /// When it fires.
    pub condition: &'static str,
    /// What it does.
    pub action: &'static str,
}

/// The rule in the `i`-th place of evaluation order.
pub open spec fn rule_in_order(i: int) -> RuleId {
    if i == 0 {
        RuleId::R1InstructionChannel
    } else if i == 1 {
        RuleId::R2ExtractionFailed
    } else if i == 2 {
        RuleId::R3ExtractionDegraded
    } else if i == 3 {
        RuleId::R4HighConfidence
    } else if i == 4 {
        RuleId::R5ImperativeToolRef
    } else if i == 5 {
        RuleId::R6LowConfidence
    } else {
        RuleId::R7Default
    }
}

/// The condition and action texts of the `i`-th rule.
pub open spec fn rule_texts(i: int) -> (Seq<char>, Seq<char>) {
    if i == 0 {
        ("channel is Instruction"@, "allow, uninspected"@)
    } else if i == 1 {
        ("extraction returned nothing usable"@, "block image, forward remaining parts"@)
    } else if i == 2 {
        (
            "extraction degraded (low contrast, tiny glyphs, rotation, timeout)"@,
            "escalate: tau_flag drops to tau_flag_degraded"@,
        )
    } else if i == 3 {
        ("score >= tau_block"@, "redact"@)
    } else if i == 4 {
        ("score >= tau_flag and matches the tool/system lexicon"@, "redact"@)
    } else if i == 5 {
        ("score >= tau_flag"@, "flag, forward annotated"@)
    } else {
        ("nothing fired"@, "allow"@)
    }
}

/// The seven rules, in evaluation order, served so the dashboard cannot drift
/// from the engine.
pub fn rule_docs() -> (r: Vec<RuleDoc>)
    ensures
        r@.len() == 7,
        forall|i: int|
            0 <= i < 7 ==> #[trigger] r@[i].ordinal == i + 1 && r@[i].rule_id == rule_in_order(i)
                && r@[i].condition@ == rule_texts(i).0 && r@[i].action@ == rule_texts(i).1,
{
    let mut r: Vec<RuleDoc> = Vec::new();
    r.push(
        RuleDoc {
            ordinal: 1,
            rule_id: RuleId::R1InstructionChannel,
            condition: "channel is Instruction",
            action: "allow, uninspected",
        },
    );
    r.push(
        RuleDoc {
            ordinal: 2,
            rule_id: RuleId::R2ExtractionFailed,
            condition: "extraction returned nothing usable",
            action: "block image, forward remaining parts",
        },
    );
    r.push(
        RuleDoc {
            ordinal: 3,
            rule_id: RuleId::R3ExtractionDegraded,
            condition: "extraction degraded (low contrast, tiny glyphs, rotation, timeout)",
            action: "escalate: tau_flag drops to tau_flag_degraded",
        },
    );
    r.push(
        RuleDoc {
            ordinal: 4,
            rule_id: RuleId::R4HighConfidence,
            condition: "score >= tau_block",
            action: "redact",
        },
    );
    r.push(
        RuleDoc {
            ordinal: 5,
            rule_id: RuleId::R5ImperativeToolRef,
            condition: "score >= tau_flag and matches the tool/system lexicon",
            action: "redact",
        },
    );
    r.push(
        RuleDoc {
            ordinal: 6,
            rule_id: RuleId::R6LowConfidence,
            condition: "score >= tau_flag",
            action: "flag, forward annotated",
        },
    );
    r.push(
        RuleDoc {
            ordinal: 7,
            rule_id: RuleId::R7Default,
            condition: "nothing fired",
            action: "allow",
        },
    );
    r
}

/// The extraction an evaluation request assumes when it names none.
pub fn default_extraction() -> (e: ExtractionOutcome)
    ensures
        e is Complete,
{
    ExtractionOutcome::Complete
}

/// The image area an evaluation request assumes when it names none: 1080p.
pub fn default_image_area() -> (a: u64)
    ensures
        a == 1920 * 1080,
{
    1_920 * 1_080
}

} // verus!
