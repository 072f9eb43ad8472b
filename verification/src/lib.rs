//! Provenance boundary and deterministic policy engine for a proxy that keeps
//! instructions hidden inside images from reaching a vision-language agent.
//!
//! Content that entered through a data channel cannot reach the instruction
//! context except through a [`Declassification`] issued by the policy engine,
//! and the engine issues one only for a region it allowed.

mod sealed;

pub mod clearance;
pub mod decision;
pub mod chars;
pub mod engine;
pub mod ids;
pub mod log;
pub mod normalize;
pub mod pipeline;
pub mod provenance;
pub mod reading;
pub mod record;
pub mod region;
pub mod rule_id;
pub mod stats;
pub mod ruleset;
pub mod text;
pub mod wrappers;

pub use clearance::{ClearanceAuthority, Declassification};
pub use decision::{RegionAction, RequestOutcome};
pub use engine::{PolicyEngine, Redactable, RegionInput, RegionVerdict, RequestVerdict};
pub use ids::{
    ContentHash, ContentHashParseError, DecisionId, EngineId, ModelVersion, RegionId, RequestId,
    RulesetVersion,
};
pub use log::{DecisionLog, MAX_DECISIONS};
pub use normalize::normalize;
pub use provenance::{Channel, ChannelLabel, Data, Instruction, Origin, ProvenanceError, Provenanced};
pub use reading::Reading;
pub use region::{BBox, DegradeReason, ExtractionOutcome};
pub use rule_id::{RuleId, UnknownRuleId};
pub use ruleset::{Ruleset, RulesetError};
pub use text::{NormalizedText, TextError};
