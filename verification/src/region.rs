//! Text regions extracted from an image, and the health of that extraction.

use vstd::prelude::*;

verus! {

/// An axis-aligned box in the source image's pixel space.
#[derive(Debug, Clone, Copy, PartialEq, Eq, Structural)]
pub struct BBox {
    /// Left edge.
    pub x: u32,
    /// Top edge.
    pub y: u32,
    /// Width in pixels.
    pub w: u32,
    /// Height in pixels.
    pub h: u32,
}

impl BBox {
    /// Area in pixels, widened so that no box of `u32` sides can overflow it.
    pub fn area(&self) -> (a: u64)
        ensures
            a == self.w * self.h,
    {
        proof {
            vstd::arithmetic::mul::lemma_mul_upper_bound(
                self.w as int, u32::MAX as int, self.h as int, u32::MAX as int);
        }
        (self.w as u64) * (self.h as u64)
    }
}

/// Why an extraction is considered degraded. Each one escalates the policy
/// thresholds (rule `R3`).
#[derive(Debug, Clone, Copy, PartialEq, Eq, Structural)]
pub enum DegradeReason {
    /// Text/background contrast below the engine's reliable range.
    LowContrast,
    /// Glyphs too small at the source resolution to recognise reliably.
    TinyGlyphs,
    /// Text rotated beyond what the detector handles.
    Rotation,
    /// The engine did not finish within its budget and returned partial
    /// results.
    Timeout,
    /// The engine reported that it stopped before covering the whole image.
    PartialPage,
}

/// How well extraction went. A `Failed` extraction is a normal outcome that
/// the policy engine has a rule for, not an error.
#[derive(Debug, Clone, PartialEq, Eq)]
pub enum ExtractionOutcome {
    /// The engine covered the image and is confident in its coverage.
    Complete,
    /// The engine returned results but flagged a condition that depresses
    /// recall.
    Degraded {
        /// What went wrong.
        reason: DegradeReason,
    },
    /// The engine returned nothing usable.
    Failed {
        /// The engine's error, rendered.
        reason: String,
    },
}

impl ExtractionOutcome {
    /// Whether any region list from this extraction can be trusted to be
    /// complete.
    pub fn is_complete(&self) -> (b: bool)
        ensures
            b == (self is Complete),
    {
        matches!(self, ExtractionOutcome::Complete)
    }

    /// Whether extraction produced no usable regions at all.
    pub fn is_failed(&self) -> (b: bool)
        ensures
            b == (self is Failed),
    {
        matches!(self, ExtractionOutcome::Failed { .. })
    }
}

} // verus!
