//! Normalised text, with the mapping back to its source preserved, so a
//! flagged region can be redacted where it actually sits.

use vstd::prelude::*;

use crate::ids::{encode, RegionId};

verus! {

/// Construction of a [`NormalizedText`] whose offset map does not describe its
/// text.
#[derive(Debug, Clone, Copy, PartialEq, Eq, Structural)]
pub enum TextError {
    /// One offset entry per byte of normalised text is required.
    OffsetMapLengthMismatch {
        /// Entries supplied.
        offsets: usize,
        /// Bytes of normalised text.
        bytes: usize,
    },
    /// Normalisation may merge or drop source bytes but never reorder them.
    OffsetMapNotMonotonic {
        /// Index of the offending entry.
        index: usize,
        /// Its value.
        value: u32,
        /// Index of the preceding entry.
        prev_index: usize,
        /// Its value.
        prev_value: u32,
    },
}

/// Whether an offset map never goes backwards.
pub open spec fn nondecreasing(offsets: Seq<u32>) -> bool {
    forall|a: int, b: int| 0 <= a <= b < offsets.len() ==> offsets[a] <= offsets[b]
}

/// Whether `index` is the first entry of the map that is smaller than the
/// one before it.
pub open spec fn first_descent(offsets: Seq<u32>, index: int) -> bool {
    &&& 1 <= index < offsets.len()
    &&& offsets[index] < offsets[index - 1]
    &&& forall|j: int| 1 <= j < index ==> offsets[j - 1] <= #[trigger] offsets[j]
}

/// Whether an offset map describes a text: one entry per byte, never going
/// backwards.
pub open spec fn describes(text: Seq<char>, offsets: Seq<u32>) -> bool {
    offsets.len() == encode(text).len() && nondecreasing(offsets)
}

/// Text after the normalisation pipeline, carrying a byte-for-byte map back to
/// the region it came from.
#[derive(Debug, Clone, PartialEq, Eq)]
pub struct NormalizedText {
    text: String,
    offsets: Vec<u32>,
    source: RegionId,
}

/// Adjacent entries that never go backwards order every pair of entries.
proof fn lemma_chain(offsets: Seq<u32>, a: int, b: int)
    requires
        0 <= a <= b < offsets.len(),
        forall|j: int| 1 <= j < offsets.len() ==> offsets[j - 1] <= #[trigger] offsets[j],
    ensures
        offsets[a] <= offsets[b],
    decreases b - a,
{
    if a < b {
        lemma_chain(offsets, a, b - 1);
        assert(offsets[b - 1] <= offsets[b]);
    }
}

/// Adjacent entries that never go backwards make a map that never does.
proof fn lemma_adjacent_order(offsets: Seq<u32>)
    requires
        forall|j: int| 1 <= j < offsets.len() ==> offsets[j - 1] <= #[trigger] offsets[j],
    ensures
        nondecreasing(offsets),
{
    assert forall|a: int, b: int| 0 <= a <= b < offsets.len() implies offsets[a] <= offsets[b] by {
        lemma_chain(offsets, a, b);
    }
}

impl NormalizedText {
    /// The normalised text.
    pub closed spec fn text_view(&self) -> Seq<char> {
        self.text@
    }

    /// The byte-for-byte map back to the source.
    pub closed spec fn offsets_view(&self) -> Seq<u32> {
        self.offsets@
    }

    /// The region this text was extracted from.
    pub closed spec fn source_view(&self) -> RegionId {
        self.source
    }

    /// Build a normalised text, validating the offset map against the text.
    pub fn new(text: String, offsets: Vec<u32>, source: RegionId) -> (r: Result<Self, TextError>)
        ensures
            r is Ok <==> describes(text@, offsets@),
            r matches Ok(t) ==> t.text_view() == text@ && t.offsets_view() == offsets@
                && t.source_view() == source,
            offsets@.len() != encode(text@).len() ==> r == Err::<Self, TextError>(
                TextError::OffsetMapLengthMismatch {
                    offsets: offsets@.len() as usize,
                    bytes: encode(text@).len() as usize,
                },
            ),
            r matches Err(TextError::OffsetMapLengthMismatch { .. }) ==> offsets@.len() != encode(
                text@,
            ).len(),
            r matches Err(TextError::OffsetMapNotMonotonic { index, value, prev_index, prev_value })
                ==> offsets@.len() == encode(text@).len() && first_descent(offsets@, index as int)
                && value == offsets@[index as int] && prev_index == index - 1 && prev_value
                == offsets@[prev_index as int],
    {
        let bytes = text.as_str().as_bytes().len();
        if offsets.len() != bytes {
            return Err(TextError::OffsetMapLengthMismatch { offsets: offsets.len(), bytes });
        }
        let mut i: usize = 1;
        while i < offsets.len()
            invariant
                1 <= i,
                offsets@.len() == encode(text@).len(),
                i <= offsets@.len() || offsets@.len() == 0,
                forall|j: int| 1 <= j < i && j < offsets@.len() ==> offsets@[j - 1] <= #[trigger] offsets@[j],
            decreases offsets@.len() - i,
        {
            if offsets[i] < offsets[i - 1] {
                return Err(
                    TextError::OffsetMapNotMonotonic {
                        index: i,
                        value: offsets[i],
                        prev_index: i - 1,
                        prev_value: offsets[i - 1],
                    },
                );
            }
            i = i + 1;
        }
        proof {
            lemma_adjacent_order(offsets@);
        }
        Ok(NormalizedText { text, offsets, source })
    }

    /// A normalised text for the identity transform, where every byte maps to
    /// itself.
    pub fn identity(text: String, source: RegionId) -> (t: Self)
        requires
            encode(text@).len() <= u32::MAX + 1,
        ensures
            t.text_view() == text@,
            t.source_view() == source,
            t.offsets_view().len() == encode(text@).len(),
            forall|i: int| 0 <= i < t.offsets_view().len() ==> #[trigger] t.offsets_view()[i] == i,
            describes(t.text_view(), t.offsets_view()),
    {
        let n = text.as_str().as_bytes().len();
        let mut offsets: Vec<u32> = Vec::new();
        let mut i: usize = 0;
        while i < n
            invariant
                n <= u32::MAX + 1,
                i <= n,
                offsets@.len() == i,
                forall|k: int| 0 <= k < i ==> #[trigger] offsets@[k] == k,
            decreases n - i,
        {
            offsets.push(i as u32);
            i = i + 1;
        }
        NormalizedText { text, offsets, source }
    }

    /// The normalised text the classifier scores.
    pub fn as_str(&self) -> (s: &str)
        ensures
            s@ == self.text_view(),
    {
        self.text.as_str()
    }

    /// The region this text was extracted from.
    pub fn source(&self) -> (r: RegionId)
        ensures
            r == self.source_view(),
    {
        self.source
    }

    /// Map a byte offset in the normalised text back to a byte offset in the
    /// source region's raw string; `None` out of range.
    pub fn source_offset(&self, normalized_offset: usize) -> (r: Option<u32>)
        ensures
            normalized_offset < self.offsets_view().len() ==> r == Some(
                self.offsets_view()[normalized_offset as int],
            ),
            normalized_offset >= self.offsets_view().len() ==> r is None,
    {
        if normalized_offset < self.offsets.len() {
            Some(self.offsets[normalized_offset])
        } else {
            None
        }
    }

    /// Whether the normalised text is empty.
    pub fn is_empty(&self) -> (b: bool)
        ensures
            b == (self.text_view().len() == 0),
    {
        self.text.as_str().is_empty()
    }
}

} // verus!
