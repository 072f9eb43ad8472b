//! A real number as the policy compares and reports it.
//!
//! Scores, thresholds and area fractions are real numbers that this library
//! never computes with: it only orders them and quotes them. So each one is
//! carried as a [`Reading`], whose `rank` orders readings exactly as the
//! numbers order (equal numbers have equal ranks, and a value that compares
//! with nothing, NaN, has rank `0`, below every other), and whose `shown`
//! text is how the number is quoted in a decision's reason.

use vstd::prelude::*;

verus! {

/// The rank of the number zero (either sign).
pub const RANK_ZERO: u32 = 0x8000_0000u32;

/// The rank of the number one.
pub const RANK_ONE: u32 = 0xBF80_0000u32;

/// The rank of a value that compares with nothing (NaN).
pub const RANK_UNORDERED: u32 = 0u32;

/// A real number as an order rank and a quoted text.
#[derive(Debug, PartialEq, Eq)]
pub struct Reading {
    /// Orders readings as the numbers order; `0` for NaN.
    pub rank: u32,
    /// The number as a decision's reason quotes it.
    pub shown: String,
}

impl Reading {
    /// A reading of the given rank, quoted as `shown`.
    pub fn new(rank: u32, shown: String) -> (r: Self)
        ensures
            r.rank == rank,
            r.shown@ == shown@,
    {
        Reading { rank, shown }
    }

    /// The same reading, with its own copy of the text.
    pub fn copy(&self) -> (r: Self)
        ensures
            r.rank == self.rank,
            r.shown@ == self.shown@,
    {
        Reading { rank: self.rank, shown: self.shown.clone() }
    }
}

impl Clone for Reading {
    /// The same rank and text.
    fn clone(&self) -> (r: Self)
        ensures
            r.rank == self.rank,
            r.shown@ == self.shown@,
    {
        self.copy()
    }
}

} // verus!
