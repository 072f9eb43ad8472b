//! The request path's own logic: the hash that keys a decision, and the rule
//! that a record names as deciding the request.

use vstd::prelude::*;

use crate::engine::{worst_index, worst_verdict, RegionVerdict};
use crate::ids::{encode, ContentHash, RegionId};
use crate::provenance::ChannelLabel;
use crate::rule_id::RuleId;
use crate::wrappers::{blake3_hash, blake3_of};

verus! {

/// The channel a submitted region is judged on: the one it names, or the
/// data channel where it names none.
pub fn channel_or_data(c: Option<ChannelLabel>) -> (l: ChannelLabel)
    ensures
        l == (match c {
            Some(x) => x,
            None => ChannelLabel::Data,
        }),
{
    match c {
        Some(x) => x,
        None => ChannelLabel::Data,
    }
}

/// The bytes hashed for a request: each region's text followed by a zero
/// byte.
pub open spec fn hashed_bytes(raws: Seq<Seq<char>>) -> Seq<u8>
    decreases raws.len(),
{
    if raws.len() == 0 {
        Seq::empty()
    } else {
        hashed_bytes(raws.drop_last()) + encode(raws.last()) + seq![0u8]
    }
}

/// The hash that keys a request's decision: BLAKE3 over each region's text,
/// each followed by a zero byte so that region boundaries count.
pub fn input_hash(raws: &[&str]) -> (h: ContentHash)
    ensures
        h@ == blake3_of(hashed_bytes(Seq::new(raws@.len(), |i: int| raws@[i]@))),
{
    let ghost texts = Seq::new(raws@.len(), |i: int| raws@[i]@);
    let mut bytes: Vec<u8> = Vec::new();
    let mut i: usize = 0;
    while i < raws.len()
        invariant
            i <= raws@.len(),
            texts == Seq::new(raws@.len(), |i: int| raws@[i]@),
            bytes@ == hashed_bytes(texts.take(i as int)),
        decreases raws@.len() - i,
    {
        let b = raws[i].as_bytes();
        let ghost before = bytes@;
        let mut j: usize = 0;
        while j < b.len()
            invariant
                j <= b@.len(),
                bytes@ == before + b@.take(j as int),
            decreases b@.len() - j,
        {
            bytes.push(b[j]);
            assert(b@.take(j + 1) == b@.take(j as int).push(b@[j as int]));
            j = j + 1;
        }
        bytes.push(0u8);
        assert(texts.take(i + 1).drop_last() == texts.take(i as int));
        assert(b@.take(b@.len() as int) == b@);
        i = i + 1;
    }
    assert(texts.take(raws@.len() as int) == texts);
    ContentHash::from_bytes(blake3_hash(bytes.as_slice()))
}

/// The rule and reason a record names as deciding the request: those of the
/// most severe region (the last of several equally severe), or `R7` when no
/// regions were submitted.
pub fn deciding_rule(verdicts: &Vec<RegionVerdict>) -> (r: (RuleId, String))
    ensures
        verdicts@.len() == 0 ==> r.0 == RuleId::R7Default && r.1@ == "no regions submitted"@,
        verdicts@.len() > 0 ==> r.0 == verdicts@[worst_index(verdicts@)].rule_id && r.1@
            == verdicts@[worst_index(verdicts@)].reason@,
{
    if verdicts.len() == 0 {
        return (RuleId::R7Default, String::from_str("no regions submitted"));
    }
    let w = worst_verdict(verdicts);
    (verdicts[w].rule_id, verdicts[w].reason.clone())
}

/// Largest number of regions one evaluation request may carry.
pub const MAX_REGIONS: usize = 64;

/// Longest single region text accepted, in bytes.
pub const MAX_REGION_BYTES: usize = 8192;

/// Why an evaluation request is refused before it reaches the engine.
#[derive(Debug, Clone, Copy, PartialEq, Eq, Structural)]
pub enum RequestRejection {
    /// More regions than [`MAX_REGIONS`]; carries the count.
    TooManyRegions {
        /// Regions submitted.
        count: usize,
    },
    /// A region text longer than [`MAX_REGION_BYTES`]; the first such region.
    RegionTooLarge {
        /// Its position in the request.
        index: usize,
        /// Its length in bytes.
        bytes: usize,
    },
    /// An image area of zero, which would make every region unmeasurable.
    ZeroImageArea,
}

/// Check an evaluation request's limits, given the byte length of each region
/// text and the image area: the region count first, then each region's
/// length in order, then the area.
pub fn check_request(region_bytes: &[usize], image_area: u64) -> (r: Result<(), RequestRejection>)
    ensures
        region_bytes@.len() > MAX_REGIONS ==> r == Err::<(), RequestRejection>(
            RequestRejection::TooManyRegions { count: region_bytes@.len() as usize },
        ),
        region_bytes@.len() <= MAX_REGIONS ==> match r {
            Ok(()) => (forall|i: int|
                0 <= i < region_bytes@.len() ==> #[trigger] region_bytes@[i] <= MAX_REGION_BYTES)
                && image_area != 0,
            Err(RequestRejection::RegionTooLarge { index, bytes }) => index < region_bytes@.len()
                && bytes == region_bytes@[index as int] && bytes > MAX_REGION_BYTES && (forall|
                i: int,
            |
                0 <= i < index ==> #[trigger] region_bytes@[i] <= MAX_REGION_BYTES),
            Err(RequestRejection::ZeroImageArea) => (forall|i: int|
                0 <= i < region_bytes@.len() ==> #[trigger] region_bytes@[i] <= MAX_REGION_BYTES)
                && image_area == 0,
            Err(RequestRejection::TooManyRegions { .. }) => false,
        },
{
    if region_bytes.len() > MAX_REGIONS {
        return Err(RequestRejection::TooManyRegions { count: region_bytes.len() });
    }
    let mut i: usize = 0;
    while i < region_bytes.len()
        invariant
            i <= region_bytes@.len(),
            region_bytes@.len() <= MAX_REGIONS,
            forall|k: int| 0 <= k < i ==> #[trigger] region_bytes@[k] <= MAX_REGION_BYTES,
        decreases region_bytes@.len() - i,
    {
        if region_bytes[i] > MAX_REGION_BYTES {
            return Err(RequestRejection::RegionTooLarge { index: i, bytes: region_bytes[i] });
        }
        i = i + 1;
    }
    if image_area == 0 {
        return Err(RequestRejection::ZeroImageArea);
    }
    Ok(())
}

/// The region id of the `i`-th submitted region: its position, or
/// `u32::MAX` past that range.
pub fn region_id_at(i: usize) -> (r: RegionId)
    ensures
        r.0 == if i <= u32::MAX { i as u32 } else { u32::MAX },
{
    if i <= u32::MAX as usize {
        RegionId(i as u32)
    } else {
        RegionId(u32::MAX)
    }
}

/// When a boot fixture is stamped: spread back from `base` over the last half
/// hour or so, with uneven gaps, oldest first.
pub fn seed_timestamp(base: u64, count: u64, index: u64) -> (ts: u64)
    requires
        index <= count,
        (count - index) * 137_000 + (index % 5) * 9_400 <= u64::MAX,
    ensures
        ts == if base >= (count - index) * 137_000 + (index % 5) * 9_400 {
            base - ((count - index) * 137_000 + (index % 5) * 9_400)
        } else {
            0
        },
{
    let ago = (count - index) * 137_000 + (index % 5) * 9_400;
    if base >= ago {
        base - ago
    } else {
        0
    }
}

} // verus!
