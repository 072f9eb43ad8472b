//! Identifiers and version stamps.
//!
//! Every decision row carries three version fields (classifier, ruleset,
//! pipeline), so these are values rather than strings scattered through the
//! code.

use vstd::prelude::*;

use crate::chars::{decimal, hex_digit_value, hex_digits, hex_value, push_decimal, push_hex};
use crate::wrappers::{random_uuid_v4, uuid_hyphenated, uuid_text};

verus! {

/// Identifies one inbound HTTP request. Holds the 128-bit value of a random
/// (version 4) UUID.
#[derive(Debug, Clone, Copy, PartialEq, Eq, Hash, Structural)]
pub struct RequestId(u128);

impl RequestId {
    /// The UUID's 128-bit value.
    pub closed spec fn value(self) -> u128 {
        self.0
    }

    /// Generate a fresh request id.
    pub fn new() -> (id: Self)
        ensures
            (id.value() as nat / 0x1000_0000_0000_0000_0000) % 16 == 4,
            (id.value() as nat / 0x4000_0000_0000_0000) % 4 == 2,
    {
        RequestId(random_uuid_v4())
    }

    /// Rebuild an id from the UUID's 128-bit value.
    pub fn from_u128(v: u128) -> (id: Self)
        ensures
            id.value() == v,
    {
        RequestId(v)
    }

    /// The UUID's 128-bit value.
    pub fn as_u128(&self) -> (v: u128)
        ensures
            v == self.value(),
    {
        self.0
    }

    /// The hyphenated UUID text, as the id is displayed.
    pub fn to_string(&self) -> (s: String)
        ensures
            s@ == uuid_hyphenated(self.value()),
    {
        uuid_text(self.0)
    }
}

impl Default for RequestId {
    /// A fresh random id.
    fn default() -> (id: Self)
        ensures
            (id.value() as nat / 0x1000_0000_0000_0000_0000) % 16 == 4,
            (id.value() as nat / 0x4000_0000_0000_0000) % 4 == 2,
    {
        Self::new()
    }
}

/// Identifies one policy decision. One request produces exactly one. Holds the
/// 128-bit value of a random (version 4) UUID.
#[derive(Debug, Clone, Copy, PartialEq, Eq, Hash, Structural)]
pub struct DecisionId(u128);

impl DecisionId {
    /// The UUID's 128-bit value.
    pub closed spec fn value(self) -> u128 {
        self.0
    }

    /// Generate a fresh decision id.
    pub fn new() -> (id: Self)
        ensures
            (id.value() as nat / 0x1000_0000_0000_0000_0000) % 16 == 4,
            (id.value() as nat / 0x4000_0000_0000_0000) % 4 == 2,
    {
        DecisionId(random_uuid_v4())
    }

    /// Rebuild an id from the UUID's 128-bit value.
    pub fn from_u128(v: u128) -> (id: Self)
        ensures
            id.value() == v,
    {
        DecisionId(v)
    }

    /// The UUID's 128-bit value.
    pub fn as_u128(&self) -> (v: u128)
        ensures
            v == self.value(),
    {
        self.0
    }

    /// The hyphenated UUID text, as the id is displayed.
    pub fn to_string(&self) -> (s: String)
        ensures
            s@ == uuid_hyphenated(self.value()),
    {
        uuid_text(self.0)
    }
}

impl Default for DecisionId {
    /// A fresh random id.
    fn default() -> (id: Self)
        ensures
            (id.value() as nat / 0x1000_0000_0000_0000_0000) % 16 == 4,
            (id.value() as nat / 0x4000_0000_0000_0000) % 4 == 2,
    {
        Self::new()
    }
}

/// Identifies a text region within a single request, stable across the
/// pipeline.
#[derive(Debug, Clone, Copy, PartialEq, Eq, PartialOrd, Ord, Hash, Structural)]
pub struct RegionId(pub u32);

impl RegionId {
    /// The displayed form, `r` followed by the number.
    pub fn to_string(&self) -> (s: String)
        ensures
            s@ == seq!['r'] + decimal(self.0 as nat),
    {
        let mut s = String::new();
        crate::wrappers::push_char(&mut s, 'r');
        push_decimal(&mut s, self.0 as u64);
        s
    }
}

/// The hexadecimal digits of a byte string, two per byte.
pub open spec fn hex_body(bytes: Seq<u8>) -> Seq<char>
    decreases bytes.len(),
{
    if bytes.len() == 0 {
        Seq::empty()
    } else {
        hex_body(bytes.drop_last()) + hex_digits(bytes.last() as nat, 2)
    }
}

/// The text of a content hash: `b3:` and 64 lowercase hexadecimal digits.
pub open spec fn hash_text(bytes: Seq<u8>) -> Seq<char> {
    seq!['b', '3', ':'] + hex_body(bytes)
}

/// Whether the bytes `b` start with the bytes of `b3:`.
pub open spec fn has_hash_prefix(b: Seq<u8>) -> bool {
    b.len() >= 3 && b[0] == 98 && b[1] == 51 && b[2] == 58
}

/// The byte that the `i`-th digit pair of the hash text bytes `b` writes,
/// high digit first.
pub open spec fn hash_byte(b: Seq<u8>, i: int) -> u8 {
    (hex_value(b[3 + 2 * i])->0 * 16 + hex_value(b[4 + 2 * i])->0) as u8
}

/// What parsing a hash text whose UTF-8 bytes are `b` gives: the 32 hash
/// bytes, or the first reason it is refused. The body after `b3:` must be
/// exactly 64 bytes long, each an ASCII hexadecimal digit of either case; a
/// byte of a character outside ASCII is no digit.
pub open spec fn parse_hash(b: Seq<u8>) -> Result<Seq<u8>, ContentHashParseError> {
    if !has_hash_prefix(b) {
        Err(ContentHashParseError::MissingPrefix)
    } else if b.len() - 3 != 64 {
        Err(ContentHashParseError::WrongLength((b.len() - 3) as usize))
    } else if exists|k: int| 3 <= k < 67 && #[trigger] hex_value(b[k]) is None {
        Err(ContentHashParseError::NotHex)
    } else {
        Ok(Seq::new(32, |i: int| hash_byte(b, i)))
    }
}

/// A BLAKE3 hash of input bytes, rendered as `b3:<hex>` so a log row is
/// greppable.
#[derive(Debug, Clone, Copy, PartialEq, Eq, Hash)]
pub struct ContentHash([u8; 32]);

impl View for ContentHash {
    type V = Seq<u8>;

    closed spec fn view(&self) -> Seq<u8> {
        self.0@
    }
}

/// Failure to parse a [`ContentHash`] from its string form.
#[derive(Debug, Clone, Copy, PartialEq, Eq, Structural)]
pub enum ContentHashParseError {
    /// The string did not start with the `b3:` prefix.
    MissingPrefix,
    /// The hex body was not exactly 64 bytes long (64 characters, when they
    /// are digits); carries its length in bytes.
    WrongLength(usize),
    /// The hex body contained a non-hex character.
    NotHex,
}

impl ContentHash {
    /// Wrap 32 raw hash bytes.
    pub fn from_bytes(bytes: [u8; 32]) -> (h: Self)
        ensures
            h@ == bytes@,
    {
        ContentHash(bytes)
    }

    /// The raw hash bytes.
    pub fn as_bytes(&self) -> (b: &[u8; 32])
        ensures
            b@ == self@,
    {
        &self.0
    }

    /// The text form, `b3:` followed by 64 lowercase hexadecimal digits.
    pub fn to_string(&self) -> (s: String)
        ensures
            s@ == hash_text(self@),
    {
        let mut s = String::new();
        crate::wrappers::push_char(&mut s, 'b');
        crate::wrappers::push_char(&mut s, '3');
        crate::wrappers::push_char(&mut s, ':');
        assert(s@ == seq!['b', '3', ':']);
        let mut i: usize = 0;
        while i < 32
            invariant
                i <= 32,
                self@.len() == 32,
                s@ == seq!['b', '3', ':'] + hex_body(self@.take(i as int)),
            decreases 32 - i,
        {
            let ghost before = s@;
            push_hex(&mut s, self.0[i], 2);
            assert(self@.take(i + 1).drop_last() == self@.take(i as int));
            assert(s@ == before + hex_digits(self@[i as int] as nat, 2));
            i = i + 1;
        }
        assert(self@.take(32) == self@);
        s
    }

    /// Parse the text form `b3:<64 hex digits>`; the digits may be of
    /// either case. The length is checked in bytes; any byte of the body that
    /// is not an ASCII hexadecimal digit, a sign or a byte of a multi-byte
    /// character among them, is refused as a non-hex character.
    pub fn try_from(value: String) -> (r: Result<Self, ContentHashParseError>)
        ensures
            match r {
                Ok(h) => parse_hash(encode(value@)) == Ok::<Seq<u8>, ContentHashParseError>(h@),
                Err(e) => parse_hash(encode(value@)) == Err::<Seq<u8>, ContentHashParseError>(e),
            },
    {
        let s = value.as_str();
        let b = s.as_bytes();
        if !(b.len() >= 3 && b[0] == 98 && b[1] == 51 && b[2] == 58) {
            return Err(ContentHashParseError::MissingPrefix);
        }
        if b.len() - 3 != 64 {
            return Err(ContentHashParseError::WrongLength(b.len() - 3));
        }
        let mut out = [0u8; 32];
        let mut i: usize = 0;
        while i < 32
            invariant
                b@ == encode(value@),
                b@.len() == 67,
                has_hash_prefix(b@),
                i <= 32,
                out@.len() == 32,
                forall|k: int| 3 <= k < 3 + 2 * i ==> #[trigger] hex_value(b@[k]) is Some,
                forall|k: int| 0 <= k < i ==> out@[k] == hash_byte(b@, k),
            decreases 32 - i,
        {
            match (hex_digit_value(b[3 + 2 * i]), hex_digit_value(b[4 + 2 * i])) {
                (Some(hi), Some(lo)) => {
                    out[i] = hi * 16 + lo;
                },
                _ => {
                    assert(hex_value(b@[3 + 2 * i]) is None || hex_value(b@[4 + 2 * i]) is None);
                    return Err(ContentHashParseError::NotHex);
                },
            }
            i = i + 1;
        }
        assert(out@ == Seq::new(32, |k: int| hash_byte(b@, k)));
        Ok(ContentHash(out))
    }
}

/// The digits of a byte string, two per byte, most significant first.
proof fn lemma_hex_body(bytes: Seq<u8>)
    ensures
        hex_body(bytes).len() == 2 * bytes.len(),
        forall|i: int|
            0 <= i < bytes.len() ==> hex_body(bytes)[2 * i] == crate::chars::hex_char(
                (bytes[i] / 16) as int,
            ) && hex_body(bytes)[2 * i + 1] == crate::chars::hex_char((bytes[i] % 16) as int),
    decreases bytes.len(),
{
    if bytes.len() > 0 {
        let init = bytes.drop_last();
        lemma_hex_body(init);
        let b = bytes.last();
        let d = hex_digits(b as nat, 2);
        assert(d == seq![crate::chars::hex_char((b / 16) as int), crate::chars::hex_char((b % 16) as int)]) by {
            assert(hex_digits(b as nat / 16, 1) == hex_digits((b as nat / 16) / 16, 0).push(
                crate::chars::hex_char(((b as nat / 16) % 16) as int),
            ));
        }
        assert forall|i: int| 0 <= i < bytes.len() implies hex_body(bytes)[2 * i] == crate::chars::hex_char(
            (bytes[i] / 16) as int,
        ) && hex_body(bytes)[2 * i + 1] == crate::chars::hex_char((bytes[i] % 16) as int) by {
            if i < init.len() {
                assert(bytes[i] == init[i]);
            }
        }
    }
}

/// Law: the text of a content hash parses back to the same hash.
pub proof fn law_hash_text_round_trips(h: ContentHash)
    ensures
        parse_hash(encode(hash_text(h@))) == Ok::<Seq<u8>, ContentHashParseError>(h@),
{
    let t = hash_text(h@);
    lemma_hex_body(h@);
    assert(h@.len() == 32);
    assert(t.len() == 67);
    assert forall|k: int| 0 <= k < 67 implies '\0' <= #[trigger] t[k] <= '\u{7f}' by {
        if k >= 3 {
            let i = (k - 3) / 2;
            assert(0 <= h@[i] / 16 < 16 && 0 <= h@[i] % 16 < 16);
            if (k - 3) % 2 == 0 {
                assert(t[k] == hex_body(h@)[2 * i]);
            } else {
                assert(t[k] == hex_body(h@)[2 * i + 1]);
            }
        }
    }
    assert(vstd::utf8::is_ascii_chars(t));
    vstd::utf8::is_ascii_chars_encode_utf8(t);
    let b = encode(t);
    assert(b.len() == 67);
    assert(t[0] == 'b' && t[1] == '3' && t[2] == ':');
    assert(has_hash_prefix(b));
    assert forall|i: int| 0 <= i < 32 implies #[trigger] hash_byte(b, i) == h@[i]
        && hex_value(b[3 + 2 * i]) is Some && hex_value(b[4 + 2 * i]) is Some by {
        assert(t[3 + 2 * i] == hex_body(h@)[2 * i]);
        assert(t[4 + 2 * i] == hex_body(h@)[2 * i + 1]);
        assert(b[3 + 2 * i] == t[3 + 2 * i] as u8);
        assert(b[4 + 2 * i] == t[4 + 2 * i] as u8);
        crate::chars::lemma_digit_round_trip((h@[i] / 16) as int);
        crate::chars::lemma_digit_round_trip((h@[i] % 16) as int);
    }
    assert forall|k: int| 3 <= k < 67 implies #[trigger] hex_value(b[k]) is Some by {
        let i = (k - 3) / 2;
        assert(hash_byte(b, i) == h@[i]);
    }
    assert(Seq::new(32, |i: int| hash_byte(b, i)) == h@);
}

/// The UTF-8 bytes of a character sequence.
pub open spec fn encode(s: Seq<char>) -> Seq<u8> {
    vstd::utf8::encode_utf8(s)
}

/// Version of a classifier artefact, e.g. `deberta-v3-base-hearsay@7a1c`.
#[derive(Debug, Clone, PartialEq, Eq, Hash)]
pub struct ModelVersion(pub String);

/// Version of the policy ruleset, e.g. `v3@e81f`.
#[derive(Debug, Clone, PartialEq, Eq, Hash)]
pub struct RulesetVersion(pub String);

/// Identifies an OCR engine and its version, e.g. `tesseract@5.3.4`.
#[derive(Debug, Clone, PartialEq, Eq, Hash)]
pub struct EngineId(pub String);

impl ModelVersion {
    /// The displayed form: the version text itself.
    pub fn to_string(&self) -> (s: String)
        ensures
            s@ == self.0@,
    {
        self.0.clone()
    }
}

impl RulesetVersion {
    /// The displayed form: the version text itself.
    pub fn to_string(&self) -> (s: String)
        ensures
            s@ == self.0@,
    {
        self.0.clone()
    }
}

impl EngineId {
    /// The displayed form: the engine text itself.
    pub fn to_string(&self) -> (s: String)
        ensures
            s@ == self.0@,
    {
        self.0.clone()
    }
}

} // verus!
