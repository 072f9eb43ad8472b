//! The calls this library makes into std and into outside crates, each with
//! the contract that the called code's documentation or source gives it.
//! Nothing here is proved: every other module is proved against these.

use vstd::prelude::*;

use crate::chars::{ascii_lower, hex_digits};

verus! {

/// The lowercase form of a string, as `str::to_lowercase` computes it from the
/// Unicode case tables of the standard library.
pub uninterp spec fn lowercase_of(s: Seq<char>) -> Seq<char>;

/// The `Debug` rendering of a string slice: the text between double quotes,
/// with the characters that `char::escape_debug` escapes escaped.
pub uninterp spec fn debug_quoted(s: Seq<char>) -> Seq<char>;

/// The 32-byte BLAKE3 hash of a byte string.
pub uninterp spec fn blake3_of(bytes: Seq<u8>) -> Seq<u8>;

/// The standard hyphenated lowercase text of a UUID given as its 128-bit
/// big-endian value: `8-4-4-4-12` hexadecimal digits.
pub open spec fn uuid_hyphenated(v: u128) -> Seq<char> {
    let n = v as nat;
    hex_digits(n / 0x1_0000_0000_0000_0000_0000_0000, 8) + seq!['-']
        + hex_digits(n / 0x1_0000_0000_0000_0000_0000, 4) + seq!['-']
        + hex_digits(n / 0x1_0000_0000_0000_0000, 4) + seq!['-']
        + hex_digits(n / 0x1_0000_0000_0000, 4) + seq!['-']
        + hex_digits(n, 12)
}

/// `uuid::Uuid::new_v4`, taken as its 128-bit value: a random UUID whose
/// version field (bits 76 to 79) is 4 and whose variant bits (63 and 62)
/// are `10`. Nothing else is
/// claimed of the value; two calls may return anything.
#[verifier::external_body]
pub(crate) fn random_uuid_v4() -> (v: u128)
    ensures
        (v as nat / 0x1000_0000_0000_0000_0000) % 16 == 4,
        (v as nat / 0x4000_0000_0000_0000) % 4 == 2,
{
    uuid::Uuid::new_v4().as_u128()
}

/// `Display` of `uuid::Uuid` (through `Uuid::from_u128`): the hyphenated
/// lowercase text of the value.
#[verifier::external_body]
pub(crate) fn uuid_text(v: u128) -> (s: String)
    ensures
        s@ == uuid_hyphenated(v),
{
    uuid::Uuid::from_u128(v).to_string()
}

/// `blake3::hash`: the BLAKE3 hash of the input, as its 32 bytes.
#[verifier::external_body]
pub(crate) fn blake3_hash(bytes: &[u8]) -> (h: [u8; 32])
    ensures
        h@ == blake3_of(bytes@),
{
    *blake3::hash(bytes).as_bytes()
}

/// `str::to_lowercase`: the lowercase form by the Unicode case mappings.
/// Of ASCII text the documentation's terms fix the whole result: each of
/// `A` to `Z` maps to its letter in `a` to `z`, and every other ASCII
/// character has no lowercase mapping and stays as it is. Of other text
/// nothing is claimed beyond the name.
#[verifier::external_body]
pub(crate) fn to_lowercase(s: &str) -> (r: String)
    ensures
        r@ == lowercase_of(s@),
        vstd::utf8::is_ascii_chars(s@) ==> r@ == ascii_lower(s@),
{
    s.to_lowercase()
}

/// `String::push`: appends one character.
#[verifier::external_body]
pub(crate) fn push_char(s: &mut String, c: char)
    ensures
        final(s)@ == old(s)@.push(c),
{
    s.push(c);
}

/// `Debug` formatting of a string slice (`format!("{s:?}")`). Where every
/// character is printable ASCII other than `"` and `\`, the result is the
/// text between double quotes.
#[verifier::external_body]
pub(crate) fn debug_text(s: &str) -> (r: String)
    ensures
        r@ == debug_quoted(s@),
        (forall|i: int| 0 <= i < s@.len() ==> ' ' <= #[trigger] s@[i] <= '~' && s@[i] != '"'
            && s@[i] != '\\') ==> r@ == seq!['"'] + s@ + seq!['"'],
{
    format!("{s:?}")
}

} // verus!
