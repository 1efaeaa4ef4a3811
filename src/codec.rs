//! Text encodings of binary data: hexadecimal, base32 and base64.
use base64::Engine;
use vstd::prelude::*;

verus! {

/// Whether `c` is a hexadecimal digit, in either case.
pub open spec fn is_hex_digit(c: char) -> bool {
    ('0' <= c && c <= '9') || ('a' <= c && c <= 'f') || ('A' <= c && c <= 'F')
}

/// The value of the hexadecimal digit `c`.
pub open spec fn hex_value(c: char) -> int {
    if '0' <= c && c <= '9' {
        c as int - '0' as int
    } else if 'a' <= c && c <= 'f' {
        c as int - 'a' as int + 10
    } else {
        c as int - 'A' as int + 10
    }
}

/// Whether `s` is a well-formed hexadecimal text: an even number of digits.
pub open spec fn is_hex_text(s: Seq<char>) -> bool {
    s.len() % 2 == 0 && forall|i: int| 0 <= i < s.len() ==> is_hex_digit(#[trigger] s[i])
}

/// The bytes that the well-formed hexadecimal text `s` spells, two digits each.
pub open spec fn hex_bytes(s: Seq<char>) -> Seq<u8> {
    Seq::new(
        (s.len() / 2) as nat,
        |i: int| (16 * hex_value(s[2 * i]) + hex_value(s[2 * i + 1])) as u8,
    )
}

/// What `base32::decode` with the RFC 4648 alphabet, unpadded, makes of a text.
pub uninterp spec fn base32_decoded(s: Seq<char>) -> Option<Seq<u8>>;

/// What the standard base64 alphabet, with optional padding, makes of a text.
pub uninterp spec fn base64_decoded(s: Seq<char>) -> Option<Seq<u8>>;

/// Relies on `hex::decode`: it accepts a text of an even number of hexadecimal
/// digits of either case, and gives one byte for each pair, high digit first.
#[verifier::external_body]
pub fn decode_hex(s: &str) -> (r: Option<Vec<u8>>)
    ensures
        r is Some <==> is_hex_text(s@),
        r matches Some(b) ==> b@ == hex_bytes(s@),
{
    hex::decode(s).ok()
}

/// Relies on `base32::decode` with the RFC 4648 alphabet and no padding.
#[verifier::external_body]
pub fn decode_base32(s: &str) -> (r: Option<Vec<u8>>)
    ensures
        r matches Some(b) ==> base32_decoded(s@) == Some(b@),
        r is None ==> base32_decoded(s@) is None,
{
    base32::decode(base32::Alphabet::RFC4648 { padding: false }, s)
}

/// Relies on `base64::engine::GeneralPurpose::decode` with the standard
/// alphabet, padding optional.
#[verifier::external_body]
pub fn decode_base64(s: &str) -> (r: Option<Vec<u8>>)
    ensures
        r matches Some(b) ==> base64_decoded(s@) == Some(b@),
        r is None ==> base64_decoded(s@) is None,
{
    let config = base64::engine::GeneralPurposeConfig::new()
        .with_decode_padding_mode(base64::engine::DecodePaddingMode::Indifferent);
    base64::engine::GeneralPurpose::new(&base64::alphabet::STANDARD, config).decode(s).ok()
}

} // verus!
