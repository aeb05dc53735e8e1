//! Identifiers are 128-bit values; their text form is the hyphenated UUID.
use vstd::prelude::*;
use vstd::arithmetic::power::pow;

verus! {

/// The identifier that a text denotes, if it is a well-formed UUID.
pub uninterp spec fn uuid_value(s: Seq<char>) -> Option<u128>;

/// The lowercase hexadecimal digit of a value below sixteen.
pub open spec fn hex_digit(n: int) -> char {
    seq!['0', '1', '2', '3', '4', '5', '6', '7', '8', '9', 'a', 'b', 'c', 'd', 'e', 'f'][n]
}

/// How many of the 32 hex digits precede text position `i` (0 <= i < 36) of
/// the hyphenated form, whose hyphens stand at 8, 13, 18 and 23.
pub open spec fn digits_before(i: int) -> int {
    if i < 8 {
        i
    } else if i < 13 {
        i - 1
    } else if i < 18 {
        i - 2
    } else if i < 23 {
        i - 3
    } else {
        i - 4
    }
}

/// Hex digit `k` of an identifier, the most significant first.
pub open spec fn nibble(v: u128, k: int) -> int {
    (v as int / pow(16, (31 - k) as nat)) % 16
}

/// The canonical text of an identifier: its 32 lowercase hex digits, most
/// significant first, with hyphens at positions 8, 13, 18 and 23.
pub open spec fn uuid_text(v: u128) -> Seq<char> {
    Seq::new(
        36,
        |i: int|
            if i == 8 || i == 13 || i == 18 || i == 23 {
                '-'
            } else {
                hex_digit(nibble(v, digits_before(i)))
            },
    )
}

/// Relies on `uuid::Uuid::parse_str`: the identifier that the text denotes,
/// or `None` when the text is no UUID; an empty text is never one.
#[verifier::external_body]
pub(crate) fn parse_id(s: &str) -> (r: Option<u128>)
    ensures
        r == uuid_value(s@),
        s@.len() == 0 ==> r is None,
{
    match uuid::Uuid::parse_str(s) {
        Ok(u) => Some(u.as_u128()),
        Err(_) => None,
    }
}

/// Relies on `uuid::Uuid::from_u128` (big-endian bytes) and its `Display`,
/// the hyphenated lowercase hex text, which `Uuid::parse_str` reads back as
/// the same identifier.
#[verifier::external_body]
pub(crate) fn id_text(v: u128) -> (r: String)
    ensures
        r@ == uuid_text(v),
        uuid_value(r@) == Some(v),
{
    uuid::Uuid::from_u128(v).to_string()
}

} // verus!
