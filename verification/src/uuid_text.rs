//! The text forms of a 128-bit UUID, read and written by the `uuid` crate.
//!
//! A UUID is held here as its sixteen bytes in big-endian order. The spec
//! functions of this module say what the two text forms used by the
//! identifiers are; the three functions at the end call the `uuid` crate and
//! are taken on trust to meet them.

use crate::hex::{
    all_hex, bytes_lower_hex, bytes_upper_hex, hex_bytes, is_lower_hex_digit,
    lemma_bytes_hex_round_trip, lemma_bytes_lower_hex_is_lower_hex,
};
use vstd::prelude::*;

verus! {

/// Thirty-two digits set out in groups of 8, 4, 4, 4 and 12 with a hyphen
/// between two groups.
pub open spec fn hyphenate(digits: Seq<char>) -> Seq<char> {
    digits.subrange(0, 8) + seq!['-'] + digits.subrange(8, 12) + seq!['-'] + digits.subrange(
        12,
        16,
    ) + seq!['-'] + digits.subrange(16, 20) + seq!['-'] + digits.subrange(20, 32)
}

/// The hyphenated lowercase form of a UUID: 36 characters.
pub open spec fn uuid_hyphenated_lower(bytes: Seq<u8>) -> Seq<char> {
    hyphenate(bytes_lower_hex(bytes))
}

/// The compact uppercase form of a UUID: 32 characters.
pub open spec fn uuid_simple_upper(bytes: Seq<u8>) -> Seq<char> {
    bytes_upper_hex(bytes)
}

/// The thirty-two characters in the digit places of a UUID text: all of a
/// text of 32 characters, and what stands around the four hyphens of a text
/// of 36 characters. A text of another shape has none.
pub open spec fn uuid_digits(text: Seq<char>) -> Option<Seq<char>> {
    if text.len() == 32 {
        Some(text)
    } else if text.len() == 36 && text[8] == '-' && text[13] == '-' && text[18] == '-' && text[23]
        == '-' {
        Some(
            text.subrange(0, 8) + text.subrange(9, 13) + text.subrange(14, 18) + text.subrange(
                19,
                23,
            ) + text.subrange(24, 36),
        )
    } else {
        None
    }
}

/// The bytes of the UUID that a text of 32 or 36 characters writes, in
/// digits of either case.
pub open spec fn uuid_text_value(text: Seq<char>) -> Option<Seq<u8>> {
    match uuid_digits(text) {
        Some(digits) => if all_hex(digits) {
            Some(hex_bytes(digits))
        } else {
            None
        },
        None => None,
    }
}

/// The place in the hyphenated text of the digit at place `i` of 32.
pub open spec fn hyphenated_place(i: int) -> int {
    if i < 8 {
        i
    } else if i < 12 {
        i + 1
    } else if i < 16 {
        i + 2
    } else if i < 20 {
        i + 3
    } else {
        i + 4
    }
}

/// Setting thirty-two digits out with hyphens gives 36 characters: hyphens
/// at places 8, 13, 18 and 23, and the digits in order at the other places.
pub proof fn lemma_hyphenate_places(digits: Seq<char>)
    requires
        digits.len() == 32,
    ensures
        hyphenate(digits).len() == 36,
        hyphenate(digits)[8] == '-',
        hyphenate(digits)[13] == '-',
        hyphenate(digits)[18] == '-',
        hyphenate(digits)[23] == '-',
        forall|i: int| 0 <= i < 32 ==> hyphenate(digits)[hyphenated_place(i)] == #[trigger] digits[i],
{
    let h = seq!['-'];
    let t9 = digits.subrange(0, 8) + h;
    let t14 = t9 + digits.subrange(8, 12) + h;
    let t19 = t14 + digits.subrange(12, 16) + h;
    let t24 = t19 + digits.subrange(16, 20) + h;
    let t36 = t24 + digits.subrange(20, 32);
    assert(hyphenate(digits) == t36);
    assert(t9.len() == 9 && t9[8] == '-');
    assert(t14.len() == 14 && t14[8] == '-' && t14[13] == '-');
    assert(t19.len() == 19 && t19[8] == '-' && t19[13] == '-' && t19[18] == '-');
    assert(t24.len() == 24 && t24[8] == '-' && t24[13] == '-' && t24[18] == '-' && t24[23] == '-');
    assert(t36.len() == 36 && t36[8] == '-' && t36[13] == '-' && t36[18] == '-' && t36[23] == '-');
    assert forall|i: int| 0 <= i < 32 implies t36[hyphenated_place(i)] == #[trigger] digits[i] by {
        if i < 8 {
            assert(t9[i] == digits[i]);
            assert(t14[i] == t9[i]);
            assert(t19[i] == t14[i]);
            assert(t24[i] == t19[i]);
        } else if i < 12 {
            assert(t14[i + 1] == digits.subrange(8, 12)[i - 8]);
            assert(t19[i + 1] == t14[i + 1]);
            assert(t24[i + 1] == t19[i + 1]);
        } else if i < 16 {
            assert(t19[i + 2] == digits.subrange(12, 16)[i - 12]);
            assert(t24[i + 2] == t19[i + 2]);
        } else if i < 20 {
            assert(t24[i + 3] == digits.subrange(16, 20)[i - 16]);
        } else {
            assert(t36[i + 4] == digits.subrange(20, 32)[i - 20]);
        }
    }
}

/// The digit places of a hyphenated text hold the digits it was made of.
pub proof fn lemma_hyphenate_digits(digits: Seq<char>)
    requires
        digits.len() == 32,
    ensures
        uuid_digits(hyphenate(digits)) == Some(digits),
{
    lemma_hyphenate_places(digits);
    let text = hyphenate(digits);
    let d8 = text.subrange(0, 8);
    let d12 = d8 + text.subrange(9, 13);
    let d16 = d12 + text.subrange(14, 18);
    let d20 = d16 + text.subrange(19, 23);
    let d32 = d20 + text.subrange(24, 36);
    assert(uuid_digits(text) == Some(d32));
    assert(d32.len() == 32);
    assert forall|i: int| 0 <= i < 32 implies d32[i] == digits[i] by {
        assert(text[hyphenated_place(i)] == digits[i]);
        if i < 8 {
            assert(d8[i] == text[i]);
            assert(d12[i] == d8[i]);
            assert(d16[i] == d12[i]);
            assert(d20[i] == d16[i]);
        } else if i < 12 {
            assert(d12[i] == text.subrange(9, 13)[i - 8]);
            assert(d16[i] == d12[i]);
            assert(d20[i] == d16[i]);
        } else if i < 16 {
            assert(d16[i] == text.subrange(14, 18)[i - 12]);
            assert(d20[i] == d16[i]);
        } else if i < 20 {
            assert(d20[i] == text.subrange(19, 23)[i - 16]);
        } else {
            assert(d32[i] == text.subrange(24, 36)[i - 20]);
        }
    }
    assert(d32 =~= digits);
}

/// Both text forms of a UUID write its bytes back. The hyphenated form has
/// a hyphen at place 8, the compact form a digit; the hyphenated form holds
/// hyphens, digits and lowercase letters only.
pub proof fn lemma_uuid_text_round_trip(bytes: Seq<u8>)
    requires
        bytes.len() == 16,
    ensures
        uuid_hyphenated_lower(bytes).len() == 36,
        uuid_hyphenated_lower(bytes)[8] == '-',
        uuid_text_value(uuid_hyphenated_lower(bytes)) == Some(bytes),
        uuid_simple_upper(bytes).len() == 32,
        all_hex(uuid_simple_upper(bytes)),
        uuid_text_value(uuid_simple_upper(bytes)) == Some(bytes),
        forall|i: int|
            0 <= i < 36 ==> {
                let c = #[trigger] uuid_hyphenated_lower(bytes)[i];
                c == '-' || is_lower_hex_digit(c)
            },
{
    lemma_bytes_hex_round_trip(bytes);
    lemma_bytes_lower_hex_is_lower_hex(bytes);
    let digits = bytes_lower_hex(bytes);
    let text = uuid_hyphenated_lower(bytes);
    lemma_hyphenate_places(digits);
    lemma_hyphenate_digits(digits);
    assert forall|i: int| 0 <= i < 36 implies {
        let c = #[trigger] text[i];
        c == '-' || is_lower_hex_digit(c)
    } by {
        if i < 8 {
            assert(text[hyphenated_place(i)] == digits[i]);
        } else if i == 8 {
        } else if i < 13 {
            assert(text[hyphenated_place(i - 1)] == digits[i - 1]);
        } else if i == 13 {
        } else if i < 18 {
            assert(text[hyphenated_place(i - 2)] == digits[i - 2]);
        } else if i == 18 {
        } else if i < 23 {
            assert(text[hyphenated_place(i - 3)] == digits[i - 3]);
        } else if i == 23 {
        } else {
            assert(text[hyphenated_place(i - 4)] == digits[i - 4]);
        }
    }
}

/// Reads a UUID from a text of 32 or 36 ASCII characters with
/// `uuid::Uuid::parse_str`. On a text of 32 characters the call succeeds
/// where all of them are hexadecimal digits; on one of 36 characters, where
/// hyphens stand at places 8, 13, 18 and 23 and hexadecimal digits at the
/// other places. Two digits make one byte, the high half first.
#[verifier::external_body]
pub(crate) fn parse_uuid(text: &str) -> (r: Option<[u8; 16]>)
    requires
        text.is_ascii(),
        text@.len() == 32 || text@.len() == 36,
    ensures
        r matches Some(bytes) ==> uuid_text_value(text@) == Some(bytes@),
        r is None ==> uuid_text_value(text@) is None,
{
    match uuid::Uuid::parse_str(text) {
        Ok(uuid) => Some(*uuid.as_bytes()),
        Err(_) => None,
    }
}

/// Writes a UUID as `uuid::Uuid` displays it: lowercase hexadecimal digits
/// in groups of 8, 4, 4, 4 and 12 with hyphens between them.
#[verifier::external_body]
pub(crate) fn format_hyphenated_lower(bytes: &[u8; 16]) -> (r: String)
    ensures
        r@ == uuid_hyphenated_lower(bytes@),
{
    format!("{}", uuid::Uuid::from_bytes(*bytes))
}

/// Writes a UUID as the simple form of the `uuid` crate
/// (`uuid::Uuid::to_simple_ref`) prints it in upper case: thirty-two
/// uppercase hexadecimal digits and no hyphen.
#[verifier::external_body]
pub(crate) fn format_simple_upper(bytes: &[u8; 16]) -> (r: String)
    ensures
        r@ == uuid_simple_upper(bytes@),
{
    format!("{:X}", uuid::Uuid::from_bytes(*bytes).to_simple_ref())
}

} // verus!
