//! Hexadecimal digits and numbers as text.

use vstd::prelude::*;

verus! {

/// Whether `c` is an ASCII hexadecimal digit of either case.
pub open spec fn is_hex_digit(c: char) -> bool {
    ('0' <= c <= '9') || ('a' <= c <= 'f') || ('A' <= c <= 'F')
}

/// The number that the hexadecimal digit `c` stands for.
pub open spec fn hex_digit_value(c: char) -> int {
    if '0' <= c <= '9' {
        c as int - '0' as int
    } else if 'a' <= c <= 'f' {
        c as int - 'a' as int + 10
    } else {
        c as int - 'A' as int + 10
    }
}

/// The lowercase digit for a number below sixteen.
pub open spec fn lower_hex_digit(d: int) -> char {
    if d < 10 {
        ('0' as int + d) as char
    } else {
        ('a' as int + d - 10) as char
    }
}

/// The uppercase digit for a number below sixteen.
pub open spec fn upper_hex_digit(d: int) -> char {
    if d < 10 {
        ('0' as int + d) as char
    } else {
        ('A' as int + d - 10) as char
    }
}

/// Whether `c` is a hexadecimal digit that is no uppercase letter.
pub open spec fn is_lower_hex_digit(c: char) -> bool {
    ('0' <= c <= '9') || ('a' <= c <= 'f')
}

/// Whether every character of `s` is a digit or a lowercase letter from
/// `a` to `f`.
pub open spec fn is_lower_hex(s: Seq<char>) -> bool {
    forall|i: int| 0 <= i < s.len() ==> is_lower_hex_digit(#[trigger] s[i])
}

/// The lowercase letter for an uppercase ASCII letter; any other character
/// itself.
pub open spec fn ascii_lower(c: char) -> char {
    if 'A' <= c <= 'Z' {
        (c as int - 'A' as int + 'a' as int) as char
    } else {
        c
    }
}

/// The text `s` with its uppercase ASCII letters in lower case.
pub open spec fn ascii_lowercase(s: Seq<char>) -> Seq<char> {
    Seq::new(s.len(), |i: int| ascii_lower(s[i]))
}

/// Whether every character of `s` is a hexadecimal digit.
pub open spec fn all_hex(s: Seq<char>) -> bool {
    forall|i: int| 0 <= i < s.len() ==> is_hex_digit(#[trigger] s[i])
}

/// The number that a sequence of hexadecimal digits writes, most
/// significant digit first.
pub open spec fn hex_number(s: Seq<char>) -> nat
    decreases s.len(),
{
    if s.len() == 0 {
        0
    } else {
        hex_number(s.drop_last()) * 16 + hex_digit_value(s.last()) as nat
    }
}

/// The value of a hexadecimal field of an identifier: one to eight
/// hexadecimal digits and nothing else.
pub open spec fn hex_field(s: Seq<char>) -> Option<u32> {
    if 1 <= s.len() <= 8 && all_hex(s) {
        Some(hex_number(s) as u32)
    } else {
        None
    }
}

/// Sixteen to the power `n`.
pub open spec fn pow16(n: nat) -> nat
    decreases n,
{
    if n == 0 {
        1
    } else {
        16 * pow16((n - 1) as nat)
    }
}

/// The shortest lowercase hexadecimal text of `v`; zero is written `0`.
pub open spec fn lower_hex(v: nat) -> Seq<char>
    decreases v,
{
    if v < 16 {
        seq![lower_hex_digit(v as int)]
    } else {
        lower_hex(v / 16).push(lower_hex_digit((v % 16) as int))
    }
}

/// The last `width` uppercase hexadecimal digits of `v`, with leading zeros.
pub open spec fn upper_hex_padded(v: nat, width: nat) -> Seq<char>
    decreases width,
{
    if width == 0 {
        Seq::empty()
    } else {
        upper_hex_padded(v / 16, (width - 1) as nat).push(upper_hex_digit((v % 16) as int))
    }
}

/// The digit for a number below ten.
pub open spec fn decimal_digit(d: int) -> char {
    ('0' as int + d) as char
}

/// The decimal text of `v`, without leading zeros; zero is written `0`.
pub open spec fn decimal(v: nat) -> Seq<char>
    decreases v,
{
    if v < 10 {
        seq![decimal_digit(v as int)]
    } else {
        decimal(v / 10).push(decimal_digit((v % 10) as int))
    }
}

/// The hexadecimal digit at place `i` of the text of `bytes`: the high half
/// of a byte comes first.
pub open spec fn nibble(bytes: Seq<u8>, i: int) -> int {
    if i % 2 == 0 {
        bytes[i / 2] as int / 16
    } else {
        bytes[i / 2] as int % 16
    }
}

/// Two lowercase hexadecimal digits for each byte, in order.
pub open spec fn bytes_lower_hex(bytes: Seq<u8>) -> Seq<char> {
    Seq::new(2 * bytes.len(), |i: int| lower_hex_digit(nibble(bytes, i)))
}

/// Two uppercase hexadecimal digits for each byte, in order.
pub open spec fn bytes_upper_hex(bytes: Seq<u8>) -> Seq<char> {
    Seq::new(2 * bytes.len(), |i: int| upper_hex_digit(nibble(bytes, i)))
}

/// The bytes that pairs of hexadecimal digits write.
pub open spec fn hex_bytes(digits: Seq<char>) -> Seq<u8> {
    Seq::new(
        digits.len() / 2,
        |i: int| (hex_digit_value(digits[2 * i]) * 16 + hex_digit_value(digits[2 * i + 1])) as u8,
    )
}

/// The powers of sixteen up to the eighth.
pub proof fn lemma_pow16_values()
    ensures
        pow16(0) == 1,
        pow16(1) == 0x10,
        pow16(2) == 0x100,
        pow16(3) == 0x1000,
        pow16(4) == 0x1_0000,
        pow16(5) == 0x10_0000,
        pow16(6) == 0x100_0000,
        pow16(7) == 0x1000_0000,
        pow16(8) == 0x1_0000_0000,
{
    reveal_with_fuel(pow16, 10);
}

/// A sequence of hexadecimal digits writes a number below sixteen to the
/// power of its length.
pub proof fn lemma_hex_number_bound(s: Seq<char>)
    requires
        all_hex(s),
    ensures
        hex_number(s) < pow16(s.len()),
    decreases s.len(),
{
    if s.len() > 0 {
        let init = s.drop_last();
        assert(all_hex(init)) by {
            assert forall|i: int| 0 <= i < init.len() implies is_hex_digit(#[trigger] init[i]) by {
                assert(init[i] == s[i]);
            }
        }
        lemma_hex_number_bound(init);
        assert(is_hex_digit(s.last()));
        assert(0 <= hex_digit_value(s.last()) < 16);
    }
}

/// Appends one character to a string, as `String::push` does.
#[verifier::external_body]
pub(crate) fn push_char(out: &mut String, c: char)
    ensures
        final(out)@ == old(out)@.push(c),
{
    out.push(c)
}

/// The value of an ASCII hexadecimal digit, if `b` is one.
pub(crate) fn hex_digit_of_byte(b: u8) -> (r: Option<u8>)
    ensures
        r is Some <==> b < 128 && is_hex_digit(b as char),
        r matches Some(d) ==> d as int == hex_digit_value(b as char) && d < 16,
{
    if b >= '0' as u8 && b <= '9' as u8 {
        Some(b - '0' as u8)
    } else if b >= 'a' as u8 && b <= 'f' as u8 {
        Some(b - 'a' as u8 + 10)
    } else if b >= 'A' as u8 && b <= 'F' as u8 {
        Some(b - 'A' as u8 + 10)
    } else {
        None
    }
}

/// Reads a hexadecimal field: one to eight hexadecimal digits of either
/// case. A sign, a blank or a ninth digit makes the text invalid.
pub(crate) fn parse_hex_u32(text: &str) -> (r: Option<u32>)
    ensures
        r == hex_field(text@),
{
    if !text.is_ascii() {
        proof {
            if all_hex(text@) {
                let i = choose|i: int| 0 <= i < text@.len() && !('\0' <= #[trigger] text@[i] <= '\u{7f}');
                assert(is_hex_digit(text@[i]));
            }
        }
        return None;
    }
    let bytes = text.as_bytes();
    let n: usize = bytes.len();
    proof {
        vstd::string::is_ascii_spec_bytes(text);
    }
    if n < 1 || n > 8 {
        return None;
    }
    let mut acc: u32 = 0;
    let mut i: usize = 0;
    while i < n
        invariant
            text.is_ascii(),
            n == text@.len(),
            bytes@.len() == n,
            forall|k: int| 0 <= k < n ==> bytes@[k] == text@[k] as u8,
            1 <= n <= 8,
            0 <= i <= n,
            all_hex(text@.subrange(0, i as int)),
            acc as nat == hex_number(text@.subrange(0, i as int)),
        decreases n - i,
    {
        let b: u8 = bytes[i];
        assert(b as char == text@[i as int]);
        let ghost prefix = text@.subrange(0, i as int);
        let ghost next = text@.subrange(0, i as int + 1);
        assert(next.drop_last() =~= prefix);
        assert(next.last() == text@[i as int]);
        match hex_digit_of_byte(b) {
            None => {
                assert(!all_hex(text@));
                return None;
            },
            Some(d) => {
                proof {
                    lemma_hex_number_bound(prefix);
                    lemma_pow16_values();
                    reveal_with_fuel(pow16, 10);
                    assert(pow16(prefix.len()) <= pow16(7)) by {
                        lemma_pow16_monotone(prefix.len(), 7);
                    }
                    assert forall|k: int| 0 <= k < next.len() implies is_hex_digit(#[trigger] next[k]) by {
                        if k < i {
                            assert(prefix[k] == next[k]);
                        }
                    }
                }
                acc = acc * 16 + d as u32;
                i = i + 1;
            },
        }
    }
    assert(text@.subrange(0, i as int) =~= text@);
    Some(acc)
}

/// Sixteen to a power grows with the power.
pub proof fn lemma_pow16_monotone(a: nat, b: nat)
    requires
        a <= b,
    ensures
        1 <= pow16(a) <= pow16(b),
    decreases b,
{
    if b == 0 {
    } else if a == b {
        lemma_pow16_monotone((a - 1) as nat, (b - 1) as nat);
    } else {
        lemma_pow16_monotone(a, (b - 1) as nat);
    }
}

/// Both digits of a number below sixteen are hexadecimal digits that stand
/// for that number; neither is a hyphen, and both are ASCII.
pub proof fn lemma_digit_round_trip(d: int)
    requires
        0 <= d < 16,
    ensures
        is_hex_digit(lower_hex_digit(d)),
        is_hex_digit(upper_hex_digit(d)),
        hex_digit_value(lower_hex_digit(d)) == d,
        hex_digit_value(upper_hex_digit(d)) == d,
{
}

/// The shortest hexadecimal text of a number is made of hexadecimal digits,
/// is not empty and writes that number.
pub proof fn lemma_lower_hex(v: nat)
    ensures
        lower_hex(v).len() >= 1,
        all_hex(lower_hex(v)),
        hex_number(lower_hex(v)) == v,
    decreases v,
{
    let t = lower_hex(v);
    if v < 16 {
        lemma_digit_round_trip(v as int);
        assert(t.drop_last() =~= Seq::<char>::empty());
        assert(hex_number(t.drop_last()) == 0);
    } else {
        lemma_lower_hex(v / 16);
        lemma_digit_round_trip((v % 16) as int);
        assert(t.drop_last() =~= lower_hex(v / 16));
        assert forall|i: int| 0 <= i < t.len() implies is_hex_digit(#[trigger] t[i]) by {
            if i < t.len() - 1 {
                assert(t[i] == lower_hex(v / 16)[i]);
            }
        }
    }
}

/// A number below sixteen to the power `k` has at most `k` hexadecimal
/// digits.
pub proof fn lemma_lower_hex_len(v: nat, k: nat)
    requires
        k >= 1,
        v < pow16(k),
    ensures
        lower_hex(v).len() <= k,
    decreases k,
{
    reveal_with_fuel(pow16, 2);
    if v >= 16 {
        if k == 1 {
            assert(pow16(1) == 16);
        } else {
            lemma_lower_hex_len(v / 16, (k - 1) as nat);
        }
    }
}

/// The padded text has `width` hexadecimal digits, and writes the number
/// where the number is below sixteen to the power `width`.
pub proof fn lemma_upper_hex_padded(v: nat, width: nat)
    ensures
        upper_hex_padded(v, width).len() == width,
        all_hex(upper_hex_padded(v, width)),
        v < pow16(width) ==> hex_number(upper_hex_padded(v, width)) == v,
    decreases width,
{
    let t = upper_hex_padded(v, width);
    if width > 0 {
        let w = (width - 1) as nat;
        lemma_upper_hex_padded(v / 16, w);
        lemma_digit_round_trip((v % 16) as int);
        assert(t.drop_last() =~= upper_hex_padded(v / 16, w));
        assert forall|i: int| 0 <= i < t.len() implies is_hex_digit(#[trigger] t[i]) by {
            if i < t.len() - 1 {
                assert(t[i] == upper_hex_padded(v / 16, w)[i]);
            }
        }
        assert(pow16(width) == 16 * pow16(w));
    }
}

/// The text of a sequence of bytes is made of hexadecimal digits and
/// writes those bytes back, in either case.
pub proof fn lemma_bytes_hex_round_trip(bytes: Seq<u8>)
    ensures
        all_hex(bytes_lower_hex(bytes)),
        all_hex(bytes_upper_hex(bytes)),
        hex_bytes(bytes_lower_hex(bytes)) == bytes,
        hex_bytes(bytes_upper_hex(bytes)) == bytes,
{
    let lower = bytes_lower_hex(bytes);
    let upper = bytes_upper_hex(bytes);
    assert forall|i: int| 0 <= i < 2 * bytes.len() implies is_hex_digit(#[trigger] lower[i])
        && is_hex_digit(#[trigger] upper[i]) by {
        lemma_digit_round_trip(nibble(bytes, i));
    }
    assert forall|j: int| 0 <= j < bytes.len() implies #[trigger] hex_bytes(lower)[j] == bytes[j]
        && hex_bytes(upper)[j] == bytes[j] by {
        lemma_digit_round_trip(nibble(bytes, 2 * j));
        lemma_digit_round_trip(nibble(bytes, 2 * j + 1));
        assert(lower[2 * j] == lower_hex_digit(nibble(bytes, 2 * j)));
        assert(lower[2 * j + 1] == lower_hex_digit(nibble(bytes, 2 * j + 1)));
        assert(upper[2 * j] == upper_hex_digit(nibble(bytes, 2 * j)));
        assert(upper[2 * j + 1] == upper_hex_digit(nibble(bytes, 2 * j + 1)));
    }
    assert(hex_bytes(lower) =~= bytes);
    assert(hex_bytes(upper) =~= bytes);
}

/// The case of a letter changes neither whether it is a hexadecimal digit
/// nor the number it stands for; and a text in lower case is made of
/// hexadecimal digits if and only if the text is.
pub proof fn lemma_lowercase_all_hex(s: Seq<char>)
    ensures
        forall|c: char| is_hex_digit(ascii_lower(c)) == is_hex_digit(c),
        forall|c: char| is_hex_digit(c) ==> hex_digit_value(ascii_lower(c)) == hex_digit_value(c),
        all_hex(ascii_lowercase(s)) == all_hex(s),
{
    let l = ascii_lowercase(s);
    if all_hex(s) {
        assert forall|i: int| 0 <= i < l.len() implies is_hex_digit(#[trigger] l[i]) by {
            assert(is_hex_digit(s[i]));
        }
    }
    if all_hex(l) {
        assert forall|i: int| 0 <= i < s.len() implies is_hex_digit(#[trigger] s[i]) by {
            assert(is_hex_digit(l[i]));
        }
    }
}

/// A hexadecimal field is worth the same in either case.
pub proof fn lemma_lowercase_hex_field(s: Seq<char>)
    ensures
        hex_field(ascii_lowercase(s)) == hex_field(s),
{
    lemma_lowercase_all_hex(s);
    if all_hex(s) {
        lemma_lowercase_hex_number(s);
    }
}

/// A sequence of hexadecimal digits writes the same number in either case.
pub proof fn lemma_lowercase_hex_number(s: Seq<char>)
    requires
        all_hex(s),
    ensures
        hex_number(ascii_lowercase(s)) == hex_number(s),
    decreases s.len(),
{
    if s.len() > 0 {
        let l = ascii_lowercase(s);
        let init = s.drop_last();
        assert(l.drop_last() =~= ascii_lowercase(init));
        assert(all_hex(init)) by {
            assert forall|i: int| 0 <= i < init.len() implies is_hex_digit(#[trigger] init[i]) by {
                assert(init[i] == s[i]);
            }
        }
        lemma_lowercase_hex_number(init);
        assert(is_hex_digit(s.last()));
        assert(l.last() == ascii_lower(s.last()));
    }
}

/// Pairs of hexadecimal digits write the same bytes in either case.
pub proof fn lemma_lowercase_hex_bytes(s: Seq<char>)
    requires
        all_hex(s),
    ensures
        hex_bytes(ascii_lowercase(s)) == hex_bytes(s),
{
    let l = ascii_lowercase(s);
    assert forall|j: int| 0 <= j < s.len() / 2 implies #[trigger] hex_bytes(l)[j] == hex_bytes(
        s,
    )[j] by {
        assert(is_hex_digit(s[2 * j]));
        assert(is_hex_digit(s[2 * j + 1]));
        assert(l[2 * j] == ascii_lower(s[2 * j]));
        assert(l[2 * j + 1] == ascii_lower(s[2 * j + 1]));
    }
    assert(hex_bytes(l) =~= hex_bytes(s));
}

/// The text of a sequence of bytes is lowercase hexadecimal.
pub proof fn lemma_bytes_lower_hex_is_lower_hex(bytes: Seq<u8>)
    ensures
        is_lower_hex(bytes_lower_hex(bytes)),
{
    let text = bytes_lower_hex(bytes);
    assert forall|i: int| 0 <= i < text.len() implies is_lower_hex_digit(#[trigger] text[i]) by {
        let d = nibble(bytes, i);
        assert(0 <= d < 16);
    }
}

/// The shortest hexadecimal text of a number is lowercase hexadecimal.
pub proof fn lemma_lower_hex_is_lower_hex(v: nat)
    ensures
        is_lower_hex(lower_hex(v)),
    decreases v,
{
    let t = lower_hex(v);
    if v >= 16 {
        lemma_lower_hex_is_lower_hex(v / 16);
        assert forall|i: int| 0 <= i < t.len() implies is_lower_hex_digit(#[trigger] t[i]) by {
            if i < t.len() - 1 {
                assert(t[i] == lower_hex(v / 16)[i]);
            }
        }
    }
}

/// A lowercase hexadecimal text holds no uppercase letter.
pub proof fn lemma_lower_hex_text_is_lowercase(s: Seq<char>)
    requires
        forall|i: int| 0 <= i < s.len() ==> #[trigger] s[i] == '-' || is_lower_hex_digit(s[i]),
    ensures
        ascii_lowercase(s) == s,
{
    assert(ascii_lowercase(s) =~= s);
}

/// The lowercase digit for a number below sixteen.
pub(crate) fn lower_hex_char(d: u8) -> (c: char)
    requires
        d < 16,
    ensures
        c == lower_hex_digit(d as int),
{
    if d < 10 {
        ('0' as u8 + d) as char
    } else {
        ('a' as u8 + (d - 10)) as char
    }
}

/// The uppercase digit for a number below sixteen.
pub(crate) fn upper_hex_char(d: u8) -> (c: char)
    requires
        d < 16,
    ensures
        c == upper_hex_digit(d as int),
{
    if d < 10 {
        ('0' as u8 + d) as char
    } else {
        ('A' as u8 + (d - 10)) as char
    }
}

/// Appends the shortest lowercase hexadecimal text of `v`.
pub(crate) fn push_lower_hex(out: &mut String, v: u32)
    ensures
        final(out)@ == old(out)@ + lower_hex(v as nat),
    decreases v,
{
    if v >= 16 {
        push_lower_hex(out, v / 16);
    }
    push_char(out, lower_hex_char((v % 16) as u8));
}

/// Appends the last `width` uppercase hexadecimal digits of `v`.
pub(crate) fn push_upper_hex_padded(out: &mut String, v: u32, width: u32)
    ensures
        final(out)@ == old(out)@ + upper_hex_padded(v as nat, width as nat),
    decreases width,
{
    if width > 0 {
        push_upper_hex_padded(out, v / 16, width - 1);
        push_char(out, upper_hex_char((v % 16) as u8));
    }
}

/// Appends the decimal text of `v`.
pub(crate) fn push_decimal(out: &mut String, v: u32)
    ensures
        final(out)@ == old(out)@ + decimal(v as nat),
    decreases v,
{
    if v >= 10 {
        push_decimal(out, v / 10);
    }
    push_char(out, ('0' as u8 + (v % 10) as u8) as char);
}

/// Appends two lowercase hexadecimal digits for each byte.
pub(crate) fn push_bytes_lower_hex(out: &mut String, bytes: &[u8])
    ensures
        final(out)@ == old(out)@ + bytes_lower_hex(bytes@),
{
    let mut i: usize = 0;
    while i < bytes.len()
        invariant
            0 <= i <= bytes.len(),
            out@ == old(out)@ + bytes_lower_hex(bytes@.subrange(0, i as int)),
        decreases bytes.len() - i,
    {
        let b: u8 = bytes[i];
        let ghost before = out@;
        push_char(out, lower_hex_char(b / 16));
        push_char(out, lower_hex_char(b % 16));
        proof {
            let done = bytes@.subrange(0, i as int);
            let next = bytes@.subrange(0, i as int + 1);
            assert(bytes_lower_hex(next) =~= bytes_lower_hex(done).push(
                lower_hex_digit(b as int / 16),
            ).push(lower_hex_digit(b as int % 16)));
        }
        i = i + 1;
    }
    assert(bytes@.subrange(0, i as int) =~= bytes@);
}

} // verus!
