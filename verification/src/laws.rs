//! What holds of the text forms and the grammars together.

use crate::debug_id::{
    appendix_text, breakpad_head, breakpad_options, breakpad_text, default_head, default_text,
    general_options, in_legacy_window, is_hyphenated, legacy_value, lemma_view_wf, parse_text,
    uuid_form_value, uuid_prefix_len, DebugId, DebugIdView, IdentifierView, ParseOptions,
};
use crate::hex::{
    all_hex, ascii_lower, ascii_lowercase, hex_field, is_hex_digit, is_lower_hex_digit,
    lemma_lower_hex, lemma_lower_hex_is_lower_hex, lemma_lower_hex_len,
    lemma_lower_hex_text_is_lowercase, lemma_lowercase_all_hex, lemma_lowercase_hex_bytes,
    lemma_lowercase_hex_field, lemma_pow16_values, lemma_upper_hex_padded, lower_hex,
    upper_hex_padded,
};
use crate::uuid_text::{
    lemma_uuid_text_round_trip, uuid_digits, uuid_hyphenated_lower, uuid_simple_upper,
    uuid_text_value,
};
use vstd::prelude::*;
use vstd::utf8::is_ascii_chars;

verus! {

/// Whether `c` can occur in a text form: a hexadecimal digit or a hyphen.
pub open spec fn is_form_char(c: char) -> bool {
    c == '-' || is_hex_digit(c)
}

/// Whether every character of `s` is a hexadecimal digit or a hyphen.
pub open spec fn is_form_text(s: Seq<char>) -> bool {
    forall|i: int| 0 <= i < s.len() ==> is_form_char(#[trigger] s[i])
}

/// A text of hexadecimal digits and hyphens is ASCII.
proof fn lemma_form_text_is_ascii(s: Seq<char>)
    requires
        is_form_text(s),
    ensures
        is_ascii_chars(s),
{
    assert forall|i: int| 0 <= i < s.len() implies '\0' <= #[trigger] s[i] <= '\u{7f}' by {
        assert(is_form_char(s[i]));
    }
}

/// The appendix in lowercase digits is a hexadecimal field worth the
/// appendix.
proof fn lemma_appendix_field(appendix: u32)
    ensures
        1 <= lower_hex(appendix as nat).len() <= 8,
        all_hex(lower_hex(appendix as nat)),
        hex_field(lower_hex(appendix as nat)) == Some(appendix),
{
    lemma_lower_hex(appendix as nat);
    lemma_pow16_values();
    lemma_lower_hex_len(appendix as nat, 8);
}

/// The timestamp in eight uppercase digits is a hexadecimal field worth
/// the timestamp.
proof fn lemma_timestamp_field(timestamp: u32)
    ensures
        upper_hex_padded(timestamp as nat, 8).len() == 8,
        all_hex(upper_hex_padded(timestamp as nat, 8)),
        hex_field(upper_hex_padded(timestamp as nat, 8)) == Some(timestamp),
{
    lemma_pow16_values();
    lemma_upper_hex_padded(timestamp as nat, 8);
}

/// The default form of a UUID with an appendix is read back under the
/// general grammar.
proof fn lemma_default_round_trip_uuid(bytes: Seq<u8>, appendix: u32)
    requires
        bytes.len() == 16,
    ensures
        parse_text(default_text(DebugIdView::from_parts(bytes, appendix)), general_options())
            == Some(DebugIdView::from_parts(bytes, appendix)),
{
    let v = DebugIdView::from_parts(bytes, appendix);
    let options = general_options();
    let head = uuid_hyphenated_lower(bytes);
    let tail = lower_hex(appendix as nat);
    let t = default_text(v);
    lemma_uuid_text_round_trip(bytes);
    lemma_appendix_field(appendix);
    assert(default_head(v.id) == head);
    if appendix == 0 {
        assert(t == head);
        assert(t.subrange(0, 36) =~= head);
        assert(is_form_text(t));
        lemma_form_text_is_ascii(t);
        assert(is_hyphenated(t));
        assert(!in_legacy_window(t));
        assert(uuid_form_value(t, options) == Some(v));
    } else {
        assert(t == head + seq!['-'] + tail);
        assert(t.len() == 37 + tail.len());
        assert forall|i: int| 0 <= i < t.len() implies is_form_char(#[trigger] t[i]) by {
            if i < 36 {
                assert(t[i] == head[i]);
            } else if i == 36 {
            } else {
                assert(t[i] == tail[i - 37]);
            }
        }
        lemma_form_text_is_ascii(t);
        assert(t[8] == head[8]);
        assert(is_hyphenated(t));
        assert(!in_legacy_window(t));
        assert(t.subrange(0, 36) =~= head);
        assert(t[36] == '-');
        assert(t.subrange(37, t.len() as int) =~= tail);
        assert(appendix_text(t, options.allow_tail) == tail);
        assert(uuid_form_value(t, options) == Some(v));
    }
}

/// The default form of a timestamp with an appendix that is not zero is
/// read back under the general grammar.
proof fn lemma_default_round_trip_legacy(timestamp: u32, appendix: u32)
    requires
        appendix != 0,
    ensures
        parse_text(
            default_text(DebugIdView::from_timestamp_age(timestamp, appendix)),
            general_options(),
        ) == Some(DebugIdView::from_timestamp_age(timestamp, appendix)),
{
    let v = DebugIdView::from_timestamp_age(timestamp, appendix);
    let head = upper_hex_padded(timestamp as nat, 8);
    let tail = lower_hex(appendix as nat);
    let t = default_text(v);
    lemma_timestamp_field(timestamp);
    lemma_appendix_field(appendix);
    assert(t == head + seq!['-'] + tail);
    assert(t.len() == 9 + tail.len());
    assert forall|i: int| 0 <= i < t.len() implies is_form_char(#[trigger] t[i]) by {
        if i < 8 {
            assert(t[i] == head[i]);
        } else if i == 8 {
        } else {
            assert(t[i] == tail[i - 9]);
        }
    }
    lemma_form_text_is_ascii(t);
    assert(t[8] == '-');
    assert(is_hyphenated(t));
    assert(in_legacy_window(t));
    assert(t.subrange(0, 8) =~= head);
    assert(t.subrange(9, t.len() as int) =~= tail);
    assert(legacy_value(t) == Some(v));
}

/// The Breakpad form of a UUID with an appendix is read back under the
/// Breakpad grammar.
proof fn lemma_breakpad_round_trip_uuid(bytes: Seq<u8>, appendix: u32)
    requires
        bytes.len() == 16,
    ensures
        parse_text(breakpad_text(DebugIdView::from_parts(bytes, appendix)), breakpad_options())
            == Some(DebugIdView::from_parts(bytes, appendix)),
{
    let v = DebugIdView::from_parts(bytes, appendix);
    let options = breakpad_options();
    let head = uuid_simple_upper(bytes);
    let tail = lower_hex(appendix as nat);
    let t = breakpad_text(v);
    lemma_uuid_text_round_trip(bytes);
    lemma_appendix_field(appendix);
    assert(t == head + tail);
    assert(t.len() == 32 + tail.len());
    assert forall|i: int| 0 <= i < t.len() implies is_hex_digit(#[trigger] t[i]) by {
        if i < 32 {
            assert(t[i] == head[i]);
        } else {
            assert(t[i] == tail[i - 32]);
        }
    }
    assert(is_form_text(t));
    lemma_form_text_is_ascii(t);
    assert(is_hex_digit(t[8]));
    assert(!is_hyphenated(t));
    assert(!in_legacy_window(t));
    assert(t.subrange(0, 32) =~= head);
    assert(is_hex_digit(t[32]));
    assert(t.subrange(32, t.len() as int) =~= tail);
    assert(appendix_text(t, options.allow_tail) == tail);
    assert(uuid_form_value(t, options) == Some(v));
}

/// The Breakpad form of a timestamp with an appendix is read back under
/// the Breakpad grammar.
proof fn lemma_breakpad_round_trip_legacy(timestamp: u32, appendix: u32)
    ensures
        parse_text(
            breakpad_text(DebugIdView::from_timestamp_age(timestamp, appendix)),
            breakpad_options(),
        ) == Some(DebugIdView::from_timestamp_age(timestamp, appendix)),
{
    let v = DebugIdView::from_timestamp_age(timestamp, appendix);
    let head = upper_hex_padded(timestamp as nat, 8);
    let tail = lower_hex(appendix as nat);
    let t = breakpad_text(v);
    lemma_timestamp_field(timestamp);
    lemma_appendix_field(appendix);
    assert(t == head + tail);
    assert(t.len() == 8 + tail.len());
    assert forall|i: int| 0 <= i < t.len() implies is_hex_digit(#[trigger] t[i]) by {
        if i < 8 {
            assert(t[i] == head[i]);
        } else {
            assert(t[i] == tail[i - 8]);
        }
    }
    assert(is_form_text(t));
    lemma_form_text_is_ascii(t);
    assert(is_hex_digit(t[8]));
    assert(!is_hyphenated(t));
    assert(in_legacy_window(t));
    assert(t.subrange(0, 8) =~= head);
    assert(t.subrange(8, t.len() as int) =~= tail);
    assert(legacy_value(t) == Some(v));
}

/// Reading the default form of an identifier under the general grammar
/// gives the identifier back. A timestamp with appendix zero is left out:
/// its default form has eight characters, which no grammar accepts.
pub proof fn lemma_default_round_trip(v: DebugIdView)
    requires
        v.wf(),
        !(v.is_pdb20() && v.appendix == 0),
    ensures
        parse_text(default_text(v), general_options()) == Some(v),
{
    match v.id {
        IdentifierView::Pdb20(timestamp) => {
            lemma_default_round_trip_legacy(timestamp, v.appendix);
        },
        IdentifierView::Uuid(bytes) => {
            lemma_default_round_trip_uuid(bytes, v.appendix);
        },
    }
}

/// Reading the Breakpad form of an identifier under the Breakpad grammar
/// gives the identifier back.
pub proof fn lemma_breakpad_round_trip(v: DebugIdView)
    requires
        v.wf(),
    ensures
        parse_text(breakpad_text(v), breakpad_options()) == Some(v),
{
    match v.id {
        IdentifierView::Pdb20(timestamp) => {
            lemma_breakpad_round_trip_legacy(timestamp, v.appendix);
        },
        IdentifierView::Uuid(bytes) => {
            lemma_breakpad_round_trip_uuid(bytes, v.appendix);
        },
    }
}

/// Every identifier is read back from its Breakpad form and, but for a
/// timestamp with appendix zero, from its default form.
pub proof fn lemma_identifier_round_trip(id: DebugId)
    ensures
        parse_text(breakpad_text(id@), breakpad_options()) == Some(id@),
        !(id@.is_pdb20() && id@.appendix == 0) ==> parse_text(
            default_text(id@),
            general_options(),
        ) == Some(id@),
{
    lemma_view_wf(id);
    lemma_breakpad_round_trip(id@);
    if !(id@.is_pdb20() && id@.appendix == 0) {
        lemma_default_round_trip(id@);
    }
}

/// The default form of a timestamp with appendix zero is read by neither
/// grammar.
pub proof fn lemma_bare_timestamp_is_not_read(timestamp: u32, options: ParseOptions)
    ensures
        parse_text(default_text(DebugIdView::from_timestamp_age(timestamp, 0)), options) is None,
{
    lemma_timestamp_field(timestamp);
}

/// No text has a length for a timestamp with an age and also room for a
/// UUID: a text that is read as a timestamp has at most 17 characters, one
/// that is read as a UUID at least 32, and the length alone decides which
/// of the two a text can be.
pub proof fn lemma_forms_disjoint(s: Seq<char>, options: ParseOptions)
    ensures
        !(in_legacy_window(s) && s.len() >= uuid_prefix_len(s)),
        parse_text(s, options) matches Some(v) ==> (v.is_pdb20() <==> in_legacy_window(s)),
        parse_text(s, options) matches Some(v) ==> (v.is_pdb20() ==> 9 <= s.len() <= 17),
        parse_text(s, options) matches Some(v) ==> (!v.is_pdb20() ==> s.len() >= 32),
{
}

/// The default form leaves the appendix out if and only if it is zero;
/// the Breakpad form never leaves it out.
pub proof fn lemma_appendix_suppression(v: DebugIdView)
    ensures
        v.appendix == 0 <==> default_text(v) == default_head(v.id),
        v.appendix != 0 ==> default_text(v) == default_head(v.id) + seq!['-'] + lower_hex(
            v.appendix as nat,
        ),
        breakpad_text(v) == breakpad_head(v.id) + lower_hex(v.appendix as nat),
        lower_hex(v.appendix as nat).len() >= 1,
        breakpad_text(v).len() > breakpad_head(v.id).len(),
{
    lemma_lower_hex(v.appendix as nat);
    if v.appendix != 0 {
        assert(default_text(v).len() == default_head(v.id).len() + 1 + lower_hex(
            v.appendix as nat,
        ).len());
    }
}

/// A part of a text in lower case is that part of the text, in lower case.
proof fn lemma_lowercase_subrange(s: Seq<char>, from: int, to: int)
    requires
        0 <= from <= to <= s.len(),
    ensures
        ascii_lowercase(s).subrange(from, to) == ascii_lowercase(s.subrange(from, to)),
{
    assert(ascii_lowercase(s).subrange(from, to) =~= ascii_lowercase(s.subrange(from, to)));
}

/// A text of 32 or 36 characters writes the same UUID in either case.
proof fn lemma_lowercase_uuid_text(s: Seq<char>)
    ensures
        uuid_text_value(ascii_lowercase(s)) == uuid_text_value(s),
{
    let l = ascii_lowercase(s);
    assert(l.len() == s.len());
    if s.len() == 36 {
        assert(l[8] == ascii_lower(s[8]));
        assert(l[13] == ascii_lower(s[13]));
        assert(l[18] == ascii_lower(s[18]));
        assert(l[23] == ascii_lower(s[23]));
    }
    match uuid_digits(s) {
        Some(digits) => {
            assert(uuid_digits(l) is Some);
            assert(uuid_digits(l)->0 =~= ascii_lowercase(digits));
            lemma_lowercase_all_hex(digits);
            if all_hex(digits) {
                lemma_lowercase_hex_bytes(digits);
            }
        },
        None => {
            assert(uuid_digits(l) is None);
        },
    }
}

/// The grammars do not tell the case of a letter: a text and the same
/// text in lower case write the same identifier, or both write none.
pub proof fn lemma_parse_ignores_case(s: Seq<char>, options: ParseOptions)
    ensures
        parse_text(ascii_lowercase(s), options) == parse_text(s, options),
{
    let l = ascii_lowercase(s);
    assert(l.len() == s.len());
    assert(is_ascii_chars(l) == is_ascii_chars(s)) by {
        if is_ascii_chars(s) {
            assert forall|i: int| 0 <= i < l.len() implies '\0' <= #[trigger] l[i] <= '\u{7f}' by {
                assert('\0' <= s[i] <= '\u{7f}');
            }
        }
        if is_ascii_chars(l) {
            assert forall|i: int| 0 <= i < s.len() implies '\0' <= #[trigger] s[i] <= '\u{7f}' by {
                assert('\0' <= l[i] <= '\u{7f}');
            }
        }
    }
    if s.len() > 8 {
        assert(l[8] == ascii_lower(s[8]));
    }
    assert(is_hyphenated(l) == is_hyphenated(s));
    assert(in_legacy_window(l) == in_legacy_window(s));
    let n = uuid_prefix_len(s);
    if !is_ascii_chars(s) || (is_hyphenated(s) && !options.allow_hyphens) {
    } else if in_legacy_window(s) {
        let start: int = if is_hyphenated(s) {
            9
        } else {
            8
        };
        lemma_lowercase_subrange(s, 0, 8);
        lemma_lowercase_subrange(s, start, s.len() as int);
        lemma_lowercase_hex_field(s.subrange(0, 8));
        lemma_lowercase_hex_field(s.subrange(start, s.len() as int));
    } else if s.len() >= n {
        lemma_lowercase_subrange(s, 0, n);
        lemma_lowercase_uuid_text(s.subrange(0, n));
        if s.len() > n {
            assert(l[n] == ascii_lower(s[n]));
            let start = if is_hyphenated(s) {
                n + 1
            } else {
                n
            };
            if is_hyphenated(s) == (s[n] == '-') {
                let rest = s.subrange(start, s.len() as int);
                lemma_lowercase_subrange(s, start, s.len() as int);
                if options.allow_tail && rest.len() > 8 {
                    lemma_lowercase_subrange(rest, 0, 8);
                }
                assert(appendix_text(l, options.allow_tail) == ascii_lowercase(
                    appendix_text(s, options.allow_tail),
                ));
                lemma_lowercase_hex_field(appendix_text(s, options.allow_tail));
            }
        }
    }
}

/// The default form of a UUID, with or without an appendix, holds no
/// uppercase letter: putting it in lower case changes nothing.
pub proof fn lemma_default_form_is_lowercase(v: DebugIdView)
    requires
        v.wf(),
        !v.is_pdb20(),
    ensures
        ascii_lowercase(default_text(v)) == default_text(v),
{
    let bytes = v.id->Uuid_0;
    let head = uuid_hyphenated_lower(bytes);
    let tail = lower_hex(v.appendix as nat);
    let t = default_text(v);
    lemma_uuid_text_round_trip(bytes);
    lemma_lower_hex_is_lower_hex(v.appendix as nat);
    assert forall|i: int| 0 <= i < t.len() implies #[trigger] t[i] == '-' || is_lower_hex_digit(
        t[i],
    ) by {
        if i < 36 {
            assert(t[i] == head[i]);
        } else if i == 36 {
        } else {
            assert(t[i] == tail[i - 37]);
        }
    }
    lemma_lower_hex_text_is_lowercase(t);
}

/// Under a grammar that allows a tail, nothing is read behind the eighth
/// character of the appendix of a UUID: a text that ends there and the
/// same text with any ASCII tail write the same identifier, or none.
pub proof fn lemma_tail_is_ignored(s: Seq<char>, tail: Seq<char>, options: ParseOptions)
    requires
        options.allow_tail,
        is_ascii_chars(tail),
        s.len() == if is_hyphenated(s) {
            36 + 1 + 8
        } else {
            32 + 8
        },
    ensures
        parse_text(s + tail, options) == parse_text(s, options),
{
    let t = s + tail;
    let n = uuid_prefix_len(s);
    assert(t[8] == s[8]);
    assert(is_hyphenated(t) == is_hyphenated(s));
    assert(is_ascii_chars(t) == is_ascii_chars(s)) by {
        if is_ascii_chars(s) {
            assert forall|i: int| 0 <= i < t.len() implies '\0' <= #[trigger] t[i] <= '\u{7f}' by {
                if i < s.len() {
                    assert(t[i] == s[i]);
                } else {
                    assert(t[i] == tail[i - s.len()]);
                }
            }
        }
        if is_ascii_chars(t) {
            assert forall|i: int| 0 <= i < s.len() implies '\0' <= #[trigger] s[i] <= '\u{7f}' by {
                assert(t[i] == s[i]);
            }
        }
    }
    assert(t.subrange(0, n) =~= s.subrange(0, n));
    assert(t[n] == s[n]);
    assert(appendix_text(t, true) =~= appendix_text(s, true));
}

/// Under a grammar that allows no tail, a text that writes an identifier
/// holds at most eight characters of appendix, so a ninth is refused: the
/// text of a UUID has at most 45 characters with hyphens and 40 without.
pub proof fn lemma_strict_appendix_length(s: Seq<char>, options: ParseOptions)
    requires
        !options.allow_tail,
    ensures
        parse_text(s, options) is Some ==> s.len() <= if is_hyphenated(s) {
            36 + 1 + 8
        } else {
            32 + 8
        },
{
}

/// A text writes well-formed identifiers only.
pub proof fn lemma_parsed_value_wf(s: Seq<char>, options: ParseOptions)
    ensures
        parse_text(s, options) matches Some(v) ==> v.wf(),
{
}

} // verus!
