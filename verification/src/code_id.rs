//! Code identifiers: lowercase hexadecimal text of any length.

use crate::hex::{
    ascii_lower, bytes_lower_hex, is_hex_digit, is_lower_hex, is_lower_hex_digit,
    lemma_bytes_lower_hex_is_lower_hex, push_bytes_lower_hex, push_char,
};
use vstd::prelude::*;
use vstd::std_specs::cmp::PartialEqSpecImpl;

verus! {

/// The error of a text that is no code identifier. No text is refused, so
/// no function returns it.
#[derive(Clone, Copy, Debug, PartialEq, Eq, Structural)]
pub struct ParseCodeIdError;

/// The text of a code identifier: the hexadecimal digits of `s`, in order
/// and in lower case. Every other character is left out.
pub open spec fn normalize(s: Seq<char>) -> Seq<char> {
    s.filter(|c: char| is_hex_digit(c)).map_values(|c: char| ascii_lower(c))
}

/// Normalizing a text and one more character: the character is added in
/// lower case if it is a hexadecimal digit, and dropped if not.
pub proof fn lemma_normalize_push(s: Seq<char>, c: char)
    ensures
        normalize(s.push(c)) == if is_hex_digit(c) {
            normalize(s).push(ascii_lower(c))
        } else {
            normalize(s)
        },
{
    reveal(Seq::filter);
    let t = s.push(c);
    assert(t.drop_last() =~= s);
    assert(t.last() == c);
    let kept = s.filter(|c: char| is_hex_digit(c));
    if is_hex_digit(c) {
        assert(t.filter(|c: char| is_hex_digit(c)) == kept.push(c));
        assert(normalize(t) =~= normalize(s).push(ascii_lower(c)));
    } else {
        assert(t.filter(|c: char| is_hex_digit(c)) == kept);
    }
}

/// A normalized text is lowercase hexadecimal.
pub proof fn lemma_normalize_is_lower_hex(s: Seq<char>)
    ensures
        is_lower_hex(normalize(s)),
    decreases s.len(),
{
    if s.len() == 0 {
        reveal(Seq::filter);
        assert(normalize(s) =~= Seq::<char>::empty());
    } else {
        lemma_normalize_is_lower_hex(s.drop_last());
        lemma_normalize_push(s.drop_last(), s.last());
        assert(s.drop_last().push(s.last()) =~= s);
    }
}

/// Normalizing changes nothing in a lowercase hexadecimal text.
pub proof fn lemma_normalize_lower_hex(s: Seq<char>)
    requires
        is_lower_hex(s),
    ensures
        normalize(s) == s,
    decreases s.len(),
{
    if s.len() == 0 {
        reveal(Seq::filter);
        assert(normalize(s) =~= s);
    } else {
        let init = s.drop_last();
        assert(is_lower_hex(init)) by {
            assert forall|i: int| 0 <= i < init.len() implies is_lower_hex_digit(
                #[trigger] init[i],
            ) by {
                assert(init[i] == s[i]);
            }
        }
        lemma_normalize_lower_hex(init);
        lemma_normalize_push(init, s.last());
        assert(is_lower_hex_digit(s.last()));
        assert(init.push(s.last()) =~= s);
    }
}

/// Identifier of a code file: the hexadecimal digits of a text that
/// depends on the platform and the compiler.
///
/// Of the text that an identifier is made from, the hexadecimal digits are
/// kept, with their letters in lower case; every other character is
/// dropped. No text is refused: one without a hexadecimal digit gives the
/// empty identifier. Identifiers are equal where their texts are.
#[derive(Debug, Eq, PartialOrd, Ord, Hash)]
pub struct CodeId {
    inner: String,
}

impl View for CodeId {
    type V = Seq<char>;

    closed spec fn view(&self) -> Seq<char> {
        self.inner@
    }
}

impl PartialEq for CodeId {
    fn eq(&self, other: &Self) -> (r: bool) {
        self.inner == other.inner
    }
}

impl PartialEqSpecImpl for CodeId {
    open spec fn obeys_eq_spec() -> bool {
        true
    }

    open spec fn eq_spec(&self, other: &Self) -> bool {
        self@ == other@
    }
}

impl Clone for CodeId {
    fn clone(&self) -> (r: Self)
        ensures
            r@ == self@,
    {
        proof {
            use_type_invariant(self);
        }
        CodeId { inner: self.inner.clone() }
    }
}

impl std::str::FromStr for CodeId {
    type Err = ParseCodeIdError;

    /// The identifier of a text. Every text has one.
    fn from_str(string: &str) -> (r: Result<Self, ParseCodeIdError>)
        ensures
            r matches Ok(id) && id@ == normalize(string@),
    {
        CodeId::from_str(string)
    }
}

impl From<String> for CodeId {
    /// The identifier of a text: its hexadecimal digits in lower case.
    fn from(string: String) -> (r: Self)
        ensures
            r@ == normalize(string@),
    {
        CodeId::new(string)
    }
}

// Two strings of one text are not known to be equal in ghost code, so the
// conversions are stated over the view, in the `ensures` of `from`.
impl vstd::std_specs::convert::FromSpecImpl<String> for CodeId {
    open spec fn obeys_from_spec() -> bool {
        false
    }

    open spec fn from_spec(string: String) -> Self {
        arbitrary()
    }
}

impl<'a> From<&'a str> for CodeId {
    /// The identifier of a text: its hexadecimal digits in lower case.
    fn from(string: &'a str) -> (r: Self)
        ensures
            r@ == normalize(string@),
    {
        CodeId::new(String::from_str(string))
    }
}

impl<'a> vstd::std_specs::convert::FromSpecImpl<&'a str> for CodeId {
    open spec fn obeys_from_spec() -> bool {
        false
    }

    open spec fn from_spec(string: &'a str) -> Self {
        arbitrary()
    }
}

impl AsRef<str> for CodeId {
    /// The text of the identifier.
    fn as_ref(&self) -> (r: &str)
        ensures
            r@ == self@,
    {
        self.as_str()
    }
}

impl Default for CodeId {
    fn default() -> (r: Self)
        ensures
            r@ == Seq::<char>::empty(),
    {
        CodeId { inner: String::new() }
    }
}

impl CodeId {
    #[verifier::type_invariant]
    spec fn well_formed(self) -> bool {
        is_lower_hex(self.inner@)
    }

    /// The empty identifier.
    pub fn nil() -> (r: Self)
        ensures
            r@ == Seq::<char>::empty(),
    {
        CodeId { inner: String::new() }
    }

    /// The identifier of a text: its hexadecimal digits in lower case.
    pub fn new(string: String) -> (r: Self)
        ensures
            r@ == normalize(string@),
            is_lower_hex(r@),
    {
        let mut inner = String::new();
        let text = string.as_str();
        for c in iter: text.chars()
            invariant
                iter.seq() == text@,
                inner@ == normalize(text@.subrange(0, iter.index() as int)),
        {
            proof {
                let done = text@.subrange(0, iter.index() as int);
                lemma_normalize_push(done, c);
                assert(done.push(c) =~= text@.subrange(0, iter.index() + 1));
            }
            if is_hex_digit_char(c) {
                push_char(&mut inner, lower_hex_digit_char(c));
            }
        }
        proof {
            assert(text@.subrange(0, text@.len() as int) =~= text@);
            lemma_normalize_is_lower_hex(string@);
        }
        CodeId { inner }
    }

    /// The identifier of a sequence of bytes: two lowercase hexadecimal
    /// digits for each byte.
    pub fn from_binary(slice: &[u8]) -> (r: Self)
        ensures
            r@ == bytes_lower_hex(slice@),
    {
        let mut string = String::new();
        push_bytes_lower_hex(&mut string, slice);
        proof {
            assert(string@ =~= bytes_lower_hex(slice@));
            lemma_bytes_lower_hex_is_lower_hex(slice@);
            lemma_normalize_lower_hex(string@);
        }
        Self::new(string)
    }

    /// The identifier of a text. Every text has one.
    pub fn from_str(string: &str) -> (r: Result<Self, ParseCodeIdError>)
        ensures
            r matches Ok(id) && id@ == normalize(string@),
    {
        Ok(Self::new(String::from_str(string)))
    }

    /// Whether the identifier is empty.
    pub fn is_nil(&self) -> (r: bool)
        ensures
            r == (self@.len() == 0),
    {
        self.inner.as_str().is_empty()
    }

    /// The text of the identifier.
    pub fn as_str(&self) -> (r: &str)
        ensures
            r@ == self@,
            is_lower_hex(r@),
    {
        proof {
            use_type_invariant(self);
        }
        self.inner.as_str()
    }

    /// The text of the identifier, as a string of its own.
    pub fn to_string(&self) -> (r: String)
        ensures
            r@ == self@,
    {
        self.inner.clone()
    }
}

/// Whether `c` is an ASCII hexadecimal digit of either case.
fn is_hex_digit_char(c: char) -> (r: bool)
    ensures
        r == is_hex_digit(c),
{
    (c >= '0' && c <= '9') || (c >= 'a' && c <= 'f') || (c >= 'A' && c <= 'F')
}

/// A hexadecimal digit in lower case.
fn lower_hex_digit_char(c: char) -> (r: char)
    requires
        is_hex_digit(c),
    ensures
        r == ascii_lower(c),
{
    if c >= 'A' && c <= 'F' {
        (c as u8 + ('a' as u8 - 'A' as u8)) as char
    } else {
        c
    }
}

} // verus!
