//! Debug identifiers: their construction, their text grammar and their
//! text forms.

use crate::hex::{
    hex_field, lower_hex, parse_hex_u32, push_char, push_decimal, push_lower_hex,
    push_upper_hex_padded, upper_hex_padded, decimal,
};
use crate::uuid_text::{
    format_hyphenated_lower, format_simple_upper, parse_uuid, uuid_hyphenated_lower,
    uuid_simple_upper, uuid_text_value,
};
use vstd::prelude::*;
use vstd::utf8::is_ascii_chars;

pub mod order;

verus! {

/// The error of a text that writes no debug identifier, and of a GUID that
/// has not sixteen bytes.
#[derive(Clone, Copy, Debug, PartialEq, Eq, Structural)]
pub struct ParseDebugIdError;

/// What a grammar of debug identifiers admits.
#[derive(Clone, Copy, Debug)]
pub struct ParseOptions {
    /// Whether the text may be hyphenated.
    pub allow_hyphens: bool,
    /// Whether a UUID must be followed by an appendix.
    pub require_appendix: bool,
    /// Whether an appendix of more than eight characters is cut to its
    /// first eight before it is read.
    pub allow_tail: bool,
}

/// The identifier part: a UUID, or the timestamp of the PDB 2.0 format.
#[derive(Clone, Copy, Debug, PartialEq, Eq, PartialOrd, Ord, Hash)]
enum Identifier {
    /// Seconds since the epoch.
    Pdb20(u32),
    /// The sixteen bytes of a UUID, in big-endian order.
    Uuid([u8; 16]),
}

/// Identifier of a debug information file: a UUID or, for the PDB 2.0
/// format, a timestamp, and an appendix of 32 bits.
///
/// The default form of a UUID is its 36 characters in lower case, followed
/// by a hyphen and the appendix in hexadecimal digits unless the appendix
/// is zero: `dfb8e43a-f242-3d73-a453-aeb6a777ef75-a`. The Breakpad form has
/// no hyphens, upper case for the UUID and always an appendix:
/// `DFB8E43AF2423D73A453AEB6A777EF75a`. A timestamp is written in eight
/// uppercase digits in both forms.
///
/// Values are compared by the kind of identifier (a timestamp before a
/// UUID), then by the identifier, then by the appendix.
#[derive(Clone, Copy, Debug, Eq, Ord, Hash)]
pub struct DebugId {
    id: Identifier,
    appendix: u32,
}

/// Whether every byte is zero.
pub open spec fn all_zero_bytes(bytes: Seq<u8>) -> bool {
    forall|i: int| 0 <= i < bytes.len() ==> #[trigger] bytes[i] == 0
}

/// The identifier part of a debug identifier, as a mathematical value.
pub enum IdentifierView {
    /// The timestamp of the PDB 2.0 format.
    Pdb20(u32),
    /// The bytes of a UUID, in big-endian order.
    Uuid(Seq<u8>),
}

/// A debug identifier as a mathematical value.
pub struct DebugIdView {
    pub id: IdentifierView,
    pub appendix: u32,
}

impl DebugIdView {
    /// A UUID has sixteen bytes.
    pub open spec fn wf(self) -> bool {
        self.id matches IdentifierView::Uuid(bytes) ==> bytes.len() == 16
    }

    /// The identifier of a UUID and an appendix.
    pub open spec fn from_parts(bytes: Seq<u8>, appendix: u32) -> DebugIdView {
        DebugIdView { id: IdentifierView::Uuid(bytes), appendix }
    }

    /// The identifier of a timestamp and an age.
    pub open spec fn from_timestamp_age(timestamp: u32, age: u32) -> DebugIdView {
        DebugIdView { id: IdentifierView::Pdb20(timestamp), appendix: age }
    }

    /// The bytes of the UUID; sixteen zero bytes where the identifier is a
    /// timestamp.
    pub open spec fn uuid(self) -> Seq<u8> {
        match self.id {
            IdentifierView::Pdb20(_) => Seq::new(16, |i: int| 0u8),
            IdentifierView::Uuid(bytes) => bytes,
        }
    }

    /// Whether the identifier and the appendix consist of zeros only.
    pub open spec fn is_nil(self) -> bool {
        self.appendix == 0 && match self.id {
            IdentifierView::Pdb20(timestamp) => timestamp == 0,
            IdentifierView::Uuid(bytes) => all_zero_bytes(bytes),
        }
    }

    /// Whether the identifier is a timestamp.
    pub open spec fn is_pdb20(self) -> bool {
        self.id is Pdb20
    }
}

impl View for DebugId {
    type V = DebugIdView;

    closed spec fn view(&self) -> DebugIdView {
        DebugIdView {
            id: match self.id {
                Identifier::Pdb20(timestamp) => IdentifierView::Pdb20(timestamp),
                Identifier::Uuid(bytes) => IdentifierView::Uuid(bytes@),
            },
            appendix: self.appendix,
        }
    }
}

/// The bytes of a UUID from those of a little-endian GUID: the first
/// three fields, of four, two and two bytes, are reversed each, and the
/// last eight bytes stay.
pub open spec fn guid_to_uuid(guid: Seq<u8>) -> Seq<u8> {
    seq![
        guid[3],
        guid[2],
        guid[1],
        guid[0],
        guid[5],
        guid[4],
        guid[7],
        guid[6],
        guid[8],
        guid[9],
        guid[10],
        guid[11],
        guid[12],
        guid[13],
        guid[14],
        guid[15],
    ]
}

/// The identifier part in the default form: a timestamp in eight uppercase
/// digits, a UUID hyphenated in lower case.
pub open spec fn default_head(id: IdentifierView) -> Seq<char> {
    match id {
        IdentifierView::Pdb20(timestamp) => upper_hex_padded(timestamp as nat, 8),
        IdentifierView::Uuid(bytes) => uuid_hyphenated_lower(bytes),
    }
}

/// The default form: the identifier part and, unless the appendix is zero,
/// a hyphen and the appendix in lowercase digits without leading zeros.
pub open spec fn default_text(v: DebugIdView) -> Seq<char> {
    if v.appendix == 0 {
        default_head(v.id)
    } else {
        default_head(v.id) + seq!['-'] + lower_hex(v.appendix as nat)
    }
}

/// The identifier part in the Breakpad form: a timestamp in eight
/// uppercase digits, a UUID in thirty-two.
pub open spec fn breakpad_head(id: IdentifierView) -> Seq<char> {
    match id {
        IdentifierView::Pdb20(timestamp) => upper_hex_padded(timestamp as nat, 8),
        IdentifierView::Uuid(bytes) => uuid_simple_upper(bytes),
    }
}

/// The Breakpad form: the identifier part and the appendix in lowercase
/// digits, with nothing between them. The appendix is never left out.
pub open spec fn breakpad_text(v: DebugIdView) -> Seq<char> {
    breakpad_head(v.id) + lower_hex(v.appendix as nat)
}

/// The inspection form: the name of the type, then the identifier part
/// and the appendix as named fields, the integers in decimal.
pub open spec fn inspection_text(v: DebugIdView) -> Seq<char> {
    match v.id {
        IdentifierView::Pdb20(timestamp) => "DebugId { timestamp: "@ + decimal(timestamp as nat)
            + ", appendix: "@ + decimal(v.appendix as nat) + " }"@,
        IdentifierView::Uuid(bytes) => "DebugId { uuid: \""@ + uuid_hyphenated_lower(bytes)
            + "\", appendix: "@ + decimal(v.appendix as nat) + " }"@,
    }
}

/// A text is hyphenated where its ninth character is a hyphen.
pub open spec fn is_hyphenated(s: Seq<char>) -> bool {
    s.len() > 8 && s[8] == '-'
}

/// The lengths of a timestamp with an age: 10 to 17 characters with a
/// hyphen, 9 to 16 without.
pub open spec fn in_legacy_window(s: Seq<char>) -> bool {
    if is_hyphenated(s) {
        10 <= s.len() <= 17
    } else {
        9 <= s.len() <= 16
    }
}

/// The length of the UUID at the start of a text.
pub open spec fn uuid_prefix_len(s: Seq<char>) -> int {
    if is_hyphenated(s) {
        36
    } else {
        32
    }
}

/// What a text in the legacy window is worth: a timestamp in its first
/// eight characters and an age in those behind them, or behind the hyphen.
pub open spec fn legacy_value(s: Seq<char>) -> Option<DebugIdView> {
    let start: int = if is_hyphenated(s) {
        9
    } else {
        8
    };
    match (hex_field(s.subrange(0, 8)), hex_field(s.subrange(start, s.len() as int))) {
        (Some(timestamp), Some(age)) => Some(DebugIdView::from_timestamp_age(timestamp, age)),
        _ => None,
    }
}

/// The characters that are read as the appendix of a UUID: those behind
/// the UUID and, in a hyphenated text, the hyphen that follows it; where a
/// tail is allowed, no more than the first eight of them.
pub open spec fn appendix_text(s: Seq<char>, allow_tail: bool) -> Seq<char> {
    let start = if is_hyphenated(s) {
        uuid_prefix_len(s) + 1
    } else {
        uuid_prefix_len(s)
    };
    let rest = s.subrange(start, s.len() as int);
    if allow_tail && rest.len() > 8 {
        rest.subrange(0, 8)
    } else {
        rest
    }
}

/// What a text outside the legacy window is worth: a UUID, then nothing
/// (unless an appendix is required), or an appendix, behind a hyphen if
/// and only if the text is hyphenated.
pub open spec fn uuid_form_value(s: Seq<char>, options: ParseOptions) -> Option<DebugIdView> {
    let n = uuid_prefix_len(s);
    if s.len() < n {
        None
    } else {
        match uuid_text_value(s.subrange(0, n)) {
            None => None,
            Some(bytes) => if s.len() == n {
                if options.require_appendix {
                    None
                } else {
                    Some(DebugIdView::from_parts(bytes, 0))
                }
            } else if is_hyphenated(s) != (s[n] == '-') {
                None
            } else {
                match hex_field(appendix_text(s, options.allow_tail)) {
                    Some(appendix) => Some(DebugIdView::from_parts(bytes, appendix)),
                    None => None,
                }
            },
        }
    }
}

/// The identifier that a text writes under a grammar, if it writes one.
/// A text in the legacy window is a timestamp with an age or nothing; it
/// is never read as a UUID.
pub open spec fn parse_text(s: Seq<char>, options: ParseOptions) -> Option<DebugIdView> {
    if !is_ascii_chars(s) || (is_hyphenated(s) && !options.allow_hyphens) {
        None
    } else if in_legacy_window(s) {
        legacy_value(s)
    } else {
        uuid_form_value(s, options)
    }
}

/// The general grammar: hyphens allowed, the appendix optional, a tail
/// behind the appendix ignored.
pub open spec fn general_options() -> ParseOptions {
    ParseOptions { allow_hyphens: true, require_appendix: false, allow_tail: true }
}

/// The Breakpad grammar: no hyphens, the appendix required, no tail.
pub open spec fn breakpad_options() -> ParseOptions {
    ParseOptions { allow_hyphens: false, require_appendix: true, allow_tail: false }
}

/// The number of characters of an ASCII text.
fn ascii_len(text: &str) -> (n: usize)
    requires
        text.is_ascii(),
    ensures
        n == text@.len(),
{
    let bytes = text.as_bytes();
    proof {
        vstd::string::is_ascii_spec_bytes(text);
    }
    bytes.len()
}

/// Whether all sixteen bytes are zero.
fn all_zero(bytes: &[u8; 16]) -> (r: bool)
    ensures
        r == all_zero_bytes(bytes@),
{
    let mut i: usize = 0;
    while i < 16
        invariant
            0 <= i <= 16,
            bytes@.len() == 16,
            forall|k: int| 0 <= k < i ==> bytes@[k] == 0,
        decreases 16 - i,
    {
        if bytes[i] != 0 {
            return false;
        }
        i = i + 1;
    }
    true
}

impl DebugId {
    /// The identifier that consists of zeros only: a UUID.
    pub fn nil() -> (r: Self)
        ensures
            r@ == DebugIdView::from_parts(Seq::new(16, |i: int| 0u8), 0),
            r@.is_nil(),
    {
        let r = DebugId { id: Identifier::Uuid([0u8; 16]), appendix: 0 };
        assert(r@.id->Uuid_0 =~= Seq::new(16, |i: int| 0u8));
        r
    }

    /// The identifier of a UUID, with appendix zero.
    pub fn from_uuid(uuid: [u8; 16]) -> (r: Self)
        ensures
            r@ == DebugIdView::from_parts(uuid@, 0),
    {
        Self::from_parts(uuid, 0)
    }

    /// The identifier of a UUID and an appendix.
    pub fn from_parts(uuid: [u8; 16], appendix: u32) -> (r: Self)
        ensures
            r@ == DebugIdView::from_parts(uuid@, appendix),
    {
        DebugId { id: Identifier::Uuid(uuid), appendix }
    }

    /// The identifier of a little-endian GUID and an age. A GUID has
    /// sixteen bytes; any other length is an error.
    pub fn from_guid_age(guid: &[u8], age: u32) -> (r: Result<Self, ParseDebugIdError>)
        ensures
            r is Ok <==> guid@.len() == 16,
            r matches Ok(id) ==> id@ == DebugIdView::from_parts(guid_to_uuid(guid@), age),
    {
        if guid.len() != 16 {
            return Err(ParseDebugIdError);
        }
        let uuid: [u8; 16] = [
            guid[3],
            guid[2],
            guid[1],
            guid[0],
            guid[5],
            guid[4],
            guid[7],
            guid[6],
            guid[8],
            guid[9],
            guid[10],
            guid[11],
            guid[12],
            guid[13],
            guid[14],
            guid[15],
        ];
        assert(uuid@ =~= guid_to_uuid(guid@));
        Ok(DebugId::from_parts(uuid, age))
    }

    /// The identifier of a PDB 2.0 timestamp and age.
    pub fn from_timestamp_age(timestamp: u32, age: u32) -> (r: Self)
        ensures
            r@ == DebugIdView::from_timestamp_age(timestamp, age),
    {
        DebugId { id: Identifier::Pdb20(timestamp), appendix: age }
    }

    /// The bytes of the UUID; sixteen zero bytes where the identifier is a
    /// timestamp.
    pub fn uuid(&self) -> (r: [u8; 16])
        ensures
            r@ == self@.uuid(),
    {
        match self.id {
            Identifier::Pdb20(_) => {
                let zero = [0u8; 16];
                assert(zero@ =~= Seq::new(16, |i: int| 0u8));
                zero
            },
            Identifier::Uuid(bytes) => bytes,
        }
    }

    /// The appendix: a build counter on Windows, zero elsewhere.
    pub fn appendix(&self) -> (r: u32)
        ensures
            r == self@.appendix,
    {
        self.appendix
    }

    /// Whether the identifier is a timestamp of the PDB 2.0 format.
    pub fn is_pdb20(&self) -> (r: bool)
        ensures
            r == self@.is_pdb20(),
    {
        match self.id {
            Identifier::Pdb20(_) => true,
            Identifier::Uuid(_) => false,
        }
    }

    /// Whether the identifier and the appendix consist of zeros only.
    pub fn is_nil(&self) -> (r: bool)
        ensures
            r == self@.is_nil(),
    {
        let id_is_nil = match self.id {
            Identifier::Pdb20(timestamp) => timestamp == 0,
            Identifier::Uuid(bytes) => all_zero(&bytes),
        };
        id_is_nil && self.appendix == 0
    }

    /// Reads an identifier under a grammar.
    pub fn parse_str(string: &str, options: ParseOptions) -> (r: Option<Self>)
        ensures
            r matches Some(id) ==> parse_text(string@, options) == Some(id@),
            r is None ==> parse_text(string@, options) is None,
    {
        if !string.is_ascii() {
            return None;
        }
        let n = ascii_len(string);
        let hyphenated = n > 8 && string.get_ascii(8) == '-' as u8;
        assert(hyphenated == is_hyphenated(string@));
        if hyphenated && !options.allow_hyphens {
            return None;
        }
        if (hyphenated && n >= 10 && n <= 17) || (!hyphenated && n >= 9 && n <= 16) {
            let start: usize = if hyphenated {
                9
            } else {
                8
            };
            let timestamp = match parse_hex_u32(string.substring_ascii(0, 8)) {
                Some(timestamp) => timestamp,
                None => {
                    return None;
                },
            };
            let age = match parse_hex_u32(string.substring_ascii(start, n)) {
                Some(age) => age,
                None => {
                    return None;
                },
            };
            return Some(Self::from_timestamp_age(timestamp, age));
        }
        let uuid_len: usize = if hyphenated {
            36
        } else {
            32
        };
        if n < uuid_len {
            return None;
        }
        let uuid = match parse_uuid(string.substring_ascii(0, uuid_len)) {
            Some(uuid) => uuid,
            None => {
                return None;
            },
        };
        if n == uuid_len {
            if options.require_appendix {
                return None;
            }
            return Some(Self::from_parts(uuid, 0));
        }
        let separated = string.get_ascii(uuid_len) == '-' as u8;
        assert(separated == (string@[uuid_len as int] == '-'));
        if hyphenated != separated {
            return None;
        }
        let start: usize = if hyphenated {
            uuid_len + 1
        } else {
            uuid_len
        };
        let end: usize = if options.allow_tail && n - start > 8 {
            start + 8
        } else {
            n
        };
        assert(string@.subrange(start as int, end as int) =~= appendix_text(
            string@,
            options.allow_tail,
        ));
        match parse_hex_u32(string.substring_ascii(start, end)) {
            Some(appendix) => Some(Self::from_parts(uuid, appendix)),
            None => None,
        }
    }

    /// Reads an identifier under the general grammar.
    pub fn from_str(string: &str) -> (r: Result<Self, ParseDebugIdError>)
        ensures
            r matches Ok(id) ==> parse_text(string@, general_options()) == Some(id@),
            r is Err ==> parse_text(string@, general_options()) is None,
    {
        let options = ParseOptions { allow_hyphens: true, require_appendix: false, allow_tail: true };
        match Self::parse_str(string, options) {
            Some(id) => Ok(id),
            None => Err(ParseDebugIdError),
        }
    }

    /// Reads an identifier under the Breakpad grammar.
    pub fn from_breakpad(string: &str) -> (r: Result<Self, ParseDebugIdError>)
        ensures
            r matches Ok(id) ==> parse_text(string@, breakpad_options()) == Some(id@),
            r is Err ==> parse_text(string@, breakpad_options()) is None,
    {
        let options = ParseOptions {
            allow_hyphens: false,
            require_appendix: true,
            allow_tail: false,
        };
        match Self::parse_str(string, options) {
            Some(id) => Ok(id),
            None => Err(ParseDebugIdError),
        }
    }

    /// The default form of the identifier.
    pub fn to_string(&self) -> (r: String)
        ensures
            r@ == default_text(self@),
    {
        let mut out = match self.id {
            Identifier::Pdb20(timestamp) => {
                let mut head = String::new();
                push_upper_hex_padded(&mut head, timestamp, 8);
                head
            },
            Identifier::Uuid(bytes) => format_hyphenated_lower(&bytes),
        };
        assert(out@ =~= default_head(self@.id));
        if self.appendix > 0 {
            push_char(&mut out, '-');
            push_lower_hex(&mut out, self.appendix);
            assert(out@ =~= default_text(self@));
        }
        out
    }

    /// The inspection form of the identifier, for diagnostics.
    pub fn inspect(&self) -> (r: String)
        ensures
            r@ == inspection_text(self@),
    {
        let mut out = match self.id {
            Identifier::Pdb20(timestamp) => {
                let mut head = String::from_str("DebugId { timestamp: ");
                push_decimal(&mut head, timestamp);
                head.append(", appendix: ");
                head
            },
            Identifier::Uuid(bytes) => {
                let mut head = String::from_str("DebugId { uuid: \"");
                let uuid = format_hyphenated_lower(&bytes);
                head.append(uuid.as_str());
                head.append("\", appendix: ");
                head
            },
        };
        push_decimal(&mut out, self.appendix);
        out.append(" }");
        out
    }

    /// The identifier in a wrapper whose text is the Breakpad form.
    pub fn breakpad(&self) -> (r: BreakpadFormat<'_>)
        ensures
            r@ == self@,
    {
        BreakpadFormat { inner: self }
    }
}

impl Default for DebugId {
    fn default() -> (r: Self)
        ensures
            r@ == DebugIdView::from_parts(Seq::new(16, |i: int| 0u8), 0),
    {
        DebugId::nil()
    }
}

impl std::str::FromStr for DebugId {
    type Err = ParseDebugIdError;

    /// Reads an identifier under the general grammar.
    fn from_str(string: &str) -> (r: Result<Self, ParseDebugIdError>)
        ensures
            r matches Ok(id) ==> parse_text(string@, general_options()) == Some(id@),
            r is Err ==> parse_text(string@, general_options()) is None,
    {
        DebugId::from_str(string)
    }
}

impl From<[u8; 16]> for DebugId {
    /// The identifier of a UUID, with appendix zero.
    fn from(uuid: [u8; 16]) -> (r: Self)
        ensures
            r@ == DebugIdView::from_parts(uuid@, 0),
    {
        let r = DebugId::from_uuid(uuid);
        proof {
            lemma_view_injective(r, DebugId { id: Identifier::Uuid(uuid), appendix: 0 });
        }
        r
    }
}

impl vstd::std_specs::convert::FromSpecImpl<[u8; 16]> for DebugId {
    open spec fn obeys_from_spec() -> bool {
        true
    }

    closed spec fn from_spec(uuid: [u8; 16]) -> Self {
        DebugId { id: Identifier::Uuid(uuid), appendix: 0 }
    }
}

impl From<([u8; 16], u32)> for DebugId {
    /// The identifier of a UUID and an appendix.
    fn from(parts: ([u8; 16], u32)) -> (r: Self)
        ensures
            r@ == DebugIdView::from_parts(parts.0@, parts.1),
    {
        let r = DebugId::from_parts(parts.0, parts.1);
        proof {
            lemma_view_injective(r, DebugId { id: Identifier::Uuid(parts.0), appendix: parts.1 });
        }
        r
    }
}

impl vstd::std_specs::convert::FromSpecImpl<([u8; 16], u32)> for DebugId {
    open spec fn obeys_from_spec() -> bool {
        true
    }

    closed spec fn from_spec(parts: ([u8; 16], u32)) -> Self {
        DebugId { id: Identifier::Uuid(parts.0), appendix: parts.1 }
    }
}

/// The value of an identifier is well formed.
pub proof fn lemma_view_wf(id: DebugId)
    ensures
        id@.wf(),
{
}

/// Identifiers of one value are equal.
pub proof fn lemma_view_injective(a: DebugId, b: DebugId)
    requires
        a@ == b@,
    ensures
        a == b,
{
    match (a.id, b.id) {
        (Identifier::Uuid(x), Identifier::Uuid(y)) => {
            assert(x@ == y@);
            assert(forall|i: int| 0 <= i < 16 ==> x[i] == x@[i] && y[i] == y@[i]);
            assert(x =~= y);
        },
        _ => {},
    }
}

/// What the conversions from a UUID, and from a UUID with an appendix,
/// give.
pub proof fn lemma_from_values(uuid: [u8; 16], appendix: u32)
    ensures
        <DebugId as vstd::std_specs::convert::FromSpec<[u8; 16]>>::from_spec(uuid)@
            == DebugIdView::from_parts(uuid@, 0),
        <DebugId as vstd::std_specs::convert::FromSpec<([u8; 16], u32)>>::from_spec(
            (uuid, appendix),
        )@ == DebugIdView::from_parts(uuid@, appendix),
{
}

/// A debug identifier whose text is the Breakpad form.
#[derive(Debug)]
pub struct BreakpadFormat<'a> {
    inner: &'a DebugId,
}

impl<'a> View for BreakpadFormat<'a> {
    type V = DebugIdView;

    closed spec fn view(&self) -> DebugIdView {
        self.inner@
    }
}

impl<'a> BreakpadFormat<'a> {
    /// The Breakpad form of the identifier.
    pub fn to_string(&self) -> (r: String)
        ensures
            r@ == breakpad_text(self@),
    {
        let mut out = match self.inner.id {
            Identifier::Pdb20(timestamp) => {
                let mut head = String::new();
                push_upper_hex_padded(&mut head, timestamp, 8);
                head
            },
            Identifier::Uuid(bytes) => format_simple_upper(&bytes),
        };
        assert(out@ =~= breakpad_head(self@.id));
        push_lower_hex(&mut out, self.inner.appendix);
        out
    }
}

} // verus!
