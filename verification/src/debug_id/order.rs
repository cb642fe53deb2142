//! Equality and order of debug identifiers.
//!
//! Identifiers are compared by the kind of identifier first (a timestamp
//! comes before a UUID), then by the timestamp or by the bytes of the UUID,
//! then by the appendix.

use super::{DebugId, DebugIdView, Identifier, IdentifierView};
use std::cmp::Ordering;
use vstd::prelude::*;
use vstd::std_specs::cmp::{PartialEqSpecImpl, PartialOrdSpecImpl};

verus! {

/// Whether `a` comes before `b` in the order of byte strings of one
/// length: at the first place where they differ, `a` holds the lower byte.
pub open spec fn bytes_precede(a: Seq<u8>, b: Seq<u8>) -> bool {
    exists|i: int| first_difference(a, b, i) && a[i] < b[i]
}

/// Whether `i` is the first place at which `a` and `b` differ.
pub open spec fn first_difference(a: Seq<u8>, b: Seq<u8>, i: int) -> bool {
    &&& 0 <= i < a.len()
    &&& i < b.len()
    &&& a[i] != b[i]
    &&& forall|k: int| 0 <= k < i ==> a[k] == b[k]
}

/// Whether the value `a` comes before the value `b`.
pub open spec fn value_precedes(a: DebugIdView, b: DebugIdView) -> bool {
    match (a.id, b.id) {
        (IdentifierView::Pdb20(x), IdentifierView::Pdb20(y)) => x < y || (x == y && a.appendix
            < b.appendix),
        (IdentifierView::Pdb20(_), IdentifierView::Uuid(_)) => true,
        (IdentifierView::Uuid(_), IdentifierView::Pdb20(_)) => false,
        (IdentifierView::Uuid(x), IdentifierView::Uuid(y)) => bytes_precede(x, y) || (x == y
            && a.appendix < b.appendix),
    }
}

/// How the value `a` stands to the value `b`.
pub open spec fn compare_values(a: DebugIdView, b: DebugIdView) -> Ordering {
    if a == b {
        Ordering::Equal
    } else if value_precedes(a, b) {
        Ordering::Less
    } else {
        Ordering::Greater
    }
}

/// Two byte strings of one length are equal, or exactly one of them comes
/// before the other.
pub proof fn lemma_bytes_trichotomy(a: Seq<u8>, b: Seq<u8>)
    requires
        a.len() == b.len(),
    ensures
        a == b || bytes_precede(a, b) || bytes_precede(b, a),
        !(a == b && bytes_precede(a, b)),
        !(bytes_precede(a, b) && bytes_precede(b, a)),
{
    if bytes_precede(a, b) && bytes_precede(b, a) {
        let i = choose|i: int| first_difference(a, b, i) && a[i] < b[i];
        let j = choose|j: int| first_difference(b, a, j) && b[j] < a[j];
        if i < j {
            assert(b[i] == a[i]);
        } else if j < i {
            assert(a[j] == b[j]);
        }
    }
    if a != b {
        assert(a.subrange(0, a.len() as int) =~= a);
        assert(b.subrange(0, b.len() as int) =~= b);
        lemma_differing_bytes(a, b, a.len() as int);
        let i = choose|i: int| first_difference(a, b, i);
        if a[i] < b[i] {
        } else {
            assert(first_difference(b, a, i));
        }
    }
}

/// Byte strings that agree before place `n` and are not equal differ
/// first at some place.
proof fn lemma_differing_bytes(a: Seq<u8>, b: Seq<u8>, n: int)
    requires
        a.len() == b.len(),
        0 <= n <= a.len(),
        a.subrange(0, n) != b.subrange(0, n),
    ensures
        exists|i: int| first_difference(a, b, i),
    decreases n,
{
    if n == 0 {
        assert(a.subrange(0, 0) =~= b.subrange(0, 0));
    } else if a.subrange(0, n - 1) != b.subrange(0, n - 1) {
        lemma_differing_bytes(a, b, n - 1);
    } else {
        let x = a.subrange(0, n - 1);
        let y = b.subrange(0, n - 1);
        assert forall|k: int| 0 <= k < n - 1 implies a[k] == b[k] by {
            assert(x[k] == y[k]);
        }
        if a[n - 1] == b[n - 1] {
            assert(a.subrange(0, n) =~= b.subrange(0, n));
        }
        assert(first_difference(a, b, n - 1));
    }
}

/// The order of values is total: two values are equal, or exactly one of
/// them comes before the other.
pub proof fn lemma_value_trichotomy(a: DebugIdView, b: DebugIdView)
    requires
        a.wf(),
        b.wf(),
    ensures
        a == b || value_precedes(a, b) || value_precedes(b, a),
        !(a == b && value_precedes(a, b)),
        !(value_precedes(a, b) && value_precedes(b, a)),
{
    match (a.id, b.id) {
        (IdentifierView::Uuid(x), IdentifierView::Uuid(y)) => {
            lemma_bytes_trichotomy(x, y);
        },
        _ => {},
    }
}

/// The order of byte strings is transitive.
pub proof fn lemma_bytes_transitive(a: Seq<u8>, b: Seq<u8>, c: Seq<u8>)
    requires
        bytes_precede(a, b),
        bytes_precede(b, c),
    ensures
        bytes_precede(a, c),
{
    let i = choose|i: int| first_difference(a, b, i) && a[i] < b[i];
    let j = choose|j: int| first_difference(b, c, j) && b[j] < c[j];
    let m = if i < j {
        i
    } else {
        j
    };
    assert(first_difference(a, c, m));
}

/// The order of values is transitive.
pub proof fn lemma_value_transitive(a: DebugIdView, b: DebugIdView, c: DebugIdView)
    requires
        value_precedes(a, b),
        value_precedes(b, c),
    ensures
        value_precedes(a, c),
{
    match (a.id, b.id, c.id) {
        (IdentifierView::Uuid(x), IdentifierView::Uuid(y), IdentifierView::Uuid(z)) => {
            if bytes_precede(x, y) && bytes_precede(y, z) {
                lemma_bytes_transitive(x, y, z);
            }
        },
        _ => {},
    }
}

/// How the integer `a` stands to the integer `b`.
fn compare_u32(a: u32, b: u32) -> (r: Ordering)
    ensures
        r == if a == b {
            Ordering::Equal
        } else if a < b {
            Ordering::Less
        } else {
            Ordering::Greater
        },
{
    if a < b {
        Ordering::Less
    } else if a > b {
        Ordering::Greater
    } else {
        Ordering::Equal
    }
}

/// Where two byte strings of one length differ first, the bytes at that
/// place decide which of the two comes before the other.
proof fn lemma_difference_decides(a: Seq<u8>, b: Seq<u8>, i: usize)
    requires
        a.len() == b.len(),
        first_difference(a, b, i as int),
    ensures
        a != b,
        bytes_precede(a, b) <==> a[i as int] < b[i as int],
{
    lemma_bytes_trichotomy(a, b);
    if a[i as int] > b[i as int] {
        assert(first_difference(b, a, i as int));
    }
}

/// The first place at which the bytes `a` and `b` differ, if they do.
fn first_differing_byte(a: &[u8; 16], b: &[u8; 16]) -> (r: Option<usize>)
    ensures
        r matches Some(i) ==> first_difference(a@, b@, i as int),
        r is None ==> a@ == b@,
{
    let mut i: usize = 0;
    while i < 16
        invariant
            0 <= i <= 16,
            a@.len() == 16,
            b@.len() == 16,
            forall|k: int| 0 <= k < i ==> a@[k] == b@[k],
        decreases 16 - i,
    {
        if a[i] != b[i] {
            return Some(i);
        }
        i = i + 1;
    }
    assert(a@ =~= b@);
    None
}

/// How the bytes `a` stand to the bytes `b`.
fn compare_bytes(a: &[u8; 16], b: &[u8; 16]) -> (r: Ordering)
    ensures
        r == if a@ == b@ {
            Ordering::Equal
        } else if bytes_precede(a@, b@) {
            Ordering::Less
        } else {
            Ordering::Greater
        },
{
    match first_differing_byte(a, b) {
        None => Ordering::Equal,
        Some(i) => {
            proof {
                lemma_difference_decides(a@, b@, i);
            }
            if a[i] < b[i] {
                Ordering::Less
            } else {
                Ordering::Greater
            }
        },
    }
}

impl PartialEq for DebugId {
    fn eq(&self, other: &Self) -> (r: bool) {
        let same_id = match (self.id, other.id) {
            (Identifier::Pdb20(x), Identifier::Pdb20(y)) => x == y,
            (Identifier::Uuid(x), Identifier::Uuid(y)) => {
                match compare_bytes(&x, &y) {
                    Ordering::Equal => true,
                    _ => false,
                }
            },
            _ => false,
        };
        same_id && self.appendix == other.appendix
    }
}

impl PartialEqSpecImpl for DebugId {
    open spec fn obeys_eq_spec() -> bool {
        true
    }

    open spec fn eq_spec(&self, other: &Self) -> bool {
        self@ == other@
    }
}

impl PartialOrd for DebugId {
    fn partial_cmp(&self, other: &Self) -> (r: Option<Ordering>) {
        let by_id = match (self.id, other.id) {
            (Identifier::Pdb20(x), Identifier::Pdb20(y)) => compare_u32(x, y),
            (Identifier::Pdb20(_), Identifier::Uuid(_)) => Ordering::Less,
            (Identifier::Uuid(_), Identifier::Pdb20(_)) => Ordering::Greater,
            (Identifier::Uuid(x), Identifier::Uuid(y)) => {
                proof {
                    lemma_bytes_trichotomy(x@, y@);
                }
                compare_bytes(&x, &y)
            },
        };
        match by_id {
            Ordering::Equal => Some(compare_u32(self.appendix, other.appendix)),
            _ => Some(by_id),
        }
    }
}

impl PartialOrdSpecImpl for DebugId {
    open spec fn obeys_partial_cmp_spec() -> bool {
        true
    }

    open spec fn partial_cmp_spec(&self, other: &Self) -> Option<Ordering> {
        Some(compare_values(self@, other@))
    }
}

} // verus!
