use std::cmp::Ordering;
use std::collections::HashSet;

use debugid::DebugId;

fn ascending() -> Vec<DebugId> {
    let mut low = [0u8; 16];
    low[15] = 1;
    let mut mid = [0u8; 16];
    mid[0] = 1;
    let mut high = [0xffu8; 16];
    high[15] = 0xfe;
    vec![
        DebugId::from_timestamp_age(0, 0),
        DebugId::from_timestamp_age(0, 1),
        DebugId::from_timestamp_age(1, 0),
        DebugId::from_timestamp_age(u32::MAX, u32::MAX),
        DebugId::from_parts([0u8; 16], 0),
        DebugId::from_parts([0u8; 16], u32::MAX),
        DebugId::from_parts(low, 0),
        DebugId::from_parts(mid, 0),
        DebugId::from_parts(mid, 7),
        DebugId::from_parts(high, 3),
        DebugId::from_parts([0xffu8; 16], 0),
    ]
}

#[test]
fn identifiers_are_ordered_by_kind_identifier_and_appendix() {
    let ids = ascending();
    for (i, a) in ids.iter().enumerate() {
        for (j, b) in ids.iter().enumerate() {
            let expected = i.cmp(&j);
            assert_eq!(a.partial_cmp(b), Some(expected));
            assert_eq!(a.cmp(b), expected);
            assert_eq!(a == b, expected == Ordering::Equal);
            assert_eq!(a != b, expected != Ordering::Equal);
            assert_eq!(a < b, expected == Ordering::Less);
            assert_eq!(a <= b, expected != Ordering::Greater);
            assert_eq!(a > b, expected == Ordering::Greater);
            assert_eq!(a >= b, expected != Ordering::Less);
        }
    }
}

#[test]
fn sorting_keeps_the_order() {
    let ids = ascending();
    let mut shuffled: Vec<DebugId> = ids.iter().rev().copied().collect();
    shuffled.sort();
    assert_eq!(shuffled, ids);
}

#[test]
fn equal_identifiers_hash_alike() {
    let mut set = HashSet::new();
    for id in ascending() {
        assert!(set.insert(id));
    }
    for id in ascending() {
        assert!(!set.insert(id));
    }
    assert_eq!(set.len(), ascending().len());
}
