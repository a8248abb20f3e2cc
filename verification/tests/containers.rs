//! Tests of the keyed-container constructors.

use ruc::maps::hash_map_of;
use ruc::maps::ordered_map_of;
use ruc::maps::OrderedMap;

#[test]
fn t_map() {
    let s1 = hash_map_of(&vec![(1, 2), (2, 4)]);
    let s2 = ordered_map_of(&vec![(1, 2), (2, 4)]);
    assert_eq!(s1.len(), s2.len());
    for (idx, (k, v)) in s2.entries().iter().enumerate() {
        assert_eq!(1 + idx as u64, *k);
        assert_eq!(2 * *k, *v);
    }
}

#[test]
fn later_pair_replaces_earlier_key() {
    let m = ordered_map_of(&vec![(1, 2), (1, 3)]);
    assert_eq!(m.len(), 1);
    assert_eq!(m.get(1), Some(3));
    let h = hash_map_of(&vec![(1, 2), (1, 3)]);
    assert_eq!(h.len(), 1);
    assert_eq!(h.get(&1), Some(&3));
}

#[test]
fn entries_come_out_sorted_by_key() {
    let m = ordered_map_of(&vec![(5, 1), (2, 2), (9, 3), (2, 7)]);
    assert_eq!(m.entries().as_slice(), &[(2, 7), (5, 1), (9, 3)]);
}

#[test]
fn get_on_an_absent_key() {
    let mut m = OrderedMap::new();
    assert_eq!(m.len(), 0);
    m.insert(4, 44);
    assert_eq!(m.get(4), Some(44));
    assert_eq!(m.get(5), None);
}

#[test]
fn empty_list_gives_empty_maps() {
    let m = ordered_map_of(&Vec::new());
    assert_eq!(m.len(), 0);
    let h = hash_map_of(&Vec::new());
    assert!(h.is_empty());
}
