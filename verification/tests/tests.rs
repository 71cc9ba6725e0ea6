use fakemap::FakeMap;
use serde_yaml::from_str;
use serde_yaml::Mapping;

/// Decodes a YAML mapping and feeds its entries, in document order, to
/// the container exactly as the decode adapter does: reserve the
/// reported size, then insert each offered pair in the order offered.
fn map_from_yaml(doc: &str) -> FakeMap<i32, i32> {
    let mapping: Mapping = from_str(doc).unwrap();
    let mut map = FakeMap::with_capacity(mapping.len());
    for (k, v) in mapping.iter() {
        map.insert(k.as_i64().unwrap() as i32, v.as_i64().unwrap() as i32);
    }
    map
}

fn map() -> FakeMap<i32, i32> {
    map_from_yaml(
        r#"---
1: 1
2: 4
3: 9
4: 16
5: 25
6: 36
"#,
    )
}

#[test]
fn remove() {
    let mut map = map();
    assert_eq!(Some(16), map.remove(&4));
    assert_eq!(None, map.remove(&4));
    assert_eq!(Some(9), map.remove(&3));
}

#[test]
fn add_remove() {
    let mut map = map();
    map.insert(10, 100);
    assert_eq!(Some(100), map.remove(&10));
    assert_eq!(None, map.remove(&10));
    map.insert(10, 77);
    map.insert(10, 99);

    assert_eq!(Some(&77), map.get(&10));
    assert_eq!(Some(77), map.remove(&10));
    assert_eq!(Some(99), map.remove(&10));
    assert_eq!(None, map.remove(&10));
}

#[test]
fn correct_order() {
    let mut map = map();
    map.insert(42, 42);
    map.insert(10, 100);
    assert_eq!(Some(100), map.remove(&10));
    assert_eq!(None, map.remove(&10));
    map.insert(10, 77);
    map.insert(10, 99);

    assert_eq!(Some(&77), map.get(&10));
    assert_eq!(Some(77), map.remove(&10));
    assert_eq!(Some(99), map.remove(&10));
    assert_eq!(None, map.remove(&10));

    map.remove(&2);
    map.insert(2, 5);

    assert_eq!(
        map_from_yaml(
            r#"---
1: 1
3: 9
4: 16
5: 25
6: 36
42: 42
2: 5
"#
        ),
        map
    );
}

#[test]
fn new_is_empty() {
    let map: FakeMap<i32, i32> = FakeMap::new();
    assert_eq!(0, map.len());
    assert_eq!(None, map.get(&1));
}

#[test]
fn default_is_empty() {
    let map: FakeMap<i32, i32> = FakeMap::default();
    assert_eq!(0, map.len());
    assert_eq!(None, map.get(&1));
}

#[test]
fn with_capacity_is_empty() {
    let map: FakeMap<i32, i32> = FakeMap::with_capacity(16);
    assert_eq!(0, map.len());
    assert!(map.keys().is_empty());
}

#[test]
fn insertion_order_is_kept() {
    let mut map = FakeMap::new();
    map.insert(3, 30);
    map.insert(1, 10);
    map.insert(3, 31);
    map.insert(2, 20);
    let keys: Vec<i32> = map.keys().into_iter().copied().collect();
    assert_eq!(vec![3, 1, 3, 2], keys);
    let values: Vec<i32> = map.values().into_iter().copied().collect();
    assert_eq!(vec![30, 10, 31, 20], values);
    let entries: Vec<(i32, i32)> = map.iter().clone();
    assert_eq!(vec![(3, 30), (1, 10), (3, 31), (2, 20)], entries);
}

#[test]
fn duplicate_keys_coexist() {
    let mut map = FakeMap::new();
    map.insert(7, 1);
    map.insert(7, 2);
    assert_eq!(2, map.len());
    assert_eq!(Some(&1), map.get(&7));
    assert_eq!(&1, map.get_at(0));
    assert_eq!(&2, map.get_at(1));
}

#[test]
fn remove_takes_first_match_only() {
    let mut map = FakeMap::new();
    map.insert(7, 1);
    map.insert(8, 9);
    map.insert(7, 2);
    assert_eq!(Some(1), map.remove(&7));
    assert_eq!(Some(&2), map.get(&7));
    assert_eq!(Some(&9), map.get(&8));
    assert_eq!(Some(2), map.remove(&7));
    assert_eq!(None, map.remove(&7));
}

#[test]
fn remove_missing_reports_absence() {
    let mut map = FakeMap::new();
    map.insert(1, 10);
    assert_eq!(None, map.remove(&2));
    assert_eq!(Some(10), map.remove(&1));
    assert_eq!(None, map.remove(&1));
}

#[test]
fn removal_shifts_only_later_entries() {
    let mut map = FakeMap::new();
    map.insert(1, 10);
    map.insert(2, 20);
    map.insert(3, 30);
    map.insert(4, 40);
    assert_eq!(Some(20), map.remove(&2));
    assert_eq!(3, map.len());
    assert_eq!(&10, map.get_at(0));
    assert_eq!(&30, map.get_at(1));
    assert_eq!(&40, map.get_at(2));
}

#[test]
fn round_trip_keeps_entries_and_order() {
    let mut map = FakeMap::new();
    map.insert(3, 30);
    map.insert(1, 10);
    map.insert(3, 31);
    let offered: Vec<(i32, i32)> = map.iter().clone();
    let decoded = FakeMap::from_pairs(offered);
    assert_eq!(map, decoded);
    let keys: Vec<i32> = decoded.keys().into_iter().copied().collect();
    assert_eq!(vec![3, 1, 3], keys);
}

#[test]
fn equality_requires_same_order() {
    let a = FakeMap::from_pairs(vec![(1, 10), (2, 20)]);
    let b = FakeMap::from_pairs(vec![(2, 20), (1, 10)]);
    let c = FakeMap::from_pairs(vec![(1, 10), (2, 20)]);
    assert_ne!(a, b);
    assert_eq!(a, c);
}

#[test]
fn keys_mut_yields_shared_keys() {
    let mut map = FakeMap::new();
    map.insert(5, 50);
    map.insert(6, 60);
    let keys: Vec<i32> = map.keys_mut().into_iter().copied().collect();
    assert_eq!(vec![5, 6], keys);
}

#[test]
fn values_mut_updates_in_place() {
    let mut map = FakeMap::new();
    map.insert(1, 10);
    map.insert(2, 20);
    *map.values_mut(1) = 99;
    assert_eq!(Some(&99), map.get(&2));
    assert_eq!(Some(&10), map.get(&1));
}

#[test]
fn iter_mut_keeps_key_shared() {
    let mut map = FakeMap::new();
    map.insert(1, 10);
    map.insert(2, 20);
    let (k, v) = map.iter_mut(0);
    assert_eq!(&1, k);
    *v = 11;
    assert_eq!(Some(&11), map.get(&1));
    let keys: Vec<i32> = map.keys().into_iter().copied().collect();
    assert_eq!(vec![1, 2], keys);
}

#[test]
fn from_pairs_keeps_duplicates() {
    let map = FakeMap::from_pairs(vec![(1, 1), (1, 2), (1, 3)]);
    assert_eq!(3, map.len());
    assert_eq!(Some(&1), map.get(&1));
    assert_eq!(&3, map.get_at(2));
}
