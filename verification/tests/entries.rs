use dir_snapshot::entry::{octets_between, octets_is_zero, EntryInfo, EntryType};
use dir_snapshot::entry_set::EntrySet;

fn file(path: &str, octets: u64) -> EntryInfo {
    EntryInfo::new(EntryType::File, path.to_string(), octets)
}

fn dir(path: &str) -> EntryInfo {
    EntryInfo::new(EntryType::Directory, path.to_string(), 0)
}

#[test]
fn new_entry_keeps_its_parts() {
    let e = EntryInfo::new(EntryType::Unknown, "/tmp/x".to_string(), 7);
    assert_eq!(e.entry_type, EntryType::Unknown);
    assert_eq!(e.path, "/tmp/x");
    assert_eq!(e.octets, 7);
}

#[test]
fn same_entry_needs_kind_path_and_size() {
    assert!(file("a", 1).same_entry(&file("a", 1)));
    assert!(!file("a", 1).same_entry(&file("a", 2)));
    assert!(!file("a", 1).same_entry(&file("b", 1)));
    assert!(!file("a", 0).same_entry(&dir("a")));
}

#[test]
fn same_place_ignores_the_size() {
    assert!(file("a", 1).same_place(&file("a", 2)));
    assert!(!file("a", 1).same_place(&file("b", 1)));
    assert!(!file("a", 0).same_place(&dir("a")));
}

#[test]
fn derived_equality_agrees_with_same_entry() {
    assert_eq!(file("a", 1), file("a", 1));
    assert_ne!(file("a", 1), file("a", 2));
    assert_eq!(file("a", 1).clone(), file("a", 1));
}

#[test]
fn octets_is_zero_only_for_zero() {
    assert!(octets_is_zero(&0));
    assert!(!octets_is_zero(&1));
    assert!(!octets_is_zero(&u64::MAX));
}

#[test]
fn octets_between_is_the_distance() {
    assert_eq!(octets_between(200, 100), 100);
    assert_eq!(octets_between(100, 200), 100);
    assert_eq!(octets_between(5, 5), 0);
    assert_eq!(octets_between(0, u64::MAX), u64::MAX);
}

#[test]
fn empty_set_holds_nothing() {
    let s = EntrySet::new();
    assert_eq!(s.len(), 0);
    assert!(s.is_empty());
    assert!(!s.contains(&file("a", 1)));
    assert_eq!(s.first_at_place(&file("a", 1)), None);
}

#[test]
fn insert_says_whether_the_entry_was_new() {
    let mut s = EntrySet::new();
    assert!(s.insert(file("a", 1)));
    assert!(!s.insert(file("a", 1)));
    assert!(s.insert(file("a", 2)));
    assert!(s.insert(dir("a")));
    assert_eq!(s.len(), 3);
    assert!(!s.is_empty());
}

#[test]
fn entries_come_in_order_of_first_insertion() {
    let s = EntrySet::from_vec(vec![file("b", 1), file("a", 1), file("b", 1), file("c", 3), file("a", 1)]);
    assert_eq!(s.entries(), &vec![file("b", 1), file("a", 1), file("c", 3)]);
    assert_eq!(s.get(0), &file("b", 1));
    assert_eq!(s.get(2), &file("c", 3));
}

#[test]
fn insert_all_merges_a_batch() {
    let mut s = EntrySet::from_vec(vec![file("a", 1)]);
    s.insert_all(vec![file("b", 2), file("a", 1), file("b", 2)]);
    assert_eq!(s.entries(), &vec![file("a", 1), file("b", 2)]);
    s.insert_all(vec![]);
    assert_eq!(s.len(), 2);
}

#[test]
fn contains_goes_by_full_identity() {
    let s = EntrySet::from_vec(vec![file("a", 1), dir("d")]);
    assert!(s.contains(&file("a", 1)));
    assert!(s.contains(&dir("d")));
    assert!(!s.contains(&file("a", 2)));
    assert!(!s.contains(&file("d", 0)));
}

#[test]
fn first_at_place_finds_the_earliest_of_a_place() {
    let s = EntrySet::from_vec(vec![file("x", 9), file("a", 1), file("a", 5), dir("a")]);
    assert_eq!(s.first_at_place(&file("a", 77)), Some(1));
    assert_eq!(s.first_at_place(&dir("a")), Some(3));
    assert_eq!(s.first_at_place(&file("x", 9)), Some(0));
    assert_eq!(s.first_at_place(&file("zz", 1)), None);
}

#[test]
fn sets_are_compared_without_their_order() {
    let a = EntrySet::from_vec(vec![file("a", 1), file("b", 2)]);
    let b = EntrySet::from_vec(vec![file("b", 2), file("a", 1)]);
    let c = EntrySet::from_vec(vec![file("a", 1)]);
    assert!(a.same_set(&b));
    assert_eq!(a, b);
    assert!(!a.same_set(&c));
    assert_ne!(a, c);
    assert!(c.subset_of(&a));
    assert!(!a.subset_of(&c));
    assert!(EntrySet::new().subset_of(&c));
}

#[test]
fn a_cloned_set_holds_the_same_entries_in_the_same_order() {
    let a = EntrySet::from_vec(vec![file("b", 2), file("a", 1)]);
    let b = a.clone();
    assert_eq!(a.entries(), b.entries());
}
