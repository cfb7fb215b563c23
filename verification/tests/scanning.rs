use dir_snapshot::entry::{EntryInfo, EntryType};
use dir_snapshot::scan::{classify, read_path, ChildProbe, OpenFailure};

fn probe(exists: bool, is_file: bool, is_dir: bool, path: Option<&str>, octets: Option<u64>) -> ChildProbe {
    ChildProbe { exists, is_file, is_dir, path: path.map(|p| p.to_string()), octets }
}

#[test]
fn a_regular_file_keeps_its_size() {
    let e = classify(probe(true, true, false, Some("/a/f.txt"), Some(120)));
    assert_eq!(e, EntryInfo::new(EntryType::File, "/a/f.txt".to_string(), 120));
}

#[test]
fn the_file_test_comes_before_the_directory_test() {
    let e = classify(probe(true, true, true, Some("/a/both"), Some(9)));
    assert_eq!(e, EntryInfo::new(EntryType::File, "/a/both".to_string(), 9));
}

#[test]
fn a_directory_has_size_zero() {
    let e = classify(probe(true, false, true, Some("/a/d"), Some(4096)));
    assert_eq!(e, EntryInfo::new(EntryType::Directory, "/a/d".to_string(), 0));
}

#[test]
fn neither_file_nor_directory_is_unknown() {
    let e = classify(probe(true, false, false, Some("/a/sock"), Some(5)));
    assert_eq!(e, EntryInfo::new(EntryType::Unknown, "/a/sock".to_string(), 5));
}

#[test]
fn unreadable_metadata_gives_size_zero() {
    let e = classify(probe(true, true, false, Some("/a/f"), None));
    assert_eq!(e, EntryInfo::new(EntryType::File, "/a/f".to_string(), 0));
}

#[test]
fn a_path_without_text_gets_the_placeholder() {
    let e = classify(probe(true, true, false, None, Some(8)));
    assert_eq!(e, EntryInfo::new(EntryType::File, "Invalid path".to_string(), 8));
}

#[test]
fn an_unopened_directory_gives_the_empty_batch() {
    let (entries, failure) = read_path(Err(OpenFailure::PermissionDenied));
    assert!(entries.is_empty());
    assert_eq!(failure, Some(OpenFailure::PermissionDenied));
    let (entries, failure) = read_path(Err(OpenFailure::Other("No such file or directory".to_string())));
    assert!(entries.is_empty());
    assert_eq!(failure, Some(OpenFailure::Other("No such file or directory".to_string())));
}

#[test]
fn an_empty_directory_gives_the_empty_batch() {
    let (entries, failure) = read_path(Ok(vec![]));
    assert!(entries.is_empty());
    assert_eq!(failure, None);
}

#[test]
fn vanished_and_unlisted_children_are_passed_over() {
    let listing = vec![
        Some(probe(true, true, false, Some("/d/a"), Some(1))),
        None,
        Some(probe(false, true, false, Some("/d/gone"), Some(2))),
        Some(probe(true, false, true, Some("/d/sub"), Some(64))),
        Some(probe(true, false, false, None, None)),
    ];
    let (entries, failure) = read_path(Ok(listing));
    assert_eq!(failure, None);
    assert_eq!(
        entries,
        vec![
            EntryInfo::new(EntryType::File, "/d/a".to_string(), 1),
            EntryInfo::new(EntryType::Directory, "/d/sub".to_string(), 0),
            EntryInfo::new(EntryType::Unknown, "Invalid path".to_string(), 0),
        ]
    );
}

#[test]
fn a_batch_keeps_repeated_children() {
    let listing = vec![
        Some(probe(true, true, false, None, Some(1))),
        Some(probe(true, true, false, None, Some(1))),
    ];
    let (entries, _) = read_path(Ok(listing));
    assert_eq!(entries.len(), 2);
}
