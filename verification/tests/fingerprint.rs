use dotman::error::IoStep;
use dotman::error::SyncError;
use dotman::util::dir_hash;
use dotman::util::EntryKind;
use dotman::util::WalkEntry;
use xxhash_rust::xxh32::xxh32;

fn dir(depth: usize) -> WalkEntry {
    WalkEntry { kind: EntryKind::Directory, depth, content: vec![] }
}

fn file(depth: usize, content: &[u8]) -> WalkEntry {
    WalkEntry { kind: EntryKind::File, depth, content: content.to_vec() }
}

fn at() -> String {
    "/home/u/.config/shell".to_string()
}

#[test]
fn empty_walk_has_fingerprint_zero() {
    assert_eq!(dir_hash(&at(), &vec![]), Ok(0));
}

#[test]
fn empty_directory_has_fingerprint_zero() {
    assert_eq!(dir_hash(&at(), &vec![dir(0)]), Ok(0));
}

#[test]
fn one_empty_file_has_the_digest_of_no_bytes() {
    assert_eq!(dir_hash(&at(), &vec![dir(0), file(1, b"")]), Ok(0x02CC5D05));
}

#[test]
fn one_file_is_hashed_with_seed_zero() {
    let walk = vec![dir(0), file(1, b"rc=1")];
    assert_eq!(dir_hash(&at(), &walk), Ok(xxh32(b"rc=1", 0)));
    assert_ne!(dir_hash(&at(), &walk), Ok(0));
}

#[test]
fn root_that_is_a_file_is_hashed() {
    assert_eq!(dir_hash(&at(), &vec![file(0, b"abc")]), Ok(xxh32(b"abc", 0)));
}

#[test]
fn files_are_folded_in_walk_order() {
    let walk = vec![dir(0), file(1, b"first"), file(1, b"second")];
    let expected = xxh32(b"second", xxh32(b"first", 0));
    assert_eq!(dir_hash(&at(), &walk), Ok(expected));
    let swapped = vec![dir(0), file(1, b"second"), file(1, b"first")];
    assert_eq!(dir_hash(&at(), &swapped), Ok(xxh32(b"first", xxh32(b"second", 0))));
    assert_ne!(dir_hash(&at(), &walk), dir_hash(&at(), &swapped));
}

#[test]
fn directory_below_the_root_is_walked_by_itself_and_then_again() {
    let walk = vec![dir(0), dir(1), file(2, b"a"), file(1, b"b")];
    let expected = xxh32(b"b", xxh32(b"a", xxh32(b"a", 0)));
    assert_eq!(dir_hash(&at(), &walk), Ok(expected));
}

#[test]
fn file_two_directories_down_is_folded_four_times() {
    let walk = vec![dir(0), dir(1), dir(2), file(3, b"deep")];
    let mut expected = 0;
    for _ in 0..4 {
        expected = xxh32(b"deep", expected);
    }
    assert_eq!(dir_hash(&at(), &walk), Ok(expected));
}

#[test]
fn walk_of_a_directory_ends_where_its_contents_end() {
    let walk = vec![dir(0), dir(1), file(2, b"in"), dir(1), file(2, b"other"), file(1, b"top")];
    let mut expected = 0;
    for content in [&b"in"[..], b"in", b"other", b"other", b"top"] {
        expected = xxh32(content, expected);
    }
    assert_eq!(dir_hash(&at(), &walk), Ok(expected));
}

#[test]
fn other_entries_are_passed_over() {
    let link = WalkEntry { kind: EntryKind::Other, depth: 1, content: b"ignored".to_vec() };
    let walk = vec![dir(0), link, file(1, b"x")];
    assert_eq!(dir_hash(&at(), &walk), Ok(xxh32(b"x", 0)));
}

#[test]
fn content_of_a_directory_entry_is_not_hashed() {
    let odd = WalkEntry { kind: EntryKind::Directory, depth: 1, content: b"ignored".to_vec() };
    assert_eq!(dir_hash(&at(), &vec![dir(0), odd]), Ok(0));
}

#[test]
fn unreadable_entry_fails_the_fingerprint() {
    let broken = WalkEntry { kind: EntryKind::Unreadable, depth: 1, content: vec![] };
    let walk = vec![dir(0), file(1, b"x"), broken];
    let expected = SyncError::Io { step: IoStep::Fingerprint, path: at(), cause: String::new() };
    assert_eq!(dir_hash(&at(), &walk), Err(expected));
}

#[test]
fn unreadable_root_fails_the_fingerprint() {
    let broken = WalkEntry { kind: EntryKind::Unreadable, depth: 0, content: vec![] };
    assert!(dir_hash(&at(), &vec![broken]).is_err());
}

#[test]
fn fingerprint_is_the_same_on_every_call() {
    let walk = vec![dir(0), dir(1), file(2, b"a"), file(1, b"b")];
    let first = dir_hash(&at(), &walk);
    let second = dir_hash(&at(), &walk);
    let elsewhere = dir_hash(&"/somewhere/else".to_string(), &walk);
    assert_eq!(first, second);
    assert_eq!(first, elsewhere);
}

#[test]
fn fingerprint_changes_with_one_byte_of_one_file() {
    let before = vec![dir(0), dir(1), file(2, b"rc=1"), file(1, b"b")];
    let after = vec![dir(0), dir(1), file(2, b"rc=2"), file(1, b"b")];
    assert_ne!(dir_hash(&at(), &before), dir_hash(&at(), &after));
}

#[test]
fn fingerprint_changes_with_one_byte_added() {
    let before = vec![dir(0), file(1, b"")];
    let after = vec![dir(0), file(1, b"\0")];
    assert_ne!(dir_hash(&at(), &before), dir_hash(&at(), &after));
}

#[test]
fn long_file_is_hashed_whole() {
    let content: Vec<u8> = (0..1000u32).map(|i| (i % 251) as u8).collect();
    let walk = vec![dir(0), file(1, &content)];
    assert_eq!(dir_hash(&at(), &walk), Ok(xxh32(&content, 0)));
}

#[test]
fn entry_that_is_not_below_the_root_ends_the_walk() {
    let walk = vec![dir(1), file(2, b"below"), file(1, b"beside"), file(2, b"after")];
    assert_eq!(dir_hash(&at(), &walk), Ok(xxh32(b"below", 0)));
}

#[test]
fn fingerprint_reads_the_shape_and_the_files_alone() {
    let plain = vec![dir(0), dir(1), file(2, b"a"), file(1, b"b")];
    let mut marked = vec![dir(0), dir(1), file(2, b"a"), file(1, b"b")];
    marked[0].content = b"root".to_vec();
    marked[1].content = b"sub".to_vec();
    assert_eq!(dir_hash(&at(), &plain), dir_hash(&at(), &marked));
    let flat = vec![dir(0), dir(1), file(1, b"a"), file(1, b"b")];
    assert_ne!(dir_hash(&at(), &plain), dir_hash(&at(), &flat));
}

#[test]
fn distinct_contents_can_share_a_fingerprint() {
    let first = vec![dir(0), file(1, b"rc=13660")];
    let second = vec![dir(0), file(1, b"rc=203087")];
    assert_eq!(dir_hash(&at(), &first), Ok(0x3146a709));
    assert_eq!(dir_hash(&at(), &second), Ok(0x3146a709));
}
