use dotman::error::IoStep;
use dotman::error::SyncError;
use dotman::host::Reply;
use dotman::util::copy_directory;
use dotman::util::copy_step;
use dotman::util::is_exists;
use dotman::util::CopyStep;
use dotman::util::TreeEntry;
use std::collections::BTreeMap;

fn entry(relative: &str, is_dir: bool) -> TreeEntry {
    TreeEntry { relative: relative.to_string(), is_dir }
}

fn s(text: &str) -> String {
    text.to_string()
}

/// Carries a plan out on a destination that maps paths to what they hold:
/// `None` for a directory, the bytes for a file.
fn carry_out(
    plan: &Vec<CopyStep>,
    source: &BTreeMap<String, Vec<u8>>,
    tree: &mut BTreeMap<String, Option<Vec<u8>>>,
) {
    for step in plan {
        match step {
            CopyStep::MakeDir(path) => {
                tree.insert(path.clone(), None);
            }
            CopyStep::CopyFile(from, to) => {
                tree.insert(to.clone(), Some(source[from].clone()));
            }
        }
    }
}

#[test]
fn root_entry_makes_the_destination_itself() {
    assert_eq!(copy_step(&s("/src"), &s("/dest"), &entry("", true)), CopyStep::MakeDir(s("/dest")));
}

#[test]
fn root_that_is_a_file_is_copied_to_the_destination_itself() {
    assert_eq!(
        copy_step(&s("/src"), &s("/dest"), &entry("", false)),
        CopyStep::CopyFile(s("/src"), s("/dest"))
    );
}

#[test]
fn directory_is_made_at_the_same_place_below_the_destination() {
    assert_eq!(
        copy_step(&s("/src"), &s("/dest"), &entry("a/b", true)),
        CopyStep::MakeDir(s("/dest/a/b"))
    );
}

#[test]
fn file_is_copied_to_the_same_place_below_the_destination() {
    assert_eq!(
        copy_step(&s("/home/u/.config/shell"), &s("/home/u/dotfiles/shell"), &entry("rc", false)),
        CopyStep::CopyFile(s("/home/u/.config/shell/rc"), s("/home/u/dotfiles/shell/rc"))
    );
}

#[test]
fn plan_has_one_step_for_each_entry_in_walk_order() {
    let entries = vec![entry("", true), entry("a", true), entry("a/f", false), entry("g", false)];
    let plan = copy_directory(&s("/src"), &s("/dest"), &entries);
    assert_eq!(
        plan,
        vec![
            CopyStep::MakeDir(s("/dest")),
            CopyStep::MakeDir(s("/dest/a")),
            CopyStep::CopyFile(s("/src/a/f"), s("/dest/a/f")),
            CopyStep::CopyFile(s("/src/g"), s("/dest/g")),
        ]
    );
}

#[test]
fn plan_of_no_entries_is_empty() {
    assert_eq!(copy_directory(&s("/src"), &s("/dest"), &vec![]), vec![]);
}

#[test]
fn copying_twice_leaves_what_copying_once_left() {
    let entries = vec![entry("", true), entry("a", true), entry("a/f", false), entry("g", false)];
    let plan = copy_directory(&s("/src"), &s("/dest"), &entries);
    let mut source = BTreeMap::new();
    source.insert(s("/src/a/f"), b"one".to_vec());
    source.insert(s("/src/g"), b"two".to_vec());
    let mut tree = BTreeMap::new();
    tree.insert(s("/dest"), None);
    tree.insert(s("/dest/g"), Some(b"old".to_vec()));
    tree.insert(s("/dest/stale"), Some(b"kept".to_vec()));
    carry_out(&plan, &source, &mut tree);
    let once = tree.clone();
    carry_out(&plan, &source, &mut tree);
    assert_eq!(tree, once);
    assert_eq!(once[&s("/dest/g")], Some(b"two".to_vec()));
    assert_eq!(once[&s("/dest/a/f")], Some(b"one".to_vec()));
    assert_eq!(once[&s("/dest/a")], None);
}

#[test]
fn copying_removes_nothing_from_the_destination() {
    let entries = vec![entry("", true), entry("g", false)];
    let plan = copy_directory(&s("/src"), &s("/dest"), &entries);
    let mut source = BTreeMap::new();
    source.insert(s("/src/g"), b"two".to_vec());
    let mut tree = BTreeMap::new();
    tree.insert(s("/dest/stale"), Some(b"kept".to_vec()));
    tree.insert(s("/elsewhere"), None);
    carry_out(&plan, &source, &mut tree);
    assert_eq!(tree[&s("/dest/stale")], Some(b"kept".to_vec()));
    assert_eq!(tree[&s("/elsewhere")], None);
    assert_eq!(tree.len(), 4);
}

#[test]
fn probe_that_found_the_path_says_it_exists() {
    assert_eq!(is_exists(&s("/p"), Reply::Done), Ok(true));
}

#[test]
fn probe_that_missed_the_path_says_it_does_not_exist() {
    assert_eq!(is_exists(&s("/p"), Reply::Missing), Ok(false));
}

#[test]
fn probe_that_failed_is_an_error_with_its_cause() {
    let expected = SyncError::Io { step: IoStep::Probe, path: s("/p"), cause: s("permission denied") };
    assert_eq!(is_exists(&s("/p"), Reply::Failed(s("permission denied"))), Err(expected));
}

#[test]
fn probe_answered_with_a_digest_is_an_error() {
    let expected = SyncError::Io { step: IoStep::Probe, path: s("/p"), cause: String::new() };
    assert_eq!(is_exists(&s("/p"), Reply::Digest(7)), Err(expected));
}

#[test]
fn cause_is_taken_from_a_failure_alone() {
    assert_eq!(Reply::Failed(s("why")).into_cause(), "why");
    assert_eq!(Reply::Done.into_cause(), "");
    assert_eq!(Reply::Missing.into_cause(), "");
    assert_eq!(Reply::Digest(1).into_cause(), "");
}
