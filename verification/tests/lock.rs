use rubigo::lock::{remove_diff_packages, LockSnapshot};

fn snapshot(git: &[&str], local: &[&str]) -> LockSnapshot {
    let mut lock = LockSnapshot::new();
    for id in git {
        assert!(lock.add_git(id.to_string()));
    }
    for path in local {
        assert!(lock.add_local(path.to_string()));
    }
    lock
}

#[test]
fn new_snapshot_is_empty() {
    let lock = LockSnapshot::new();
    assert!(lock.git().is_empty());
    assert!(lock.local().is_empty());
}

#[test]
fn snapshot_keeps_entries_in_order() {
    let lock = snapshot(&["b", "a", "c"], &["y", "x"]);
    assert_eq!(lock.git(), &vec!["b".to_string(), "a".to_string(), "c".to_string()]);
    assert_eq!(lock.local(), &vec!["y".to_string(), "x".to_string()]);
}

#[test]
fn snapshot_refuses_a_second_entry_with_the_same_identifier() {
    let mut lock = snapshot(&["a"], &["x"]);
    assert!(!lock.add_git("a".to_string()));
    assert!(!lock.add_local("x".to_string()));
    assert_eq!(lock.git().len(), 1);
    assert_eq!(lock.local().len(), 1);
}

#[test]
fn partitions_are_keyed_apart() {
    let mut lock = snapshot(&["a"], &[]);
    assert!(lock.add_local("a".to_string()));
    assert_eq!(lock.git().len(), 1);
    assert_eq!(lock.local().len(), 1);
}

#[test]
fn identifiers_are_case_sensitive() {
    let mut lock = snapshot(&["github.com/a/b"], &[]);
    assert!(lock.add_git("github.com/A/b".to_string()));
    let after = snapshot(&["github.com/A/b"], &[]);
    assert_eq!(
        remove_diff_packages(Some(&lock), &after),
        vec!["github.com/a/b".to_string()]
    );
}

#[test]
fn only_the_package_that_left_is_removed() {
    let old = snapshot(&["A", "B"], &["X"]);
    let new = snapshot(&["A"], &["X", "Y"]);
    assert_eq!(remove_diff_packages(Some(&old), &new), vec!["B".to_string()]);
}

#[test]
fn absent_old_snapshot_removes_nothing() {
    let new = snapshot(&["A", "B"], &["X"]);
    assert!(remove_diff_packages(None, &new).is_empty());
    assert!(remove_diff_packages(None, &LockSnapshot::new()).is_empty());
}

#[test]
fn equal_snapshots_remove_nothing() {
    let old = snapshot(&["A", "B"], &["X"]);
    let new = snapshot(&["B", "A"], &["X"]);
    assert!(remove_diff_packages(Some(&old), &new).is_empty());
}

#[test]
fn empty_new_snapshot_removes_everything() {
    let old = snapshot(&["A", "B"], &["X", "Y"]);
    assert_eq!(
        remove_diff_packages(Some(&old), &LockSnapshot::new()),
        vec!["A".to_string(), "B".to_string(), "X".to_string(), "Y".to_string()]
    );
}

#[test]
fn empty_old_snapshot_removes_nothing() {
    let new = snapshot(&["A"], &["X"]);
    assert!(remove_diff_packages(Some(&LockSnapshot::new()), &new).is_empty());
}

#[test]
fn removals_list_remote_entries_before_local_ones() {
    let old = snapshot(&["A", "B", "C"], &["X", "Y"]);
    let new = snapshot(&["B"], &["Y"]);
    assert_eq!(
        remove_diff_packages(Some(&old), &new),
        vec!["A".to_string(), "C".to_string(), "X".to_string()]
    );
}

#[test]
fn partitions_are_compared_apart() {
    let old = snapshot(&["P"], &["Q"]);
    let new = snapshot(&["Q"], &["P"]);
    assert_eq!(
        remove_diff_packages(Some(&old), &new),
        vec!["P".to_string(), "Q".to_string()]
    );
}

#[test]
fn order_of_entries_does_not_change_what_is_removed() {
    let old_a = snapshot(&["A", "B", "C", "D"], &["X", "Y"]);
    let old_b = snapshot(&["D", "C", "B", "A"], &["Y", "X"]);
    let new_a = snapshot(&["B", "D"], &["Y"]);
    let new_b = snapshot(&["D", "B"], &["Y"]);
    let mut first = remove_diff_packages(Some(&old_a), &new_a);
    let mut second = remove_diff_packages(Some(&old_b), &new_b);
    first.sort();
    second.sort();
    assert_eq!(first, second);
    assert_eq!(first, vec!["A".to_string(), "C".to_string(), "X".to_string()]);
}

fn entries(list: &[Option<&str>]) -> Vec<Option<String>> {
    list.iter().map(|e| e.map(|s| s.to_string())).collect()
}

#[test]
fn snapshot_from_entries_keeps_identifiers_in_order() {
    let lock = LockSnapshot::from_entries(
        &entries(&[Some("b"), Some("a")]),
        &entries(&[Some("y"), Some("x"), Some("z")]),
    );
    assert_eq!(lock, snapshot(&["b", "a"], &["y", "x", "z"]));
}

#[test]
fn snapshot_from_entries_passes_over_entries_without_identifier() {
    let lock = LockSnapshot::from_entries(
        &entries(&[None, Some("a"), None, Some("b"), None]),
        &entries(&[None, None]),
    );
    assert_eq!(lock, snapshot(&["a", "b"], &[]));
}

#[test]
fn snapshot_from_entries_passes_over_repeated_identifiers() {
    let lock = LockSnapshot::from_entries(
        &entries(&[Some("a"), Some("b"), Some("a"), Some("b"), Some("c")]),
        &entries(&[Some("a"), Some("a")]),
    );
    assert_eq!(lock, snapshot(&["a", "b", "c"], &["a"]));
}

#[test]
fn snapshot_from_no_entries_is_empty() {
    assert_eq!(LockSnapshot::from_entries(&entries(&[]), &entries(&[])), LockSnapshot::new());
}

#[test]
fn old_entry_without_identifier_is_never_removed() {
    let old = LockSnapshot::from_entries(&entries(&[None, Some("A"), None]), &entries(&[None]));
    let new = LockSnapshot::new();
    assert_eq!(remove_diff_packages(Some(&old), &new), vec!["A".to_string()]);
}

#[test]
fn new_entry_without_identifier_keeps_nothing() {
    let old = snapshot(&["A"], &["X"]);
    let new = LockSnapshot::from_entries(&entries(&[None, None]), &entries(&[None]));
    assert_eq!(
        remove_diff_packages(Some(&old), &new),
        vec!["A".to_string(), "X".to_string()]
    );
}
