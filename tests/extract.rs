use gm_master::extract::{plan_entry, EntryAction};

#[test]
fn files_are_written_under_their_relative_path() {
    assert_eq!(
        plan_entry("a/b.txt", Some("a/b.txt".to_string()), Some(0o644)),
        EntryAction::WriteFile { path: "a/b.txt".to_string(), mode: Some(0o644) }
    );
}

#[test]
fn directory_entries_create_directories() {
    assert_eq!(
        plan_entry("a/", Some("a".to_string()), None),
        EntryAction::CreateDir { path: "a".to_string(), mode: None }
    );
}

#[test]
fn entries_escaping_the_destination_are_skipped() {
    assert_eq!(plan_entry("../evil.txt", None, Some(0o755)), EntryAction::Skip);
    assert_eq!(plan_entry("/etc/", None, None), EntryAction::Skip);
}
