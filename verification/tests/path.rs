use file_explorer::entry::{Entry, EntryKind};
use file_explorer::path::base_name_of;

#[test]
fn base_name_is_the_last_component() {
    assert_eq!(base_name_of("/a/b/report.csv"), "report.csv");
    assert_eq!(base_name_of("report.csv"), "report.csv");
    assert_eq!(base_name_of("./report.csv"), "report.csv");
    assert_eq!(base_name_of("/a/b/"), "");
    assert_eq!(base_name_of("/"), "");
    assert_eq!(base_name_of(""), "");
}

#[test]
fn base_name_counts_characters_not_bytes() {
    assert_eq!(base_name_of("/données/été.txt"), "été.txt");
    assert_eq!(base_name_of("/日本/語"), "語");
}

#[test]
fn an_entry_made_from_a_path_is_named_by_its_last_component() {
    let entry = Entry::from_path("/a/b/report.csv", EntryKind::File);
    assert_eq!(entry.path, "/a/b/report.csv");
    assert_eq!(entry.name, Some("report.csv".to_string()));
    assert_eq!(entry.kind, EntryKind::File);
    let bare = Entry::from_path("notes", EntryKind::Directory);
    assert_eq!(bare.path, "notes");
    assert_eq!(bare.name, Some("notes".to_string()));
    assert_eq!(bare.kind, EntryKind::Directory);
}
