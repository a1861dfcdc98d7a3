use file_explorer::entry::{Entry, EntryKind, Node};
use file_explorer::request::{Mode, SearchError, SearchRequest};
use file_explorer::search::{search, search_stream};
use file_explorer::stream::{Inbox, StreamStatus};

fn file(path: &str, content: &str) -> Node {
    Node {
        entry: Entry::from_path(path, EntryKind::File),
        content: Some(content.as_bytes().to_vec()),
    }
}

fn binary(path: &str, content: &[u8]) -> Node {
    Node {
        entry: Entry::from_path(path, EntryKind::File),
        content: Some(content.to_vec()),
    }
}

fn locked_file(path: &str) -> Node {
    Node { entry: Entry::from_path(path, EntryKind::File), content: None }
}

fn dir(path: &str) -> Node {
    Node { entry: Entry::from_path(path, EntryKind::Directory), content: None }
}

fn unreadable(path: &str) -> Node {
    Node { entry: Entry::from_path(path, EntryKind::Unreadable), content: None }
}

fn request(term: &str, mode: Mode) -> SearchRequest {
    SearchRequest::new("/", term, mode).unwrap()
}

fn paths(list: &[&str]) -> Vec<String> {
    list.iter().map(|p| p.to_string()).collect()
}

fn report_tree() -> Vec<Node> {
    vec![
        dir("/a"),
        file("/a/report.txt", "alpha\nbeta"),
        dir("/a/b"),
        file("/a/b/report.csv", "gamma"),
    ]
}

#[test]
fn empty_tree_has_no_results() {
    let tree: Vec<Node> = Vec::new();
    assert_eq!(search(&request("report", Mode::NameMatch), Some(&tree)), Ok(Vec::new()));
    assert_eq!(search(&request("report", Mode::ContentMatch), Some(&tree)), Ok(Vec::new()));
}

#[test]
fn single_matching_file_is_reported_once() {
    let tree = vec![
        dir("/docs"),
        file("/docs/notes.txt", "x"),
        file("/docs/budget.xls", "y"),
        file("/readme.md", "z"),
    ];
    assert_eq!(
        search(&request("budget", Mode::NameMatch), Some(&tree)),
        Ok(paths(&["/docs/budget.xls"]))
    );
}

#[test]
fn name_search_finds_both_reports_in_walk_order() {
    let tree = report_tree();
    assert_eq!(
        search(&request("report", Mode::NameMatch), Some(&tree)),
        Ok(paths(&["/a/report.txt", "/a/b/report.csv"]))
    );
}

#[test]
fn content_search_finds_only_the_file_with_the_term() {
    let tree = report_tree();
    assert_eq!(
        search(&request("beta", Mode::ContentMatch), Some(&tree)),
        Ok(paths(&["/a/report.txt"]))
    );
}

#[test]
fn locked_directory_does_not_hide_readable_file() {
    let tree = vec![unreadable("/locked"), dir("/ok"), file("/ok/data.txt", "find-me")];
    assert_eq!(
        search(&request("find-me", Mode::ContentMatch), Some(&tree)),
        Ok(paths(&["/ok/data.txt"]))
    );
}

#[test]
fn unreadable_entry_changes_no_result() {
    let plain = vec![dir("/ok"), file("/ok/data.txt", "find-me"), file("/ok/data.bak", "find-me")];
    let mut with_locked = plain.clone();
    with_locked.insert(1, unreadable("/ok/data-locked"));
    for mode in [Mode::NameMatch, Mode::ContentMatch] {
        let term = if mode == Mode::NameMatch { "data" } else { "find-me" };
        assert_eq!(
            search(&request(term, mode), Some(&plain)),
            search(&request(term, mode), Some(&with_locked))
        );
    }
    assert_eq!(
        search(&request("data", Mode::NameMatch), Some(&with_locked)),
        Ok(paths(&["/ok/data.txt", "/ok/data.bak"]))
    );
}

#[test]
fn content_search_needs_the_term_on_some_line() {
    let tree = vec![file("/a.txt", "alp\nha\n"), file("/b.txt", "")];
    assert_eq!(search(&request("alpha", Mode::ContentMatch), Some(&tree)), Ok(Vec::new()));
}

#[test]
fn content_search_reports_a_file_once_for_many_lines() {
    let tree = vec![file("/a.txt", "beta\nbeta beta\nalpha\nbeta\n")];
    assert_eq!(
        search(&request("beta", Mode::ContentMatch), Some(&tree)),
        Ok(paths(&["/a.txt"]))
    );
}

#[test]
fn content_search_is_literal_and_keeps_case() {
    let tree = vec![file("/a.txt", "axb\n"), file("/b.txt", "a.b\n"), file("/c.txt", "A.B\n")];
    assert_eq!(search(&request("a.b", Mode::ContentMatch), Some(&tree)), Ok(paths(&["/b.txt"])));
}

#[test]
fn content_search_passes_over_directories_and_files_it_cannot_open() {
    let tree = vec![dir("/beta"), locked_file("/beta/secret"), file("/beta/open", "beta")];
    assert_eq!(
        search(&request("beta", Mode::ContentMatch), Some(&tree)),
        Ok(paths(&["/beta/open"]))
    );
}

#[test]
fn content_search_passes_over_files_that_are_not_text() {
    let tree = vec![
        binary("/early.bin", b"\xff\xfe\nbeta\n"),
        binary("/late.bin", b"beta\n\xff\xfe\n"),
    ];
    assert_eq!(
        search(&request("beta", Mode::ContentMatch), Some(&tree)),
        Ok(paths(&["/late.bin"]))
    );
}

#[test]
fn line_endings_are_no_part_of_a_line() {
    let tree = vec![file("/dos.txt", "alpha\r\nbeta\r\n")];
    assert_eq!(search(&request("a\r", Mode::ContentMatch), Some(&tree)), Ok(Vec::new()));
    assert_eq!(search(&request("a\nb", Mode::ContentMatch), Some(&tree)), Ok(Vec::new()));
    assert_eq!(
        search(&request("beta", Mode::ContentMatch), Some(&tree)),
        Ok(paths(&["/dos.txt"]))
    );
}

#[test]
fn name_search_reports_directories_too() {
    let tree = vec![dir("/reports"), file("/reports/q1.txt", ""), unreadable("/reports-old")];
    assert_eq!(search(&request("reports", Mode::NameMatch), Some(&tree)), Ok(paths(&["/reports"])));
}

#[test]
fn name_search_ignores_case_and_reads_the_term_as_a_pattern() {
    let tree = vec![file("/x/REPORT.TXT", ""), file("/x/rep-ort.txt", ""), file("/x/rep.txt", "")];
    assert_eq!(
        search(&request("^rep(ort)?\\.txt$", Mode::NameMatch), Some(&tree)),
        Ok(paths(&["/x/REPORT.TXT", "/x/rep.txt"]))
    );
}

#[test]
fn results_are_neither_sorted_nor_deduplicated() {
    let tree = vec![file("/z.txt", ""), file("/a.txt", ""), file("/z.txt", "")];
    assert_eq!(
        search(&request("txt", Mode::NameMatch), Some(&tree)),
        Ok(paths(&["/z.txt", "/a.txt", "/z.txt"]))
    );
}

#[test]
fn missing_root_is_an_error() {
    assert_eq!(search(&request("report", Mode::NameMatch), None), Err(SearchError::RootNotFound));
    assert_eq!(search(&request("report", Mode::ContentMatch), None), Err(SearchError::RootNotFound));
}

#[test]
fn invalid_pattern_is_raised_before_the_root_is_looked_at() {
    assert_eq!(search(&request("foo(bar", Mode::NameMatch), None), Err(SearchError::InvalidPattern));
    let tree = report_tree();
    assert_eq!(
        search(&request("foo(bar", Mode::NameMatch), Some(&tree)),
        Err(SearchError::InvalidPattern)
    );
}

#[test]
fn a_term_that_is_no_pattern_is_still_a_literal() {
    let tree = vec![file("/a.txt", "call foo(bar now\n")];
    assert_eq!(
        search(&request("foo(bar", Mode::ContentMatch), Some(&tree)),
        Ok(paths(&["/a.txt"]))
    );
}

#[test]
fn stream_and_batch_agree() {
    let tree = vec![
        dir("/a"),
        file("/a/report.txt", "alpha\nbeta"),
        unreadable("/a/locked"),
        binary("/a/blob", b"\x80beta"),
        file("/a/b.txt", "beta\nbeta\n"),
        locked_file("/a/report.lock"),
    ];
    for (term, mode) in [("report", Mode::NameMatch), ("beta", Mode::ContentMatch)] {
        let mut inbox = Inbox::new();
        assert_eq!(search_stream(&request(term, mode), Some(&tree), &mut inbox), Ok(()));
        assert_eq!(inbox.current_status(), StreamStatus::Completed);
        assert_eq!(Ok(inbox.received().clone()), search(&request(term, mode), Some(&tree)));
        assert!(!inbox.received().is_empty());
    }
}

#[test]
fn refused_stream_leaves_the_inbox_open_and_empty() {
    let mut inbox = Inbox::new();
    assert_eq!(
        search_stream(&request("foo(bar", Mode::NameMatch), None, &mut inbox),
        Err(SearchError::InvalidPattern)
    );
    assert_eq!(
        search_stream(&request("foo", Mode::NameMatch), None, &mut inbox),
        Err(SearchError::RootNotFound)
    );
    assert_eq!(inbox.current_status(), StreamStatus::Open);
    assert!(inbox.received().is_empty());
}

#[test]
fn request_needs_a_term() {
    assert!(SearchRequest::new("/", "", Mode::NameMatch).is_none());
    let req = SearchRequest::new("/srv", "x", Mode::ContentMatch).unwrap();
    assert_eq!(req.root(), "/srv");
    assert_eq!(req.term(), "x");
    assert_eq!(req.mode(), Mode::ContentMatch);
}

#[test]
fn name_search_goes_by_the_name_the_walk_gives() {
    let named = |path: &str, name: Option<&str>| Node {
        entry: Entry {
            path: path.to_string(),
            name: name.map(|n| n.to_string()),
            kind: EntryKind::File,
        },
        content: None,
    };
    let tree = vec![
        named("C:\\work\\report.txt", Some("report.txt")),
        named("/work/report\u{fffd}.txt", None),
        named("/report/notes.txt", Some("notes.txt")),
    ];
    assert_eq!(
        search(&request("^report", Mode::NameMatch), Some(&tree)),
        Ok(paths(&["C:\\work\\report.txt"]))
    );
}
