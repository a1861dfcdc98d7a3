use file_explorer::engine::{Demand, Event, Search};
use file_explorer::entry::{Entry, EntryKind};
use file_explorer::matcher::Matcher;
use file_explorer::request::{Mode, SearchError, SearchRequest};

fn entry(path: &str, kind: EntryKind) -> Entry {
    Entry::from_path(path, kind)
}

fn open(term: &str, mode: Mode) -> Search {
    let request = SearchRequest::new("/", term, mode).unwrap();
    let matcher = Matcher::for_request(&request).ok().unwrap();
    Search::open(matcher, true).ok().unwrap()
}

#[test]
fn a_root_that_is_no_directory_opens_no_search() {
    let request = SearchRequest::new("/nowhere", "x", Mode::ContentMatch).unwrap();
    let matcher = Matcher::for_request(&request).ok().unwrap();
    assert!(matches!(Search::open(matcher, false), Err(SearchError::RootNotFound)));
}

#[test]
fn a_name_search_decides_at_the_entry() {
    let mut search = open("report", Mode::NameMatch);
    assert_eq!(search.demand(), Demand::Entry);

    let hit = search.step(Event::Entry(&entry("/a/Report.txt", EntryKind::File)));
    assert_eq!(hit.report, Some("/a/Report.txt".to_string()));
    assert_eq!(hit.demand, Demand::Entry);

    let miss = search.step(Event::Entry(&entry("/report/notes.txt", EntryKind::File)));
    assert_eq!(miss.report, None);
    assert_eq!(miss.demand, Demand::Entry);

    let folder = search.step(Event::Entry(&entry("/report", EntryKind::Directory)));
    assert_eq!(folder.report, Some("/report".to_string()));

    let locked = search.step(Event::Entry(&entry("/report", EntryKind::Unreadable)));
    assert_eq!(locked.report, None);
    assert_eq!(search.demand(), Demand::Entry);
}

#[test]
fn a_content_search_asks_for_the_lines_of_files_only() {
    let mut search = open("beta", Mode::ContentMatch);

    let folder = search.step(Event::Entry(&entry("/beta", EntryKind::Directory)));
    assert_eq!(folder.report, None);
    assert_eq!(folder.demand, Demand::Entry);

    let locked = search.step(Event::Entry(&entry("/beta/x", EntryKind::Unreadable)));
    assert_eq!(locked.demand, Demand::Entry);

    let file = search.step(Event::Entry(&entry("/beta/a.txt", EntryKind::File)));
    assert_eq!(file.report, None);
    assert_eq!(file.demand, Demand::Line);
    assert_eq!(search.demand(), Demand::Line);
}

#[test]
fn the_first_line_with_the_term_ends_the_scan() {
    let mut search = open("beta", Mode::ContentMatch);
    search.step(Event::Entry(&entry("/a.txt", EntryKind::File)));

    let first = search.step(Event::Line(b"alpha\n"));
    assert_eq!(first.report, None);
    assert_eq!(first.demand, Demand::Line);

    let second = search.step(Event::Line(b"beta\n"));
    assert_eq!(second.report, Some("/a.txt".to_string()));
    assert_eq!(second.demand, Demand::Entry);

    let stray = search.step(Event::Line(b"beta\n"));
    assert_eq!(stray.report, None);
    assert_eq!(stray.demand, Demand::Entry);
}

#[test]
fn a_line_that_is_no_text_ends_the_scan_without_a_result() {
    let mut search = open("beta", Mode::ContentMatch);
    search.step(Event::Entry(&entry("/a.bin", EntryKind::File)));
    let bad = search.step(Event::Line(b"\xff\xff beta\n"));
    assert_eq!(bad.report, None);
    assert_eq!(bad.demand, Demand::Entry);
    let after = search.step(Event::Line(b"beta\n"));
    assert_eq!(after.report, None);
}

#[test]
fn end_of_file_ends_the_scan_without_a_result() {
    let mut search = open("beta", Mode::ContentMatch);
    search.step(Event::Entry(&entry("/a.txt", EntryKind::File)));
    search.step(Event::Line(b"alpha\n"));
    let end = search.step(Event::EndOfFile);
    assert_eq!(end.report, None);
    assert_eq!(end.demand, Demand::Entry);
    assert_eq!(search.demand(), Demand::Entry);
}

#[test]
fn a_new_entry_ends_the_scan_of_the_file_before_it() {
    let mut search = open("beta", Mode::ContentMatch);
    search.step(Event::Entry(&entry("/a.txt", EntryKind::File)));
    search.step(Event::Entry(&entry("/b.txt", EntryKind::File)));
    let hit = search.step(Event::Line(b"beta"));
    assert_eq!(hit.report, Some("/b.txt".to_string()));
}

#[test]
fn a_name_search_takes_no_lines() {
    let mut search = open("beta", Mode::NameMatch);
    search.step(Event::Entry(&entry("/beta.txt", EntryKind::File)));
    let line = search.step(Event::Line(b"beta\n"));
    assert_eq!(line.report, None);
    assert_eq!(line.demand, Demand::Entry);
    let end = search.step(Event::EndOfFile);
    assert_eq!(end.report, None);
}

#[test]
fn an_entry_without_a_name_is_no_result_by_name() {
    let mut search = open("report", Mode::NameMatch);
    let nameless = Entry { path: "/a/report.txt".to_string(), name: None, kind: EntryKind::File };
    let outcome = search.step(Event::Entry(&nameless));
    assert_eq!(outcome.report, None);
    assert_eq!(outcome.demand, Demand::Entry);
}

#[test]
fn an_entry_without_a_name_is_still_read_by_content() {
    let mut search = open("beta", Mode::ContentMatch);
    let nameless = Entry { path: "/a/x".to_string(), name: None, kind: EntryKind::File };
    assert_eq!(search.step(Event::Entry(&nameless)).demand, Demand::Line);
    assert_eq!(search.step(Event::Line(b"beta")).report, Some("/a/x".to_string()));
}
