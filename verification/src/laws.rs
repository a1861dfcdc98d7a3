//! What holds of every search.

use crate::content::{judge, line_text, lines_of, occurs_in, scan, LineVerdict};
use crate::engine::{fed, node_trace, reports, settled, trace, turn, EventView};
use crate::entry::{EntryKind, NodeView};
use crate::matcher::{matches_of, name_selects, selects, term_accepted, Rule};
use crate::pattern::{ignoring_case, regex_accepts, regex_matches};
use crate::request::{Mode, SearchError};
use crate::search::search_result;
use crate::stream::{accepted_all, StreamStatus};
use vstd::prelude::*;
use vstd::utf8::valid_utf8;

verus! {

/// The results on a listing in two parts are the results on the first part
/// followed by those on the second.
pub proof fn lemma_matches_of_concat(rule: Rule, first: Seq<NodeView>, second: Seq<NodeView>)
    ensures
        matches_of(rule, first + second) == matches_of(rule, first) + matches_of(rule, second),
    decreases second.len(),
{
    if second.len() == 0 {
        assert(first + second =~= first);
        assert(matches_of(rule, first) + matches_of(rule, second) =~= matches_of(rule, first));
    } else {
        assert((first + second).drop_last() =~= first + second.drop_last());
        assert((first + second).last() == second.last());
        lemma_matches_of_concat(rule, first, second.drop_last());
        assert(matches_of(rule, first + second) =~= matches_of(rule, first) + matches_of(
            rule,
            second,
        ));
    }
}

/// A listing of which the rule takes no node has no results.
pub proof fn lemma_none_selected(rule: Rule, nodes: Seq<NodeView>)
    requires
        forall|j: int| 0 <= j < nodes.len() ==> !selects(rule, #[trigger] nodes[j]),
    ensures
        matches_of(rule, nodes) == Seq::<Seq<char>>::empty(),
    decreases nodes.len(),
{
    if nodes.len() > 0 {
        let front = nodes.drop_last();
        assert forall|j: int| 0 <= j < front.len() implies !selects(rule, #[trigger] front[j]) by {
            assert(front[j] == nodes[j]);
        }
        lemma_none_selected(rule, front);
        assert(nodes.last() == nodes[nodes.len() - 1]);
    }
}

/// A search of an empty tree under a valid root has no results, whatever the
/// request, as long as its term is accepted.
pub proof fn law_empty_tree(mode: Mode, term: Seq<char>)
    requires
        term_accepted(mode, term),
    ensures
        search_result(mode, term, Some(Seq::<NodeView>::empty())) == Ok::<
            Seq<Seq<char>>,
            SearchError,
        >(Seq::empty()),
{
}

/// Where the rule takes exactly one node of a listing, the results are that
/// node's path, once.
pub proof fn law_single_match(rule: Rule, nodes: Seq<NodeView>, only: int)
    requires
        0 <= only < nodes.len(),
        selects(rule, nodes[only]),
        forall|j: int| 0 <= j < nodes.len() && j != only ==> !selects(rule, #[trigger] nodes[j]),
    ensures
        matches_of(rule, nodes) == seq![nodes[only].entry.path],
    decreases nodes.len(),
{
    let front = nodes.drop_last();
    assert(nodes.last() == nodes[nodes.len() - 1]);
    if only == nodes.len() - 1 {
        assert forall|j: int| 0 <= j < front.len() implies !selects(rule, #[trigger] front[j]) by {
            assert(front[j] == nodes[j]);
        }
        lemma_none_selected(rule, front);
        assert(matches_of(rule, nodes) =~= seq![nodes[only].entry.path]);
    } else {
        assert(front[only] == nodes[only]);
        assert forall|j: int| 0 <= j < front.len() && j != only implies !selects(
            rule,
            #[trigger] front[j],
        ) by {
            assert(front[j] == nodes[j]);
        }
        law_single_match(rule, front, only);
    }
}

/// How often `path` stands in a list of results.
pub open spec fn occurrences(paths: Seq<Seq<char>>, path: Seq<char>) -> nat
    decreases paths.len(),
{
    if paths.len() == 0 {
        0
    } else if paths.last() == path {
        occurrences(paths.drop_last(), path) + 1
    } else {
        occurrences(paths.drop_last(), path)
    }
}

/// No two nodes of the listing have the same path, as in the listing of a
/// tree.
pub open spec fn distinct_paths(nodes: Seq<NodeView>) -> bool {
    forall|i: int, j: int|
        0 <= i < j < nodes.len() ==> (#[trigger] nodes[i]).entry.path != (
        #[trigger] nodes[j]).entry.path
}

/// A path that no node of the listing has is not among the results.
pub proof fn lemma_foreign_path_is_no_result(rule: Rule, nodes: Seq<NodeView>, path: Seq<char>)
    requires
        forall|j: int| 0 <= j < nodes.len() ==> (#[trigger] nodes[j]).entry.path != path,
    ensures
        occurrences(matches_of(rule, nodes), path) == 0,
    decreases nodes.len(),
{
    if nodes.len() > 0 {
        let front = nodes.drop_last();
        assert forall|j: int| 0 <= j < front.len() implies (#[trigger] front[j]).entry.path
            != path by {
            assert(front[j] == nodes[j]);
        }
        lemma_foreign_path_is_no_result(rule, front, path);
        assert(nodes.last() == nodes[nodes.len() - 1]);
        if selects(rule, nodes.last()) {
            let found = matches_of(rule, front).push(nodes.last().entry.path);
            assert(found.drop_last() =~= matches_of(rule, front));
        }
    }
}

/// In the listing of a tree, the path of every node that the rule takes
/// stands among the results exactly once.
pub proof fn law_each_result_once(rule: Rule, nodes: Seq<NodeView>, taken: int)
    requires
        distinct_paths(nodes),
        0 <= taken < nodes.len(),
        selects(rule, nodes[taken]),
    ensures
        occurrences(matches_of(rule, nodes), nodes[taken].entry.path) == 1,
    decreases nodes.len(),
{
    let path = nodes[taken].entry.path;
    let front = nodes.drop_last();
    let last = nodes.last();
    assert(last == nodes[nodes.len() - 1]);
    assert forall|j: int| 0 <= j < front.len() implies #[trigger] front[j] == nodes[j] by {}
    if selects(rule, last) {
        let found = matches_of(rule, front).push(last.entry.path);
        assert(found.drop_last() =~= matches_of(rule, front));
    }
    if taken == nodes.len() - 1 {
        assert forall|j: int| 0 <= j < front.len() implies (#[trigger] front[j]).entry.path
            != path by {
            assert(front[j] == nodes[j]);
        }
        lemma_foreign_path_is_no_result(rule, front, path);
    } else {
        assert(front[taken] == nodes[taken]);
        assert(distinct_paths(front)) by {
            assert forall|i: int, j: int| 0 <= i < j < front.len() implies (
            #[trigger] front[i]).entry.path != (#[trigger] front[j]).entry.path by {
                assert(front[i] == nodes[i]);
                assert(front[j] == nodes[j]);
            }
        }
        law_each_result_once(rule, front, taken);
        assert(nodes[nodes.len() - 1].entry.path != nodes[taken].entry.path);
    }
}

/// A name search of the listing of a tree reports a file whose base name
/// the pattern matches exactly once, whatever else the tree holds.
pub proof fn law_matching_file_once(pattern: Seq<char>, nodes: Seq<NodeView>, file: int)
    requires
        distinct_paths(nodes),
        0 <= file < nodes.len(),
        nodes[file].entry.kind == EntryKind::File,
        nodes[file].entry.name matches Some(name) && regex_matches(pattern, name),
    ensures
        occurrences(matches_of(Rule::Name(pattern), nodes), nodes[file].entry.path) == 1,
{
    law_each_result_once(Rule::Name(pattern), nodes, file);
}

/// A name search of a tree in which exactly one entry is a file or directory
/// whose base name the pattern matches, and that entry is a file, yields
/// that file's path and nothing else.
pub proof fn law_single_name_match(pattern: Seq<char>, nodes: Seq<NodeView>, only: int)
    requires
        0 <= only < nodes.len(),
        nodes[only].entry.kind == EntryKind::File,
        name_selects(pattern, nodes[only].entry),
        forall|j: int|
            0 <= j < nodes.len() && j != only ==> !name_selects(
                pattern,
                (#[trigger] nodes[j]).entry,
            ),
    ensures
        matches_of(Rule::Name(pattern), nodes) == seq![nodes[only].entry.path],
{
    law_single_match(Rule::Name(pattern), nodes, only);
}

/// Lines none of which holds the term never make their file a result.
pub proof fn law_term_absent(term: Seq<u8>, lines: Seq<Seq<u8>>)
    requires
        forall|k: int| 0 <= k < lines.len() ==> !occurs_in(term, line_text(#[trigger] lines[k])),
    ensures
        !scan(term, lines),
    decreases lines.len(),
{
    if lines.len() > 0 {
        let rest = lines.drop_first();
        assert(lines.first() == lines[0]);
        assert forall|k: int| 0 <= k < rest.len() implies !occurs_in(
            term,
            line_text(#[trigger] rest[k]),
        ) by {
            assert(rest[k] == lines[k + 1]);
        }
        law_term_absent(term, rest);
    }
}

/// Lines that are all text, one of which holds the term, make their file a
/// result.
pub proof fn law_term_present(term: Seq<u8>, lines: Seq<Seq<u8>>, at: int)
    requires
        0 <= at < lines.len(),
        occurs_in(term, line_text(lines[at])),
        forall|k: int| 0 <= k <= at ==> valid_utf8(line_text(#[trigger] lines[k])),
    ensures
        scan(term, lines),
    decreases lines.len(),
{
    assert(lines.first() == lines[0]);
    assert(valid_utf8(line_text(lines[0])));
    if at > 0 && !occurs_in(term, line_text(lines[0])) {
        let rest = lines.drop_first();
        assert(rest[at - 1] == lines[at]);
        assert forall|k: int| 0 <= k <= at - 1 implies valid_utf8(line_text(#[trigger] rest[k])) by {
            assert(rest[k] == lines[k + 1]);
        }
        law_term_present(term, rest, at - 1);
    }
}

/// A content search never reports a file on whose lines the term does not
/// stand.
pub proof fn law_content_never_reports_without_term(term: Seq<u8>, node: NodeView)
    requires
        node.content matches Some(bytes) ==> forall|k: int|
            0 <= k < lines_of(bytes).len() ==> !occurs_in(
                term,
                line_text(#[trigger] lines_of(bytes)[k]),
            ),
    ensures
        !selects(Rule::Content(term), node),
{
    if let Some(bytes) = node.content {
        law_term_absent(term, lines_of(bytes));
    }
}

/// A content search reports a file of text once, on however many of its
/// lines the term stands.
pub proof fn law_content_reports_once(term: Seq<u8>, node: NodeView, at: int)
    requires
        node.entry.kind == EntryKind::File,
        node.content is Some,
        0 <= at < lines_of(node.content->0).len(),
        occurs_in(term, line_text(lines_of(node.content->0)[at])),
        forall|k: int|
            0 <= k <= at ==> valid_utf8(line_text(#[trigger] lines_of(node.content->0)[k])),
    ensures
        matches_of(Rule::Content(term), seq![node]) == seq![node.entry.path],
{
    law_term_present(term, lines_of(node.content->0), at);
    law_single_match(Rule::Content(term), seq![node], 0);
}

/// An entry that cannot be read, put anywhere into a listing, takes nothing
/// from the results and adds nothing to them.
pub proof fn law_unreadable_entry_changes_nothing(
    rule: Rule,
    nodes: Seq<NodeView>,
    at: int,
    locked: NodeView,
)
    requires
        0 <= at <= nodes.len(),
        locked.entry.kind == EntryKind::Unreadable,
    ensures
        matches_of(rule, nodes.insert(at, locked)) == matches_of(rule, nodes),
{
    let head = nodes.take(at);
    let tail = nodes.skip(at);
    assert(nodes.insert(at, locked) =~= (head + seq![locked]) + tail);
    assert(nodes =~= head + tail);
    lemma_matches_of_concat(rule, head + seq![locked], tail);
    lemma_matches_of_concat(rule, head, seq![locked]);
    lemma_matches_of_concat(rule, head, tail);
    assert(!selects(rule, locked));
    lemma_none_selected(rule, seq![locked]);
    assert(matches_of(rule, head) + Seq::<Seq<char>>::empty() =~= matches_of(rule, head));
}

/// A stream that is open and empty holds, once all results have arrived,
/// exactly those results in their order: the streamed form of a search ends
/// with what the batch form returns.
pub proof fn law_stream_agrees_with_batch(arrivals: Seq<Seq<char>>)
    ensures
        accepted_all(StreamStatus::Open, Seq::empty(), arrivals) == arrivals,
    decreases arrivals.len(),
{
    if arrivals.len() > 0 {
        law_stream_agrees_with_batch(arrivals.drop_last());
        assert(arrivals.drop_last().push(arrivals.last()) =~= arrivals);
    }
}

/// A name term that is no regular expression is refused whatever the tree
/// is, a missing root included.
pub proof fn law_invalid_pattern_first(term: Seq<char>, tree: Option<Seq<NodeView>>)
    requires
        !regex_accepts(ignoring_case(term)),
    ensures
        search_result(Mode::NameMatch, term, tree) == Err::<Seq<Seq<char>>, SearchError>(
            SearchError::InvalidPattern,
        ),
{
}

/// A run in two parts: the second part begins with the file under scan that
/// the first part leaves, and the results of the parts follow one another.
pub proof fn lemma_run_concat(
    rule: Rule,
    pending: Option<Seq<char>>,
    first: Seq<EventView>,
    second: Seq<EventView>,
)
    ensures
        settled(rule, pending, first + second) == settled(
            rule,
            settled(rule, pending, first),
            second,
        ),
        reports(rule, pending, first + second) == reports(rule, pending, first) + reports(
            rule,
            settled(rule, pending, first),
            second,
        ),
    decreases second.len(),
{
    let middle = settled(rule, pending, first);
    if second.len() == 0 {
        assert(first + second =~= first);
        assert(reports(rule, pending, first) + reports(rule, middle, second) =~= reports(
            rule,
            pending,
            first,
        ));
    } else {
        assert((first + second).drop_last() =~= first + second.drop_last());
        assert((first + second).last() == second.last());
        lemma_run_concat(rule, pending, first, second.drop_last());
        assert(reports(rule, pending, first + second) =~= reports(rule, pending, first) + reports(
            rule,
            middle,
            second,
        ));
    }
}

/// A run of one event is one turn.
pub proof fn lemma_run_single(rule: Rule, pending: Option<Seq<char>>, event: EventView)
    ensures
        settled(rule, pending, seq![event]) == turn(rule, pending, event).pending,
        reports(rule, pending, seq![event]) == match turn(rule, pending, event).report {
            Some(path) => seq![path],
            None => Seq::<Seq<char>>::empty(),
        },
{
    let run = seq![event];
    assert(run.drop_last() =~= Seq::<EventView>::empty());
    assert(run.last() == event);
    assert(settled(rule, pending, run.drop_last()) == pending);
    assert(reports(rule, pending, run.drop_last()) =~= Seq::<Seq<char>>::empty());
    assert(reports(rule, pending, run) =~= match turn(rule, pending, event).report {
        Some(path) => seq![path],
        None => Seq::<Seq<char>>::empty(),
    });
}

/// Fed the lines of the file under scan, the engine reports the file once
/// if the lines make it a result and not at all otherwise, and the scan is
/// over.
pub proof fn lemma_fed_lines(term: Seq<u8>, path: Seq<char>, lines: Seq<Seq<u8>>)
    ensures
        settled(Rule::Content(term), Some(path), fed(term, lines)) is None,
        reports(Rule::Content(term), Some(path), fed(term, lines)) == if scan(term, lines) {
            seq![path]
        } else {
            Seq::<Seq<char>>::empty()
        },
    decreases lines.len(),
{
    let rule = Rule::Content(term);
    if lines.len() == 0 {
        lemma_run_single(rule, Some(path), EventView::EndOfFile);
    } else {
        let head = EventView::Line(lines.first());
        lemma_run_single(rule, Some(path), head);
        if judge(term, lines.first()) == LineVerdict::Continue {
            let rest = fed(term, lines.drop_first());
            lemma_fed_lines(term, path, lines.drop_first());
            lemma_run_concat(rule, Some(path), seq![head], rest);
            assert(Seq::<Seq<char>>::empty() + reports(rule, Some(path), rest) =~= reports(
                rule,
                Some(path),
                rest,
            ));
        }
    }
}

/// Handed the events of one node while no scan is open, the engine reports
/// the node's path once if the rule takes the node and not at all otherwise,
/// and no scan is left open.
pub proof fn lemma_node_trace(rule: Rule, node: NodeView)
    ensures
        settled(rule, None, node_trace(rule, node)) is None,
        reports(rule, None, node_trace(rule, node)) == if selects(rule, node) {
            seq![node.entry.path]
        } else {
            Seq::<Seq<char>>::empty()
        },
{
    let entry = EventView::Entry(node.entry);
    lemma_run_single(rule, None, entry);
    match rule {
        Rule::Name(_) => {},
        Rule::Content(term) => {
            if node.entry.kind == EntryKind::File {
                let opened = Some(node.entry.path);
                let rest = match node.content {
                    Some(bytes) => fed(term, lines_of(bytes)),
                    None => seq![EventView::EndOfFile],
                };
                match node.content {
                    Some(bytes) => lemma_fed_lines(term, node.entry.path, lines_of(bytes)),
                    None => lemma_run_single(rule, opened, EventView::EndOfFile),
                }
                lemma_run_concat(rule, None, seq![entry], rest);
                assert(Seq::<Seq<char>>::empty() + reports(rule, opened, rest) =~= reports(
                    rule,
                    opened,
                    rest,
                ));
            }
        },
    }
}

/// An engine driven over a listing, event by event as a streaming worker
/// drives it, finds exactly the results of the batch form, in the same
/// order, and ends with no scan open.
pub proof fn law_driven_engine_agrees_with_batch(rule: Rule, nodes: Seq<NodeView>)
    ensures
        settled(rule, None, trace(rule, nodes)) is None,
        reports(rule, None, trace(rule, nodes)) == matches_of(rule, nodes),
    decreases nodes.len(),
{
    if nodes.len() > 0 {
        let before = trace(rule, nodes.drop_last());
        let last = node_trace(rule, nodes.last());
        law_driven_engine_agrees_with_batch(rule, nodes.drop_last());
        lemma_node_trace(rule, nodes.last());
        lemma_run_concat(rule, None, before, last);
        assert(settled(rule, None, before) == None::<Seq<char>>);
        if selects(rule, nodes.last()) {
            assert(matches_of(rule, nodes.drop_last()) + seq![nodes.last().entry.path]
                =~= matches_of(rule, nodes.drop_last()).push(nodes.last().entry.path));
        } else {
            assert(matches_of(rule, nodes.drop_last()) + Seq::<Seq<char>>::empty() =~= matches_of(
                rule,
                nodes.drop_last(),
            ));
        }
    }
}

} // verus!
