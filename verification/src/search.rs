//! Searches over a tree held in memory: the batch form, which returns all
//! results at once, and the streamed form, which drives the engine event by
//! event and delivers each result as it is found.

use crate::content::{lines_from, lines_of, next_line_end, scan};
use crate::engine::{demand_of, Demand, Event, Search};
use crate::entry::{listing, Node, NodeView};
use crate::matcher::{matches_of, rule_for, selects, term_accepted, Matcher, Rule};
use crate::path::texts;
use crate::request::{Mode, SearchError, SearchRequest};
use crate::stream::{accepted, accepted_all, closed_as, Inbox, StreamStatus};
use vstd::prelude::*;
use vstd::slice::slice_subrange;

verus! {

/// The tree a search runs on, as a value of the model: the listing of what
/// lies under the root, or nothing where the root is no directory.
pub open spec fn tree_view(tree: Option<&Vec<Node>>) -> Option<Seq<NodeView>> {
    match tree {
        Some(nodes) => Some(listing(nodes@)),
        None => None,
    }
}

/// What a search answers. A name term that is no regular expression is
/// refused first, whatever the tree; then a root that is no directory; and
/// else the answer is the results of the request's rule on the listing.
pub open spec fn search_result(mode: Mode, term: Seq<char>, tree: Option<Seq<NodeView>>) -> Result<
    Seq<Seq<char>>,
    SearchError,
> {
    if !term_accepted(mode, term) {
        Err(SearchError::InvalidPattern)
    } else {
        match tree {
            None => Err(SearchError::RootNotFound),
            Some(nodes) => Ok(matches_of(rule_for(mode, term), nodes)),
        }
    }
}

/// The results of a predicate on a listing, in the order of the listing.
pub fn collect(matcher: &Matcher, nodes: &Vec<Node>) -> (found: Vec<String>)
    ensures
        texts(found@) == matches_of(matcher@, listing(nodes@)),
{
    let mut found: Vec<String> = Vec::new();
    let mut i: usize = 0;
    assert(texts(found@) =~= Seq::<Seq<char>>::empty());
    while i < nodes.len()
        invariant
            i <= nodes@.len(),
            texts(found@) == matches_of(matcher@, listing(nodes@).take(i as int)),
        decreases nodes@.len() - i,
    {
        let ghost before = texts(found@);
        proof {
            let upto = listing(nodes@).take(i + 1);
            assert(upto.drop_last() =~= listing(nodes@).take(i as int));
            assert(upto.last() == nodes@[i as int]@);
        }
        if matcher.selects_node(&nodes[i]) {
            found.push(nodes[i].entry.path.clone());
            assert(texts(found@) =~= before.push(nodes@[i as int]@.entry.path));
        }
        i = i + 1;
    }
    assert(listing(nodes@).take(i as int) =~= listing(nodes@));
    found
}

/// Searches a tree held in memory and returns all results at once.
pub fn search(request: &SearchRequest, tree: Option<&Vec<Node>>) -> (res: Result<
    Vec<String>,
    SearchError,
>)
    ensures
        match search_result(request.spec_mode(), request.term_text(), tree_view(tree)) {
            Ok(paths) => res matches Ok(found) && texts(found@) == paths,
            Err(e) => res matches Err(raised) && raised == e,
        },
{
    let matcher = match Matcher::for_request(request) {
        Ok(matcher) => matcher,
        Err(e) => {
            return Err(e);
        },
    };
    match tree {
        None => Err(SearchError::RootNotFound),
        Some(nodes) => Ok(collect(&matcher, nodes)),
    }
}

/// The results held after a node has been dealt with: its path has arrived
/// if the rule takes the node.
pub open spec fn after_node(
    rule: Rule,
    status: StreamStatus,
    paths: Seq<Seq<char>>,
    node: NodeView,
) -> Seq<Seq<char>> {
    if selects(rule, node) {
        accepted(status, paths, node.entry.path)
    } else {
        paths
    }
}

/// Hands a result, if there is one, to the consumer.
fn deliver(inbox: &mut Inbox, report: Option<String>)
    ensures
        final(inbox).status() == old(inbox).status(),
        final(inbox).paths() == match report {
            Some(path) => accepted(old(inbox).status(), old(inbox).paths(), path@),
            None => old(inbox).paths(),
        },
{
    match report {
        Some(path) => inbox.accept(path),
        None => {},
    }
}

/// Feeds the lines of a file to a search that awaits them, until the search
/// has decided or the lines are used up.
fn stream_lines(search: &mut Search, bytes: &[u8], inbox: &mut Inbox)
    requires
        old(search).rule() is Content,
        old(search).pending() is Some,
    ensures
        final(search).rule() == old(search).rule(),
        final(search).pending() is None,
        final(inbox).status() == old(inbox).status(),
        final(inbox).paths() == if scan(old(search).rule()->Content_0, lines_of(bytes@)) {
            accepted(old(inbox).status(), old(inbox).paths(), old(search).pending()->0)
        } else {
            old(inbox).paths()
        },
{
    let ghost term = search.rule()->Content_0;
    let ghost path = search.pending()->0;
    let ghost whole = scan(term, lines_of(bytes@));
    let len: usize = bytes.len();
    let mut from: usize = 0;
    let mut demand = Demand::Line;
    while demand == Demand::Line && from < len
        invariant
            len == bytes@.len(),
            from <= len,
            search.rule() == Rule::Content(term),
            demand == demand_of(search.pending()),
            inbox.status() == old(inbox).status(),
            whole == scan(term, lines_of(bytes@)),
            demand == Demand::Line ==> search.pending() == Some(path) && whole == scan(
                term,
                lines_from(bytes@, from as int),
            ) && inbox.paths() == old(inbox).paths(),
            demand == Demand::Entry ==> inbox.paths() == if whole {
                accepted(old(inbox).status(), old(inbox).paths(), path)
            } else {
                old(inbox).paths()
            },
        decreases len - from,
    {
        let end = next_line_end(bytes, from);
        let raw = slice_subrange(bytes, from, end);
        proof {
            let rest = lines_from(bytes@, end as int);
            assert(lines_from(bytes@, from as int) =~= seq![raw@] + rest);
            assert((seq![raw@] + rest).first() == raw@);
            assert((seq![raw@] + rest).drop_first() =~= rest);
        }
        let outcome = search.step(Event::Line(raw));
        demand = outcome.demand;
        deliver(inbox, outcome.report);
        from = end;
    }
    if demand == Demand::Line {
        let _ = search.step(Event::EndOfFile);
    }
}

/// Deals with one node: hands its entry to the search and, where the search
/// asks for them, its lines.
fn stream_node(search: &mut Search, node: &Node, inbox: &mut Inbox)
    requires
        old(search).pending() is None,
    ensures
        final(search).rule() == old(search).rule(),
        final(search).pending() is None,
        final(inbox).status() == old(inbox).status(),
        final(inbox).paths() == after_node(
            old(search).rule(),
            old(inbox).status(),
            old(inbox).paths(),
            node@,
        ),
{
    let outcome = search.step(Event::Entry(&node.entry));
    let demand = outcome.demand;
    deliver(inbox, outcome.report);
    if demand == Demand::Line {
        match &node.content {
            Some(bytes) => stream_lines(search, bytes.as_slice(), inbox),
            None => {
                let _ = search.step(Event::EndOfFile);
            },
        }
    }
}

/// Searches a tree held in memory and delivers each result to `inbox` as it
/// is found, then closes the stream. A request that is refused leaves the
/// inbox as it was.
pub fn search_stream(request: &SearchRequest, tree: Option<&Vec<Node>>, inbox: &mut Inbox) -> (res:
    Result<(), SearchError>)
    ensures
        match search_result(request.spec_mode(), request.term_text(), tree_view(tree)) {
            Ok(paths) => {
                &&& res is Ok
                &&& final(inbox).paths() == accepted_all(
                    old(inbox).status(),
                    old(inbox).paths(),
                    paths,
                )
                &&& final(inbox).status() == closed_as(old(inbox).status(), true)
            },
            Err(e) => {
                &&& res matches Err(raised) && raised == e
                &&& final(inbox).paths() == old(inbox).paths()
                &&& final(inbox).status() == old(inbox).status()
            },
        },
{
    let matcher = match Matcher::for_request(request) {
        Ok(matcher) => matcher,
        Err(e) => {
            return Err(e);
        },
    };
    let ghost rule = matcher@;
    let mut search = match Search::open(matcher, tree.is_some()) {
        Ok(search) => search,
        Err(e) => {
            return Err(e);
        },
    };
    if let Some(nodes) = tree {
        let mut i: usize = 0;
        while i < nodes.len()
            invariant
                i <= nodes@.len(),
                search.rule() == rule,
                search.pending() is None,
                inbox.status() == old(inbox).status(),
                inbox.paths() == accepted_all(
                    old(inbox).status(),
                    old(inbox).paths(),
                    matches_of(rule, listing(nodes@).take(i as int)),
                ),
            decreases nodes@.len() - i,
        {
            proof {
                let upto = listing(nodes@).take(i + 1);
                assert(upto.drop_last() =~= listing(nodes@).take(i as int));
                assert(upto.last() == nodes@[i as int]@);
                let before = matches_of(rule, listing(nodes@).take(i as int));
                if selects(rule, nodes@[i as int]@) {
                    let now = before.push(nodes@[i as int]@.entry.path);
                    assert(now.drop_last() =~= before);
                }
            }
            stream_node(&mut search, &nodes[i], inbox);
            i = i + 1;
        }
        assert(listing(nodes@).take(i as int) =~= listing(nodes@));
    }
    inbox.close(true);
    Ok(())
}

} // verus!
