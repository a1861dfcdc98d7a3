//! The engine as a state machine. A driver walks the tree and reads the
//! files; after each thing it has seen it hands the engine an event, and the
//! engine answers with a result, if there is one, and with what it wants to
//! see next.

use crate::content::{judge, judge_line, lines_of, LineVerdict};
use crate::entry::{Entry, EntryView, NodeView};
use crate::matcher::{content_eligible, is_eligible, name_selects, Matcher, Rule};
use crate::request::{Mode, SearchError};
use vstd::prelude::*;

verus! {

/// What a driver has seen.
pub enum Event<'a> {
    /// The walk has reached an entry.
    Entry(&'a Entry),
    /// The file under scan has yielded a line, line ending included.
    Line(&'a [u8]),
    /// The file under scan has no further line, or could not be read.
    EndOfFile,
}

/// An event as a value of the model.
pub enum EventView {
    Entry(EntryView),
    Line(Seq<u8>),
    EndOfFile,
}

impl<'a> View for Event<'a> {
    type V = EventView;

    open spec fn view(&self) -> EventView {
        match self {
            Event::Entry(entry) => EventView::Entry(entry@),
            Event::Line(raw) => EventView::Line(raw@),
            Event::EndOfFile => EventView::EndOfFile,
        }
    }
}

/// What the engine wants to see next.
#[derive(Clone, Copy, Debug, PartialEq, Eq, Structural)]
pub enum Demand {
    /// The next entry of the walk.
    Entry,
    /// The next line of the entry seen last.
    Line,
}

/// The answer to an event.
pub struct Outcome {
    /// The path of a result found by this event.
    pub report: Option<String>,
    /// What to hand in next.
    pub demand: Demand,
}

/// One turn of the model: the file under scan afterwards, and the result
/// found.
pub struct Turn {
    pub pending: Option<Seq<char>>,
    pub report: Option<Seq<char>>,
}

/// The turn the engine takes on an event, with `pending` the file under scan
/// before it. An entry ends the scan of the file before it. A name search
/// decides at the entry. A content search opens a scan on a file and decides
/// at the first line that is not plain text without the term. A line or an
/// end of file that no scan awaits changes nothing.
pub open spec fn turn(rule: Rule, pending: Option<Seq<char>>, event: EventView) -> Turn {
    match event {
        EventView::Entry(entry) => match rule {
            Rule::Name(pattern) => Turn {
                pending: None,
                report: if name_selects(pattern, entry) {
                    Some(entry.path)
                } else {
                    None
                },
            },
            Rule::Content(_) => Turn {
                pending: if content_eligible(entry) {
                    Some(entry.path)
                } else {
                    None
                },
                report: None,
            },
        },
        EventView::Line(raw) => match (rule, pending) {
            (Rule::Content(term), Some(path)) => match judge(term, raw) {
                LineVerdict::Match => Turn { pending: None, report: Some(path) },
                LineVerdict::Abandon => Turn { pending: None, report: None },
                LineVerdict::Continue => Turn { pending: Some(path), report: None },
            },
            _ => Turn { pending: None, report: None },
        },
        EventView::EndOfFile => Turn { pending: None, report: None },
    }
}

/// The file under scan after a run of events, begun with `pending` under
/// scan.
pub open spec fn settled(rule: Rule, pending: Option<Seq<char>>, events: Seq<EventView>) -> Option<
    Seq<char>,
>
    decreases events.len(),
{
    if events.len() == 0 {
        pending
    } else {
        turn(rule, settled(rule, pending, events.drop_last()), events.last()).pending
    }
}

/// The results found by a run of events, in the order in which they were
/// found.
pub open spec fn reports(rule: Rule, pending: Option<Seq<char>>, events: Seq<EventView>) -> Seq<
    Seq<char>,
>
    decreases events.len(),
{
    if events.len() == 0 {
        Seq::empty()
    } else {
        let before = reports(rule, pending, events.drop_last());
        match turn(rule, settled(rule, pending, events.drop_last()), events.last()).report {
            Some(path) => before.push(path),
            None => before,
        }
    }
}

/// The events a driver hands in for the lines of a file under scan: line
/// after line as long as the engine asks for more, and an end of file where
/// the lines run out first.
pub open spec fn fed(term: Seq<u8>, lines: Seq<Seq<u8>>) -> Seq<EventView>
    decreases lines.len(),
{
    if lines.len() == 0 {
        seq![EventView::EndOfFile]
    } else {
        match judge(term, lines.first()) {
            LineVerdict::Continue => seq![EventView::Line(lines.first())] + fed(
                term,
                lines.drop_first(),
            ),
            _ => seq![EventView::Line(lines.first())],
        }
    }
}

/// The events a driver hands in for one node: its entry and, where the
/// engine then asks for lines, what reading the node yields.
pub open spec fn node_trace(rule: Rule, node: NodeView) -> Seq<EventView> {
    let entry = seq![EventView::Entry(node.entry)];
    match rule {
        Rule::Name(_) => entry,
        Rule::Content(term) => if content_eligible(node.entry) {
            match node.content {
                Some(bytes) => entry + fed(term, lines_of(bytes)),
                None => entry + seq![EventView::EndOfFile],
            }
        } else {
            entry
        },
    }
}

/// The events a driver hands in for a listing, node after node.
pub open spec fn trace(rule: Rule, nodes: Seq<NodeView>) -> Seq<EventView>
    decreases nodes.len(),
{
    if nodes.len() == 0 {
        Seq::empty()
    } else {
        trace(rule, nodes.drop_last()) + node_trace(rule, nodes.last())
    }
}

/// What the engine asks for while `pending` is under scan.
pub open spec fn demand_of(pending: Option<Seq<char>>) -> Demand {
    if pending is Some {
        Demand::Line
    } else {
        Demand::Entry
    }
}

/// A search in progress.
pub struct Search {
    matcher: Matcher,
    pending: Option<String>,
}

impl Search {
    /// The rule of this search.
    pub closed spec fn rule(&self) -> Rule {
        self.matcher@
    }

    /// The path of the file under scan, if a scan is open.
    pub closed spec fn pending(&self) -> Option<Seq<char>> {
        match self.pending {
            Some(path) => Some(path@),
            None => None,
        }
    }

    /// Opens a search under a root. The predicate is at hand by now, so a
    /// term that is refused has been refused already; what can still fail
    /// is a root that is no directory. The search awaits the first entry.
    pub fn open(matcher: Matcher, root_is_directory: bool) -> (res: Result<Search, SearchError>)
        ensures
            res is Ok <==> root_is_directory,
            res matches Ok(search) ==> search.rule() == matcher@ && search.pending() is None,
            res matches Err(e) ==> e == SearchError::RootNotFound,
    {
        if root_is_directory {
            Ok(Search { matcher, pending: None })
        } else {
            Err(SearchError::RootNotFound)
        }
    }

    /// What the engine wants to see next.
    pub fn demand(&self) -> (demand: Demand)
        ensures
            demand == demand_of(self.pending()),
    {
        match self.pending {
            Some(_) => Demand::Line,
            None => Demand::Entry,
        }
    }

    /// Takes one event.
    pub fn step(&mut self, event: Event<'_>) -> (outcome: Outcome)
        ensures
            final(self).rule() == old(self).rule(),
            final(self).pending() == turn(old(self).rule(), old(self).pending(), event@).pending,
            outcome.demand == demand_of(final(self).pending()),
            outcome.report is Some == turn(
                old(self).rule(),
                old(self).pending(),
                event@,
            ).report is Some,
            outcome.report matches Some(path) ==> Some(path@) == turn(
                old(self).rule(),
                old(self).pending(),
                event@,
            ).report,
    {
        match event {
            Event::Entry(entry) => match &self.matcher {
                Matcher::Name(_) => {
                    let taken = self.matcher.selects_entry(entry);
                    self.pending = None;
                    if taken {
                        Outcome { report: Some(entry.path.clone()), demand: Demand::Entry }
                    } else {
                        Outcome { report: None, demand: Demand::Entry }
                    }
                },
                Matcher::Content(_) => {
                    if is_eligible(Mode::ContentMatch, entry.kind) {
                        self.pending = Some(entry.path.clone());
                        Outcome { report: None, demand: Demand::Line }
                    } else {
                        self.pending = None;
                        Outcome { report: None, demand: Demand::Entry }
                    }
                },
            },
            Event::Line(raw) => {
                let verdict = match &self.matcher {
                    Matcher::Content(term) => if self.pending.is_some() {
                        judge_line(term.as_slice(), raw)
                    } else {
                        LineVerdict::Abandon
                    },
                    Matcher::Name(_) => LineVerdict::Abandon,
                };
                match verdict {
                    LineVerdict::Continue => Outcome { report: None, demand: Demand::Line },
                    LineVerdict::Match => {
                        let report = self.pending.take();
                        Outcome { report, demand: Demand::Entry }
                    },
                    LineVerdict::Abandon => {
                        self.pending = None;
                        Outcome { report: None, demand: Demand::Entry }
                    },
                }
            },
            Event::EndOfFile => {
                self.pending = None;
                Outcome { report: None, demand: Demand::Entry }
            },
        }
    }
}

} // verus!
