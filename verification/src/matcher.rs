//! The predicate of a search: which entries are results.

use crate::content::{lines_of, scan, scan_text};
use crate::entry::{Entry, EntryKind, EntryView, Node, NodeView};
use crate::pattern::{ignoring_case, regex_accepts, regex_matches, NamePattern};
use crate::request::{Mode, SearchError, SearchRequest};
use vstd::prelude::*;
use vstd::string::StrSliceExecFns;
use vstd::utf8::encode_utf8;

verus! {

/// A predicate as a value of the model.
pub enum Rule {
    /// Names are tried against the regular expression with this text.
    Name(Seq<char>),
    /// Lines are searched for these bytes.
    Content(Seq<u8>),
}

/// The rule a request asks for.
pub open spec fn rule_for(mode: Mode, term: Seq<char>) -> Rule {
    match mode {
        Mode::NameMatch => Rule::Name(ignoring_case(term)),
        Mode::ContentMatch => Rule::Content(encode_utf8(term)),
    }
}

/// Whether the term of a request is accepted in its mode: a name term has
/// to be a regular expression, a content term is taken as it is.
pub open spec fn term_accepted(mode: Mode, term: Seq<char>) -> bool {
    mode == Mode::NameMatch ==> regex_accepts(ignoring_case(term))
}

/// Whether a search in `mode` tries entries of `kind` at all: files and
/// directories by name, files alone by content.
pub open spec fn eligible(mode: Mode, kind: EntryKind) -> bool {
    match mode {
        Mode::NameMatch => kind == EntryKind::File || kind == EntryKind::Directory,
        Mode::ContentMatch => kind == EntryKind::File,
    }
}

/// Whether a search in `mode` tries entries of `kind` at all.
pub fn is_eligible(mode: Mode, kind: EntryKind) -> (tried: bool)
    ensures
        tried == eligible(mode, kind),
{
    match kind {
        EntryKind::File => true,
        EntryKind::Directory => mode == Mode::NameMatch,
        EntryKind::Unreadable => false,
    }
}

/// Whether the name rule with pattern text `pattern` takes an entry: one
/// that is eligible, has a base name, and whose base name the pattern
/// matches.
pub open spec fn name_selects(pattern: Seq<char>, entry: EntryView) -> bool {
    &&& eligible(Mode::NameMatch, entry.kind)
    &&& entry.name matches Some(name)
    &&& regex_matches(pattern, name)
}

/// Whether the content rule reads an entry at all.
pub open spec fn content_eligible(entry: EntryView) -> bool {
    eligible(Mode::ContentMatch, entry.kind)
}

/// Whether a rule takes a node.
pub open spec fn selects(rule: Rule, node: NodeView) -> bool {
    match rule {
        Rule::Name(pattern) => name_selects(pattern, node.entry),
        Rule::Content(term) => {
            &&& content_eligible(node.entry)
            &&& node.content matches Some(bytes)
            &&& scan(term, lines_of(bytes))
        },
    }
}

/// The results of a rule on a listing: the paths of the nodes it takes, in
/// the order of the listing, each as often as it is listed.
pub open spec fn matches_of(rule: Rule, nodes: Seq<NodeView>) -> Seq<Seq<char>>
    decreases nodes.len(),
{
    if nodes.len() == 0 {
        Seq::empty()
    } else {
        let before = matches_of(rule, nodes.drop_last());
        if selects(rule, nodes.last()) {
            before.push(nodes.last().entry.path)
        } else {
            before
        }
    }
}

/// A compiled predicate.
pub enum Matcher {
    /// Base names are tried against this pattern.
    Name(NamePattern),
    /// Lines are searched for these bytes.
    Content(Vec<u8>),
}

impl View for Matcher {
    type V = Rule;

    open spec fn view(&self) -> Rule {
        match self {
            Matcher::Name(pattern) => Rule::Name(pattern.source()),
            Matcher::Content(term) => Rule::Content(term@),
        }
    }
}

impl Matcher {
    /// Prepares the predicate of a request. This is where a name term that
    /// is no regular expression is refused; nothing of the tree is needed
    /// for it.
    pub fn for_request(request: &SearchRequest) -> (res: Result<Matcher, SearchError>)
        ensures
            res is Ok <==> term_accepted(request.spec_mode(), request.term_text()),
            res matches Ok(matcher) ==> matcher@ == rule_for(
                request.spec_mode(),
                request.term_text(),
            ),
            res matches Err(e) ==> e == SearchError::InvalidPattern,
    {
        match request.mode() {
            Mode::NameMatch => match NamePattern::compile(request.term()) {
                Ok(pattern) => Ok(Matcher::Name(pattern)),
                Err(e) => Err(e),
            },
            Mode::ContentMatch => Ok(Matcher::Content(request.term().as_bytes_vec())),
        }
    }

    /// Whether the name rule takes an entry; `false` for the content rule,
    /// which never decides by the entry alone.
    pub fn selects_entry(&self, entry: &Entry) -> (taken: bool)
        ensures
            taken == match self@ {
                Rule::Name(pattern) => name_selects(pattern, entry@),
                Rule::Content(_) => false,
            },
    {
        match self {
            Matcher::Name(pattern) => is_eligible(Mode::NameMatch, entry.kind) && match &entry.name {
                Some(name) => pattern.is_match(name.as_str()),
                None => false,
            },
            Matcher::Content(_) => false,
        }
    }

    /// Whether the predicate takes a node of a tree held in memory.
    pub fn selects_node(&self, node: &Node) -> (taken: bool)
        ensures
            taken == selects(self@, node@),
    {
        match self {
            Matcher::Name(_) => self.selects_entry(&node.entry),
            Matcher::Content(term) => is_eligible(Mode::ContentMatch, node.entry.kind)
                && match &node.content {
                Some(bytes) => scan_text(term.as_slice(), bytes.as_slice()),
                None => false,
            },
        }
    }
}

} // verus!
