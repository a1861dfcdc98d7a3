//! What a caller asks for, and how a request can fail.

use vstd::prelude::*;
use vstd::string::StringExecFns;

verus! {

/// How the term of a request is read.
#[derive(Clone, Copy, Debug, PartialEq, Eq, Structural)]
pub enum Mode {
    /// The term is a regular expression, tried on the base name of files and
    /// directories.
    NameMatch,
    /// The term is a literal, looked for on the lines of files.
    ContentMatch,
}

/// The ways a search ends without a result.
#[derive(Clone, Copy, Debug, PartialEq, Eq, Structural)]
pub enum SearchError {
    /// The term of a name search is not a regular expression.
    InvalidPattern,
    /// The root is missing or is not a directory.
    RootNotFound,
    /// A streamed search lost its worker before the walk was over.
    ChannelClosedPrematurely,
}

/// One search: where to look, what for, and how. Fixed once built.
pub struct SearchRequest {
    root: String,
    term: String,
    mode: Mode,
}

impl SearchRequest {
    #[verifier::type_invariant]
    spec fn nonempty_term(self) -> bool {
        self.term@.len() > 0
    }

    /// The directory the walk starts from.
    pub closed spec fn root_text(&self) -> Seq<char> {
        self.root@
    }

    /// The term, never empty.
    pub closed spec fn term_text(&self) -> Seq<char> {
        self.term@
    }

    /// The mode.
    pub closed spec fn spec_mode(&self) -> Mode {
        self.mode
    }

    /// Builds a request; there is none for an empty term.
    pub fn new(root: &str, term: &str, mode: Mode) -> (res: Option<SearchRequest>)
        ensures
            res is Some <==> term@.len() > 0,
            res matches Some(req) ==> req.root_text() == root@ && req.term_text() == term@
                && req.spec_mode() == mode,
    {
        if term.is_empty() {
            None
        } else {
            Some(SearchRequest { root: String::from_str(root), term: String::from_str(term), mode })
        }
    }

    /// The directory the walk starts from.
    pub fn root(&self) -> (root: &str)
        ensures
            root@ == self.root_text(),
    {
        self.root.as_str()
    }

    /// The term.
    pub fn term(&self) -> (term: &str)
        ensures
            term@ == self.term_text(),
            term@.len() > 0,
    {
        proof {
            use_type_invariant(self);
        }
        self.term.as_str()
    }

    /// The mode.
    #[verifier::when_used_as_spec(spec_mode)]
    pub fn mode(&self) -> (mode: Mode)
        ensures
            mode == self.spec_mode(),
    {
        self.mode
    }
}

} // verus!
