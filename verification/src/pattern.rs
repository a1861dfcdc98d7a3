//! Name patterns: regular expressions compiled and evaluated by the `regex`
//! crate.

use crate::request::SearchError;
use regex::Regex;
use vstd::prelude::*;
use vstd::string::StringExecFns;

verus! {

#[verifier::external_type_specification]
#[verifier::external_body]
pub struct ExRegex(regex::Regex);

#[verifier::external_type_specification]
#[verifier::external_body]
pub struct ExRegexError(regex::Error);

/// Whether `Regex::new` accepts the pattern text, with the limits the crate
/// sets by default on the target the library is built for.
pub uninterp spec fn regex_accepts(pattern: Seq<char>) -> bool;

/// Whether the regular expression written as `pattern`, compiled with the
/// crate's default options as `Regex::new` compiles it, has a match
/// somewhere in `text`, as `Regex::is_match` decides it.
pub uninterp spec fn regex_matches(pattern: Seq<char>, text: Seq<char>) -> bool;

/// The pattern text a compiled expression was built from, which
/// `Regex::as_str` hands back.
pub uninterp spec fn regex_source(re: Regex) -> Seq<char>;

/// Whether a compiled expression was built with the crate's default options,
/// as `Regex::new` builds it. A builder can set options that change what an
/// expression matches and leave its text as it is; of such an expression the
/// text alone does not say what it matches.
pub uninterp spec fn regex_plain(re: Regex) -> bool;

/// `Regex::new`. Trusted: it succeeds exactly on the pattern texts the crate
/// accepts, and the compiled expression is built with the default options
/// and keeps the text it was built from.
#[verifier::external_body]
fn regex_new(pattern: &str) -> (res: Result<Regex, regex::Error>)
    ensures
        res is Ok == regex_accepts(pattern@),
        res matches Ok(re) ==> regex_source(re) == pattern@ && regex_plain(re),
{
    Regex::new(pattern)
}

/// `Regex::is_match`. Trusted: of an expression built with the default
/// options, the answer depends on the expression's text and on the haystack
/// alone.
#[verifier::external_body]
fn regex_is_match(re: &Regex, text: &str) -> (found: bool)
    ensures
        regex_plain(*re) ==> found == regex_matches(regex_source(*re), text@),
{
    re.is_match(text)
}

/// `Regex::as_str`. Trusted: it hands back the text the expression was built
/// from.
#[verifier::external_body]
fn regex_as_str(re: &Regex) -> (text: &str)
    ensures
        text@ == regex_source(*re),
{
    re.as_str()
}

/// The pattern text compiled for a term: the term behind the flag that makes
/// the whole expression ignore case.
pub open spec fn ignoring_case(term: Seq<char>) -> Seq<char> {
    seq!['(', '?', 'i', ')'] + term
}

/// A compiled name pattern. Names are matched without regard to case.
pub struct NamePattern {
    regex: Regex,
}

impl NamePattern {
    #[verifier::type_invariant]
    spec fn built_plain(self) -> bool {
        regex_plain(self.regex)
    }

    /// The pattern text this value was compiled from.
    pub closed spec fn source(&self) -> Seq<char> {
        regex_source(self.regex)
    }

    /// Whether the pattern matches somewhere in `name`.
    pub open spec fn accepts(&self, name: Seq<char>) -> bool {
        regex_matches(self.source(), name)
    }

    /// Compiles `term` as a regular expression that ignores case.
    pub fn compile(term: &str) -> (res: Result<NamePattern, SearchError>)
        ensures
            res is Ok <==> regex_accepts(ignoring_case(term@)),
            res matches Ok(p) ==> p.source() == ignoring_case(term@),
            res matches Err(e) ==> e == SearchError::InvalidPattern,
    {
        let text = String::from_str("(?i)").concat(term);
        proof {
            reveal_strlit("(?i)");
            assert(text@ =~= ignoring_case(term@));
        }
        match regex_new(text.as_str()) {
            Ok(regex) => Ok(NamePattern { regex }),
            Err(_) => Err(SearchError::InvalidPattern),
        }
    }

    /// The pattern text this value was compiled from.
    pub fn as_str(&self) -> (text: &str)
        ensures
            text@ == self.source(),
    {
        regex_as_str(&self.regex)
    }

    /// Tries the pattern on a name.
    pub fn is_match(&self, name: &str) -> (found: bool)
        ensures
            found == self.accepts(name@),
    {
        proof {
            use_type_invariant(self);
        }
        regex_is_match(&self.regex, name)
    }
}

} // verus!
