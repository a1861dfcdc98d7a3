//! The command line: `<directory> <term> [-n|-c]`.

use crate::path::texts;
use crate::request::{Mode, SearchRequest};
use vstd::prelude::*;
use vstd::string::StringExecFns;

verus! {

/// Why a command line is refused.
#[derive(Clone, Copy, Debug, PartialEq, Eq, Structural)]
pub enum CliError {
    /// Arguments are missing, are too many, or the term is empty.
    Usage,
    /// The third argument is neither `-n` nor `-c`.
    UnknownFlag,
}

/// What a command line asks for.
pub struct Command {
    pub root: Seq<char>,
    pub term: Seq<char>,
    pub mode: Mode,
}

/// The flag that asks for a search by name.
pub open spec fn name_flag() -> Seq<char> {
    seq!['-', 'n']
}

/// The flag that asks for a search by content.
pub open spec fn content_flag() -> Seq<char> {
    seq!['-', 'c']
}

/// The reading of the arguments that follow the program's name. There are
/// two or three of them: the directory, the term, and a flag that picks the
/// mode, which is by name where the flag is left out. The number of
/// arguments is looked at first, then the flag, then the term.
pub open spec fn parsed(args: Seq<Seq<char>>) -> Result<Command, CliError> {
    if args.len() < 2 || args.len() > 3 {
        Err(CliError::Usage)
    } else if args.len() == 3 && args[2] != name_flag() && args[2] != content_flag() {
        Err(CliError::UnknownFlag)
    } else if args[1].len() == 0 {
        Err(CliError::Usage)
    } else {
        Ok(
            Command {
                root: args[0],
                term: args[1],
                mode: if args.len() == 3 && args[2] == content_flag() {
                    Mode::ContentMatch
                } else {
                    Mode::NameMatch
                },
            },
        )
    }
}

/// Reads the arguments that follow the program's name.
pub fn parse_args(args: &Vec<String>) -> (res: Result<SearchRequest, CliError>)
    ensures
        match parsed(texts(args@)) {
            Ok(command) => {
                &&& res matches Ok(request)
                &&& request.root_text() == command.root
                &&& request.term_text() == command.term
                &&& request.spec_mode() == command.mode
            },
            Err(e) => res matches Err(raised) && raised == e,
        },
{
    if args.len() < 2 || args.len() > 3 {
        return Err(CliError::Usage);
    }
    let mut mode = Mode::NameMatch;
    if args.len() == 3 {
        proof {
            reveal_strlit("-n");
            reveal_strlit("-c");
            assert("-n"@ =~= name_flag());
            assert("-c"@ =~= content_flag());
        }
        if args[2] == String::from_str("-c") {
            mode = Mode::ContentMatch;
        } else if args[2] != String::from_str("-n") {
            return Err(CliError::UnknownFlag);
        }
    }
    match SearchRequest::new(args[0].as_str(), args[1].as_str(), mode) {
        Some(request) => Ok(request),
        None => Err(CliError::Usage),
    }
}

} // verus!
