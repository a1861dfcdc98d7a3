//! Content as bytes: where a literal term occurs, how a buffer falls into
//! lines, and what one line decides about its file.

use vstd::prelude::*;
use vstd::slice::slice_subrange;
use vstd::utf8::valid_utf8;

verus! {

/// The byte that ends a line.
pub const NEWLINE: u8 = 10;

/// The byte that may stand before the newline and belongs to the line ending.
pub const CARRIAGE_RETURN: u8 = 13;

/// `needle` stands in `hay` at offset `at`.
pub open spec fn occurs_at(needle: Seq<u8>, hay: Seq<u8>, at: int) -> bool {
    &&& 0 <= at
    &&& at + needle.len() <= hay.len()
    &&& hay.subrange(at, at + needle.len()) == needle
}

/// `needle` stands somewhere in `hay`.
pub open spec fn occurs_in(needle: Seq<u8>, hay: Seq<u8>) -> bool {
    exists|at: int| occurs_at(needle, hay, at)
}

/// Whether `needle` stands in `hay` at offset `at`.
pub fn found_at(needle: &[u8], hay: &[u8], at: usize) -> (found: bool)
    ensures
        found == occurs_at(needle@, hay@, at as int),
{
    let hay_len: usize = hay.len();
    if needle.len() > hay_len || at > hay_len - needle.len() {
        return false;
    }
    let mut k: usize = 0;
    while k < needle.len()
        invariant
            hay_len == hay@.len(),
            k <= needle@.len(),
            at + needle@.len() <= hay@.len(),
            forall|j: int| 0 <= j < k ==> hay@[at + j] == needle@[j],
        decreases needle@.len() - k,
    {
        if hay[at + k] != needle[k] {
            proof {
                let window = hay@.subrange(at as int, at + needle@.len());
                assert(window[k as int] == hay@[at + k]);
            }
            return false;
        }
        k = k + 1;
    }
    assert(hay@.subrange(at as int, at + needle@.len()) =~= needle@);
    true
}

/// Whether `needle` stands somewhere in `hay`.
pub fn contains(hay: &[u8], needle: &[u8]) -> (found: bool)
    ensures
        found == occurs_in(needle@, hay@),
{
    if needle.len() == 0 {
        assert(hay@.subrange(0, 0) =~= needle@);
        assert(occurs_at(needle@, hay@, 0));
        return true;
    }
    if needle.len() > hay.len() {
        return false;
    }
    let last: usize = hay.len() - needle.len();
    let mut at: usize = 0;
    while at <= last
        invariant
            last == hay@.len() - needle@.len(),
            last < usize::MAX,
            at <= last + 1,
            forall|j: int| 0 <= j < at ==> !occurs_at(needle@, hay@, j),
        decreases last + 1 - at,
    {
        if found_at(needle, hay, at) {
            return true;
        }
        at = at + 1;
    }
    false
}

/// The text of a line as it was read: without the newline that ends it, and
/// without a carriage return directly before that newline.
pub open spec fn line_text(raw: Seq<u8>) -> Seq<u8> {
    if raw.len() > 0 && raw.last() == NEWLINE {
        let cut = raw.drop_last();
        if cut.len() > 0 && cut.last() == CARRIAGE_RETURN {
            cut.drop_last()
        } else {
            cut
        }
    } else {
        raw
    }
}

/// Strips the line ending from a line as it was read.
pub fn trim_line_end(raw: &[u8]) -> (text: &[u8])
    ensures
        text@ == line_text(raw@),
{
    let len: usize = raw.len();
    if len > 0 && raw[len - 1] == NEWLINE {
        if len > 1 && raw[len - 2] == CARRIAGE_RETURN {
            let text = slice_subrange(raw, 0, len - 2);
            assert(text@ =~= line_text(raw@));
            text
        } else {
            let text = slice_subrange(raw, 0, len - 1);
            assert(text@ =~= line_text(raw@));
            text
        }
    } else {
        raw
    }
}

/// `core::str::from_utf8`. Trusted: it succeeds exactly on well-formed UTF-8.
#[verifier::external_body]
fn is_utf8(bytes: &[u8]) -> (ok: bool)
    ensures
        ok == valid_utf8(bytes@),
{
    core::str::from_utf8(bytes).is_ok()
}

/// What one line decides about the file it was read from.
#[derive(Clone, Copy, Debug, PartialEq, Eq, Structural)]
pub enum LineVerdict {
    /// The term stands on this line: the file is a result.
    Match,
    /// The line is text without the term: the next line decides.
    Continue,
    /// The line is not text: the file is passed over.
    Abandon,
}

/// The verdict of a line as it was read, for a term.
pub open spec fn judge(term: Seq<u8>, raw: Seq<u8>) -> LineVerdict {
    let text = line_text(raw);
    if !valid_utf8(text) {
        LineVerdict::Abandon
    } else if occurs_in(term, text) {
        LineVerdict::Match
    } else {
        LineVerdict::Continue
    }
}

/// Judges one line as it was read.
pub fn judge_line(term: &[u8], raw: &[u8]) -> (verdict: LineVerdict)
    ensures
        verdict == judge(term@, raw@),
{
    let text = trim_line_end(raw);
    if !is_utf8(text) {
        LineVerdict::Abandon
    } else if contains(text, term) {
        LineVerdict::Match
    } else {
        LineVerdict::Continue
    }
}

/// Whether a file with these lines, read in order, is a result: the first
/// line that does not say `Continue` decides, and no line left means no.
pub open spec fn scan(term: Seq<u8>, lines: Seq<Seq<u8>>) -> bool
    decreases lines.len(),
{
    if lines.len() == 0 {
        false
    } else {
        match judge(term, lines.first()) {
            LineVerdict::Match => true,
            LineVerdict::Abandon => false,
            LineVerdict::Continue => scan(term, lines.drop_first()),
        }
    }
}

/// Where the line that begins at `from` ends: behind its newline, or at the
/// end of a buffer that holds no further newline.
pub open spec fn line_end(content: Seq<u8>, from: int) -> int
    decreases content.len() - from,
{
    if from >= content.len() {
        content.len() as int
    } else if content[from] == NEWLINE {
        from + 1
    } else {
        line_end(content, from + 1)
    }
}

/// The lines of `content` from offset `from` on, each with its line ending.
pub open spec fn lines_from(content: Seq<u8>, from: int) -> Seq<Seq<u8>>
    decreases content.len() - from,
{
    if from < 0 || from >= content.len() {
        Seq::empty()
    } else {
        let end = line_end(content, from);
        if end <= from || end > content.len() {
            Seq::empty()
        } else {
            seq![content.subrange(from, end)] + lines_from(content, end)
        }
    }
}

/// The lines of a buffer, each with its line ending. An empty buffer has none.
pub open spec fn lines_of(content: Seq<u8>) -> Seq<Seq<u8>> {
    lines_from(content, 0)
}

/// A line that begins inside the buffer ends behind its beginning and inside
/// the buffer, and holds no newline before its last byte.
pub proof fn lemma_line_end(content: Seq<u8>, from: int)
    requires
        0 <= from < content.len(),
    ensures
        from < line_end(content, from) <= content.len(),
        forall|i: int| from <= i < line_end(content, from) - 1 ==> content[i] != NEWLINE,
    decreases content.len() - from,
{
    if content[from] != NEWLINE {
        if from + 1 < content.len() {
            lemma_line_end(content, from + 1);
        } else {
            assert(line_end(content, from + 1) == content.len());
        }
    }
}

/// Finds the end of the line that begins at `from`.
pub fn next_line_end(content: &[u8], from: usize) -> (end: usize)
    ensures
        end == line_end(content@, from as int),
        from < content@.len() ==> from < end <= content@.len(),
{
    let len: usize = content.len();
    let mut i: usize = from;
    while i < len
        invariant
            len == content@.len(),
            from <= i,
            line_end(content@, from as int) == line_end(content@, i as int),
        decreases len - i,
    {
        if content[i] == NEWLINE {
            return i + 1;
        }
        i = i + 1;
    }
    len
}

/// Scans a buffer line by line for a term, up to the first line that
/// decides.
pub fn scan_text(term: &[u8], content: &[u8]) -> (found: bool)
    ensures
        found == scan(term@, lines_of(content@)),
{
    let len: usize = content.len();
    let mut from: usize = 0;
    while from < len
        invariant
            len == content@.len(),
            from <= len,
            scan(term@, lines_of(content@)) == scan(term@, lines_from(content@, from as int)),
        decreases len - from,
    {
        let end = next_line_end(content, from);
        let raw = slice_subrange(content, from, end);
        proof {
            let rest = lines_from(content@, end as int);
            assert(lines_from(content@, from as int) =~= seq![raw@] + rest);
            assert((seq![raw@] + rest).first() == raw@);
            assert((seq![raw@] + rest).drop_first() =~= rest);
        }
        match judge_line(term, raw) {
            LineVerdict::Match => {
                return true;
            },
            LineVerdict::Abandon => {
                return false;
            },
            LineVerdict::Continue => {},
        }
        from = end;
    }
    false
}

} // verus!
