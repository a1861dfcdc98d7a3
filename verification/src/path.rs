//! Paths as text. Of a path written with `/`, the base name is what follows
//! the last `/`; a walk that knows the names of its entries hands them over
//! itself.

use vstd::prelude::*;
use vstd::string::StrSliceExecFns;

verus! {

/// The character that parts the components of a path.
pub const SEPARATOR: char = '/';

/// Where the base name of `path` begins: behind its last separator, or at the
/// front of a path that has none.
pub open spec fn name_start(path: Seq<char>) -> int
    decreases path.len(),
{
    if path.len() == 0 {
        0
    } else if path.last() == SEPARATOR {
        path.len() as int
    } else {
        name_start(path.drop_last())
    }
}

/// The base name of `path`: its last component, empty where the path ends in
/// a separator.
pub open spec fn base_name(path: Seq<char>) -> Seq<char> {
    path.subrange(name_start(path), path.len() as int)
}

/// The texts of a list of paths, in order.
pub open spec fn texts(paths: Seq<String>) -> Seq<Seq<char>> {
    paths.map_values(|path: String| path@)
}

/// The base name begins inside the path, directly behind a separator unless
/// at the front, and holds no separator itself.
pub proof fn lemma_name_start(path: Seq<char>)
    ensures
        0 <= name_start(path) <= path.len(),
        name_start(path) > 0 ==> path[name_start(path) - 1] == SEPARATOR,
        forall|i: int| name_start(path) <= i < path.len() ==> path[i] != SEPARATOR,
    decreases path.len(),
{
    if path.len() > 0 && path.last() != SEPARATOR {
        let front = path.drop_last();
        lemma_name_start(front);
        assert forall|i: int| name_start(path) <= i < path.len() implies path[i] != SEPARATOR by {
            if i < front.len() {
                assert(path[i] == front[i]);
            }
        }
    }
}

/// The base name of a path.
pub fn base_name_of(path: &str) -> (name: &str)
    ensures
        name@ == base_name(path@),
{
    let len = path.unicode_len();
    let mut start: usize = 0;
    let mut i: usize = 0;
    for c in it: path.chars()
        invariant
            it.seq() == path@,
            i == it.index(),
            len == path@.len(),
            start == name_start(path@.take(i as int)),
            start <= i,
    {
        assert(path@.take(i + 1).drop_last() =~= path@.take(i as int));
        i = i + 1;
        if c == SEPARATOR {
            start = i;
        }
    }
    assert(path@.take(i as int) =~= path@);
    path.substring_char(start, i)
}

} // verus!
