//! Which entries of a directory listing are handled: regular files below
//! the root, outside hidden folders, and only the root's own entries when the
//! walk is not recursive.

use vstd::prelude::*;
use crate::classify::views;
use crate::text::{hidden_name, is_hidden};

verus! {

/// One entry met while walking the tree.
#[derive(Clone, Debug)]
pub struct Entry {
    /// Names from the root down to the entry; empty for the root itself.
    pub path: Vec<String>,
    pub is_dir: bool,
}

/// No name along the path is hidden.
pub open spec fn visible(path: Seq<Seq<char>>) -> bool {
    forall|j: int| 0 <= j < path.len() ==> !hidden_name(#[trigger] path[j])
}

/// Whether an entry is handed on as a file to organize.
pub open spec fn visited(path: Seq<Seq<char>>, is_dir: bool, recursive: bool) -> bool {
    &&& path.len() >= 1
    &&& !is_dir
    &&& visible(path)
    &&& (recursive || path.len() == 1)
}

/// How deep below the root a walk goes.
pub fn max_depth(recursive: bool) -> (r: usize)
    ensures
        !recursive ==> r == 1,
        recursive ==> r == usize::MAX,
{
    if recursive {
        usize::MAX
    } else {
        1
    }
}

/// Tells whether a walk enters (or reports) an entry with this base name:
/// hidden entries are left out, with everything below them.
pub fn enters(name: &str) -> (r: bool)
    ensures
        r == !hidden_name(name@),
{
    !is_hidden(name)
}

/// Tells whether an entry is a file to organize.
pub fn visits(entry: &Entry, recursive: bool) -> (r: bool)
    ensures
        r == visited(views(entry.path@), entry.is_dir, recursive),
{
    let ghost p = views(entry.path@);
    if entry.path.len() == 0 || entry.is_dir || (!recursive && entry.path.len() != 1) {
        return false;
    }
    let mut i: usize = 0;
    while i < entry.path.len()
        invariant
            i <= entry.path.len(),
            p == views(entry.path@),
            forall|j: int| 0 <= j < i ==> !hidden_name(#[trigger] p[j]),
        decreases entry.path.len() - i,
    {
        if is_hidden(entry.path[i].as_str()) {
            assert(hidden_name(p[i as int]));
            return false;
        }
        i = i + 1;
    }
    true
}

/// An entry with a hidden name anywhere on its path is never visited, however
/// deep the walk goes.
pub proof fn lemma_hidden_never_visited(
    path: Seq<Seq<char>>,
    is_dir: bool,
    recursive: bool,
    k: int,
)
    requires
        0 <= k < path.len(),
        hidden_name(path[k]),
    ensures
        !visited(path, is_dir, recursive),
{
}

/// A walk that is not recursive visits no entry two or more levels below
/// the root.
pub proof fn lemma_flat_walk_stays_at_top(path: Seq<Seq<char>>, is_dir: bool)
    requires
        path.len() >= 2,
    ensures
        !visited(path, is_dir, false),
{
}

} // verus!
