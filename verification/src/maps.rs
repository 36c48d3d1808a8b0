//! Hash maps and sets keyed by path, as the explorer keeps them.
use vstd::prelude::*;

use rustc_hash::{FxHashMap, FxHashSet};

verus! {

/// Positions by path.
pub type PathIndex = FxHashMap<String, usize>;

/// The path-to-id entries held by a path index.
pub uninterp spec fn path_index_contents(m: PathIndex) -> Map<Seq<char>, usize>;

/// An empty path index (`HashMap::default`).
#[verifier::external_body]
pub(crate) fn new_path_index() -> (fresh: PathIndex)
    ensures
        (path_index_contents(fresh) == Map::<Seq<char>, usize>::empty()),
{
    FxHashMap::default()
}

/// Records `id` for `path`, replacing what was recorded before (`HashMap::insert`).
#[verifier::external_body]
pub(crate) fn path_index_insert(m: &mut PathIndex, path: String, id: usize)
    ensures
        path_index_contents(*final(m)) == path_index_contents(*old(m)).insert(path@, id),
{
    m.insert(path, id);
}

/// The id recorded for `path` (`HashMap::get`).
#[verifier::external_body]
pub(crate) fn path_index_get(m: &PathIndex, path: &str) -> (r: Option<usize>)
    ensures
        path_index_contents(*m).contains_key(path@) ==> r == Some(path_index_contents(*m)[path@]),
        !path_index_contents(*m).contains_key(path@) ==> r is None,
{
    m.get(path).copied()
}

/// A set of paths.
pub type PathSet = FxHashSet<String>;

/// The paths held by a path set.
pub uninterp spec fn path_set_contents(s: PathSet) -> Set<Seq<char>>;

/// An empty path set (`HashSet::default`).
#[verifier::external_body]
pub(crate) fn new_path_set() -> (fresh: PathSet)
    ensures
        (path_set_contents(fresh) == Set::<Seq<char>>::empty()),
{
    FxHashSet::default()
}

/// Adds `path`; says whether it was not there yet (`HashSet::insert`).
#[verifier::external_body]
pub(crate) fn path_set_insert(s: &mut PathSet, path: String) -> (added: bool)
    ensures
        path_set_contents(*final(s)) == path_set_contents(*old(s)).insert(path@),
        added == !path_set_contents(*old(s)).contains(path@),
{
    s.insert(path)
}

/// Takes `path` out; says whether it was there (`HashSet::remove`).
#[verifier::external_body]
pub(crate) fn path_set_remove(s: &mut PathSet, path: &str) -> (removed: bool)
    ensures
        path_set_contents(*final(s)) == path_set_contents(*old(s)).remove(path@),
        removed == path_set_contents(*old(s)).contains(path@),
{
    s.remove(path)
}

/// Whether `path` is in the set (`HashSet::contains`).
#[verifier::external_body]
pub(crate) fn path_set_contains(s: &PathSet, path: &str) -> (b: bool)
    ensures
        b == path_set_contents(*s).contains(path@),
{
    s.contains(path)
}

/// How many paths the set holds (`HashSet::len`).
#[verifier::external_body]
pub(crate) fn path_set_len(s: &PathSet) -> (n: usize)
    ensures
        n as int == path_set_contents(*s).len(),
{
    s.len()
}

/// A copy of the set (`HashSet::clone`).
#[verifier::external_body]
pub(crate) fn path_set_copy(s: &PathSet) -> (c: PathSet)
    ensures
        path_set_contents(c) == path_set_contents(*s),
{
    s.clone()
}

/// Every path of the set once, in no particular order (`HashSet::iter`).
#[verifier::external_body]
pub(crate) fn path_set_items(s: &PathSet) -> (v: Vec<String>)
    ensures
        forall|i: int| 0 <= i < v@.len() ==> path_set_contents(*s).contains(#[trigger] v@[i]@),
        forall|p: Seq<char>|
            #[trigger] path_set_contents(*s).contains(p) ==> exists|i: int|
                0 <= i < v@.len() && #[trigger] v@[i]@ == p,
        forall|i: int, j: int| 0 <= i < j < v@.len() ==> v@[i]@ != v@[j]@,
{
    s.iter().cloned().collect()
}

} // verus!
