//! The trash: finding the trash items that deleting some paths produced,
//! collecting the outcomes of trashing and restoring, and the trash listing.
use vstd::prelude::*;

use crate::paths::{join, path_join, same_path, starts_with_path};
use crate::text::{chars_of, string_from_chars};
use crate::undo::{collect_outcomes, spec_collect, OpError, OpResult, TrashItem};

verus! {

/// Where an item was before it went to the trash: its original folder
/// joined with its name.
pub open spec fn spec_original_path(item: TrashItem) -> Seq<char> {
    path_join(item.original_parent@, item.name@)
}

/// Where an item was before it went to the trash.
pub fn original_path(item: &TrashItem) -> (p: Vec<char>)
    ensures
        p@ == spec_original_path(*item),
{
    join(&chars_of(item.original_parent.as_str()), &chars_of(item.name.as_str()))
}

/// Among the first `n` listed items whose original path names the same
/// place as `path`, the one deleted last (the later one in the listing on a
/// tie).
pub open spec fn latest_trashed(listed: Seq<TrashItem>, path: Seq<char>, n: int) -> Option<int>
    decreases n,
{
    if n <= 0 {
        None
    } else {
        let prev = latest_trashed(listed, path, n - 1);
        if same_path(spec_original_path(listed[n - 1]), path) && (match prev {
            None => true,
            Some(p) => listed[n - 1].time_deleted >= listed[p].time_deleted,
        }) {
            Some(n - 1)
        } else {
            prev
        }
    }
}

proof fn lemma_latest_trashed_bounds(listed: Seq<TrashItem>, path: Seq<char>, n: int)
    ensures
        latest_trashed(listed, path, n) matches Some(i) ==> 0 <= i < n,
    decreases n,
{
    if n > 0 {
        lemma_latest_trashed_bounds(listed, path, n - 1);
    }
}

/// For each path in turn, the most recently trashed listed item that came
/// from it, skipping paths with none.
pub open spec fn spec_matched_items(listed: Seq<TrashItem>, paths: Seq<Seq<char>>) -> Seq<TrashItem>
    decreases paths.len(),
{
    if paths.len() == 0 {
        Seq::empty()
    } else {
        let prev = spec_matched_items(listed, paths.drop_last());
        match latest_trashed(listed, paths.last(), listed.len() as int) {
            Some(i) => prev.push(listed[i]),
            None => prev,
        }
    }
}

fn latest_for(listed: &Vec<TrashItem>, path: &Vec<char>) -> (r: Option<usize>)
    ensures
        r matches Some(i) ==> latest_trashed(listed@, path@, listed@.len() as int) == Some(i as int)
            && i < listed@.len(),
        r is None ==> latest_trashed(listed@, path@, listed@.len() as int) is None,
{
    let mut best: Option<usize> = None;
    let mut n: usize = 0;
    while n < listed.len()
        invariant
            n <= listed@.len(),
            best matches Some(b) ==> latest_trashed(listed@, path@, n as int) == Some(b as int) && b < n,
            best is None ==> latest_trashed(listed@, path@, n as int) is None,
        decreases listed@.len() - n,
    {
        let candidate = original_path(&listed[n]);
        let same = starts_with_path(&candidate, path) && starts_with_path(path, &candidate);
        let take = same && match best {
            None => true,
            Some(b) => listed[n].time_deleted >= listed[b].time_deleted,
        };
        if take {
            best = Some(n);
        }
        n = n + 1;
    }
    best
}

/// Finds, for each path that was just trashed, the trash item it became:
/// the most recently deleted listed item from that path.
pub fn matched_trash_items(listed: &Vec<TrashItem>, paths: &Vec<String>) -> (items: Vec<TrashItem>)
    ensures
        items@ == spec_matched_items(listed@, paths@.map_values(|p: String| p@)),
{
    let ghost ps = paths@.map_values(|p: String| p@);
    let mut items: Vec<TrashItem> = Vec::new();
    let mut k: usize = 0;
    while k < paths.len()
        invariant
            ps == paths@.map_values(|p: String| p@),
            k <= paths@.len(),
            items@ == spec_matched_items(listed@, ps.take(k as int)),
        decreases paths@.len() - k,
    {
        let p = chars_of(paths[k].as_str());
        proof {
            assert(ps.take(k + 1).drop_last() =~= ps.take(k as int));
            assert(ps.take(k + 1).last() == p@);
        }
        match latest_for(listed, &p) {
            Some(i) => {
                items.push(listed[i].duplicate());
            },
            None => {},
        }
        k = k + 1;
    }
    assert(ps.take(paths@.len() as int) =~= ps);
    items
}

/// The trash items that trashing `paths` produced, once the trash was
/// listed: nothing to look for when no path was trashed (the listing is not
/// needed then), a failed listing is passed on.
pub fn capture_trashed_items(paths: &Vec<String>, listing: Result<Vec<TrashItem>, OpError>) -> (r:
    Result<Vec<TrashItem>, OpError>)
    ensures
        paths@.len() == 0 ==> (r matches Ok(items) && items@.len() == 0),
        paths@.len() > 0 ==> (listing matches Err(e) ==> (r matches Err(e2) && e2 == e)),
        paths@.len() > 0 ==> (listing matches Ok(listed) ==> (r matches Ok(items) && items@
            == spec_matched_items(listed@, paths@.map_values(|p: String| p@)))),
{
    if paths.len() == 0 {
        return Ok(Vec::new());
    }
    match listing {
        Err(e) => Err(e),
        Ok(listed) => Ok(matched_trash_items(&listed, paths)),
    }
}

/// Combines the outcome of trashing each path (the path on success) with
/// the outcome of capturing the resulting trash items: the items when
/// everything succeeded, otherwise every error in order, a failed capture
/// last.
pub fn trash_capturing(
    outcomes: Vec<Result<String, OpError>>,
    capture: Result<Vec<TrashItem>, OpError>,
) -> (r: OpResult<Vec<TrashItem>>)
    ensures
        ({
            let errs = spec_collect(outcomes@).1;
            match capture {
                Ok(items) => if errs.len() == 0 {
                    r == Ok::<Vec<TrashItem>, Vec<OpError>>(items)
                } else {
                    r matches Err(e) && e@ == errs
                },
                Err(ce) => r matches Err(e) && e@ == errs.push(ce),
            }
        }),
{
    let (_, result) = collect_outcomes(outcomes);
    let mut errors = match result {
        Ok(()) => Vec::new(),
        Err(errs) => errs,
    };
    match capture {
        Ok(items) => {
            if errors.len() == 0 {
                Ok(items)
            } else {
                Err(errors)
            }
        },
        Err(e) => {
            errors.push(e);
            Err(errors)
        },
    }
}

/// The outcome of restoring several items: `Ok` unless one failed, then
/// every error in order.
pub fn restore(outcomes: Vec<Result<(), OpError>>) -> (r: OpResult<()>)
    ensures
        (r is Ok) == (spec_collect(outcomes@).1.len() == 0),
        r matches Err(errs) ==> errs@ == spec_collect(outcomes@).1,
{
    collect_outcomes(outcomes).1
}

/// An entry of the trash listing.
#[derive(Clone, Debug)]
pub struct TrashEntry {
    pub id_path: String,
    pub name: String,
    pub original_path: String,
    pub is_dir: bool,
    pub size: u64,
    pub deleted_at: i64,
    pub item: TrashItem,
}

/// What the trash reports of an item's size: bytes for a file, a number of
/// entries for a folder.
#[derive(Clone, Copy, Debug, PartialEq, Eq, Structural)]
pub enum TrashSize {
    Bytes(u64),
    Entries(u64),
}

impl TrashEntry {
    /// The listing entry of a trash item, given what its metadata reports of
    /// its size (`None` when that could not be read): a folder when it
    /// counts entries, shown with size 0; else a file of the reported bytes
    /// (0 when unknown).
    pub fn from_item(item: TrashItem, size: Option<TrashSize>) -> (e: TrashEntry)
        ensures
            e.id_path@ == item.id@,
            e.name@ == item.name@,
            e.original_path@ == spec_original_path(item),
            e.deleted_at == item.time_deleted,
            e.item == item,
            e.is_dir == (size matches Some(TrashSize::Entries(_))),
            e.size == match size {
                Some(TrashSize::Bytes(b)) => b,
                _ => 0,
            },
    {
        let (is_dir, bytes) = match size {
            Some(TrashSize::Bytes(b)) => (false, b),
            Some(TrashSize::Entries(_)) => (true, 0),
            None => (false, 0),
        };
        let original = string_from_chars(&original_path(&item));
        TrashEntry {
            id_path: item.id.clone(),
            name: item.name.clone(),
            original_path: original,
            is_dir,
            size: bytes,
            deleted_at: item.time_deleted,
            item,
        }
    }

    /// A copy of this entry.
    pub fn duplicate(&self) -> (r: TrashEntry)
        ensures
            r == *self,
    {
        TrashEntry {
            id_path: self.id_path.clone(),
            name: self.name.clone(),
            original_path: self.original_path.clone(),
            is_dir: self.is_dir,
            size: self.size,
            deleted_at: self.deleted_at,
            item: self.item.duplicate(),
        }
    }
}

pub open spec fn is_hidden_name(name: Seq<char>) -> bool {
    name.len() > 0 && name[0] == '.'
}

/// The entries shown, in order: hidden ones (name starting with `.`) only
/// on request.
pub open spec fn visible_entries(entries: Seq<TrashEntry>, show_hidden: bool) -> Seq<TrashEntry>
    decreases entries.len(),
{
    if entries.len() == 0 {
        Seq::empty()
    } else {
        let prev = visible_entries(entries.drop_last(), show_hidden);
        if show_hidden || !is_hidden_name(entries.last().name@) {
            prev.push(entries.last())
        } else {
            prev
        }
    }
}

pub open spec fn newest_first(s: Seq<TrashEntry>) -> bool {
    forall|i: int, j: int| 0 <= i < j < s.len() ==> s[i].deleted_at >= s[j].deleted_at
}

/// The entries of `s` deleted at time `t`, in their order in `s`.
pub open spec fn deleted_at_time(s: Seq<TrashEntry>, t: i64) -> Seq<TrashEntry> {
    s.filter(|y: TrashEntry| y.deleted_at == t)
}

proof fn lemma_deleted_at_push(s: Seq<TrashEntry>, e: TrashEntry, t: i64)
    ensures
        deleted_at_time(s.push(e), t) == if e.deleted_at == t {
            deleted_at_time(s, t).push(e)
        } else {
            deleted_at_time(s, t)
        },
{
    reveal(Seq::filter);
    assert(s.push(e).drop_last() =~= s);
}

proof fn lemma_deleted_at_none(s: Seq<TrashEntry>, t: i64)
    requires
        forall|j: int| 0 <= j < s.len() ==> (#[trigger] s[j]).deleted_at != t,
    ensures
        deleted_at_time(s, t) == Seq::<TrashEntry>::empty(),
    decreases s.len(),
{
    reveal(Seq::filter);
    if s.len() > 0 {
        lemma_deleted_at_none(s.drop_last(), t);
    }
}

proof fn lemma_deleted_at_insert(bs: Seq<TrashEntry>, pos: int, e: TrashEntry, t: i64)
    requires
        0 <= pos <= bs.len(),
        forall|j: int| pos <= j < bs.len() ==> (#[trigger] bs[j]).deleted_at < e.deleted_at,
    ensures
        deleted_at_time(bs.insert(pos, e), t) == if e.deleted_at == t {
            deleted_at_time(bs, t).push(e)
        } else {
            deleted_at_time(bs, t)
        },
{
    let pred = |y: TrashEntry| y.deleted_at == t;
    let front = bs.take(pos);
    let back = bs.skip(pos);
    assert(bs =~= front + back);
    assert(bs.insert(pos, e) =~= front.push(e) + back);
    Seq::filter_distributes_over_add(front, back, pred);
    Seq::filter_distributes_over_add(front.push(e), back, pred);
    lemma_deleted_at_push(front, e, t);
    if e.deleted_at == t {
        assert forall|j: int| 0 <= j < back.len() implies (#[trigger] back[j]).deleted_at != t by {
            assert(back[j] == bs[pos + j]);
        }
        lemma_deleted_at_none(back, t);
        assert(deleted_at_time(back, t) == back.filter(pred));
        assert(deleted_at_time(bs.insert(pos, e), t) =~= deleted_at_time(bs, t).push(e));
    } else {
        assert(deleted_at_time(bs.insert(pos, e), t) =~= deleted_at_time(bs, t));
    }
}

/// The trash listing as shown: hidden entries left out unless requested,
/// most recently deleted first.
pub fn list_sorted(entries: Vec<TrashEntry>, show_hidden: bool) -> (r: Vec<TrashEntry>)
    ensures
        r@.to_multiset() == visible_entries(entries@, show_hidden).to_multiset(),
        newest_first(r@),
        forall|t: i64|
            #[trigger] deleted_at_time(r@, t) == deleted_at_time(
                visible_entries(entries@, show_hidden),
                t,
            ),
{
    broadcast use vstd::seq_lib::group_to_multiset_ensures;

    let mut r: Vec<TrashEntry> = Vec::new();
    let mut k: usize = 0;
    let n = entries.len();
    let ghost orig = entries@;
    assert(orig.take(0) =~= Seq::<TrashEntry>::empty());
    while k < n
        invariant
            n == orig.len(),
            entries@ == orig,
            k <= n,
            r@.to_multiset() == visible_entries(orig.take(k as int), show_hidden).to_multiset(),
            newest_first(r@),
            forall|t: i64|
                #[trigger] deleted_at_time(r@, t) == deleted_at_time(
                    visible_entries(orig.take(k as int), show_hidden),
                    t,
                ),
        decreases n - k,
    {
        let e = entries[k].duplicate();
        proof {
            assert(orig.take(k + 1).drop_last() =~= orig.take(k as int));
            assert(orig.take(k + 1).last() == orig[k as int]);
        }
        let name = chars_of(e.name.as_str());
        let hidden = name.len() > 0 && name[0] == '.';
        if show_hidden || !hidden {
            let mut pos: usize = 0;
            while pos < r.len() && r[pos].deleted_at >= e.deleted_at
                invariant
                    pos <= r@.len(),
                    forall|j: int| 0 <= j < pos ==> r@[j].deleted_at >= e.deleted_at,
                decreases r@.len() - pos,
            {
                pos = pos + 1;
            }
            let ghost before = r@;
            r.insert(pos, e);
            proof {
                assert(r@ == before.insert(pos as int, e));
                assert(r@.remove(pos as int) =~= before);
                assert(r@[pos as int] == e);
                vstd::seq_lib::to_multiset_remove(r@, pos as int);
                r@.to_multiset_ensures();
                assert(r@.contains(e));
                assert(r@.to_multiset().count(e) > 0);
                assert(before.to_multiset() == r@.to_multiset().remove(e));
                assert(r@.to_multiset() =~= before.to_multiset().insert(e));
                assert(visible_entries(orig.take(k + 1), show_hidden)
                    == visible_entries(orig.take(k as int), show_hidden).push(e));
                vstd::seq_lib::to_multiset_build(visible_entries(orig.take(k as int), show_hidden), e);
                assert forall|j: int| pos <= j < before.len() implies (#[trigger] before[j]).deleted_at
                    < e.deleted_at by {
                    assert(before[pos as int].deleted_at < e.deleted_at);
                    if j > pos {
                        assert(before[pos as int].deleted_at >= before[j].deleted_at);
                    }
                }
                assert forall|t: i64|
                    #[trigger] deleted_at_time(r@, t) == deleted_at_time(
                        visible_entries(orig.take(k + 1), show_hidden),
                        t,
                    ) by {
                    lemma_deleted_at_insert(before, pos as int, e, t);
                    lemma_deleted_at_push(visible_entries(orig.take(k as int), show_hidden), e, t);
                }
                assert forall|i: int, j: int| 0 <= i < j < r@.len() implies r@[i].deleted_at >= r@[j].deleted_at by {
                    if j == pos as int {
                        assert(r@[i] == before[i]);
                    } else if i == pos as int {
                        assert(r@[j] == before[j - 1]);
                        if pos < before.len() {
                            assert(before[pos as int].deleted_at < e.deleted_at);
                            if j - 1 > pos {
                                assert(before[pos as int].deleted_at >= before[j - 1].deleted_at);
                            }
                        }
                    } else if j < pos {
                    } else if i < pos {
                        assert(r@[j] == before[j - 1]);
                    } else {
                        assert(r@[i] == before[i - 1]);
                        assert(r@[j] == before[j - 1]);
                    }
                }
            }
        }
        k = k + 1;
    }
    assert(orig.take(n as int) =~= orig);
    r
}

} // verus!
