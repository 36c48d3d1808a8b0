//! The disk usage tree: what a scan decides about each entry, how a
//! directory's size and item count roll up from its children (largest
//! first), and the flat, indexed form the view reads.
//!
//! Reading the file system is the caller's part; it hands over what it
//! found as plain values.
use vstd::prelude::*;

use crate::clipboard::{item_label, spec_item_label};
use crate::maps::{new_path_index, path_index_contents, path_index_get, path_index_insert, PathIndex};

verus! {

/// Index of a node in a `DiskUsageTree`.
pub type NodeId = usize;

/// What a node of the tree is.
#[derive(Clone, Copy, PartialEq, Eq, Debug, Structural)]
pub enum NodeKind {
    File,
    Directory,
    /// A directory on another file system, not entered.
    MountBoundary,
    /// An entry that could not be read (or a scan that was cancelled).
    Inaccessible,
}

/// What the file system reports of an entry.
#[derive(Clone, Copy, Debug, PartialEq, Eq)]
pub struct EntryMeta {
    pub is_symlink: bool,
    pub is_dir: bool,
    pub len: u64,
    /// The device that holds it.
    pub dev: u64,
    /// When it was last modified, in seconds since the epoch, if known.
    pub modified: Option<i64>,
}

/// Whether a directory is a mount boundary: it lies on another device than
/// the scan's root and crossing file systems was not asked for.
pub fn is_mount_boundary(node_dev: u64, root_dev: u64, cross_filesystem_boundaries: bool) -> (b:
    bool)
    ensures
        b == (!cross_filesystem_boundaries && node_dev != root_dev),
{
    !cross_filesystem_boundaries && node_dev != root_dev
}

/// What scanning an entry comes to.
#[derive(Clone, Copy, Debug, PartialEq, Eq)]
pub enum ScanPlan {
    /// A node without children: its kind, size and modification time.
    Leaf { kind: NodeKind, size: u64, modified: Option<i64> },
    /// A directory to enter, with what is known of it.
    Directory { meta: EntryMeta },
}

/// What scanning an entry comes to, given whether the scan was cancelled,
/// what looking the entry up found (without following a link), and, for a
/// link, what looking up its target found. A cancelled scan or a failed
/// lookup gives an inaccessible leaf; a link is followed only when asked
/// (a broken one is inaccessible); a directory is entered; anything else is
/// a file of its own length.
pub open spec fn spec_scan_plan(
    cancelled: bool,
    meta: Option<EntryMeta>,
    follow_symlinks: bool,
    target: Option<EntryMeta>,
) -> ScanPlan {
    if cancelled {
        ScanPlan::Leaf { kind: NodeKind::Inaccessible, size: 0, modified: None }
    } else {
        match meta {
            None => ScanPlan::Leaf { kind: NodeKind::Inaccessible, size: 0, modified: None },
            Some(m) => if m.is_symlink {
                if follow_symlinks {
                    match target {
                        None => ScanPlan::Leaf {
                            kind: NodeKind::Inaccessible,
                            size: 0,
                            modified: m.modified,
                        },
                        Some(t) => if t.is_dir {
                            ScanPlan::Directory { meta: t }
                        } else {
                            ScanPlan::Leaf { kind: NodeKind::File, size: t.len, modified: t.modified }
                        },
                    }
                } else {
                    ScanPlan::Leaf { kind: NodeKind::File, size: m.len, modified: m.modified }
                }
            } else if m.is_dir {
                ScanPlan::Directory { meta: m }
            } else {
                ScanPlan::Leaf { kind: NodeKind::File, size: m.len, modified: m.modified }
            },
        }
    }
}

/// What scanning an entry comes to (see `spec_scan_plan`).
pub fn scan_plan(
    cancelled: bool,
    meta: Option<EntryMeta>,
    follow_symlinks: bool,
    target: Option<EntryMeta>,
) -> (p: ScanPlan)
    ensures
        p == spec_scan_plan(cancelled, meta, follow_symlinks, target),
{
    if cancelled {
        return ScanPlan::Leaf { kind: NodeKind::Inaccessible, size: 0, modified: None };
    }
    match meta {
        None => ScanPlan::Leaf { kind: NodeKind::Inaccessible, size: 0, modified: None },
        Some(m) => if m.is_symlink {
            if follow_symlinks {
                match target {
                    None => ScanPlan::Leaf {
                        kind: NodeKind::Inaccessible,
                        size: 0,
                        modified: m.modified,
                    },
                    Some(t) => if t.is_dir {
                        ScanPlan::Directory { meta: t }
                    } else {
                        ScanPlan::Leaf { kind: NodeKind::File, size: t.len, modified: t.modified }
                    },
                }
            } else {
                ScanPlan::Leaf { kind: NodeKind::File, size: m.len, modified: m.modified }
            }
        } else if m.is_dir {
            ScanPlan::Directory { meta: m }
        } else {
            ScanPlan::Leaf { kind: NodeKind::File, size: m.len, modified: m.modified }
        },
    }
}

/// A scanned entry with its scanned children.
#[derive(Debug)]
pub struct ScannedNode {
    pub name: String,
    pub path: String,
    pub kind: NodeKind,
    pub size: u64,
    pub item_count: u64,
    pub modified: Option<i64>,
    pub children: Vec<ScannedNode>,
}

impl ScannedNode {
    /// A node without children.
    pub fn leaf(name: String, path: String, kind: NodeKind, size: u64, modified: Option<i64>) -> (r:
        ScannedNode)
        ensures
            r.name == name,
            r.path == path,
            r.kind == kind,
            r.size == size,
            r.item_count == 0,
            r.modified == modified,
            r.children@.len() == 0,
            kind != NodeKind::Directory ==> rolled_up(r),
    {
        ScannedNode { name, path, kind, size, item_count: 0, modified, children: Vec::new() }
    }
}

/// The total size of `children`.
pub open spec fn total_size(children: Seq<ScannedNode>) -> int
    decreases children.len(),
{
    if children.len() == 0 {
        0
    } else {
        total_size(children.drop_last()) + children.last().size
    }
}

/// The number of items under a directory with these children: each child
/// and everything under it.
pub open spec fn total_items(children: Seq<ScannedNode>) -> int
    decreases children.len(),
{
    if children.len() == 0 {
        0
    } else {
        total_items(children.drop_last()) + children.last().item_count + 1
    }
}

pub open spec fn largest_first(s: Seq<ScannedNode>) -> bool {
    forall|i: int, j: int| 0 <= i < j < s.len() ==> s[i].size >= s[j].size
}

/// Every directory of the scanned tree `t` is rolled up from its children
/// (its size and item count are theirs added up, and they come largest
/// first), and every other node has no children and counts no items.
pub open spec fn rolled_up(t: ScannedNode) -> bool
    decreases t,
{
    &&& if t.kind == NodeKind::Directory {
        &&& t.size == total_size(t.children@)
        &&& t.item_count == total_items(t.children@)
        &&& largest_first(t.children@)
    } else {
        t.children@.len() == 0 && t.item_count == 0
    }
    &&& forall|k: int| 0 <= k < t.children@.len() ==> rolled_up(#[trigger] t.children@[k])
}

proof fn lemma_totals_nonneg(children: Seq<ScannedNode>)
    ensures
        total_size(children) >= 0,
        total_items(children) >= 0,
    decreases children.len(),
{
    if children.len() > 0 {
        lemma_totals_nonneg(children.drop_last());
    }
}

proof fn lemma_totals_permutation(a: Seq<ScannedNode>, b: Seq<ScannedNode>)
    requires
        a.to_multiset() == b.to_multiset(),
    ensures
        total_size(a) == total_size(b),
        total_items(a) == total_items(b),
    decreases a.len(),
{
    broadcast use vstd::seq_lib::group_to_multiset_ensures;

    if a.len() == 0 {
        assert(b.to_multiset().len() == 0);
        assert(b.len() == 0);
    } else {
        let x = a.last();
        assert(a.to_multiset().count(x) > 0) by {
            assert(a.drop_last().push(x) =~= a);
        }
        assert(b.contains(x));
        let j = choose|j: int| 0 <= j < b.len() && b[j] == x;
        let b2 = b.remove(j);
        assert(a.drop_last().push(x) =~= a);
        assert(a.drop_last().to_multiset() =~= a.to_multiset().remove(x));
        assert(b2.to_multiset() =~= b.to_multiset().remove(x));
        lemma_totals_permutation(a.drop_last(), b2);
        lemma_totals_remove(b, j);
    }
}

proof fn lemma_totals_remove(s: Seq<ScannedNode>, j: int)
    requires
        0 <= j < s.len(),
    ensures
        total_size(s) == total_size(s.remove(j)) + s[j].size,
        total_items(s) == total_items(s.remove(j)) + s[j].item_count + 1,
    decreases s.len(),
{
    if j == s.len() - 1 {
        assert(s.remove(j) =~= s.drop_last());
    } else {
        lemma_totals_remove(s.drop_last(), j);
        assert(s.remove(j).drop_last() =~= s.drop_last().remove(j));
        assert(s.remove(j).last() == s.last());
    }
}

proof fn lemma_placed_within(orig: Seq<ScannedNode>, sorted: Seq<ScannedNode>, rest: Seq<ScannedNode>, e: ScannedNode)
    requires
        orig.to_multiset() == sorted.to_multiset().add(rest.to_multiset().insert(e)),
    ensures
        total_size(sorted) + e.size <= total_size(orig),
        total_items(sorted) + e.item_count + 1 <= total_items(orig),
{
    let placed = sorted.push(e);
    vstd::seq_lib::to_multiset_build(sorted, e);
    vstd::seq_lib::lemma_multiset_commutative(placed, rest);
    assert((placed + rest).to_multiset() =~= orig.to_multiset());
    lemma_totals_permutation(placed + rest, orig);
    lemma_totals_prefix(placed, rest);
    lemma_totals_nonneg(rest);
    assert(placed.drop_last() =~= sorted);
}

proof fn lemma_insert_multiset(s: Seq<ScannedNode>, pos: int, e: ScannedNode)
    requires
        0 <= pos <= s.len(),
    ensures
        s.insert(pos, e).to_multiset() == s.to_multiset().insert(e),
{
    let t = s.insert(pos, e);
    assert(t.remove(pos) =~= s);
    vstd::seq_lib::to_multiset_remove(t, pos);
    t.to_multiset_ensures();
    assert(t[pos] == e);
    assert(t.contains(e));
    assert(t.to_multiset() =~= s.to_multiset().insert(e));
}

proof fn lemma_insert_largest_first(before: Seq<ScannedNode>, pos: int, e: ScannedNode)
    requires
        0 <= pos <= before.len(),
        largest_first(before),
        forall|j: int| 0 <= j < pos ==> before[j].size > e.size,
        pos < before.len() ==> before[pos].size <= e.size,
    ensures
        largest_first(before.insert(pos, e)),
{
    let t = before.insert(pos, e);
    assert forall|i: int, j: int| 0 <= i < j < t.len() implies t[i].size >= t[j].size by {
        if j == pos {
            assert(t[i] == before[i]);
        } else if i == pos {
            assert(t[j] == before[j - 1]);
        } else if j < pos {
        } else if i < pos {
            assert(t[j] == before[j - 1]);
        } else {
            assert(t[i] == before[i - 1]);
            assert(t[j] == before[j - 1]);
        }
    }
}

/// The nodes of `s` of size `z`, in their order in `s`.
pub open spec fn of_size(s: Seq<ScannedNode>, z: u64) -> Seq<ScannedNode> {
    s.filter(|n: ScannedNode| n.size == z)
}

proof fn lemma_of_size_none(s: Seq<ScannedNode>, z: u64)
    requires
        forall|j: int| 0 <= j < s.len() ==> (#[trigger] s[j]).size != z,
    ensures
        of_size(s, z) == Seq::<ScannedNode>::empty(),
    decreases s.len(),
{
    reveal(Seq::filter);
    if s.len() > 0 {
        lemma_of_size_none(s.drop_last(), z);
    }
}

proof fn lemma_of_size_prepend(e: ScannedNode, p: Seq<ScannedNode>, z: u64)
    ensures
        of_size(seq![e] + p, z) == if e.size == z {
            seq![e] + of_size(p, z)
        } else {
            of_size(p, z)
        },
{
    let pred = |n: ScannedNode| n.size == z;
    Seq::filter_distributes_over_add(seq![e], p, pred);
    reveal(Seq::filter);
    assert(seq![e].drop_last() =~= Seq::<ScannedNode>::empty());
    if e.size == z {
        assert(of_size(seq![e], z) =~= seq![e]);
    } else {
        lemma_of_size_none(seq![e], z);
        assert(of_size(seq![e], z) =~= Seq::<ScannedNode>::empty());
        assert(Seq::<ScannedNode>::empty() + of_size(p, z) =~= of_size(p, z));
    }
}

proof fn lemma_of_size_insert(bs: Seq<ScannedNode>, pos: int, e: ScannedNode, z: u64)
    requires
        0 <= pos <= bs.len(),
        forall|j: int| 0 <= j < pos ==> (#[trigger] bs[j]).size > e.size,
    ensures
        of_size(bs.insert(pos, e), z) == if e.size == z {
            seq![e] + of_size(bs, z)
        } else {
            of_size(bs, z)
        },
{
    let pred = |n: ScannedNode| n.size == z;
    let front = bs.take(pos);
    let back = bs.skip(pos);
    assert(bs =~= front + back);
    assert(bs.insert(pos, e) =~= front + (seq![e] + back));
    Seq::filter_distributes_over_add(front, back, pred);
    Seq::filter_distributes_over_add(front, seq![e] + back, pred);
    lemma_of_size_prepend(e, back, z);
    if e.size == z {
        assert forall|j: int| 0 <= j < front.len() implies (#[trigger] front[j]).size != z by {
            assert(front[j] == bs[j]);
        }
        lemma_of_size_none(front, z);
        assert(of_size(front, z) == front.filter(pred));
        assert(of_size(bs.insert(pos, e), z) =~= seq![e] + of_size(bs, z));
    } else {
        assert(of_size(bs.insert(pos, e), z) =~= of_size(bs, z));
    }
}

fn insert_by_size(sorted: &mut Vec<ScannedNode>, e: ScannedNode)
    requires
        largest_first(old(sorted)@),
    ensures
        largest_first(final(sorted)@),
        final(sorted)@.to_multiset() == old(sorted)@.to_multiset().insert(e),
        total_size(final(sorted)@) == total_size(old(sorted)@) + e.size,
        total_items(final(sorted)@) == total_items(old(sorted)@) + e.item_count + 1,
        forall|z: u64|
            #[trigger] of_size(final(sorted)@, z) == if e.size == z {
                seq![e] + of_size(old(sorted)@, z)
            } else {
                of_size(old(sorted)@, z)
            },
{
    let mut pos: usize = 0;
    while pos < sorted.len() && sorted[pos].size > e.size
        invariant
            pos <= sorted@.len(),
            forall|j: int| 0 <= j < pos ==> sorted@[j].size > e.size,
        decreases sorted@.len() - pos,
    {
        pos = pos + 1;
    }
    let ghost before = sorted@;
    let ghost ev = e;
    proof {
        lemma_insert_multiset(before, pos as int, ev);
        lemma_insert_largest_first(before, pos as int, ev);
        lemma_totals_remove(before.insert(pos as int, ev), pos as int);
        assert(before.insert(pos as int, ev).remove(pos as int) =~= before);
        assert forall|z: u64|
            #[trigger] of_size(before.insert(pos as int, ev), z) == if ev.size == z {
                seq![ev] + of_size(before, z)
            } else {
                of_size(before, z)
            } by {
            lemma_of_size_insert(before, pos as int, ev, z);
        }
    }
    sorted.insert(pos, e);
}

/// A scanned directory: its children largest first, its size and item
/// count rolled up from them.
pub fn directory_node(name: String, path: String, modified: Option<i64>, children: Vec<ScannedNode>) -> (r:
    ScannedNode)
    requires
        total_size(children@) <= u64::MAX,
        total_items(children@) <= u64::MAX,
    ensures
        r.name == name,
        r.path == path,
        r.kind == NodeKind::Directory,
        r.modified == modified,
        r.children@.to_multiset() == children@.to_multiset(),
        largest_first(r.children@),
        forall|z: u64| #[trigger] of_size(r.children@, z) == of_size(children@, z),
        r.size == total_size(children@),
        r.item_count == total_items(children@),
        (forall|k: int| 0 <= k < children@.len() ==> rolled_up(#[trigger] children@[k])) ==> rolled_up(
            r,
        ),
{
    let ghost orig = children@;
    let mut rest = children;
    let mut sorted: Vec<ScannedNode> = Vec::new();
    let mut size: u64 = 0;
    let mut items: u64 = 0;
    proof {
        sorted@.to_multiset_ensures();
        vstd::multiset::lemma_multiset_empty_len(sorted@.to_multiset());
        assert(orig.to_multiset() =~= sorted@.to_multiset().add(rest@.to_multiset()));
        assert(orig.take(orig.len() as int) =~= orig);
        assert forall|z: u64| #[trigger] of_size(sorted@, z) == of_size(orig.skip(orig.len() as int), z) by {
            lemma_of_size_none(sorted@, z);
            lemma_of_size_none(orig.skip(orig.len() as int), z);
        }
    }
    while rest.len() > 0
        invariant
            orig.to_multiset() == sorted@.to_multiset().add(rest@.to_multiset()),
            largest_first(sorted@),
            size == total_size(sorted@),
            items == total_items(sorted@),
            total_size(orig) <= u64::MAX,
            total_items(orig) <= u64::MAX,
            rest@.len() <= orig.len(),
            rest@ == orig.take(rest@.len() as int),
            forall|z: u64| #[trigger] of_size(sorted@, z) == of_size(orig.skip(rest@.len() as int), z),
        decreases rest@.len(),
    {
        let ghost rest_before = rest@;
        let e = rest.pop().unwrap();
        proof {
            assert(rest_before =~= rest@.push(e));
            assert(rest@ =~= orig.take(rest@.len() as int));
            assert(orig[rest@.len() as int] == e);
            assert(orig.skip(rest@.len() as int) =~= seq![e] + orig.skip(rest_before.len() as int));
            vstd::seq_lib::to_multiset_build(rest@, e);
            lemma_placed_within(orig, sorted@, rest@, e);
        }
        let esize = e.size;
        let eitems = e.item_count;
        let ghost sorted_before = sorted@;
        insert_by_size(&mut sorted, e);
        size = size + esize;
        items = items + eitems + 1;
        proof {
            assert(orig.to_multiset() =~= sorted@.to_multiset().add(rest@.to_multiset()));
            assert forall|z: u64|
                #[trigger] of_size(sorted@, z) == of_size(orig.skip(rest@.len() as int), z) by {
                lemma_of_size_prepend(e, orig.skip(rest_before.len() as int), z);
            }
        }
    }
    proof {
        assert(orig.skip(0) =~= orig);
        rest@.to_multiset_ensures();
        vstd::multiset::lemma_multiset_empty_len(rest@.to_multiset());
        assert(sorted@.to_multiset() =~= orig.to_multiset());
        lemma_totals_permutation(sorted@, orig);
        if forall|k: int| 0 <= k < orig.len() ==> rolled_up(#[trigger] orig[k]) {
            sorted@.to_multiset_ensures();
            orig.to_multiset_ensures();
            assert forall|k: int| 0 <= k < sorted@.len() implies rolled_up(#[trigger] sorted@[k]) by {
                let x = sorted@[k];
                assert(sorted@.contains(x));
                assert(sorted@.to_multiset().count(x) > 0);
                assert(orig.to_multiset().count(x) > 0);
                assert(orig.contains(x));
            }
        }
    }
    ScannedNode {
        name,
        path,
        kind: NodeKind::Directory,
        size,
        item_count: items,
        modified,
        children: sorted,
    }
}

/// The rules a scan goes by: whether links are followed, whether other
/// file systems are entered, and the device of the scan's root.
#[derive(Clone, Copy, Debug)]
pub struct ScanRules {
    pub follow_symlinks: bool,
    pub cross_filesystem_boundaries: bool,
    pub root_dev: u64,
}

/// What the walk over the file system read of an entry.
#[derive(Debug)]
pub struct RawEntry {
    pub path: String,
    /// Whether the scan had been cancelled when the walk reached it.
    pub cancelled: bool,
    /// Its lookup without following a link; `None` when that failed.
    pub meta: Option<EntryMeta>,
    /// For a link, when links are followed, the lookup of its target.
    pub target: Option<EntryMeta>,
    /// For a folder that the walk entered, its entries as listed; `None`
    /// when it could not be listed.
    pub entries: Option<Vec<RawEntry>>,
}

/// The folder that the scan enters at this entry: a directory by its plan
/// that is no mount boundary.
pub open spec fn entered_folder(raw: RawEntry, rules: ScanRules) -> Option<EntryMeta> {
    match spec_scan_plan(raw.cancelled, raw.meta, rules.follow_symlinks, raw.target) {
        ScanPlan::Directory { meta } => if !rules.cross_filesystem_boundaries && meta.dev
            != rules.root_dev {
            None
        } else {
            Some(meta)
        },
        _ => None,
    }
}

/// The size a scan gives an entry: a leaf's own size, a listed folder's
/// entries' sizes added up, 0 for a folder not entered or not listed.
pub open spec fn scan_size(raw: RawEntry, rules: ScanRules) -> int
    decreases raw, 1nat,
{
    match spec_scan_plan(raw.cancelled, raw.meta, rules.follow_symlinks, raw.target) {
        ScanPlan::Leaf { size, .. } => size as int,
        ScanPlan::Directory { .. } => if entered_folder(raw, rules) is Some {
            match raw.entries {
                Some(es) => forest_scan_size(es@, rules),
                None => 0,
            }
        } else {
            0
        },
    }
}

pub open spec fn forest_scan_size(s: Seq<RawEntry>, rules: ScanRules) -> int
    decreases s, 0nat,
{
    if s.len() == 0 {
        0
    } else {
        forest_scan_size(s.drop_last(), rules) + scan_size(s.last(), rules)
    }
}

/// The number of items a scan finds under an entry: for a listed folder,
/// each entry and everything under it.
pub open spec fn scan_items(raw: RawEntry, rules: ScanRules) -> int
    decreases raw, 1nat,
{
    if entered_folder(raw, rules) is Some {
        match raw.entries {
            Some(es) => forest_scan_items(es@, rules),
            None => 0,
        }
    } else {
        0
    }
}

pub open spec fn forest_scan_items(s: Seq<RawEntry>, rules: ScanRules) -> int
    decreases s, 0nat,
{
    if s.len() == 0 {
        0
    } else {
        forest_scan_items(s.drop_last(), rules) + scan_items(s.last(), rules) + 1
    }
}

/// Every listed folder's totals fit in a u64.
pub open spec fn scan_fits(raw: RawEntry, rules: ScanRules) -> bool
    decreases raw, 1nat,
{
    if entered_folder(raw, rules) is Some {
        match raw.entries {
            Some(es) => forest_scan_size(es@, rules) <= u64::MAX && forest_scan_items(es@, rules)
                <= u64::MAX && forest_fits(es@, rules),
            None => true,
        }
    } else {
        true
    }
}

pub open spec fn forest_fits(s: Seq<RawEntry>, rules: ScanRules) -> bool
    decreases s, 0nat,
{
    if s.len() == 0 {
        true
    } else {
        forest_fits(s.drop_last(), rules) && scan_fits(s.last(), rules)
    }
}

/// `t` is what scanning the entry read as `raw` comes to: its path and
/// name; a leaf of the plan's kind, size and time; a mount boundary or an
/// unlistable folder as an empty leaf of size 0 with the folder's time;
/// and a listed folder as a directory whose children are its entries'
/// scans, each once, largest first, with their sizes and items added up.
pub open spec fn scans_to(raw: RawEntry, rules: ScanRules, t: ScannedNode) -> bool
    decreases raw,
{
    &&& t.path == raw.path
    &&& t.name@ == spec_item_label(raw.path@)
    &&& match spec_scan_plan(raw.cancelled, raw.meta, rules.follow_symlinks, raw.target) {
        ScanPlan::Leaf { kind, size, modified } => t.kind == kind && t.size == size && t.modified
            == modified && t.item_count == 0 && t.children@.len() == 0,
        ScanPlan::Directory { meta } => if !rules.cross_filesystem_boundaries && meta.dev
            != rules.root_dev {
            t.kind == NodeKind::MountBoundary && t.size == 0 && t.modified == meta.modified
                && t.item_count == 0 && t.children@.len() == 0
        } else {
            match raw.entries {
                None => t.kind == NodeKind::Inaccessible && t.size == 0 && t.modified == meta.modified
                    && t.item_count == 0 && t.children@.len() == 0,
                Some(es) => {
                    &&& t.kind == NodeKind::Directory
                    &&& t.modified == meta.modified
                    &&& t.size == forest_scan_size(es@, rules)
                    &&& t.item_count == forest_scan_items(es@, rules)
                    &&& largest_first(t.children@)
                    &&& t.children@.len() == es@.len()
                    &&& forall|k: int|
                        0 <= k < es@.len() ==> exists|j: int|
                            0 <= j < t.children@.len() && scans_to(#[trigger] es@[k], rules, t.children@[j])
                    &&& forall|j: int|
                        0 <= j < t.children@.len() ==> exists|k: int|
                            0 <= k < es@.len() && scans_to(es@[k], rules, #[trigger] t.children@[j])
                },
            }
        },
    }
}

proof fn lemma_forest_fits_each(s: Seq<RawEntry>, rules: ScanRules)
    ensures
        forest_fits(s, rules) <==> forall|k: int| 0 <= k < s.len() ==> scan_fits(#[trigger] s[k], rules),
    decreases s.len(),
{
    if s.len() > 0 {
        let d = s.drop_last();
        lemma_forest_fits_each(d, rules);
        if forest_fits(s, rules) {
            assert forall|k: int| 0 <= k < s.len() implies scan_fits(#[trigger] s[k], rules) by {
                if k < s.len() - 1 {
                    assert(d[k] == s[k]);
                }
            }
        }
        if forall|k: int| 0 <= k < s.len() ==> scan_fits(#[trigger] s[k], rules) {
            assert forall|k: int| 0 <= k < d.len() implies scan_fits(#[trigger] d[k], rules) by {
                assert(d[k] == s[k]);
            }
            assert(scan_fits(s[s.len() - 1], rules));
        }
    }
}

proof fn lemma_scanned_totals(es: Seq<RawEntry>, cs: Seq<ScannedNode>, rules: ScanRules)
    requires
        es.len() == cs.len(),
        forall|k: int|
            0 <= k < es.len() ==> #[trigger] cs[k].size == scan_size(es[k], rules) && cs[k].item_count
                == scan_items(es[k], rules),
    ensures
        total_size(cs) == forest_scan_size(es, rules),
        total_items(cs) == forest_scan_items(es, rules),
    decreases es.len(),
{
    if es.len() > 0 {
        assert forall|k: int| 0 <= k < es.len() - 1 implies #[trigger] cs.drop_last()[k].size == scan_size(
            es.drop_last()[k],
            rules,
        ) && cs.drop_last()[k].item_count == scan_items(es.drop_last()[k], rules) by {
            assert(cs.drop_last()[k] == cs[k]);
            assert(es.drop_last()[k] == es[k]);
        }
        lemma_scanned_totals(es.drop_last(), cs.drop_last(), rules);
        assert(cs[cs.len() - 1].size == scan_size(es[es.len() - 1], rules));
    }
}

/// The scanned tree of what the walk read: `None` exactly when some listed
/// folder's totals do not fit in a u64.
pub fn scan_entry(raw: RawEntry, rules: ScanRules) -> (r: Option<ScannedNode>)
    ensures
        r is Some <==> scan_fits(raw, rules),
        r matches Some(t) ==> scans_to(raw, rules, t) && rolled_up(t) && t.size == scan_size(raw, rules)
            && t.item_count == scan_items(raw, rules),
    decreases raw,
{
    let ghost g = raw;
    let name = item_label(raw.path.as_str());
    let plan = scan_plan(raw.cancelled, raw.meta, rules.follow_symlinks, raw.target);
    let meta = match plan {
        ScanPlan::Leaf { kind, size, modified } => {
            return Some(ScannedNode::leaf(name, raw.path, kind, size, modified));
        },
        ScanPlan::Directory { meta } => meta,
    };
    if is_mount_boundary(meta.dev, rules.root_dev, rules.cross_filesystem_boundaries) {
        return Some(ScannedNode::leaf(name, raw.path, NodeKind::MountBoundary, 0, meta.modified));
    }
    let RawEntry { path, entries, .. } = raw;
    let mut rest = match entries {
        None => {
            return Some(ScannedNode::leaf(name, path, NodeKind::Inaccessible, 0, meta.modified));
        },
        Some(es) => es,
    };
    let ghost v0 = rest;
    let ghost es = rest@;
    proof {
        assert(g.entries == Some(v0));
        assert(entered_folder(g, rules) == Some(meta));
        assert(decreases_to!(g => g.entries));
        assert(decreases_to!(g.entries => g.entries->0));
        assert(g.entries->0 == v0);
        assert(decreases_to!(g => v0));
        lemma_forest_fits_each(es, rules);
    }
    let reversed = match scan_children(rest, rules) {
        Some(v) => v,
        None => {
            return None;
        },
    };
    finish_folder(name, path, meta.modified, reversed, Ghost(es), rules)
}

/// The scans of a folder's entries, last entry first: `None` exactly when
/// one of them does not fit.
#[verifier::loop_isolation(false)]
fn scan_children(entries: Vec<RawEntry>, rules: ScanRules) -> (r: Option<Vec<ScannedNode>>)
    ensures
        r is Some <==> forest_fits(entries@, rules),
        r matches Some(reversed) ==> {
            &&& reversed@.len() == entries@.len()
            &&& forall|i: int|
                0 <= i < reversed@.len() ==> {
                    let k = entries@.len() - 1 - i;
                    &&& scans_to(entries@[k], rules, #[trigger] reversed@[i])
                    &&& rolled_up(reversed@[i])
                    &&& reversed@[i].size == scan_size(entries@[k], rules)
                    &&& reversed@[i].item_count == scan_items(entries@[k], rules)
                    &&& scan_fits(entries@[k], rules)
                }
        },
    decreases entries,
{
    let ghost v0 = entries;
    let ghost es = entries@;
    proof {
        lemma_forest_fits_each(es, rules);
    }
    let mut rest = entries;
    let mut reversed: Vec<ScannedNode> = Vec::new();
    while rest.len() > 0
        invariant
            es == v0@,
            rest@ == es.take(rest@.len() as int),
            rest@.len() + reversed@.len() == es.len(),
            forall|i: int|
                0 <= i < reversed@.len() ==> {
                    let k = es.len() - 1 - i;
                    &&& scans_to(es[k], rules, #[trigger] reversed@[i])
                    &&& rolled_up(reversed@[i])
                    &&& reversed@[i].size == scan_size(es[k], rules)
                    &&& reversed@[i].item_count == scan_items(es[k], rules)
                    &&& scan_fits(es[k], rules)
                },
            forest_fits(es, rules) <==> forall|k: int| 0 <= k < es.len() ==> scan_fits(#[trigger] es[k], rules),
        decreases rest@.len(),
    {
        let ghost k = rest@.len() - 1;
        let e = rest.pop().unwrap();
        proof {
            assert(e == es[k]);
            assert(decreases_to!(v0 => v0@));
            assert(decreases_to!(v0@ => v0@[k]));
            assert(decreases_to!(v0 => e));
            assert(rest@ =~= es.take(rest@.len() as int));
        }
        let c = match scan_entry(e, rules) {
            Some(c) => c,
            None => {
                assert(!scan_fits(es[k], rules));
                return None;
            },
        };
        reversed.push(c);
    }
    proof {
        assert forall|k: int| 0 <= k < es.len() implies scan_fits(#[trigger] es[k], rules) by {
            let i = es.len() - 1 - k;
            assert(scans_to(es[es.len() - 1 - i], rules, reversed@[i]));
        }
    }
    Some(reversed)
}

/// A listed folder's node from its entries' scans, given in reverse:
/// `None` when the totals do not fit in a u64.
#[verifier::spinoff_prover]
fn finish_folder(
    name: String,
    path: String,
    modified: Option<i64>,
    reversed: Vec<ScannedNode>,
    Ghost(es): Ghost<Seq<RawEntry>>,
    rules: ScanRules,
) -> (r: Option<ScannedNode>)
    requires
        reversed@.len() == es.len(),
        forall|i: int|
            0 <= i < reversed@.len() ==> {
                let k = es.len() - 1 - i;
                &&& scans_to(es[k], rules, #[trigger] reversed@[i])
                &&& rolled_up(reversed@[i])
                &&& reversed@[i].size == scan_size(es[k], rules)
                &&& reversed@[i].item_count == scan_items(es[k], rules)
                &&& scan_fits(es[k], rules)
            },
    ensures
        r is Some <==> (forest_scan_size(es, rules) <= u64::MAX && forest_scan_items(es, rules) <= u64::MAX),
        r matches Some(t) ==> {
            &&& t.name == name
            &&& t.path == path
            &&& t.kind == NodeKind::Directory
            &&& t.modified == modified
            &&& t.size == forest_scan_size(es, rules)
            &&& t.item_count == forest_scan_items(es, rules)
            &&& largest_first(t.children@)
            &&& t.children@.len() == es.len()
            &&& forall|k: int|
                0 <= k < es.len() ==> exists|j: int|
                    0 <= j < t.children@.len() && scans_to(#[trigger] es[k], rules, t.children@[j])
            &&& forall|j: int|
                0 <= j < t.children@.len() ==> exists|k: int|
                    0 <= k < es.len() && scans_to(es[k], rules, #[trigger] t.children@[j])
            &&& rolled_up(t)
        },
{
    let mut reversed = reversed;
    let mut cs: Vec<ScannedNode> = Vec::new();
    let n = reversed.len();
    while reversed.len() > 0
        invariant
            n == es.len(),
            reversed@.len() + cs@.len() == n,
            forall|i: int|
                0 <= i < reversed@.len() ==> {
                    let k = n - 1 - i;
                    &&& scans_to(es[k], rules, #[trigger] reversed@[i])
                    &&& rolled_up(reversed@[i])
                    &&& reversed@[i].size == scan_size(es[k], rules)
                    &&& reversed@[i].item_count == scan_items(es[k], rules)
                    &&& scan_fits(es[k], rules)
                },
            forall|k: int|
                0 <= k < cs@.len() ==> {
                    &&& scans_to(es[k], rules, #[trigger] cs@[k])
                    &&& rolled_up(cs@[k])
                    &&& cs@[k].size == scan_size(es[k], rules)
                    &&& cs@[k].item_count == scan_items(es[k], rules)
                    &&& scan_fits(es[k], rules)
                },
        decreases reversed@.len(),
    {
        let c = reversed.pop().unwrap();
        cs.push(c);
    }
    let mut size: u128 = 0;
    let mut items: u128 = 0;
    let mut i: usize = 0;
    while i < cs.len()
        invariant
            i <= cs@.len(),
            size == total_size(cs@.take(i as int)),
            items == total_items(cs@.take(i as int)),
            size <= i * 18446744073709551615u128,
            items <= i * 18446744073709551616u128,
        decreases cs@.len() - i,
    {
        proof {
            assert(cs@.take(i + 1).drop_last() =~= cs@.take(i as int));
        }
        size = size + cs[i].size as u128;
        items = items + cs[i].item_count as u128 + 1;
        i = i + 1;
    }
    proof {
        assert(cs@.take(cs@.len() as int) =~= cs@);
        lemma_scanned_totals(es, cs@, rules);
    }
    if size > u64::MAX as u128 || items > u64::MAX as u128 {
        return None;
    }
    let ghost input = cs@;
    let r = directory_node(name, path, modified, cs);
    proof {
        input.to_multiset_ensures();
        r.children@.to_multiset_ensures();
        assert forall|k: int| 0 <= k < es.len() implies exists|j: int|
            0 <= j < r.children@.len() && scans_to(#[trigger] es[k], rules, r.children@[j]) by {
            let x = input[k];
            assert(input.contains(x));
            assert(input.to_multiset().count(x) > 0);
            assert(r.children@.to_multiset().count(x) > 0);
            assert(r.children@.contains(x));
            let j = choose|j: int| 0 <= j < r.children@.len() && r.children@[j] == x;
            assert(scans_to(es[k], rules, r.children@[j]));
        }
        assert forall|j: int| 0 <= j < r.children@.len() implies exists|k: int|
            0 <= k < es.len() && scans_to(es[k], rules, #[trigger] r.children@[j]) by {
            let x = r.children@[j];
            assert(r.children@.contains(x));
            assert(r.children@.to_multiset().count(x) > 0);
            assert(input.to_multiset().count(x) > 0);
            assert(input.contains(x));
            let k = choose|k: int| 0 <= k < input.len() && input[k] == x;
            assert(scans_to(es[k], rules, input[k]));
        }
        assert(r.children@.len() == es.len()) by {
            vstd::multiset::lemma_multiset_empty_len(input.to_multiset());
            assert(r.children@.to_multiset().len() == input.to_multiset().len());
        }
        assert forall|k: int| 0 <= k < input.len() implies rolled_up(#[trigger] input[k]) by {}
    }
    Some(r)
}

proof fn lemma_totals_prefix(a: Seq<ScannedNode>, b: Seq<ScannedNode>)
    ensures
        total_size(a + b) == total_size(a) + total_size(b),
        total_items(a + b) == total_items(a) + total_items(b),
    decreases b.len(),
{
    if b.len() == 0 {
        assert(a + b =~= a);
    } else {
        lemma_totals_prefix(a, b.drop_last());
        assert((a + b).drop_last() =~= a + b.drop_last());
    }
}

/// A node of the flattened tree.
#[derive(Clone, Debug)]
pub struct DiskUsageNode {
    pub name: String,
    pub path: String,
    pub kind: NodeKind,
    pub size: u64,
    pub item_count: u64,
    pub modified: Option<i64>,
    pub parent: Option<NodeId>,
    pub children: Vec<NodeId>,
}

/// A scanned tree laid out flat: the root first, each node followed by its
/// subtrees in order, with links both ways and an index by path.
pub struct DiskUsageTree {
    pub nodes: Vec<DiskUsageNode>,
    pub path_index: PathIndex,
}

/// The links are consistent: every child of a node lies after it and names
/// it as its parent, and every node but the first has a parent before it.
pub open spec fn links_consistent(nodes: Seq<DiskUsageNode>) -> bool {
    &&& forall|i: int, k: int|
        0 <= i < nodes.len() && 0 <= k < nodes[i].children@.len() ==> {
            let c = #[trigger] nodes[i].children@[k] as int;
            i < c < nodes.len() && nodes[c].parent == Some(i as usize)
        }
    &&& forall|i: int|
        0 < i < nodes.len() ==> (#[trigger] nodes[i].parent matches Some(p) && p < i)
    &&& nodes.len() > 0 ==> nodes[0].parent is None
}

/// Every node's path leads back, through the index, to a node with that
/// path, and the index holds nothing else.
pub open spec fn index_consistent(nodes: Seq<DiskUsageNode>, index: Map<Seq<char>, NodeId>) -> bool {
    &&& forall|i: int| 0 <= i < nodes.len() ==> index.contains_key(#[trigger] nodes[i].path@)
    &&& forall|p: Seq<char>|
        #[trigger] index.contains_key(p) ==> index[p] < nodes.len() && nodes[index[p] as int].path@
            == p
}

/// No two nodes have the same path.
pub open spec fn paths_distinct(nodes: Seq<DiskUsageNode>) -> bool {
    forall|i: int, j: int|
        0 <= i < nodes.len() && 0 <= j < nodes.len() && i != j ==> #[trigger] nodes[i].path@
            != #[trigger] nodes[j].path@
}

/// When no two nodes share a path, the index leads from each node's path to
/// that node itself.
pub proof fn lemma_index_finds_own_node(nodes: Seq<DiskUsageNode>, index: Map<Seq<char>, NodeId>)
    requires
        index_consistent(nodes, index),
        paths_distinct(nodes),
    ensures
        forall|i: int| 0 <= i < nodes.len() ==> index[#[trigger] nodes[i].path@] == i,
{
    assert forall|i: int| 0 <= i < nodes.len() implies index[#[trigger] nodes[i].path@] == i by {
        let p = nodes[i].path@;
        assert(index.contains_key(p));
        let j = index[p] as int;
        assert(nodes[j].path@ == p);
    }
}

impl DiskUsageTree {
    pub open spec fn wf(&self) -> bool {
        &&& links_consistent(self.nodes@)
        &&& index_consistent(self.nodes@, path_index_contents(self.path_index))
    }

    /// The id of the root node.
    pub fn root(&self) -> (id: NodeId)
        ensures
            id == 0,
    {
        0
    }

    /// Node `id`.
    pub fn get(&self, id: NodeId) -> (n: &DiskUsageNode)
        requires
            id < self.nodes@.len(),
        ensures
            *n == self.nodes@[id as int],
    {
        &self.nodes[id]
    }

    /// The id of the node with this path, if any.
    pub fn find(&self, path: &str) -> (r: Option<NodeId>)
        requires
            self.wf(),
        ensures
            r matches Some(id) ==> id < self.nodes@.len() && self.nodes@[id as int].path@ == path@,
            r is None ==> forall|i: int| 0 <= i < self.nodes@.len() ==> self.nodes@[i].path@ != path@,
            path_index_contents(self.path_index).contains_key(path@) ==> r == Some(
                path_index_contents(self.path_index)[path@],
            ),
            !path_index_contents(self.path_index).contains_key(path@) ==> r is None,
    {
        path_index_get(&self.path_index, path)
    }

    /// Whether the view can be rooted at `path`: it names a directory of
    /// the tree.
    pub fn can_drill_into(&self, path: &str) -> (b: bool)
        requires
            self.wf(),
        ensures
            b == (path_index_contents(self.path_index).contains_key(path@) && self.nodes@[path_index_contents(
                self.path_index,
            )[path@] as int].kind == NodeKind::Directory),
    {
        match self.find(path) {
            Some(id) => self.nodes[id].kind == NodeKind::Directory,
            None => false,
        }
    }

    /// Where going up a level from the view's root leads: the path of the
    /// root node's parent, when the root is in the tree and has one.
    pub fn parent_root(&self, root: &str) -> (r: Option<String>)
        requires
            self.wf(),
        ensures
            ({
                let index = path_index_contents(self.path_index);
                if index.contains_key(root@) {
                    match self.nodes@[index[root@] as int].parent {
                        Some(p) => r matches Some(q) && q@ == self.nodes@[p as int].path@,
                        None => r is None,
                    }
                } else {
                    r is None
                }
            }),
    {
        match self.find(root) {
            Some(id) => match self.nodes[id].parent {
                Some(p) => {
                    proof {
                        if id > 0 {
                            assert(self.nodes@[id as int].parent matches Some(pp) && pp < id);
                        }
                    }
                    Some(self.nodes[p].path.clone())
                },
                None => None,
            },
            None => None,
        }
    }
}

/// How many nodes a scanned tree has.
pub open spec fn node_count(t: ScannedNode) -> nat
    decreases t, 1nat,
{
    1 + forest_count(t.children@)
}

/// How many nodes some scanned trees have together.
pub open spec fn forest_count(s: Seq<ScannedNode>) -> nat
    decreases s, 0nat,
{
    if s.len() == 0 {
        0
    } else {
        forest_count(s.drop_last()) + node_count(s.last())
    }
}

/// Node `id` of a flat tree and the nodes below it lay out the scanned
/// tree `t`: the same fields, and each child a later node laying out the
/// matching scanned child, in order.
pub open spec fn represents(nodes: Seq<DiskUsageNode>, id: int, t: ScannedNode) -> bool
    decreases t, 1nat,
{
    &&& 0 <= id < nodes.len()
    &&& nodes[id].name == t.name
    &&& nodes[id].path == t.path
    &&& nodes[id].kind == t.kind
    &&& nodes[id].size == t.size
    &&& nodes[id].item_count == t.item_count
    &&& nodes[id].modified == t.modified
    &&& nodes[id].children@.len() == t.children@.len()
    &&& forall|k: int| 0 <= k < nodes[id].children@.len() ==> #[trigger] nodes[id].children@[k] > id
    &&& children_represent(nodes, nodes[id].children@, t.children@)
}

/// The nodes `ids` lay out the scanned trees `kids`, one for one.
pub open spec fn children_represent(nodes: Seq<DiskUsageNode>, ids: Seq<NodeId>, kids: Seq<ScannedNode>) -> bool
    decreases kids, 0nat,
{
    if ids.len() != kids.len() {
        false
    } else if kids.len() == 0 {
        true
    } else {
        children_represent(nodes, ids.drop_last(), kids.drop_last()) && represents(
            nodes,
            ids.last() as int,
            kids.last(),
        )
    }
}

/// The sizes of the nodes `ids` added up.
pub open spec fn flat_sizes(nodes: Seq<DiskUsageNode>, ids: Seq<NodeId>) -> int
    decreases ids.len(),
{
    if ids.len() == 0 {
        0
    } else {
        flat_sizes(nodes, ids.drop_last()) + nodes[ids.last() as int].size
    }
}

/// The items under a directory whose children are the nodes `ids`: each
/// child and everything under it.
pub open spec fn flat_items(nodes: Seq<DiskUsageNode>, ids: Seq<NodeId>) -> int
    decreases ids.len(),
{
    if ids.len() == 0 {
        0
    } else {
        flat_items(nodes, ids.drop_last()) + nodes[ids.last() as int].item_count + 1
    }
}

/// Node `id` of a flat tree is rolled up from its child nodes: a directory
/// has their sizes and item counts added up and lists them largest first;
/// any other node has no children and counts no items.
pub open spec fn flat_rolled_up(nodes: Seq<DiskUsageNode>, id: int) -> bool {
    let n = nodes[id];
    if n.kind == NodeKind::Directory {
        &&& n.size == flat_sizes(nodes, n.children@)
        &&& n.item_count == flat_items(nodes, n.children@)
        &&& forall|i: int, j: int|
            0 <= i < j < n.children@.len() ==> nodes[#[trigger] n.children@[i] as int].size
                >= nodes[#[trigger] n.children@[j] as int].size
    } else {
        n.children@.len() == 0 && n.item_count == 0
    }
}

proof fn lemma_children_represent_each(nodes: Seq<DiskUsageNode>, ids: Seq<NodeId>, kids: Seq<ScannedNode>)
    requires
        children_represent(nodes, ids, kids),
    ensures
        ids.len() == kids.len(),
        forall|k: int| 0 <= k < kids.len() ==> represents(nodes, #[trigger] ids[k] as int, kids[k]),
        flat_sizes(nodes, ids) == total_size(kids),
        flat_items(nodes, ids) == total_items(kids),
    decreases kids.len(),
{
    if kids.len() > 0 {
        lemma_children_represent_each(nodes, ids.drop_last(), kids.drop_last());
        assert forall|k: int| 0 <= k < kids.len() implies represents(nodes, #[trigger] ids[k] as int, kids[k]) by {
            if k < kids.len() - 1 {
                assert(ids.drop_last()[k] == ids[k]);
                assert(kids.drop_last()[k] == kids[k]);
            }
        }
    }
}

/// A flat tree laid out from a rolled-up scanned tree is rolled up too:
/// node `id`, laying out `t`, is rolled up from its child nodes, and each
/// child node lays out the matching rolled-up scanned child, so the same
/// holds all the way down from the root that `flatten_tree` lays out.
pub proof fn lemma_flat_rolled_up(nodes: Seq<DiskUsageNode>, id: int, t: ScannedNode)
    requires
        represents(nodes, id, t),
        rolled_up(t),
    ensures
        flat_rolled_up(nodes, id),
        forall|k: int|
            0 <= k < t.children@.len() ==> represents(nodes, #[trigger] nodes[id].children@[k] as int, t.children@[k])
                && rolled_up(t.children@[k]),
{
    let ids = nodes[id].children@;
    lemma_children_represent_each(nodes, ids, t.children@);
    assert forall|k: int| 0 <= k < t.children@.len() implies represents(nodes, #[trigger] nodes[id].children@[k] as int, t.children@[k])
        && rolled_up(t.children@[k]) by {
        assert(represents(nodes, ids[k] as int, t.children@[k]));
    }
    if t.kind == NodeKind::Directory {
        assert forall|i: int, j: int| 0 <= i < j < ids.len() implies nodes[#[trigger] ids[i] as int].size
            >= nodes[#[trigger] ids[j] as int].size by {
            assert(represents(nodes, ids[i] as int, t.children@[i]));
            assert(represents(nodes, ids[j] as int, t.children@[j]));
        }
    }
}

proof fn lemma_flat_sums_frame(n1: Seq<DiskUsageNode>, n2: Seq<DiskUsageNode>, ids: Seq<NodeId>)
    requires
        forall|k: int| 0 <= k < ids.len() ==> n2[#[trigger] ids[k] as int] == n1[ids[k] as int],
    ensures
        flat_sizes(n2, ids) == flat_sizes(n1, ids),
        flat_items(n2, ids) == flat_items(n1, ids),
    decreases ids.len(),
{
    if ids.len() > 0 {
        assert forall|k: int| 0 <= k < ids.drop_last().len() implies n2[#[trigger] ids.drop_last()[k] as int]
            == n1[ids.drop_last()[k] as int] by {
            assert(ids.drop_last()[k] == ids[k]);
        }
        lemma_flat_sums_frame(n1, n2, ids.drop_last());
        assert(n2[ids.last() as int] == n1[ids.last() as int]);
    }
}

/// Whether node `i` is rolled up depends on that node and its children
/// alone.
proof fn lemma_flat_frame(n1: Seq<DiskUsageNode>, n2: Seq<DiskUsageNode>, i: int)
    requires
        flat_rolled_up(n1, i),
        n2[i] == n1[i],
        forall|k: int|
            0 <= k < n1[i].children@.len() ==> n2[#[trigger] n1[i].children@[k] as int]
                == n1[n1[i].children@[k] as int],
    ensures
        flat_rolled_up(n2, i),
{
    lemma_flat_sums_frame(n1, n2, n1[i].children@);
}

proof fn lemma_represents_append(n1: Seq<DiskUsageNode>, n2: Seq<DiskUsageNode>, id: int, t: ScannedNode)
    requires
        represents(n1, id, t),
        n1.len() <= n2.len(),
        forall|i: int| 0 <= i < n1.len() ==> #[trigger] n2[i] == n1[i],
    ensures
        represents(n2, id, t),
    decreases t, 1nat,
{
    assert(n2[id] == n1[id]);
    assert(decreases_to!(t => t.children));
    assert(decreases_to!(t.children => t.children@));
    lemma_children_append(n1, n2, n1[id].children@, t.children@);
}

proof fn lemma_children_append(
    n1: Seq<DiskUsageNode>,
    n2: Seq<DiskUsageNode>,
    ids: Seq<NodeId>,
    kids: Seq<ScannedNode>,
)
    requires
        children_represent(n1, ids, kids),
        n1.len() <= n2.len(),
        forall|i: int| 0 <= i < n1.len() ==> #[trigger] n2[i] == n1[i],
    ensures
        children_represent(n2, ids, kids),
    decreases kids, 0nat,
{
    if kids.len() > 0 {
        lemma_children_append(n1, n2, ids.drop_last(), kids.drop_last());
        lemma_represents_append(n1, n2, ids.last() as int, kids.last());
    }
}

proof fn lemma_represents_update(
    n1: Seq<DiskUsageNode>,
    pos: int,
    x: DiskUsageNode,
    id: int,
    t: ScannedNode,
)
    requires
        represents(n1, id, t),
        0 <= pos < id,
    ensures
        represents(n1.update(pos, x), id, t),
    decreases t, 1nat,
{
    let n2 = n1.update(pos, x);
    assert(n2[id] == n1[id]);
    assert(decreases_to!(t => t.children));
    assert(decreases_to!(t.children => t.children@));
    lemma_children_update(n1, pos, x, id, n1[id].children@, t.children@);
}

proof fn lemma_children_update(
    n1: Seq<DiskUsageNode>,
    pos: int,
    x: DiskUsageNode,
    above: int,
    ids: Seq<NodeId>,
    kids: Seq<ScannedNode>,
)
    requires
        children_represent(n1, ids, kids),
        0 <= pos <= above,
        forall|k: int| 0 <= k < ids.len() ==> #[trigger] ids[k] > above,
    ensures
        children_represent(n1.update(pos, x), ids, kids),
    decreases kids, 0nat,
{
    if kids.len() > 0 {
        assert forall|k: int| 0 <= k < ids.drop_last().len() implies #[trigger] ids.drop_last()[k]
            > above by {
            assert(ids.drop_last()[k] == ids[k]);
        }
        lemma_children_update(n1, pos, x, above, ids.drop_last(), kids.drop_last());
        assert(ids.last() == ids[ids.len() - 1]);
        lemma_represents_update(n1, pos, x, ids.last() as int, kids.last());
    }
}

proof fn lemma_forest_prefix(s: Seq<ScannedNode>, j: int)
    requires
        0 <= j <= s.len(),
    ensures
        forest_count(s.take(j)) <= forest_count(s),
    decreases s.len() - j,
{
    if j < s.len() {
        lemma_forest_prefix(s, j + 1);
        assert(s.take(j + 1).drop_last() =~= s.take(j));
    } else {
        assert(s.take(j) =~= s);
    }
}

#[verifier::spinoff_prover]
fn flatten_node(
    scanned: ScannedNode,
    parent: Option<NodeId>,
    nodes: &mut Vec<DiskUsageNode>,
    index: &mut PathIndex,
) -> (id: NodeId)
    requires
        links_consistent(old(nodes)@),
        index_consistent(old(nodes)@, path_index_contents(*old(index))),
        parent matches Some(p) ==> p < old(nodes)@.len(),
        parent is None ==> old(nodes)@.len() == 0,
        old(nodes)@.len() + node_count(scanned) <= usize::MAX,
    ensures
        id == old(nodes)@.len(),
        final(nodes)@.len() == old(nodes)@.len() + node_count(scanned),
        links_consistent(final(nodes)@),
        index_consistent(final(nodes)@, path_index_contents(*final(index))),
        forall|i: int| 0 <= i < old(nodes)@.len() ==> #[trigger] final(nodes)@[i] == old(nodes)@[i],
        final(nodes)@[id as int].parent == parent,
        final(nodes)@[id as int].name == scanned.name,
        final(nodes)@[id as int].path == scanned.path,
        final(nodes)@[id as int].kind == scanned.kind,
        final(nodes)@[id as int].size == scanned.size,
        final(nodes)@[id as int].item_count == scanned.item_count,
        final(nodes)@[id as int].modified == scanned.modified,
        final(nodes)@[id as int].children@.len() == scanned.children@.len(),
        represents(final(nodes)@, id as int, scanned),
        rolled_up(scanned) ==> forall|i: int|
            id <= i < final(nodes)@.len() ==> flat_rolled_up(final(nodes)@, i),
    decreases scanned,
{
    let ghost sc = scanned;
    let id = nodes.len();
    let ScannedNode { name, path, kind, size, item_count, modified, children } = scanned;
    let ghost kids = children@;
    let nkids = children.len();
    nodes.push(
        DiskUsageNode {
            name: name.clone(),
            path: path.clone(),
            kind,
            size,
            item_count,
            modified,
            parent,
            children: Vec::new(),
        },
    );
    let ghost old_index = path_index_contents(*index);
    path_index_insert(index, path.clone(), id);
    proof {
        assert forall|p: Seq<char>| #[trigger] path_index_contents(*index).contains_key(p) implies path_index_contents(
            *index,
        )[p] < nodes@.len() && nodes@[path_index_contents(*index)[p] as int].path@ == p by {
            if p != path@ {
                assert(old_index.contains_key(p));
            }
        }
        assert forall|i: int| 0 <= i < nodes@.len() implies path_index_contents(*index).contains_key(
            #[trigger] nodes@[i].path@,
        ) by {
            if i < id {
                assert(old_index.contains_key(nodes@[i].path@));
            }
        }
    }
    let mut rest = children;
    let mut child_ids: Vec<NodeId> = Vec::new();
    let mut k: usize = 0;
    proof {
        assert(kids.skip(0) =~= kids);
        assert(kids.take(0) =~= Seq::<ScannedNode>::empty());
        lemma_forest_prefix(kids, 0);
    }
    while rest.len() > 0
        invariant
            sc == scanned,
            sc.children@ == kids,
            kids.len() == nkids,
            node_count(sc) == 1 + forest_count(kids),
            rest@ == kids.skip(k as int),
            k <= kids.len(),
            child_ids@.len() == k,
            id < nodes@.len(),
            nodes@.len() == id + 1 + forest_count(kids.take(k as int)),
            id + node_count(sc) <= usize::MAX,
            links_consistent(nodes@),
            nodes@[id as int].children@.len() == 0,
            index_consistent(nodes@, path_index_contents(*index)),
            forall|i: int| 0 <= i < id ==> #[trigger] nodes@[i] == old(nodes)@[i],
            nodes@[id as int].parent == parent,
            nodes@[id as int].name == name,
            nodes@[id as int].path == path,
            nodes@[id as int].kind == kind,
            nodes@[id as int].size == size,
            nodes@[id as int].item_count == item_count,
            nodes@[id as int].modified == modified,
            forall|j: int|
                0 <= j < k ==> {
                    let c = #[trigger] child_ids@[j] as int;
                    id < c < nodes@.len() && nodes@[c].parent == Some(id)
                },
            children_represent(nodes@, child_ids@, kids.take(k as int)),
            rolled_up(sc) ==> forall|i: int| id < i < nodes@.len() ==> flat_rolled_up(nodes@, i),
        decreases rest@.len(),
    {
        let child = rest.remove(0);
        proof {
            assert(child == kids[k as int]);
            assert(rest@ =~= kids.skip(k + 1));
            assert(kids.take(k + 1).drop_last() =~= kids.take(k as int));
            assert(kids.take(k + 1).last() == child);
            lemma_forest_prefix(kids, k + 1);
            assert(decreases_to!(sc => sc.children));
            assert(decreases_to!(sc.children => sc.children@));
            assert(decreases_to!(sc.children@ => sc.children@[k as int]));
            assert(decreases_to!(sc => child));
        }
        let ghost before = nodes@;
        let cid = flatten_node(child, Some(id), nodes, index);
        proof {
            assert forall|j: int| 0 <= j < k implies {
                let c = #[trigger] child_ids@[j] as int;
                id < c < nodes@.len() && nodes@[c].parent == Some(id)
            } by {
                let c = child_ids@[j] as int;
                assert(nodes@[c] == before[c]);
            }
        }
        proof {
            lemma_children_append(before, nodes@, child_ids@, kids.take(k as int));
            if rolled_up(sc) {
                assert(rolled_up(sc.children@[k as int]));
                assert forall|i: int| id < i < nodes@.len() implies flat_rolled_up(nodes@, i) by {
                    if i < before.len() {
                        assert forall|q: int| 0 <= q < before[i].children@.len() implies nodes@[
                            #[trigger] before[i].children@[q] as int] == before[before[i].children@[q] as int] by {
                            let c = before[i].children@[q] as int;
                            assert(i < c < before.len());
                        }
                        lemma_flat_frame(before, nodes@, i);
                    }
                }
            }
        }
        let ghost ids_before = child_ids@;
        child_ids.push(cid);
        proof {
            assert(child_ids@.drop_last() =~= ids_before);
            assert(kids.take(k + 1).drop_last() =~= kids.take(k as int));
            assert(kids.take(k + 1).last() == child);
        }
        k = k + 1;
    }
    proof {
        assert(kids.skip(k as int).len() == 0);
        assert(kids.take(k as int) =~= kids);
    }
    let ghost before = nodes@;
    let node = DiskUsageNode {
        name,
        path,
        kind,
        size,
        item_count,
        modified,
        parent,
        children: child_ids,
    };
    nodes.set(id, node);
    proof {
        assert forall|i: int, j: int|
            0 <= i < nodes@.len() && 0 <= j < nodes@[i].children@.len() implies {
            let c = #[trigger] nodes@[i].children@[j] as int;
            i < c < nodes@.len() && nodes@[c].parent == Some(i as usize)
        } by {
            if i != id {
                assert(nodes@[i] == before[i]);
                let c = before[i].children@[j] as int;
                assert(c != id);
            }
        }
        assert forall|i: int| 0 < i < nodes@.len() implies (#[trigger] nodes@[i].parent matches Some(
            p,
        ) && p < i) by {
            assert(nodes@[i].parent == before[i].parent);
        }
        assert forall|i: int| 0 <= i < nodes@.len() implies path_index_contents(*index).contains_key(
            #[trigger] nodes@[i].path@,
        ) by {
            assert(nodes@[i].path == before[i].path);
        }
        assert forall|p: Seq<char>| #[trigger] path_index_contents(*index).contains_key(p) implies path_index_contents(
            *index,
        )[p] < nodes@.len() && nodes@[path_index_contents(*index)[p] as int].path@ == p by {
            let q = path_index_contents(*index)[p] as int;
            assert(nodes@[q].path == before[q].path);
        }
        assert(nodes@ == before.update(id as int, node));
        assert forall|j: int| 0 <= j < child_ids@.len() implies #[trigger] child_ids@[j] > id by {}
        lemma_children_update(before, id as int, node, id as int, child_ids@, kids);
        assert(nodes@[id as int].children@ == child_ids@);
        assert(represents(nodes@, id as int, sc));
        if rolled_up(sc) {
            lemma_flat_rolled_up(nodes@, id as int, sc);
            assert forall|i: int| id <= i < nodes@.len() implies flat_rolled_up(nodes@, i) by {
                if i > id {
                    assert forall|q: int| 0 <= q < before[i].children@.len() implies nodes@[
                        #[trigger] before[i].children@[q] as int] == before[before[i].children@[q] as int] by {
                        let c = before[i].children@[q] as int;
                        assert(i < c < before.len());
                    }
                    lemma_flat_frame(before, nodes@, i);
                }
            }
        }
    }
    id
}

proof fn lemma_rolled_up_count(t: ScannedNode)
    requires
        rolled_up(t),
    ensures
        node_count(t) == t.item_count + 1,
    decreases t, 1nat,
{
    assert(decreases_to!(t => t.children));
    assert(decreases_to!(t.children => t.children@));
    lemma_rolled_up_forest_count(t.children@);
    if t.kind != NodeKind::Directory {
        assert(t.children@ =~= Seq::<ScannedNode>::empty());
    }
}

proof fn lemma_rolled_up_forest_count(s: Seq<ScannedNode>)
    requires
        forall|k: int| 0 <= k < s.len() ==> rolled_up(#[trigger] s[k]),
    ensures
        forest_count(s) == total_items(s),
    decreases s, 0nat,
{
    if s.len() > 0 {
        assert forall|k: int| 0 <= k < s.drop_last().len() implies rolled_up(#[trigger] s.drop_last()[k]) by {
            assert(s.drop_last()[k] == s[k]);
        }
        lemma_rolled_up_forest_count(s.drop_last());
        assert(rolled_up(s[s.len() - 1]));
        lemma_rolled_up_count(s.last());
    }
}

/// The disk usage tree of what the walk read: `None` exactly when some
/// listed folder's totals do not fit in a u64 or there are too many
/// entries to number. Every node of the tree is rolled up from its child
/// nodes, and the tree lays out the scan of `raw`.
#[verifier::spinoff_prover]
pub fn scan_tree_of(raw: RawEntry, rules: ScanRules) -> (r: Option<DiskUsageTree>)
    ensures
        r is Some <==> (scan_fits(raw, rules) && scan_items(raw, rules) < usize::MAX),
        r matches Some(t) ==> t.wf(),
        r matches Some(t) ==> exists|s: ScannedNode|
            scans_to(raw, rules, s) && #[trigger] represents(t.nodes@, 0, s),
        r matches Some(t) ==> forall|i: int|
            0 <= i < t.nodes@.len() ==> #[trigger] flat_rolled_up(t.nodes@, i),
{
    let ghost g = raw;
    let scanned = match scan_entry(raw, rules) {
        Some(s) => s,
        None => {
            return None;
        },
    };
    if scanned.item_count >= usize::MAX as u64 {
        return None;
    }
    proof {
        lemma_rolled_up_count(scanned);
    }
    let ghost sc = scanned;
    let t = flatten_tree(scanned);
    assert(scans_to(g, rules, sc) && represents(t.nodes@, 0, sc));
    assert(forall|i: int| 0 <= i < t.nodes@.len() ==> #[trigger] flat_rolled_up(t.nodes@, i));
    assert(exists|s: ScannedNode| scans_to(g, rules, s) && #[trigger] represents(t.nodes@, 0, s));
    assert(t.wf());
    Some(t)
}

/// Lays a scanned tree out flat (see `DiskUsageTree`).
pub fn flatten_tree(root: ScannedNode) -> (t: DiskUsageTree)
    requires
        node_count(root) <= usize::MAX,
    ensures
        t.wf(),
        t.nodes@.len() == node_count(root),
        t.nodes@[0].path == root.path,
        t.nodes@[0].name == root.name,
        t.nodes@[0].size == root.size,
        t.nodes@[0].item_count == root.item_count,
        t.nodes@[0].kind == root.kind,
        t.nodes@[0].children@.len() == root.children@.len(),
        represents(t.nodes@, 0, root),
        paths_distinct(t.nodes@) ==> forall|i: int|
            0 <= i < t.nodes@.len() ==> path_index_contents(t.path_index)[#[trigger] t.nodes@[i].path@]
                == i,
        rolled_up(root) ==> forall|i: int| 0 <= i < t.nodes@.len() ==> #[trigger] flat_rolled_up(t.nodes@, i),
{
    let mut nodes: Vec<DiskUsageNode> = Vec::new();
    let mut index = new_path_index();
    let _ = flatten_node(root, None, &mut nodes, &mut index);
    proof {
        if paths_distinct(nodes@) {
            lemma_index_finds_own_node(nodes@, path_index_contents(index));
        }

    }
    DiskUsageTree { nodes, path_index: index }
}

} // verus!
