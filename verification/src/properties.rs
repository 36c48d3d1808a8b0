//! The properties window: what it shows about the selected items.
//!
//! Looking the items up is the caller's part; it hands over, for each item
//! that could be looked up, what the file system reports.
use vstd::prelude::*;

use crate::clipboard::{decimal, decimal_of, lemma_decimal_writes};
use crate::entry::{spec_type_label, type_label_for};
use crate::paths::{file_name, path_file_name};
use crate::text::{all_digits, append_str, chars_of, digits_value, string_from_chars};

verus! {

/// The tabs of the properties window.
#[derive(Clone, Copy, PartialEq, Eq, Debug, Structural)]
pub enum PropertiesTab {
    General,
    Permissions,
}

/// Totals over the files of a selection.
#[derive(Clone, Copy, PartialEq, Eq, Debug, Structural)]
pub struct SelectionStats {
    pub file_count: u64,
    pub total_size: u64,
    pub size_on_disk: u64,
}

/// The totals of a selection: still being counted (when it holds a folder),
/// or known.
#[derive(Clone, Copy, PartialEq, Eq, Debug, Structural)]
pub enum StatsState {
    Loading,
    Ready(SelectionStats),
}

/// What is shown about a single item (times in seconds since the epoch).
#[derive(Clone, Copy, PartialEq, Eq, Debug, Structural)]
pub struct SingleItemInfo {
    pub modified: Option<i64>,
    pub accessed: Option<i64>,
    pub permissions_changed: Option<i64>,
    pub mode: u32,
    pub uid: u32,
    pub gid: u32,
}

/// What the file system reports of an item, without following links.
#[derive(Clone, Copy, PartialEq, Eq, Debug, Structural)]
pub struct ItemMeta {
    pub is_dir: bool,
    pub is_symlink: bool,
    pub len: u64,
    /// Blocks of 512 bytes.
    pub blocks: u64,
    pub modified: Option<i64>,
    pub accessed: Option<i64>,
    /// When the item's status last changed (seconds since the epoch).
    pub ctime: i64,
    pub mode: u32,
    pub uid: u32,
    pub gid: u32,
}

/// What reading a symbolic link found: its target, if it could be read,
/// and whether the target is a folder (`None` when it does not exist).
#[derive(Clone, Debug)]
pub struct LinkProbe {
    pub target: Option<String>,
    pub target_is_dir: Option<bool>,
}

/// What the properties window shows.
#[derive(Clone, Debug)]
pub struct PropertiesSummary {
    pub name: String,
    pub location: String,
    pub type_label: String,
    pub is_dir: bool,
    pub is_symlink: bool,
    pub link_target: Option<String>,
    pub link_target_is_dir: bool,
    pub single: Option<SingleItemInfo>,
    pub stats: StatsState,
    pub window_title: String,
}

pub open spec fn metas_of(items: Seq<(String, ItemMeta)>) -> Seq<ItemMeta> {
    items.map_values(|p: (String, ItemMeta)| p.1)
}

pub open spec fn all_dirs(m: Seq<ItemMeta>) -> bool {
    forall|i: int| 0 <= i < m.len() ==> #[trigger] m[i].is_dir
}

pub open spec fn any_dir(m: Seq<ItemMeta>) -> bool {
    exists|i: int| 0 <= i < m.len() && #[trigger] m[i].is_dir
}

/// The totals over files: each counts once, with its length and its
/// blocks of 512 bytes.
pub open spec fn file_totals(m: Seq<ItemMeta>) -> (int, int, int)
    decreases m.len(),
{
    if m.len() == 0 {
        (0, 0, 0)
    } else {
        let t = file_totals(m.drop_last());
        (t.0 + 1, t.1 + m.last().len, t.2 + m.last().blocks * 512)
    }
}

pub open spec fn totals_fit(m: Seq<ItemMeta>) -> bool {
    let t = file_totals(m);
    t.0 <= u64::MAX && t.1 <= u64::MAX && t.2 <= u64::MAX
}

proof fn lemma_totals_grow(m: Seq<ItemMeta>, k: int)
    requires
        0 <= k <= m.len(),
    ensures
        file_totals(m.take(k)).0 <= file_totals(m).0,
        file_totals(m.take(k)).1 <= file_totals(m).1,
        file_totals(m.take(k)).2 <= file_totals(m).2,
        file_totals(m.take(k)).0 >= 0 && file_totals(m.take(k)).1 >= 0 && file_totals(m.take(k)).2 >= 0,
    decreases m.len() - k,
{
    lemma_totals_nonneg(m.take(k));
    if k < m.len() {
        lemma_totals_grow(m, k + 1);
        assert(m.take(k + 1).drop_last() =~= m.take(k));
    } else {
        assert(m.take(k) =~= m);
        lemma_totals_nonneg(m);
    }
}

proof fn lemma_totals_nonneg(m: Seq<ItemMeta>)
    ensures
        file_totals(m).0 >= 0 && file_totals(m).1 >= 0 && file_totals(m).2 >= 0,
    decreases m.len(),
{
    if m.len() > 0 {
        lemma_totals_nonneg(m.drop_last());
    }
}

/// The name shown: the item's file name (empty when it has none), or how
/// many items are selected.
pub open spec fn spec_properties_name(paths: Seq<Seq<char>>) -> Seq<char> {
    if paths.len() == 1 {
        match path_file_name(paths[0]) {
            Some(n) => n,
            None => Seq::empty(),
        }
    } else {
        decimal(paths.len()) + " items selected"@
    }
}

/// The type shown: for one item its type, a link's being that of its
/// target (or a broken link); for several, whether they are all folders,
/// all files, or mixed.
pub open spec fn spec_properties_type(
    paths: Seq<Seq<char>>,
    metas: Seq<ItemMeta>,
    link: Option<(Option<Seq<char>>, Option<bool>)>,
) -> Seq<char> {
    let name = match path_file_name(paths[0]) {
        Some(n) => n,
        None => Seq::empty(),
    };
    if metas.len() == 1 && metas[0].is_symlink {
        match link {
            Some((_, Some(target_is_dir))) => "Symbolic Link ("@ + spec_type_label(name, target_is_dir)
                + ")"@,
            _ => "Broken Symbolic Link"@,
        }
    } else if metas.len() == 1 {
        spec_type_label(name, metas[0].is_dir)
    } else if all_dirs(metas) {
        "Multiple Folders"@
    } else if !any_dir(metas) {
        "Multiple Files"@
    } else {
        "Multiple Items"@
    }
}

pub open spec fn paths_of(items: Seq<(String, ItemMeta)>) -> Seq<Seq<char>> {
    items.map_values(|p: (String, ItemMeta)| p.0@)
}

/// The type shown for several items: "Multiple Folders" when every one is
/// a folder, "Multiple Files" when none is, and "Multiple Items" when they
/// are mixed.
pub proof fn lemma_several_items_type(
    paths: Seq<Seq<char>>,
    metas: Seq<ItemMeta>,
    link: Option<(Option<Seq<char>>, Option<bool>)>,
)
    requires
        metas.len() > 1,
    ensures
        (forall|k: int| 0 <= k < metas.len() ==> #[trigger] metas[k].is_dir) ==> spec_properties_type(
            paths,
            metas,
            link,
        ) == "Multiple Folders"@,
        (forall|k: int| 0 <= k < metas.len() ==> !#[trigger] metas[k].is_dir) ==> spec_properties_type(
            paths,
            metas,
            link,
        ) == "Multiple Files"@,
        (exists|i: int, j: int|
            0 <= i < metas.len() && 0 <= j < metas.len() && #[trigger] metas[i].is_dir
                && !#[trigger] metas[j].is_dir) ==> spec_properties_type(paths, metas, link)
            == "Multiple Items"@,
{
    if forall|k: int| 0 <= k < metas.len() ==> !#[trigger] metas[k].is_dir {
        assert(!metas[0].is_dir);
    }
}

/// The name shown: one item's file name; for several, their count in
/// decimal followed by " items selected".
pub proof fn lemma_properties_name(paths: Seq<Seq<char>>)
    ensures
        paths.len() == 1 ==> (path_file_name(paths[0]) matches Some(f) ==> spec_properties_name(paths)
            == f),
        paths.len() > 1 ==> ({
            let n = spec_properties_name(paths);
            let suffix = " items selected"@;
            let k = n.len() - suffix.len();
            &&& k > 0
            &&& n.skip(k) == suffix
            &&& all_digits(n.take(k))
            &&& digits_value(n.take(k)) == paths.len()
        }),
{
    if paths.len() > 1 {
        lemma_decimal_writes(paths.len());
        let d = decimal(paths.len());
        let n = d + " items selected"@;
        assert(n.skip(d.len() as int) =~= " items selected"@);
        assert(n.take(d.len() as int) =~= d);
    }
}

/// Which items are folders decides the folder flags: every one of them,
/// or at least one.
pub proof fn lemma_dir_flags(m: Seq<ItemMeta>)
    ensures
        all_dirs(m) <==> forall|k: int| 0 <= k < m.len() ==> #[trigger] m[k].is_dir,
        any_dir(m) <==> exists|k: int| 0 <= k < m.len() && #[trigger] m[k].is_dir,
{
}

/// The totals over files add up: none for no file; one file counts once
/// with its length and its blocks of 512 bytes; and the totals of two
/// selections together are their totals added.
pub proof fn lemma_file_totals_add(a: Seq<ItemMeta>, b: Seq<ItemMeta>, x: ItemMeta)
    ensures
        file_totals(Seq::empty()) == (0int, 0int, 0int),
        file_totals(seq![x]) == (1int, x.len as int, x.blocks * 512),
        file_totals(a + b) == (file_totals(a).0 + file_totals(b).0, file_totals(a).1 + file_totals(
            b,
        ).1, file_totals(a).2 + file_totals(b).2),
        file_totals(a).0 == a.len(),
    decreases b.len(),
{
    assert(seq![x].drop_last() =~= Seq::<ItemMeta>::empty());
    assert(file_totals(Seq::<ItemMeta>::empty()) == (0int, 0int, 0int));
    assert(file_totals(seq![x]) == (1int, x.len as int, x.blocks * 512));
    if b.len() > 0 {
        lemma_file_totals_add(a, b.drop_last(), x);
        assert((a + b).drop_last() =~= a + b.drop_last());
    } else {
        assert(a + b =~= a);
    }
    lemma_file_count(a);
}

proof fn lemma_file_count(a: Seq<ItemMeta>)
    ensures
        file_totals(a).0 == a.len(),
    decreases a.len(),
{
    if a.len() > 0 {
        lemma_file_count(a.drop_last());
    }
}

/// The type shown for a single link: that of its target, or a broken link
/// when the target does not exist.
pub proof fn lemma_single_link_type(
    paths: Seq<Seq<char>>,
    metas: Seq<ItemMeta>,
    link: Option<(Option<Seq<char>>, Option<bool>)>,
)
    requires
        metas.len() == 1,
        metas[0].is_symlink,
    ensures
        (link is None || (link matches Some((_, None)))) ==> spec_properties_type(paths, metas, link)
            == "Broken Symbolic Link"@,
        (link matches Some((_, Some(d)))) ==> is_prefix_of_type(
            "Symbolic Link ("@,
            spec_properties_type(paths, metas, link),
        ),
{
    if let Some((_, Some(d))) = link {
        let name = match path_file_name(paths[0]) {
            Some(n) => n,
            None => Seq::empty(),
        };
        let p = "Symbolic Link ("@;
        let t = p + spec_type_label(name, d) + ")"@;
        assert(t.take(p.len() as int) =~= p);
    }
}

/// Whether the type shown starts with `p`.
pub open spec fn is_prefix_of_type(p: Seq<char>, t: Seq<char>) -> bool {
    p.len() <= t.len() && t.take(p.len() as int) == p
}

pub open spec fn link_view(link: Option<LinkProbe>) -> Option<(Option<Seq<char>>, Option<bool>)> {
    match link {
        Some(l) => Some(
            (
                match l.target {
                    Some(t) => Some(t@),
                    None => None,
                },
                l.target_is_dir,
            ),
        ),
        None => None,
    }
}

fn name_of_first(path: &String) -> (r: Vec<char>)
    ensures
        r@ == (match path_file_name(path@) {
            Some(n) => n,
            None => Seq::<char>::empty(),
        }),
{
    match file_name(&chars_of(path.as_str())) {
        Some(n) => n,
        None => Vec::new(),
    }
}

/// What the properties window shows about the items that could be looked
/// up, in the folder shown: nothing when none could. `link` is what
/// reading the first item found when it is a symbolic link; it is not
/// used otherwise.
pub fn summarize(items: &Vec<(String, ItemMeta)>, location: String, link: Option<LinkProbe>) -> (r:
    Option<PropertiesSummary>)
    requires
        totals_fit(metas_of(items@)),
    ensures
        items@.len() == 0 ==> r is None,
        items@.len() > 0 ==> (r matches Some(s) && {
            let paths = paths_of(items@);
            let metas = metas_of(items@);
            let single_link = metas.len() == 1 && metas[0].is_symlink;
            &&& s.name@ == spec_properties_name(paths)
            &&& s.location == location
            &&& s.type_label@ == spec_properties_type(paths, metas, link_view(link))
            &&& s.is_dir == all_dirs(metas)
            &&& s.is_symlink == single_link
            &&& (single_link ==> match link {
                Some(l) => (s.link_target matches Some(t) ==> l.target matches Some(u) && t@ == u@)
                    && (s.link_target is None <==> l.target is None) && s.link_target_is_dir == (
                l.target_is_dir == Some(true)),
                None => s.link_target is None && !s.link_target_is_dir,
            })
            &&& (!single_link ==> s.link_target is None && !s.link_target_is_dir)
            &&& (metas.len() == 1 ==> s.single == Some(
                SingleItemInfo {
                    modified: metas[0].modified,
                    accessed: metas[0].accessed,
                    permissions_changed: Some(
                        if metas[0].ctime < 0 {
                            0
                        } else {
                            metas[0].ctime
                        },
                    ),
                    mode: metas[0].mode,
                    uid: metas[0].uid,
                    gid: metas[0].gid,
                },
            ))
            &&& (metas.len() != 1 ==> s.single is None)
            &&& (any_dir(metas) ==> s.stats == StatsState::Loading)
            &&& (!any_dir(metas) ==> s.stats == StatsState::Ready(
                SelectionStats {
                    file_count: file_totals(metas).0 as u64,
                    total_size: file_totals(metas).1 as u64,
                    size_on_disk: file_totals(metas).2 as u64,
                },
            ))
            &&& s.window_title@ == spec_properties_name(paths) + " Info"@
        }),
{
    let n = items.len();
    if n == 0 {
        return None;
    }
    let ghost paths = paths_of(items@);
    let ghost metas = metas_of(items@);
    let first = &items[0].1;
    let first_name = name_of_first(&items[0].0);
    assert(paths[0] == items@[0].0@);
    // name
    let name: String = if n == 1 {
        string_from_chars(&first_name)
    } else {
        let mut out = decimal_of(n);
        append_str(&mut out, " items selected");
        string_from_chars(&out)
    };
    // folders, and the totals over files
    let mut all = true;
    let mut any = false;
    let mut count: u64 = 0;
    let mut size: u64 = 0;
    let mut disk: u64 = 0;
    let mut i: usize = 0;
    while i < n
        invariant
            n == items@.len(),
            metas == metas_of(items@),
            totals_fit(metas),
            i <= n,
            all == all_dirs(metas.take(i as int)),
            any == any_dir(metas.take(i as int)),
            (count as int, size as int, disk as int) == file_totals(metas.take(i as int)),
        decreases n - i,
    {
        let m = items[i].1;
        proof {
            assert(metas[i as int] == m);
            assert(metas.take(i + 1).drop_last() =~= metas.take(i as int));
            assert(metas.take(i + 1).last() == m);
            lemma_totals_grow(metas, i + 1);
            assert(all_dirs(metas.take(i + 1)) == (all_dirs(metas.take(i as int)) && m.is_dir)) by {
                if all_dirs(metas.take(i as int)) && m.is_dir {
                    assert forall|j: int| 0 <= j < i + 1 implies #[trigger] metas.take(i + 1)[j].is_dir by {
                        if j < i {
                            assert(metas.take(i + 1)[j] == metas.take(i as int)[j]);
                        }
                    }
                }
                if all_dirs(metas.take(i + 1)) {
                    assert(metas.take(i + 1)[i as int].is_dir);
                    assert forall|j: int| 0 <= j < i implies #[trigger] metas.take(i as int)[j].is_dir by {
                        assert(metas.take(i + 1)[j] == metas.take(i as int)[j]);
                    }
                }
            }
            assert(any_dir(metas.take(i + 1)) == (any_dir(metas.take(i as int)) || m.is_dir)) by {
                if any_dir(metas.take(i as int)) {
                    let j = choose|j: int| 0 <= j < i && #[trigger] metas.take(i as int)[j].is_dir;
                    assert(metas.take(i + 1)[j] == metas.take(i as int)[j]);
                }
                if m.is_dir {
                    assert(metas.take(i + 1)[i as int].is_dir);
                }
                if any_dir(metas.take(i + 1)) {
                    let j = choose|j: int| 0 <= j < i + 1 && #[trigger] metas.take(i + 1)[j].is_dir;
                    if j < i {
                        assert(metas.take(i as int)[j] == metas.take(i + 1)[j]);
                    }
                }
            }
        }
        all = all && m.is_dir;
        any = any || m.is_dir;
        count = count + 1;
        size = size + m.len;
        disk = disk + m.blocks * 512;
        i = i + 1;
    }
    proof {
        assert(metas.take(n as int) =~= metas);
    }
    // links
    let single_link = n == 1 && first.is_symlink;
    let (link_target, link_target_is_dir, broken) = if single_link {
        match link {
            Some(l) => {
                let is_dir = match l.target_is_dir {
                    Some(d) => d,
                    None => false,
                };
                (l.target, is_dir, l.target_is_dir.is_none())
            },
            None => (None, false, true),
        }
    } else {
        (None, false, false)
    };
    // type
    let type_label: String = if single_link {
        if broken {
            "Broken Symbolic Link".to_owned()
        } else {
            let mut out = chars_of("Symbolic Link (");
            let inner = type_label_for(string_from_chars(&first_name).as_str(), link_target_is_dir);
            append_str(&mut out, inner.as_str());
            append_str(&mut out, ")");
            string_from_chars(&out)
        }
    } else if n == 1 {
        type_label_for(string_from_chars(&first_name).as_str(), first.is_dir)
    } else if all {
        "Multiple Folders".to_owned()
    } else if !any {
        "Multiple Files".to_owned()
    } else {
        "Multiple Items".to_owned()
    };
    let single = if n == 1 {
        Some(
            SingleItemInfo {
                modified: first.modified,
                accessed: first.accessed,
                permissions_changed: Some(
                    if first.ctime < 0 {
                        0
                    } else {
                        first.ctime
                    },
                ),
                mode: first.mode,
                uid: first.uid,
                gid: first.gid,
            },
        )
    } else {
        None
    };
    let stats = if any {
        StatsState::Loading
    } else {
        StatsState::Ready(SelectionStats { file_count: count, total_size: size, size_on_disk: disk })
    };
    let mut title = chars_of(name.as_str());
    append_str(&mut title, " Info");
    let window_title = string_from_chars(&title);
    Some(
        PropertiesSummary {
            name,
            location,
            type_label,
            is_dir: all,
            is_symlink: single_link,
            link_target,
            link_target_is_dir,
            single,
            stats,
            window_title,
        },
    )
}

/// Whether the totals over the files of these items fit the counters.
pub fn totals_fit_for(items: &Vec<(String, ItemMeta)>) -> (b: bool)
    ensures
        b == totals_fit(metas_of(items@)),
{
    let ghost metas = metas_of(items@);
    let mut count: u64 = 0;
    let mut size: u64 = 0;
    let mut disk: u64 = 0;
    let mut i: usize = 0;
    while i < items.len()
        invariant
            metas == metas_of(items@),
            i <= items@.len(),
            (count as int, size as int, disk as int) == file_totals(metas.take(i as int)),
        decreases items@.len() - i,
    {
        let m = items[i].1;
        proof {
            assert(metas[i as int] == m);
            assert(metas.take(i + 1).drop_last() =~= metas.take(i as int));
            lemma_totals_grow(metas, i + 1);
            lemma_totals_grow(metas, i as int);
        }
        let c = count.checked_add(1);
        let s = size.checked_add(m.len);
        let d = match m.blocks.checked_mul(512) {
            Some(b) => disk.checked_add(b),
            None => None,
        };
        match (c, s, d) {
            (Some(c), Some(s), Some(d)) => {
                count = c;
                size = s;
                disk = d;
            },
            _ => {
                proof {
                    lemma_totals_grow(metas, i + 1);
                }
                return false;
            },
        }
        i = i + 1;
    }
    proof {
        assert(metas.take(items@.len() as int) =~= metas);
    }
    true
}

} // verus!
