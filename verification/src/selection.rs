//! Which rows of the file list are selected and which one has the focus,
//! and how clicks, keys and box dragging change that.
//!
//! The rows are given as the paths they show, in display order.
use vstd::prelude::*;

use crate::maps::{
    new_path_set, path_set_contains, path_set_contents, path_set_copy, path_set_insert, path_set_items,
    path_set_len, path_set_remove, PathSet,
};
use crate::text::str_eq;

verus! {

pub open spec fn rows_view(rows: Seq<String>) -> Seq<Seq<char>> {
    rows.map_values(|r: String| r@)
}

/// The first row that shows `path`.
pub open spec fn first_row_of(rows: Seq<Seq<char>>, path: Seq<char>, from: int) -> Option<int>
    decreases rows.len() - from,
{
    if from < 0 || from >= rows.len() {
        None
    } else if rows[from] == path {
        Some(from)
    } else {
        first_row_of(rows, path, from + 1)
    }
}

proof fn lemma_first_row_bounds(rows: Seq<Seq<char>>, path: Seq<char>, from: int)
    ensures
        first_row_of(rows, path, from) matches Some(i) ==> from <= i < rows.len() && rows[i] == path,
    decreases rows.len() - from,
{
    if 0 <= from < rows.len() && rows[from] != path {
        lemma_first_row_bounds(rows, path, from + 1);
    }
}

proof fn lemma_first_row_found(rows: Seq<Seq<char>>, path: Seq<char>, from: int)
    requires
        0 <= from,
    ensures
        first_row_of(rows, path, from) is Some <==> exists|i: int|
            from <= i < rows.len() && rows[i] == path,
    decreases rows.len() - from,
{
    if from < rows.len() && rows[from] != path {
        lemma_first_row_found(rows, path, from + 1);
        if exists|i: int| from <= i < rows.len() && rows[i] == path {
            let i = choose|i: int| from <= i < rows.len() && rows[i] == path;
            assert(i != from);
            assert(from + 1 <= i);
        }
    }
}

/// Whether some row shows `path`.
pub fn shows_path(rows: &Vec<String>, path: &str) -> (b: bool)
    ensures
        b == rows_view(rows@).contains(path@),
{
    let r = row_index_of(rows, path);
    proof {
        lemma_first_row_found(rows_view(rows@), path@, 0);
        lemma_first_row_bounds(rows_view(rows@), path@, 0);
    }
    r.is_some()
}

/// The index of the first row that shows `path`.
pub fn row_index_of(rows: &Vec<String>, path: &str) -> (r: Option<usize>)
    ensures
        match r {
            Some(i) => first_row_of(rows_view(rows@), path@, 0) == Some(i as int),
            None => first_row_of(rows_view(rows@), path@, 0) is None,
        },
{
    let ghost rv = rows_view(rows@);
    let mut i: usize = 0;
    while i < rows.len()
        invariant
            rv == rows_view(rows@),
            i <= rows@.len(),
            first_row_of(rv, path@, 0) == first_row_of(rv, path@, i as int),
        decreases rows@.len() - i,
    {
        if str_eq(rows[i].as_str(), path) {
            return Some(i);
        }
        i = i + 1;
    }
    None
}

/// The paths of rows `lo` to `hi`, both included.
pub open spec fn rows_between(rows: Seq<Seq<char>>, lo: int, hi: int) -> Set<Seq<char>> {
    Set::new(|p: Seq<char>| exists|i: int| lo <= i <= hi && 0 <= i < rows.len() && rows[i] == p)
}

/// The selected paths and the focused one.
pub struct Selection {
    pub selected: PathSet,
    pub focused: Option<String>,
}

pub open spec fn opt_view(o: Option<String>) -> Option<Seq<char>> {
    match o {
        Some(s) => Some(s@),
        None => None,
    }
}

impl Selection {
    pub open spec fn items(&self) -> Set<Seq<char>> {
        path_set_contents(self.selected)
    }

    /// Nothing selected, nothing focused.
    pub fn new() -> (s: Selection)
        ensures
            s.items() == Set::<Seq<char>>::empty(),
            s.focused is None,
    {
        Selection { selected: new_path_set(), focused: None }
    }

    fn select_only(&mut self, path: String)
        ensures
            final(self).items() == Set::<Seq<char>>::empty().insert(path@),
            final(self).focused == old(self).focused,
    {
        let mut s = new_path_set();
        let _ = path_set_insert(&mut s, path);
        self.selected = s;
    }

    fn select_rows(&mut self, rows: &Vec<String>, lo: usize, hi: usize)
        requires
            lo <= hi < rows@.len(),
        ensures
            final(self).items() == rows_between(rows_view(rows@), lo as int, hi as int),
            final(self).focused == old(self).focused,
    {
        let ghost rv = rows_view(rows@);
        let n = rows.len();
        let mut s = new_path_set();
        let mut i: usize = lo;
        while i <= hi
            invariant
                n == rows@.len(),
                rv == rows_view(rows@),
                lo <= i <= hi + 1,
                hi < rows@.len(),
                path_set_contents(s) == rows_between(rv, lo as int, i - 1),
            decreases hi + 1 - i,
        {
            let ghost before = path_set_contents(s);
            let _ = path_set_insert(&mut s, rows[i].clone());
            proof {
                assert(rv[i as int] == rows@[i as int]@);
                assert(path_set_contents(s) =~= rows_between(rv, lo as int, i as int));
            }
            i = i + 1;
        }
        self.selected = s;
    }

    /// After the rows were read again: the selected paths that are still
    /// shown stay selected, the others are dropped, and the focus goes
    /// when its row is gone.
    pub fn retain_rows(&mut self, rows: &Vec<String>)
        ensures
            final(self).items() == old(self).items().filter(|p: Seq<char>| rows_view(rows@).contains(p)),
            final(self).focused == (match old(self).focused {
                Some(f) => if rows_view(rows@).contains(f@) {
                    Some(f)
                } else {
                    None
                },
                None => None,
            }),
    {
        let ghost old_items = self.items();
        let ghost rv = rows_view(rows@);
        let items = path_set_items(&self.selected);
        let mut kept = new_path_set();
        let mut i: usize = 0;
        while i < items.len()
            invariant
                i <= items@.len(),
                rv == rows_view(rows@),
                forall|k: int| 0 <= k < items@.len() ==> old_items.contains(#[trigger] items@[k]@),
                forall|p: Seq<char>|
                    #[trigger] old_items.contains(p) ==> exists|k: int|
                        0 <= k < items@.len() && #[trigger] items@[k]@ == p,
                forall|p: Seq<char>|
                    #[trigger] path_set_contents(kept).contains(p) <==> (rv.contains(p) && exists|k: int|
                        0 <= k < i && #[trigger] items@[k]@ == p),
            decreases items@.len() - i,
        {
            if shows_path(rows, items[i].as_str()) {
                let _ = path_set_insert(&mut kept, items[i].clone());
            }
            proof {
                assert forall|p: Seq<char>|
                    #[trigger] path_set_contents(kept).contains(p) <==> (rv.contains(p) && exists|k: int|
                        0 <= k < i + 1 && #[trigger] items@[k]@ == p) by {
                    if rv.contains(p) && exists|k: int| 0 <= k < i + 1 && #[trigger] items@[k]@ == p {
                        let k = choose|k: int| 0 <= k < i + 1 && #[trigger] items@[k]@ == p;
                        if k < i {
                            assert(exists|k2: int| 0 <= k2 < i && #[trigger] items@[k2]@ == p);
                        }
                    }
                }
            }
            i = i + 1;
        }
        proof {
            assert(path_set_contents(kept) =~= old_items.filter(|p: Seq<char>| rv.contains(p)));
        }
        self.selected = kept;
        let keep_focus = match &self.focused {
            Some(f) => shows_path(rows, f.as_str()),
            None => false,
        };
        if !keep_focus {
            self.focused = None;
        }
    }

    /// A press on the row showing `path`: with Control it joins or leaves
    /// the selection and takes the focus; with Shift the rows from the
    /// focused one (or this one) to this one are selected; a double click
    /// asks for the entry to be opened (the result is `true`) and changes
    /// nothing; a plain press selects just this row and focuses it, unless
    /// it is part of a larger selection (which a release then narrows).
    pub fn mouse_down_select(
        &mut self,
        rows: &Vec<String>,
        path: String,
        control: bool,
        shift: bool,
        click_count: usize,
    ) -> (open: bool)
        ensures
            open == (!control && !shift && click_count >= 2),
            control ==> final(self).items() == (if old(self).items().contains(path@) {
                old(self).items().remove(path@)
            } else {
                old(self).items().insert(path@)
            }) && opt_view(final(self).focused) == Some(path@),
            !control && shift ==> ({
                let rv = rows_view(rows@);
                let anchor = match old(self).focused {
                    Some(f) => f@,
                    None => path@,
                };
                match (first_row_of(rv, anchor, 0), first_row_of(rv, path@, 0)) {
                    (Some(a), Some(b)) => final(self).items() == rows_between(
                        rv,
                        if a <= b {
                            a
                        } else {
                            b
                        },
                        if a <= b {
                            b
                        } else {
                            a
                        },
                    ),
                    _ => final(self).items() == Set::<Seq<char>>::empty().insert(path@),
                }
            }) && final(self).focused == old(self).focused,
            !control && !shift && click_count >= 2 ==> final(self).items() == old(self).items()
                && final(self).focused == old(self).focused,
            !control && !shift && click_count < 2 ==> if old(self).items().len() > 1 && old(self).items().contains(path@) {
                final(self).items() == old(self).items() && final(self).focused == old(self).focused
            } else {
                final(self).items() == Set::<Seq<char>>::empty().insert(path@) && opt_view(
                    final(self).focused,
                ) == Some(path@)
            },
    {
        if control {
            if !path_set_remove(&mut self.selected, path.as_str()) {
                let _ = path_set_insert(&mut self.selected, path.clone());
            }
            self.focused = Some(path);
            false
        } else if shift {
            let anchor = match &self.focused {
                Some(f) => f.clone(),
                None => path.clone(),
            };
            match (row_index_of(rows, anchor.as_str()), row_index_of(rows, path.as_str())) {
                (Some(from), Some(to)) => {
                    proof {
                        lemma_first_row_bounds(rows_view(rows@), anchor@, 0);
                        lemma_first_row_bounds(rows_view(rows@), path@, 0);
                    }
                    let (lo, hi) = if from <= to {
                        (from, to)
                    } else {
                        (to, from)
                    };
                    self.select_rows(rows, lo, hi);
                },
                _ => {
                    self.select_only(path);
                },
            }
            false
        } else if click_count >= 2 {
            true
        } else {
            let n = path_set_len(&self.selected);
            if !(n > 1 && path_set_contains(&self.selected, path.as_str())) {
                self.select_only(path.clone());
                self.focused = Some(path);
            }
            false
        }
    }

    /// A release on the row showing `path`: a plain single click on a row
    /// of a larger selection narrows the selection to that row and focuses
    /// it; anything else changes nothing.
    pub fn mouse_up_select(
        &mut self,
        path: String,
        control: bool,
        shift: bool,
        click_count: usize,
        box_selecting: bool,
    )
        ensures
            ({
                let narrows = !control && !shift && click_count < 2 && !box_selecting && old(self).items().len() > 1 && old(self).items().contains(path@);
                if narrows {
                    final(self).items() == Set::<Seq<char>>::empty().insert(path@) && opt_view(
                        final(self).focused,
                    ) == Some(path@)
                } else {
                    final(self).items() == old(self).items() && final(self).focused == old(self).focused
                }
            }),
    {
        if control || shift || click_count >= 2 || box_selecting {
            return;
        }
        let n = path_set_len(&self.selected);
        if n > 1 && path_set_contains(&self.selected, path.as_str()) {
            self.select_only(path.clone());
            self.focused = Some(path);
        }
    }

    /// Selects every row.
    pub fn select_all(&mut self, rows: &Vec<String>)
        ensures
            final(self).items() == rows_view(rows@).to_set(),
            final(self).focused == old(self).focused,
    {
        let ghost rv = rows_view(rows@);
        let mut s = new_path_set();
        let mut i: usize = 0;
        while i < rows.len()
            invariant
                rv == rows_view(rows@),
                i <= rows@.len(),
                path_set_contents(s) == rv.take(i as int).to_set(),
            decreases rows@.len() - i,
        {
            let _ = path_set_insert(&mut s, rows[i].clone());
            proof {
                assert(rv[i as int] == rows@[i as int]@);
                let t = rv.take(i + 1);
                let u = rv.take(i as int);
                assert(t =~= u.push(rv[i as int]));
                assert forall|a: Seq<char>| t.contains(a) <==> (u.contains(a) || a == rv[i as int]) by {
                    if a == rv[i as int] {
                        assert(t[i as int] == a);
                    }
                    if u.contains(a) {
                        let j = choose|j: int| 0 <= j < u.len() && u[j] == a;
                        assert(t[j] == a);
                    }
                    if t.contains(a) {
                        let j = choose|j: int| 0 <= j < t.len() && t[j] == a;
                        if j < i {
                            assert(u[j] == a);
                        }
                    }
                }
                assert(path_set_contents(s) =~= t.to_set());
            }
            i = i + 1;
        }
        proof {
            assert(rv.take(rows@.len() as int) =~= rv);
        }
        self.selected = s;
    }

    /// Moves the focus by `delta` rows (staying within the list), selecting
    /// just the row it lands on; without a focused row, the first row.
    /// Nothing happens without rows.
    pub fn move_selection(&mut self, rows: &Vec<String>, delta: isize)
        ensures
            rows@.len() == 0 ==> final(self).items() == old(self).items() && final(self).focused
                == old(self).focused,
            rows@.len() > 0 ==> ({
                let rv = rows_view(rows@);
                let current = match old(self).focused {
                    Some(f) => first_row_of(rv, f@, 0),
                    None => None,
                };
                let next = match current {
                    Some(ix) => if ix + delta < 0 {
                        0
                    } else if ix + delta > rows@.len() - 1 {
                        rows@.len() - 1
                    } else {
                        ix + delta
                    },
                    None => 0,
                };
                &&& final(self).items() == Set::<Seq<char>>::empty().insert(rv[next])
                &&& opt_view(final(self).focused) == Some(rv[next])
            }),
    {
        let len = rows.len();
        if len == 0 {
            return;
        }
        let current = match &self.focused {
            Some(f) => row_index_of(rows, f.as_str()),
            None => None,
        };
        let next: usize = match current {
            Some(ix) => {
                let target: i128 = ix as i128 + delta as i128;
                if target < 0 {
                    0
                } else if target > (len - 1) as i128 {
                    len - 1
                } else {
                    target as usize
                }
            },
            None => 0,
        };
        let path = rows[next].clone();
        self.select_only(path.clone());
        self.focused = Some(path);
    }

    /// A click on empty space below the rows clears the selection and the
    /// focus; says whether anything changed. A click on a row does nothing.
    pub fn click_empty_space(&mut self, on_row: bool) -> (changed: bool)
        ensures
            changed == (!on_row && (old(self).items().len() > 0 || old(self).focused is Some)),
            changed ==> final(self).items() == Set::<Seq<char>>::empty() && final(self).focused is None,
            !changed ==> final(self).items() == old(self).items() && final(self).focused == old(self).focused,
    {
        if on_row {
            return false;
        }
        let n = path_set_len(&self.selected);
        if n == 0 && self.focused.is_none() {
            return false;
        }
        self.selected = new_path_set();
        self.focused = None;
        true
    }

    /// Starts dragging a selection box: with Control the current selection
    /// is kept and extended, otherwise it is cleared first. The result is
    /// the selection the box adds to.
    pub fn begin_box_select(&mut self, control: bool) -> (initial: PathSet)
        ensures
            control ==> path_set_contents(initial) == old(self).items() && final(self).items()
                == old(self).items(),
            !control ==> path_set_contents(initial) == Set::<Seq<char>>::empty() && final(self).items() == Set::<Seq<char>>::empty(),
            final(self).focused == old(self).focused,
    {
        if control {
            path_set_copy(&self.selected)
        } else {
            self.selected = new_path_set();
            new_path_set()
        }
    }

    /// The box now covers rows `start` up to (not including) `end`: the
    /// selection is the initial one with those rows added, and the last of
    /// them takes the focus.
    pub fn update_box_select(&mut self, rows: &Vec<String>, initial: &PathSet, start: usize, end: usize)
        ensures
            ({
                let rv = rows_view(rows@);
                let hi = if end < rows@.len() {
                    end as int
                } else {
                    rows@.len() as int
                };
                &&& final(self).items() == path_set_contents(*initial).union(
                    rows_between(rv, start as int, hi - 1),
                )
                &&& if start < hi {
                    opt_view(final(self).focused) == Some(rv[hi - 1])
                } else {
                    final(self).focused == old(self).focused
                }
            }),
    {
        let ghost rv = rows_view(rows@);
        let hi = if end < rows.len() {
            end
        } else {
            rows.len()
        };
        let mut s = path_set_copy(initial);
        let mut last: Option<String> = None;
        let mut i: usize = start;
        proof {
            assert(path_set_contents(s) =~= path_set_contents(*initial).union(
                rows_between(rv, start as int, start - 1),
            ));
        }
        while i < hi
            invariant
                rv == rows_view(rows@),
                hi <= rows@.len(),
                start <= i <= (if start <= hi {
                    hi
                } else {
                    start
                }),
                path_set_contents(s) == path_set_contents(*initial).union(
                    rows_between(rv, start as int, i - 1),
                ),
                i > start ==> opt_view(last) == Some(rv[i - 1]),
                i == start ==> last is None,
            decreases hi - i,
        {
            let _ = path_set_insert(&mut s, rows[i].clone());
            proof {
                assert(rv[i as int] == rows@[i as int]@);
                assert(path_set_contents(s) =~= path_set_contents(*initial).union(
                    rows_between(rv, start as int, i as int),
                ));
            }
            last = Some(rows[i].clone());
            i = i + 1;
        }
        proof {
            if start >= hi {
                assert(rows_between(rv, start as int, i - 1) =~= rows_between(rv, start as int, hi - 1));
            }
        }
        self.selected = s;
        if let Some(p) = last {
            self.focused = Some(p);
        }
    }
}

} // verus!
