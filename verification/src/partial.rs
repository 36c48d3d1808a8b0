//! Undo and redo that run item by item: when some items fail, only what
//! succeeded is kept, and that becomes the operation left to redo (after an
//! undo) or to undo again (after a redo). Each item's outcome is given as a
//! flag, in the order the items ran.
use vstd::prelude::*;

use crate::clipboard::{describe_bulk_errors, spec_bulk_errors};
use crate::undo::{items_view, pairs_view, strings_view, OpError, TrashItem, UndoOp, UndoOpView};

verus! {

/// The elements of `s` whose flag in `done` is set (an element without a
/// flag counts as not done), in order.
pub open spec fn flagged<A>(s: Seq<A>, done: Seq<bool>) -> Seq<A>
    decreases s.len(),
{
    if s.len() == 0 {
        Seq::empty()
    } else {
        let prev = flagged(s.drop_last(), done);
        if s.len() - 1 < done.len() && done[s.len() - 1] {
            prev.push(s.last())
        } else {
            prev
        }
    }
}

/// Two sequences of the same length keep the same number of elements.
pub proof fn lemma_flagged_len<A, B>(a: Seq<A>, b: Seq<B>, done: Seq<bool>)
    requires
        a.len() == b.len(),
    ensures
        flagged(a, done).len() == flagged(b, done).len(),
    decreases a.len(),
{
    if a.len() > 0 {
        lemma_flagged_len(a.drop_last(), b.drop_last(), done);
    }
}

pub open spec fn min_len(a: int, b: int) -> int {
    if a <= b {
        a
    } else {
        b
    }
}

/// The first `m` strings of `s` whose flag is set.
fn flagged_strings(s: &Vec<String>, m: usize, done: &Vec<bool>) -> (r: Vec<String>)
    requires
        m <= s@.len(),
    ensures
        strings_view(r@) == flagged(strings_view(s@).take(m as int), done@),
{
    let ghost sv = strings_view(s@);
    let mut r: Vec<String> = Vec::new();
    let mut i: usize = 0;
    assert(sv.take(0) =~= Seq::<Seq<char>>::empty());
    while i < m
        invariant
            sv == strings_view(s@),
            i <= m <= s@.len(),
            strings_view(r@) == flagged(sv.take(i as int), done@),
        decreases m - i,
    {
        let ghost before = r@;
        assert(sv.take(i + 1).drop_last() =~= sv.take(i as int));
        assert(sv.take(i + 1).last() == s@[i as int]@);
        if i < done.len() && done[i] {
            r.push(s[i].clone());
            assert(strings_view(r@) =~= strings_view(before).push(s@[i as int]@));
        }
        i = i + 1;
    }
    r
}

/// The first `m` pairs of `s` whose flag is set.
fn flagged_pairs(s: &Vec<(String, String)>, m: usize, done: &Vec<bool>) -> (r: Vec<(String, String)>)
    requires
        m <= s@.len(),
    ensures
        pairs_view(r@) == flagged(pairs_view(s@).take(m as int), done@),
{
    let ghost sv = pairs_view(s@);
    let mut r: Vec<(String, String)> = Vec::new();
    let mut i: usize = 0;
    assert(sv.take(0) =~= Seq::<(Seq<char>, Seq<char>)>::empty());
    while i < m
        invariant
            sv == pairs_view(s@),
            i <= m <= s@.len(),
            pairs_view(r@) == flagged(sv.take(i as int), done@),
        decreases m - i,
    {
        let ghost before = r@;
        assert(sv.take(i + 1).drop_last() =~= sv.take(i as int));
        assert(sv.take(i + 1).last() == (s@[i as int].0@, s@[i as int].1@));
        if i < done.len() && done[i] {
            let p = (s[i].0.clone(), s[i].1.clone());
            r.push(p);
            assert(pairs_view(r@) =~= pairs_view(before).push((s@[i as int].0@, s@[i as int].1@)));
        }
        i = i + 1;
    }
    r
}

/// After undoing or redoing a move item by item: the moves that went
/// through, as the operation left to redo or undo; nothing when none did.
pub fn moved_followup(pairs: &Vec<(String, String)>, done: &Vec<bool>) -> (r: Option<UndoOp>)
    ensures
        ({
            let kept = flagged(pairs_view(pairs@), done@);
            &&& kept.len() == 0 <==> r is None
            &&& r matches Some(op) ==> op@ == UndoOpView::Move(kept)
        }),
{
    let kept = flagged_pairs(pairs, pairs.len(), done);
    assert(pairs_view(pairs@).take(pairs@.len() as int) =~= pairs_view(pairs@));
    if kept.len() == 0 {
        None
    } else {
        Some(UndoOp::Move { pairs: kept })
    }
}

/// After undoing a copy item by item (removing each copy made, paired with
/// its source): the copies that were removed, with their sources, as the
/// copy left to redo; nothing when none was.
pub fn copy_undone_followup(
    sources: &Vec<String>,
    dest_dir: String,
    created: &Vec<String>,
    done: &Vec<bool>,
) -> (r: Option<UndoOp>)
    ensures
        ({
            let m = min_len(sources@.len() as int, created@.len() as int);
            let ks = flagged(strings_view(sources@).take(m), done@);
            let kc = flagged(strings_view(created@).take(m), done@);
            &&& ks.len() == 0 <==> r is None
            &&& r matches Some(op) ==> op@ == UndoOpView::Copy(ks, dest_dir@, kc)
        }),
{
    let m = if sources.len() <= created.len() {
        sources.len()
    } else {
        created.len()
    };
    let ks = flagged_strings(sources, m, done);
    let kc = flagged_strings(created, m, done);
    proof {
        lemma_flagged_len(
            strings_view(sources@).take(m as int),
            strings_view(created@).take(m as int),
            done@,
        );
    }
    if ks.len() == 0 {
        None
    } else {
        Some(UndoOp::Copy { sources: ks, dest_dir, created: kc })
    }
}

/// The flags of per-item outcomes: set where the item produced a value.
pub open spec fn flags_of(o: Seq<Option<String>>) -> Seq<bool> {
    o.map_values(|x: Option<String>| x is Some)
}

/// The values the items produced, in order.
pub open spec fn produced(o: Seq<Option<String>>) -> Seq<Seq<char>>
    decreases o.len(),
{
    if o.len() == 0 {
        Seq::empty()
    } else {
        match o.last() {
            Some(v) => produced(o.drop_last()).push(v@),
            None => produced(o.drop_last()),
        }
    }
}

/// After redoing a copy item by item (each source copied into the folder,
/// giving the copy made or nothing): the sources that were copied and their
/// copies, as the copy left to undo; nothing when none was.
pub fn copy_redone_followup(sources: &Vec<String>, dest_dir: String, outcomes: &Vec<Option<String>>) -> (r:
    Option<UndoOp>)
    ensures
        ({
            let m = min_len(sources@.len() as int, outcomes@.len() as int);
            let ks = flagged(strings_view(sources@).take(m), flags_of(outcomes@));
            let kc = produced(outcomes@.take(m));
            &&& ks.len() == 0 <==> r is None
            &&& r matches Some(op) ==> op@ == UndoOpView::Copy(ks, dest_dir@, kc)
        }),
{
    let m = if sources.len() <= outcomes.len() {
        sources.len()
    } else {
        outcomes.len()
    };
    let ghost sv = strings_view(sources@);
    let ghost fl = flags_of(outcomes@);
    let mut ks: Vec<String> = Vec::new();
    let mut kc: Vec<String> = Vec::new();
    let mut i: usize = 0;
    assert(sv.take(0) =~= Seq::<Seq<char>>::empty());
    assert(outcomes@.take(0) =~= Seq::<Option<String>>::empty());
    while i < m
        invariant
            sv == strings_view(sources@),
            fl == flags_of(outcomes@),
            i <= m,
            m <= sources@.len(),
            m <= outcomes@.len(),
            strings_view(ks@) == flagged(sv.take(i as int), fl),
            strings_view(kc@) == produced(outcomes@.take(i as int)),
        decreases m - i,
    {
        let ghost bs = ks@;
        let ghost bc = kc@;
        assert(sv.take(i + 1).drop_last() =~= sv.take(i as int));
        assert(sv.take(i + 1).last() == sources@[i as int]@);
        assert(outcomes@.take(i + 1).drop_last() =~= outcomes@.take(i as int));
        assert(outcomes@.take(i + 1).last() == outcomes@[i as int]);
        assert(fl[i as int] == outcomes@[i as int] is Some);
        match &outcomes[i] {
            Some(dest) => {
                ks.push(sources[i].clone());
                kc.push(dest.clone());
                assert(strings_view(ks@) =~= strings_view(bs).push(sources@[i as int]@));
                assert(strings_view(kc@) =~= strings_view(bc).push(dest@));
            },
            None => {},
        }
        i = i + 1;
    }
    if ks.len() == 0 {
        None
    } else {
        Some(UndoOp::Copy { sources: ks, dest_dir, created: kc })
    }
}

/// After restoring deleted items one by one (each path with its trash
/// item): the paths restored, as the deletion left to redo (its items are
/// gone from the trash); nothing when none was.
pub fn trash_restored_followup(paths: &Vec<String>, items: &Vec<TrashItem>, done: &Vec<bool>) -> (r:
    Option<UndoOp>)
    ensures
        ({
            let m = min_len(paths@.len() as int, items@.len() as int);
            let kept = flagged(strings_view(paths@).take(m), done@);
            &&& kept.len() == 0 <==> r is None
            &&& r matches Some(op) ==> op@ == UndoOpView::Trash(kept, Seq::empty())
        }),
{
    let m = if paths.len() <= items.len() {
        paths.len()
    } else {
        items.len()
    };
    let kept = flagged_strings(paths, m, done);
    if kept.len() == 0 {
        None
    } else {
        let none: Vec<TrashItem> = Vec::new();
        assert(items_view(none@) =~= Seq::<crate::undo::TrashItemView>::empty());
        Some(UndoOp::Trash { original_paths: kept, items: none })
    }
}

/// After redoing a restore one by one (each path with its trash item): the
/// paths restored, as the restore left to undo (its items are gone from the
/// trash); nothing when none was.
pub fn restore_redone_followup(paths: &Vec<String>, items: &Vec<TrashItem>, done: &Vec<bool>) -> (r:
    Option<UndoOp>)
    ensures
        ({
            let m = min_len(paths@.len() as int, items@.len() as int);
            let kept = flagged(strings_view(paths@).take(m), done@);
            &&& kept.len() == 0 <==> r is None
            &&& r matches Some(op) ==> op@ == UndoOpView::Restore(kept, Seq::empty())
        }),
{
    let m = if paths.len() <= items.len() {
        paths.len()
    } else {
        items.len()
    };
    let kept = flagged_strings(paths, m, done);
    if kept.len() == 0 {
        None
    } else {
        let none: Vec<TrashItem> = Vec::new();
        assert(items_view(none@) =~= Seq::<crate::undo::TrashItemView>::empty());
        Some(UndoOp::Restore { original_paths: kept, items: none })
    }
}

/// The paths trashed one by one that went to the trash.
pub fn trashed_paths(paths: &Vec<String>, done: &Vec<bool>) -> (r: Vec<String>)
    ensures
        strings_view(r@) == flagged(strings_view(paths@), done@),
{
    let r = flagged_strings(paths, paths.len(), done);
    assert(strings_view(paths@).take(paths@.len() as int) =~= strings_view(paths@));
    r
}

/// After trashing paths again one by one (redoing a deletion, or undoing a
/// restore) and looking for the trash items this produced: the operation
/// left to undo or redo, with the paths trashed and the items found, when
/// any item was found; and the message shown, which is the lookup's error
/// when it failed and otherwise the report of the failed items.
pub fn retrashed_followup(
    as_restore: bool,
    trashed: Vec<String>,
    capture: Result<Vec<TrashItem>, OpError>,
    errors: &Vec<(String, String)>,
) -> (r: (Option<UndoOp>, Option<String>))
    ensures
        match capture {
            Err(e) => r.0 is None && (r.1 matches Some(m) && m@ == crate::undo::spec_error_message(e)),
            Ok(items) => {
                &&& (items@.len() == 0 <==> r.0 is None)
                &&& (r.0 matches Some(op) ==> op@ == if as_restore {
                    UndoOpView::Restore(strings_view(trashed@), items_view(items@))
                } else {
                    UndoOpView::Trash(strings_view(trashed@), items_view(items@))
                })
                &&& (errors@.len() == 0 ==> r.1 is None)
                &&& (errors@.len() > 0 ==> (r.1 matches Some(m) && m@ == spec_bulk_errors(
                    pairs_view(errors@),
                )))
            },
        },
{
    match capture {
        Err(e) => (None, Some(e.to_message())),
        Ok(items) => {
            let message = describe_bulk_errors(errors);
            let op = if items.len() == 0 {
                None
            } else if as_restore {
                Some(UndoOp::Restore { original_paths: trashed, items })
            } else {
                Some(UndoOp::Trash { original_paths: trashed, items })
            };
            (op, message)
        },
    }
}

} // verus!
