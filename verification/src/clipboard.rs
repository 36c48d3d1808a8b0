//! Pasting copied or cut paths, and moving paths into a folder: what is
//! pasted, where each item goes, what the progress dialog is called, what
//! can be undone afterwards and what is reported.
use vstd::prelude::*;

use crate::paths::{file_name, join, path_file_name, path_join};
use crate::shared::{ClipboardOp, FileClipboard};
use crate::text::{all_digits, append_str, chars_of, chars_eq, digits_value, string_from_chars};
use crate::undo::{pairs_view, strings_view, OpError, UndoOp, UndoOpView};

verus! {

/// The label of an item in progress and error reports: its file name, or
/// the whole path when it has none.
pub open spec fn spec_item_label(path: Seq<char>) -> Seq<char> {
    match path_file_name(path) {
        Some(n) => n,
        None => path,
    }
}

/// The label of an item in progress and error reports.
pub fn item_label(path: &str) -> (r: String)
    ensures
        r@ == spec_item_label(path@),
{
    let p = chars_of(path);
    match file_name(&p) {
        Some(n) => string_from_chars(&n),
        None => string_from_chars(&p),
    }
}

/// Where an item copied or moved into `dest_dir` ends up: the folder joined
/// with the item's file name. An item without a file name cannot be placed
/// and is reported as a conflict on itself.
pub fn destination_for(source: &str, dest_dir: &str) -> (r: Result<String, OpError>)
    ensures
        match path_file_name(source@) {
            Some(n) => r matches Ok(p) && p@ == path_join(dest_dir@, n),
            None => r matches Err(OpError::NameConflict(p)) && p@ == source@,
        },
{
    match file_name(&chars_of(source)) {
        Some(n) => Ok(string_from_chars(&join(&chars_of(dest_dir), &n))),
        None => Err(OpError::NameConflict(source.to_owned())),
    }
}

/// What a paste uses: nothing in the trash view, where the kept paths stay
/// kept; elsewhere the paths on the system clipboard if it holds any, else
/// those the explorer kept, and the kept ones are used up.
pub fn take_paste_source(
    in_trash: bool,
    system: Option<FileClipboard>,
    kept: &mut Option<FileClipboard>,
) -> (r: Option<FileClipboard>)
    ensures
        in_trash ==> r is None && *final(kept) == *old(kept),
        !in_trash ==> *final(kept) is None,
        !in_trash && system is Some ==> r == system,
        !in_trash && system is None ==> r == *old(kept),
{
    if in_trash {
        return None;
    }
    let own = kept.take();
    match system {
        Some(c) => Some(c),
        None => own,
    }
}

pub open spec fn spec_bulk_title(op: ClipboardOp) -> Seq<char> {
    match op {
        ClipboardOp::Copy => "Copying"@,
        ClipboardOp::Cut => "Moving"@,
    }
}

/// The title of the progress dialog of a paste.
pub fn bulk_title(op: ClipboardOp) -> (t: &'static str)
    ensures
        t@ == spec_bulk_title(op),
{
    match op {
        ClipboardOp::Copy => "Copying",
        ClipboardOp::Cut => "Moving",
    }
}

/// What a finished copy can be undone by: the copies it created, unless it
/// created none.
pub fn copy_undo_op(sources: Vec<String>, dest_dir: String, created: Vec<String>) -> (r: Option<
    UndoOp,
>)
    ensures
        created@.len() == 0 ==> r is None,
        created@.len() > 0 ==> (r matches Some(op) && op@ == UndoOpView::Copy(
            strings_view(sources@),
            dest_dir@,
            strings_view(created@),
        )),
{
    if created.len() == 0 {
        None
    } else {
        let op = UndoOp::Copy { sources, dest_dir, created };
        Some(op)
    }
}

/// What a finished move can be undone by: the moves it made, unless it
/// made none.
pub fn move_undo_op(moved: Vec<(String, String)>) -> (r: Option<UndoOp>)
    ensures
        moved@.len() == 0 ==> r is None,
        moved@.len() > 0 ==> (r matches Some(op) && op@ == UndoOpView::Move(pairs_view(moved@))),
{
    if moved.len() == 0 {
        None
    } else {
        Some(UndoOp::Move { pairs: moved })
    }
}

/// The report of the items a bulk operation could not do: `label:
/// message` for each, separated by `; `.
pub open spec fn spec_bulk_errors(errors: Seq<(Seq<char>, Seq<char>)>) -> Seq<char>
    decreases errors.len(),
{
    if errors.len() == 0 {
        Seq::empty()
    } else if errors.len() == 1 {
        errors[0].0 + ": "@ + errors[0].1
    } else {
        spec_bulk_errors(errors.drop_last()) + "; "@ + errors.last().0 + ": "@ + errors.last().1
    }
}

/// The report of the items a bulk operation could not do; nothing when all
/// went well.
pub fn describe_bulk_errors(errors: &Vec<(String, String)>) -> (r: Option<String>)
    ensures
        errors@.len() == 0 ==> r is None,
        errors@.len() > 0 ==> (r matches Some(s) && s@ == spec_bulk_errors(pairs_view(errors@))),
{
    if errors.len() == 0 {
        return None;
    }
    let ghost ev = pairs_view(errors@);
    let mut out: Vec<char> = Vec::new();
    let mut i: usize = 0;
    while i < errors.len()
        invariant
            ev == pairs_view(errors@),
            i <= errors@.len(),
            out@ == spec_bulk_errors(ev.take(i as int)),
        decreases errors@.len() - i,
    {
        if i > 0 {
            append_str(&mut out, "; ");
        }
        append_str(&mut out, errors[i].0.as_str());
        append_str(&mut out, ": ");
        append_str(&mut out, errors[i].1.as_str());
        proof {
            let t = ev.take(i + 1);
            assert(t.drop_last() =~= ev.take(i as int));
            assert(t.last() == ev[i as int]);
            assert(ev[i as int] == (errors@[i as int].0@, errors@[i as int].1@));
            if i == 0 {
                assert(ev.take(0) =~= Seq::<(Seq<char>, Seq<char>)>::empty());
            }
            assert(out@ =~= spec_bulk_errors(t));
        }
        i = i + 1;
    }
    assert(ev.take(errors@.len() as int) =~= ev);
    Some(string_from_chars(&out))
}

/// The question asked before moving paths into a folder: nothing to ask
/// (and nothing to do) when there are no paths or one of them is the folder
/// itself; a single item is named, several are counted.
pub open spec fn spec_move_question(paths: Seq<Seq<char>>, dest_dir: Seq<char>, count_text: Seq<char>) -> Option<Seq<char>> {
    if paths.len() == 0 || paths.contains(dest_dir) {
        None
    } else {
        let dest_name = spec_item_label(dest_dir);
        if paths.len() == 1 {
            let name = match path_file_name(paths[0]) {
                Some(n) => n,
                None => Seq::empty(),
            };
            Some(
                "Are you sure you want to move \""@ + name + "\" to \""@ + dest_name + "\"?"@,
            )
        } else {
            Some(
                "Are you sure you want to move these "@ + count_text + " items to \""@ + dest_name
                    + "\"?"@,
            )
        }
    }
}

/// The digits of `n` in base ten.
pub open spec fn decimal(n: nat) -> Seq<char>
    decreases n,
{
    if n < 10 {
        seq![decimal_digit(n)]
    } else {
        decimal(n / 10).push(decimal_digit(n % 10))
    }
}

pub open spec fn decimal_digit(d: nat) -> char {
    if d == 0 {
        '0'
    } else if d == 1 {
        '1'
    } else if d == 2 {
        '2'
    } else if d == 3 {
        '3'
    } else if d == 4 {
        '4'
    } else if d == 5 {
        '5'
    } else if d == 6 {
        '6'
    } else if d == 7 {
        '7'
    } else if d == 8 {
        '8'
    } else {
        '9'
    }
}

proof fn lemma_decimal_digit(d: nat)
    requires
        d < 10,
    ensures
        '0' <= decimal_digit(d) <= '9',
        decimal_digit(d) as int - '0' as int == d,
        decimal_digit(d) == '0' ==> d == 0,
{
}

/// `decimal(n)` writes `n` in decimal: its characters are digits, read
/// back they give `n`, and it has no leading zero.
pub proof fn lemma_decimal_writes(n: nat)
    ensures
        decimal(n).len() > 0,
        all_digits(decimal(n)),
        digits_value(decimal(n)) == n,
        decimal(n)[0] == '0' ==> n == 0,
    decreases n,
{
    lemma_decimal_digit(n % 10);
    if n < 10 {
        assert(decimal(n).drop_last() =~= Seq::<char>::empty());
        assert(n % 10 == n);
        assert(digits_value(decimal(n)) == digits_value(Seq::<char>::empty()) * 10 + (decimal(n).last() as int
            - '0' as int));
    }
    if n >= 10 {
        lemma_decimal_writes(n / 10);
        let d = decimal(n);
        let h = decimal(n / 10);
        assert(d.drop_last() =~= h);
        assert(d.last() == decimal_digit(n % 10));
        assert(digits_value(d) == digits_value(h) * 10 + (d.last() as int - '0' as int));
        assert((n / 10) * 10 + n % 10 == n) by (nonlinear_arith);
        assert(n / 10 > 0) by (nonlinear_arith)
            requires
                n >= 10,
        ;
        assert(d[0] == h[0]);
        assert forall|i: int| 0 <= i < d.len() implies '0' <= #[trigger] d[i] <= '9' by {
            if i < h.len() {
                assert(d[i] == h[i]);
            }
        }
    }
}

fn decimal_digit_of(d: usize) -> (c: char)
    requires
        d < 10,
    ensures
        c == decimal_digit(d as nat),
{
    if d == 0 {
        '0'
    } else if d == 1 {
        '1'
    } else if d == 2 {
        '2'
    } else if d == 3 {
        '3'
    } else if d == 4 {
        '4'
    } else if d == 5 {
        '5'
    } else if d == 6 {
        '6'
    } else if d == 7 {
        '7'
    } else if d == 8 {
        '8'
    } else {
        '9'
    }
}

/// The digits of `n` in base ten.
pub fn decimal_of(n: usize) -> (r: Vec<char>)
    ensures
        r@ == decimal(n as nat),
    decreases n,
{
    if n < 10 {
        let mut r: Vec<char> = Vec::new();
        r.push(decimal_digit_of(n));
        r
    } else {
        let mut r = decimal_of(n / 10);
        r.push(decimal_digit_of(n % 10));
        r
    }
}

/// The question asked before moving paths into a folder (see
/// `spec_move_question`).
pub fn move_question(paths: &Vec<String>, dest_dir: &str) -> (r: Option<String>)
    ensures
        match r {
            Some(q) => spec_move_question(strings_view(paths@), dest_dir@, decimal(paths@.len()))
                == Some(q@),
            None => spec_move_question(strings_view(paths@), dest_dir@, decimal(paths@.len())) is None,
        },
{
    let ghost pv = strings_view(paths@);
    if paths.len() == 0 {
        return None;
    }
    let d = chars_of(dest_dir);
    let mut i: usize = 0;
    while i < paths.len()
        invariant
            pv == strings_view(paths@),
            d@ == dest_dir@,
            i <= paths@.len(),
            forall|j: int| 0 <= j < i ==> pv[j] != dest_dir@,
        decreases paths@.len() - i,
    {
        if chars_eq(&chars_of(paths[i].as_str()), &d) {
            assert(pv[i as int] == dest_dir@);
            assert(pv.contains(dest_dir@));
            return None;
        }
        i = i + 1;
    }
    assert(!pv.contains(dest_dir@));
    let dest_name = item_label(dest_dir);
    let mut out: Vec<char> = Vec::new();
    if paths.len() == 1 {
        let name = match file_name(&chars_of(paths[0].as_str())) {
            Some(n) => n,
            None => Vec::new(),
        };
        append_str(&mut out, "Are you sure you want to move \"");
        append_str(&mut out, string_from_chars(&name).as_str());
        append_str(&mut out, "\" to \"");
        append_str(&mut out, dest_name.as_str());
        append_str(&mut out, "\"?");
    } else {
        append_str(&mut out, "Are you sure you want to move these ");
        append_str(&mut out, string_from_chars(&decimal_of(paths.len())).as_str());
        append_str(&mut out, " items to \"");
        append_str(&mut out, dest_name.as_str());
        append_str(&mut out, "\"?");
    }
    let q = string_from_chars(&out);
    assert(q@ =~= spec_move_question(pv, dest_dir@, decimal(paths@.len())).unwrap());
    Some(q)
}

/// Paths as the text put on the clipboard by "copy path": one per line,
/// with no line break after the last.
pub open spec fn spec_paths_text(paths: Seq<Seq<char>>) -> Seq<char>
    decreases paths.len(),
{
    if paths.len() == 0 {
        Seq::empty()
    } else if paths.len() == 1 {
        paths[0]
    } else {
        spec_paths_text(paths.drop_last()) + seq!['\n'] + paths.last()
    }
}

/// Paths as the text put on the clipboard (see `spec_paths_text`).
pub fn paths_text(paths: &Vec<String>) -> (r: String)
    ensures
        r@ == spec_paths_text(strings_view(paths@)),
{
    let ghost sv = strings_view(paths@);
    let mut out: Vec<char> = Vec::new();
    let mut i: usize = 0;
    while i < paths.len()
        invariant
            sv == strings_view(paths@),
            i <= paths@.len(),
            out@ == spec_paths_text(sv.take(i as int)),
        decreases paths@.len() - i,
    {
        if i > 0 {
            out.push('\n');
        }
        append_str(&mut out, paths[i].as_str());
        proof {
            assert(sv.take(i + 1).drop_last() =~= sv.take(i as int));
            if i == 0 {
                assert(sv.take(0) =~= Seq::<Seq<char>>::empty());
            }
        }
        i = i + 1;
    }
    assert(sv.take(paths@.len() as int) =~= sv);
    string_from_chars(&out)
}

/// What Copy or Cut puts on the clipboard: the selected paths with the
/// operation; nothing in the trash view or without a selection.
pub fn clipboard_from_selection(op: ClipboardOp, in_trash: bool, selected: Vec<String>) -> (r: Option<
    FileClipboard,
>)
    ensures
        (in_trash || selected@.len() == 0) ==> r is None,
        !(in_trash || selected@.len() == 0) ==> (r matches Some(c) && c.op == op && c.paths@
            == selected@),
{
    if in_trash || selected.len() == 0 {
        None
    } else {
        Some(FileClipboard { op, paths: selected })
    }
}

} // verus!
