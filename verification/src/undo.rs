//! Undo and redo: the operations that can be undone, the file system work
//! that undoing or redoing each one takes, and what is left to redo or undo.
use vstd::prelude::*;

use crate::paths::{file_name, parent, path_file_name, path_join, path_parent};
use crate::text::{append_str, chars_of, string_from_chars};

verus! {

/// Whether a new entry is a folder or a file.
#[derive(Clone, Copy, Debug, PartialEq, Eq, Structural)]
pub enum NewEntryKind {
    Folder,
    File,
}

/// An item in the trash, as the trash listing reports it.
#[derive(Clone, Debug)]
pub struct TrashItem {
    pub id: String,
    pub name: String,
    pub original_parent: String,
    pub time_deleted: i64,
}

impl TrashItem {
    /// A copy of this item.
    pub fn duplicate(&self) -> (r: TrashItem)
        ensures
            r == *self,
    {
        TrashItem {
            id: self.id.clone(),
            name: self.name.clone(),
            original_parent: self.original_parent.clone(),
            time_deleted: self.time_deleted,
        }
    }
}

/// Why a filesystem operation failed.
#[derive(Clone, Debug)]
pub enum OpError {
    /// An I/O error (its message) on a path.
    Io(String, String),
    /// The trash refused an operation (its message).
    Trash(String),
    /// The destination path already exists.
    NameConflict(String),
}

pub type OpResult<T> = Result<T, Vec<OpError>>;

/// The text shown for one error.
pub open spec fn spec_error_message(e: OpError) -> Seq<char> {
    match e {
        OpError::Io(message, path) => path@ + ": "@ + message@,
        OpError::Trash(message) => "couldn't move to trash: "@ + message@,
        OpError::NameConflict(path) => path@ + " already exists"@,
    }
}

/// The messages of `errors`, separated by `; `.
pub open spec fn spec_describe(errors: Seq<OpError>) -> Seq<char>
    decreases errors.len(),
{
    if errors.len() == 0 {
        Seq::empty()
    } else if errors.len() == 1 {
        spec_error_message(errors[0])
    } else {
        spec_describe(errors.drop_last()) + "; "@ + spec_error_message(errors.last())
    }
}

impl OpError {
    /// The text shown for this error.
    pub fn to_message(&self) -> (m: String)
        ensures
            m@ == spec_error_message(*self),
    {
        let mut out: Vec<char> = Vec::new();
        match self {
            OpError::Io(message, path) => {
                append_str(&mut out, path.as_str());
                append_str(&mut out, ": ");
                append_str(&mut out, message.as_str());
            },
            OpError::Trash(message) => {
                append_str(&mut out, "couldn't move to trash: ");
                append_str(&mut out, message.as_str());
            },
            OpError::NameConflict(path) => {
                append_str(&mut out, path.as_str());
                append_str(&mut out, " already exists");
            },
        }
        proof {
            assert(out@ =~= spec_error_message(*self));
        }
        string_from_chars(&out)
    }
}

/// The messages of `errors`, separated by `; `.
pub fn describe(errors: &Vec<OpError>) -> (d: String)
    ensures
        d@ == spec_describe(errors@),
{
    let mut out: Vec<char> = Vec::new();
    let mut i: usize = 0;
    while i < errors.len()
        invariant
            i <= errors@.len(),
            out@ == spec_describe(errors@.take(i as int)),
        decreases errors@.len() - i,
    {
        if i > 0 {
            append_str(&mut out, "; ");
        }
        let m = errors[i].to_message();
        append_str(&mut out, m.as_str());
        proof {
            let t = errors@.take(i + 1);
            assert(t.drop_last() =~= errors@.take(i as int));
            assert(t.last() == errors@[i as int]);
            if i == 0 {
                assert(out@ =~= spec_describe(t));
            }
        }
        i = i + 1;
    }
    assert(errors@.take(errors@.len() as int) =~= errors@);
    string_from_chars(&out)
}

/// Splits the outcomes of a batch of operations into what succeeded and
/// what failed, each in order: the batch fails when any item failed.
pub open spec fn spec_collect<T>(outcomes: Seq<Result<T, OpError>>) -> (Seq<T>, Seq<OpError>)
    decreases outcomes.len(),
{
    if outcomes.len() == 0 {
        (Seq::empty(), Seq::empty())
    } else {
        let (oks, errs) = spec_collect(outcomes.drop_last());
        match outcomes.last() {
            Ok(v) => (oks.push(v), errs),
            Err(e) => (oks, errs.push(e)),
        }
    }
}

/// The values of the items that succeeded, and `Ok` unless an item failed
/// (then the errors, in order).
pub fn collect_outcomes<T>(outcomes: Vec<Result<T, OpError>>) -> (r: (Vec<T>, OpResult<()>))
    ensures
        r.0@ == spec_collect(outcomes@).0,
        (r.1 is Ok) == (spec_collect(outcomes@).1.len() == 0),
        r.1 matches Err(errs) ==> errs@ == spec_collect(outcomes@).1,
{
    let mut oks: Vec<T> = Vec::new();
    let mut errs: Vec<OpError> = Vec::new();
    let ghost all = outcomes@;
    let mut src = outcomes;
    let mut rest: Vec<Result<T, OpError>> = Vec::new();
    let ghost n = all.len();
    while src.len() > 0
        invariant
            n == all.len(),
            src@.len() + rest@.len() == n,
            forall|k: int| 0 <= k < src@.len() ==> src@[k] == all[k],
            forall|k: int| 0 <= k < rest@.len() ==> rest@[k] == all[n - 1 - k],
        decreases src@.len(),
    {
        let item = src.pop().unwrap();
        rest.push(item);
    }
    let ghost mut done: int = 0;
    assert(n == rest@.len());
    assert(all.take(0) =~= Seq::<Result<T, OpError>>::empty());
    while rest.len() > 0
        invariant
            done + rest@.len() == n,
            n == all.len(),
            forall|k: int| 0 <= k < rest@.len() ==> rest@[k] == all[n - 1 - k],
            0 <= done,
            (oks@, errs@) == spec_collect(all.take(done)),
        decreases rest@.len(),
    {
        let item = rest.pop().unwrap();
        proof {
            assert(item == all[done]);
            assert(all.take(done + 1).drop_last() =~= all.take(done));
        }
        match item {
            Ok(v) => oks.push(v),
            Err(e) => errs.push(e),
        }
        proof {
            done = done + 1;
        }
    }
    assert(all.take(n as int) =~= all);
    if errs.len() == 0 {
        (oks, Ok(()))
    } else {
        (oks, Err(errs))
    }
}

/// The filesystem work that undoing or redoing an operation takes; the
/// caller performs it and hands back the outcome.
#[derive(Clone, Debug)]
pub enum FsAction {
    /// Move each source to its destination exactly, collecting the errors.
    MovePairs(Vec<(String, String)>),
    /// Move one path to another exactly.
    MoveExact { source: String, dest: String },
    /// Remove each path (recursively for folders), collecting the errors.
    RemovePaths(Vec<String>),
    /// Remove an empty folder.
    RemoveDir(String),
    /// Remove a file.
    RemoveFile(String),
    /// Copy each source into a folder, collecting the errors.
    CopyInto { sources: Vec<String>, dest_dir: String },
    /// Create a folder with this name in the parent.
    NewFolder { parent: String, name: String },
    /// Create an empty file with this name in the parent.
    NewFile { parent: String, name: String },
    /// Move each path to the trash and capture the resulting trash items.
    TrashCapturing(Vec<String>),
    /// Restore each item from the trash, collecting the errors.
    Restore(Vec<TrashItem>),
}

/// A completed operation, with what is needed to undo and redo it.
#[derive(Clone, Debug)]
pub enum UndoOp {
    Move { pairs: Vec<(String, String)> },
    Copy { sources: Vec<String>, dest_dir: String, created: Vec<String> },
    Trash { original_paths: Vec<String>, items: Vec<TrashItem> },
    Restore { original_paths: Vec<String>, items: Vec<TrashItem> },
    Rename { from: String, to: String },
    NewEntry { path: String, kind: NewEntryKind },
}

/// A trash item as plain values: id, name, original folder, deletion time.
pub type TrashItemView = (Seq<char>, Seq<char>, Seq<char>, i64);

pub type PathPairs = Seq<(Seq<char>, Seq<char>)>;

/// The abstract content of a filesystem action.
pub enum FsActionView {
    MovePairs(PathPairs),
    MoveExact(Seq<char>, Seq<char>),
    RemovePaths(Seq<Seq<char>>),
    RemoveDir(Seq<char>),
    RemoveFile(Seq<char>),
    CopyInto(Seq<Seq<char>>, Seq<char>),
    NewFolder(Seq<char>, Seq<char>),
    NewFile(Seq<char>, Seq<char>),
    TrashCapturing(Seq<Seq<char>>),
    Restore(Seq<TrashItemView>),
}

/// The abstract content of a completed operation.
pub enum UndoOpView {
    Move(PathPairs),
    Copy(Seq<Seq<char>>, Seq<char>, Seq<Seq<char>>),
    Trash(Seq<Seq<char>>, Seq<TrashItemView>),
    Restore(Seq<Seq<char>>, Seq<TrashItemView>),
    Rename(Seq<char>, Seq<char>),
    NewEntry(Seq<char>, NewEntryKind),
}

pub open spec fn strings_view(v: Seq<String>) -> Seq<Seq<char>> {
    v.map_values(|s: String| s@)
}

pub open spec fn pairs_view(v: Seq<(String, String)>) -> PathPairs {
    v.map_values(|p: (String, String)| (p.0@, p.1@))
}

pub open spec fn items_view(v: Seq<TrashItem>) -> Seq<TrashItemView> {
    v.map_values(|t: TrashItem| t@)
}

impl View for TrashItem {
    type V = TrashItemView;

    open spec fn view(&self) -> TrashItemView {
        (self.id@, self.name@, self.original_parent@, self.time_deleted)
    }
}

impl View for FsAction {
    type V = FsActionView;

    open spec fn view(&self) -> FsActionView {
        match self {
            FsAction::MovePairs(p) => FsActionView::MovePairs(pairs_view(p@)),
            FsAction::MoveExact { source, dest } => FsActionView::MoveExact(source@, dest@),
            FsAction::RemovePaths(p) => FsActionView::RemovePaths(strings_view(p@)),
            FsAction::RemoveDir(p) => FsActionView::RemoveDir(p@),
            FsAction::RemoveFile(p) => FsActionView::RemoveFile(p@),
            FsAction::CopyInto { sources, dest_dir } => FsActionView::CopyInto(
                strings_view(sources@),
                dest_dir@,
            ),
            FsAction::NewFolder { parent, name } => FsActionView::NewFolder(parent@, name@),
            FsAction::NewFile { parent, name } => FsActionView::NewFile(parent@, name@),
            FsAction::TrashCapturing(p) => FsActionView::TrashCapturing(strings_view(p@)),
            FsAction::Restore(items) => FsActionView::Restore(items_view(items@)),
        }
    }
}

impl View for UndoOp {
    type V = UndoOpView;

    open spec fn view(&self) -> UndoOpView {
        match self {
            UndoOp::Move { pairs } => UndoOpView::Move(pairs_view(pairs@)),
            UndoOp::Copy { sources, dest_dir, created } => UndoOpView::Copy(
                strings_view(sources@),
                dest_dir@,
                strings_view(created@),
            ),
            UndoOp::Trash { original_paths, items } => UndoOpView::Trash(
                strings_view(original_paths@),
                items_view(items@),
            ),
            UndoOp::Restore { original_paths, items } => UndoOpView::Restore(
                strings_view(original_paths@),
                items_view(items@),
            ),
            UndoOp::Rename { from, to } => UndoOpView::Rename(from@, to@),
            UndoOp::NewEntry { path, kind } => UndoOpView::NewEntry(path@, *kind),
        }
    }
}

pub open spec fn swap_pairs(pairs: PathPairs) -> PathPairs {
    pairs.map_values(|p: (Seq<char>, Seq<char>)| (p.1, p.0))
}

/// The label shown for an operation in the Undo and Redo menu items.
pub open spec fn spec_label(op: UndoOpView) -> Seq<char> {
    match op {
        UndoOpView::Move(..) => "Move"@,
        UndoOpView::Copy(..) => "Copy"@,
        UndoOpView::Trash(..) => "Delete"@,
        UndoOpView::Restore(..) => "Restore"@,
        UndoOpView::Rename(..) => "Rename"@,
        UndoOpView::NewEntry(..) => "Create"@,
    }
}

/// The work that undoes an operation: moves are reversed, copies removed,
/// created entries deleted, trashed items restored, restored paths trashed.
pub open spec fn spec_undo_action(op: UndoOpView) -> FsActionView {
    match op {
        UndoOpView::Move(pairs) => FsActionView::MovePairs(swap_pairs(pairs)),
        UndoOpView::Rename(from, to) => FsActionView::MoveExact(to, from),
        UndoOpView::Copy(_, _, created) => FsActionView::RemovePaths(created),
        UndoOpView::NewEntry(path, kind) => match kind {
            NewEntryKind::Folder => FsActionView::RemoveDir(path),
            NewEntryKind::File => FsActionView::RemoveFile(path),
        },
        UndoOpView::Trash(_, items) => FsActionView::Restore(items),
        UndoOpView::Restore(paths, _) => FsActionView::TrashCapturing(paths),
    }
}

/// The folder a new entry is created in, and its name, as the entry's path
/// gives them (`/` and the empty name when it gives none).
pub open spec fn new_entry_place(path: Seq<char>) -> (Seq<char>, Seq<char>) {
    (
        match path_parent(path) {
            Some(p) => p,
            None => seq!['/'],
        },
        match path_file_name(path) {
            Some(n) => n,
            None => Seq::empty(),
        },
    )
}

/// The work that redoes an operation: moves and copies are repeated, the
/// entry created again, paths trashed again, items restored again.
pub open spec fn spec_redo_action(op: UndoOpView) -> FsActionView {
    match op {
        UndoOpView::Move(pairs) => FsActionView::MovePairs(pairs),
        UndoOpView::Rename(from, to) => FsActionView::MoveExact(from, to),
        UndoOpView::Copy(sources, dest_dir, _) => FsActionView::CopyInto(sources, dest_dir),
        UndoOpView::NewEntry(path, kind) => match kind {
            NewEntryKind::Folder => FsActionView::NewFolder(
                new_entry_place(path).0,
                new_entry_place(path).1,
            ),
            NewEntryKind::File => FsActionView::NewFile(
                new_entry_place(path).0,
                new_entry_place(path).1,
            ),
        },
        UndoOpView::Trash(paths, _) => FsActionView::TrashCapturing(paths),
        UndoOpView::Restore(_, items) => FsActionView::Restore(items),
    }
}

/// What undoing an operation leaves to redo, once its work succeeded
/// (capturing `captured` from the trash): the operation as it was, except
/// that a restored deletion forgets its items and a re-trashed restore
/// remembers the captured ones.
pub open spec fn spec_undone(op: UndoOpView, captured: Seq<TrashItemView>) -> UndoOpView {
    match op {
        UndoOpView::Trash(paths, _) => UndoOpView::Trash(paths, Seq::empty()),
        UndoOpView::Restore(paths, _) => UndoOpView::Restore(paths, captured),
        _ => op,
    }
}

/// What redoing an operation leaves to undo, once its work succeeded
/// (capturing `captured` from the trash): the operation as it was, except
/// that a re-trashed deletion remembers the captured items and a repeated
/// restore forgets its items.
pub open spec fn spec_redone(op: UndoOpView, captured: Seq<TrashItemView>) -> UndoOpView {
    match op {
        UndoOpView::Trash(paths, _) => UndoOpView::Trash(paths, captured),
        UndoOpView::Restore(paths, _) => UndoOpView::Restore(paths, Seq::empty()),
        _ => op,
    }
}

fn copy_strings(v: &Vec<String>) -> (r: Vec<String>)
    ensures
        r@ == v@,
{
    let mut r: Vec<String> = Vec::new();
    let mut i: usize = 0;
    while i < v.len()
        invariant
            i <= v@.len(),
            r@ == v@.take(i as int),
        decreases v@.len() - i,
    {
        r.push(v[i].clone());
        assert(v@.take(i + 1) =~= v@.take(i as int).push(v@[i as int]));
        i = i + 1;
    }
    assert(v@.take(v@.len() as int) =~= v@);
    r
}

fn copy_items(v: &Vec<TrashItem>) -> (r: Vec<TrashItem>)
    ensures
        items_view(r@) == items_view(v@),
{
    let mut r: Vec<TrashItem> = Vec::new();
    let mut i: usize = 0;
    while i < v.len()
        invariant
            i <= v@.len(),
            items_view(r@) == items_view(v@.take(i as int)),
        decreases v@.len() - i,
    {
        let it = &v[i];
        r.push(
            TrashItem {
                id: it.id.clone(),
                name: it.name.clone(),
                original_parent: it.original_parent.clone(),
                time_deleted: it.time_deleted,
            },
        );
        assert(items_view(v@.take(i + 1)) =~= items_view(v@.take(i as int)).push(v@[i as int]@));
        assert(items_view(r@) =~= items_view(v@.take(i + 1)));
        i = i + 1;
    }
    assert(v@.take(v@.len() as int) =~= v@);
    r
}

fn copy_pairs(v: &Vec<(String, String)>, swap: bool) -> (r: Vec<(String, String)>)
    ensures
        swap ==> pairs_view(r@) == swap_pairs(pairs_view(v@)),
        !swap ==> pairs_view(r@) == pairs_view(v@),
{
    let mut r: Vec<(String, String)> = Vec::new();
    let mut i: usize = 0;
    while i < v.len()
        invariant
            i <= v@.len(),
            swap ==> pairs_view(r@) == swap_pairs(pairs_view(v@.take(i as int))),
            !swap ==> pairs_view(r@) == pairs_view(v@.take(i as int)),
        decreases v@.len() - i,
    {
        let a = v[i].0.clone();
        let b = v[i].1.clone();
        if swap {
            r.push((b, a));
        } else {
            r.push((a, b));
        }
        assert(pairs_view(v@.take(i + 1)) =~= pairs_view(v@.take(i as int)).push((v@[i as int].0@, v@[i as int].1@)));
        assert(swap_pairs(pairs_view(v@.take(i + 1))) =~= swap_pairs(pairs_view(v@.take(i as int))).push((v@[i as int].1@, v@[i as int].0@)));
        assert(swap ==> pairs_view(r@) =~= swap_pairs(pairs_view(v@.take(i + 1))));
        assert(!swap ==> pairs_view(r@) =~= pairs_view(v@.take(i + 1)));
        i = i + 1;
    }
    assert(v@.take(v@.len() as int) =~= v@);
    r
}

impl UndoOp {
    /// The label shown for this operation in the Undo and Redo menu items.
    pub fn label(&self) -> (l: &'static str)
        ensures
            l@ == spec_label(self@),
    {
        match self {
            UndoOp::Move { .. } => "Move",
            UndoOp::Copy { .. } => "Copy",
            UndoOp::Trash { .. } => "Delete",
            UndoOp::Restore { .. } => "Restore",
            UndoOp::Rename { .. } => "Rename",
            UndoOp::NewEntry { .. } => "Create",
        }
    }

    /// A copy of this operation.
    pub fn duplicate(&self) -> (r: UndoOp)
        ensures
            r@ == self@,
    {
        match self {
            UndoOp::Move { pairs } => UndoOp::Move { pairs: copy_pairs(pairs, false) },
            UndoOp::Copy { sources, dest_dir, created } => UndoOp::Copy {
                sources: copy_strings(sources),
                dest_dir: dest_dir.clone(),
                created: copy_strings(created),
            },
            UndoOp::Trash { original_paths, items } => UndoOp::Trash {
                original_paths: copy_strings(original_paths),
                items: copy_items(items),
            },
            UndoOp::Restore { original_paths, items } => UndoOp::Restore {
                original_paths: copy_strings(original_paths),
                items: copy_items(items),
            },
            UndoOp::Rename { from, to } => UndoOp::Rename { from: from.clone(), to: to.clone() },
            UndoOp::NewEntry { path, kind } => UndoOp::NewEntry { path: path.clone(), kind: *kind },
        }
    }

    /// The work that undoes this operation.
    pub fn undo_action(&self) -> (a: FsAction)
        ensures
            a@ == spec_undo_action(self@),
    {
        match self {
            UndoOp::Move { pairs } => FsAction::MovePairs(copy_pairs(pairs, true)),
            UndoOp::Rename { from, to } => FsAction::MoveExact {
                source: to.clone(),
                dest: from.clone(),
            },
            UndoOp::Copy { created, .. } => FsAction::RemovePaths(copy_strings(created)),
            UndoOp::NewEntry { path, kind } => match kind {
                NewEntryKind::Folder => FsAction::RemoveDir(path.clone()),
                NewEntryKind::File => FsAction::RemoveFile(path.clone()),
            },
            UndoOp::Trash { items, .. } => FsAction::Restore(copy_items(items)),
            UndoOp::Restore { original_paths, .. } => FsAction::TrashCapturing(
                copy_strings(original_paths),
            ),
        }
    }

    /// The work that redoes this operation.
    pub fn redo_action(&self) -> (a: FsAction)
        ensures
            a@ == spec_redo_action(self@),
    {
        match self {
            UndoOp::Move { pairs } => FsAction::MovePairs(copy_pairs(pairs, false)),
            UndoOp::Rename { from, to } => FsAction::MoveExact {
                source: from.clone(),
                dest: to.clone(),
            },
            UndoOp::Copy { sources, dest_dir, .. } => FsAction::CopyInto {
                sources: copy_strings(sources),
                dest_dir: dest_dir.clone(),
            },
            UndoOp::NewEntry { path, kind } => {
                let p = chars_of(path.as_str());
                let parent_dir = match parent(&p) {
                    Some(d) => d,
                    None => chars_of("/"),
                };
                let name = match file_name(&p) {
                    Some(n) => n,
                    None => Vec::new(),
                };
                proof {
                    reveal_strlit("/");
                    assert("/"@ =~= seq!['/']);
                    assert(parent_dir@ == new_entry_place(path@).0);
                    assert(name@ =~= new_entry_place(path@).1);
                }
                match kind {
                    NewEntryKind::Folder => FsAction::NewFolder {
                        parent: string_from_chars(&parent_dir),
                        name: string_from_chars(&name),
                    },
                    NewEntryKind::File => FsAction::NewFile {
                        parent: string_from_chars(&parent_dir),
                        name: string_from_chars(&name),
                    },
                }
            },
            UndoOp::Trash { original_paths, .. } => FsAction::TrashCapturing(
                copy_strings(original_paths),
            ),
            UndoOp::Restore { items, .. } => FsAction::Restore(copy_items(items)),
        }
    }

    /// What is left to redo once the work of `undo_action` came back as
    /// `outcome` (on success, with the trash items it captured): errors are
    /// passed on; a failure that reports no error counts as a success that
    /// captured nothing, so an error result always holds an error.
    pub fn undo(&self, outcome: OpResult<Vec<TrashItem>>) -> (r: OpResult<UndoOp>)
        ensures
            match outcome {
                Err(e) => if e@.len() > 0 {
                    r == Err::<UndoOp, Vec<OpError>>(e)
                } else {
                    r matches Ok(op) && op@ == spec_undone(self@, Seq::empty())
                },
                Ok(captured) => r matches Ok(op) && op@ == spec_undone(self@, items_view(captured@)),
            },
            r matches Err(e) ==> e@.len() > 0,
    {
        let captured = match outcome {
            Err(e) => {
                if e.len() > 0 {
                    return Err(e);
                }
                let none: Vec<TrashItem> = Vec::new();
                assert(items_view(none@) =~= Seq::<TrashItemView>::empty());
                none
            },
            Ok(c) => c,
        };
        match self {
            UndoOp::Trash { original_paths, .. } => {
                let r = UndoOp::Trash {
                    original_paths: copy_strings(original_paths),
                    items: Vec::new(),
                };
                assert(items_view(Seq::<TrashItem>::empty()) =~= Seq::<TrashItemView>::empty());
                Ok(r)
            },
            UndoOp::Restore { original_paths, .. } => Ok(
                UndoOp::Restore { original_paths: copy_strings(original_paths), items: captured },
            ),
            _ => Ok(self.duplicate()),
        }
    }

    /// What is left to undo once the work of `redo_action` came back as
    /// `outcome` (on success, with the trash items it captured): errors are
    /// passed on; a failure that reports no error counts as a success that
    /// captured nothing, so an error result always holds an error.
    pub fn redo(&self, outcome: OpResult<Vec<TrashItem>>) -> (r: OpResult<UndoOp>)
        ensures
            match outcome {
                Err(e) => if e@.len() > 0 {
                    r == Err::<UndoOp, Vec<OpError>>(e)
                } else {
                    r matches Ok(op) && op@ == spec_redone(self@, Seq::empty())
                },
                Ok(captured) => r matches Ok(op) && op@ == spec_redone(self@, items_view(captured@)),
            },
            r matches Err(e) ==> e@.len() > 0,
    {
        let captured = match outcome {
            Err(e) => {
                if e.len() > 0 {
                    return Err(e);
                }
                let none: Vec<TrashItem> = Vec::new();
                assert(items_view(none@) =~= Seq::<TrashItemView>::empty());
                none
            },
            Ok(c) => c,
        };
        match self {
            UndoOp::Trash { original_paths, .. } => Ok(
                UndoOp::Trash { original_paths: copy_strings(original_paths), items: captured },
            ),
            UndoOp::Restore { original_paths, .. } => {
                let r = UndoOp::Restore {
                    original_paths: copy_strings(original_paths),
                    items: Vec::new(),
                };
                assert(items_view(Seq::<TrashItem>::empty()) =~= Seq::<TrashItemView>::empty());
                Ok(r)
            },
            _ => Ok(self.duplicate()),
        }
    }
}

/// Undoing and then redoing a move or a rename does the opposite work and
/// then the original work again: the undo's moves are the redo's moves with
/// source and destination exchanged.
pub proof fn lemma_undo_reverses_moves(op: UndoOpView)
    requires
        op is Move || op is Rename,
    ensures
        match (spec_undo_action(op), spec_redo_action(spec_undone(op, Seq::empty()))) {
            (FsActionView::MovePairs(u), FsActionView::MovePairs(r)) => u == swap_pairs(r),
            (FsActionView::MoveExact(us, ud), FsActionView::MoveExact(rs, rd)) => us == rd && ud == rs,
            _ => false,
        },
{
}

/// Undoing a deletion restores exactly the items it trashed, and what it
/// leaves to redo trashes the same paths again.
pub proof fn lemma_undo_delete_round_trip(paths: Seq<Seq<char>>, items: Seq<TrashItemView>, captured: Seq<TrashItemView>)
    ensures
        spec_undo_action(UndoOpView::Trash(paths, items)) == FsActionView::Restore(items),
        spec_redo_action(spec_undone(UndoOpView::Trash(paths, items), captured))
            == FsActionView::TrashCapturing(paths),
{
}

/// Undoing a restore trashes the restored paths again, and what it leaves to
/// redo restores exactly the items that this captured.
pub proof fn lemma_undo_restore_round_trip(paths: Seq<Seq<char>>, items: Seq<TrashItemView>, captured: Seq<TrashItemView>)
    ensures
        spec_undo_action(UndoOpView::Restore(paths, items)) == FsActionView::TrashCapturing(paths),
        spec_redo_action(spec_undone(UndoOpView::Restore(paths, items), captured))
            == FsActionView::Restore(captured),
{
}

/// Redoing what an undo left behind, and undoing what that redo left
/// behind, comes back to the same operation for every kind except those
/// whose trash items change hands.
pub proof fn lemma_undo_redo_returns_to_operation(op: UndoOpView)
    requires
        !(op is Trash) && !(op is Restore),
    ensures
        spec_redone(spec_undone(op, Seq::empty()), Seq::empty()) == op,
        spec_undone(spec_redone(op, Seq::empty()), Seq::empty()) == op,
{
}

/// Swapping the ends of every move twice gives the moves back.
pub proof fn lemma_swap_pairs_involution(pairs: PathPairs)
    ensures
        swap_pairs(swap_pairs(pairs)) == pairs,
{
    assert(swap_pairs(swap_pairs(pairs)) =~= pairs);
}

/// The paths that an action, once it succeeded, has made exist: where
/// moves, copies and new entries went. (Restoring from the trash is not
/// modelled.)
pub open spec fn spec_made(action: FsActionView) -> Set<Seq<char>> {
    match action {
        FsActionView::MovePairs(pairs) => Set::new(
            |d: Seq<char>| exists|k: int| 0 <= k < pairs.len() && #[trigger] pairs[k].1 == d,
        ),
        FsActionView::MoveExact(_, dest) => set![dest],
        FsActionView::CopyInto(sources, dest_dir) => Set::new(
            |d: Seq<char>|
                exists|k: int|
                    0 <= k < sources.len() && (#[trigger] path_file_name(sources[k]) matches Some(n) && d
                        == path_join(dest_dir, n)),
        ),
        FsActionView::NewFolder(parent, name) => set![path_join(parent, name)],
        FsActionView::NewFile(parent, name) => set![path_join(parent, name)],
        _ => Set::empty(),
    }
}

/// The paths that an action, once it succeeded, has taken away: where
/// moves came from, and what was removed or trashed.
pub open spec fn spec_taken(action: FsActionView) -> Set<Seq<char>> {
    match action {
        FsActionView::MovePairs(pairs) => Set::new(
            |s: Seq<char>| exists|k: int| 0 <= k < pairs.len() && #[trigger] pairs[k].0 == s,
        ),
        FsActionView::MoveExact(source, _) => set![source],
        FsActionView::RemovePaths(paths) => Set::new(
            |s: Seq<char>| exists|k: int| 0 <= k < paths.len() && #[trigger] paths[k] == s,
        ),
        FsActionView::RemoveDir(path) => set![path],
        FsActionView::RemoveFile(path) => set![path],
        FsActionView::TrashCapturing(paths) => Set::new(
            |s: Seq<char>| exists|k: int| 0 <= k < paths.len() && #[trigger] paths[k] == s,
        ),
        _ => Set::empty(),
    }
}

/// Which of the paths exist after an action succeeded, given those that
/// existed before: those it took away are gone, those it made are there.
pub open spec fn spec_after(action: FsActionView, existing: Set<Seq<char>>) -> Set<Seq<char>> {
    existing.difference(spec_taken(action)).union(spec_made(action))
}

/// The paths an operation made exist when it was done.
pub open spec fn spec_forward_made(op: UndoOpView) -> Set<Seq<char>> {
    match op {
        UndoOpView::Move(pairs) => spec_made(FsActionView::MovePairs(pairs)),
        UndoOpView::Rename(_, to) => set![to],
        UndoOpView::Copy(_, _, created) => Set::new(
            |d: Seq<char>| exists|k: int| 0 <= k < created.len() && #[trigger] created[k] == d,
        ),
        UndoOpView::NewEntry(path, _) => set![path],
        _ => Set::empty(),
    }
}

/// The paths an operation took away when it was done.
pub open spec fn spec_forward_taken(op: UndoOpView) -> Set<Seq<char>> {
    match op {
        UndoOpView::Move(pairs) => spec_taken(FsActionView::MovePairs(pairs)),
        UndoOpView::Rename(from, _) => set![from],
        _ => Set::empty(),
    }
}

/// The operation is one that undo and redo carry out on paths alone, and
/// its record is coherent: no move lands where another starts, a rename
/// changes the path, each copy made is its source's name in the folder it
/// was copied to, and a new entry's path is its folder joined with its
/// name.
pub open spec fn round_trips(op: UndoOpView) -> bool {
    match op {
        UndoOpView::Move(pairs) => forall|i: int, j: int|
            0 <= i < pairs.len() && 0 <= j < pairs.len() ==> #[trigger] pairs[i].0 != #[trigger] pairs[j].1,
        UndoOpView::Rename(from, to) => from != to,
        UndoOpView::Copy(sources, dest_dir, created) => {
            &&& sources.len() == created.len()
            &&& forall|k: int|
                0 <= k < sources.len() ==> (#[trigger] path_file_name(sources[k]) matches Some(n)
                    && created[k] == path_join(dest_dir, n))
        },
        UndoOpView::NewEntry(path, _) => path_join(new_entry_place(path).0, new_entry_place(path).1) == path,
        _ => false,
    }
}

/// Undoing a move, rename, copy or new entry and then redoing it leaves the
/// paths as the operation left them: after the undo, what it made is gone
/// and what it took away is back; after the redo, what it made is there
/// again and what it took away is gone again.
pub proof fn lemma_undo_redo_restores_paths(op: UndoOpView, existing: Set<Seq<char>>)
    requires
        round_trips(op),
    ensures
        ({
            let undone = spec_after(spec_undo_action(op), existing);
            let redone = spec_after(spec_redo_action(spec_undone(op, Seq::empty())), undone);
            &&& forall|p: Seq<char>| #[trigger] spec_forward_made(op).contains(p) ==> !undone.contains(p)
            &&& forall|p: Seq<char>| #[trigger] spec_forward_taken(op).contains(p) ==> undone.contains(p)
            &&& forall|p: Seq<char>| #[trigger] spec_forward_made(op).contains(p) ==> redone.contains(p)
            &&& forall|p: Seq<char>| #[trigger] spec_forward_taken(op).contains(p) ==> !redone.contains(p)
        }),
{
    let undone = spec_after(spec_undo_action(op), existing);
    let redone = spec_after(spec_redo_action(spec_undone(op, Seq::empty())), undone);
    match op {
        UndoOpView::Move(pairs) => {
            let sw = swap_pairs(pairs);
            assert(sw.len() == pairs.len());
            assert forall|p: Seq<char>| #[trigger] spec_forward_made(op).contains(p) implies !undone.contains(p)
                && redone.contains(p) by {
                let k = choose|k: int| 0 <= k < pairs.len() && #[trigger] pairs[k].1 == p;
                assert(sw[k].0 == p);
                assert(spec_taken(FsActionView::MovePairs(sw)).contains(p));
                if exists|j: int| 0 <= j < sw.len() && #[trigger] sw[j].1 == p {
                    let j = choose|j: int| 0 <= j < sw.len() && #[trigger] sw[j].1 == p;
                    assert(pairs[j].0 == p);
                    assert(pairs[j].0 != pairs[k].1);
                }
                assert(spec_made(FsActionView::MovePairs(pairs)).contains(p));
            }
            assert forall|p: Seq<char>| #[trigger] spec_forward_taken(op).contains(p) implies undone.contains(p)
                && !redone.contains(p) by {
                let k = choose|k: int| 0 <= k < pairs.len() && #[trigger] pairs[k].0 == p;
                assert(sw[k].1 == p);
                assert(spec_made(FsActionView::MovePairs(sw)).contains(p));
                assert(spec_taken(FsActionView::MovePairs(pairs)).contains(p));
                if exists|j: int| 0 <= j < pairs.len() && #[trigger] pairs[j].1 == p {
                    let j = choose|j: int| 0 <= j < pairs.len() && #[trigger] pairs[j].1 == p;
                    assert(pairs[k].0 != pairs[j].1);
                }
            }
        },
        UndoOpView::Copy(sources, dest_dir, created) => {
            assert forall|p: Seq<char>| #[trigger] spec_forward_made(op).contains(p) implies !undone.contains(p)
                && redone.contains(p) by {
                let k = choose|k: int| 0 <= k < created.len() && #[trigger] created[k] == p;
                assert(spec_taken(FsActionView::RemovePaths(created)).contains(p));
                assert(path_file_name(sources[k]) is Some);
                assert(spec_made(FsActionView::CopyInto(sources, dest_dir)).contains(p));
            }
        },
        _ => {},
    }
}

} // verus!
