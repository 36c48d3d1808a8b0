//! State shared by the tabs of a window: the file clipboard and the undo
//! and redo histories.
use vstd::prelude::*;

use crate::undo::{describe, spec_describe, spec_label, OpResult, UndoOp, UndoOpView};

verus! {

/// Whether the clipboard holds copied or cut paths.
#[derive(Clone, Copy, Debug, PartialEq, Eq, Structural)]
pub enum ClipboardOp {
    Copy,
    Cut,
}

/// Paths put on the clipboard by Copy or Cut.
#[derive(Clone, Debug)]
pub struct FileClipboard {
    pub op: ClipboardOp,
    pub paths: Vec<String>,
}

/// How many operations the undo history keeps.
pub const MAX_UNDO_HISTORY: usize = 100;

/// State shared by all tabs of a window: the file clipboard and the undo
/// and redo histories.
pub struct SharedState {
    pub clipboard: Option<FileClipboard>,
    pub undo_stack: Vec<UndoOp>,
    pub redo_stack: Vec<UndoOp>,
}

pub open spec fn ops_view(v: Seq<UndoOp>) -> Seq<UndoOpView> {
    v.map_values(|op: UndoOp| op@)
}

/// The undo history after recording `op`: the oldest entry is dropped once
/// the history would exceed its limit.
pub open spec fn spec_pushed(history: Seq<UndoOpView>, op: UndoOpView) -> Seq<UndoOpView> {
    if history.len() + 1 > MAX_UNDO_HISTORY {
        history.push(op).drop_first()
    } else {
        history.push(op)
    }
}

impl SharedState {
    /// Nothing on the clipboard and nothing to undo or redo.
    pub fn new() -> (s: SharedState)
        ensures
            s.clipboard is None,
            s.undo_stack@.len() == 0,
            s.redo_stack@.len() == 0,
    {
        SharedState { clipboard: None, undo_stack: Vec::new(), redo_stack: Vec::new() }
    }

    /// Records a completed operation: it goes on top of the undo history,
    /// which keeps at most `MAX_UNDO_HISTORY` entries, and the redo history
    /// is cleared.
    pub fn push_undo(&mut self, op: UndoOp)
        ensures
            ops_view(final(self).undo_stack@) == spec_pushed(ops_view(old(self).undo_stack@), op@),
            final(self).redo_stack@.len() == 0,
            final(self).clipboard == old(self).clipboard,
    {
        let ghost before = ops_view(self.undo_stack@);
        self.undo_stack.push(op);
        assert(ops_view(self.undo_stack@) =~= before.push(op@));
        if self.undo_stack.len() > MAX_UNDO_HISTORY {
            self.undo_stack.remove(0);
            assert(ops_view(self.undo_stack@) =~= before.push(op@).drop_first());
        }
        self.redo_stack.clear();
    }

    /// The label of the operation Undo would undo.
    pub fn undo_label(&self) -> (l: Option<&'static str>)
        ensures
            l is Some == (self.undo_stack@.len() > 0),
            l matches Some(s) ==> s@ == spec_label(self.undo_stack@.last()@),
    {
        if self.undo_stack.len() == 0 {
            None
        } else {
            Some(self.undo_stack[self.undo_stack.len() - 1].label())
        }
    }

    /// The label of the operation Redo would redo.
    pub fn redo_label(&self) -> (l: Option<&'static str>)
        ensures
            l is Some == (self.redo_stack@.len() > 0),
            l matches Some(s) ==> s@ == spec_label(self.redo_stack@.last()@),
    {
        if self.redo_stack.len() == 0 {
            None
        } else {
            Some(self.redo_stack[self.redo_stack.len() - 1].label())
        }
    }

    /// Records how undoing went: what is left to redo goes on top of the redo
    /// history; on failure nothing is recorded and the errors' description
    /// is returned.
    pub fn record_undone(&mut self, result: OpResult<UndoOp>) -> (message: Option<String>)
        ensures
            final(self).undo_stack@ == old(self).undo_stack@,
            final(self).clipboard == old(self).clipboard,
            result matches Ok(op) ==> message is None && final(self).redo_stack@ == old(
                self,
            ).redo_stack@.push(op),
            result matches Err(errs) ==> final(self).redo_stack@ == old(self).redo_stack@ && (
            message matches Some(m) && m@ == spec_describe(errs@)),
    {
        match result {
            Ok(op) => {
                self.redo_stack.push(op);
                None
            },
            Err(errs) => Some(describe(&errs)),
        }
    }

    /// Records how redoing went: what is left to undo goes on top of the undo
    /// history; on failure nothing is recorded and the errors' description
    /// is returned.
    pub fn record_redone(&mut self, result: OpResult<UndoOp>) -> (message: Option<String>)
        ensures
            final(self).redo_stack@ == old(self).redo_stack@,
            final(self).clipboard == old(self).clipboard,
            result matches Ok(op) ==> message is None && final(self).undo_stack@ == old(
                self,
            ).undo_stack@.push(op),
            result matches Err(errs) ==> final(self).undo_stack@ == old(self).undo_stack@ && (
            message matches Some(m) && m@ == spec_describe(errs@)),
    {
        match result {
            Ok(op) => {
                self.undo_stack.push(op);
                None
            },
            Err(errs) => Some(describe(&errs)),
        }
    }
}

/// Recording an operation never lets the undo history grow past its limit,
/// puts that operation on top, and keeps the rest of the history in order.
pub proof fn lemma_push_undo_bounded(history: Seq<UndoOpView>, op: UndoOpView)
    requires
        history.len() <= MAX_UNDO_HISTORY,
    ensures
        spec_pushed(history, op).len() <= MAX_UNDO_HISTORY,
        spec_pushed(history, op).last() == op,
        history.len() < MAX_UNDO_HISTORY ==> spec_pushed(history, op).drop_last() == history,
        history.len() == MAX_UNDO_HISTORY ==> spec_pushed(history, op).drop_last() == history.drop_first(),
{
    assert(history.push(op).drop_last() =~= history);
    if history.len() > 0 {
        assert(history.push(op).drop_first().drop_last() =~= history.drop_first());
    }
}

} // verus!
