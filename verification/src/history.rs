//! The navigation history of a tab: the folders visited, the current one,
//! and moving back, forward or to any visited folder.
use vstd::prelude::*;

use crate::paths::{is_same_path, lemma_same_path_refl, same_path};

verus! {

/// Abstract state of a navigation history: the visited directories and the
/// position of the cursor among them.
pub struct HistoryModel {
    pub entries: Seq<Seq<char>>,
    pub index: int,
}

impl HistoryModel {
    pub open spec fn wf(self) -> bool {
        0 <= self.index < self.entries.len()
    }

    pub open spec fn current(self) -> Seq<char> {
        self.entries[self.index]
    }

    pub open spec fn can_go_back(self) -> bool {
        self.index > 0
    }

    pub open spec fn can_go_forward(self) -> bool {
        self.index + 1 < self.entries.len()
    }

    /// Visiting `path`: a no-op when it names the current folder, otherwise
    /// the forward part of the history is dropped and `path` becomes current.
    pub open spec fn navigate(self, path: Seq<char>) -> HistoryModel {
        if same_path(path, self.current()) {
            self
        } else {
            HistoryModel {
                entries: self.entries.take(self.index + 1).push(path),
                index: self.index + 1,
            }
        }
    }

    pub open spec fn back(self) -> HistoryModel {
        if self.can_go_back() {
            HistoryModel { entries: self.entries, index: self.index - 1 }
        } else {
            self
        }
    }

    pub open spec fn forward(self) -> HistoryModel {
        if self.can_go_forward() {
            HistoryModel { entries: self.entries, index: self.index + 1 }
        } else {
            self
        }
    }

    pub open spec fn jump_to(self, target: int) -> HistoryModel {
        if target == self.index || target < 0 || target >= self.entries.len() {
            self
        } else {
            HistoryModel { entries: self.entries, index: target }
        }
    }

    /// The entries behind the cursor, nearest first, each with its position.
    pub open spec fn back_entries(self) -> Seq<(int, Seq<char>)> {
        Seq::new(self.index as nat, |k: int| (self.index - 1 - k, self.entries[self.index - 1 - k]))
    }

    /// The entries ahead of the cursor, nearest first, each with its position.
    pub open spec fn forward_entries(self) -> Seq<(int, Seq<char>)> {
        Seq::new(
            (self.entries.len() - self.index - 1) as nat,
            |k: int| (self.index + 1 + k, self.entries[self.index + 1 + k]),
        )
    }
}

/// Back/forward navigation history of one explorer tab. Every history holds
/// at least one folder and its cursor is on one of them (`current`,
/// `can_go_back` and `can_go_forward` state it as `self@.wf()`).
pub struct History {
    entries: Vec<String>,
    index: usize,
}

impl View for History {
    type V = HistoryModel;

    closed spec fn view(&self) -> HistoryModel {
        HistoryModel {
            entries: self.entries@.map_values(|s: String| s@),
            index: self.index as int,
        }
    }
}

impl History {
    #[verifier::type_invariant]
    spec fn inv(self) -> bool {
        self.index < self.entries.len()
    }

    /// A history holding only the starting folder.
    pub fn new(start: String) -> (h: History)
        ensures
            h@.entries == seq![start@],
            h@.index == 0,
            h@.wf(),
    {
        let mut entries = Vec::new();
        entries.push(start);
        let h = History { entries, index: 0 };
        assert(h@.entries =~= seq![h.entries@[0]@]);
        h
    }

    /// The folder being shown.
    pub fn current(&self) -> (p: &String)
        ensures
            p@ == self@.current(),
            self@.wf(),
    {
        proof {
            use_type_invariant(self);
        }
        &self.entries[self.index]
    }

    /// Whether there is an earlier folder to go back to.
    pub fn can_go_back(&self) -> (b: bool)
        ensures
            b == self@.can_go_back(),
            self@.wf(),
    {
        proof {
            use_type_invariant(self);
        }
        self.index > 0
    }

    /// Whether there is a later folder to go forward to.
    pub fn can_go_forward(&self) -> (b: bool)
        ensures
            b == self@.can_go_forward(),
            self@.wf(),
    {
        proof {
            use_type_invariant(self);
        }
        self.index + 1 < self.entries.len()
    }

    /// Visits a folder: the later folders are dropped and it becomes the
    /// current one, unless it already is.
    pub fn navigate(&mut self, path: String) -> (changed: bool)
        ensures
            final(self)@ == old(self)@.navigate(path@),
            changed == !same_path(path@, old(self)@.current()),
            final(self)@.wf(),
    {
        proof {
            use_type_invariant(&*self);
        }
        if is_same_path(path.as_str(), self.current().as_str()) {
            return false;
        }
        let ghost old_view = self@;
        let keep = self.index + 1;
        let mut kept: Vec<String> = Vec::new();
        let mut i: usize = 0;
        while i < keep
            invariant
                self.index < self.entries.len(),
                keep == self.index + 1,
                self@ == old_view,
                i <= keep,
                kept@.len() == i,
                forall|k: int| 0 <= k < i ==> kept@[k]@ == self.entries@[k]@,
            decreases keep - i,
        {
            kept.push(self.entries[i].clone());
            i = i + 1;
        }
        kept.push(path);
        let new_index = kept.len() - 1;
        self.entries = kept;
        self.index = new_index;
        proof {
            assert(self@.entries =~= old_view.entries.take(old_view.index + 1).push(path@));
        }
        true
    }

    /// Steps back one folder, if there is one.
    pub fn back(&mut self) -> (moved: bool)
        ensures
            final(self)@ == old(self)@.back(),
            moved == old(self)@.can_go_back(),
            final(self)@.wf(),
    {
        proof {
            use_type_invariant(&*self);
        }
        if self.can_go_back() {
            self.index = self.index - 1;
            true
        } else {
            false
        }
    }

    /// Steps forward one folder, if there is one.
    pub fn forward(&mut self) -> (moved: bool)
        ensures
            final(self)@ == old(self)@.forward(),
            moved == old(self)@.can_go_forward(),
            final(self)@.wf(),
    {
        proof {
            use_type_invariant(&*self);
        }
        if self.can_go_forward() {
            self.index = self.index + 1;
            true
        } else {
            false
        }
    }

    /// The earlier folders with their positions, nearest first.
    pub fn back_entries(&self) -> (v: Vec<(usize, String)>)
        ensures
            v@.len() == self@.back_entries().len(),
            forall|k: int|
                0 <= k < v@.len() ==> v@[k].0 as int == self@.back_entries()[k].0
                    && v@[k].1@ == self@.back_entries()[k].1,
    {
        proof {
            use_type_invariant(self);
        }
        let mut v: Vec<(usize, String)> = Vec::new();
        let mut ix = self.index;
        while ix > 0
            invariant
                self.index < self.entries.len(),
                ix <= self.index,
                v@.len() == self.index - ix,
                forall|k: int|
                    0 <= k < v@.len() ==> v@[k].0 as int == self.index - 1 - k
                        && v@[k].1@ == self.entries@[self.index - 1 - k]@,
            decreases ix,
        {
            ix = ix - 1;
            v.push((ix, self.entries[ix].clone()));
        }
        v
    }

    /// The later folders with their positions, nearest first.
    pub fn forward_entries(&self) -> (v: Vec<(usize, String)>)
        ensures
            v@.len() == self@.forward_entries().len(),
            forall|k: int|
                0 <= k < v@.len() ==> v@[k].0 as int == self@.forward_entries()[k].0
                    && v@[k].1@ == self@.forward_entries()[k].1,
    {
        proof {
            use_type_invariant(self);
        }
        let mut v: Vec<(usize, String)> = Vec::new();
        let mut ix = self.index + 1;
        while ix < self.entries.len()
            invariant
                self.index < self.entries.len(),
                self.index + 1 <= ix <= self.entries.len(),
                v@.len() == ix - self.index - 1,
                forall|k: int|
                    0 <= k < v@.len() ==> v@[k].0 as int == self.index + 1 + k
                        && v@[k].1@ == self.entries@[self.index + 1 + k]@,
            decreases self.entries.len() - ix,
        {
            v.push((ix, self.entries[ix].clone()));
            ix = ix + 1;
        }
        v
    }

    /// Makes the folder at a position the current one, if that position
    /// exists and is not already current.
    pub fn jump_to(&mut self, index: usize) -> (moved: bool)
        ensures
            final(self)@ == old(self)@.jump_to(index as int),
            moved == (index as int != old(self)@.index && (index as int) < old(self)@.entries.len()),
            final(self)@.wf(),
    {
        proof {
            use_type_invariant(&*self);
        }
        if index == self.index || index >= self.entries.len() {
            return false;
        }
        self.index = index;
        true
    }
}

/// Every history operation keeps the cursor on an existing entry.
pub proof fn lemma_history_ops_preserve_wf(m: HistoryModel, path: Seq<char>, target: int)
    requires
        m.wf(),
    ensures
        m.navigate(path).wf(),
        m.back().wf(),
        m.forward().wf(),
        m.jump_to(target).wf(),
{
}

/// Going back and then forward returns to the same state, and so does going
/// forward and then back.
pub proof fn lemma_back_forward_round_trip(m: HistoryModel)
    requires
        m.wf(),
    ensures
        m.can_go_back() ==> m.back().forward() == m,
        m.can_go_forward() ==> m.forward().back() == m,
{
}

/// Visiting a new directory makes it current, leaves nothing to go forward to,
/// and going back from it returns to the directory that was current before.
pub proof fn lemma_navigate_then_back(m: HistoryModel, path: Seq<char>)
    requires
        m.wf(),
        !same_path(path, m.current()),
    ensures
        m.navigate(path).current() == path,
        !m.navigate(path).can_go_forward(),
        m.navigate(path).can_go_back(),
        m.navigate(path).back().current() == m.current(),
{
    let n = m.navigate(path);
    assert(n.entries[m.index] == m.entries[m.index]);
}

/// Visiting the current directory again, however it is written, changes
/// nothing.
pub proof fn lemma_navigate_current_is_noop(m: HistoryModel, path: Seq<char>)
    requires
        m.wf(),
        same_path(path, m.current()),
    ensures
        m.navigate(path) == m,
{
}

/// In particular, visiting the current directory as it is written changes
/// nothing.
pub proof fn lemma_navigate_to_itself_is_noop(m: HistoryModel)
    requires
        m.wf(),
    ensures
        m.navigate(m.current()) == m,
{
    lemma_same_path_refl(m.current());
}

/// The entries behind the cursor, the current entry and the entries ahead of
/// it together account for the whole history.
pub proof fn lemma_entries_partition(m: HistoryModel)
    requires
        m.wf(),
    ensures
        m.back_entries().len() + 1 + m.forward_entries().len() == m.entries.len(),
{
}

/// Jumping to an existing position other than the current one makes that
/// entry current without changing the list of entries.
pub proof fn lemma_jump_to_existing(m: HistoryModel, target: int)
    requires
        m.wf(),
        0 <= target < m.entries.len(),
        target != m.index,
    ensures
        m.jump_to(target).current() == m.entries[target],
        m.jump_to(target).entries == m.entries,
{
}

} // verus!
