//! The columns of the file list and of the disk usage list: which are
//! shown, and how a click on a header changes the sort.
use vstd::prelude::*;

verus! {

/// An optional column of the file list.
#[derive(Clone, Copy, PartialEq, Eq, Debug, Structural)]
pub enum Column {
    Type,
    Size,
    Modified,
}

/// What the file list is sorted by.
#[derive(Clone, Copy, PartialEq, Eq, Debug, Structural)]
pub enum SortColumn {
    Name,
    Type,
    Size,
    Modified,
}

/// Which way a list is sorted.
#[derive(Clone, Copy, PartialEq, Eq, Debug, Structural)]
pub enum SortDirection {
    Ascending,
    Descending,
}

/// What the disk usage list is sorted by.
#[derive(Clone, Copy, PartialEq, Eq, Debug, Structural)]
pub enum DiskUsageSortColumn {
    Name,
    Size,
    Contents,
    Modified,
}

/// A resizable column of the disk usage list.
#[derive(Clone, Copy, PartialEq, Eq, Debug, Structural)]
pub enum DiskUsageColumn {
    Size,
    Contents,
    Modified,
}

/// A scrollbar that can be dragged.
#[derive(Clone, Copy, PartialEq, Eq, Debug, Structural)]
pub enum ScrollbarId {
    FileList,
    Sidebar,
    DiskUsageTree,
}

/// Which optional columns of the file list are shown.
#[derive(Clone, Copy, PartialEq, Eq, Debug, Structural)]
pub struct ColumnVisibility {
    pub type_: bool,
    pub size: bool,
    pub modified: bool,
}

impl Default for ColumnVisibility {
    /// Every column shown.
    fn default() -> (v: Self)
        ensures
            v.type_ && v.size && v.modified,
    {
        ColumnVisibility { type_: true, size: true, modified: true }
    }
}

impl ColumnVisibility {
    pub open spec fn spec_get(self, column: Column) -> bool {
        match column {
            Column::Type => self.type_,
            Column::Size => self.size,
            Column::Modified => self.modified,
        }
    }

    /// Whether `column` is shown.
    pub fn get(&self, column: Column) -> (b: bool)
        ensures
            b == self.spec_get(column),
    {
        match column {
            Column::Type => self.type_,
            Column::Size => self.size,
            Column::Modified => self.modified,
        }
    }

    /// Shows `column` if it was hidden, hides it if it was shown; the other
    /// columns stay as they were.
    pub fn toggle(&mut self, column: Column)
        ensures
            final(self).spec_get(column) == !old(self).spec_get(column),
            forall|c: Column| c != column ==> final(self).spec_get(c) == old(self).spec_get(c),
    {
        match column {
            Column::Type => self.type_ = !self.type_,
            Column::Size => self.size = !self.size,
            Column::Modified => self.modified = !self.modified,
        }
    }
}

pub open spec fn spec_flip(d: SortDirection) -> SortDirection {
    match d {
        SortDirection::Ascending => SortDirection::Descending,
        SortDirection::Descending => SortDirection::Ascending,
    }
}

/// The sort after a click on a header: the same column flips the
/// direction, another column sorts by it ascending.
pub fn next_sort(current: SortColumn, direction: SortDirection, clicked: SortColumn) -> (r: (
    SortColumn,
    SortDirection,
))
    ensures
        current == clicked ==> r == (current, spec_flip(direction)),
        current != clicked ==> r == (clicked, SortDirection::Ascending),
{
    if current == clicked {
        (
            current,
            match direction {
                SortDirection::Ascending => SortDirection::Descending,
                SortDirection::Descending => SortDirection::Ascending,
            },
        )
    } else {
        (clicked, SortDirection::Ascending)
    }
}

/// The sort of the disk usage list after a click on a header (as
/// `next_sort`).
pub fn next_disk_usage_sort(
    current: DiskUsageSortColumn,
    direction: SortDirection,
    clicked: DiskUsageSortColumn,
) -> (r: (DiskUsageSortColumn, SortDirection))
    ensures
        current == clicked ==> r == (current, spec_flip(direction)),
        current != clicked ==> r == (clicked, SortDirection::Ascending),
{
    if current == clicked {
        (
            current,
            match direction {
                SortDirection::Ascending => SortDirection::Descending,
                SortDirection::Descending => SortDirection::Ascending,
            },
        )
    } else {
        (clicked, SortDirection::Ascending)
    }
}

/// Clicking the same header twice restores the sort.
pub proof fn lemma_same_header_twice(d: SortDirection)
    ensures
        spec_flip(spec_flip(d)) == d,
{
}

} // verus!
