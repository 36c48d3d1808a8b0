//! Totals over the files under a selection.
use vstd::prelude::*;

verus! {

/// How many files there are under a selection, their total size and how
/// much disk they take.
#[derive(Clone, Copy, Debug, PartialEq, Eq, Structural)]
pub struct DirStats {
    pub file_count: u64,
    pub total_size: u64,
    pub size_on_disk: u64,
}

impl DirStats {
    /// No files.
    pub fn new() -> (s: DirStats)
        ensures
            s.file_count == 0,
            s.total_size == 0,
            s.size_on_disk == 0,
    {
        DirStats { file_count: 0, total_size: 0, size_on_disk: 0 }
    }

    /// Adds `other`'s totals to these.
    pub fn merge(&mut self, other: DirStats)
        requires
            old(self).file_count + other.file_count <= u64::MAX,
            old(self).total_size + other.total_size <= u64::MAX,
            old(self).size_on_disk + other.size_on_disk <= u64::MAX,
        ensures
            final(self).file_count == old(self).file_count + other.file_count,
            final(self).total_size == old(self).total_size + other.total_size,
            final(self).size_on_disk == old(self).size_on_disk + other.size_on_disk,
    {
        self.file_count = self.file_count + other.file_count;
        self.total_size = self.total_size + other.total_size;
        self.size_on_disk = self.size_on_disk + other.size_on_disk;
    }

    /// Counts one file of `len` bytes taking `blocks` blocks of 512 bytes.
    pub fn add_file(&mut self, len: u64, blocks: u64)
        requires
            old(self).file_count + 1 <= u64::MAX,
            old(self).total_size + len <= u64::MAX,
            old(self).size_on_disk + blocks * 512 <= u64::MAX,
        ensures
            final(self).file_count == old(self).file_count + 1,
            final(self).total_size == old(self).total_size + len,
            final(self).size_on_disk == old(self).size_on_disk + blocks * 512,
    {
        self.file_count = self.file_count + 1;
        self.total_size = self.total_size + len;
        self.size_on_disk = self.size_on_disk + blocks * 512;
    }
}

} // verus!
