//! The disk usage view while its scan runs: what each poll of the scan
//! makes of the view's state.
use vstd::prelude::*;

use crate::disk_usage::DiskUsageTree;

verus! {

/// What polling a running disk usage scan found.
pub enum ScanEvent {
    /// The scan finished with this tree.
    Finished(DiskUsageTree),
    /// The scan ended without handing over a tree.
    Disconnected,
    /// The scan is still running.
    Pending,
}

/// Where the disk usage view's scan stands.
pub enum ScanState {
    /// Still scanning, with the counts so far.
    Scanning { files_scanned: u64, bytes_scanned: u64 },
    /// Done: the tree to browse.
    Ready { tree: DiskUsageTree },
    /// The scan failed, with the message shown.
    Failed { error: String },
}

pub open spec fn scan_stopped_message() -> Seq<char> {
    "The scan stopped unexpectedly."@
}

/// The state after one poll of a running scan: the tree once it is
/// finished, a failure when the scan ended without one, and otherwise the
/// progress counters read at this poll. Polling goes on while the state is
/// `Scanning`.
pub fn scan_progress_step(event: ScanEvent, files_scanned: u64, bytes_scanned: u64) -> (s: ScanState)
    ensures
        match event {
            ScanEvent::Finished(t) => s == (ScanState::Ready { tree: t }),
            ScanEvent::Disconnected => s matches ScanState::Failed { error } && error@
                == scan_stopped_message(),
            ScanEvent::Pending => s == (ScanState::Scanning { files_scanned, bytes_scanned }),
        },
{
    match event {
        ScanEvent::Finished(tree) => ScanState::Ready { tree },
        ScanEvent::Disconnected => {
            let error = String::from_str("The scan stopped unexpectedly.");
            proof {
                reveal_strlit("The scan stopped unexpectedly.");
            }
            ScanState::Failed { error }
        },
        ScanEvent::Pending => ScanState::Scanning { files_scanned, bytes_scanned },
    }
}

} // verus!
