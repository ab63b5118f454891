//! Lifecycle states of a download task and their derivation from progress.

use vstd::prelude::*;

verus! {

/// Progress is measured in hundredths of a percent, so a finished download
/// sits exactly at this value.
pub const FULL_PROGRESS: u32 = 10000;

/// State of one download task.  `Queued` is the initial state; `Finished`
/// and `Failed` are terminal; `Paused` is never produced by the engine
/// itself, only by an outside actor.
#[derive(Clone, Copy, Debug, PartialEq, Eq, Structural)]
pub enum DownloadStatus {
    Queued,
    Running,
    Paused,
    Finished,
    Failed,
}

/// Status derived from a progress value alone: full means finished, any
/// visible progress means running, none means still queued.  This is a
/// heuristic over the tool's self-reported percentage, not a guarantee that
/// the transfer really completed.
pub open spec fn spec_status_for_progress(progress: u32) -> DownloadStatus {
    if progress == FULL_PROGRESS {
        DownloadStatus::Finished
    } else if progress > 0 {
        DownloadStatus::Running
    } else {
        DownloadStatus::Queued
    }
}

/// Executable twin of [`spec_status_for_progress`].
pub fn status_for_progress(progress: u32) -> (s: DownloadStatus)
    ensures
        s == spec_status_for_progress(progress),
{
    if progress == FULL_PROGRESS {
        DownloadStatus::Finished
    } else if progress > 0 {
        DownloadStatus::Running
    } else {
        DownloadStatus::Queued
    }
}

impl DownloadStatus {
    /// Human-readable label of the status.
    pub open spec fn spec_label(self) -> Seq<char> {
        match self {
            DownloadStatus::Queued => "Queued"@,
            DownloadStatus::Running => "Running "@,
            DownloadStatus::Paused => "Paused"@,
            DownloadStatus::Finished => "Finished"@,
            DownloadStatus::Failed => "Failed"@,
        }
    }

    /// Label shown for the status in a task table.
    pub fn label(self) -> (r: &'static str)
        ensures
            r@ == self.spec_label(),
    {
        match self {
            DownloadStatus::Queued => "Queued",
            DownloadStatus::Running => "Running ",
            DownloadStatus::Paused => "Paused",
            DownloadStatus::Finished => "Finished",
            DownloadStatus::Failed => "Failed",
        }
    }
}

} // verus!
