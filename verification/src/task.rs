//! One download task: the record the registry stores and the job runners
//! patch through upsert messages.

use vstd::prelude::*;

use crate::status::{DownloadStatus, FULL_PROGRESS};

verus! {

/// Mathematical model of a task: every byte-string field as a sequence.
#[verifier::ext_equal]
pub ghost struct TaskModel {
    pub id: u64,
    pub title: Seq<u8>,
    pub source_url: Seq<u8>,
    pub destination_path: Seq<u8>,
    pub download_speed: Seq<u8>,
    pub file_size: Seq<u8>,
    pub progress_percent: u32,
    pub estimated_time: Seq<u8>,
    pub status: DownloadStatus,
}

/// A task's progress stays within the reportable range.
pub open spec fn task_model_wf(t: TaskModel) -> bool {
    t.progress_percent <= FULL_PROGRESS
}

/// The patch a progress update applies to a stored task: only the volatile
/// fields move; identity, title, source, destination and size are kept.
pub open spec fn patch_model(t: TaskModel, u: TaskModel) -> TaskModel {
    TaskModel {
        download_speed: u.download_speed,
        progress_percent: u.progress_percent,
        estimated_time: u.estimated_time,
        status: u.status,
        ..t
    }
}

/// One download job.  `progress_percent` counts hundredths of a percent, so
/// a complete download reads [`FULL_PROGRESS`].
#[derive(Debug)]
pub struct DownloadTask {
    pub id: u64,
    pub title: Vec<u8>,
    pub source_url: Vec<u8>,
    pub destination_path: Vec<u8>,
    pub download_speed: Vec<u8>,
    pub file_size: Vec<u8>,
    pub progress_percent: u32,
    pub estimated_time: Vec<u8>,
    pub status: DownloadStatus,
}

impl View for DownloadTask {
    type V = TaskModel;

    open spec fn view(&self) -> TaskModel {
        TaskModel {
            id: self.id,
            title: self.title@,
            source_url: self.source_url@,
            destination_path: self.destination_path@,
            download_speed: self.download_speed@,
            file_size: self.file_size@,
            progress_percent: self.progress_percent,
            estimated_time: self.estimated_time@,
            status: self.status,
        }
    }
}

impl Clone for DownloadTask {
    /// A copy of the task, equal to the original in every field.
    fn clone(&self) -> (r: Self)
        ensures
            r@ == self@,
    {
        let r = DownloadTask {
            id: self.id,
            title: self.title.clone(),
            source_url: self.source_url.clone(),
            destination_path: self.destination_path.clone(),
            download_speed: self.download_speed.clone(),
            file_size: self.file_size.clone(),
            progress_percent: self.progress_percent,
            estimated_time: self.estimated_time.clone(),
            status: self.status,
        };
        assert(r@ =~= self@);
        r
    }
}

impl DownloadTask {
    /// A freshly submitted job: no progress yet, status `Queued`, the
    /// volatile display strings still empty.
    pub fn new(
        id: u64,
        title: Vec<u8>,
        source_url: Vec<u8>,
        destination_path: Vec<u8>,
    ) -> (t: DownloadTask)
        ensures
            t@ == (TaskModel {
                id,
                title: title@,
                source_url: source_url@,
                destination_path: destination_path@,
                download_speed: Seq::<u8>::empty(),
                file_size: Seq::<u8>::empty(),
                progress_percent: 0u32,
                estimated_time: Seq::<u8>::empty(),
                status: DownloadStatus::Queued,
            }),
            task_model_wf(t@),
    {
        let t = DownloadTask {
            id,
            title,
            source_url,
            destination_path,
            download_speed: Vec::new(),
            file_size: Vec::new(),
            progress_percent: 0,
            estimated_time: Vec::new(),
            status: DownloadStatus::Queued,
        };
        assert(t@ =~= (TaskModel {
            id,
            title: title@,
            source_url: source_url@,
            destination_path: destination_path@,
            download_speed: Seq::<u8>::empty(),
            file_size: Seq::<u8>::empty(),
            progress_percent: 0u32,
            estimated_time: Seq::<u8>::empty(),
            status: DownloadStatus::Queued,
        }));
        t
    }

    /// A task snapshot with every field given, as a job runner builds one
    /// from a parsed progress line.
    pub fn snapshot(
        id: u64,
        title: Vec<u8>,
        source_url: Vec<u8>,
        destination_path: Vec<u8>,
        download_speed: Vec<u8>,
        file_size: Vec<u8>,
        progress_percent: u32,
        estimated_time: Vec<u8>,
        status: DownloadStatus,
    ) -> (t: DownloadTask)
        requires
            progress_percent <= FULL_PROGRESS,
        ensures
            t@ == (TaskModel {
                id,
                title: title@,
                source_url: source_url@,
                destination_path: destination_path@,
                download_speed: download_speed@,
                file_size: file_size@,
                progress_percent,
                estimated_time: estimated_time@,
                status,
            }),
            task_model_wf(t@),
    {
        DownloadTask {
            id,
            title,
            source_url,
            destination_path,
            download_speed,
            file_size,
            progress_percent,
            estimated_time,
            status,
        }
    }

    /// The stable identifier the registry joins on.
    pub fn id(&self) -> (r: u64)
        ensures
            r == self@.id,
    {
        self.id
    }

    /// Apply a progress patch in place: volatile fields from `u`, identity
    /// and immutable fields kept.
    pub(crate) fn update(&mut self, u: &DownloadTask)
        ensures
            final(self)@ == patch_model(old(self)@, u@),
    {
        self.download_speed = u.download_speed.clone();
        self.progress_percent = u.progress_percent;
        self.estimated_time = u.estimated_time.clone();
        self.status = u.status;
        assert(self@ =~= patch_model(old(self)@, u@));
    }
}

} // verus!
