//! The computing core of a download job runner.
//!
//! The surrounding binary spawns the external tool twice per job: once to
//! resolve a file name for the source, once to run the download with a
//! progress template on its standard output.  Everything the runner
//! decides is here: the fresh task id, the slug of the resolved name, the
//! output path, and the task snapshot built from each progress line.  The
//! subprocess and stream plumbing stays outside the library.

use vstd::prelude::*;

use crate::bytes_util::append_bytes;
use crate::progress::{parse_progress_line, spec_parse_progress_line};
use crate::slug::{slugify, spec_slugify};
use crate::status::{spec_status_for_progress, status_for_progress};
use crate::task::{DownloadTask, TaskModel};

verus! {

/// Relies on rand::random: a fresh value of the standard distribution;
/// nothing can be promised of it.
pub assume_specification<T>[ rand::random::<T> ]() -> (r: T)
    where
        rand::distributions::Standard: rand::distributions::Distribution<T>,
;

/// The separator the slug of a resolved file name is built with.
pub const SLUG_SEPARATOR: u8 = 95;

/// The progress template handed to the external tool: one line per tick,
/// led by the sentinel, then percentage, total size, speed, the literal
/// `ETA` and the eta string.
pub fn progress_template() -> (r: &'static str)
    ensures
        r@ ==
        "[CUPCAKE] %(progress._percent_str)s %(progress._total_bytes_str)s %(progress._speed_str)s ETA %(progress._eta_str)s"@,
{
    "[CUPCAKE] %(progress._percent_str)s %(progress._total_bytes_str)s %(progress._speed_str)s ETA %(progress._eta_str)s"
}

/// Everything a job runner knows about its job before the first progress
/// line arrives.
pub struct JobSpec {
    /// The fresh id every snapshot of this job carries.
    pub id: u64,
    /// The slug of the resolved file name.
    pub title: Vec<u8>,
    /// The origin locator the job was submitted for.
    pub source_url: Vec<u8>,
    /// The directory the download is written into.
    pub destination_dir: Vec<u8>,
}

impl JobSpec {
    /// Prepare one job: draw a fresh id and normalize the resolved name.
    /// The id is random; two calls may or may not collide, and nothing
    /// here assumes otherwise.
    pub fn prepare(source_url: Vec<u8>, destination_dir: Vec<u8>, resolved_name: &[u8]) -> (j:
        JobSpec)
        ensures
            j.title@ == spec_slugify(resolved_name@, SLUG_SEPARATOR),
            j.source_url@ == source_url@,
            j.destination_dir@ == destination_dir@,
    {
        let id: u64 = rand::random::<u64>();
        JobSpec { id, title: slugify(resolved_name, SLUG_SEPARATOR), source_url, destination_dir }
    }

    /// The path the download is written to: the destination directory,
    /// a slash, and the title.
    pub open spec fn spec_output_path(&self) -> Seq<u8> {
        self.destination_dir@ + seq![('/' as u8)] + self.title@
    }

    /// Executable twin of [`JobSpec::spec_output_path`].
    pub fn output_path(&self) -> (r: Vec<u8>)
        ensures
            r@ == self.spec_output_path(),
    {
        let mut r: Vec<u8> = Vec::new();
        append_bytes(&mut r, self.destination_dir.as_slice());
        r.push('/' as u8);
        append_bytes(&mut r, self.title.as_slice());
        proof {
            assert(r@ =~= self.spec_output_path());
        }
        r
    }

    /// The model of the snapshot this job sends for a parsed update.
    pub open spec fn spec_snapshot(&self, progress_percent: u32, file_size: Seq<u8>, download_speed: Seq<u8>, estimated_time: Seq<u8>) -> TaskModel {
        TaskModel {
            id: self.id,
            title: self.title@,
            source_url: self.source_url@,
            destination_path: self.spec_output_path(),
            download_speed,
            file_size,
            progress_percent,
            estimated_time,
            status: spec_status_for_progress(progress_percent),
        }
    }

    /// Drive one line of tool output through the parser: a progress line
    /// becomes a full task snapshot carrying this job's id, with the
    /// status derived from the parsed percentage; any other line becomes
    /// nothing.
    pub fn runner_step(&self, line: &[u8]) -> (r: Option<DownloadTask>)
        ensures
            match spec_parse_progress_line(line@) {
                Some(u) => r is Some && r.unwrap()@ == self.spec_snapshot(
                    u.progress_percent,
                    u.file_size,
                    u.download_speed,
                    u.estimated_time,
                ),
                None => r is None,
            },
    {
        match parse_progress_line(line) {
            Some(u) => {
                let status = status_for_progress(u.progress_percent);
                let t = DownloadTask::snapshot(
                    self.id,
                    self.title.clone(),
                    self.source_url.clone(),
                    self.output_path(),
                    u.download_speed,
                    u.file_size,
                    u.progress_percent,
                    u.estimated_time,
                    status,
                );
                Some(t)
            },
            None => None,
        }
    }
}

} // verus!
