//! Persistence codec for the three download queues.
//!
//! The registry is written as a flat byte record: for each queue, a task
//! count, then each task in insertion order; a task is its id, six
//! length-prefixed byte strings, its progress and a status tag.  Counts,
//! lengths, ids and progress are little-endian.  Transient view state
//! (the filtered rows, the cursor) is not persisted; loading re-derives an
//! unfiltered view.  Decoding checks the registry invariant and treats a
//! record that breaks it like any other unreadable record.

use vstd::bytes::{
    lemma_auto_spec_u32_to_from_le_bytes, lemma_auto_spec_u64_to_from_le_bytes,
    spec_u32_from_le_bytes, spec_u32_to_le_bytes, spec_u64_from_le_bytes, spec_u64_to_le_bytes,
    u32_from_le_bytes, u32_to_le_bytes, u64_from_le_bytes, u64_to_le_bytes,
};
use vstd::prelude::*;
use vstd::slice::slice_subrange;

use crate::bytes_util::{append_bytes, copy_range};
use crate::manager::{
    all_tasks_wf, models_of, unique_ids, DownloadManager, Downloader,
};
use crate::status::{DownloadStatus, FULL_PROGRESS};
use crate::task::{task_model_wf, DownloadTask, TaskModel};

verus! {

/// Model of a persisted store: the three authoritative task lists.
pub ghost struct StoreModel {
    pub single: Seq<TaskModel>,
    pub batch: Seq<TaskModel>,
    pub playlist: Seq<TaskModel>,
}

/// The authoritative contents of a downloader, as a store model.
pub open spec fn store_view(d: &Downloader) -> StoreModel {
    StoreModel {
        single: d.single.downloads_view(),
        batch: d.batch.downloads_view(),
        playlist: d.playlist.downloads_view(),
    }
}

/// Each queue of the store respects the registry invariant.
pub open spec fn store_model_wf(m: StoreModel) -> bool {
    &&& unique_ids(m.single) && all_tasks_wf(m.single)
    &&& unique_ids(m.batch) && all_tasks_wf(m.batch)
    &&& unique_ids(m.playlist) && all_tasks_wf(m.playlist)
}

/// Every encoded length fits its length prefix.
pub open spec fn task_sizes_fit(t: TaskModel) -> bool {
    &&& t.title.len() <= u64::MAX
    &&& t.source_url.len() <= u64::MAX
    &&& t.destination_path.len() <= u64::MAX
    &&& t.download_speed.len() <= u64::MAX
    &&& t.file_size.len() <= u64::MAX
    &&& t.estimated_time.len() <= u64::MAX
}

pub open spec fn tasks_sizes_fit(ts: Seq<TaskModel>) -> bool {
    ts.len() <= u64::MAX && forall|i: int|
        0 <= i < ts.len() ==> task_sizes_fit(#[trigger] ts[i])
}

pub open spec fn store_sizes_fit(m: StoreModel) -> bool {
    tasks_sizes_fit(m.single) && tasks_sizes_fit(m.batch) && tasks_sizes_fit(m.playlist)
}

// --- Encoding ----------------------------------------------------------

/// Tag under which a status is persisted.
pub open spec fn status_tag(s: DownloadStatus) -> u8 {
    match s {
        DownloadStatus::Queued => 0,
        DownloadStatus::Running => 1,
        DownloadStatus::Paused => 2,
        DownloadStatus::Finished => 3,
        DownloadStatus::Failed => 4,
    }
}

/// A byte string, length-prefixed.
pub open spec fn enc_bytes(b: Seq<u8>) -> Seq<u8> {
    spec_u64_to_le_bytes(b.len() as u64) + b
}

/// One task record.
pub open spec fn enc_task(t: TaskModel) -> Seq<u8> {
    spec_u64_to_le_bytes(t.id) + enc_bytes(t.title) + enc_bytes(t.source_url) + enc_bytes(
        t.destination_path,
    ) + enc_bytes(t.download_speed) + enc_bytes(t.file_size) + enc_bytes(t.estimated_time)
        + spec_u32_to_le_bytes(t.progress_percent) + seq![status_tag(t.status)]
}

/// The task records of a list, in order.
pub open spec fn enc_tasks_body(ts: Seq<TaskModel>) -> Seq<u8>
    decreases ts.len(),
{
    if ts.len() == 0 {
        seq![]
    } else {
        enc_task(ts[0]) + enc_tasks_body(ts.drop_first())
    }
}

/// A task list: its count, then its records.
pub open spec fn enc_task_list(ts: Seq<TaskModel>) -> Seq<u8> {
    spec_u64_to_le_bytes(ts.len() as u64) + enc_tasks_body(ts)
}

/// The whole store: the three queues in a fixed order.
pub open spec fn enc_store(m: StoreModel) -> Seq<u8> {
    enc_task_list(m.single) + enc_task_list(m.batch) + enc_task_list(m.playlist)
}

/// Appending a task to a list appends its record to the body.
proof fn lemma_enc_tasks_body_push(ts: Seq<TaskModel>, t: TaskModel)
    ensures
        enc_tasks_body(ts.push(t)) == enc_tasks_body(ts) + enc_task(t),
    decreases ts.len(),
{
    if ts.len() == 0 {
        let s1 = ts.push(t);
        assert(s1[0] == t);
        assert(s1.drop_first() =~= Seq::<TaskModel>::empty());
        assert(s1.drop_first().len() == 0);
        assert(enc_tasks_body(s1.drop_first()) == Seq::<u8>::empty());
        assert(enc_tasks_body(s1) == enc_task(t) + enc_tasks_body(s1.drop_first()));
        assert(enc_task(t) + Seq::<u8>::empty() =~= enc_task(t));
        assert(enc_tasks_body(ts) == Seq::<u8>::empty());
        assert(enc_tasks_body(ts) + enc_task(t) =~= enc_task(t));
    } else {
        assert(ts.push(t)[0] == ts[0]);
        assert(ts.push(t).drop_first() =~= ts.drop_first().push(t));
        lemma_enc_tasks_body_push(ts.drop_first(), t);
        assert(enc_task(ts[0]) + (enc_tasks_body(ts.drop_first()) + enc_task(t)) =~= (enc_task(
            ts[0],
        ) + enc_tasks_body(ts.drop_first())) + enc_task(t));
    }
}

// --- Decoding ----------------------------------------------------------

/// A little-endian count or id, then the rest.
pub open spec fn dec_u64(s: Seq<u8>) -> Option<(u64, Seq<u8>)> {
    if s.len() >= 8 {
        Some((spec_u64_from_le_bytes(s.take(8)), s.skip(8)))
    } else {
        None
    }
}

/// A little-endian progress value, then the rest.
pub open spec fn dec_u32(s: Seq<u8>) -> Option<(u32, Seq<u8>)> {
    if s.len() >= 4 {
        Some((spec_u32_from_le_bytes(s.take(4)), s.skip(4)))
    } else {
        None
    }
}

/// One byte, then the rest.
pub open spec fn dec_byte(s: Seq<u8>) -> Option<(u8, Seq<u8>)> {
    if s.len() >= 1 {
        Some((s[0], s.skip(1)))
    } else {
        None
    }
}

/// A length-prefixed byte string, then the rest.
pub open spec fn dec_bytes(s: Seq<u8>) -> Option<(Seq<u8>, Seq<u8>)> {
    match dec_u64(s) {
        Option::None => None,
        Option::Some((n, r)) => if n <= r.len() {
            Some((r.take(n as int), r.skip(n as int)))
        } else {
            None
        },
    }
}

/// The status a tag stands for; an unknown tag fails the record.
pub open spec fn parse_status_tag(b: u8) -> Option<DownloadStatus> {
    if b == 0 {
        Some(DownloadStatus::Queued)
    } else if b == 1 {
        Some(DownloadStatus::Running)
    } else if b == 2 {
        Some(DownloadStatus::Paused)
    } else if b == 3 {
        Some(DownloadStatus::Finished)
    } else if b == 4 {
        Some(DownloadStatus::Failed)
    } else {
        None
    }
}

/// One task record, then the rest.
pub open spec fn dec_task(s: Seq<u8>) -> Option<(TaskModel, Seq<u8>)> {
    match dec_u64(s) {
        Option::None => None,
        Option::Some((id, r)) => match dec_bytes(r) {
            Option::None => None,
            Option::Some((title, r)) => match dec_bytes(r) {
                Option::None => None,
                Option::Some((source_url, r)) => match dec_bytes(r) {
                    Option::None => None,
                    Option::Some((destination_path, r)) => match dec_bytes(r) {
                        Option::None => None,
                        Option::Some((download_speed, r)) => match dec_bytes(r) {
                            Option::None => None,
                            Option::Some((file_size, r)) => match dec_bytes(r) {
                                Option::None => None,
                                Option::Some((estimated_time, r)) => match dec_u32(r) {
                                    Option::None => None,
                                    Option::Some((progress_percent, r)) => match dec_byte(r) {
                                        Option::None => None,
                                        Option::Some((tag, r)) => match parse_status_tag(tag) {
                                            Option::None => None,
                                            Option::Some(status) => Some(
                                                (
                                                    TaskModel {
                                                        id,
                                                        title,
                                                        source_url,
                                                        destination_path,
                                                        download_speed,
                                                        file_size,
                                                        progress_percent,
                                                        estimated_time,
                                                        status,
                                                    },
                                                    r,
                                                ),
                                            ),
                                        },
                                    },
                                },
                            },
                        },
                    },
                },
            },
        },
    }
}

/// Exactly `n` task records, then the rest.
pub open spec fn dec_tasks(s: Seq<u8>, n: nat) -> Option<(Seq<TaskModel>, Seq<u8>)>
    decreases n,
{
    if n == 0 {
        Some((seq![], s))
    } else {
        match dec_task(s) {
            Option::None => None,
            Option::Some((t, r)) => match dec_tasks(r, (n - 1) as nat) {
                Option::None => None,
                Option::Some((ts, r2)) => Some((seq![t] + ts, r2)),
            },
        }
    }
}

/// A counted task list, then the rest.
pub open spec fn dec_task_list(s: Seq<u8>) -> Option<(Seq<TaskModel>, Seq<u8>)> {
    match dec_u64(s) {
        Option::None => None,
        Option::Some((n, r)) => dec_tasks(r, n as nat),
    }
}

/// The whole store; trailing bytes fail the record.
pub open spec fn dec_store(s: Seq<u8>) -> Option<StoreModel> {
    match dec_task_list(s) {
        Option::None => None,
        Option::Some((single, r)) => match dec_task_list(r) {
            Option::None => None,
            Option::Some((batch, r)) => match dec_task_list(r) {
                Option::None => None,
                Option::Some((playlist, r)) => if r.len() == 0 {
                    Some(StoreModel { single, batch, playlist })
                } else {
                    None
                },
            },
        },
    }
}

// --- Round trip --------------------------------------------------------

proof fn lemma_dec_u64(x: u64, rest: Seq<u8>)
    ensures
        dec_u64(spec_u64_to_le_bytes(x) + rest) == Some((x, rest)),
{
    lemma_auto_spec_u64_to_from_le_bytes();
    let s = spec_u64_to_le_bytes(x) + rest;
    assert(s.take(8) =~= spec_u64_to_le_bytes(x));
    assert(s.skip(8) =~= rest);
}

proof fn lemma_dec_u32(x: u32, rest: Seq<u8>)
    ensures
        dec_u32(spec_u32_to_le_bytes(x) + rest) == Some((x, rest)),
{
    lemma_auto_spec_u32_to_from_le_bytes();
    let s = spec_u32_to_le_bytes(x) + rest;
    assert(s.take(4) =~= spec_u32_to_le_bytes(x));
    assert(s.skip(4) =~= rest);
}

proof fn lemma_dec_bytes(b: Seq<u8>, rest: Seq<u8>)
    requires
        b.len() <= u64::MAX,
    ensures
        dec_bytes(enc_bytes(b) + rest) == Some((b, rest)),
{
    let s = enc_bytes(b) + rest;
    assert(s =~= spec_u64_to_le_bytes(b.len() as u64) + (b + rest));
    lemma_dec_u64(b.len() as u64, b + rest);
    assert((b + rest).take(b.len() as int) =~= b);
    assert((b + rest).skip(b.len() as int) =~= rest);
}

/// A status tag reads back as the status it was written for.
proof fn lemma_status_tag(st: DownloadStatus)
    ensures
        parse_status_tag(status_tag(st)) == Some(st),
{
}

#[verifier::rlimit(100)]
proof fn lemma_dec_task(t: TaskModel, rest: Seq<u8>)
    requires
        task_sizes_fit(t),
    ensures
        dec_task(enc_task(t) + rest) == Some((t, rest)),
{
    let t8 = seq![status_tag(t.status)] + rest;
    let t7 = spec_u32_to_le_bytes(t.progress_percent) + t8;
    let t6 = enc_bytes(t.estimated_time) + t7;
    let t5 = enc_bytes(t.file_size) + t6;
    let t4 = enc_bytes(t.download_speed) + t5;
    let t3 = enc_bytes(t.destination_path) + t4;
    let t2 = enc_bytes(t.source_url) + t3;
    let t1 = enc_bytes(t.title) + t2;
    assert(enc_task(t) + rest =~= spec_u64_to_le_bytes(t.id) + t1);
    lemma_dec_u64(t.id, t1);
    lemma_dec_bytes(t.title, t2);
    lemma_dec_bytes(t.source_url, t3);
    lemma_dec_bytes(t.destination_path, t4);
    lemma_dec_bytes(t.download_speed, t5);
    lemma_dec_bytes(t.file_size, t6);
    lemma_dec_bytes(t.estimated_time, t7);
    lemma_dec_u32(t.progress_percent, t8);
    assert(t8.len() >= 1);
    assert(t8[0] == status_tag(t.status));
    assert(t8.skip(1) =~= rest);
    lemma_status_tag(t.status);
}

#[verifier::rlimit(100)]
#[verifier::spinoff_prover]
proof fn lemma_dec_tasks(ts: Seq<TaskModel>, rest: Seq<u8>)
    requires
        forall|i: int| 0 <= i < ts.len() ==> task_sizes_fit(#[trigger] ts[i]),
    ensures
        dec_tasks(enc_tasks_body(ts) + rest, ts.len()) == Some((ts, rest)),
    decreases ts.len(),
{
    if ts.len() == 0 {
        assert(enc_tasks_body(ts) + rest =~= rest);
        assert(dec_tasks(rest, 0) == Some((Seq::<TaskModel>::empty(), rest)));
        assert(ts =~= Seq::<TaskModel>::empty());
    } else {
        let s = enc_tasks_body(ts) + rest;
        assert(s =~= enc_task(ts[0]) + (enc_tasks_body(ts.drop_first()) + rest));
        lemma_dec_task(ts[0], enc_tasks_body(ts.drop_first()) + rest);
        lemma_dec_tasks(ts.drop_first(), rest);
        assert(seq![ts[0]] + ts.drop_first() =~= ts);
    }
}

proof fn lemma_dec_task_list(ts: Seq<TaskModel>, rest: Seq<u8>)
    requires
        tasks_sizes_fit(ts),
    ensures
        dec_task_list(enc_task_list(ts) + rest) == Some((ts, rest)),
{
    let s = enc_task_list(ts) + rest;
    assert(s =~= spec_u64_to_le_bytes(ts.len() as u64) + (enc_tasks_body(ts) + rest));
    lemma_dec_u64(ts.len() as u64, enc_tasks_body(ts) + rest);
    lemma_dec_tasks(ts, rest);
}

/// Decoding an encoded store gives back exactly the store that was
/// written: the round trip is the identity on the authoritative registry.
pub proof fn lemma_store_round_trip(m: StoreModel)
    requires
        store_sizes_fit(m),
    ensures
        dec_store(enc_store(m)) == Some(m),
{
    let s = enc_store(m);
    assert(s =~= enc_task_list(m.single) + (enc_task_list(m.batch) + (enc_task_list(m.playlist)
        + Seq::<u8>::empty())));
    lemma_dec_task_list(m.single, enc_task_list(m.batch) + (enc_task_list(m.playlist)
        + Seq::<u8>::empty()));
    lemma_dec_task_list(m.batch, enc_task_list(m.playlist) + Seq::<u8>::empty());
    assert(enc_task_list(m.playlist) + Seq::<u8>::empty() =~= enc_task_list(m.playlist)
        + Seq::<u8>::empty());
    lemma_dec_task_list(m.playlist, Seq::<u8>::empty());
    assert(enc_task_list(m.playlist) =~= enc_task_list(m.playlist) + Seq::<u8>::empty());
}

// --- Executable encoding -----------------------------------------------

/// Append one encoded task.
fn write_task(out: &mut Vec<u8>, t: &DownloadTask)
    ensures
        final(out)@ == old(out)@ + enc_task(t@),
        task_sizes_fit(t@),
{
    let id_bytes = u64_to_le_bytes(t.id);
    append_bytes(out, id_bytes.as_slice());
    write_bytes(out, &t.title);
    write_bytes(out, &t.source_url);
    write_bytes(out, &t.destination_path);
    write_bytes(out, &t.download_speed);
    write_bytes(out, &t.file_size);
    write_bytes(out, &t.estimated_time);
    let p_bytes = u32_to_le_bytes(t.progress_percent);
    append_bytes(out, p_bytes.as_slice());
    let tag: u8 = match t.status {
        DownloadStatus::Queued => 0,
        DownloadStatus::Running => 1,
        DownloadStatus::Paused => 2,
        DownloadStatus::Finished => 3,
        DownloadStatus::Failed => 4,
    };
    out.push(tag);
    proof {
        assert(final(out)@ =~= old(out)@ + enc_task(t@));
    }
}

/// Append one length-prefixed byte string.
fn write_bytes(out: &mut Vec<u8>, b: &Vec<u8>)
    ensures
        final(out)@ == old(out)@ + enc_bytes(b@),
        b@.len() <= u64::MAX,
{
    let len_bytes = u64_to_le_bytes(b.len() as u64);
    append_bytes(out, len_bytes.as_slice());
    append_bytes(out, b.as_slice());
    proof {
        assert(final(out)@ =~= old(out)@ + enc_bytes(b@));
    }
}

/// Append one encoded task list.
fn write_task_list(out: &mut Vec<u8>, ts: &Vec<DownloadTask>)
    ensures
        final(out)@ == old(out)@ + enc_task_list(models_of(ts@)),
        tasks_sizes_fit(models_of(ts@)),
{
    let count_bytes = u64_to_le_bytes(ts.len() as u64);
    append_bytes(out, count_bytes.as_slice());
    let n = ts.len();
    let mut i: usize = 0;
    proof {
        assert(enc_tasks_body(models_of(ts@).take(0)) =~= Seq::<u8>::empty());
        assert(out@ =~= old(out)@ + spec_u64_to_le_bytes(n as u64) + enc_tasks_body(
            models_of(ts@).take(0),
        ));
    }
    while i < n
        invariant
            n == ts@.len(),
            i <= n,
            models_of(ts@).len() == n,
            out@ == old(out)@ + spec_u64_to_le_bytes(n as u64) + enc_tasks_body(
                models_of(ts@).take(i as int),
            ),
            forall|k: int| 0 <= k < i ==> task_sizes_fit(#[trigger] models_of(ts@)[k]),
        decreases n - i,
    {
        write_task(out, &ts[i]);
        proof {
            assert(models_of(ts@)[i as int] == ts@[i as int]@);
            assert(models_of(ts@).take(i + 1) =~= models_of(ts@).take(i as int).push(
                models_of(ts@)[i as int],
            ));
            lemma_enc_tasks_body_push(models_of(ts@).take(i as int), models_of(ts@)[i as int]);
        }
        i += 1;
    }
    proof {
        assert(models_of(ts@).take(n as int) =~= models_of(ts@));
        assert(final(out)@ =~= old(out)@ + enc_task_list(models_of(ts@)));
    }
}

/// Encode the authoritative registry of all three queues.
pub fn encode_store(d: &Downloader) -> (r: Vec<u8>)
    ensures
        r@ == enc_store(store_view(d)),
        store_sizes_fit(store_view(d)),
{
    let mut out: Vec<u8> = Vec::new();
    write_task_list(&mut out, d.single.downloads());
    write_task_list(&mut out, d.batch.downloads());
    write_task_list(&mut out, d.playlist.downloads());
    proof {
        assert(out@ =~= enc_store(store_view(d)));
    }
    out
}

// --- Executable decoding -----------------------------------------------

/// Read a little-endian count or id at `pos`.
fn read_u64(s: &[u8], pos: usize) -> (r: Option<(u64, usize)>)
    requires
        pos <= s@.len(),
    ensures
        match r {
            Some((x, p)) => pos <= p <= s@.len() && dec_u64(s@.skip(pos as int)) == Some(
                (x, s@.skip(p as int)),
            ),
            None => dec_u64(s@.skip(pos as int)) is None,
        },
{
    if s.len() - pos < 8 {
        return None;
    }
    let chunk = slice_subrange(s, pos, pos + 8);
    let x = u64_from_le_bytes(chunk);
    proof {
        assert(s@.skip(pos as int).take(8) =~= s@.subrange(pos as int, pos + 8));
        assert(s@.skip(pos as int).skip(8) =~= s@.skip(pos + 8));
    }
    Some((x, pos + 8))
}

/// Read a little-endian progress value at `pos`.
fn read_u32(s: &[u8], pos: usize) -> (r: Option<(u32, usize)>)
    requires
        pos <= s@.len(),
    ensures
        match r {
            Some((x, p)) => pos <= p <= s@.len() && dec_u32(s@.skip(pos as int)) == Some(
                (x, s@.skip(p as int)),
            ),
            None => dec_u32(s@.skip(pos as int)) is None,
        },
{
    if s.len() - pos < 4 {
        return None;
    }
    let chunk = slice_subrange(s, pos, pos + 4);
    let x = u32_from_le_bytes(chunk);
    proof {
        assert(s@.skip(pos as int).take(4) =~= s@.subrange(pos as int, pos + 4));
        assert(s@.skip(pos as int).skip(4) =~= s@.skip(pos + 4));
    }
    Some((x, pos + 4))
}

/// Read a length-prefixed byte string at `pos`.
fn read_bytes(s: &[u8], pos: usize) -> (r: Option<(Vec<u8>, usize)>)
    requires
        pos <= s@.len(),
    ensures
        match r {
            Some((b, p)) => pos <= p <= s@.len() && dec_bytes(s@.skip(pos as int)) == Some(
                (b@, s@.skip(p as int)),
            ),
            None => dec_bytes(s@.skip(pos as int)) is None,
        },
{
    match read_u64(s, pos) {
        Some((n, p)) => {
            if n > (s.len() - p) as u64 {
                proof {
                    assert(s@.skip(p as int).len() == s@.len() - p);
                }
                return None;
            }
            let nn = n as usize;
            let b = copy_range(s, p, p + nn);
            proof {
                assert(s@.skip(p as int).take(n as int) =~= s@.subrange(p as int, p + n));
                assert(s@.skip(p as int).skip(n as int) =~= s@.skip(p + n));
            }
            Some((b, p + nn))
        },
        None => None,
    }
}

/// Read one task record at `pos`.
fn read_task(s: &[u8], pos: usize) -> (r: Option<(DownloadTask, usize)>)
    requires
        pos <= s@.len(),
    ensures
        match r {
            Some((t, p)) => pos <= p <= s@.len() && dec_task(s@.skip(pos as int)) == Some(
                (t@, s@.skip(p as int)),
            ),
            None => dec_task(s@.skip(pos as int)) is None,
        },
{
    let (id, p) = match read_u64(s, pos) {
        Some(v) => v,
        None => { return None },
    };
    let (title, p) = match read_bytes(s, p) {
        Some(v) => v,
        None => { return None },
    };
    let (source_url, p) = match read_bytes(s, p) {
        Some(v) => v,
        None => { return None },
    };
    let (destination_path, p) = match read_bytes(s, p) {
        Some(v) => v,
        None => { return None },
    };
    let (download_speed, p) = match read_bytes(s, p) {
        Some(v) => v,
        None => { return None },
    };
    let (file_size, p) = match read_bytes(s, p) {
        Some(v) => v,
        None => { return None },
    };
    let (estimated_time, p) = match read_bytes(s, p) {
        Some(v) => v,
        None => { return None },
    };
    let (progress_percent, p) = match read_u32(s, p) {
        Some(v) => v,
        None => { return None },
    };
    if p >= s.len() {
        proof {
            assert(s@.skip(p as int).len() == 0);
        }
        return None;
    }
    let tag = s[p];
    let status = if tag == 0 {
        DownloadStatus::Queued
    } else if tag == 1 {
        DownloadStatus::Running
    } else if tag == 2 {
        DownloadStatus::Paused
    } else if tag == 3 {
        DownloadStatus::Finished
    } else if tag == 4 {
        DownloadStatus::Failed
    } else {
        proof {
            assert(s@.skip(p as int)[0] == s@[p as int]);
        }
        return None;
    };
    let t = DownloadTask {
        id,
        title,
        source_url,
        destination_path,
        download_speed,
        file_size,
        progress_percent,
        estimated_time,
        status,
    };
    proof {
        assert(s@.skip(p as int)[0] == s@[p as int]);
        assert(s@.skip(p as int).skip(1) =~= s@.skip(p + 1));
    }
    Some((t, p + 1))
}

/// Read a counted task list at `pos`.
fn read_task_list(s: &[u8], pos: usize) -> (r: Option<(Vec<DownloadTask>, usize)>)
    requires
        pos <= s@.len(),
    ensures
        match r {
            Some((ts, p)) => pos <= p <= s@.len() && dec_task_list(s@.skip(pos as int)) == Some(
                (models_of(ts@), s@.skip(p as int)),
            ),
            None => dec_task_list(s@.skip(pos as int)) is None,
        },
{
    let (n, p0) = match read_u64(s, pos) {
        Some(v) => v,
        None => { return None },
    };
    proof {
        assert(dec_u64(s@.skip(pos as int)) == Some((n, s@.skip(p0 as int))));
    }
    let mut out: Vec<DownloadTask> = Vec::new();
    let mut p = p0;
    let mut i: u64 = 0;
    proof {
        assert(models_of(out@) =~= Seq::<TaskModel>::empty());
        let whole = dec_tasks(s@.skip(p0 as int), n as nat);
        if whole is Some {
            assert(Seq::<TaskModel>::empty() + whole.unwrap().0 =~= whole.unwrap().0);
        }
    }
    while i < n
        invariant
            i <= n,
            pos <= p0 <= p <= s@.len(),
            dec_u64(s@.skip(pos as int)) == Some((n, s@.skip(p0 as int))),
            models_of(out@).len() == i,
            dec_tasks(s@.skip(p0 as int), n as nat) == (match dec_tasks(
                s@.skip(p as int),
                (n - i) as nat,
            ) {
                Option::None => None::<(Seq<TaskModel>, Seq<u8>)>,
                Option::Some((ts, r)) => Some((models_of(out@) + ts, r)),
            }),
        decreases n - i,
    {
        let ghost out0 = models_of(out@);
        let ghost k = (n - i) as nat;
        match read_task(s, p) {
            Some((t, p2)) => {
                out.push(t);
                proof {
                    assert(models_of(out@) =~= out0.push(t@));
                    let rest1 = dec_tasks(s@.skip(p2 as int), (k - 1) as nat);
                    assert(dec_task(s@.skip(p as int)) == Some((t@, s@.skip(p2 as int))));
                    if rest1 is Some {
                        let ts2 = rest1.unwrap().0;
                        assert(out0 + (seq![t@] + ts2) =~= out0.push(t@) + ts2);
                        assert(dec_tasks(s@.skip(p as int), k) == Some(
                            (seq![t@] + ts2, rest1.unwrap().1),
                        ));
                    } else {
                        assert(dec_tasks(s@.skip(p as int), k) is None);
                    }
                }
                p = p2;
            },
            None => {
                proof {
                    assert(dec_tasks(s@.skip(p as int), k) is None);
                }
                return None;
            },
        }
        i += 1;
    }
    proof {
        assert(dec_tasks(s@.skip(p as int), 0) == Some((Seq::<TaskModel>::empty(), s@.skip(
            p as int,
        ))));
        assert(models_of(out@) + Seq::<TaskModel>::empty() =~= models_of(out@));
    }
    Some((out, p))
}

/// Is a decoded queue a valid registry: unique ids, progress in range?
fn tasks_valid(ts: &Vec<DownloadTask>) -> (r: bool)
    ensures
        r == (unique_ids(models_of(ts@)) && all_tasks_wf(models_of(ts@))),
{
    let n = ts.len();
    let mut i: usize = 0;
    while i < n
        invariant
            n == ts@.len(),
            i <= n,
            forall|a: int, b: int|
                0 <= a < b < n && a < i ==> models_of(ts@)[a].id != models_of(ts@)[b].id,
            forall|a: int| 0 <= a < i ==> task_model_wf(#[trigger] models_of(ts@)[a]),
        decreases n - i,
    {
        if ts[i].progress_percent > FULL_PROGRESS {
            proof {
                assert(models_of(ts@)[i as int] == ts@[i as int]@);
                assert(!task_model_wf(models_of(ts@)[i as int]));
            }
            return false;
        }
        let mut j: usize = i + 1;
        while j < n
            invariant
                n == ts@.len(),
                i < j <= n,
                forall|b: int| i < b < j ==> models_of(ts@)[i as int].id != models_of(ts@)[b].id,
            decreases n - j,
        {
            if ts[i].id() == ts[j].id() {
                proof {
                    assert(models_of(ts@)[i as int].id == models_of(ts@)[j as int].id);
                }
                return false;
            }
            j += 1;
        }
        i += 1;
    }
    true
}

/// Decode a persisted registry.  The result is the decoded store with an
/// unfiltered view per queue; a record that does not parse, leaves bytes
/// over, or breaks the registry invariant yields nothing.
pub fn decode_store(bytes: &[u8]) -> (r: Option<Downloader>)
    ensures
        match r {
            Some(d) => {
                &&& d.wf()
                &&& dec_store(bytes@) == Some(store_view(&d))
                &&& store_model_wf(store_view(&d))
                &&& d.single.filtered_view() == d.single.downloads_view()
                &&& d.batch.filtered_view() == d.batch.downloads_view()
                &&& d.playlist.filtered_view() == d.playlist.downloads_view()
                &&& d.single.state.selected is None && d.single.state.scroll_offset == 0
                &&& d.batch.state.selected is None && d.batch.state.scroll_offset == 0
                &&& d.playlist.state.selected is None && d.playlist.state.scroll_offset == 0
            },
            None => match dec_store(bytes@) {
                Option::Some(m) => !store_model_wf(m),
                Option::None => true,
            },
        },
{
    let (single, p) = match read_task_list(bytes, 0) {
        Some(v) => v,
        None => {
            proof {
                assert(bytes@.skip(0) =~= bytes@);
            }
            return None;
        },
    };
    let (batch, p) = match read_task_list(bytes, p) {
        Some(v) => v,
        None => {
            proof {
                assert(bytes@.skip(0) =~= bytes@);
            }
            return None;
        },
    };
    let (playlist, p) = match read_task_list(bytes, p) {
        Some(v) => v,
        None => {
            proof {
                assert(bytes@.skip(0) =~= bytes@);
            }
            return None;
        },
    };
    proof {
        assert(bytes@.skip(0) =~= bytes@);
    }
    if p < bytes.len() {
        proof {
            assert(bytes@.skip(p as int).len() > 0);
        }
        return None;
    }
    proof {
        assert(bytes@.skip(p as int).len() == 0);
    }
    if !tasks_valid(&single) {
        return None;
    }
    if !tasks_valid(&batch) {
        return None;
    }
    if !tasks_valid(&playlist) {
        return None;
    }
    let d = Downloader {
        single: DownloadManager::from_loaded_tasks(single),
        batch: DownloadManager::from_loaded_tasks(batch),
        playlist: DownloadManager::from_loaded_tasks(playlist),
    };
    Some(d)
}

} // verus!
