//! Tests of the progress parser, the slug normalizer, the registry and
//! the category filter engine.

use cupcake::filter::{ExtGroup, StatusGroup};
use cupcake::manager::DownloadManager;
use cupcake::progress::{parse_percent, parse_progress_line, tokenize, SENTINEL};
use cupcake::slug::slugify;
use cupcake::status::{status_for_progress, DownloadStatus, FULL_PROGRESS};
use cupcake::task::DownloadTask;

fn task(id: u64, title: &str, status: DownloadStatus, progress: u32) -> DownloadTask {
    let mut t = DownloadTask::new(
        id,
        title.as_bytes().to_vec(),
        b"http://example.test/src".to_vec(),
        b"/tmp".to_vec(),
    );
    t.status = status;
    t.progress_percent = progress;
    t
}

#[test]
fn sentinel_line_at_full_progress_parses_finished() {
    let line = format!("{} 100% 10MiB 1MiB/s ETA 00:00", SENTINEL);
    let u = parse_progress_line(line.as_bytes()).expect("a full progress line parses");
    assert_eq!(u.progress_percent, FULL_PROGRESS);
    assert_eq!(u.file_size, b"10MiB".to_vec());
    assert_eq!(u.download_speed, b"1MiB/s".to_vec());
    assert_eq!(u.estimated_time, b"00:00".to_vec());
    assert_eq!(status_for_progress(u.progress_percent), DownloadStatus::Finished);
}

#[test]
fn sentinel_line_with_too_few_fields_is_dropped() {
    let line = format!("{} 5%", SENTINEL);
    assert!(parse_progress_line(line.as_bytes()).is_none());
}

#[test]
fn line_without_sentinel_is_dropped() {
    assert!(parse_progress_line(b"download 100% 10MiB 1MiB/s ETA 00:00").is_none());
}

#[test]
fn fractional_percent_parses_in_hundredths() {
    let line = format!("{} 55.5% 10MiB 1MiB/s ETA 00:42", SENTINEL);
    let u = parse_progress_line(line.as_bytes()).expect("parses");
    assert_eq!(u.progress_percent, 5550);
    assert_eq!(status_for_progress(u.progress_percent), DownloadStatus::Running);
}

#[test]
fn unparsable_percent_counts_as_zero() {
    let line = format!("{} N/A% 10MiB 1MiB/s ETA 00:42", SENTINEL);
    let u = parse_progress_line(line.as_bytes()).expect("parses");
    assert_eq!(u.progress_percent, 0);
    assert_eq!(status_for_progress(u.progress_percent), DownloadStatus::Queued);
}

#[test]
fn oversized_percent_saturates_at_full() {
    assert_eq!(parse_percent(b"250%"), FULL_PROGRESS);
    assert_eq!(parse_percent(b"100.01%"), FULL_PROGRESS);
}

#[test]
fn percent_token_shapes() {
    assert_eq!(parse_percent(b"0%"), 0);
    assert_eq!(parse_percent(b"7"), 700);
    assert_eq!(parse_percent(b"7.25%"), 725);
    assert_eq!(parse_percent(b".5"), 50);
    assert_eq!(parse_percent(b"12."), 1200);
    assert_eq!(parse_percent(b""), 0);
    assert_eq!(parse_percent(b"%"), 0);
    assert_eq!(parse_percent(b"1.2.3"), 0);
    assert_eq!(parse_percent(b"-5"), 0);
}

#[test]
fn tokenize_splits_on_blank_runs() {
    let toks = tokenize(b"  a  bb\tccc ");
    assert_eq!(toks, vec![b"a".to_vec(), b"bb".to_vec(), b"ccc".to_vec()]);
    assert!(tokenize(b"   ").is_empty());
}

#[test]
fn slug_lowers_collapses_and_trims() {
    assert_eq!(slugify(b"My File (1).ISO", b'_'), b"my_file_1.iso".to_vec());
    assert_eq!(slugify(b"  hello  ", b'_'), b"hello".to_vec());
    assert_eq!(slugify(b"--a__b--", b'_'), b"a_b".to_vec());
    assert_eq!(slugify(b"###", b'_'), b"".to_vec());
    assert_eq!(slugify("caf\u{e9}.mp3".as_bytes(), b'_'), b"caf_.mp3".to_vec());
}

#[test]
fn upsert_appends_new_ids_in_order() {
    let mut m = DownloadManager::new();
    m.update_download(task(1, "a.mp3", DownloadStatus::Queued, 0));
    m.update_download(task(2, "b.mp4", DownloadStatus::Queued, 0));
    let d = m.downloads();
    assert_eq!(d.len(), 2);
    assert_eq!(d[0].id(), 1);
    assert_eq!(d[1].id(), 2);
}

#[test]
fn upsert_twice_equals_once() {
    let mut once = DownloadManager::new();
    let mut twice = DownloadManager::new();
    let u = task(7, "a.mp3", DownloadStatus::Running, 4200);
    once.update_download(u.clone());
    twice.update_download(u.clone());
    twice.update_download(u.clone());
    assert_eq!(once.downloads().len(), 1);
    assert_eq!(twice.downloads().len(), 1);
    let a = &once.downloads()[0];
    let b = &twice.downloads()[0];
    assert_eq!(a.id(), b.id());
    assert_eq!(a.title, b.title);
    assert_eq!(a.progress_percent, b.progress_percent);
    assert_eq!(a.status, b.status);
    assert_eq!(a.download_speed, b.download_speed);
    assert_eq!(a.estimated_time, b.estimated_time);
}

#[test]
fn upsert_patches_volatile_fields_only() {
    let mut m = DownloadManager::new();
    let mut first = task(7, "a.mp3", DownloadStatus::Queued, 0);
    first.file_size = b"10MiB".to_vec();
    m.update_download(first);
    let mut patch = task(7, "ignored-title", DownloadStatus::Running, 5000);
    patch.download_speed = b"1MiB/s".to_vec();
    patch.file_size = b"99MiB".to_vec();
    m.update_download(patch);
    let d = &m.downloads()[0];
    assert_eq!(d.title, b"a.mp3".to_vec());
    assert_eq!(d.file_size, b"10MiB".to_vec());
    assert_eq!(d.progress_percent, 5000);
    assert_eq!(d.status, DownloadStatus::Running);
    assert_eq!(d.download_speed, b"1MiB/s".to_vec());
    assert_eq!(m.downloads().len(), 1);
}

#[test]
fn update_outside_filter_does_not_enter_view() {
    let mut m = DownloadManager::new();
    m.update_download(task(1, "a.mp3", DownloadStatus::Finished, FULL_PROGRESS));
    m.filter_downloads_by_category(&vec![b"finished".to_vec()]);
    assert_eq!(m.filtered_downloads().len(), 1);
    // A new task arrives while the finished filter is active.
    m.update_download(task(2, "b.mp4", DownloadStatus::Running, 100));
    assert_eq!(m.downloads().len(), 2);
    assert_eq!(m.filtered_downloads().len(), 1);
    // A visible task keeps updating in place.
    let mut patch = task(1, "a.mp3", DownloadStatus::Finished, FULL_PROGRESS);
    patch.download_speed = b"0B/s".to_vec();
    m.update_download(patch);
    assert_eq!(m.filtered_downloads()[0].download_speed, b"0B/s".to_vec());
}

#[test]
fn finished_selector_keeps_exactly_finished() {
    let mut m = DownloadManager::new();
    m.update_download(task(1, "a.bin", DownloadStatus::Finished, FULL_PROGRESS));
    m.update_download(task(2, "b.bin", DownloadStatus::Failed, 3000));
    m.update_download(task(3, "c.bin", DownloadStatus::Running, 5000));
    m.filter_downloads_by_category(&vec![b"finished".to_vec()]);
    let f = m.filtered_downloads();
    assert_eq!(f.len(), 1);
    assert_eq!(f[0].id(), 1);
}

#[test]
fn all_music_selector_keeps_music_titles() {
    let mut m = DownloadManager::new();
    m.update_download(task(1, "a.mp3", DownloadStatus::Queued, 0));
    m.update_download(task(2, "b.mp4", DownloadStatus::Queued, 0));
    m.update_download(task(3, "c.flac", DownloadStatus::Queued, 0));
    m.filter_downloads_by_category(&vec![b"all".to_vec(), b"all-music".to_vec()]);
    let f = m.filtered_downloads();
    assert_eq!(f.len(), 2);
    assert_eq!(f[0].title, b"a.mp3".to_vec());
    assert_eq!(f[1].title, b"c.flac".to_vec());
}

#[test]
fn unfinished_vids_selector_checks_status_and_extension() {
    let mut m = DownloadManager::new();
    m.update_download(task(1, "x.mp4", DownloadStatus::Running, 100));
    m.filter_downloads_by_category(&vec![b"unfinished".to_vec(), b"unfinished-vids".to_vec()]);
    assert_eq!(m.filtered_downloads().len(), 1);

    let mut m = DownloadManager::new();
    m.update_download(task(1, "x.mp4", DownloadStatus::Finished, FULL_PROGRESS));
    m.filter_downloads_by_category(&vec![b"unfinished".to_vec(), b"unfinished-vids".to_vec()]);
    assert_eq!(m.filtered_downloads().len(), 0);
}

#[test]
fn odd_selector_shapes_leave_the_view_unchanged() {
    let mut m = DownloadManager::new();
    m.update_download(task(1, "a.mp3", DownloadStatus::Queued, 0));
    m.filter_downloads_by_category(&vec![b"all".to_vec()]);
    assert_eq!(m.filtered_downloads().len(), 1);
    m.filter_downloads_by_category(&Vec::new());
    assert_eq!(m.filtered_downloads().len(), 1);
    m.filter_downloads_by_category(&vec![b"a".to_vec(), b"b".to_vec(), b"c".to_vec()]);
    assert_eq!(m.filtered_downloads().len(), 1);
}

#[test]
fn other_group_means_no_known_extension() {
    let mut m = DownloadManager::new();
    m.update_download(task(1, "notes.txt", DownloadStatus::Queued, 0));
    m.update_download(task(2, "mystery.xyz", DownloadStatus::Queued, 0));
    m.filter_downloads_by_category(&vec![b"all".to_vec(), b"all-others".to_vec()]);
    let f = m.filtered_downloads();
    assert_eq!(f.len(), 1);
    assert_eq!(f[0].id(), 2);
}

#[test]
fn empty_filter_result_resets_cursor() {
    let mut m = DownloadManager::new();
    m.update_download(task(1, "a.mp3", DownloadStatus::Queued, 0));
    m.filter_downloads_by_category(&vec![b"all".to_vec()]);
    m.next_row();
    assert_eq!(m.state.selected, Some(0));
    m.filter_downloads_by_category(&vec![b"failed".to_vec()]);
    assert_eq!(m.filtered_downloads().len(), 0);
    assert_eq!(m.state.selected, None);
    assert_eq!(m.state.scroll_offset, 0);
    assert_eq!(m.state.scroll_content_length, 0);
}

#[test]
fn row_selection_wraps_both_ways() {
    let mut m = DownloadManager::new();
    m.update_download(task(1, "a.mp3", DownloadStatus::Queued, 0));
    m.update_download(task(2, "b.mp3", DownloadStatus::Queued, 0));
    m.filter_downloads_by_category(&vec![b"all".to_vec()]);
    m.next_row();
    assert_eq!(m.state.selected, Some(0));
    m.next_row();
    assert_eq!(m.state.selected, Some(1));
    assert_eq!(m.state.scroll_offset, 3);
    m.next_row();
    assert_eq!(m.state.selected, Some(0));
    m.previous_row();
    assert_eq!(m.state.selected, Some(1));
}

#[test]
fn row_selection_on_empty_view_stays_at_origin() {
    let mut m = DownloadManager::new();
    m.next_row();
    assert_eq!(m.state.selected, Some(0));
    m.previous_row();
    assert_eq!(m.state.selected, Some(0));
    assert_eq!(m.state.scroll_offset, 0);
}

#[test]
fn average_progress_is_the_mean() {
    let mut m = DownloadManager::new();
    assert_eq!(m.average_progress(), 0);
    m.update_download(task(1, "a.mp3", DownloadStatus::Running, 5000));
    m.update_download(task(2, "b.mp3", DownloadStatus::Finished, FULL_PROGRESS));
    assert_eq!(m.average_progress(), 7500);
}

#[test]
fn status_labels() {
    assert_eq!(DownloadStatus::Queued.label(), "Queued");
    assert_eq!(DownloadStatus::Running.label(), "Running ");
    assert_eq!(DownloadStatus::Paused.label(), "Paused");
    assert_eq!(DownloadStatus::Finished.label(), "Finished");
    assert_eq!(DownloadStatus::Failed.label(), "Failed");
}

#[test]
fn group_enums_compare() {
    assert_eq!(StatusGroup::All, StatusGroup::All);
    assert_ne!(ExtGroup::Music, ExtGroup::Video);
}
