//! Tests of persistence, the session model, the dispatch loop and the
//! end-to-end submit-and-progress scenario.

use cupcake::manager::DownloadManager;
use cupcake::model::{ActivePanel, ActiveTab, FocusedInput, ModalType, Model};
use cupcake::progress::SENTINEL;
use cupcake::runner::JobSpec;
use cupcake::status::{DownloadStatus, FULL_PROGRESS};
use cupcake::store::{decode_store, encode_store};
use cupcake::task::DownloadTask;
use cupcake::update::{update, Message, UpdateEffect};

fn task(id: u64, title: &str, status: DownloadStatus, progress: u32) -> DownloadTask {
    let mut t = DownloadTask::new(
        id,
        title.as_bytes().to_vec(),
        b"http://example.test/src".to_vec(),
        b"/tmp".to_vec(),
    );
    t.status = status;
    t.progress_percent = progress;
    t
}

#[test]
fn save_then_load_reproduces_the_registry() {
    let mut model = Model::new();
    let mut a = task(11, "a.mp3", DownloadStatus::Finished, FULL_PROGRESS);
    a.download_speed = b"2MiB/s".to_vec();
    a.file_size = b"3MiB".to_vec();
    a.estimated_time = b"00:00".to_vec();
    model.downloader.single.update_download(a);
    model.downloader.single.update_download(task(12, "b.mp4", DownloadStatus::Running, 4200));
    model.downloader.batch.update_download(task(13, "c.pdf", DownloadStatus::Queued, 0));

    let bytes = encode_store(&model.downloader);
    let loaded = decode_store(&bytes).expect("an encoded registry loads");

    let single = loaded.single.downloads();
    assert_eq!(single.len(), 2);
    assert_eq!(single[0].id(), 11);
    assert_eq!(single[0].title, b"a.mp3".to_vec());
    assert_eq!(single[0].source_url, b"http://example.test/src".to_vec());
    assert_eq!(single[0].destination_path, b"/tmp".to_vec());
    assert_eq!(single[0].download_speed, b"2MiB/s".to_vec());
    assert_eq!(single[0].file_size, b"3MiB".to_vec());
    assert_eq!(single[0].estimated_time, b"00:00".to_vec());
    assert_eq!(single[0].progress_percent, FULL_PROGRESS);
    assert_eq!(single[0].status, DownloadStatus::Finished);
    assert_eq!(single[1].id(), 12);
    assert_eq!(single[1].status, DownloadStatus::Running);
    let batch = loaded.batch.downloads();
    assert_eq!(batch.len(), 1);
    assert_eq!(batch[0].id(), 13);
    assert_eq!(loaded.playlist.downloads().len(), 0);
    // Loading re-derives an unfiltered view with the cursor at the origin.
    assert_eq!(loaded.single.filtered_downloads().len(), 2);
    assert_eq!(loaded.single.state.selected, None);
    assert_eq!(loaded.single.state.scroll_offset, 0);
}

#[test]
fn truncated_record_fails_to_load() {
    let mut model = Model::new();
    model.downloader.single.update_download(task(1, "a.mp3", DownloadStatus::Queued, 0));
    let bytes = encode_store(&model.downloader);
    assert!(decode_store(&bytes[..bytes.len() - 1]).is_none());
    assert!(decode_store(b"").is_none());
    assert!(decode_store(b"not a record").is_none());
}

#[test]
fn record_with_trailing_bytes_fails_to_load() {
    let model = Model::new();
    let mut bytes = encode_store(&model.downloader);
    bytes.push(0);
    assert!(decode_store(&bytes).is_none());
}

fn raw_task(id: u64, progress: u32) -> Vec<u8> {
    let mut out = Vec::new();
    out.extend_from_slice(&id.to_le_bytes());
    for field in [&b"t.mp3"[..], b"src", b"/tmp", b"", b"", b""] {
        out.extend_from_slice(&(field.len() as u64).to_le_bytes());
        out.extend_from_slice(field);
    }
    out.extend_from_slice(&progress.to_le_bytes());
    out.push(0);
    out
}

#[test]
fn record_with_duplicate_ids_fails_to_load() {
    let mut bytes = Vec::new();
    bytes.extend_from_slice(&2u64.to_le_bytes());
    bytes.extend_from_slice(&raw_task(5, 0));
    bytes.extend_from_slice(&raw_task(5, 0));
    bytes.extend_from_slice(&0u64.to_le_bytes());
    bytes.extend_from_slice(&0u64.to_le_bytes());
    assert!(decode_store(&bytes).is_none());
}

#[test]
fn record_with_out_of_range_progress_fails_to_load() {
    let mut bytes = Vec::new();
    bytes.extend_from_slice(&1u64.to_le_bytes());
    bytes.extend_from_slice(&raw_task(5, FULL_PROGRESS + 1));
    bytes.extend_from_slice(&0u64.to_le_bytes());
    bytes.extend_from_slice(&0u64.to_le_bytes());
    assert!(decode_store(&bytes).is_none());
}

#[test]
fn submitted_job_reaches_finished_at_full_progress() {
    // Submit a job and simulate the external tool resolving the name.
    let job = JobSpec::prepare(
        b"http://example.test/file.iso".to_vec(),
        b"/tmp".to_vec(),
        b"file.iso",
    );
    assert_eq!(job.title, b"file.iso".to_vec());
    assert_eq!(job.output_path(), b"/tmp/file.iso".to_vec());

    let mut model = Model::new();
    for percent in ["10.0", "55.0", "100.0"] {
        let line = format!("{} {}% 700MiB 9MiB/s ETA 00:07", SENTINEL, percent);
        let snapshot = job.runner_step(line.as_bytes()).expect("a progress line parses");
        let effect = update(&mut model, Message::UpdateDownloadStatus(snapshot));
        assert!(matches!(effect, UpdateEffect::Nothing));
    }

    let d = model.downloader.single.downloads();
    assert_eq!(d.len(), 1);
    assert_eq!(d[0].id(), job.id);
    assert_eq!(d[0].title, b"file.iso".to_vec());
    assert_eq!(d[0].source_url, b"http://example.test/file.iso".to_vec());
    assert_eq!(d[0].destination_path, b"/tmp/file.iso".to_vec());
    assert_eq!(d[0].progress_percent, FULL_PROGRESS);
    assert_eq!(d[0].status, DownloadStatus::Finished);
}

#[test]
fn runner_ignores_chatter_lines() {
    let job = JobSpec::prepare(b"s".to_vec(), b"/tmp".to_vec(), b"x.bin");
    assert!(job.runner_step(b"[download] Destination: x.bin").is_none());
}

#[test]
fn quit_saves_and_stops() {
    let mut model = Model::new();
    model.downloader.single.update_download(task(3, "a.mp3", DownloadStatus::Queued, 0));
    let expected = encode_store(&model.downloader);
    let effect = update(&mut model, Message::Quit);
    assert!(!model.running);
    match effect {
        UpdateEffect::Save(bytes) => assert_eq!(bytes, expected),
        _ => panic!("quitting saves the registry"),
    }
}

#[test]
fn tabs_and_panels_move_as_messages_say() {
    let mut model = Model::new();
    assert!(matches!(update(&mut model, Message::SwitchNextTab), UpdateEffect::Nothing));
    assert_eq!(model.active_tab as usize, 1);
    update(&mut model, Message::SwitchPreviousTab);
    assert_eq!(model.active_tab as usize, 0);
    update(&mut model, Message::SwitchPreviousTab);
    assert_eq!(model.active_tab as usize, 0);
    for _ in 0..5 {
        update(&mut model, Message::SwitchNextTab);
    }
    assert_eq!(model.active_tab as usize, 0);
    update(&mut model, Message::FocusMenu);
    assert_eq!(model.active_panel, ActivePanel::Menu);
    update(&mut model, Message::ShowAddTaskModal);
    assert_eq!(model.active_panel, ActivePanel::Modal(ModalType::SourceInput));
    update(&mut model, Message::CloseModal);
    assert_eq!(model.active_panel, ActivePanel::Content);
}

#[test]
fn tab_labels() {
    assert_eq!(ActiveTab::Single.label(), "Single");
    assert_eq!(ActiveTab::Batch.label(), "Batch");
    assert_eq!(ActiveTab::Playlist.label(), "Playlist");
    assert_eq!(ActiveTab::Settings.label(), "Settings");
    assert_eq!(ActiveTab::About.label(), "About");
}

#[test]
fn progress_bar_steps_and_saturates() {
    let mut model = Model::new();
    update(&mut model, Message::ProgressUp);
    assert_eq!(model.progress, 100);
    update(&mut model, Message::ProgressDown);
    assert_eq!(model.progress, 0);
    update(&mut model, Message::ProgressDown);
    assert_eq!(model.progress, 0);
    model.progress = 9950;
    update(&mut model, Message::ProgressUp);
    assert_eq!(model.progress, FULL_PROGRESS);
    update(&mut model, Message::ProgressUp);
    assert_eq!(model.progress, FULL_PROGRESS);
}

#[test]
fn update_progress_single_takes_the_queue_average() {
    let mut model = Model::new();
    model.downloader.single.update_download(task(1, "a.mp3", DownloadStatus::Running, 5000));
    model.downloader.single.update_download(task(2, "b.mp3", DownloadStatus::Finished, FULL_PROGRESS));
    update(&mut model, Message::UpdateProgressSingle);
    assert_eq!(model.progress, 7500);
    model.progress = 9000;
    update(&mut model, Message::UpdateProgressSingle);
    assert_eq!(model.progress, 9000);
}

#[test]
fn filter_message_reaches_the_named_queue() {
    let mut model = Model::new();
    model.downloader.batch.update_download(task(1, "a.mp3", DownloadStatus::Failed, 0));
    model.downloader.batch.update_download(task(2, "b.mp3", DownloadStatus::Running, 50));
    update(&mut model, Message::ApplyCategoryFilterBatch(vec![b"failed".to_vec()]));
    assert_eq!(model.downloader.batch.filtered_downloads().len(), 1);
    assert_eq!(model.downloader.batch.filtered_downloads()[0].id(), 1);
}

#[test]
fn toggle_focused_input_flips() {
    let mut model = Model::new();
    assert_eq!(model.input_state.focused, FocusedInput::Name);
    update(&mut model, Message::ToggleFocusedInput);
    assert_eq!(model.input_state.focused, FocusedInput::Destination);
    update(&mut model, Message::ToggleFocusedInput);
    assert_eq!(model.input_state.focused, FocusedInput::Name);
}

#[test]
fn extract_metadata_flow() {
    let mut model = Model::new();
    model.input_state.source = b"http://example.test/x".to_vec();
    let effect = update(&mut model, Message::ExtractMetadata);
    assert_eq!(model.active_panel, ActivePanel::Modal(ModalType::Info));
    assert_eq!(model.modal_prompt, b"Extracting metadata...".to_vec());
    match effect {
        UpdateEffect::ProbeSource(src) => assert_eq!(src, b"http://example.test/x".to_vec()),
        _ => panic!("probing is outside work"),
    }
    model.extract_metadata(Ok(b"x.bin".to_vec()));
    assert_eq!(model.input_state.name, b"x.bin".to_vec());
    assert_eq!(model.active_panel, ActivePanel::Modal(ModalType::DestinationInput));
    model.extract_metadata(Err(b"no such source".to_vec()));
    assert_eq!(model.active_panel, ActivePanel::Modal(ModalType::Error));
    assert_eq!(model.modal_prompt, b"no such source".to_vec());
    assert!(model.input_state.name.is_empty());
}

#[test]
fn add_task_rejects_empty_inputs_and_submits_full_ones() {
    let mut model = Model::new();
    model.input_state.source = b"http://example.test/x".to_vec();
    let effect = update(&mut model, Message::AddTaskSingle);
    assert!(matches!(effect, UpdateEffect::Nothing));
    assert_eq!(model.modal_prompt, b"Destination cannot be empty".to_vec());

    model.input_state.destination = b"/tmp".to_vec();
    let effect = update(&mut model, Message::AddTaskSingle);
    assert!(matches!(effect, UpdateEffect::Nothing));
    assert_eq!(model.modal_prompt, b"Name cannot be empty".to_vec());

    model.input_state.name = b"x.bin".to_vec();
    let effect = update(&mut model, Message::AddTaskSingle);
    match effect {
        UpdateEffect::StartDownload(req) => {
            assert_eq!(req.source, b"http://example.test/x".to_vec());
            assert_eq!(req.destination, b"/tmp".to_vec());
            assert_eq!(req.name, b"x.bin".to_vec());
        },
        _ => panic!("a full submission starts a job"),
    }
    assert!(model.input_state.source.is_empty());
    assert!(model.input_state.destination.is_empty());
    assert!(model.input_state.name.is_empty());
    assert_eq!(model.active_panel, ActivePanel::Content);
}

#[test]
fn view_rows_always_exist_in_the_registry() {
    let mut m = DownloadManager::new();
    m.update_download(task(1, "a.mp3", DownloadStatus::Running, 100));
    m.update_download(task(2, "b.mp4", DownloadStatus::Finished, FULL_PROGRESS));
    m.filter_downloads_by_category(&vec![b"all".to_vec(), b"all-music".to_vec()]);
    for row in m.filtered_downloads() {
        let twin = m
            .downloads()
            .iter()
            .find(|t| t.id() == row.id())
            .expect("every view row joins a registry entry");
        assert_eq!(twin.title, row.title);
        assert_eq!(twin.progress_percent, row.progress_percent);
        assert_eq!(twin.status, row.status);
    }
}
