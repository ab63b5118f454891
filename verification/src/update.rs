//! The consumer loop's dispatch: one message in, one state transition,
//! and at most one effect the surrounding binary must perform.
//!
//! The session owner feeds every message through [`update`].  Messages
//! that only move UI state change the model and nothing else; messages
//! that need outside work (saving, probing a source, starting a job)
//! change the model and hand the work back as an [`UpdateEffect`].

use vstd::prelude::*;
use vstd::slice::slice_to_vec;
use vstd::string::StringSliceAdditionalSpecFns;

use crate::manager::{
    patch_by_id, spec_filtered, spec_next_index, spec_previous_index, spec_scroll_pos,
    upsert_models, DownloadManager,
};
use crate::model::{
    same_but_panel, same_but_panel_and_prompt, same_but_progress, same_but_tab, spec_max_progress,
    spec_single_average, ActivePanel, FocusedInput, JobRequest, ModalType, Model,
};
use crate::status::FULL_PROGRESS;
use crate::store::{enc_store, encode_store, store_view};
use crate::task::{task_model_wf, DownloadTask};

verus! {

/// One message of the consumer loop.  Messages that would carry terminal
/// widget state (menu-tree navigation, line editing) stay outside the
/// library; the selector of a filter message arrives as plain labels.
pub enum Message {
    Quit,
    FocusMenu,
    FocusContent,
    SwitchNextTab,
    SwitchPreviousTab,
    SelectNextRowSingle,
    SelectNextRowBatch,
    SelectNextRowPlaylist,
    SelectPreviousRowSingle,
    SelectPreviousRowBatch,
    SelectPreviousRowPlaylist,
    ProgressUp,
    ProgressDown,
    UpdateProgressSingle,
    ApplyCategoryFilterSingle(Vec<Vec<u8>>),
    ApplyCategoryFilterBatch(Vec<Vec<u8>>),
    ApplyCategoryFilterPlaylist(Vec<Vec<u8>>),
    ShowAddTaskModal,
    ToggleFocusedInput,
    ExtractMetadata,
    AddTaskSingle,
    UpdateDownloadStatus(DownloadTask),
    CloseModal,
}

/// The outside work one update step asks for.
pub enum UpdateEffect {
    /// Nothing to do outside.
    Nothing,
    /// Write these bytes to the persistent store; the session is ending.
    Save(Vec<u8>),
    /// Resolve a file name for this source, then hand the outcome to
    /// [`Model::extract_metadata`].
    ProbeSource(Vec<u8>),
    /// Start a download job for this request.
    StartDownload(JobRequest),
}

/// A message is well formed when any task it carries is.
pub open spec fn message_wf(msg: &Message) -> bool {
    match msg {
        Message::UpdateDownloadStatus(t) => task_model_wf(t@),
        _ => true,
    }
}

/// Everything but the running flag is unchanged.
pub open spec fn same_but_running(a: &Model, b: &Model) -> bool {
    &&& a.active_panel == b.active_panel
    &&& a.active_tab == b.active_tab
    &&& a.downloader == b.downloader
    &&& a.progress == b.progress
    &&& a.input_state == b.input_state
    &&& a.modal_prompt == b.modal_prompt
}

/// Everything outside the downloader is unchanged.
pub open spec fn non_downloader_eq(a: &Model, b: &Model) -> bool {
    &&& a.running == b.running
    &&& a.active_panel == b.active_panel
    &&& a.active_tab == b.active_tab
    &&& a.progress == b.progress
    &&& a.input_state == b.input_state
    &&& a.modal_prompt == b.modal_prompt
}

/// Only the single queue may have changed.
pub open spec fn only_single(a: &Model, b: &Model) -> bool {
    &&& non_downloader_eq(a, b)
    &&& a.downloader.batch == b.downloader.batch
    &&& a.downloader.playlist == b.downloader.playlist
}

/// Only the batch queue may have changed.
pub open spec fn only_batch(a: &Model, b: &Model) -> bool {
    &&& non_downloader_eq(a, b)
    &&& a.downloader.single == b.downloader.single
    &&& a.downloader.playlist == b.downloader.playlist
}

/// Only the playlist queue may have changed.
pub open spec fn only_playlist(a: &Model, b: &Model) -> bool {
    &&& non_downloader_eq(a, b)
    &&& a.downloader.single == b.downloader.single
    &&& a.downloader.batch == b.downloader.batch
}

/// The selection moved one row down, wrapping; nothing else moved.
pub open spec fn row_next(a: &DownloadManager, b: &DownloadManager) -> bool {
    let i = spec_next_index(a.state.selected, a.filtered_view().len() as int);
    &&& b.downloads_view() == a.downloads_view()
    &&& b.filtered_view() == a.filtered_view()
    &&& b.state.selected == Some(i as usize)
    &&& b.state.scroll_offset == spec_scroll_pos(i)
    &&& b.state.scroll_content_length == a.state.scroll_content_length
}

/// The selection moved one row up, wrapping; nothing else moved.
pub open spec fn row_previous(a: &DownloadManager, b: &DownloadManager) -> bool {
    let i = spec_previous_index(a.state.selected, a.filtered_view().len() as int);
    &&& b.downloads_view() == a.downloads_view()
    &&& b.filtered_view() == a.filtered_view()
    &&& b.state.selected == Some(i as usize)
    &&& b.state.scroll_offset == spec_scroll_pos(i)
    &&& b.state.scroll_content_length == a.state.scroll_content_length
}

/// The filtered view was recomputed for a selector, with the cursor
/// clamped; a selector of any other shape left everything alone.
pub open spec fn filter_applied(a: &DownloadManager, b: &DownloadManager, sel: Seq<Seq<u8>>) -> bool {
    &&& b.downloads_view() == a.downloads_view()
    &&& (sel.len() == 1 || sel.len() == 2) ==> {
        let f = spec_filtered(a.downloads_view(), sel);
        &&& b.filtered_view() == f
        &&& (f.len() == 0 ==> b.state.selected is None && b.state.scroll_offset == 0
            && b.state.scroll_content_length == 0)
        &&& (f.len() > 0 ==> {
            &&& b.state.selected == match a.state.selected {
                Option::Some(i) => Some(
                    (if i < f.len() {
                        i as int
                    } else {
                        f.len() - 1
                    }) as usize,
                ),
                Option::None => None,
            }
            &&& b.state.scroll_offset == 0
            &&& b.state.scroll_content_length == spec_scroll_pos(f.len() - 1)
        })
    }
    &&& !(sel.len() == 1 || sel.len() == 2) ==> b.filtered_view() == a.filtered_view()
        && b.state.selected == a.state.selected && b.state.scroll_offset == a.state.scroll_offset
        && b.state.scroll_content_length == a.state.scroll_content_length
}

/// One upsert was applied: the registry patched or extended, the view
/// patched in place, the cursor untouched.
pub open spec fn upserted(a: &DownloadManager, b: &DownloadManager, t: crate::task::TaskModel) -> bool {
    &&& b.downloads_view() == upsert_models(a.downloads_view(), t)
    &&& b.filtered_view() == patch_by_id(a.filtered_view(), t)
    &&& b.state.selected == a.state.selected
    &&& b.state.scroll_offset == a.state.scroll_offset
    &&& b.state.scroll_content_length == a.state.scroll_content_length
}

/// The progress bar one step up, saturating at full.
pub open spec fn spec_progress_up(p: u32) -> int {
    if p < FULL_PROGRESS {
        if p + 100 <= FULL_PROGRESS {
            p + 100
        } else {
            FULL_PROGRESS as int
        }
    } else {
        p as int
    }
}

/// The progress bar one step down, stopping at zero.
pub open spec fn spec_progress_down(p: u32) -> int {
    if p > 0 {
        if p >= 100 {
            p - 100
        } else {
            0
        }
    } else {
        0
    }
}

/// Apply one message to the session state and say what outside work it
/// asks for.
pub fn update(model: &mut Model, msg: Message) -> (e: UpdateEffect)
    requires
        old(model).wf(),
        message_wf(&msg),
    ensures
        final(model).wf(),
        match msg {
            Message::Quit => {
                &&& !final(model).running
                &&& same_but_running(old(model), final(model))
                &&& (e matches UpdateEffect::Save(bytes) && bytes@ == enc_store(
                    store_view(&old(model).downloader),
                ))
            },
            Message::FocusMenu => final(model).active_panel == ActivePanel::Menu && same_but_panel(
                old(model),
                final(model),
            ) && e is Nothing,
            Message::FocusContent => final(model).active_panel == ActivePanel::Content
                && same_but_panel(old(model), final(model)) && e is Nothing,
            Message::SwitchNextTab => final(model).active_tab == old(
                model,
            ).active_tab.next_spec() && same_but_tab(old(model), final(model)) && e is Nothing,
            Message::SwitchPreviousTab => final(model).active_tab == old(
                model,
            ).active_tab.previous_spec() && same_but_tab(old(model), final(model)) && e is Nothing,
            Message::SelectNextRowSingle => only_single(old(model), final(model)) && row_next(
                &old(model).downloader.single,
                &final(model).downloader.single,
            ) && e is Nothing,
            Message::SelectNextRowBatch => only_batch(old(model), final(model)) && row_next(
                &old(model).downloader.batch,
                &final(model).downloader.batch,
            ) && e is Nothing,
            Message::SelectNextRowPlaylist => only_playlist(old(model), final(model)) && row_next(
                &old(model).downloader.playlist,
                &final(model).downloader.playlist,
            ) && e is Nothing,
            Message::SelectPreviousRowSingle => only_single(old(model), final(model))
                && row_previous(&old(model).downloader.single, &final(model).downloader.single)
                && e is Nothing,
            Message::SelectPreviousRowBatch => only_batch(old(model), final(model))
                && row_previous(&old(model).downloader.batch, &final(model).downloader.batch)
                && e is Nothing,
            Message::SelectPreviousRowPlaylist => only_playlist(old(model), final(model))
                && row_previous(
                &old(model).downloader.playlist,
                &final(model).downloader.playlist,
            ) && e is Nothing,
            Message::ProgressUp => final(model).progress == spec_progress_up(old(model).progress)
                && same_but_progress(old(model), final(model)) && e is Nothing,
            Message::ProgressDown => final(model).progress == spec_progress_down(
                old(model).progress,
            ) && same_but_progress(old(model), final(model)) && e is Nothing,
            Message::UpdateProgressSingle => final(model).progress == spec_max_progress(
                old(model).progress as int,
                spec_single_average(old(model)),
            ) && same_but_progress(old(model), final(model)) && e is Nothing,
            Message::ApplyCategoryFilterSingle(sel) => only_single(old(model), final(model))
                && filter_applied(
                &old(model).downloader.single,
                &final(model).downloader.single,
                sel.deep_view(),
            ) && e is Nothing,
            Message::ApplyCategoryFilterBatch(sel) => only_batch(old(model), final(model))
                && filter_applied(
                &old(model).downloader.batch,
                &final(model).downloader.batch,
                sel.deep_view(),
            ) && e is Nothing,
            Message::ApplyCategoryFilterPlaylist(sel) => only_playlist(old(model), final(model))
                && filter_applied(
                &old(model).downloader.playlist,
                &final(model).downloader.playlist,
                sel.deep_view(),
            ) && e is Nothing,
            Message::ShowAddTaskModal => final(model).active_panel == ActivePanel::Modal(
                ModalType::SourceInput,
            ) && same_but_panel(old(model), final(model)) && e is Nothing,
            Message::ToggleFocusedInput => {
                &&& final(model).input_state.focused == (match old(model).input_state.focused {
                    FocusedInput::Name => FocusedInput::Destination,
                    FocusedInput::Destination => FocusedInput::Name,
                })
                &&& final(model).input_state.source == old(model).input_state.source
                &&& final(model).input_state.destination == old(model).input_state.destination
                &&& final(model).input_state.name == old(model).input_state.name
                &&& final(model).running == old(model).running
                &&& final(model).active_panel == old(model).active_panel
                &&& final(model).active_tab == old(model).active_tab
                &&& final(model).downloader == old(model).downloader
                &&& final(model).progress == old(model).progress
                &&& final(model).modal_prompt == old(model).modal_prompt
                &&& e is Nothing
            },
            Message::ExtractMetadata => {
                &&& final(model).active_panel == ActivePanel::Modal(ModalType::Info)
                &&& final(model).modal_prompt@ == "Extracting metadata...".spec_bytes()
                &&& same_but_panel_and_prompt(old(model), final(model))
                &&& (e matches UpdateEffect::ProbeSource(src) && src@ == old(
                    model,
                ).input_state.source@)
            },
            Message::AddTaskSingle => {
                &&& final(model).active_panel == ActivePanel::Content
                &&& final(model).running == old(model).running
                &&& final(model).active_tab == old(model).active_tab
                &&& final(model).downloader == old(model).downloader
                &&& final(model).progress == old(model).progress
                &&& (old(model).input_state.destination@.len() > 0 && old(
                    model,
                ).input_state.name@.len() > 0 ==> (e matches UpdateEffect::StartDownload(req)
                    && req.source@ == old(model).input_state.source@ && req.destination@ == old(
                    model,
                ).input_state.destination@ && req.name@ == old(model).input_state.name@))
                &&& (!(old(model).input_state.destination@.len() > 0 && old(
                    model,
                ).input_state.name@.len() > 0) ==> e is Nothing)
            },
            Message::UpdateDownloadStatus(t) => only_single(old(model), final(model)) && upserted(
                &old(model).downloader.single,
                &final(model).downloader.single,
                t@,
            ) && e is Nothing,
            Message::CloseModal => final(model).active_panel == ActivePanel::Content
                && same_but_panel(old(model), final(model)) && e is Nothing,
        },
{
    match msg {
        Message::Quit => {
            let bytes = encode_store(&model.downloader);
            model.running = false;
            UpdateEffect::Save(bytes)
        },
        Message::FocusMenu => {
            model.focus_menu();
            UpdateEffect::Nothing
        },
        Message::FocusContent => {
            model.focus_content();
            UpdateEffect::Nothing
        },
        Message::SwitchNextTab => {
            model.next_tab();
            UpdateEffect::Nothing
        },
        Message::SwitchPreviousTab => {
            model.previous_tab();
            UpdateEffect::Nothing
        },
        Message::SelectNextRowSingle => {
            model.downloader.single.next_row();
            UpdateEffect::Nothing
        },
        Message::SelectNextRowBatch => {
            model.downloader.batch.next_row();
            UpdateEffect::Nothing
        },
        Message::SelectNextRowPlaylist => {
            model.downloader.playlist.next_row();
            UpdateEffect::Nothing
        },
        Message::SelectPreviousRowSingle => {
            model.downloader.single.previous_row();
            UpdateEffect::Nothing
        },
        Message::SelectPreviousRowBatch => {
            model.downloader.batch.previous_row();
            UpdateEffect::Nothing
        },
        Message::SelectPreviousRowPlaylist => {
            model.downloader.playlist.previous_row();
            UpdateEffect::Nothing
        },
        Message::ProgressUp => {
            if model.progress < FULL_PROGRESS {
                model.progress = if model.progress + 100 <= FULL_PROGRESS {
                    model.progress + 100
                } else {
                    FULL_PROGRESS
                };
            }
            UpdateEffect::Nothing
        },
        Message::ProgressDown => {
            if model.progress > 0 {
                model.progress = if model.progress >= 100 {
                    model.progress - 100
                } else {
                    0
                };
            }
            UpdateEffect::Nothing
        },
        Message::UpdateProgressSingle => {
            model.undate_progress_single();
            UpdateEffect::Nothing
        },
        Message::ApplyCategoryFilterSingle(sel) => {
            model.downloader.single.filter_downloads_by_category(&sel);
            UpdateEffect::Nothing
        },
        Message::ApplyCategoryFilterBatch(sel) => {
            model.downloader.batch.filter_downloads_by_category(&sel);
            UpdateEffect::Nothing
        },
        Message::ApplyCategoryFilterPlaylist(sel) => {
            model.downloader.playlist.filter_downloads_by_category(&sel);
            UpdateEffect::Nothing
        },
        Message::ShowAddTaskModal => {
            model.show_source_input_model();
            UpdateEffect::Nothing
        },
        Message::ToggleFocusedInput => {
            model.input_state.focused = match model.input_state.focused {
                FocusedInput::Name => FocusedInput::Destination,
                FocusedInput::Destination => FocusedInput::Name,
            };
            UpdateEffect::Nothing
        },
        Message::ExtractMetadata => {
            let src = model.input_state.source.clone();
            model.show_info_modal(slice_to_vec("Extracting metadata...".as_bytes()));
            UpdateEffect::ProbeSource(src)
        },
        Message::AddTaskSingle => {
            match model.add_task_single() {
                Some(req) => UpdateEffect::StartDownload(req),
                None => UpdateEffect::Nothing,
            }
        },
        Message::UpdateDownloadStatus(t) => {
            model.downloader.single.update_download(t);
            UpdateEffect::Nothing
        },
        Message::CloseModal => {
            model.close_modal();
            UpdateEffect::Nothing
        },
    }
}

} // verus!
