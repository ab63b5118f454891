//! The interactive session's state: which panel has focus, which tab is
//! active, the add-task inputs, the global progress bar, and the three
//! download queues.  The state is owned by the single consumer loop; the
//! presentation layer only reads it.

use vstd::prelude::*;
use vstd::slice::slice_to_vec;
use vstd::string::StringSliceAdditionalSpecFns;

use crate::manager::{sum_progress, Downloader};
use crate::status::FULL_PROGRESS;

verus! {

/// Which kind of modal is open.
#[derive(Clone, Copy, Debug, PartialEq, Eq, Structural)]
pub enum ModalType {
    Info,
    Error,
    SourceInput,
    DestinationInput,
    Confirm,
}

/// Which panel owns the keyboard.
#[derive(Clone, Copy, Debug, PartialEq, Eq, Structural)]
pub enum ActivePanel {
    Content,
    Menu,
    Modal(ModalType),
}

/// The tab shown in the content area.
#[derive(Clone, Copy, Debug, PartialEq, Eq, Structural)]
pub enum ActiveTab {
    Single,
    Batch,
    Playlist,
    Settings,
    About,
}

impl ActiveTab {
    /// Position of the tab in the tab row.
    pub open spec fn index(self) -> int {
        match self {
            ActiveTab::Single => 0,
            ActiveTab::Batch => 1,
            ActiveTab::Playlist => 2,
            ActiveTab::Settings => 3,
            ActiveTab::About => 4,
        }
    }

    /// The tab at a position; anything past the last tab wraps to the
    /// first.
    pub open spec fn spec_at_index(i: int) -> ActiveTab {
        if i == 0 {
            ActiveTab::Single
        } else if i == 1 {
            ActiveTab::Batch
        } else if i == 2 {
            ActiveTab::Playlist
        } else if i == 3 {
            ActiveTab::Settings
        } else if i == 4 {
            ActiveTab::About
        } else {
            ActiveTab::Single
        }
    }

    /// The tab before this one; the first tab stays put.
    pub fn previous(self) -> (r: ActiveTab)
        ensures
            r == ActiveTab::spec_at_index(
                if self.index() == 0 {
                    0int
                } else {
                    self.index() - 1
                },
            ),
    {
        match self {
            ActiveTab::Single => ActiveTab::Single,
            ActiveTab::Batch => ActiveTab::Single,
            ActiveTab::Playlist => ActiveTab::Batch,
            ActiveTab::Settings => ActiveTab::Playlist,
            ActiveTab::About => ActiveTab::Settings,
        }
    }

    /// The tab after this one; past the last tab the row wraps to the
    /// first.
    pub fn next(self) -> (r: ActiveTab)
        ensures
            r == ActiveTab::spec_at_index(self.index() + 1),
    {
        match self {
            ActiveTab::Single => ActiveTab::Batch,
            ActiveTab::Batch => ActiveTab::Playlist,
            ActiveTab::Playlist => ActiveTab::Settings,
            ActiveTab::Settings => ActiveTab::About,
            ActiveTab::About => ActiveTab::Single,
        }
    }
}

/// Which of the two add-task inputs is being edited.
#[derive(Clone, Copy, Debug, PartialEq, Eq, Structural)]
pub enum FocusedInput {
    Name,
    Destination,
}

/// The text of the add-task inputs.  The surrounding binary owns the line
/// editing and may prefill the destination with a download directory.
pub struct InputState {
    pub source: Vec<u8>,
    pub destination: Vec<u8>,
    pub name: Vec<u8>,
    pub focused: FocusedInput,
}

impl InputState {
    /// Empty inputs, the name field focused.
    pub fn new() -> (r: InputState)
        ensures
            r.source@.len() == 0,
            r.destination@.len() == 0,
            r.name@.len() == 0,
            r.focused == FocusedInput::Name,
    {
        InputState {
            source: Vec::new(),
            destination: Vec::new(),
            name: Vec::new(),
            focused: FocusedInput::Name,
        }
    }
}

/// What the session must start outside the library after a task is
/// submitted: run the job for this source, writing under this name into
/// this destination directory.
pub struct JobRequest {
    pub source: Vec<u8>,
    pub destination: Vec<u8>,
    pub name: Vec<u8>,
}

/// The whole session state.
pub struct Model {
    /// The consumer loop runs while this holds.
    pub running: bool,
    pub active_panel: ActivePanel,
    pub active_tab: ActiveTab,
    pub downloader: Downloader,
    /// The global progress bar, in hundredths of a percent.
    pub progress: u32,
    pub input_state: InputState,
    /// The text shown by an info or error modal.
    pub modal_prompt: Vec<u8>,
}

impl Model {
    /// The session invariant: the queues hold their registry invariant
    /// and the progress bar stays in range.
    pub open spec fn wf(&self) -> bool {
        self.downloader.wf() && self.progress <= FULL_PROGRESS
    }

    /// A fresh session: running, content focused, first tab, empty
    /// queues and inputs.
    pub fn new() -> (m: Model)
        ensures
            m.wf(),
            m.running,
            m.active_panel == ActivePanel::Content,
            m.active_tab == ActiveTab::Single,
            m.progress == 0,
            m.downloader.single.downloads_view().len() == 0,
            m.downloader.batch.downloads_view().len() == 0,
            m.downloader.playlist.downloads_view().len() == 0,
    {
        Model {
            running: true,
            active_panel: ActivePanel::Content,
            active_tab: ActiveTab::Single,
            downloader: Downloader::new(),
            progress: 0,
            input_state: InputState::new(),
            modal_prompt: Vec::new(),
        }
    }

    /// Switch to the previous tab.
    pub fn previous_tab(&mut self)
        ensures
            final(self).active_tab == old(self).active_tab.previous_spec(),
            same_but_tab(old(self), final(self)),
    {
        self.active_tab = self.active_tab.previous();
    }

    /// Switch to the next tab.
    pub fn next_tab(&mut self)
        ensures
            final(self).active_tab == old(self).active_tab.next_spec(),
            same_but_tab(old(self), final(self)),
    {
        self.active_tab = self.active_tab.next();
    }

    /// Give the content panel the keyboard.
    pub fn focus_content(&mut self)
        ensures
            final(self).active_panel == ActivePanel::Content,
            same_but_panel(old(self), final(self)),
    {
        self.active_panel = ActivePanel::Content;
    }

    /// Give the menu panel the keyboard.
    pub fn focus_menu(&mut self)
        ensures
            final(self).active_panel == ActivePanel::Menu,
            same_but_panel(old(self), final(self)),
    {
        self.active_panel = ActivePanel::Menu;
    }

    /// Open the source-input modal.
    pub fn show_source_input_model(&mut self)
        ensures
            final(self).active_panel == ActivePanel::Modal(ModalType::SourceInput),
            same_but_panel(old(self), final(self)),
    {
        self.active_panel = ActivePanel::Modal(ModalType::SourceInput);
    }

    /// Open the destination-input modal.
    pub fn show_destination_input_modal(&mut self)
        ensures
            final(self).active_panel == ActivePanel::Modal(ModalType::DestinationInput),
            same_but_panel(old(self), final(self)),
    {
        self.active_panel = ActivePanel::Modal(ModalType::DestinationInput);
    }

    /// Open the confirmation modal.
    pub fn show_confirm_modal(&mut self)
        ensures
            final(self).active_panel == ActivePanel::Modal(ModalType::Confirm),
            same_but_panel(old(self), final(self)),
    {
        self.active_panel = ActivePanel::Modal(ModalType::Confirm);
    }

    /// Open the info modal over a prompt.
    pub fn show_info_modal(&mut self, prompt: Vec<u8>)
        ensures
            final(self).active_panel == ActivePanel::Modal(ModalType::Info),
            final(self).modal_prompt@ == prompt@,
            same_but_panel_and_prompt(old(self), final(self)),
    {
        self.modal_prompt = prompt;
        self.active_panel = ActivePanel::Modal(ModalType::Info);
    }

    /// Open the error modal over a prompt.
    pub fn show_error_modal(&mut self, prompt: Vec<u8>)
        ensures
            final(self).active_panel == ActivePanel::Modal(ModalType::Error),
            final(self).modal_prompt@ == prompt@,
            same_but_panel_and_prompt(old(self), final(self)),
    {
        self.modal_prompt = prompt;
        self.active_panel = ActivePanel::Modal(ModalType::Error);
    }

    /// Close any modal and return the keyboard to the content panel.
    pub fn close_modal(&mut self)
        ensures
            final(self).active_panel == ActivePanel::Content,
            same_but_panel(old(self), final(self)),
    {
        self.active_panel = ActivePanel::Content;
    }

    /// Raise the global progress bar to the mean progress of the single
    /// queue, never lowering it.
    pub fn undate_progress_single(&mut self)
        requires
            old(self).wf(),
        ensures
            final(self).wf(),
            final(self).progress == spec_max_progress(
                old(self).progress as int,
                spec_single_average(old(self)),
            ),
            same_but_progress(old(self), final(self)),
    {
        let avg = self.downloader.single.average_progress();
        if self.progress <= avg {
            self.progress = avg;
        }
    }

    /// Take the result of resolving a source's file name: a resolved name
    /// fills the name input and opens the destination modal; a failure
    /// message opens the error modal and resets the inputs.
    pub fn extract_metadata(&mut self, resolved: Result<Vec<u8>, Vec<u8>>)
        ensures
            match resolved {
                Result::Ok(name) => {
                    &&& final(self).input_state.name@ == name@
                    &&& final(self).input_state.source == old(self).input_state.source
                    &&& final(self).input_state.destination == old(self).input_state.destination
                    &&& final(self).input_state.focused == old(self).input_state.focused
                    &&& final(self).active_panel == ActivePanel::Modal(ModalType::DestinationInput)
                    &&& final(self).modal_prompt == old(self).modal_prompt
                },
                Result::Err(msg) => {
                    &&& final(self).active_panel == ActivePanel::Modal(ModalType::Error)
                    &&& final(self).modal_prompt@ == msg@
                    &&& final(self).input_state.source@.len() == 0
                    &&& final(self).input_state.destination@.len() == 0
                    &&& final(self).input_state.name@.len() == 0
                },
            },
            final(self).running == old(self).running,
            final(self).active_tab == old(self).active_tab,
            final(self).downloader == old(self).downloader,
            final(self).progress == old(self).progress,
    {
        match resolved {
            Ok(name) => {
                self.input_state.name = name;
                self.active_panel = ActivePanel::Modal(ModalType::DestinationInput);
            },
            Err(msg) => {
                self.modal_prompt = msg;
                self.active_panel = ActivePanel::Modal(ModalType::Error);
                self.input_state = InputState::new();
            },
        }
    }

    /// Submit the add-task inputs as one job for the single queue.  An
    /// empty destination or name is rejected with an error prompt and no
    /// job; otherwise the inputs become the job request and are reset.
    /// Either way the content panel takes the keyboard back.
    pub fn add_task_single(&mut self) -> (r: Option<JobRequest>)
        ensures
            final(self).active_panel == ActivePanel::Content,
            final(self).running == old(self).running,
            final(self).active_tab == old(self).active_tab,
            final(self).downloader == old(self).downloader,
            final(self).progress == old(self).progress,
            old(self).input_state.destination@.len() == 0 ==> {
                &&& r is None
                &&& final(self).modal_prompt@ == "Destination cannot be empty".spec_bytes()
                &&& final(self).input_state == old(self).input_state
            },
            old(self).input_state.destination@.len() > 0 && old(self).input_state.name@.len() == 0
                ==> {
                &&& r is None
                &&& final(self).modal_prompt@ == "Name cannot be empty".spec_bytes()
                &&& final(self).input_state == old(self).input_state
            },
            old(self).input_state.destination@.len() > 0 && old(self).input_state.name@.len() > 0
                ==> {
                &&& r is Some
                &&& r.unwrap().source@ == old(self).input_state.source@
                &&& r.unwrap().destination@ == old(self).input_state.destination@
                &&& r.unwrap().name@ == old(self).input_state.name@
                &&& final(self).input_state.source@.len() == 0
                &&& final(self).input_state.destination@.len() == 0
                &&& final(self).input_state.name@.len() == 0
                &&& final(self).modal_prompt == old(self).modal_prompt
            },
    {
        if self.input_state.destination.len() == 0 {
            self.modal_prompt = slice_to_vec("Destination cannot be empty".as_bytes());
            self.active_panel = ActivePanel::Content;
            return None;
        }
        if self.input_state.name.len() == 0 {
            self.modal_prompt = slice_to_vec("Name cannot be empty".as_bytes());
            self.active_panel = ActivePanel::Content;
            return None;
        }
        let r = JobRequest {
            source: self.input_state.source.clone(),
            destination: self.input_state.destination.clone(),
            name: self.input_state.name.clone(),
        };
        self.input_state = InputState::new();
        self.active_panel = ActivePanel::Content;
        Some(r)
    }
}

impl ActiveTab {
    /// Title of the tab in the tab row.
    pub open spec fn spec_label(self) -> Seq<char> {
        match self {
            ActiveTab::Single => "Single"@,
            ActiveTab::Batch => "Batch"@,
            ActiveTab::Playlist => "Playlist"@,
            ActiveTab::Settings => "Settings"@,
            ActiveTab::About => "About"@,
        }
    }

    /// Title shown for the tab.
    pub fn label(self) -> (r: &'static str)
        ensures
            r@ == self.spec_label(),
    {
        match self {
            ActiveTab::Single => "Single",
            ActiveTab::Batch => "Batch",
            ActiveTab::Playlist => "Playlist",
            ActiveTab::Settings => "Settings",
            ActiveTab::About => "About",
        }
    }

    /// The tab [`ActiveTab::previous`] returns.
    pub open spec fn previous_spec(self) -> ActiveTab {
        ActiveTab::spec_at_index(
            if self.index() == 0 {
                0int
            } else {
                self.index() - 1
            },
        )
    }

    /// The tab [`ActiveTab::next`] returns.
    pub open spec fn next_spec(self) -> ActiveTab {
        ActiveTab::spec_at_index(self.index() + 1)
    }
}

/// The larger of the current progress and the queue average.
pub open spec fn spec_max_progress(cur: int, avg: int) -> int {
    if cur <= avg {
        avg
    } else {
        cur
    }
}

/// Mean progress of the single queue, zero when it is empty.
pub open spec fn spec_single_average(m: &Model) -> int {
    let d = m.downloader.single.downloads_view();
    if d.len() == 0 {
        0
    } else {
        sum_progress(d) / (d.len() as int)
    }
}

/// Equal in everything but the active tab.
pub open spec fn same_but_tab(a: &Model, b: &Model) -> bool {
    &&& a.running == b.running
    &&& a.active_panel == b.active_panel
    &&& a.downloader == b.downloader
    &&& a.progress == b.progress
    &&& a.input_state == b.input_state
    &&& a.modal_prompt == b.modal_prompt
}

/// Equal in everything but the focused panel.
pub open spec fn same_but_panel(a: &Model, b: &Model) -> bool {
    &&& a.running == b.running
    &&& a.active_tab == b.active_tab
    &&& a.downloader == b.downloader
    &&& a.progress == b.progress
    &&& a.input_state == b.input_state
    &&& a.modal_prompt == b.modal_prompt
}

/// Equal in everything but the focused panel and the modal prompt.
pub open spec fn same_but_panel_and_prompt(a: &Model, b: &Model) -> bool {
    &&& a.running == b.running
    &&& a.active_tab == b.active_tab
    &&& a.downloader == b.downloader
    &&& a.progress == b.progress
    &&& a.input_state == b.input_state
}

/// Equal in everything but the global progress bar.
pub open spec fn same_but_progress(a: &Model, b: &Model) -> bool {
    &&& a.running == b.running
    &&& a.active_panel == b.active_panel
    &&& a.active_tab == b.active_tab
    &&& a.downloader == b.downloader
    &&& a.input_state == b.input_state
    &&& a.modal_prompt == b.modal_prompt
}

} // verus!
