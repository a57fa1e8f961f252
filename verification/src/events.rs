//! The two channels' message vocabularies: commands into the coordinator
//! and events back out of the engine, plus the caller-side inputs that the
//! front end folds into its state.

use vstd::prelude::*;

use crate::format::Format;
use crate::job::JobId;

verus! {

/// Everything the caller's state machine reacts to: key-driven requests
/// from the front end and events emitted by the engine's tasks.
pub enum AppEvent {
    AddUrl(String),
    StartDownloads,
    OpenFormatPopup,
    CloseFormatPopup,
    FormatSelectNext,
    FormatSelectPrev,
    ToggleAudioOnly,
    ToggleApplyToAll,
    ConfirmFormat,
    CancelJob(JobId),
    RemoveJob(JobId),
    SelectNext,
    SelectPrev,
    ToggleInputMode,
    ToggleHelp,
    ToggleSysInfo,
    ToggleSettings,
    SettingsNext,
    SettingsPrev,
    SettingsIncrement,
    SettingsDecrement,
    SettingsToggleEdit,
    SettingsCharInput(char),
    SettingsBackspace,
    SaveSettings,
    CloseSettings,
    Quit,
    CancelQuit,
    ConfirmQuit,
    JobStarted { id: JobId },
    FormatsReady { id: JobId, title: String, formats: Vec<Format> },
    JobProgress { id: JobId, percent_milli: u64, speed: String, eta: String },
    JobCompleted { id: JobId, path: String },
    JobFailed { id: JobId, error: String },
    PlaylistExpanded { urls: Vec<(String, Option<String>)> },
}

/// Commands the caller sends into the coordinator's inbound channel.
pub enum WorkerCommand {
    FetchFormats { job_id: JobId, url: String },
    FetchPlaylist { url: String },
    StartJob { job_id: JobId, url: String, format_id: String },
    CancelJob(JobId),
    UpdateConcurrent(usize),
    Shutdown,
}

} // verus!
