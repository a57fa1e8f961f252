//! The caller-side state machine: the job collection and the interface
//! state, folded from events.
//!
//! The engine never touches this state: its tasks emit narrow events, and
//! `handle_event` folds each one into the collection. Requests that need
//! the outside world — a command to the coordinator, a configuration
//! save — are returned as actions for the runtime to perform.

use vstd::prelude::*;
use vstd::string::StrSliceExecFns;
use vstd::string::StringExecFns;

use crate::config::{Config, SettingsState};
use crate::events::{AppEvent, WorkerCommand};
use crate::format::{spec_filtered_formats, Format, FormatPopupState};
use crate::job::{opt_view, spec_can_select_format, Job, JobId, JobStatus, JobV, StatusCounts, StatusV};
use crate::strutil::{
    contains_sub, contains_sub_exec, pop_char, push_char, trim_str, trimmed,
};

verus! {

/// What the runtime must do after folding one event.
pub enum AppAction {
    /// Send this command to the coordinator (best effort: a full channel
    /// drops it).
    Send(WorkerCommand),
    /// Persist the configuration.
    SaveConfig,
}

/// The whole caller-side state.
pub struct App {
    pub jobs: Vec<Job>,
    pub selected_index: usize,
    pub input_buffer: String,
    pub input_mode: bool,
    pub show_help: bool,
    pub show_sysinfo: bool,
    pub should_quit: bool,
    pub confirm_quit: bool,
    pub loading_playlists: usize,
    pub spinner_frame: usize,
    pub format_popup: Option<FormatPopupState>,
    pub settings_popup: Option<SettingsState>,
    pub config: Config,
}

/// A URL that names a playlist rather than a single item.
pub open spec fn spec_is_playlist_url(u: Seq<char>) -> bool {
    ||| contains_sub(u, "youtube.com/playlist"@)
    ||| contains_sub(u, "youtu.be/playlist"@)
    ||| (contains_sub(u, "youtube.com/watch"@) && contains_sub(u, "&list="@))
    ||| (contains_sub(u, "youtu.be/"@) && contains_sub(u, "?list="@))
}

pub fn is_playlist_url(url: &str) -> (r: bool)
    ensures
        r == spec_is_playlist_url(url@),
{
    contains_sub_exec(url, "youtube.com/playlist") || contains_sub_exec(url, "youtu.be/playlist")
        || (contains_sub_exec(url, "youtube.com/watch") && contains_sub_exec(url, "&list="))
        || (contains_sub_exec(url, "youtu.be/") && contains_sub_exec(url, "?list="))
}

/// Some job in the collection carries this identifier.
pub open spec fn has_job(jobs: Seq<Job>, id: JobId) -> bool {
    exists|i: int| 0 <= i < jobs.len() && jobs[i].id == id
}

/// Index of the first job carrying `id` (meaningful only when present):
/// events address the first match, as the folding loop does.
pub open spec fn job_index(jobs: Seq<Job>, id: JobId) -> int
    decreases jobs.len(),
{
    if jobs.len() == 0 {
        0
    } else if jobs.first().id == id {
        0
    } else {
        1 + job_index(jobs.drop_first(), id)
    }
}

/// The single-job event folding: if a job carries `id`, its image is
/// rewritten by `f` and every other job is untouched; an unknown
/// identifier changes nothing. Nothing else of the state moves.
pub open spec fn job_update(pre: App, post: App, id: JobId, f: spec_fn(JobV) -> JobV) -> bool {
    &&& post == App { jobs: post.jobs, ..pre }
    &&& if has_job(pre.jobs@, id) {
        let i = job_index(pre.jobs@, id);
        &&& post.jobs@.len() == pre.jobs@.len()
        &&& forall|k: int|
            0 <= k < pre.jobs@.len() && k != i ==> post.jobs@[k] == pre.jobs@[k]
        &&& post.jobs@[i]@ == f(pre.jobs@[i]@)
    } else {
        post.jobs == pre.jobs
    }
}

/// The start commands owed for a pass over the queue: one per job that is
/// queued with a chosen format, in order — identifier, URL, format.
pub open spec fn start_list(jobs: Seq<Job>) -> Seq<(JobId, Seq<char>, Seq<char>)>
    decreases jobs.len(),
{
    if jobs.len() == 0 {
        Seq::empty()
    } else {
        start_list(jobs.drop_last()) + if jobs.last().status is Queued
            && jobs.last().selected_format is Some {
            seq![
                (
                    jobs.last().id,
                    jobs.last().url@,
                    jobs.last().selected_format->0.format_id@,
                ),
            ]
        } else {
            Seq::empty()
        }
    }
}

/// What folding one event does: the full transition relation of the
/// caller's state machine, one arm per event.
pub open spec fn app_step(pre: App, event: AppEvent, post: App, acts: Seq<AppAction>) -> bool {
    match event {
        AppEvent::AddUrl(url) => {
            let t = trimmed(url@);
            if t.len() == 0 {
                post == pre && acts.len() == 0
            } else if spec_is_playlist_url(t) {
                &&& post == App { loading_playlists: post.loading_playlists, ..pre }
                &&& post.loading_playlists == if pre.loading_playlists < usize::MAX {
                    (pre.loading_playlists + 1) as usize
                } else {
                    usize::MAX
                }
                &&& acts.len() == 1
                &&& acts[0] matches AppAction::Send(WorkerCommand::FetchPlaylist { url: u })
                    && u@ == t
            } else {
                &&& post == App { jobs: post.jobs, ..pre }
                &&& post.jobs@.len() == pre.jobs@.len() + 1
                &&& forall|k: int| 0 <= k < pre.jobs@.len() ==> post.jobs@[k] == pre.jobs@[k]
                &&& ({
                    let nj = post.jobs@[pre.jobs@.len() as int]@;
                    nj.url == t && nj.title is None && nj.status is FetchingFormats
                        && nj.formats.len() == 0 && nj.selected_format is None
                        && nj.output_path is None
                })
                &&& acts.len() == 1
                &&& acts[0] matches AppAction::Send(
                    WorkerCommand::FetchFormats { job_id, url: u },
                ) && job_id == post.jobs@[pre.jobs@.len() as int].id && u@ == t
            }
        },
        AppEvent::ToggleInputMode => post == App { input_mode: !pre.input_mode, ..pre }
            && acts.len() == 0,
        AppEvent::SelectNext => {
            &&& acts.len() == 0
            &&& if pre.jobs@.len() > 0 {
                post == App { selected_index: post.selected_index, ..pre }
                    && post.selected_index == ({
                    let m = pre.selected_index as int % pre.jobs@.len() as int;
                    if m + 1 == pre.jobs@.len() {
                        0
                    } else {
                        m + 1
                    }
                })
            } else {
                post == pre
            }
        },
        AppEvent::SelectPrev => {
            &&& acts.len() == 0
            &&& if pre.jobs@.len() > 0 {
                post == App { selected_index: post.selected_index, ..pre }
                    && post.selected_index == if pre.selected_index == 0 {
                    pre.jobs@.len() - 1
                } else {
                    pre.selected_index - 1
                }
            } else {
                post == pre
            }
        },
        AppEvent::OpenFormatPopup => {
            &&& acts.len() == 0
            &&& if pre.selected_index < pre.jobs@.len() && spec_can_select_format(
                pre.jobs@[pre.selected_index as int],
            ) {
                &&& post == App { format_popup: post.format_popup, ..pre }
                &&& post.format_popup matches Some(p) && p.job_index == pre.selected_index
                    && p.formats@ == pre.jobs@[pre.selected_index as int].formats@
                    && p.selected == 0 && p.scroll_offset == 0 && !p.audio_only
                    && !p.apply_to_all
            } else {
                post == pre
            }
        },
        AppEvent::CloseFormatPopup => post == App { format_popup: None, ..pre } && acts.len()
            == 0,
        AppEvent::FormatSelectNext => {
            &&& acts.len() == 0
            &&& match pre.format_popup {
                Some(p) => {
                    let flen = spec_filtered_formats(p).len() as int;
                    if flen > 0 {
                        let m = p.selected as int % flen;
                        let ns: int = if m + 1 == flen {
                            0
                        } else {
                            m + 1
                        };
                        let nsc: int = if ns >= p.scroll_offset + 10 {
                            if ns >= 9 {
                                ns - 9
                            } else {
                                0
                            }
                        } else if ns < p.scroll_offset {
                            ns
                        } else {
                            p.scroll_offset as int
                        };
                        {
                            &&& post == App { format_popup: post.format_popup, ..pre }
                            &&& post.format_popup matches Some(p2) && p2 == FormatPopupState {
                                selected: ns as usize,
                                scroll_offset: nsc as usize,
                                ..p
                            }
                        }
                    } else {
                        post == pre
                    }
                },
                None => post == pre,
            }
        },
        AppEvent::FormatSelectPrev => {
            &&& acts.len() == 0
            &&& match pre.format_popup {
                Some(p) => {
                    let flen = spec_filtered_formats(p).len() as int;
                    if flen > 0 {
                        let ns: int = if p.selected == 0 {
                            flen - 1
                        } else {
                            p.selected - 1
                        };
                        let nsc: int = if ns < p.scroll_offset {
                            ns
                        } else {
                            p.scroll_offset as int
                        };
                        {
                            &&& post == App { format_popup: post.format_popup, ..pre }
                            &&& post.format_popup matches Some(p2) && p2 == FormatPopupState {
                                selected: ns as usize,
                                scroll_offset: nsc as usize,
                                ..p
                            }
                        }
                    } else {
                        post == pre
                    }
                },
                None => post == pre,
            }
        },
        AppEvent::ToggleAudioOnly => {
            &&& acts.len() == 0
            &&& match pre.format_popup {
                Some(p) => {
                    &&& post == App { format_popup: post.format_popup, ..pre }
                    &&& post.format_popup matches Some(p2) && p2 == FormatPopupState {
                        audio_only: !p.audio_only,
                        selected: 0,
                        scroll_offset: 0,
                        ..p
                    }
                },
                None => post == pre,
            }
        },
        AppEvent::ToggleApplyToAll => {
            &&& acts.len() == 0
            &&& match pre.format_popup {
                Some(p) => {
                    &&& post == App { format_popup: post.format_popup, ..pre }
                    &&& post.format_popup matches Some(p2) && p2 == FormatPopupState {
                        apply_to_all: !p.apply_to_all,
                        ..p
                    }
                },
                None => post == pre,
            }
        },
        AppEvent::ConfirmFormat => {
            &&& acts.len() == 0
            &&& match pre.format_popup {
                None => post == pre,
                Some(p) => {
                    let ff = spec_filtered_formats(p);
                    if p.selected >= ff.len() {
                        post == App { format_popup: None, ..pre }
                    } else {
                        let f = ff[p.selected as int];
                        &&& post == App { format_popup: None, jobs: post.jobs, ..pre }
                        &&& post.jobs@.len() == pre.jobs@.len()
                        &&& if p.apply_to_all {
                            forall|k: int|
                                0 <= k < pre.jobs@.len() ==> #[trigger] post.jobs@[k]@
                                    == if spec_can_select_format(pre.jobs@[k]) {
                                    JobV {
                                        selected_format: Some(f),
                                        status: StatusV::Queued,
                                        ..pre.jobs@[k]@
                                    }
                                } else {
                                    pre.jobs@[k]@
                                }
                        } else {
                            forall|k: int|
                                0 <= k < pre.jobs@.len() ==> #[trigger] post.jobs@[k]@ == if k
                                    == p.job_index {
                                    JobV {
                                        selected_format: Some(f),
                                        status: StatusV::Queued,
                                        ..pre.jobs@[k]@
                                    }
                                } else {
                                    pre.jobs@[k]@
                                }
                        }
                    }
                },
            }
        },
        AppEvent::StartDownloads => {
            let wanted = start_list(pre.jobs@);
            &&& post == pre
            &&& acts.len() == wanted.len()
            &&& forall|q: int|
                0 <= q < wanted.len() ==> (#[trigger] acts[q] matches AppAction::Send(
                    WorkerCommand::StartJob { job_id, url, format_id },
                ) && job_id == wanted[q].0 && url@ == wanted[q].1 && format_id@ == wanted[q].2)
        },
        AppEvent::CancelJob(id) => {
            &&& acts.len() == 1
            &&& acts[0] == AppAction::Send(WorkerCommand::CancelJob(id))
            &&& job_update(pre, post, id, |j: JobV| JobV { status: StatusV::Cancelled, ..j })
        },
        AppEvent::RemoveJob(id) => {
            let kept = pre.jobs@.filter(|j: Job| j.id != id);
            &&& acts.len() == 0
            &&& post == App { jobs: post.jobs, selected_index: post.selected_index, ..pre }
            &&& post.jobs@ == kept
            &&& post.selected_index == if pre.selected_index >= kept.len() && kept.len() > 0 {
                kept.len() - 1
            } else {
                pre.selected_index as int
            }
        },
        AppEvent::ToggleHelp => post == App { show_help: !pre.show_help, ..pre } && acts.len()
            == 0,
        AppEvent::ToggleSysInfo => post == App { show_sysinfo: !pre.show_sysinfo, ..pre }
            && acts.len() == 0,
        AppEvent::Quit => {
            if !pre.confirm_quit {
                post == App { confirm_quit: true, ..pre } && acts.len() == 0
            } else {
                &&& post == App { should_quit: true, ..pre }
                &&& acts.len() == 1
                &&& acts[0] == AppAction::Send(WorkerCommand::Shutdown)
            }
        },
        AppEvent::CancelQuit => post == App { confirm_quit: false, ..pre } && acts.len() == 0,
        AppEvent::ConfirmQuit => {
            &&& post == App { should_quit: true, ..pre }
            &&& acts.len() == 1
            &&& acts[0] == AppAction::Send(WorkerCommand::Shutdown)
        },
        AppEvent::JobStarted { id } => acts.len() == 0 && job_update(
            pre,
            post,
            id,
            |j: JobV|
                JobV {
                    status: StatusV::Downloading {
                        percent_milli: 0,
                        speed: "--"@,
                        eta: "--"@,
                    },
                    ..j
                },
        ),
        AppEvent::FormatsReady { id, title, formats } => acts.len() == 0 && job_update(
            pre,
            post,
            id,
            |j: JobV|
                if formats@.len() == 0 {
                    JobV {
                        title: Some(title@),
                        status: StatusV::Failed("No formats found"@),
                        ..j
                    }
                } else {
                    JobV {
                        title: Some(title@),
                        formats: formats@,
                        status: StatusV::Ready { formats: formats@ },
                        ..j
                    }
                },
        ),
        AppEvent::JobProgress { id, percent_milli, speed, eta } => acts.len() == 0
            && job_update(
            pre,
            post,
            id,
            |j: JobV|
                JobV {
                    status: StatusV::Downloading { percent_milli, speed: speed@, eta: eta@ },
                    ..j
                },
        ),
        AppEvent::JobCompleted { id, path } => acts.len() == 0 && job_update(
            pre,
            post,
            id,
            |j: JobV| JobV { status: StatusV::Completed, output_path: Some(path@), ..j },
        ),
        AppEvent::JobFailed { id, error } => acts.len() == 0 && job_update(
            pre,
            post,
            id,
            |j: JobV| JobV { status: StatusV::Failed(error@), ..j },
        ),
        AppEvent::ToggleSettings => {
            &&& acts.len() == 0
            &&& match pre.settings_popup {
                Some(s) => post == App { settings_popup: None, ..pre },
                None => {
                    &&& post == App { settings_popup: post.settings_popup, ..pre }
                    &&& post.settings_popup matches Some(s) && s.selected_field == 0
                        && s.concurrent_downloads == pre.config.max_concurrent_downloads
                        && s.output_dir@ == pre.config.output_dir@ && !s.editing_path
                },
            }
        },
        AppEvent::CloseSettings => post == App { settings_popup: None, ..pre } && acts.len()
            == 0,
        AppEvent::SettingsNext => {
            &&& acts.len() == 0
            &&& match pre.settings_popup {
                Some(s) => {
                    &&& post == App { settings_popup: post.settings_popup, ..pre }
                    &&& post.settings_popup matches Some(s2) && s2 == SettingsState {
                        selected_field: 1,
                        editing_path: false,
                        ..s
                    }
                },
                None => post == pre,
            }
        },
        AppEvent::SettingsPrev => {
            &&& acts.len() == 0
            &&& match pre.settings_popup {
                Some(s) => {
                    &&& post == App { settings_popup: post.settings_popup, ..pre }
                    &&& post.settings_popup matches Some(s2) && s2 == SettingsState {
                        selected_field: if s.selected_field == 0 {
                            0
                        } else {
                            (s.selected_field - 1) as usize
                        },
                        editing_path: false,
                        ..s
                    }
                },
                None => post == pre,
            }
        },
        AppEvent::SettingsIncrement => {
            &&& acts.len() == 0
            &&& match pre.settings_popup {
                Some(s) => if s.selected_field == 0 {
                    &&& post == App { settings_popup: post.settings_popup, ..pre }
                    &&& post.settings_popup matches Some(s2) && s2 == SettingsState {
                        concurrent_downloads: if s.concurrent_downloads + 1 < 10 {
                            (s.concurrent_downloads + 1) as usize
                        } else {
                            10
                        },
                        ..s
                    }
                } else {
                    post == pre
                },
                None => post == pre,
            }
        },
        AppEvent::SettingsDecrement => {
            &&& acts.len() == 0
            &&& match pre.settings_popup {
                Some(s) => if s.selected_field == 0 {
                    &&& post == App { settings_popup: post.settings_popup, ..pre }
                    &&& post.settings_popup matches Some(s2) && s2 == SettingsState {
                        concurrent_downloads: if s.concurrent_downloads <= 2 {
                            1
                        } else {
                            (s.concurrent_downloads - 1) as usize
                        },
                        ..s
                    }
                } else {
                    post == pre
                },
                None => post == pre,
            }
        },
        AppEvent::SettingsToggleEdit => {
            &&& acts.len() == 0
            &&& match pre.settings_popup {
                Some(s) => if s.selected_field == 1 {
                    &&& post == App { settings_popup: post.settings_popup, ..pre }
                    &&& post.settings_popup matches Some(s2) && s2 == SettingsState {
                        editing_path: !s.editing_path,
                        ..s
                    }
                } else {
                    post == pre
                },
                None => post == pre,
            }
        },
        AppEvent::SettingsCharInput(c) => {
            &&& acts.len() == 0
            &&& match pre.settings_popup {
                Some(s) => if s.editing_path {
                    &&& post == App { settings_popup: post.settings_popup, ..pre }
                    &&& post.settings_popup matches Some(s2) && s2.selected_field
                        == s.selected_field && s2.concurrent_downloads == s.concurrent_downloads
                        && s2.editing_path == s.editing_path && s2.output_dir@
                        == s.output_dir@.push(c)
                } else {
                    post == pre
                },
                None => post == pre,
            }
        },
        AppEvent::SettingsBackspace => {
            &&& acts.len() == 0
            &&& match pre.settings_popup {
                Some(s) => if s.editing_path {
                    &&& post == App { settings_popup: post.settings_popup, ..pre }
                    &&& post.settings_popup matches Some(s2) && s2.selected_field
                        == s.selected_field && s2.concurrent_downloads == s.concurrent_downloads
                        && s2.editing_path == s.editing_path && s2.output_dir@ == if s.output_dir@.len() > 0 {
                        s.output_dir@.drop_last()
                    } else {
                        s.output_dir@
                    }
                } else {
                    post == pre
                },
                None => post == pre,
            }
        },
        AppEvent::SaveSettings => {
            match pre.settings_popup {
                None => post == pre && acts.len() == 0,
                Some(s) => {
                    &&& post == App {
                        settings_popup: None,
                        config: post.config,
                        ..pre
                    }
                    &&& post.config.max_concurrent_downloads == s.concurrent_downloads
                    &&& post.config.output_dir == s.output_dir
                    &&& post.config.output_template == pre.config.output_template
                    &&& post.config.default_format == pre.config.default_format
                    &&& acts.len() == 2
                    &&& acts[0] == AppAction::Send(
                        WorkerCommand::UpdateConcurrent(s.concurrent_downloads),
                    )
                    &&& acts[1] == AppAction::SaveConfig
                },
            }
        },
        AppEvent::PlaylistExpanded { urls } => {
            &&& post == App {
                jobs: post.jobs,
                loading_playlists: post.loading_playlists,
                ..pre
            }
            &&& post.loading_playlists == if pre.loading_playlists > 0 {
                (pre.loading_playlists - 1) as usize
            } else {
                0
            }
            &&& post.jobs@.len() == pre.jobs@.len() + urls@.len()
            &&& forall|k: int| 0 <= k < pre.jobs@.len() ==> post.jobs@[k] == pre.jobs@[k]
            &&& forall|q: int|
                0 <= q < urls@.len() ==> ({
                    let nj = (#[trigger] post.jobs@[pre.jobs@.len() + q])@;
                    nj.url == urls@[q].0@ && nj.title == opt_view(urls@[q].1)
                        && nj.status is FetchingFormats && nj.formats.len() == 0
                        && nj.selected_format is None && nj.output_path is None
                })
            &&& acts.len() == urls@.len()
            &&& forall|q: int|
                0 <= q < urls@.len() ==> (#[trigger] acts[q] matches AppAction::Send(
                    WorkerCommand::FetchFormats { job_id, url: u },
                ) && job_id == post.jobs@[pre.jobs@.len() + q].id && u@ == urls@[q].0@)
        },
    }
}

/// How many jobs satisfy `p`.
pub open spec fn count_matching(jobs: Seq<Job>, p: spec_fn(Job) -> bool) -> int
    decreases jobs.len(),
{
    if jobs.len() == 0 {
        0
    } else {
        count_matching(jobs.drop_last(), p) + if p(jobs.last()) {
            1int
        } else {
            0int
        }
    }
}

/// Sum of the percentages of the jobs that are downloading, in
/// thousandths of a percent.
pub open spec fn sum_milli(jobs: Seq<Job>) -> int
    decreases jobs.len(),
{
    if jobs.len() == 0 {
        0
    } else {
        sum_milli(jobs.drop_last()) + match jobs.last().status@ {
            StatusV::Downloading { percent_milli, .. } => percent_milli as int,
            _ => 0int,
        }
    }
}

/// `job_index` of a present identifier lies inside the collection and
/// hits a job carrying it.
pub proof fn lemma_job_index_bounds(jobs: Seq<Job>, id: JobId)
    requires
        has_job(jobs, id),
    ensures
        0 <= job_index(jobs, id) < jobs.len(),
        jobs[job_index(jobs, id)].id == id,
    decreases jobs.len(),
{
    if jobs.first().id == id {
    } else {
        assert(has_job(jobs.drop_first(), id)) by {
            let q = choose|q: int| 0 <= q < jobs.len() && jobs[q].id == id;
            assert(jobs.drop_first()[q - 1] == jobs[q]);
        }
        lemma_job_index_bounds(jobs.drop_first(), id);
        assert(jobs[1 + job_index(jobs.drop_first(), id)] == jobs.drop_first()[job_index(
            jobs.drop_first(),
            id,
        )]);
    }
}

/// A metadata fetch that succeeds but offers no format leaves the job
/// failed with the fixed diagnostic; a `Ready` status always carries a
/// non-empty format list — never an empty-but-successful one.
pub proof fn lemma_empty_formats_fail(
    pre: App,
    id: JobId,
    title: String,
    formats: Vec<Format>,
    post: App,
    acts: Seq<AppAction>,
)
    requires
        app_step(pre, AppEvent::FormatsReady { id, title, formats }, post, acts),
        has_job(pre.jobs@, id),
    ensures
        ({
            let i = job_index(pre.jobs@, id);
            &&& formats@.len() == 0 ==> post.jobs@[i]@.status == StatusV::Failed(
                "No formats found"@,
            )
            &&& post.jobs@[i]@.status matches StatusV::Ready { formats: fs } ==> fs.len() > 0
        }),
{
    lemma_job_index_bounds(pre.jobs@, id);
}

/// A linear scan that stops at the first hit finds `job_index`.
proof fn lemma_job_index_found(jobs: Seq<Job>, id: JobId, i: int)
    requires
        0 <= i < jobs.len(),
        jobs[i].id == id,
        forall|q: int| 0 <= q < i ==> jobs[q].id != id,
    ensures
        has_job(jobs, id),
        job_index(jobs, id) == i,
    decreases i,
{
    if i > 0 {
        assert forall|q: int| 0 <= q < i - 1 implies jobs.drop_first()[q].id != id by {
            assert(jobs.drop_first()[q] == jobs[q + 1]);
        }
        assert(jobs.drop_first()[i - 1] == jobs[i]);
        lemma_job_index_found(jobs.drop_first(), id, i - 1);
        assert(jobs.first().id != id);
    }
}

/// Finds the first job carrying `id`, if any.
fn find_job_index(jobs: &Vec<Job>, id: JobId) -> (r: Option<usize>)
    ensures
        match r {
            Some(i) => has_job(jobs@, id) && i == job_index(jobs@, id) && i < jobs@.len()
                && jobs@[i as int].id == id,
            None => !has_job(jobs@, id),
        },
{
    let mut i: usize = 0;
    while i < jobs.len() && jobs[i].id != id
        invariant
            0 <= i <= jobs@.len(),
            forall|q: int| 0 <= q < i ==> jobs@[q].id != id,
        decreases jobs@.len() - i,
    {
        i += 1;
    }
    if i < jobs.len() {
        proof {
            lemma_job_index_found(jobs@, id, i as int);
        }
        Some(i)
    } else {
        None
    }
}

impl App {
    /// A fresh session over a configuration: no jobs, the cursor at the
    /// top, typing into the URL field, the system panel shown.
    pub fn new(config: Config) -> (r: Self)
        ensures
            r.jobs@.len() == 0,
            r.selected_index == 0,
            r.input_buffer@.len() == 0,
            r.input_mode,
            !r.show_help,
            r.show_sysinfo,
            !r.should_quit,
            !r.confirm_quit,
            r.loading_playlists == 0,
            r.spinner_frame == 0,
            r.format_popup is None,
            r.settings_popup is None,
            r.config == config,
    {
        App {
            jobs: Vec::new(),
            selected_index: 0,
            input_buffer: String::new(),
            input_mode: true,
            show_help: false,
            show_sysinfo: true,
            should_quit: false,
            confirm_quit: false,
            loading_playlists: 0,
            spinner_frame: 0,
            format_popup: None,
            settings_popup: None,
            config,
        }
    }


    /// Applies the popup's chosen format: to every selectable job when
    /// apply-to-all is set, else to the popup's job; the popup closes
    /// either way. Without a valid choice only the popup closes.
    fn ev_confirm_format(&mut self)
        ensures
            match old(self).format_popup {
                None => *final(self) == *old(self),
                Some(p) => {
                    let ff = spec_filtered_formats(p);
                    if p.selected >= ff.len() {
                        *final(self) == App { format_popup: None, ..*old(self) }
                    } else {
                        let f = ff[p.selected as int];
                        &&& *final(self) == App {
                            format_popup: None,
                            jobs: final(self).jobs,
                            ..*old(self)
                        }
                        &&& final(self).jobs@.len() == old(self).jobs@.len()
                        &&& if p.apply_to_all {
                            forall|k: int|
                                0 <= k < old(self).jobs@.len() ==> #[trigger] final(self).jobs@[k]@ == if spec_can_select_format(old(self).jobs@[k]) {
                                    JobV {
                                        selected_format: Some(f),
                                        status: StatusV::Queued,
                                        ..old(self).jobs@[k]@
                                    }
                                } else {
                                    old(self).jobs@[k]@
                                }
                        } else {
                            forall|k: int|
                                0 <= k < old(self).jobs@.len() ==> #[trigger] final(self).jobs@[k]@ == if k == p.job_index {
                                    JobV {
                                        selected_format: Some(f),
                                        status: StatusV::Queued,
                                        ..old(self).jobs@[k]@
                                    }
                                } else {
                                    old(self).jobs@[k]@
                                }
                        }
                    }
                },
            },
    {
                let popup = self.format_popup.take();
                match popup {
                    None => {},
                    Some(p) => {
                        match p.selected_format() {
                            None => {},
                            Some(f) => {
                                if p.apply_to_all {
                                    let ghost jobs0 = self.jobs@;
                                    let ghost self0 = *self;
                                    let mut k: usize = 0;
                                    while k < self.jobs.len()
                                        invariant
                                            *self == (App { jobs: self.jobs, ..self0 }),
                                            jobs0.len() == self.jobs@.len(),
                                            0 <= k <= jobs0.len(),
                                            forall|q: int|
                                                k <= q < jobs0.len() ==> self.jobs@[q]
                                                    == jobs0[q],
                                            forall|q: int|
                                                0 <= q < k ==> #[trigger] self.jobs@[q]@
                                                    == if spec_can_select_format(jobs0[q]) {
                                                    JobV {
                                                        selected_format: Some(f),
                                                        status: StatusV::Queued,
                                                        ..jobs0[q]@
                                                    }
                                                } else {
                                                    jobs0[q]@
                                                },
                                        decreases jobs0.len() - k,
                                    {
                                        let can = self.jobs[k].can_select_format();
                                        if can {
                                            self.jobs[k].selected_format = Some(f.clone());
                                            self.jobs[k].status = JobStatus::Queued;
                                        }
                                        k += 1;
                                    }
                                } else {
                                    if p.job_index < self.jobs.len() {
                                        self.jobs[p.job_index].selected_format = Some(f);
                                        self.jobs[p.job_index].status = JobStatus::Queued;
                                    }
                                }
                            },
                        }
                    },
                }
    }


    /// Submits one URL: a playlist asks for expansion, anything else
    /// becomes a fresh job with a metadata fetch; blank input is ignored.
    fn ev_add_url(&mut self, url: String) -> (acts: Vec<AppAction>)
        ensures
            app_step(*old(self), AppEvent::AddUrl(url), *final(self), acts@),
    {
        let mut acts: Vec<AppAction> = Vec::new();
        let t = trim_str(url.as_str());
        if t.as_str().is_empty() {
        } else if is_playlist_url(t.as_str()) {
            if self.loading_playlists < usize::MAX {
                self.loading_playlists = self.loading_playlists + 1;
            }
            acts.push(AppAction::Send(WorkerCommand::FetchPlaylist { url: t }));
        } else {
            let u2 = t.clone();
            let job = Job::new(t);
            let jid = job.id;
            self.jobs.push(job);
            acts.push(AppAction::Send(WorkerCommand::FetchFormats { job_id: jid, url: u2 }));
        }
        acts
    }

    /// One start command for every job that is queued with a chosen
    /// format, in queue order; the state itself does not move.
    fn ev_start_downloads(&mut self) -> (acts: Vec<AppAction>)
        ensures
            app_step(*old(self), AppEvent::StartDownloads, *final(self), acts@),
    {
        let mut acts: Vec<AppAction> = Vec::new();

        let ghost jobs0 = self.jobs@;
        let mut k: usize = 0;
        while k < self.jobs.len()
            invariant
                jobs0 == self.jobs@,
                0 <= k <= jobs0.len(),
                acts@.len() == start_list(jobs0.take(k as int)).len(),
                forall|q: int|
                    0 <= q < acts@.len() ==> (#[trigger] acts@[q] matches
                        AppAction::Send(
                        WorkerCommand::StartJob { job_id, url, format_id },
                    ) && job_id == start_list(jobs0.take(k as int))[q].0 && url@
                        == start_list(jobs0.take(k as int))[q].1 && format_id@
                        == start_list(jobs0.take(k as int))[q].2),
            decreases jobs0.len() - k,
        {
            proof {
                assert(jobs0.take(k + 1).drop_last() =~= jobs0.take(k as int));
                assert(jobs0.take(k + 1).last() == jobs0[k as int]);
            }
            let queued = match &self.jobs[k].status {
                JobStatus::Queued => true,
                _ => false,
            };
            if queued {
                match &self.jobs[k].selected_format {
                    Some(f) => {
                        acts.push(AppAction::Send(WorkerCommand::StartJob {
                            job_id: self.jobs[k].id,
                            url: self.jobs[k].url.clone(),
                            format_id: f.format_id.clone(),
                        }));
                    },
                    None => {},
                }
            }
            k += 1;
        }
        proof {
            assert(jobs0.take(jobs0.len() as int) =~= jobs0);
        }
        acts
    }

    /// Drops every job carrying `id` and keeps the cursor on the list.
    fn ev_remove_job(&mut self, id: JobId) -> (acts: Vec<AppAction>)
        ensures
            app_step(*old(self), AppEvent::RemoveJob(id), *final(self), acts@),
    {
        let acts: Vec<AppAction> = Vec::new();

        let ghost jobs0 = self.jobs@;
        let ghost self0 = *self;
        let mut i: usize = 0;
        let ghost mut j: int = 0;
        while i < self.jobs.len()
            invariant
                *self == (App { jobs: self.jobs, ..self0 }),
                0 <= j <= jobs0.len(),
                i == jobs0.take(j).filter(|j: Job| j.id != id).len(),
                self.jobs@ == jobs0.take(j).filter(|j: Job| j.id != id)
                    + jobs0.skip(j),
                i <= self.jobs@.len(),
            decreases jobs0.len() - j,
        {
            proof {
                reveal_with_fuel(Seq::<Job>::filter, 2);
                assert(jobs0.take(j + 1).drop_last() =~= jobs0.take(j));
                assert(jobs0.take(j + 1).last() == jobs0[j]);
                assert(jobs0.skip(j)[0] == jobs0[j]);
                assert(self.jobs@[i as int] == jobs0[j]);
            }
            if self.jobs[i].id == id {
                self.jobs.remove(i);
                proof {
                    assert(self.jobs@ =~= jobs0.take(j + 1).filter(
                        |j: Job| j.id != id,
                    ) + jobs0.skip(j + 1));
                }
            } else {
                i += 1;
                proof {
                    assert(self.jobs@ =~= jobs0.take(j + 1).filter(
                        |j: Job| j.id != id,
                    ) + jobs0.skip(j + 1));
                }
            }
            proof {
                j = j + 1;
            }
        }
        proof {
            assert(jobs0.take(jobs0.len() as int) =~= jobs0);
            assert(self.jobs@ =~= jobs0.filter(|j: Job| j.id != id));
        }
        if self.selected_index >= self.jobs.len() && self.jobs.len() > 0 {
            self.selected_index = self.jobs.len() - 1;
        }
        acts
    }

    /// Folds a finished metadata fetch: the title lands on the job, and
    /// an empty offer fails it rather than leaving it ready with nothing.
    fn ev_formats_ready(&mut self, id: JobId, title: String, formats: Vec<Format>) -> (acts:
        Vec<AppAction>)
        ensures
            app_step(
                *old(self),
                AppEvent::FormatsReady { id, title, formats },
                *final(self),
                acts@,
            ),
    {
        let acts: Vec<AppAction> = Vec::new();

        match find_job_index(&self.jobs, id) {
            Some(i) => {
                self.jobs[i].title = Some(title);
                if formats.is_empty() {
                    self.jobs[i].status = JobStatus::Failed(
                        String::from_str("No formats found"),
                    );
                } else {
                    self.jobs[i].formats = crate::job::clone_formats(&formats);
                    self.jobs[i].status = JobStatus::Ready { formats };
                }
            },
            None => {},
        }
        acts
    }

    /// Folds an expanded playlist: one fresh, possibly titled job and one
    /// metadata fetch per entry.
    fn ev_playlist_expanded(&mut self, urls: Vec<(String, Option<String>)>) -> (acts: Vec<
        AppAction,
    >)
        ensures
            app_step(
                *old(self),
                AppEvent::PlaylistExpanded { urls },
                *final(self),
                acts@,
            ),
    {
        let mut acts: Vec<AppAction> = Vec::new();

        if self.loading_playlists > 0 {
            self.loading_playlists = self.loading_playlists - 1;
        }
        let ghost jobs0 = self.jobs@;
        let ghost self0 = *self;
        let mut q: usize = 0;
        while q < urls.len()
            invariant
                *self == (App { jobs: self.jobs, ..self0 }),
                0 <= q <= urls@.len(),
                self.jobs@.len() == jobs0.len() + q,
                forall|k: int| 0 <= k < jobs0.len() ==> self.jobs@[k] == jobs0[k],
                forall|w: int|
                    0 <= w < q ==> ({
                        let nj = (#[trigger] self.jobs@[jobs0.len() + w])@;
                        nj.url == urls@[w].0@ && nj.title == opt_view(urls@[w].1)
                            && nj.status is FetchingFormats && nj.formats.len() == 0
                            && nj.selected_format is None && nj.output_path is None
                    }),
                acts@.len() == q,
                forall|w: int|
                    0 <= w < q ==> (#[trigger] acts@[w] matches AppAction::Send(
                        WorkerCommand::FetchFormats { job_id, url: u },
                    ) && job_id == self.jobs@[jobs0.len() + w].id && u@
                        == urls@[w].0@),
            decreases urls@.len() - q,
        {
            let u = urls[q].0.clone();
            let t = crate::format::clone_opt_string(&urls[q].1);
            let u2 = u.clone();
            let mut job = Job::new(u);
            job.title = t;
            let jid = job.id;
            self.jobs.push(job);
            acts.push(AppAction::Send(WorkerCommand::FetchFormats {
                job_id: jid,
                url: u2,
            }));
            q += 1;
        }
        acts
    }

    /// Folds one event into the state and returns what the runtime must
    /// do for it, exactly as the transition relation says.
    pub fn handle_event(&mut self, event: AppEvent) -> (acts: Vec<AppAction>)
        ensures
            app_step(*old(self), event, *final(self), acts@),
    {
        let mut acts: Vec<AppAction> = Vec::new();
        match event {
            AppEvent::AddUrl(url) => {
                return self.ev_add_url(url);
            },
            AppEvent::ToggleInputMode => {
                self.input_mode = !self.input_mode;
            },
            AppEvent::SelectNext => {
                if self.jobs.len() > 0 {
                    let m = self.selected_index % self.jobs.len();
                    self.selected_index = if m + 1 == self.jobs.len() {
                        0
                    } else {
                        m + 1
                    };
                }
            },
            AppEvent::SelectPrev => {
                if self.jobs.len() > 0 {
                    self.selected_index = if self.selected_index == 0 {
                        self.jobs.len() - 1
                    } else {
                        self.selected_index - 1
                    };
                }
            },
            AppEvent::OpenFormatPopup => {
                if self.selected_index < self.jobs.len() {
                    let can = self.jobs[self.selected_index].can_select_format();
                    if can {
                        let formats = crate::job::clone_formats(
                            &self.jobs[self.selected_index].formats,
                        );
                        self.format_popup = Some(
                            FormatPopupState::new(self.selected_index, formats),
                        );
                    }
                }
            },
            AppEvent::CloseFormatPopup => {
                self.format_popup = None;
            },
            AppEvent::FormatSelectNext => {
                match &mut self.format_popup {
                    Some(p) => {
                        let flen = p.filtered_formats().len();
                        if flen > 0 {
                            let m = p.selected % flen;
                            let ns = if m + 1 == flen {
                                0
                            } else {
                                m + 1
                            };
                            p.selected = ns;
                            if ns >= p.scroll_offset && ns - p.scroll_offset >= 10 {
                                p.scroll_offset = if ns >= 9 {
                                    ns - 9
                                } else {
                                    0
                                };
                            } else if ns < p.scroll_offset {
                                p.scroll_offset = ns;
                            }
                        }
                    },
                    None => {},
                }
            },
            AppEvent::FormatSelectPrev => {
                match &mut self.format_popup {
                    Some(p) => {
                        let flen = p.filtered_formats().len();
                        if flen > 0 {
                            let ns = if p.selected == 0 {
                                flen - 1
                            } else {
                                p.selected - 1
                            };
                            p.selected = ns;
                            if ns < p.scroll_offset {
                                p.scroll_offset = ns;
                            }
                        }
                    },
                    None => {},
                }
            },
            AppEvent::ToggleAudioOnly => {
                match &mut self.format_popup {
                    Some(p) => {
                        p.audio_only = !p.audio_only;
                        p.selected = 0;
                        p.scroll_offset = 0;
                    },
                    None => {},
                }
            },
            AppEvent::ToggleApplyToAll => {
                match &mut self.format_popup {
                    Some(p) => {
                        p.apply_to_all = !p.apply_to_all;
                    },
                    None => {},
                }
            },
            AppEvent::ConfirmFormat => {
                self.ev_confirm_format();
            },
            AppEvent::StartDownloads => {
                return self.ev_start_downloads();
            },
            AppEvent::CancelJob(id) => {
                acts.push(AppAction::Send(WorkerCommand::CancelJob(id)));
                match find_job_index(&self.jobs, id) {
                    Some(i) => {
                        self.jobs[i].status = JobStatus::Cancelled;
                    },
                    None => {},
                }
            },
            AppEvent::RemoveJob(id) => {
                return self.ev_remove_job(id);
            },
            AppEvent::ToggleHelp => {
                self.show_help = !self.show_help;
            },
            AppEvent::ToggleSysInfo => {
                self.show_sysinfo = !self.show_sysinfo;
            },
            AppEvent::Quit => {
                if !self.confirm_quit {
                    self.confirm_quit = true;
                } else {
                    acts.push(AppAction::Send(WorkerCommand::Shutdown));
                    self.should_quit = true;
                }
            },
            AppEvent::CancelQuit => {
                self.confirm_quit = false;
            },
            AppEvent::ConfirmQuit => {
                acts.push(AppAction::Send(WorkerCommand::Shutdown));
                self.should_quit = true;
            },
            AppEvent::JobStarted { id } => {
                match find_job_index(&self.jobs, id) {
                    Some(i) => {
                        self.jobs[i].status = JobStatus::Downloading {
                            percent_milli: 0,
                            speed: String::from_str("--"),
                            eta: String::from_str("--"),
                        };
                    },
                    None => {},
                }
            },
            AppEvent::FormatsReady { id, title, formats } => {
                return self.ev_formats_ready(id, title, formats);
            },
            AppEvent::JobProgress { id, percent_milli, speed, eta } => {
                match find_job_index(&self.jobs, id) {
                    Some(i) => {
                        self.jobs[i].status = JobStatus::Downloading {
                            percent_milli,
                            speed,
                            eta,
                        };
                    },
                    None => {},
                }
            },
            AppEvent::JobCompleted { id, path } => {
                match find_job_index(&self.jobs, id) {
                    Some(i) => {
                        self.jobs[i].status = JobStatus::Completed;
                        self.jobs[i].output_path = Some(path);
                    },
                    None => {},
                }
            },
            AppEvent::JobFailed { id, error } => {
                match find_job_index(&self.jobs, id) {
                    Some(i) => {
                        self.jobs[i].status = JobStatus::Failed(error);
                    },
                    None => {},
                }
            },
            AppEvent::ToggleSettings => {
                match &self.settings_popup {
                    Some(s) => {
                        self.settings_popup = None;
                    },
                    None => {
                        self.settings_popup = Some(
                            SettingsState::new(
                                self.config.max_concurrent_downloads,
                                self.config.output_dir.clone(),
                            ),
                        );
                    },
                }
            },
            AppEvent::CloseSettings => {
                self.settings_popup = None;
            },
            AppEvent::SettingsNext => {
                match &mut self.settings_popup {
                    Some(s) => {
                        s.selected_field = 1;
                        s.editing_path = false;
                    },
                    None => {},
                }
            },
            AppEvent::SettingsPrev => {
                match &mut self.settings_popup {
                    Some(s) => {
                        s.selected_field = if s.selected_field == 0 {
                            0
                        } else {
                            s.selected_field - 1
                        };
                        s.editing_path = false;
                    },
                    None => {},
                }
            },
            AppEvent::SettingsIncrement => {
                match &mut self.settings_popup {
                    Some(s) => {
                        if s.selected_field == 0 {
                            s.concurrent_downloads = if s.concurrent_downloads < 9 {
                                s.concurrent_downloads + 1
                            } else {
                                10
                            };
                        }
                    },
                    None => {},
                }
            },
            AppEvent::SettingsDecrement => {
                match &mut self.settings_popup {
                    Some(s) => {
                        if s.selected_field == 0 {
                            s.concurrent_downloads = if s.concurrent_downloads <= 2 {
                                1
                            } else {
                                s.concurrent_downloads - 1
                            };
                        }
                    },
                    None => {},
                }
            },
            AppEvent::SettingsToggleEdit => {
                match &mut self.settings_popup {
                    Some(s) => {
                        if s.selected_field == 1 {
                            s.editing_path = !s.editing_path;
                        }
                    },
                    None => {},
                }
            },
            AppEvent::SettingsCharInput(c) => {
                match &mut self.settings_popup {
                    Some(s) => {
                        if s.editing_path {
                            push_char(&mut s.output_dir, c);
                        }
                    },
                    None => {},
                }
            },
            AppEvent::SettingsBackspace => {
                match &mut self.settings_popup {
                    Some(s) => {
                        if s.editing_path {
                            pop_char(&mut s.output_dir);
                        }
                    },
                    None => {},
                }
            },
            AppEvent::SaveSettings => {
                let taken = self.settings_popup.take();
                match taken {
                    None => {},
                    Some(s) => {
                        let n = s.concurrent_downloads;
                        self.config.max_concurrent_downloads = n;
                        self.config.output_dir = s.output_dir;
                        acts.push(AppAction::Send(WorkerCommand::UpdateConcurrent(n)));
                        acts.push(AppAction::SaveConfig);
                        proof {
                            assert(acts@ =~= Seq::empty().push(acts@[0]).push(acts@[1]));
                        }
                    },
                }
            },
            AppEvent::PlaylistExpanded { urls } => {
                return self.ev_playlist_expanded(urls);
            },
        }
        acts
    }

    /// How many jobs sit in each lifecycle bucket (cancelled jobs are
    /// counted nowhere).
    pub fn status_counts(&self) -> (r: StatusCounts)
        ensures
            r.fetching == count_matching(self.jobs@, |j: Job| j.status is FetchingFormats),
            r.ready == count_matching(self.jobs@, |j: Job| j.status is Ready),
            r.queued == count_matching(self.jobs@, |j: Job| j.status is Queued),
            r.active == count_matching(self.jobs@, |j: Job| j.status is Downloading),
            r.completed == count_matching(self.jobs@, |j: Job| j.status is Completed),
            r.failed == count_matching(self.jobs@, |j: Job| j.status is Failed),
    {
        let mut r = StatusCounts::default();
        let mut i: usize = 0;
        while i < self.jobs.len()
            invariant
                0 <= i <= self.jobs@.len(),
                r.fetching == count_matching(
                    self.jobs@.take(i as int),
                    |j: Job| j.status is FetchingFormats,
                ),
                r.ready == count_matching(self.jobs@.take(i as int), |j: Job| j.status is Ready),
                r.queued == count_matching(
                    self.jobs@.take(i as int),
                    |j: Job| j.status is Queued,
                ),
                r.active == count_matching(
                    self.jobs@.take(i as int),
                    |j: Job| j.status is Downloading,
                ),
                r.completed == count_matching(
                    self.jobs@.take(i as int),
                    |j: Job| j.status is Completed,
                ),
                r.failed == count_matching(
                    self.jobs@.take(i as int),
                    |j: Job| j.status is Failed,
                ),
                r.fetching <= i && r.ready <= i && r.queued <= i && r.active <= i
                    && r.completed <= i && r.failed <= i,
            decreases self.jobs@.len() - i,
        {
            proof {
                assert(self.jobs@.take(i + 1).drop_last() =~= self.jobs@.take(i as int));
                assert(self.jobs@.take(i + 1).last() == self.jobs@[i as int]);
            }
            match &self.jobs[i].status {
                JobStatus::FetchingFormats => {
                    r.fetching = r.fetching + 1;
                },
                JobStatus::Ready { .. } => {
                    r.ready = r.ready + 1;
                },
                JobStatus::Queued => {
                    r.queued = r.queued + 1;
                },
                JobStatus::Downloading { .. } => {
                    r.active = r.active + 1;
                },
                JobStatus::Completed => {
                    r.completed = r.completed + 1;
                },
                JobStatus::Failed(_) => {
                    r.failed = r.failed + 1;
                },
                JobStatus::Cancelled => {},
            }
            i += 1;
        }
        proof {
            assert(self.jobs@.take(self.jobs@.len() as int) =~= self.jobs@);
        }
        r
    }

    /// The pooled progress shown while anything downloads: the plain
    /// average of the active percentages, with the most recent active
    /// job's speed and ETA texts; nothing when nothing downloads.
    pub fn aggregate_progress(&self) -> (r: Option<(u64, String, String)>)
        ensures
            ({
                let dl = self.jobs@.filter(|j: Job| j.status is Downloading);
                match r {
                    None => dl.len() == 0,
                    Some((avg, speed, eta)) => dl.len() > 0 && avg == sum_milli(self.jobs@)
                        / dl.len() as int && (dl.last().status@ matches StatusV::Downloading {
                        speed: sp,
                        eta: et,
                        ..
                    } && speed@ == sp && eta@ == et),
                }
            }),
    {
        let ghost dl_all = self.jobs@.filter(|j: Job| j.status is Downloading);
        let mut count: usize = 0;
        let mut sum: u128 = 0;
        let mut last: usize = 0;
        let mut i: usize = 0;
        while i < self.jobs.len()
            invariant
                0 <= i <= self.jobs@.len(),
                count == self.jobs@.take(i as int).filter(
                    |j: Job| j.status is Downloading,
                ).len(),
                count <= i,
                sum == sum_milli(self.jobs@.take(i as int)),
                sum <= count * (u64::MAX as int),
                count > 0 ==> last < i && self.jobs@[last as int].status is Downloading
                    && self.jobs@[last as int] == self.jobs@.take(i as int).filter(
                    |j: Job| j.status is Downloading,
                ).last(),
            decreases self.jobs@.len() - i,
        {
            proof {
                reveal_with_fuel(Seq::<Job>::filter, 2);
                assert(self.jobs@.take(i + 1).drop_last() =~= self.jobs@.take(i as int));
                assert(self.jobs@.take(i + 1).last() == self.jobs@[i as int]);
            }
            match &self.jobs[i].status {
                JobStatus::Downloading { percent_milli, .. } => {
                    sum = sum + (*percent_milli as u128);
                    count = count + 1;
                    last = i;
                },
                _ => {},
            }
            i += 1;
        }
        proof {
            assert(self.jobs@.take(self.jobs@.len() as int) =~= self.jobs@);
        }
        if count == 0 {
            return None;
        }
        let avg128 = sum / (count as u128);
        proof {
            assert(sum / (count as u128) <= u64::MAX) by (nonlinear_arith)
                requires
                    sum <= count * (u64::MAX as int),
                    count > 0,
            ;
        }
        let avg = avg128 as u64;
        match &self.jobs[last].status {
            JobStatus::Downloading { speed, eta, .. } => Some(
                (avg, speed.clone(), eta.clone()),
            ),
            _ => None,
        }
    }

    /// The job under the cursor, if the cursor is on the list.
    pub fn selected_job(&self) -> (r: Option<&Job>)
        ensures
            match r {
                Some(j) => self.selected_index < self.jobs@.len() && *j
                    == self.jobs@[self.selected_index as int],
                None => self.selected_index >= self.jobs@.len(),
            },
    {
        if self.selected_index < self.jobs.len() {
            Some(&self.jobs[self.selected_index])
        } else {
            None
        }
    }
}

} // verus!
