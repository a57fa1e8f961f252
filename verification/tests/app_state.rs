use oxidlp::app::{App, AppAction};
use oxidlp::config::Config;
use oxidlp::events::{AppEvent, WorkerCommand};
use oxidlp::format::Format;
use oxidlp::job::JobStatus;

fn new_app() -> App {
    App::new(Config::default())
}

fn vfmt(id: &str) -> Format {
    Format {
        format_id: id.to_string(),
        resolution: None,
        ext: "mp4".to_string(),
        vcodec: Some("avc1".to_string()),
        acodec: Some("none".to_string()),
        filesize: None,
        filesize_approx: None,
        tbr: None,
        width: Some(1920),
        height: Some(1080),
    }
}

#[test]
fn add_url_creates_a_job_and_asks_for_formats() {
    let mut app = new_app();
    let acts = app.handle_event(AppEvent::AddUrl("  https://example.net/v/1  ".to_string()));
    assert_eq!(app.jobs.len(), 1);
    assert_eq!(app.jobs[0].url, "https://example.net/v/1");
    assert!(matches!(app.jobs[0].status, JobStatus::FetchingFormats));
    assert_eq!(acts.len(), 1);
    match &acts[0] {
        AppAction::Send(WorkerCommand::FetchFormats { job_id, url }) => {
            assert_eq!(*job_id, app.jobs[0].id);
            assert_eq!(url, "https://example.net/v/1");
        }
        _ => panic!("expected a fetch command"),
    }
}

#[test]
fn blank_url_is_ignored() {
    let mut app = new_app();
    let acts = app.handle_event(AppEvent::AddUrl("   ".to_string()));
    assert_eq!(app.jobs.len(), 0);
    assert_eq!(acts.len(), 0);
}

#[test]
fn playlist_url_asks_for_expansion() {
    let mut app = new_app();
    let acts = app.handle_event(AppEvent::AddUrl(
        "https://www.youtube.com/playlist?list=PL123".to_string(),
    ));
    assert_eq!(app.jobs.len(), 0);
    assert_eq!(app.loading_playlists, 1);
    assert!(matches!(
        &acts[0],
        AppAction::Send(WorkerCommand::FetchPlaylist { .. })
    ));
}

#[test]
fn empty_format_list_fails_the_job_never_ready() {
    let mut app = new_app();
    app.handle_event(AppEvent::AddUrl("https://example.net/v".to_string()));
    let id = app.jobs[0].id;
    app.handle_event(AppEvent::FormatsReady {
        id,
        title: "A title".to_string(),
        formats: Vec::new(),
    });
    match &app.jobs[0].status {
        JobStatus::Failed(e) => assert_eq!(e, "No formats found"),
        other => panic!("expected Failed, got {:?}", std::mem::discriminant(other)),
    }
    assert_eq!(app.jobs[0].title.as_deref(), Some("A title"));
}

#[test]
fn formats_ready_moves_the_job_to_ready() {
    let mut app = new_app();
    app.handle_event(AppEvent::AddUrl("https://example.net/v".to_string()));
    let id = app.jobs[0].id;
    app.handle_event(AppEvent::FormatsReady {
        id,
        title: "T".to_string(),
        formats: vec![vfmt("137")],
    });
    assert!(matches!(app.jobs[0].status, JobStatus::Ready { .. }));
    assert_eq!(app.jobs[0].formats.len(), 1);
}

#[test]
fn progress_and_completion_fold_into_status() {
    let mut app = new_app();
    app.handle_event(AppEvent::AddUrl("https://example.net/v".to_string()));
    let id = app.jobs[0].id;
    app.handle_event(AppEvent::JobStarted { id });
    match &app.jobs[0].status {
        JobStatus::Downloading { percent_milli, speed, eta } => {
            assert_eq!(*percent_milli, 0);
            assert_eq!(speed, "--");
            assert_eq!(eta, "--");
        }
        _ => panic!("expected Downloading"),
    }
    app.handle_event(AppEvent::JobProgress {
        id,
        percent_milli: 42000,
        speed: "1.20MiB/s".to_string(),
        eta: "00:07".to_string(),
    });
    match &app.jobs[0].status {
        JobStatus::Downloading { percent_milli, .. } => assert_eq!(*percent_milli, 42000),
        _ => panic!("expected Downloading"),
    }
    app.handle_event(AppEvent::JobCompleted { id, path: "/tmp/v.mp4".to_string() });
    assert!(matches!(app.jobs[0].status, JobStatus::Completed));
    assert_eq!(app.jobs[0].output_path.as_deref(), Some("/tmp/v.mp4"));
}

#[test]
fn cancel_marks_the_job_and_tells_the_worker() {
    let mut app = new_app();
    app.handle_event(AppEvent::AddUrl("https://example.net/v".to_string()));
    let id = app.jobs[0].id;
    let acts = app.handle_event(AppEvent::CancelJob(id));
    assert!(matches!(app.jobs[0].status, JobStatus::Cancelled));
    assert!(matches!(&acts[0], AppAction::Send(WorkerCommand::CancelJob(i)) if *i == id));
}

#[test]
fn unknown_event_ids_change_nothing() {
    let mut app = new_app();
    app.handle_event(AppEvent::AddUrl("https://example.net/v".to_string()));
    app.handle_event(AppEvent::JobFailed { id: 424242, error: "nope".to_string() });
    assert!(matches!(app.jobs[0].status, JobStatus::FetchingFormats));
}

#[test]
fn start_downloads_sends_one_command_per_queued_job() {
    let mut app = new_app();
    app.handle_event(AppEvent::AddUrl("https://example.net/a".to_string()));
    app.handle_event(AppEvent::AddUrl("https://example.net/b".to_string()));
    app.jobs[0].status = JobStatus::Queued;
    app.jobs[0].selected_format = Some(vfmt("137"));
    // the second job has no chosen format and is not queued
    let acts = app.handle_event(AppEvent::StartDownloads);
    assert_eq!(acts.len(), 1);
    match &acts[0] {
        AppAction::Send(WorkerCommand::StartJob { job_id, url, format_id }) => {
            assert_eq!(*job_id, app.jobs[0].id);
            assert_eq!(url, "https://example.net/a");
            assert_eq!(format_id, "137");
        }
        _ => panic!("expected a start command"),
    }
}

#[test]
fn remove_job_drops_it_and_clamps_the_cursor() {
    let mut app = new_app();
    app.handle_event(AppEvent::AddUrl("https://example.net/a".to_string()));
    app.handle_event(AppEvent::AddUrl("https://example.net/b".to_string()));
    app.selected_index = 1;
    let id = app.jobs[1].id;
    app.handle_event(AppEvent::RemoveJob(id));
    assert_eq!(app.jobs.len(), 1);
    assert_eq!(app.selected_index, 0);
}

#[test]
fn status_counts_bucket_jobs() {
    let mut app = new_app();
    for u in ["a", "b", "c"] {
        app.handle_event(AppEvent::AddUrl(format!("https://example.net/{}", u)));
    }
    app.jobs[1].status = JobStatus::Completed;
    app.jobs[2].status = JobStatus::Cancelled;
    let c = app.status_counts();
    assert_eq!(c.fetching, 1);
    assert_eq!(c.completed, 1);
    assert_eq!(c.ready + c.queued + c.active + c.failed, 0);
}

#[test]
fn aggregate_progress_averages_active_jobs() {
    let mut app = new_app();
    app.handle_event(AppEvent::AddUrl("https://example.net/a".to_string()));
    app.handle_event(AppEvent::AddUrl("https://example.net/b".to_string()));
    assert!(app.aggregate_progress().is_none());
    let (ida, idb) = (app.jobs[0].id, app.jobs[1].id);
    app.handle_event(AppEvent::JobProgress {
        id: ida,
        percent_milli: 20000,
        speed: "1MiB/s".to_string(),
        eta: "00:10".to_string(),
    });
    app.handle_event(AppEvent::JobProgress {
        id: idb,
        percent_milli: 40000,
        speed: "2MiB/s".to_string(),
        eta: "00:05".to_string(),
    });
    let (avg, speed, eta) = app.aggregate_progress().unwrap();
    assert_eq!(avg, 30000);
    assert_eq!(speed, "2MiB/s");
    assert_eq!(eta, "00:05");
}

#[test]
fn saving_settings_updates_config_and_notifies() {
    let mut app = new_app();
    app.handle_event(AppEvent::ToggleSettings);
    app.handle_event(AppEvent::SettingsIncrement);
    let acts = app.handle_event(AppEvent::SaveSettings);
    assert_eq!(app.config.max_concurrent_downloads, 4);
    assert!(app.settings_popup.is_none());
    assert!(matches!(
        acts[0],
        AppAction::Send(WorkerCommand::UpdateConcurrent(4))
    ));
    assert!(matches!(acts[1], AppAction::SaveConfig));
}

#[test]
fn quit_asks_for_confirmation_then_shuts_down() {
    let mut app = new_app();
    let first = app.handle_event(AppEvent::Quit);
    assert!(first.is_empty());
    assert!(app.confirm_quit);
    assert!(!app.should_quit);
    let second = app.handle_event(AppEvent::Quit);
    assert!(app.should_quit);
    assert!(matches!(second[0], AppAction::Send(WorkerCommand::Shutdown)));
}

#[test]
fn playlist_expansion_adds_titled_jobs() {
    let mut app = new_app();
    app.handle_event(AppEvent::AddUrl(
        "https://youtu.be/playlist?list=PL1".to_string(),
    ));
    assert_eq!(app.loading_playlists, 1);
    let acts = app.handle_event(AppEvent::PlaylistExpanded {
        urls: vec![
            ("https://example.net/1".to_string(), Some("One".to_string())),
            ("https://example.net/2".to_string(), None),
        ],
    });
    assert_eq!(app.loading_playlists, 0);
    assert_eq!(app.jobs.len(), 2);
    assert_eq!(app.jobs[0].title.as_deref(), Some("One"));
    assert!(app.jobs[1].title.is_none());
    assert_eq!(acts.len(), 2);
}
