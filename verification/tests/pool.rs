use oxidlp::events::WorkerCommand;
use oxidlp::pool::{Coordinator, PoolAction, TaskOutcome};
use oxidlp::events::AppEvent;

fn start(id: u128) -> WorkerCommand {
    WorkerCommand::StartJob {
        job_id: id,
        url: format!("https://example.net/v/{}", id),
        format_id: "137".to_string(),
    }
}

fn count_downloads(acts: &[PoolAction]) -> usize {
    acts.iter().filter(|a| matches!(a, PoolAction::StartDownload { .. })).count()
}

#[test]
fn ceiling_bounds_concurrent_downloads() {
    let mut c = Coordinator::new(2);
    let a1 = c.handle_command(start(1));
    let a2 = c.handle_command(start(2));
    let a3 = c.handle_command(start(3));
    assert_eq!(count_downloads(&a1), 1);
    assert_eq!(count_downloads(&a2), 1);
    // the third waits: no subprocess work, no events
    assert_eq!(a3.len(), 0);
    assert_eq!(c.active.len(), 2);
    assert_eq!(c.pending.len(), 1);
}

#[test]
fn finishing_a_task_admits_the_queue() {
    let mut c = Coordinator::new(1);
    c.handle_command(start(1));
    let queued = c.handle_command(start(2));
    assert_eq!(queued.len(), 0);
    let acts = c.task_finished(1, TaskOutcome::Completed("/tmp/a.mp4".to_string()));
    // one terminal event, then the queued job starts
    assert!(matches!(&acts[0], PoolAction::Emit(AppEvent::JobCompleted { id: 1, .. })));
    assert!(matches!(&acts[1], PoolAction::Emit(AppEvent::JobStarted { id: 2 })));
    assert!(matches!(&acts[2], PoolAction::StartDownload { job_id: 2, .. }));
    assert_eq!(c.active, vec![2]);
    assert_eq!(c.pending.len(), 0);
}

#[test]
fn cancel_signals_only_registered_jobs() {
    let mut c = Coordinator::new(2);
    c.handle_command(start(7));
    let acts = c.handle_command(WorkerCommand::CancelJob(7));
    assert_eq!(acts.len(), 1);
    assert!(matches!(acts[0], PoolAction::Cancel(7)));
}

#[test]
fn cancel_unknown_is_silent() {
    let mut c = Coordinator::new(2);
    c.handle_command(start(1));
    let acts = c.handle_command(WorkerCommand::CancelJob(99));
    assert_eq!(acts.len(), 0);
    assert_eq!(c.active, vec![1]);
}

#[test]
fn cancelled_task_reports_one_terminal_event_and_leaves() {
    let mut c = Coordinator::new(2);
    c.handle_command(start(5));
    let acts1 = c.handle_command(WorkerCommand::CancelJob(5));
    assert_eq!(acts1.len(), 1);
    let acts2 = c.task_finished(5, TaskOutcome::Failed("Download cancelled".to_string()));
    let terminals = acts2
        .iter()
        .filter(|a| {
            matches!(
                a,
                PoolAction::Emit(AppEvent::JobFailed { id: 5, .. })
                    | PoolAction::Emit(AppEvent::JobCompleted { id: 5, .. })
            )
        })
        .count();
    assert_eq!(terminals, 1);
    assert!(!c.active.contains(&5));
}

#[test]
fn lowering_the_ceiling_cancels_nothing() {
    let mut c = Coordinator::new(3);
    c.handle_command(start(1));
    c.handle_command(start(2));
    c.handle_command(start(3));
    let acts = c.handle_command(WorkerCommand::UpdateConcurrent(1));
    assert_eq!(acts.len(), 0);
    assert_eq!(c.active, vec![1, 2, 3]);
    // no admission below the new ceiling until enough tasks finish
    let queued = c.handle_command(start(4));
    assert_eq!(queued.len(), 0);
    let done = c.task_finished(1, TaskOutcome::Failed("boom".to_string()));
    assert_eq!(done.len(), 1);
    assert_eq!(c.pending.len(), 1);
}

#[test]
fn raising_the_ceiling_admits_waiting_starts() {
    let mut c = Coordinator::new(1);
    c.handle_command(start(1));
    c.handle_command(start(2));
    let acts = c.handle_command(WorkerCommand::UpdateConcurrent(3));
    assert!(matches!(&acts[0], PoolAction::Emit(AppEvent::JobStarted { id: 2 })));
    assert!(matches!(&acts[1], PoolAction::StartDownload { job_id: 2, .. }));
    assert_eq!(c.active, vec![1, 2]);
}

#[test]
fn shutdown_cancels_every_registered_job_then_stops() {
    let mut c = Coordinator::new(3);
    c.handle_command(start(1));
    c.handle_command(start(2));
    let acts = c.handle_command(WorkerCommand::Shutdown);
    assert!(matches!(acts[0], PoolAction::Cancel(1)));
    assert!(matches!(acts[1], PoolAction::Cancel(2)));
    assert!(matches!(acts[2], PoolAction::Stop));
    assert_eq!(acts.len(), 3);
    // afterwards no command is accepted
    let after = c.handle_command(start(3));
    assert_eq!(after.len(), 0);
    let after2 = c.handle_command(WorkerCommand::FetchFormats {
        job_id: 9,
        url: "https://example.net".to_string(),
    });
    assert_eq!(after2.len(), 0);
}

#[test]
fn fetches_are_never_bounded_by_the_ceiling() {
    let mut c = Coordinator::new(1);
    c.handle_command(start(1));
    let acts = c.handle_command(WorkerCommand::FetchFormats {
        job_id: 2,
        url: "https://example.net/v/2".to_string(),
    });
    assert!(matches!(&acts[0], PoolAction::SpawnFetch { job_id: 2, .. }));
}

#[test]
fn duplicate_start_is_dropped() {
    let mut c = Coordinator::new(2);
    let a1 = c.handle_command(start(1));
    assert_eq!(count_downloads(&a1), 1);
    let a2 = c.handle_command(start(1));
    assert_eq!(a2.len(), 0);
    assert_eq!(c.active, vec![1]);
}

#[test]
fn failed_task_reports_its_error() {
    let mut c = Coordinator::new(1);
    c.handle_command(start(1));
    let acts = c.task_finished(1, TaskOutcome::Failed("yt-dlp exited with code: 1".to_string()));
    match &acts[0] {
        PoolAction::Emit(AppEvent::JobFailed { id, error }) => {
            assert_eq!(*id, 1);
            assert_eq!(error, "yt-dlp exited with code: 1");
        }
        _ => panic!("expected a JobFailed event"),
    }
}
