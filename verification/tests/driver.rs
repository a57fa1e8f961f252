use oxidlp::driver::{
    download_args, fetch_args, join_output_template, metadata_event, DownloadError,
    DownloadMonitor,
};
use oxidlp::events::AppEvent;
use oxidlp::format::Format;
use oxidlp::strutil::textwrap_simple;

fn dfmt(id: &str, vcodec: Option<&str>, height: Option<u32>) -> Format {
    Format {
        format_id: id.to_string(),
        resolution: None,
        ext: "mp4".to_string(),
        vcodec: vcodec.map(|s| s.to_string()),
        acodec: None,
        filesize: None,
        filesize_approx: None,
        tbr: None,
        width: None,
        height,
    }
}

#[test]
fn monitor_hands_back_progress_updates() {
    let mut m = DownloadMonitor::new();
    let p = m.observe_line("[download]  42.0% of 10.00MiB at 1.20MiB/s ETA 00:07").unwrap();
    assert_eq!(p.percent_milli, 42000);
    assert!(m.final_path.is_none());
}

#[test]
fn monitor_captures_a_path_line() {
    let mut m = DownloadMonitor::new();
    assert!(m.observe_line("/downloads/My Video.mp4 ").is_none());
    assert_eq!(m.final_path.as_deref(), Some("/downloads/My Video.mp4"));
}

#[test]
fn monitor_ignores_bracketed_and_plain_lines() {
    let mut m = DownloadMonitor::new();
    assert!(m.observe_line("[Merger] Merging formats into a/b").is_none());
    assert!(m.observe_line("no separator here").is_none());
    assert!(m.final_path.is_none());
}

#[test]
fn clean_exit_returns_the_captured_path() {
    let mut m = DownloadMonitor::new();
    m.observe_line("/out/a.mp4");
    match m.finish(true, Some(0)) {
        Ok(p) => assert_eq!(p, "/out/a.mp4"),
        Err(_) => panic!("expected success"),
    }
}

#[test]
fn clean_exit_without_path_is_a_protocol_violation() {
    let m = DownloadMonitor::new();
    match m.finish(true, Some(0)) {
        Err(e) => assert_eq!(e.message(), "Could not determine output file path"),
        Ok(_) => panic!("expected a failure"),
    }
}

#[test]
fn nonzero_exit_fails_with_its_code() {
    let m = DownloadMonitor::new();
    match m.finish(false, Some(1)) {
        Err(e) => assert_eq!(e.message(), "yt-dlp exited with code: 1"),
        Ok(_) => panic!("expected a failure"),
    }
}

#[test]
fn error_messages_cover_every_variant() {
    assert_eq!(DownloadError::Cancelled.message(), "Download cancelled");
    assert_eq!(
        DownloadError::ToolExit(None).message(),
        "yt-dlp exited with code: unknown"
    );
    assert_eq!(
        DownloadError::ToolExit(Some(-9)).message(),
        "yt-dlp exited with code: -9"
    );
    assert_eq!(
        DownloadError::Spawn("no such tool".to_string()).message(),
        "no such tool"
    );
}

#[test]
fn metadata_event_keeps_only_video_capable_formats() {
    let fs = vec![
        dfmt("a", Some("avc1"), Some(720)),
        dfmt("b", Some("none"), None),
        dfmt("c", Some("vp9"), None),
    ];
    match metadata_event(3, "T".to_string(), fs) {
        AppEvent::FormatsReady { id, title, formats } => {
            assert_eq!(id, 3);
            assert_eq!(title, "T");
            assert_eq!(formats.len(), 1);
            assert_eq!(formats[0].format_id, "a");
        }
        _ => panic!("expected FormatsReady"),
    }
}

#[test]
fn download_invocation_is_fixed() {
    let args = download_args("https://example.net/v", "137", "/out/%(title)s.%(ext)s");
    let expect = vec![
        "--newline",
        "--progress",
        "--no-colors",
        "-f",
        "137+bestaudio/best",
        "-o",
        "/out/%(title)s.%(ext)s",
        "--print",
        "after_move:filepath",
        "https://example.net/v",
    ];
    assert_eq!(args, expect);
}

#[test]
fn fetch_invocation_is_fixed() {
    let args = fetch_args("https://example.net/v");
    assert_eq!(
        args,
        vec!["--dump-json", "--no-download", "--no-warnings", "https://example.net/v"]
    );
}

#[test]
fn output_template_joins_with_a_separator() {
    assert_eq!(join_output_template("/videos", "%(title)s.%(ext)s"), "/videos/%(title)s.%(ext)s");
    assert_eq!(join_output_template("/videos/", "a.mp4"), "/videos/a.mp4");
}

#[test]
fn textwrap_breaks_at_spaces() {
    assert_eq!(textwrap_simple("a bb ccc", 5), vec!["a bb", "ccc"]);
    assert_eq!(textwrap_simple("", 10), vec![""]);
    assert_eq!(textwrap_simple("word", 2), vec!["word"]);
    assert_eq!(textwrap_simple("one two three four", 9), vec!["one two", "three", "four"]);
}
