use oxidlp::app::App;
use oxidlp::config::Config;
use oxidlp::events::AppEvent;
use oxidlp::input::{handle_key, Key};

fn key_app() -> App {
    App::new(Config::default())
}

#[test]
fn ctrl_c_always_quits() {
    let mut app = key_app();
    app.input_mode = true;
    assert!(matches!(handle_key(Key::Char('c'), true, &mut app), Some(AppEvent::Quit)));
}

#[test]
fn typing_builds_the_url_buffer() {
    let mut app = key_app();
    assert!(handle_key(Key::Char('h'), false, &mut app).is_none());
    assert!(handle_key(Key::Char('i'), false, &mut app).is_none());
    assert_eq!(app.input_buffer, "hi");
    assert!(handle_key(Key::Backspace, false, &mut app).is_none());
    assert_eq!(app.input_buffer, "h");
}

#[test]
fn enter_submits_the_buffer() {
    let mut app = key_app();
    handle_key(Key::Char('x'), false, &mut app);
    match handle_key(Key::Enter, false, &mut app) {
        Some(AppEvent::AddUrl(u)) => assert_eq!(u, "x"),
        _ => panic!("expected AddUrl"),
    }
    assert_eq!(app.input_buffer, "");
    assert!(handle_key(Key::Enter, false, &mut app).is_none());
}

#[test]
fn tab_toggles_modes() {
    let mut app = key_app();
    assert!(matches!(handle_key(Key::Tab, false, &mut app), Some(AppEvent::ToggleInputMode)));
}

#[test]
fn queue_mode_keys_map_to_events() {
    let mut app = key_app();
    app.input_mode = false;
    assert!(matches!(handle_key(Key::Char('q'), false, &mut app), Some(AppEvent::Quit)));
    assert!(matches!(handle_key(Key::Char('j'), false, &mut app), Some(AppEvent::SelectNext)));
    assert!(matches!(handle_key(Key::Up, false, &mut app), Some(AppEvent::SelectPrev)));
    assert!(matches!(
        handle_key(Key::Char('s'), false, &mut app),
        Some(AppEvent::StartDownloads)
    ));
    assert!(matches!(
        handle_key(Key::Char('?'), false, &mut app),
        Some(AppEvent::ToggleHelp)
    ));
    // nothing selected: delete and cancel do nothing
    assert!(handle_key(Key::Char('d'), false, &mut app).is_none());
    assert!(handle_key(Key::Char('c'), false, &mut app).is_none());
    // switching back to typing happens in place
    assert!(handle_key(Key::Char('i'), false, &mut app).is_none());
    assert!(app.input_mode);
}

#[test]
fn delete_targets_the_selected_job() {
    let mut app = key_app();
    app.handle_event(AppEvent::AddUrl("https://example.net/v".to_string()));
    app.input_mode = false;
    let id = app.jobs[0].id;
    match handle_key(Key::Char('d'), false, &mut app) {
        Some(AppEvent::RemoveJob(i)) => assert_eq!(i, id),
        _ => panic!("expected RemoveJob"),
    }
}

#[test]
fn confirm_quit_prompt_reads_yes_and_no() {
    let mut app = key_app();
    app.confirm_quit = true;
    assert!(matches!(
        handle_key(Key::Char('y'), false, &mut app),
        Some(AppEvent::ConfirmQuit)
    ));
    assert!(matches!(handle_key(Key::Esc, false, &mut app), Some(AppEvent::CancelQuit)));
    assert!(handle_key(Key::Char('x'), false, &mut app).is_none());
}

#[test]
fn help_screen_swallows_keys_and_closes() {
    let mut app = key_app();
    app.show_help = true;
    assert!(handle_key(Key::Char('j'), false, &mut app).is_none());
    assert!(app.show_help);
    assert!(handle_key(Key::Esc, false, &mut app).is_none());
    assert!(!app.show_help);
}

#[test]
fn popup_keys_map_to_popup_events() {
    let mut app = key_app();
    app.handle_event(AppEvent::AddUrl("https://example.net/v".to_string()));
    let id = app.jobs[0].id;
    app.handle_event(AppEvent::FormatsReady {
        id,
        title: "T".to_string(),
        formats: vec![oxidlp::format::Format {
            format_id: "137".to_string(),
            resolution: None,
            ext: "mp4".to_string(),
            vcodec: Some("avc1".to_string()),
            acodec: None,
            filesize: None,
            filesize_approx: None,
            tbr: None,
            width: None,
            height: Some(1080),
        }],
    });
    app.handle_event(AppEvent::OpenFormatPopup);
    assert!(app.format_popup.is_some());
    assert!(matches!(
        handle_key(Key::Down, false, &mut app),
        Some(AppEvent::FormatSelectNext)
    ));
    assert!(matches!(
        handle_key(Key::Enter, false, &mut app),
        Some(AppEvent::ConfirmFormat)
    ));
    assert!(matches!(
        handle_key(Key::Esc, false, &mut app),
        Some(AppEvent::CloseFormatPopup)
    ));
}

#[test]
fn settings_keys_map_to_settings_events() {
    let mut app = key_app();
    app.handle_event(AppEvent::ToggleSettings);
    assert!(matches!(
        handle_key(Key::Right, false, &mut app),
        Some(AppEvent::SettingsIncrement)
    ));
    assert!(matches!(
        handle_key(Key::Enter, false, &mut app),
        Some(AppEvent::SaveSettings)
    ));
    assert!(matches!(
        handle_key(Key::Char('j'), false, &mut app),
        Some(AppEvent::SettingsNext)
    ));
    // on the path field, enter starts editing and characters feed it
    app.handle_event(AppEvent::SettingsNext);
    assert!(matches!(
        handle_key(Key::Enter, false, &mut app),
        Some(AppEvent::SettingsToggleEdit)
    ));
    app.handle_event(AppEvent::SettingsToggleEdit);
    assert!(matches!(
        handle_key(Key::Char('x'), false, &mut app),
        Some(AppEvent::SettingsCharInput('x'))
    ));
}
