//! Keyboard dispatch: maps one key press, against the current interface
//! state, to the event the state machine should fold — and applies the
//! few edits (typing into the URL field, closing the help) that happen in
//! place.

use vstd::prelude::*;

use crate::app::App;
use crate::events::AppEvent;
use crate::job::spec_can_select_format;
use crate::config::SettingsState;
use crate::strutil::{pop_char, push_char};

verus! {

/// A decoded key press, as the library understands it. The runtime
/// converts the terminal's own key type into this one.
#[derive(Clone, Copy, PartialEq, Eq, Structural)]
pub enum Key {
    Char(char),
    Enter,
    Esc,
    Backspace,
    Tab,
    Up,
    Down,
    Left,
    Right,
    Other,
}

/// What a key does while the format popup is open.
pub open spec fn spec_popup_event(key: Key) -> Option<AppEvent> {
    match key {
        Key::Char(c) => if c == 'j' {
            Some(AppEvent::FormatSelectNext)
        } else if c == 'k' {
            Some(AppEvent::FormatSelectPrev)
        } else if c == 'a' {
            Some(AppEvent::ToggleAudioOnly)
        } else if c == 'A' {
            Some(AppEvent::ToggleApplyToAll)
        } else if c == 'q' {
            Some(AppEvent::CloseFormatPopup)
        } else {
            None
        },
        Key::Down => Some(AppEvent::FormatSelectNext),
        Key::Up => Some(AppEvent::FormatSelectPrev),
        Key::Enter => Some(AppEvent::ConfirmFormat),
        Key::Esc => Some(AppEvent::CloseFormatPopup),
        _ => None,
    }
}

/// What a key does while the settings popup is open.
pub open spec fn spec_settings_event(key: Key, s: SettingsState) -> Option<AppEvent> {
    if s.editing_path {
        match key {
            Key::Esc => Some(AppEvent::SettingsToggleEdit),
            Key::Enter => Some(AppEvent::SettingsToggleEdit),
            Key::Backspace => Some(AppEvent::SettingsBackspace),
            Key::Char(c) => Some(AppEvent::SettingsCharInput(c)),
            _ => None,
        }
    } else {
        match key {
            Key::Char(c) => if c == 'j' {
                Some(AppEvent::SettingsNext)
            } else if c == 'k' {
                Some(AppEvent::SettingsPrev)
            } else if c == 'l' || c == '+' {
                Some(AppEvent::SettingsIncrement)
            } else if c == 'h' || c == '-' {
                Some(AppEvent::SettingsDecrement)
            } else if c == 's' {
                Some(AppEvent::SaveSettings)
            } else if c == 'q' || c == 'g' {
                Some(AppEvent::CloseSettings)
            } else {
                None
            },
            Key::Down => Some(AppEvent::SettingsNext),
            Key::Up => Some(AppEvent::SettingsPrev),
            Key::Right => Some(AppEvent::SettingsIncrement),
            Key::Left => Some(AppEvent::SettingsDecrement),
            Key::Enter => if s.selected_field == 0 {
                Some(AppEvent::SaveSettings)
            } else {
                Some(AppEvent::SettingsToggleEdit)
            },
            Key::Esc => Some(AppEvent::CloseSettings),
            _ => None,
        }
    }
}

/// What a key does in queue mode (no popup, not typing).
pub open spec fn spec_queue_event(pre: App, key: Key) -> Option<AppEvent> {
    match key {
        Key::Char(c) => if c == 'q' {
            Some(AppEvent::Quit)
        } else if c == '?' {
            Some(AppEvent::ToggleHelp)
        } else if c == 'g' {
            Some(AppEvent::ToggleSettings)
        } else if c == 'j' {
            Some(AppEvent::SelectNext)
        } else if c == 'k' {
            Some(AppEvent::SelectPrev)
        } else if c == 's' {
            Some(AppEvent::StartDownloads)
        } else if c == 'S' {
            Some(AppEvent::ToggleSysInfo)
        } else if c == 'd' {
            if pre.selected_index < pre.jobs@.len() {
                Some(AppEvent::RemoveJob(pre.jobs@[pre.selected_index as int].id))
            } else {
                None
            }
        } else if c == 'c' {
            if pre.selected_index < pre.jobs@.len() {
                Some(AppEvent::CancelJob(pre.jobs@[pre.selected_index as int].id))
            } else {
                None
            }
        } else {
            None
        },
        Key::Down => Some(AppEvent::SelectNext),
        Key::Up => Some(AppEvent::SelectPrev),
        Key::Enter => if pre.selected_index < pre.jobs@.len() && spec_can_select_format(
            pre.jobs@[pre.selected_index as int],
        ) {
            Some(AppEvent::OpenFormatPopup)
        } else {
            None
        },
        _ => None,
    }
}

/// The whole key dispatch: which event a key yields in each interface
/// state, and the few in-place edits it performs.
pub open spec fn key_step(
    pre: App,
    key: Key,
    ctrl: bool,
    post: App,
    r: Option<AppEvent>,
) -> bool {
    if ctrl && (key matches Key::Char(c) && c == 'c') {
        post == pre && r == Some(AppEvent::Quit)
    } else if pre.confirm_quit {
        post == pre && r == (match key {
            Key::Char(c) => if c == 'y' || c == 'Y' {
                Some(AppEvent::ConfirmQuit)
            } else if c == 'n' || c == 'N' {
                Some(AppEvent::CancelQuit)
            } else {
                None
            },
            Key::Enter => Some(AppEvent::ConfirmQuit),
            Key::Esc => Some(AppEvent::CancelQuit),
            _ => None,
        })
    } else if pre.show_help {
        &&& r is None
        &&& if (key matches Key::Char(c) && (c == '?' || c == 'q')) || key is Esc {
            post == App { show_help: false, ..pre }
        } else {
            post == pre
        }
    } else if pre.format_popup is Some {
        post == pre && r == spec_popup_event(key)
    } else if pre.settings_popup is Some {
        post == pre && r == spec_settings_event(key, pre.settings_popup->0)
    } else if key is Tab {
        post == pre && r == Some(AppEvent::ToggleInputMode)
    } else if pre.input_mode {
        match key {
            Key::Enter => if pre.input_buffer@.len() > 0 {
                &&& post == App { input_buffer: post.input_buffer, ..pre }
                &&& post.input_buffer@.len() == 0
                &&& r matches Some(AppEvent::AddUrl(u)) && u == pre.input_buffer
            } else {
                post == pre && r is None
            },
            Key::Backspace => {
                &&& r is None
                &&& post == App { input_buffer: post.input_buffer, ..pre }
                &&& post.input_buffer@ == if pre.input_buffer@.len() > 0 {
                    pre.input_buffer@.drop_last()
                } else {
                    pre.input_buffer@
                }
            },
            Key::Esc => r is None && post == App { input_mode: false, ..pre },
            Key::Char(c) => {
                &&& r is None
                &&& post == App { input_buffer: post.input_buffer, ..pre }
                &&& post.input_buffer@ == pre.input_buffer@.push(c)
            },
            _ => post == pre && r is None,
        }
    } else {
        if key matches Key::Char(c) && (c == 'i' || c == '/') {
            r is None && post == App { input_mode: true, ..pre }
        } else {
            post == pre && r == spec_queue_event(pre, key)
        }
    }
}

/// Dispatches one key press against the current state.
pub fn handle_key(key: Key, ctrl: bool, app: &mut App) -> (r: Option<AppEvent>)
    ensures
        key_step(*old(app), key, ctrl, *final(app), r),
{
    if ctrl {
        match key {
            Key::Char(c) => if c == 'c' {
                return Some(AppEvent::Quit);
            },
            _ => {},
        }
    }
    if app.confirm_quit {
        return match key {
            Key::Char(c) => if c == 'y' || c == 'Y' {
                Some(AppEvent::ConfirmQuit)
            } else if c == 'n' || c == 'N' {
                Some(AppEvent::CancelQuit)
            } else {
                None
            },
            Key::Enter => Some(AppEvent::ConfirmQuit),
            Key::Esc => Some(AppEvent::CancelQuit),
            _ => None,
        };
    }
    if app.show_help {
        let closes = match key {
            Key::Char(c) => c == '?' || c == 'q',
            Key::Esc => true,
            _ => false,
        };
        if closes {
            app.show_help = false;
        }
        return None;
    }
    if app.format_popup.is_some() {
        return match key {
            Key::Char(c) => if c == 'j' {
                Some(AppEvent::FormatSelectNext)
            } else if c == 'k' {
                Some(AppEvent::FormatSelectPrev)
            } else if c == 'a' {
                Some(AppEvent::ToggleAudioOnly)
            } else if c == 'A' {
                Some(AppEvent::ToggleApplyToAll)
            } else if c == 'q' {
                Some(AppEvent::CloseFormatPopup)
            } else {
                None
            },
            Key::Down => Some(AppEvent::FormatSelectNext),
            Key::Up => Some(AppEvent::FormatSelectPrev),
            Key::Enter => Some(AppEvent::ConfirmFormat),
            Key::Esc => Some(AppEvent::CloseFormatPopup),
            _ => None,
        };
    }
    match &app.settings_popup {
        Some(s) => {
            if s.editing_path {
                return match key {
                    Key::Esc => Some(AppEvent::SettingsToggleEdit),
                    Key::Enter => Some(AppEvent::SettingsToggleEdit),
                    Key::Backspace => Some(AppEvent::SettingsBackspace),
                    Key::Char(c) => Some(AppEvent::SettingsCharInput(c)),
                    _ => None,
                };
            }
            return match key {
                Key::Char(c) => if c == 'j' {
                    Some(AppEvent::SettingsNext)
                } else if c == 'k' {
                    Some(AppEvent::SettingsPrev)
                } else if c == 'l' || c == '+' {
                    Some(AppEvent::SettingsIncrement)
                } else if c == 'h' || c == '-' {
                    Some(AppEvent::SettingsDecrement)
                } else if c == 's' {
                    Some(AppEvent::SaveSettings)
                } else if c == 'q' || c == 'g' {
                    Some(AppEvent::CloseSettings)
                } else {
                    None
                },
                Key::Down => Some(AppEvent::SettingsNext),
                Key::Up => Some(AppEvent::SettingsPrev),
                Key::Right => Some(AppEvent::SettingsIncrement),
                Key::Left => Some(AppEvent::SettingsDecrement),
                Key::Enter => if s.selected_field == 0 {
                    Some(AppEvent::SaveSettings)
                } else {
                    Some(AppEvent::SettingsToggleEdit)
                },
                Key::Esc => Some(AppEvent::CloseSettings),
                _ => None,
            };
        },
        None => {},
    }
    match key {
        Key::Tab => {
            return Some(AppEvent::ToggleInputMode);
        },
        _ => {},
    }
    if app.input_mode {
        match key {
            Key::Enter => {
                if app.input_buffer.as_str().is_empty() {
                    None
                } else {
                    let url = app.input_buffer.clone();
                    app.input_buffer = String::new();
                    Some(AppEvent::AddUrl(url))
                }
            },
            Key::Backspace => {
                pop_char(&mut app.input_buffer);
                None
            },
            Key::Esc => {
                app.input_mode = false;
                None
            },
            Key::Char(c) => {
                push_char(&mut app.input_buffer, c);
                None
            },
            _ => None,
        }
    } else {
        match key {
            Key::Char(c) => {
                if c == 'i' || c == '/' {
                    app.input_mode = true;
                    return None;
                }
                if c == 'q' {
                    Some(AppEvent::Quit)
                } else if c == '?' {
                    Some(AppEvent::ToggleHelp)
                } else if c == 'g' {
                    Some(AppEvent::ToggleSettings)
                } else if c == 'j' {
                    Some(AppEvent::SelectNext)
                } else if c == 'k' {
                    Some(AppEvent::SelectPrev)
                } else if c == 's' {
                    Some(AppEvent::StartDownloads)
                } else if c == 'S' {
                    Some(AppEvent::ToggleSysInfo)
                } else if c == 'd' {
                    if app.selected_index < app.jobs.len() {
                        Some(AppEvent::RemoveJob(app.jobs[app.selected_index].id))
                    } else {
                        None
                    }
                } else if c == 'c' {
                    if app.selected_index < app.jobs.len() {
                        Some(AppEvent::CancelJob(app.jobs[app.selected_index].id))
                    } else {
                        None
                    }
                } else {
                    None
                }
            },
            Key::Down => Some(AppEvent::SelectNext),
            Key::Up => Some(AppEvent::SelectPrev),
            Key::Enter => {
                if app.selected_index < app.jobs.len() {
                    let can = app.jobs[app.selected_index].can_select_format();
                    if can {
                        Some(AppEvent::OpenFormatPopup)
                    } else {
                        None
                    }
                } else {
                    None
                }
            },
            _ => None,
        }
    }
}

} // verus!
