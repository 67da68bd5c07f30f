use work_tuimer::keys::{
    command_action, is_enter_key, key_action, saves_day, AppMode, CommandAction, KeyCode, KeyEvent, UiAction,
    MOD_CONTROL, MOD_NONE, MOD_SHIFT,
};
use work_tuimer::timer::TimerStatus;

fn key_event(code: KeyCode, modifiers: u8) -> KeyEvent {
    KeyEvent { code, modifiers }
}

#[test]
fn test_recognizes_keypad_enter_variants() {
    assert!(is_enter_key(key_event(KeyCode::Enter, MOD_NONE)));
    assert!(is_enter_key(key_event(KeyCode::Char('\n'), MOD_NONE)));
    assert!(is_enter_key(key_event(KeyCode::Char('\r'), MOD_NONE)));
    assert!(is_enter_key(key_event(KeyCode::Char('j'), MOD_CONTROL)));
    assert!(is_enter_key(key_event(KeyCode::Char('m'), MOD_CONTROL)));
    assert!(!is_enter_key(key_event(KeyCode::Char('j'), MOD_NONE)));
}

#[test]
fn test_ctrl_j_enters_edit_mode_in_browse() {
    let action = key_action(AppMode::Browse, key_event(KeyCode::Char('j'), MOD_CONTROL), None, false);
    assert_eq!(action, UiAction::EnterEditMode);
}

#[test]
fn test_ctrl_j_saves_in_edit_mode() {
    let action = key_action(AppMode::Edit, key_event(KeyCode::Char('j'), MOD_CONTROL), None, false);
    assert_eq!(action, UiAction::SaveEdit);
    assert!(saves_day(action));
}

#[test]
fn ctrl_j_with_shift_is_not_enter() {
    assert!(!is_enter_key(key_event(KeyCode::Char('j'), MOD_CONTROL | MOD_SHIFT)));
    assert!(!is_enter_key(key_event(KeyCode::Char('x'), MOD_CONTROL)));
    assert!(!is_enter_key(key_event(KeyCode::Tab, MOD_NONE)));
}

#[test]
fn browse_keys() {
    let b = |code: KeyCode| key_action(AppMode::Browse, key_event(code, MOD_NONE), None, false);
    assert_eq!(b(KeyCode::Char('q')), UiAction::Quit);
    assert_eq!(b(KeyCode::Char('j')), UiAction::MoveDown);
    assert_eq!(b(KeyCode::Down), UiAction::MoveDown);
    assert_eq!(b(KeyCode::Char('k')), UiAction::MoveUp);
    assert_eq!(b(KeyCode::Char('h')), UiAction::MoveLeft);
    assert_eq!(b(KeyCode::Right), UiAction::MoveRight);
    assert_eq!(b(KeyCode::Enter), UiAction::EnterEditMode);
    assert_eq!(b(KeyCode::Char('i')), UiAction::EnterEditMode);
    assert_eq!(b(KeyCode::Char('n')), UiAction::AddRecord);
    assert_eq!(b(KeyCode::Char('[')), UiAction::PreviousDay);
    assert_eq!(b(KeyCode::Char(']')), UiAction::NextDay);
    assert_eq!(b(KeyCode::Char('C')), UiAction::OpenCalendar);
    assert_eq!(b(KeyCode::Char('?')), UiAction::OpenCommandPalette);
    assert_eq!(b(KeyCode::Char('T')), UiAction::Nothing);
    assert_eq!(b(KeyCode::Esc), UiAction::Nothing);
    assert_eq!(key_action(AppMode::Browse, key_event(KeyCode::Char('T'), MOD_NONE), None, true), UiAction::OpenTicket);
    assert_eq!(key_action(AppMode::Browse, key_event(KeyCode::Char('L'), MOD_NONE), None, true), UiAction::OpenWorklog);
    assert_eq!(key_action(AppMode::Browse, key_event(KeyCode::Char('q'), MOD_CONTROL), None, false), UiAction::Quit);
}

#[test]
fn browse_timer_toggles() {
    let s = |t: Option<TimerStatus>| key_action(AppMode::Browse, key_event(KeyCode::Char('S'), MOD_NONE), t, false);
    assert_eq!(s(None), UiAction::StartTimer);
    assert_eq!(s(Some(TimerStatus::Running)), UiAction::StopTimer);
    assert_eq!(s(Some(TimerStatus::Paused)), UiAction::StopTimer);
    assert_eq!(s(Some(TimerStatus::Stopped)), UiAction::StartTimer);
    let p = |t: Option<TimerStatus>| key_action(AppMode::Browse, key_event(KeyCode::Char('P'), MOD_NONE), t, false);
    assert_eq!(p(None), UiAction::Nothing);
    assert_eq!(p(Some(TimerStatus::Running)), UiAction::PauseTimer);
    assert_eq!(p(Some(TimerStatus::Paused)), UiAction::ResumeTimer);
    assert_eq!(p(Some(TimerStatus::Stopped)), UiAction::Nothing);
}

#[test]
fn edit_and_picker_keys_type_letters() {
    assert_eq!(key_action(AppMode::Edit, key_event(KeyCode::Char('j'), MOD_NONE), None, false), UiAction::EditInput('j'));
    assert_eq!(key_action(AppMode::Edit, key_event(KeyCode::Tab, MOD_NONE), None, false), UiAction::NextField);
    assert_eq!(key_action(AppMode::Edit, key_event(KeyCode::Esc, MOD_NONE), None, false), UiAction::ExitEditMode);
    assert_eq!(key_action(AppMode::Edit, key_event(KeyCode::Backspace, MOD_NONE), None, false), UiAction::EditBackspace);
    assert_eq!(key_action(AppMode::TaskPicker, key_event(KeyCode::Char('h'), MOD_NONE), None, false), UiAction::TaskPickerInput('h'));
    assert_eq!(key_action(AppMode::TaskPicker, key_event(KeyCode::Enter, MOD_NONE), None, false), UiAction::SelectTask);
    assert_eq!(key_action(AppMode::CommandPalette, key_event(KeyCode::Char('u'), MOD_NONE), None, false), UiAction::PaletteInput('u'));
    assert_eq!(key_action(AppMode::CommandPalette, key_event(KeyCode::Char('\r'), MOD_NONE), None, false), UiAction::ExecutePaletteCommand);
}

#[test]
fn calendar_and_visual_keys() {
    let c = |code: KeyCode, m: u8| key_action(AppMode::Calendar, key_event(code, m), None, false);
    assert_eq!(c(KeyCode::Char(','), MOD_NONE), UiAction::CalendarPreviousMonth);
    assert_eq!(c(KeyCode::Char('>'), MOD_NONE), UiAction::CalendarNextMonth);
    assert_eq!(c(KeyCode::Char('j'), MOD_NONE), UiAction::CalendarDown);
    assert_eq!(c(KeyCode::Char('j'), MOD_CONTROL), UiAction::SelectCalendarDate);
    let v = |code: KeyCode, m: u8| key_action(AppMode::Visual, key_event(code, m), None, false);
    assert_eq!(v(KeyCode::Char('d'), MOD_NONE), UiAction::DeleteVisualSelection);
    assert_eq!(v(KeyCode::Enter, MOD_NONE), UiAction::Nothing);
    assert_eq!(v(KeyCode::Char('j'), MOD_CONTROL), UiAction::MoveDown);
}

#[test]
fn enter_variants_agree_outside_visual_mode() {
    let variants = [
        key_event(KeyCode::Enter, MOD_NONE),
        key_event(KeyCode::Char('\n'), MOD_NONE),
        key_event(KeyCode::Char('\r'), MOD_NONE),
        key_event(KeyCode::Char('j'), MOD_CONTROL),
        key_event(KeyCode::Char('m'), MOD_CONTROL),
    ];
    for mode in [AppMode::Browse, AppMode::Edit, AppMode::CommandPalette, AppMode::Calendar, AppMode::TaskPicker] {
        let expected = key_action(mode, variants[0], None, false);
        for k in variants {
            assert_eq!(key_action(mode, k, None, false), expected);
        }
    }
}

#[test]
fn palette_commands() {
    assert_eq!(command_action(CommandAction::New, None), UiAction::AddRecord);
    assert_eq!(command_action(CommandAction::SetNow, None), UiAction::SetCurrentTime);
    assert_eq!(command_action(CommandAction::PauseTimer, Some(TimerStatus::Running)), UiAction::PauseTimer);
    assert_eq!(command_action(CommandAction::PauseTimer, Some(TimerStatus::Paused)), UiAction::ResumeTimer);
    assert_eq!(command_action(CommandAction::PauseTimer, None), UiAction::Nothing);
    assert_eq!(command_action(CommandAction::Quit, None), UiAction::Quit);
    assert!(saves_day(command_action(CommandAction::Undo, None)));
    assert!(!saves_day(command_action(CommandAction::MoveUp, None)));
}

use work_tuimer::keys::{action_effect, ActionSource, UiEffect};

#[test]
fn failed_timer_calls_become_the_shown_error() {
    let err = Some("no record selected".to_string());
    let e = action_effect(ActionSource::Key, UiAction::StartTimer, &err);
    assert_eq!(e, UiEffect { error_message: Some("no record selected".to_string()), save_day: false, refresh_token: false });
    let e = action_effect(ActionSource::Palette, UiAction::StartTimer, &err);
    assert_eq!(e.error_message.as_deref(), Some("Failed to start timer: no record selected"));
    let e = action_effect(ActionSource::Palette, UiAction::PauseTimer, &err);
    assert_eq!(e.error_message.as_deref(), Some("Failed to pause timer: no record selected"));
    let e = action_effect(ActionSource::Palette, UiAction::ResumeTimer, &err);
    assert_eq!(e.error_message.as_deref(), Some("Failed to resume timer: no record selected"));
    assert_eq!(action_effect(ActionSource::Key, UiAction::StopTimer, &None).error_message, None);
}

#[test]
fn edits_save_and_refresh_the_token() {
    for action in [UiAction::AddRecord, UiAction::SaveEdit, UiAction::Undo, UiAction::Save, UiAction::SelectTask] {
        let e = action_effect(ActionSource::Key, action, &None);
        assert!(e.save_day && e.refresh_token);
        assert_eq!(e.error_message, None);
    }
    let e = action_effect(ActionSource::Key, UiAction::MoveDown, &Some("ignored".to_string()));
    assert_eq!(e, UiEffect { error_message: None, save_day: false, refresh_token: false });
}
