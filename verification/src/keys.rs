//! Keyboard input as the terminal front end reports it, which keys count as Enter, and
//! which action each key press asks of the day view in each of its modes.

use vstd::prelude::*;
use crate::text::{push_str, string_from_chars};
use crate::timer::{TimerStatus, opt_text};

verus! {

/// No modifier held.
pub const MOD_NONE: u8 = 0;
/// Shift held.
pub const MOD_SHIFT: u8 = 1;
/// Control held.
pub const MOD_CONTROL: u8 = 2;
/// Alt held.
pub const MOD_ALT: u8 = 4;

/// The key of a key press; `Other` stands for every key this logic does not tell apart.
#[derive(Clone, Copy, Debug, PartialEq, Eq, Structural)]
pub enum KeyCode {
    Enter,
    Esc,
    Tab,
    Backspace,
    Up,
    Down,
    Left,
    Right,
    Char(char),
    Other,
}

/// A key press: the key and the set of modifiers held, one bit each (`MOD_*`).
#[derive(Clone, Copy, Debug, PartialEq, Eq, Structural)]
pub struct KeyEvent {
    pub code: KeyCode,
    pub modifiers: u8,
}

/// The key presses that confirm: Enter, a newline or carriage-return character (as some
/// terminals send for the keypad Enter), and Ctrl+J or Ctrl+M with no other modifier.
pub open spec fn spec_is_enter_key(key: KeyEvent) -> bool {
    ||| key.code == KeyCode::Enter
    ||| key.code == KeyCode::Char('\n')
    ||| key.code == KeyCode::Char('\r')
    ||| key.modifiers == MOD_CONTROL && (key.code == KeyCode::Char('j') || key.code == KeyCode::Char('m'))
}

/// Whether `key` confirms (see `spec_is_enter_key`).
pub fn is_enter_key(key: KeyEvent) -> (res: bool)
    ensures
        res == spec_is_enter_key(key),
{
    let plain = match key.code {
        KeyCode::Enter => true,
        KeyCode::Char(c) => c == '\n' || c == '\r',
        _ => false,
    };
    let control = key.modifiers == MOD_CONTROL && match key.code {
        KeyCode::Char(c) => c == 'j' || c == 'm',
        _ => false,
    };
    plain || control
}

/// The modes of the day view.
#[derive(Clone, Copy, Debug, PartialEq, Eq, Structural)]
pub enum AppMode {
    Browse,
    Edit,
    Visual,
    CommandPalette,
    Calendar,
    TaskPicker,
}

/// What a key press asks of the day view.
#[derive(Clone, Copy, Debug, PartialEq, Eq, Structural)]
pub enum UiAction {
    Nothing,
    Quit,
    OpenCommandPalette,
    OpenCalendar,
    OpenTicket,
    OpenWorklog,
    StartTimer,
    StopTimer,
    PauseTimer,
    ResumeTimer,
    EnterEditMode,
    MoveUp,
    MoveDown,
    MoveLeft,
    MoveRight,
    ChangeTaskName,
    AddRecord,
    AddBreak,
    DeleteRecord,
    EnterVisualMode,
    SetCurrentTime,
    Undo,
    Redo,
    Save,
    PreviousDay,
    NextDay,
    ExitEditMode,
    NextField,
    SaveEdit,
    EditBackspace,
    EditInput(char),
    ExitVisualMode,
    DeleteVisualSelection,
    ClosePalette,
    PaletteUp,
    PaletteDown,
    ExecutePaletteCommand,
    PaletteBackspace,
    PaletteInput(char),
    CloseCalendar,
    SelectCalendarDate,
    CalendarLeft,
    CalendarRight,
    CalendarUp,
    CalendarDown,
    CalendarPreviousMonth,
    CalendarNextMonth,
    CloseTaskPicker,
    TaskPickerUp,
    TaskPickerDown,
    SelectTask,
    TaskPickerBackspace,
    TaskPickerInput(char),
}

/// The actions after which the day is saved (and its change token recorded).
pub open spec fn spec_saves_day(action: UiAction) -> bool {
    match action {
        UiAction::AddRecord | UiAction::AddBreak | UiAction::DeleteRecord | UiAction::SetCurrentTime
        | UiAction::Undo | UiAction::Redo | UiAction::Save | UiAction::SaveEdit
        | UiAction::DeleteVisualSelection | UiAction::SelectTask => true,
        _ => false,
    }
}

/// Whether the day is saved after `action` (see `spec_saves_day`).
pub fn saves_day(action: UiAction) -> (res: bool)
    ensures
        res == spec_saves_day(action),
{
    match action {
        UiAction::AddRecord | UiAction::AddBreak | UiAction::DeleteRecord | UiAction::SetCurrentTime
        | UiAction::Undo | UiAction::Redo | UiAction::Save | UiAction::SaveEdit
        | UiAction::DeleteVisualSelection | UiAction::SelectTask => true,
        _ => false,
    }
}

/// `S` stops a running or paused timer and otherwise starts one.
pub open spec fn spec_toggle_timer(timer: Option<TimerStatus>) -> UiAction {
    match timer {
        Some(TimerStatus::Running) | Some(TimerStatus::Paused) => UiAction::StopTimer,
        _ => UiAction::StartTimer,
    }
}

/// `P` pauses a running timer and resumes a paused one.
pub open spec fn spec_pause_toggle(timer: Option<TimerStatus>) -> UiAction {
    match timer {
        Some(TimerStatus::Running) => UiAction::PauseTimer,
        Some(TimerStatus::Paused) => UiAction::ResumeTimer,
        _ => UiAction::Nothing,
    }
}

/// The browse-mode keymap. Keys are told apart by code alone; the letter keys before the
/// Enter check win over it, so Ctrl+Q still quits while Ctrl+J edits.
pub open spec fn spec_browse_action(key: KeyEvent, timer: Option<TimerStatus>, has_integrations: bool) -> UiAction {
    let c = key.code;
    if c == KeyCode::Char('q') {
        UiAction::Quit
    } else if c == KeyCode::Char('?') {
        UiAction::OpenCommandPalette
    } else if c == KeyCode::Char('C') {
        UiAction::OpenCalendar
    } else if c == KeyCode::Char('T') && has_integrations {
        UiAction::OpenTicket
    } else if c == KeyCode::Char('L') && has_integrations {
        UiAction::OpenWorklog
    } else if c == KeyCode::Char('S') {
        spec_toggle_timer(timer)
    } else if c == KeyCode::Char('P') {
        spec_pause_toggle(timer)
    } else if spec_is_enter_key(key) {
        UiAction::EnterEditMode
    } else {
        match c {
            KeyCode::Up | KeyCode::Char('k') => UiAction::MoveUp,
            KeyCode::Down | KeyCode::Char('j') => UiAction::MoveDown,
            KeyCode::Left | KeyCode::Char('h') => UiAction::MoveLeft,
            KeyCode::Right | KeyCode::Char('l') => UiAction::MoveRight,
            KeyCode::Char('i') => UiAction::EnterEditMode,
            KeyCode::Char('c') => UiAction::ChangeTaskName,
            KeyCode::Char('n') => UiAction::AddRecord,
            KeyCode::Char('b') => UiAction::AddBreak,
            KeyCode::Char('d') => UiAction::DeleteRecord,
            KeyCode::Char('v') => UiAction::EnterVisualMode,
            KeyCode::Char('t') => UiAction::SetCurrentTime,
            KeyCode::Char('u') => UiAction::Undo,
            KeyCode::Char('r') => UiAction::Redo,
            KeyCode::Char('s') => UiAction::Save,
            KeyCode::Char('[') => UiAction::PreviousDay,
            KeyCode::Char(']') => UiAction::NextDay,
            _ => UiAction::Nothing,
        }
    }
}

/// The edit-mode keymap: Enter saves the edit, other characters are typed.
pub open spec fn spec_edit_action(key: KeyEvent) -> UiAction {
    if key.code == KeyCode::Esc {
        UiAction::ExitEditMode
    } else if key.code == KeyCode::Tab {
        UiAction::NextField
    } else if spec_is_enter_key(key) {
        UiAction::SaveEdit
    } else {
        match key.code {
            KeyCode::Backspace => UiAction::EditBackspace,
            KeyCode::Char(c) => UiAction::EditInput(c),
            _ => UiAction::Nothing,
        }
    }
}

/// The visual-mode keymap.
pub open spec fn spec_visual_action(key: KeyEvent) -> UiAction {
    match key.code {
        KeyCode::Esc => UiAction::ExitVisualMode,
        KeyCode::Up | KeyCode::Char('k') => UiAction::MoveUp,
        KeyCode::Down | KeyCode::Char('j') => UiAction::MoveDown,
        KeyCode::Char('d') => UiAction::DeleteVisualSelection,
        _ => UiAction::Nothing,
    }
}

/// The command-palette keymap: Enter runs the selected command, characters filter.
pub open spec fn spec_palette_action(key: KeyEvent) -> UiAction {
    if key.code == KeyCode::Esc {
        UiAction::ClosePalette
    } else if key.code == KeyCode::Up {
        UiAction::PaletteUp
    } else if key.code == KeyCode::Down {
        UiAction::PaletteDown
    } else if spec_is_enter_key(key) {
        UiAction::ExecutePaletteCommand
    } else {
        match key.code {
            KeyCode::Backspace => UiAction::PaletteBackspace,
            KeyCode::Char(c) => UiAction::PaletteInput(c),
            _ => UiAction::Nothing,
        }
    }
}

/// The calendar keymap.
pub open spec fn spec_calendar_action(key: KeyEvent) -> UiAction {
    if key.code == KeyCode::Esc {
        UiAction::CloseCalendar
    } else if spec_is_enter_key(key) {
        UiAction::SelectCalendarDate
    } else {
        match key.code {
            KeyCode::Left | KeyCode::Char('h') => UiAction::CalendarLeft,
            KeyCode::Right | KeyCode::Char('l') => UiAction::CalendarRight,
            KeyCode::Up | KeyCode::Char('k') => UiAction::CalendarUp,
            KeyCode::Down | KeyCode::Char('j') => UiAction::CalendarDown,
            KeyCode::Char('<') | KeyCode::Char(',') | KeyCode::Char('[') => UiAction::CalendarPreviousMonth,
            KeyCode::Char('>') | KeyCode::Char('.') | KeyCode::Char(']') => UiAction::CalendarNextMonth,
            _ => UiAction::Nothing,
        }
    }
}

/// The task-picker keymap: Enter picks the selected task, characters filter.
pub open spec fn spec_task_picker_action(key: KeyEvent) -> UiAction {
    if key.code == KeyCode::Esc {
        UiAction::CloseTaskPicker
    } else if key.code == KeyCode::Up {
        UiAction::TaskPickerUp
    } else if key.code == KeyCode::Down {
        UiAction::TaskPickerDown
    } else if spec_is_enter_key(key) {
        UiAction::SelectTask
    } else {
        match key.code {
            KeyCode::Backspace => UiAction::TaskPickerBackspace,
            KeyCode::Char(c) => UiAction::TaskPickerInput(c),
            _ => UiAction::Nothing,
        }
    }
}

/// The action a key press asks for in `mode`, given the active timer's status and whether
/// issue-tracker integrations are configured.
pub open spec fn spec_key_action(mode: AppMode, key: KeyEvent, timer: Option<TimerStatus>, has_integrations: bool) -> UiAction {
    match mode {
        AppMode::Browse => spec_browse_action(key, timer, has_integrations),
        AppMode::Edit => spec_edit_action(key),
        AppMode::Visual => spec_visual_action(key),
        AppMode::CommandPalette => spec_palette_action(key),
        AppMode::Calendar => spec_calendar_action(key),
        AppMode::TaskPicker => spec_task_picker_action(key),
    }
}

fn browse_letter(c: char, timer: Option<TimerStatus>, has_integrations: bool) -> (res: Option<UiAction>)
    ensures
        res == (if c == 'q' {
            Some(UiAction::Quit)
        } else if c == '?' {
            Some(UiAction::OpenCommandPalette)
        } else if c == 'C' {
            Some(UiAction::OpenCalendar)
        } else if c == 'T' && has_integrations {
            Some(UiAction::OpenTicket)
        } else if c == 'L' && has_integrations {
            Some(UiAction::OpenWorklog)
        } else if c == 'S' {
            Some(spec_toggle_timer(timer))
        } else if c == 'P' {
            Some(spec_pause_toggle(timer))
        } else {
            None::<UiAction>
        }),
{
    if c == 'q' {
        Some(UiAction::Quit)
    } else if c == '?' {
        Some(UiAction::OpenCommandPalette)
    } else if c == 'C' {
        Some(UiAction::OpenCalendar)
    } else if c == 'T' && has_integrations {
        Some(UiAction::OpenTicket)
    } else if c == 'L' && has_integrations {
        Some(UiAction::OpenWorklog)
    } else if c == 'S' {
        Some(match timer {
            Some(TimerStatus::Running) | Some(TimerStatus::Paused) => UiAction::StopTimer,
            _ => UiAction::StartTimer,
        })
    } else if c == 'P' {
        Some(match timer {
            Some(TimerStatus::Running) => UiAction::PauseTimer,
            Some(TimerStatus::Paused) => UiAction::ResumeTimer,
            _ => UiAction::Nothing,
        })
    } else {
        None
    }
}

fn browse_action(key: KeyEvent, timer: Option<TimerStatus>, has_integrations: bool) -> (res: UiAction)
    ensures
        res == spec_browse_action(key, timer, has_integrations),
{
    if let KeyCode::Char(c) = key.code {
        if let Some(a) = browse_letter(c, timer, has_integrations) {
            return a;
        }
    }
    if is_enter_key(key) {
        return UiAction::EnterEditMode;
    }
    match key.code {
        KeyCode::Up | KeyCode::Char('k') => UiAction::MoveUp,
        KeyCode::Down | KeyCode::Char('j') => UiAction::MoveDown,
        KeyCode::Left | KeyCode::Char('h') => UiAction::MoveLeft,
        KeyCode::Right | KeyCode::Char('l') => UiAction::MoveRight,
        KeyCode::Char('i') => UiAction::EnterEditMode,
        KeyCode::Char('c') => UiAction::ChangeTaskName,
        KeyCode::Char('n') => UiAction::AddRecord,
        KeyCode::Char('b') => UiAction::AddBreak,
        KeyCode::Char('d') => UiAction::DeleteRecord,
        KeyCode::Char('v') => UiAction::EnterVisualMode,
        KeyCode::Char('t') => UiAction::SetCurrentTime,
        KeyCode::Char('u') => UiAction::Undo,
        KeyCode::Char('r') => UiAction::Redo,
        KeyCode::Char('s') => UiAction::Save,
        KeyCode::Char('[') => UiAction::PreviousDay,
        KeyCode::Char(']') => UiAction::NextDay,
        _ => UiAction::Nothing,
    }
}

/// The action a key press asks for (see `spec_key_action`).
pub fn key_action(mode: AppMode, key: KeyEvent, timer: Option<TimerStatus>, has_integrations: bool) -> (res: UiAction)
    ensures
        res == spec_key_action(mode, key, timer, has_integrations),
{
    let enter = is_enter_key(key);
    match mode {
        AppMode::Browse => browse_action(key, timer, has_integrations),
        AppMode::Edit => match key.code {
            KeyCode::Esc => UiAction::ExitEditMode,
            KeyCode::Tab => UiAction::NextField,
            _ if enter => UiAction::SaveEdit,
            KeyCode::Backspace => UiAction::EditBackspace,
            KeyCode::Char(c) => UiAction::EditInput(c),
            _ => UiAction::Nothing,
        },
        AppMode::Visual => match key.code {
            KeyCode::Esc => UiAction::ExitVisualMode,
            KeyCode::Up | KeyCode::Char('k') => UiAction::MoveUp,
            KeyCode::Down | KeyCode::Char('j') => UiAction::MoveDown,
            KeyCode::Char('d') => UiAction::DeleteVisualSelection,
            _ => UiAction::Nothing,
        },
        AppMode::CommandPalette => match key.code {
            KeyCode::Esc => UiAction::ClosePalette,
            KeyCode::Up => UiAction::PaletteUp,
            KeyCode::Down => UiAction::PaletteDown,
            _ if enter => UiAction::ExecutePaletteCommand,
            KeyCode::Backspace => UiAction::PaletteBackspace,
            KeyCode::Char(c) => UiAction::PaletteInput(c),
            _ => UiAction::Nothing,
        },
        AppMode::Calendar => match key.code {
            KeyCode::Esc => UiAction::CloseCalendar,
            _ if enter => UiAction::SelectCalendarDate,
            KeyCode::Left | KeyCode::Char('h') => UiAction::CalendarLeft,
            KeyCode::Right | KeyCode::Char('l') => UiAction::CalendarRight,
            KeyCode::Up | KeyCode::Char('k') => UiAction::CalendarUp,
            KeyCode::Down | KeyCode::Char('j') => UiAction::CalendarDown,
            KeyCode::Char('<') | KeyCode::Char(',') | KeyCode::Char('[') => UiAction::CalendarPreviousMonth,
            KeyCode::Char('>') | KeyCode::Char('.') | KeyCode::Char(']') => UiAction::CalendarNextMonth,
            _ => UiAction::Nothing,
        },
        AppMode::TaskPicker => match key.code {
            KeyCode::Esc => UiAction::CloseTaskPicker,
            KeyCode::Up => UiAction::TaskPickerUp,
            KeyCode::Down => UiAction::TaskPickerDown,
            _ if enter => UiAction::SelectTask,
            KeyCode::Backspace => UiAction::TaskPickerBackspace,
            KeyCode::Char(c) => UiAction::TaskPickerInput(c),
            _ => UiAction::Nothing,
        },
    }
}

/// The commands of the command palette.
#[derive(Clone, Copy, Debug, PartialEq, Eq, Structural)]
pub enum CommandAction {
    MoveUp,
    MoveDown,
    MoveLeft,
    MoveRight,
    Edit,
    Change,
    New,
    Break,
    Delete,
    Visual,
    SetNow,
    Undo,
    Redo,
    Save,
    StartTimer,
    PauseTimer,
    Quit,
}

/// What a palette command asks of the day view; `PauseTimer` pauses a running timer,
/// resumes a paused one and does nothing otherwise.
pub open spec fn spec_command_action(command: CommandAction, timer: Option<TimerStatus>) -> UiAction {
    match command {
        CommandAction::MoveUp => UiAction::MoveUp,
        CommandAction::MoveDown => UiAction::MoveDown,
        CommandAction::MoveLeft => UiAction::MoveLeft,
        CommandAction::MoveRight => UiAction::MoveRight,
        CommandAction::Edit => UiAction::EnterEditMode,
        CommandAction::Change => UiAction::ChangeTaskName,
        CommandAction::New => UiAction::AddRecord,
        CommandAction::Break => UiAction::AddBreak,
        CommandAction::Delete => UiAction::DeleteRecord,
        CommandAction::Visual => UiAction::EnterVisualMode,
        CommandAction::SetNow => UiAction::SetCurrentTime,
        CommandAction::Undo => UiAction::Undo,
        CommandAction::Redo => UiAction::Redo,
        CommandAction::Save => UiAction::Save,
        CommandAction::StartTimer => UiAction::StartTimer,
        CommandAction::PauseTimer => spec_pause_toggle(timer),
        CommandAction::Quit => UiAction::Quit,
    }
}

/// What a palette command asks for (see `spec_command_action`).
pub fn command_action(command: CommandAction, timer: Option<TimerStatus>) -> (res: UiAction)
    ensures
        res == spec_command_action(command, timer),
{
    match command {
        CommandAction::MoveUp => UiAction::MoveUp,
        CommandAction::MoveDown => UiAction::MoveDown,
        CommandAction::MoveLeft => UiAction::MoveLeft,
        CommandAction::MoveRight => UiAction::MoveRight,
        CommandAction::Edit => UiAction::EnterEditMode,
        CommandAction::Change => UiAction::ChangeTaskName,
        CommandAction::New => UiAction::AddRecord,
        CommandAction::Break => UiAction::AddBreak,
        CommandAction::Delete => UiAction::DeleteRecord,
        CommandAction::Visual => UiAction::EnterVisualMode,
        CommandAction::SetNow => UiAction::SetCurrentTime,
        CommandAction::Undo => UiAction::Undo,
        CommandAction::Redo => UiAction::Redo,
        CommandAction::Save => UiAction::Save,
        CommandAction::StartTimer => UiAction::StartTimer,
        CommandAction::PauseTimer => match timer {
            Some(TimerStatus::Running) => UiAction::PauseTimer,
            Some(TimerStatus::Paused) => UiAction::ResumeTimer,
            _ => UiAction::Nothing,
        },
        CommandAction::Quit => UiAction::Quit,
    }
}

/// Every key press that counts as Enter (keypad Enter, a newline or carriage return, Ctrl+J,
/// Ctrl+M) asks for what Enter asks for, in every mode but visual mode (which has no use
/// for Enter and moves down on Ctrl+J).
pub proof fn law_enter_variants_confirm(
    mode: AppMode,
    key: KeyEvent,
    timer: Option<TimerStatus>,
    has_integrations: bool,
)
    requires
        spec_is_enter_key(key),
        mode != AppMode::Visual,
    ensures
        spec_key_action(mode, key, timer, has_integrations)
            == spec_key_action(mode, KeyEvent { code: KeyCode::Enter, modifiers: MOD_NONE }, timer, has_integrations),
{
}

/// In edit mode, the task picker and the command palette every character key that does not
/// count as Enter is typed, letters used for motion elsewhere (h/j/k/l) included.
pub proof fn law_text_modes_type_characters(c: char, modifiers: u8, timer: Option<TimerStatus>, has_integrations: bool)
    requires
        !spec_is_enter_key(KeyEvent { code: KeyCode::Char(c), modifiers }),
    ensures
        spec_key_action(AppMode::Edit, KeyEvent { code: KeyCode::Char(c), modifiers }, timer, has_integrations)
            == UiAction::EditInput(c),
        spec_key_action(AppMode::TaskPicker, KeyEvent { code: KeyCode::Char(c), modifiers }, timer, has_integrations)
            == UiAction::TaskPickerInput(c),
        spec_key_action(AppMode::CommandPalette, KeyEvent { code: KeyCode::Char(c), modifiers }, timer, has_integrations)
            == UiAction::PaletteInput(c),
{
}

/// Where an action came from.
#[derive(Clone, Copy, Debug, PartialEq, Eq, Structural)]
pub enum ActionSource {
    /// A key press in the day view.
    Key,
    /// A command run from the command palette.
    Palette,
}

/// What the day view does after an action has run.
#[derive(Debug, PartialEq, Eq)]
pub struct UiEffect {
    /// The error shown after the action (`None`: no error is shown; every key press first
    /// clears the previous one).
    pub error_message: Option<String>,
    /// Save the day (a failed save is not reported).
    pub save_day: bool,
    /// Take the day's change token from the storage again, so that the day's own save is
    /// not mistaken for a change made elsewhere.
    pub refresh_token: bool,
}

/// The actions that call the timer.
pub open spec fn is_timer_action(action: UiAction) -> bool {
    match action {
        UiAction::StartTimer | UiAction::StopTimer | UiAction::PauseTimer | UiAction::ResumeTimer => true,
        _ => false,
    }
}

/// What the command palette puts before a failed timer call's error.
pub open spec fn palette_error_prefix(action: UiAction) -> Seq<char> {
    match action {
        UiAction::StartTimer => "Failed to start timer: "@,
        UiAction::PauseTimer => "Failed to pause timer: "@,
        UiAction::ResumeTimer => "Failed to resume timer: "@,
        _ => Seq::<char>::empty(),
    }
}

/// The error shown after `action`, given the error of its timer call (`None` when the call
/// succeeded or no call was made): a key press shows the error as it is, the command palette
/// says which call failed; other actions show no error.
pub open spec fn spec_error_message(source: ActionSource, action: UiAction, call_error: Option<Seq<char>>) -> Option<Seq<char>> {
    match call_error {
        Some(e) => if is_timer_action(action) {
            match source {
                ActionSource::Key => Some(e),
                ActionSource::Palette => Some(palette_error_prefix(action) + e),
            }
        } else {
            None
        },
        None => None,
    }
}

/// What follows `action` (see `UiEffect`): the error of `spec_error_message`, and a save
/// followed by a token refresh exactly for the actions that change the day.
pub fn action_effect(source: ActionSource, action: UiAction, call_error: &Option<String>) -> (res: UiEffect)
    ensures
        opt_text(res.error_message) == spec_error_message(source, action, opt_text(*call_error)),
        res.save_day == spec_saves_day(action),
        res.refresh_token == spec_saves_day(action),
{
    let timer_call = match action {
        UiAction::StartTimer | UiAction::StopTimer | UiAction::PauseTimer | UiAction::ResumeTimer => true,
        _ => false,
    };
    let error_message = match call_error {
        Some(e) => if timer_call {
            match source {
                ActionSource::Key => Some(e.clone()),
                ActionSource::Palette => {
                    let mut out: Vec<char> = Vec::new();
                    match action {
                        UiAction::StartTimer => push_str(&mut out, "Failed to start timer: "),
                        UiAction::PauseTimer => push_str(&mut out, "Failed to pause timer: "),
                        UiAction::ResumeTimer => push_str(&mut out, "Failed to resume timer: "),
                        _ => {},
                    }
                    push_str(&mut out, e.as_str());
                    Some(string_from_chars(&out))
                },
            }
        } else {
            None
        },
        None => None,
    };
    let save = saves_day(action);
    UiEffect { error_message, save_day: save, refresh_token: save }
}

/// The browse-mode keys as the README lists them: `u` undoes and `r` redoes, `n` adds a
/// record, `b` a break, `d` deletes, `s` saves, `t` sets the current time, `v` enters visual
/// mode, `i` or Enter edits, `c` changes the task name, `C` opens the calendar, `?` the
/// palette, `[`/`]` move to the previous/next day, `q` quits, and `h`/`j`/`k`/`l` or the arrows
/// move; whatever modifiers are held (except that Ctrl+J counts as Enter), whatever the timer.
pub proof fn law_browse_keys_as_documented(m: u8, timer: Option<TimerStatus>, has_integrations: bool)
    ensures
        spec_key_action(AppMode::Browse, KeyEvent { code: KeyCode::Char('u'), modifiers: m }, timer, has_integrations) == UiAction::Undo,
        spec_key_action(AppMode::Browse, KeyEvent { code: KeyCode::Char('r'), modifiers: m }, timer, has_integrations) == UiAction::Redo,
        spec_key_action(AppMode::Browse, KeyEvent { code: KeyCode::Char('n'), modifiers: m }, timer, has_integrations) == UiAction::AddRecord,
        spec_key_action(AppMode::Browse, KeyEvent { code: KeyCode::Char('b'), modifiers: m }, timer, has_integrations) == UiAction::AddBreak,
        spec_key_action(AppMode::Browse, KeyEvent { code: KeyCode::Char('d'), modifiers: m }, timer, has_integrations) == UiAction::DeleteRecord,
        spec_key_action(AppMode::Browse, KeyEvent { code: KeyCode::Char('s'), modifiers: m }, timer, has_integrations) == UiAction::Save,
        spec_key_action(AppMode::Browse, KeyEvent { code: KeyCode::Char('t'), modifiers: m }, timer, has_integrations) == UiAction::SetCurrentTime,
        spec_key_action(AppMode::Browse, KeyEvent { code: KeyCode::Char('v'), modifiers: m }, timer, has_integrations) == UiAction::EnterVisualMode,
        spec_key_action(AppMode::Browse, KeyEvent { code: KeyCode::Char('i'), modifiers: m }, timer, has_integrations) == UiAction::EnterEditMode,
        spec_key_action(AppMode::Browse, KeyEvent { code: KeyCode::Enter, modifiers: m }, timer, has_integrations) == UiAction::EnterEditMode,
        spec_key_action(AppMode::Browse, KeyEvent { code: KeyCode::Char('c'), modifiers: m }, timer, has_integrations) == UiAction::ChangeTaskName,
        spec_key_action(AppMode::Browse, KeyEvent { code: KeyCode::Char('C'), modifiers: m }, timer, has_integrations) == UiAction::OpenCalendar,
        spec_key_action(AppMode::Browse, KeyEvent { code: KeyCode::Char('?'), modifiers: m }, timer, has_integrations) == UiAction::OpenCommandPalette,
        spec_key_action(AppMode::Browse, KeyEvent { code: KeyCode::Char('['), modifiers: m }, timer, has_integrations) == UiAction::PreviousDay,
        spec_key_action(AppMode::Browse, KeyEvent { code: KeyCode::Char(']'), modifiers: m }, timer, has_integrations) == UiAction::NextDay,
        spec_key_action(AppMode::Browse, KeyEvent { code: KeyCode::Char('q'), modifiers: m }, timer, has_integrations) == UiAction::Quit,
        spec_key_action(AppMode::Browse, KeyEvent { code: KeyCode::Char('k'), modifiers: m }, timer, has_integrations) == UiAction::MoveUp,
        spec_key_action(AppMode::Browse, KeyEvent { code: KeyCode::Up, modifiers: m }, timer, has_integrations) == UiAction::MoveUp,
        m != MOD_CONTROL ==> spec_key_action(AppMode::Browse, KeyEvent { code: KeyCode::Char('j'), modifiers: m }, timer, has_integrations) == UiAction::MoveDown,
        spec_key_action(AppMode::Browse, KeyEvent { code: KeyCode::Down, modifiers: m }, timer, has_integrations) == UiAction::MoveDown,
        spec_key_action(AppMode::Browse, KeyEvent { code: KeyCode::Char('h'), modifiers: m }, timer, has_integrations) == UiAction::MoveLeft,
        spec_key_action(AppMode::Browse, KeyEvent { code: KeyCode::Left, modifiers: m }, timer, has_integrations) == UiAction::MoveLeft,
        spec_key_action(AppMode::Browse, KeyEvent { code: KeyCode::Char('l'), modifiers: m }, timer, has_integrations) == UiAction::MoveRight,
        spec_key_action(AppMode::Browse, KeyEvent { code: KeyCode::Right, modifiers: m }, timer, has_integrations) == UiAction::MoveRight,
        has_integrations ==> spec_key_action(AppMode::Browse, KeyEvent { code: KeyCode::Char('T'), modifiers: m }, timer, has_integrations) == UiAction::OpenTicket,
        has_integrations ==> spec_key_action(AppMode::Browse, KeyEvent { code: KeyCode::Char('L'), modifiers: m }, timer, has_integrations) == UiAction::OpenWorklog,
        !has_integrations ==> spec_key_action(AppMode::Browse, KeyEvent { code: KeyCode::Char('T'), modifiers: m }, timer, has_integrations) == UiAction::Nothing,
{
}

/// `S` starts a timer when none is running or paused and stops it otherwise; `P` pauses a
/// running timer, resumes a paused one, and does nothing without one.
pub proof fn law_browse_timer_keys(m: u8, has_integrations: bool)
    ensures
        spec_key_action(AppMode::Browse, KeyEvent { code: KeyCode::Char('S'), modifiers: m }, None, has_integrations) == UiAction::StartTimer,
        spec_key_action(AppMode::Browse, KeyEvent { code: KeyCode::Char('S'), modifiers: m }, Some(TimerStatus::Stopped), has_integrations) == UiAction::StartTimer,
        spec_key_action(AppMode::Browse, KeyEvent { code: KeyCode::Char('S'), modifiers: m }, Some(TimerStatus::Running), has_integrations) == UiAction::StopTimer,
        spec_key_action(AppMode::Browse, KeyEvent { code: KeyCode::Char('S'), modifiers: m }, Some(TimerStatus::Paused), has_integrations) == UiAction::StopTimer,
        spec_key_action(AppMode::Browse, KeyEvent { code: KeyCode::Char('P'), modifiers: m }, Some(TimerStatus::Running), has_integrations) == UiAction::PauseTimer,
        spec_key_action(AppMode::Browse, KeyEvent { code: KeyCode::Char('P'), modifiers: m }, Some(TimerStatus::Paused), has_integrations) == UiAction::ResumeTimer,
        spec_key_action(AppMode::Browse, KeyEvent { code: KeyCode::Char('P'), modifiers: m }, None, has_integrations) == UiAction::Nothing,
        spec_key_action(AppMode::Browse, KeyEvent { code: KeyCode::Char('P'), modifiers: m }, Some(TimerStatus::Stopped), has_integrations) == UiAction::Nothing,
{
}

/// The other modes' keys as the README lists them: in edit mode Tab moves to the next field,
/// Enter saves, Esc cancels and Backspace deletes; in visual mode `k`/`j` or the arrows extend
/// the selection, `d` deletes it and Esc leaves; in the calendar `h`/`j`/`k`/`l` or the arrows
/// move, `[`/`<`/`,` and `]`/`>`/`.` change the month, Enter jumps and Esc closes; in the task
/// picker and the palette the arrows move, Enter picks, Backspace deletes and Esc closes.
pub proof fn law_mode_keys_as_documented(m: u8, timer: Option<TimerStatus>, i: bool)
    ensures
        spec_key_action(AppMode::Edit, KeyEvent { code: KeyCode::Tab, modifiers: m }, timer, i) == UiAction::NextField,
        spec_key_action(AppMode::Edit, KeyEvent { code: KeyCode::Enter, modifiers: m }, timer, i) == UiAction::SaveEdit,
        spec_key_action(AppMode::Edit, KeyEvent { code: KeyCode::Esc, modifiers: m }, timer, i) == UiAction::ExitEditMode,
        spec_key_action(AppMode::Edit, KeyEvent { code: KeyCode::Backspace, modifiers: m }, timer, i) == UiAction::EditBackspace,
        spec_key_action(AppMode::Visual, KeyEvent { code: KeyCode::Char('k'), modifiers: m }, timer, i) == UiAction::MoveUp,
        spec_key_action(AppMode::Visual, KeyEvent { code: KeyCode::Up, modifiers: m }, timer, i) == UiAction::MoveUp,
        spec_key_action(AppMode::Visual, KeyEvent { code: KeyCode::Char('j'), modifiers: m }, timer, i) == UiAction::MoveDown,
        spec_key_action(AppMode::Visual, KeyEvent { code: KeyCode::Down, modifiers: m }, timer, i) == UiAction::MoveDown,
        spec_key_action(AppMode::Visual, KeyEvent { code: KeyCode::Char('d'), modifiers: m }, timer, i) == UiAction::DeleteVisualSelection,
        spec_key_action(AppMode::Visual, KeyEvent { code: KeyCode::Esc, modifiers: m }, timer, i) == UiAction::ExitVisualMode,
        spec_key_action(AppMode::Calendar, KeyEvent { code: KeyCode::Char('h'), modifiers: m }, timer, i) == UiAction::CalendarLeft,
        spec_key_action(AppMode::Calendar, KeyEvent { code: KeyCode::Left, modifiers: m }, timer, i) == UiAction::CalendarLeft,
        spec_key_action(AppMode::Calendar, KeyEvent { code: KeyCode::Char('l'), modifiers: m }, timer, i) == UiAction::CalendarRight,
        spec_key_action(AppMode::Calendar, KeyEvent { code: KeyCode::Right, modifiers: m }, timer, i) == UiAction::CalendarRight,
        spec_key_action(AppMode::Calendar, KeyEvent { code: KeyCode::Char('k'), modifiers: m }, timer, i) == UiAction::CalendarUp,
        spec_key_action(AppMode::Calendar, KeyEvent { code: KeyCode::Up, modifiers: m }, timer, i) == UiAction::CalendarUp,
        m != MOD_CONTROL ==> spec_key_action(AppMode::Calendar, KeyEvent { code: KeyCode::Char('j'), modifiers: m }, timer, i) == UiAction::CalendarDown,
        spec_key_action(AppMode::Calendar, KeyEvent { code: KeyCode::Down, modifiers: m }, timer, i) == UiAction::CalendarDown,
        spec_key_action(AppMode::Calendar, KeyEvent { code: KeyCode::Char('['), modifiers: m }, timer, i) == UiAction::CalendarPreviousMonth,
        spec_key_action(AppMode::Calendar, KeyEvent { code: KeyCode::Char('<'), modifiers: m }, timer, i) == UiAction::CalendarPreviousMonth,
        spec_key_action(AppMode::Calendar, KeyEvent { code: KeyCode::Char(','), modifiers: m }, timer, i) == UiAction::CalendarPreviousMonth,
        spec_key_action(AppMode::Calendar, KeyEvent { code: KeyCode::Char(']'), modifiers: m }, timer, i) == UiAction::CalendarNextMonth,
        spec_key_action(AppMode::Calendar, KeyEvent { code: KeyCode::Char('>'), modifiers: m }, timer, i) == UiAction::CalendarNextMonth,
        spec_key_action(AppMode::Calendar, KeyEvent { code: KeyCode::Char('.'), modifiers: m }, timer, i) == UiAction::CalendarNextMonth,
        spec_key_action(AppMode::Calendar, KeyEvent { code: KeyCode::Enter, modifiers: m }, timer, i) == UiAction::SelectCalendarDate,
        spec_key_action(AppMode::Calendar, KeyEvent { code: KeyCode::Esc, modifiers: m }, timer, i) == UiAction::CloseCalendar,
        spec_key_action(AppMode::TaskPicker, KeyEvent { code: KeyCode::Up, modifiers: m }, timer, i) == UiAction::TaskPickerUp,
        spec_key_action(AppMode::TaskPicker, KeyEvent { code: KeyCode::Down, modifiers: m }, timer, i) == UiAction::TaskPickerDown,
        spec_key_action(AppMode::TaskPicker, KeyEvent { code: KeyCode::Enter, modifiers: m }, timer, i) == UiAction::SelectTask,
        spec_key_action(AppMode::TaskPicker, KeyEvent { code: KeyCode::Backspace, modifiers: m }, timer, i) == UiAction::TaskPickerBackspace,
        spec_key_action(AppMode::TaskPicker, KeyEvent { code: KeyCode::Esc, modifiers: m }, timer, i) == UiAction::CloseTaskPicker,
        spec_key_action(AppMode::CommandPalette, KeyEvent { code: KeyCode::Up, modifiers: m }, timer, i) == UiAction::PaletteUp,
        spec_key_action(AppMode::CommandPalette, KeyEvent { code: KeyCode::Down, modifiers: m }, timer, i) == UiAction::PaletteDown,
        spec_key_action(AppMode::CommandPalette, KeyEvent { code: KeyCode::Enter, modifiers: m }, timer, i) == UiAction::ExecutePaletteCommand,
        spec_key_action(AppMode::CommandPalette, KeyEvent { code: KeyCode::Backspace, modifiers: m }, timer, i) == UiAction::PaletteBackspace,
        spec_key_action(AppMode::CommandPalette, KeyEvent { code: KeyCode::Esc, modifiers: m }, timer, i) == UiAction::ClosePalette,
{
}

/// Each palette command asks for its own operation: `Undo` undoes and `Redo` redoes, `New`
/// adds a record, `Break` a break, `Delete` deletes, `SetNow` sets the time, `Save` saves,
/// the moves move, `StartTimer` starts, and `PauseTimer` pauses a running timer and resumes
/// a paused one; exactly the commands that change the day save it.
pub proof fn law_palette_commands_as_named(timer: Option<TimerStatus>)
    ensures
        spec_command_action(CommandAction::Undo, timer) == UiAction::Undo,
        spec_command_action(CommandAction::Redo, timer) == UiAction::Redo,
        spec_command_action(CommandAction::New, timer) == UiAction::AddRecord,
        spec_command_action(CommandAction::Break, timer) == UiAction::AddBreak,
        spec_command_action(CommandAction::Delete, timer) == UiAction::DeleteRecord,
        spec_command_action(CommandAction::SetNow, timer) == UiAction::SetCurrentTime,
        spec_command_action(CommandAction::Save, timer) == UiAction::Save,
        spec_command_action(CommandAction::MoveUp, timer) == UiAction::MoveUp,
        spec_command_action(CommandAction::MoveDown, timer) == UiAction::MoveDown,
        spec_command_action(CommandAction::MoveLeft, timer) == UiAction::MoveLeft,
        spec_command_action(CommandAction::MoveRight, timer) == UiAction::MoveRight,
        spec_command_action(CommandAction::Edit, timer) == UiAction::EnterEditMode,
        spec_command_action(CommandAction::Change, timer) == UiAction::ChangeTaskName,
        spec_command_action(CommandAction::Visual, timer) == UiAction::EnterVisualMode,
        spec_command_action(CommandAction::StartTimer, timer) == UiAction::StartTimer,
        spec_command_action(CommandAction::Quit, timer) == UiAction::Quit,
        spec_command_action(CommandAction::PauseTimer, Some(TimerStatus::Running)) == UiAction::PauseTimer,
        spec_command_action(CommandAction::PauseTimer, Some(TimerStatus::Paused)) == UiAction::ResumeTimer,
        spec_command_action(CommandAction::PauseTimer, None) == UiAction::Nothing,
        spec_saves_day(UiAction::AddRecord) && spec_saves_day(UiAction::AddBreak) && spec_saves_day(UiAction::DeleteRecord)
            && spec_saves_day(UiAction::SetCurrentTime) && spec_saves_day(UiAction::Undo) && spec_saves_day(UiAction::Redo)
            && spec_saves_day(UiAction::Save) && spec_saves_day(UiAction::SaveEdit)
            && spec_saves_day(UiAction::DeleteVisualSelection) && spec_saves_day(UiAction::SelectTask),
        !spec_saves_day(UiAction::MoveUp) && !spec_saves_day(UiAction::MoveDown) && !spec_saves_day(UiAction::Quit)
            && !spec_saves_day(UiAction::EnterEditMode) && !spec_saves_day(UiAction::StartTimer)
            && !spec_saves_day(UiAction::ChangeTaskName) && !spec_saves_day(UiAction::EnterVisualMode),
{
}

/// A failed timer call run from the palette names the call that failed; from a key press
/// the error is shown as it is; an action that calls no timer shows no error.
pub proof fn law_timer_errors_name_the_call(e: Seq<char>, action: UiAction)
    ensures
        spec_error_message(ActionSource::Palette, UiAction::StartTimer, Some(e)) == Some("Failed to start timer: "@ + e),
        spec_error_message(ActionSource::Palette, UiAction::PauseTimer, Some(e)) == Some("Failed to pause timer: "@ + e),
        spec_error_message(ActionSource::Palette, UiAction::ResumeTimer, Some(e)) == Some("Failed to resume timer: "@ + e),
        spec_error_message(ActionSource::Key, UiAction::StartTimer, Some(e)) == Some(e),
        spec_error_message(ActionSource::Key, UiAction::StopTimer, Some(e)) == Some(e),
        spec_error_message(ActionSource::Key, UiAction::PauseTimer, Some(e)) == Some(e),
        spec_error_message(ActionSource::Key, UiAction::ResumeTimer, Some(e)) == Some(e),
        spec_error_message(ActionSource::Key, action, None) is None,
        spec_error_message(ActionSource::Palette, action, None) is None,
        !is_timer_action(action) ==> spec_error_message(ActionSource::Key, action, Some(e)) is None,
{
}

} // verus!
