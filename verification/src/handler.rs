//! Key presses and what they do to the application.

use vstd::prelude::*;
use crate::app::App;
use crate::cursor::Cursor;
use crate::focus::FocusedPane;
use crate::focus::pane_count;

verus! {

/// The key that was pressed, as far as the application tells keys apart.
#[derive(Clone, Copy, Debug)]
pub enum KeyCode {
    Char(char),
    Esc,
    Tab,
    Other,
}

/// The modifier keys held down, one bit each.
#[derive(Clone, Copy, Debug, PartialEq, Eq, Structural)]
pub struct KeyModifiers {
    pub bits: u8,
}

/// Bit of the shift key.
pub const SHIFT: u8 = 1;

/// Bit of the control key.
pub const CONTROL: u8 = 2;

/// A key press.
#[derive(Clone, Copy, Debug)]
pub struct KeyEvent {
    pub code: KeyCode,
    pub modifiers: KeyModifiers,
}

/// Rows moved by a key press with the control key held down.
pub const LONG_STEP: isize = 10;

/// What a key press asks for. No key is bound to `CycleSort`; it is there
/// for callers that map keys of their own.
#[derive(Clone, Copy, Debug, PartialEq, Eq, Structural)]
pub enum Command {
    Quit,
    FocusNext,
    FocusPrevious,
    EnterChild,
    LeaveToParent,
    MoveChild(isize),
    MoveValue(isize),
    CycleSort,
    Nothing,
}

/// What the caller has to read from the tree to complete a key press.
#[derive(Clone, Copy, Debug, PartialEq, Eq, Structural)]
pub enum Request {
    /// Nothing: the key press is done.
    Nothing,
    /// The children of the selected child, to enter it with.
    SubkeysOfSelected,
    /// The parent of the current node and the parent's children, to go up.
    Parent,
}

/// Only the control key is held down.
pub open spec fn control_only(key: KeyEvent) -> bool {
    key.modifiers.bits == CONTROL
}

/// The step of a move key: the long one with the control key, else one
/// row.
pub open spec fn step_of(key: KeyEvent) -> isize {
    if control_only(key) {
        LONG_STEP
    } else {
        1
    }
}

/// What a key press asks of the list of children.
pub open spec fn key_selector_command(key: KeyEvent) -> Command {
    match key.code {
        KeyCode::Char(c) => if c == 'l' {
            Command::EnterChild
        } else if c == 'h' {
            Command::LeaveToParent
        } else if c == 'j' {
            Command::MoveChild(step_of(key))
        } else if c == 'k' {
            Command::MoveChild((-step_of(key)) as isize)
        } else {
            Command::Nothing
        },
        _ => Command::Nothing,
    }
}

/// What a key press asks of the list of values.
pub open spec fn value_selector_command(key: KeyEvent) -> Command {
    match key.code {
        KeyCode::Char(c) => if c == 'j' {
            Command::MoveValue(step_of(key))
        } else if c == 'k' {
            Command::MoveValue((-step_of(key)) as isize)
        } else {
            Command::Nothing
        },
        _ => Command::Nothing,
    }
}

/// What a key press asks for while `pane` has the focus. The keys that
/// quit and that move the focus work in every pane.
pub open spec fn command_for(key: KeyEvent, pane: FocusedPane) -> Command {
    match key.code {
        KeyCode::Esc => Command::Quit,
        KeyCode::Tab => if key.modifiers.bits == SHIFT {
            Command::FocusPrevious
        } else {
            Command::FocusNext
        },
        KeyCode::Char(c) => if c == 'q' {
            Command::Quit
        } else if c == 'c' || c == 'C' {
            if control_only(key) {
                Command::Quit
            } else {
                Command::Nothing
            }
        } else {
            match pane {
                FocusedPane::KeySelector => key_selector_command(key),
                FocusedPane::ValueSelector => value_selector_command(key),
                FocusedPane::ValueInspector => Command::Nothing,
            }
        },
        KeyCode::Other => Command::Nothing,
    }
}

/// Whether the application still runs after the command.
pub open spec fn runs_after(running: bool, command: Command) -> bool {
    running && !(command is Quit)
}

/// The pane that has the focus after the command.
pub open spec fn pane_after(pane: FocusedPane, command: Command) -> FocusedPane {
    match command {
        Command::FocusNext => FocusedPane::at(pane.ordinal() + 1),
        Command::FocusPrevious => FocusedPane::at(pane.ordinal() + pane_count() - 1),
        _ => pane,
    }
}

/// The navigation state after the command. Entering and leaving need the
/// tree and are left to the caller.
pub open spec fn cursor_after(cursor: Cursor, command: Command) -> Cursor {
    match command {
        Command::MoveChild(delta) => cursor.move_child_by(delta as int),
        Command::MoveValue(delta) => cursor.move_value_by(delta as int),
        Command::CycleSort => cursor.cycle_sort(),
        _ => cursor,
    }
}

/// What the caller has to read from the tree after the command.
pub open spec fn request_after(cursor: Cursor, command: Command) -> Request {
    match command {
        Command::EnterChild => if cursor.selected_child() is Some {
            Request::SubkeysOfSelected
        } else {
            Request::Nothing
        },
        Command::LeaveToParent => Request::Parent,
        _ => Request::Nothing,
    }
}

impl KeyEvent {
    /// Whether only the control key is held down.
    pub fn is_control(&self) -> (b: bool)
        ensures
            b == control_only(*self),
    {
        self.modifiers.bits == CONTROL
    }

    /// The number of rows that a move key moves by.
    pub fn step(&self) -> (rows: isize)
        ensures
            rows == step_of(*self),
    {
        if self.is_control() {
            LONG_STEP
        } else {
            1
        }
    }
}

/// Carries out a command on the application and says what is left for the
/// caller to read from the tree.
pub fn run_command(command: Command, app: &mut App) -> (request: Request)
    requires
        old(app).state.navigation.wf(),
    ensures
        final(app).state.navigation.wf(),
        final(app).running == runs_after(old(app).running, command),
        final(app).state.focused_pane == pane_after(old(app).state.focused_pane, command),
        final(app).state.navigation@ == cursor_after(old(app).state.navigation@, command),
        request == request_after(old(app).state.navigation@, command),
{
    match command {
        Command::Quit => {
            app.quit();
            Request::Nothing
        },
        Command::FocusNext => {
            app.state.focus_next_tab();
            Request::Nothing
        },
        Command::FocusPrevious => {
            app.state.focus_previous_tab();
            Request::Nothing
        },
        Command::EnterChild => {
            if app.state.navigation.selected_subkey().is_some() {
                Request::SubkeysOfSelected
            } else {
                Request::Nothing
            }
        },
        Command::LeaveToParent => Request::Parent,
        Command::MoveChild(delta) => {
            app.state.navigation.change_subkey_by(delta);
            Request::Nothing
        },
        Command::MoveValue(delta) => {
            app.state.navigation.change_value_by(delta);
            Request::Nothing
        },
        Command::CycleSort => {
            app.state.navigation.change_subkey_sort();
            Request::Nothing
        },
        Command::Nothing => Request::Nothing,
    }
}

/// The command of a key press while the list of children has the focus.
pub fn decode_key_selector(key_event: KeyEvent) -> (command: Command)
    ensures
        command == key_selector_command(key_event),
{
    match key_event.code {
        KeyCode::Char(c) => {
            if c == 'l' {
                Command::EnterChild
            } else if c == 'h' {
                Command::LeaveToParent
            } else if c == 'j' {
                Command::MoveChild(key_event.step())
            } else if c == 'k' {
                Command::MoveChild(-key_event.step())
            } else {
                Command::Nothing
            }
        },
        _ => Command::Nothing,
    }
}

/// The command of a key press while the list of values has the focus.
pub fn decode_value_selector(key_event: KeyEvent) -> (command: Command)
    ensures
        command == value_selector_command(key_event),
{
    match key_event.code {
        KeyCode::Char(c) => {
            if c == 'j' {
                Command::MoveValue(key_event.step())
            } else if c == 'k' {
                Command::MoveValue(-key_event.step())
            } else {
                Command::Nothing
            }
        },
        _ => Command::Nothing,
    }
}

/// The command of a key press while `pane` has the focus.
pub fn decode(key_event: KeyEvent, pane: FocusedPane) -> (command: Command)
    ensures
        command == command_for(key_event, pane),
{
    match key_event.code {
        KeyCode::Esc => Command::Quit,
        KeyCode::Tab => {
            if key_event.modifiers.bits == SHIFT {
                Command::FocusPrevious
            } else {
                Command::FocusNext
            }
        },
        KeyCode::Char(c) => {
            if c == 'q' {
                Command::Quit
            } else if c == 'c' || c == 'C' {
                if key_event.is_control() {
                    Command::Quit
                } else {
                    Command::Nothing
                }
            } else {
                match pane {
                    FocusedPane::KeySelector => decode_key_selector(key_event),
                    FocusedPane::ValueSelector => decode_value_selector(key_event),
                    FocusedPane::ValueInspector => Command::Nothing,
                }
            }
        },
        KeyCode::Other => Command::Nothing,
    }
}

/// Handles a key press: quits, moves the focus, or hands the key to the
/// pane that has the focus. The result says what the caller has to read
/// from the tree to complete it.
pub fn handle_key_events(key_event: KeyEvent, app: &mut App) -> (request: Request)
    requires
        old(app).state.navigation.wf(),
    ensures
        final(app).state.navigation.wf(),
        final(app).running == runs_after(
            old(app).running,
            command_for(key_event, old(app).state.focused_pane),
        ),
        final(app).state.focused_pane == pane_after(
            old(app).state.focused_pane,
            command_for(key_event, old(app).state.focused_pane),
        ),
        final(app).state.navigation@ == cursor_after(
            old(app).state.navigation@,
            command_for(key_event, old(app).state.focused_pane),
        ),
        request == request_after(
            old(app).state.navigation@,
            command_for(key_event, old(app).state.focused_pane),
        ),
{
    let command = decode(key_event, app.state.focused_pane);
    run_command(command, app)
}

/// Handles a key press for the list of children.
pub fn handle_key_selector_key_events(key_event: KeyEvent, app: &mut App) -> (request: Request)
    requires
        old(app).state.navigation.wf(),
    ensures
        final(app).state.navigation.wf(),
        final(app).running == old(app).running,
        final(app).state.focused_pane == old(app).state.focused_pane,
        final(app).state.navigation@ == cursor_after(
            old(app).state.navigation@,
            key_selector_command(key_event),
        ),
        request == request_after(old(app).state.navigation@, key_selector_command(key_event)),
{
    let command = decode_key_selector(key_event);
    run_command(command, app)
}

/// Handles a key press for the list of values.
pub fn handle_value_selector_key_events(key_event: KeyEvent, app: &mut App) -> (request: Request)
    requires
        old(app).state.navigation.wf(),
    ensures
        final(app).state.navigation.wf(),
        final(app).running == old(app).running,
        final(app).state.focused_pane == old(app).state.focused_pane,
        final(app).state.navigation@ == cursor_after(
            old(app).state.navigation@,
            value_selector_command(key_event),
        ),
        request == Request::Nothing,
{
    let command = decode_value_selector(key_event);
    run_command(command, app)
}

/// Handles a key press for the value inspector, which takes no keys.
pub fn handle_value_inspector_key_events(_key_event: KeyEvent, _app: &mut App) -> (request: Request)
    ensures
        *final(_app) == *old(_app),
        request == Request::Nothing,
{
    Request::Nothing
}

} // verus!
