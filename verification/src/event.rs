//! The input-event model and the actions a tab hands back to the driver.
use vstd::prelude::*;

verus! {

/// A key, as delivered by the terminal frontend.
#[derive(Clone, Copy, Debug, PartialEq, Eq, Structural)]
pub enum KeyCode {
    Char(char),
    Enter,
    Backspace,
    Tab,
    BackTab,
    Esc,
    Up,
    Down,
    Left,
    Right,
    F(u8),
    Other,
}

/// The modifier keys held during a key event.
#[derive(Clone, Copy, Debug, PartialEq, Eq, Structural)]
pub struct KeyModifiers {
    pub ctrl: bool,
    pub alt: bool,
    pub shift: bool,
}

impl KeyModifiers {
    pub open spec fn spec_empty() -> KeyModifiers {
        KeyModifiers { ctrl: false, alt: false, shift: false }
    }

    /// No modifier held.
    pub fn none() -> (r: KeyModifiers)
        ensures
            r == KeyModifiers::spec_empty(),
    {
        KeyModifiers { ctrl: false, alt: false, shift: false }
    }

    pub open spec fn spec_is_empty(&self) -> bool {
        !self.ctrl && !self.alt && !self.shift
    }

    pub fn is_empty(&self) -> (r: bool)
        ensures
            r == self.spec_is_empty(),
    {
        !self.ctrl && !self.alt && !self.shift
    }
}

/// What a mouse event reports.
#[derive(Clone, Copy, Debug, PartialEq, Eq, Structural)]
pub enum MouseKind {
    LeftDown,
    LeftDrag,
    LeftUp,
    ScrollUp,
    ScrollDown,
    Other,
}

/// A mouse event at a screen coordinate.
#[derive(Clone, Copy, Debug, PartialEq, Eq, Structural)]
pub struct MouseEvent {
    pub kind: MouseKind,
    pub column: u16,
    pub row: u16,
}

/// An input event.
#[derive(Clone, Copy, Debug, PartialEq, Eq, Structural)]
pub enum Event {
    Key(KeyCode, KeyModifiers),
    Mouse(MouseEvent),
    Other,
}

/// Actions that can be emitted by any tab or the main event handler.
#[derive(Clone, Debug)]
pub enum Action {
    /// Quit the application.
    Quit,
    /// Move focus to the next panel.
    NextPanel,
    /// Move focus to the previous panel.
    PrevPanel,
    /// Navigate the listing cursor down.
    Down,
    /// Navigate the listing cursor up.
    Up,
    /// Confirm / connect.
    Confirm,
    /// Open the add-connection form.
    Add,
    /// Open the edit-connection form.
    Edit,
    /// Delete the selected connection.
    Delete,
    /// Start filtering the list.
    Filter,
    /// Send terminal context to the assistant.
    SendContext,
    /// Disconnect from the current session.
    Disconnect,
    /// Toggle the help overlay.
    Help,
    /// A raw input character.
    Input(char),
    /// Backspace in a text field.
    Backspace,
    /// Enter key in a text field.
    Enter,
    /// Escape / cancel.
    Escape,
    /// Stage a suggested command in the terminal.
    SendToTerminal(String),
    /// No-op.
    Noop,
}

/// How a bare input event maps to a listing-level action.
pub open spec fn spec_map_event(event: Event) -> Action {
    match event {
        Event::Key(code, mods) => match code {
            KeyCode::Char('q') => if mods.spec_is_empty() {
                Action::Quit
            } else {
                Action::Input('q')
            },
            KeyCode::Char('c') => if mods.ctrl {
                Action::Quit
            } else if mods.spec_is_empty() {
                Action::SendContext
            } else {
                Action::Input('c')
            },
            KeyCode::Tab => Action::NextPanel,
            KeyCode::BackTab => Action::PrevPanel,
            KeyCode::Char('j') => Action::Down,
            KeyCode::Down => Action::Down,
            KeyCode::Char('k') => Action::Up,
            KeyCode::Up => Action::Up,
            KeyCode::Enter => Action::Enter,
            KeyCode::Char('a') => if mods.spec_is_empty() {
                Action::Add
            } else {
                Action::Input('a')
            },
            KeyCode::Char('e') => if mods.spec_is_empty() {
                Action::Edit
            } else {
                Action::Input('e')
            },
            KeyCode::Char('d') => if mods.spec_is_empty() {
                Action::Delete
            } else {
                Action::Input('d')
            },
            KeyCode::Char('/') => Action::Filter,
            KeyCode::Char('?') => Action::Help,
            KeyCode::Backspace => Action::Backspace,
            KeyCode::Esc => Action::Escape,
            KeyCode::Char(ch) => Action::Input(ch),
            _ => Action::Noop,
        },
        _ => Action::Noop,
    }
}

/// Map a bare input event to a listing-level action.
pub fn map_event(event: &Event) -> (r: Action)
    ensures
        r == spec_map_event(*event),
{
    match *event {
        Event::Key(code, mods) => match code {
            KeyCode::Char('q') => if mods.is_empty() {
                Action::Quit
            } else {
                Action::Input('q')
            },
            KeyCode::Char('c') => if mods.ctrl {
                Action::Quit
            } else if mods.is_empty() {
                Action::SendContext
            } else {
                Action::Input('c')
            },
            KeyCode::Tab => Action::NextPanel,
            KeyCode::BackTab => Action::PrevPanel,
            KeyCode::Char('j') => Action::Down,
            KeyCode::Down => Action::Down,
            KeyCode::Char('k') => Action::Up,
            KeyCode::Up => Action::Up,
            KeyCode::Enter => Action::Enter,
            KeyCode::Char('a') => if mods.is_empty() {
                Action::Add
            } else {
                Action::Input('a')
            },
            KeyCode::Char('e') => if mods.is_empty() {
                Action::Edit
            } else {
                Action::Input('e')
            },
            KeyCode::Char('d') => if mods.is_empty() {
                Action::Delete
            } else {
                Action::Input('d')
            },
            KeyCode::Char('/') => Action::Filter,
            KeyCode::Char('?') => Action::Help,
            KeyCode::Backspace => Action::Backspace,
            KeyCode::Esc => Action::Escape,
            KeyCode::Char(ch) => Action::Input(ch),
            _ => Action::Noop,
        },
        _ => Action::Noop,
    }
}

} // verus!
