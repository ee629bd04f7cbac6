use vstd::prelude::*;
use crate::cursor::Cursor;
use crate::main_screen::MainScreen;

verus! {

/// One discrete key, as the editing logic reads it.
#[derive(Clone, Copy, Debug, PartialEq, Eq, Structural)]
pub enum Key {
    Char(char),
    Enter,
    Right,
    Left,
    Esc,
    Up,
    Down,
    Other,
}

/// One discrete input event: a key, whether control was held, and whether
/// the event reports a key release rather than a press.
#[derive(Clone, Copy, Debug, PartialEq, Eq, Structural)]
pub struct InputEvent {
    pub key: Key,
    pub ctrl: bool,
    pub is_release: bool,
}

/// A persistence action a screen asks for: the screen decides, the
/// surrounding process does the file work and hands the result back.
#[derive(Clone, Copy, Debug, PartialEq, Eq, Structural)]
pub enum IoRequest {
    Save,
    Load,
}

/// A self-contained interactive view. The set of views is closed, so a
/// tagged union stands in for dynamic dispatch.
#[derive(Debug)]
pub enum Screen {
    Main(MainScreen),
}

/// The result of handling one input event, directing the controller to
/// close, push, swap, or quit.
#[derive(Debug)]
pub enum ScreenCommand {
    /// The current screen closes; closing the last one ends the loop.
    Close,
    /// A new screen opens on top of the current one.
    Push(Screen),
    /// A new screen replaces the current top of the stack.
    Swap(Screen),
    /// The whole application exits at once; the flag is reserved.
    Quit(bool),
}

/// What handling one event produced: at most one navigation command and at
/// most one persistence request.
#[derive(Debug)]
pub struct EventOutcome {
    pub command: Option<ScreenCommand>,
    pub io: Option<IoRequest>,
}

impl Screen {
    /// The editing cursor this screen holds.
    pub open spec fn cursor(self) -> Cursor {
        match self {
            Screen::Main(m) => m.current_stroke,
        }
    }

    /// The screen's cursor points inside a pattern of the given length.
    pub open spec fn valid(self, len: nat) -> bool {
        self.cursor().valid(len)
    }
}

} // verus!
