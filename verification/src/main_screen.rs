use vstd::prelude::*;
use crate::app_state::AppState;
use crate::cursor::Cursor;
use crate::pattern::{Stroke, StrummingPattern};
use crate::screen::{EventOutcome, InputEvent, IoRequest, Key, ScreenCommand};

verus! {

/// The pattern viewing and editing screen: it owns the editing cursor.
#[derive(Debug)]
pub struct MainScreen {
    pub current_stroke: Cursor,
}

/// The stroke sequence after an assign command: with an active cursor the
/// selected slot is overwritten, with an inactive one nothing changes.
pub open spec fn assigned(c: Cursor, s: Seq<Stroke>, t: Stroke) -> Seq<Stroke> {
    match c {
        Cursor::Inactive => s,
        Cursor::Active(i) => s.update(i as int, t),
    }
}

/// The main screen's reaction to one key, as a relation between the cursor
/// and stroke sequence before and after, whether a quit command was issued,
/// and which persistence request was made. Regeneration draws fresh random
/// strokes, so only the preserved length and the reset cursor are related.
pub open spec fn main_step(
    c0: Cursor,
    s0: Seq<Stroke>,
    ev: InputEvent,
    c1: Cursor,
    s1: Seq<Stroke>,
    quit: bool,
    io: Option<IoRequest>,
) -> bool {
    if ev.key == Key::Char('q') {
        c1 == c0 && s1 == s0 && quit && io is None
    } else if ev.key == Key::Char('n') {
        c1 is Inactive && s1.len() == s0.len() && !quit && io is None
    } else if ev.key == Key::Enter {
        c1 == c0.enter_spec(s0.len()) && s1 == s0 && !quit && io is None
    } else if ev.key == Key::Right {
        c1 == c0.right_spec(s0.len()) && s1 == s0 && !quit && io is None
    } else if ev.key == Key::Left {
        c1 == c0.left_spec(s0.len()) && s1 == s0 && !quit && io is None
    } else if ev.key == Key::Esc {
        c1 is Inactive && s1 == s0 && !quit && io is None
    } else if ev.key == Key::Up {
        c1 == c0 && s1 == assigned(c0, s0, Stroke::Up) && !quit && io is None
    } else if ev.key == Key::Down {
        c1 == c0 && s1 == assigned(c0, s0, Stroke::Down) && !quit && io is None
    } else if ev.key == Key::Char('m') {
        c1 == c0 && s1 == assigned(c0, s0, Stroke::Miss) && !quit && io is None
    } else if ev.key == Key::Char('x') {
        c1 == c0 && s1 == assigned(c0, s0, Stroke::Mute) && !quit && io is None
    } else if ev.key == Key::Char('s') && ev.ctrl {
        c1 == c0 && s1 == s0 && !quit && io == Some(IoRequest::Save)
    } else if ev.key == Key::Char('o') && ev.ctrl {
        c1 == c0 && s1 == s0 && !quit && io == Some(IoRequest::Load)
    } else {
        c1 == c0 && s1 == s0 && !quit && io is None
    }
}

impl MainScreen {
    /// A fresh main screen with no active cursor.
    pub fn new() -> (r: MainScreen)
        ensures
            r.current_stroke is Inactive,
    {
        MainScreen { current_stroke: Cursor::Inactive }
    }

    /// Handle one key against the shared state: it may move the cursor,
    /// edit or regenerate the pattern, request a persistence action, or
    /// issue a quit command. The pattern's length never changes here.
    pub fn handle_event(&mut self, event: InputEvent, state: &mut AppState) -> (r: EventOutcome)
        requires
            old(self).current_stroke.valid(old(state).strumming_pattern@.len()),
        ensures
            main_step(
                old(self).current_stroke,
                old(state).strumming_pattern@,
                event,
                final(self).current_stroke,
                final(state).strumming_pattern@,
                r.command is Some,
                r.io,
            ),
            r.command matches Some(c) ==> c == ScreenCommand::Quit(true),
            final(self).current_stroke.valid(final(state).strumming_pattern@.len()),
            final(state).strumming_pattern@.len() == old(state).strumming_pattern@.len(),
    {
        let len = state.strumming_pattern.len();
        match event.key {
            Key::Char(ch) => {
                if ch == 'q' {
                    EventOutcome { command: Some(ScreenCommand::Quit(true)), io: None }
                } else if ch == 'n' {
                    state.strumming_pattern = StrummingPattern::new_random(len);
                    self.current_stroke = Cursor::Inactive;
                    EventOutcome { command: None, io: None }
                } else if ch == 'm' {
                    self.assign(Stroke::Miss, state);
                    EventOutcome { command: None, io: None }
                } else if ch == 'x' {
                    self.assign(Stroke::Mute, state);
                    EventOutcome { command: None, io: None }
                } else if ch == 's' && event.ctrl {
                    EventOutcome { command: None, io: Some(IoRequest::Save) }
                } else if ch == 'o' && event.ctrl {
                    EventOutcome { command: None, io: Some(IoRequest::Load) }
                } else {
                    EventOutcome { command: None, io: None }
                }
            },
            Key::Enter => {
                self.current_stroke.enter_edit(len);
                EventOutcome { command: None, io: None }
            },
            Key::Right => {
                self.current_stroke.move_right(len);
                EventOutcome { command: None, io: None }
            },
            Key::Left => {
                self.current_stroke.move_left(len);
                EventOutcome { command: None, io: None }
            },
            Key::Esc => {
                self.current_stroke.escape();
                EventOutcome { command: None, io: None }
            },
            Key::Up => {
                self.assign(Stroke::Up, state);
                EventOutcome { command: None, io: None }
            },
            Key::Down => {
                self.assign(Stroke::Down, state);
                EventOutcome { command: None, io: None }
            },
            Key::Other => EventOutcome { command: None, io: None },
        }
    }

    /// Overwrite the slot under the cursor, if one is selected.
    fn assign(&mut self, stroke: Stroke, state: &mut AppState)
        requires
            old(self).current_stroke.valid(old(state).strumming_pattern@.len()),
        ensures
            *final(self) == *old(self),
            final(state).strumming_pattern@ == assigned(
                old(self).current_stroke,
                old(state).strumming_pattern@,
                stroke,
            ),
    {
        match self.current_stroke {
            Cursor::Inactive => {},
            Cursor::Active(i) => {
                state.strumming_pattern.set_stroke(i, stroke);
            },
        }
    }
}

} // verus!
