//! A library for composing and editing guitar strumming patterns: fixed-length
//! sequences of strokes that can be randomly generated, edited cell by cell
//! through a cursor state machine, and persisted as a structured text document.
//! A navigation controller drives a stack of interactive screens.

mod app;
mod app_state;
mod cursor;
mod main_screen;
mod pattern;
mod persist;
mod ruler;
mod screen;

pub use app::App;
pub use app::lemma_stack_discipline;
pub use app_state::AppState;
pub use cursor::Cursor;
pub use cursor::iter_right;
pub use cursor::lemma_cursor_wraparound;
pub use main_screen::MainScreen;
pub use main_screen::assigned;
pub use main_screen::main_step;
pub use pattern::Stroke;
pub use pattern::StrummingPattern;
pub use pattern::render_spec;
pub use persist::ParseError;
pub use persist::encode_spec;
pub use persist::lemma_round_trip;
pub use persist::parse_spec;
pub use ruler::beat_label;
pub use ruler::beat_label_spec;
pub use ruler::dec_rep;
pub use screen::EventOutcome;
pub use screen::InputEvent;
pub use screen::IoRequest;
pub use screen::Key;
pub use screen::Screen;
pub use screen::ScreenCommand;
