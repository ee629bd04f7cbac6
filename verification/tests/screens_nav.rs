use strummy::{
    App, AppState, Cursor, InputEvent, IoRequest, Key, MainScreen, Screen, ScreenCommand, Stroke,
    StrummingPattern,
};

fn press(key: Key) -> InputEvent {
    InputEvent { key, ctrl: false, is_release: false }
}

fn ctrl_press(key: Key) -> InputEvent {
    InputEvent { key, ctrl: true, is_release: false }
}

fn state_of(strokes: Vec<Stroke>) -> AppState {
    AppState { strumming_pattern: StrummingPattern { strokes } }
}

#[test]
fn enter_starts_editing_at_slot_zero() {
    let mut screen = MainScreen::new();
    let mut state = state_of(vec![Stroke::Down; 4]);
    screen.handle_event(press(Key::Enter), &mut state);
    assert_eq!(screen.current_stroke, Cursor::Active(0));
}

#[test]
fn cursor_wraps_right_and_left() {
    let mut screen = MainScreen::new();
    let mut state = state_of(vec![Stroke::Down; 4]);
    screen.handle_event(press(Key::Enter), &mut state);
    for _ in 0..4 {
        screen.handle_event(press(Key::Right), &mut state);
    }
    assert_eq!(screen.current_stroke, Cursor::Active(0));
    screen.handle_event(press(Key::Left), &mut state);
    assert_eq!(screen.current_stroke, Cursor::Active(3));
}

#[test]
fn escape_always_deactivates() {
    let mut screen = MainScreen::new();
    let mut state = state_of(vec![Stroke::Down; 4]);
    screen.handle_event(press(Key::Esc), &mut state);
    assert_eq!(screen.current_stroke, Cursor::Inactive);
    screen.handle_event(press(Key::Enter), &mut state);
    screen.handle_event(press(Key::Right), &mut state);
    screen.handle_event(press(Key::Right), &mut state);
    screen.handle_event(press(Key::Esc), &mut state);
    assert_eq!(screen.current_stroke, Cursor::Inactive);
}

#[test]
fn edit_scenario_renders_expected_shorthand() {
    let mut screen = MainScreen::new();
    let mut state = state_of(vec![Stroke::Down, Stroke::Up, Stroke::Mute, Stroke::Miss]);
    screen.handle_event(press(Key::Enter), &mut state);
    assert_eq!(screen.current_stroke, Cursor::Active(0));
    screen.handle_event(press(Key::Right), &mut state);
    screen.handle_event(press(Key::Right), &mut state);
    assert_eq!(screen.current_stroke, Cursor::Active(2));
    screen.handle_event(press(Key::Up), &mut state);
    assert_eq!(screen.current_stroke, Cursor::Active(2));
    assert_eq!(state.strumming_pattern.render_shorthand(), "D U U -");
}

#[test]
fn entering_edit_mode_on_empty_pattern_is_refused() {
    let mut screen = MainScreen::new();
    let mut state = state_of(vec![]);
    screen.handle_event(press(Key::Enter), &mut state);
    assert_eq!(screen.current_stroke, Cursor::Inactive);
    screen.handle_event(press(Key::Right), &mut state);
    screen.handle_event(press(Key::Left), &mut state);
    screen.handle_event(press(Key::Up), &mut state);
    assert_eq!(screen.current_stroke, Cursor::Inactive);
    assert_eq!(state.strumming_pattern.len(), 0);
}

#[test]
fn assignment_keys_write_each_stroke() {
    let mut screen = MainScreen::new();
    let mut state = state_of(vec![Stroke::Down; 4]);
    screen.handle_event(press(Key::Enter), &mut state);
    screen.handle_event(press(Key::Up), &mut state);
    screen.handle_event(press(Key::Right), &mut state);
    screen.handle_event(press(Key::Char('x')), &mut state);
    screen.handle_event(press(Key::Right), &mut state);
    screen.handle_event(press(Key::Char('m')), &mut state);
    assert_eq!(
        state.strumming_pattern.strokes,
        vec![Stroke::Up, Stroke::Mute, Stroke::Miss, Stroke::Down]
    );
}

#[test]
fn quit_key_issues_quit_command() {
    let mut screen = MainScreen::new();
    let mut state = state_of(vec![Stroke::Down; 4]);
    let outcome = screen.handle_event(press(Key::Char('q')), &mut state);
    assert!(matches!(outcome.command, Some(ScreenCommand::Quit(true))));
    assert!(outcome.io.is_none());
}

#[test]
fn regeneration_preserves_length_and_resets_cursor() {
    let mut screen = MainScreen::new();
    let mut state = state_of(vec![Stroke::Down; 6]);
    screen.handle_event(press(Key::Enter), &mut state);
    screen.handle_event(press(Key::Right), &mut state);
    let outcome = screen.handle_event(press(Key::Char('n')), &mut state);
    assert!(outcome.command.is_none());
    assert!(outcome.io.is_none());
    assert_eq!(state.strumming_pattern.len(), 6);
    assert_eq!(screen.current_stroke, Cursor::Inactive);
}

#[test]
fn control_keys_request_persistence() {
    let mut screen = MainScreen::new();
    let mut state = state_of(vec![Stroke::Down; 4]);
    let save = screen.handle_event(ctrl_press(Key::Char('s')), &mut state);
    assert!(matches!(save.io, Some(IoRequest::Save)));
    assert!(save.command.is_none());
    let load = screen.handle_event(ctrl_press(Key::Char('o')), &mut state);
    assert!(matches!(load.io, Some(IoRequest::Load)));
    assert!(load.command.is_none());
    let plain = screen.handle_event(press(Key::Char('s')), &mut state);
    assert!(plain.io.is_none());
    assert!(plain.command.is_none());
}

#[test]
fn releases_are_ignored() {
    let mut app = App::new();
    let release = InputEvent { key: Key::Enter, ctrl: false, is_release: true };
    let (exit, io) = app.handle_input(release);
    assert!(!exit);
    assert!(io.is_none());
    let Screen::Main(top) = app.screens.last().unwrap();
    assert_eq!(top.current_stroke, Cursor::Inactive);
}

#[test]
fn quit_ends_the_loop() {
    let mut app = App::new();
    let (exit, io) = app.handle_input(press(Key::Char('q')));
    assert!(exit);
    assert!(io.is_none());
    assert_eq!(app.screens.len(), 1);
}

#[test]
fn push_then_close_restores_prior_top() {
    let mut app = App::new();
    let pushed = Screen::Main(MainScreen { current_stroke: Cursor::Active(1) });
    let exit = app.apply_command(ScreenCommand::Push(pushed));
    assert!(!exit);
    assert_eq!(app.screens.len(), 2);
    let Screen::Main(top) = app.screens.last().unwrap();
    assert_eq!(top.current_stroke, Cursor::Active(1));
    let exit = app.apply_command(ScreenCommand::Close);
    assert!(!exit);
    assert_eq!(app.screens.len(), 1);
    let Screen::Main(top) = app.screens.last().unwrap();
    assert_eq!(top.current_stroke, Cursor::Inactive);
}

#[test]
fn swap_preserves_depth_and_changes_top() {
    let mut app = App::new();
    let swapped = Screen::Main(MainScreen { current_stroke: Cursor::Active(3) });
    let exit = app.apply_command(ScreenCommand::Swap(swapped));
    assert!(!exit);
    assert_eq!(app.screens.len(), 1);
    let Screen::Main(top) = app.screens.last().unwrap();
    assert_eq!(top.current_stroke, Cursor::Active(3));
}

#[test]
fn closing_the_last_screen_terminates() {
    let mut app = App::new();
    let exit = app.apply_command(ScreenCommand::Close);
    assert!(exit);
    assert_eq!(app.screens.len(), 0);
}

#[test]
fn installing_a_pattern_resets_every_cursor() {
    let mut app = App::new();
    app.handle_input(press(Key::Enter));
    let second = Screen::Main(MainScreen { current_stroke: Cursor::Active(2) });
    app.apply_command(ScreenCommand::Push(second));
    app.install_pattern(StrummingPattern { strokes: vec![Stroke::Up] });
    assert_eq!(app.state.strumming_pattern.strokes, vec![Stroke::Up]);
    assert_eq!(app.screens.len(), 2);
    for screen in &app.screens {
        let Screen::Main(m) = screen;
        assert_eq!(m.current_stroke, Cursor::Inactive);
    }
}

#[test]
fn fresh_app_state_has_eight_slots() {
    let state = AppState::new();
    assert_eq!(state.strumming_pattern.len(), 8);
    let app = App::new();
    assert_eq!(app.screens.len(), 1);
}
