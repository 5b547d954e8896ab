use lumen::states::{mouse_look_active, regrab_on_click, release_on_escape, CursorGrab, GameState};

#[test]
fn boot_advances_to_the_title_screen() {
    assert_eq!(GameState::default(), GameState::Boot);
    assert_eq!(GameState::Boot.boot_step(), Some(GameState::MainMenu));
    assert_eq!(GameState::Playing.boot_step(), None);
    assert_eq!(GameState::MainMenu.boot_step(), None);
}

#[test]
fn escape_toggles_playing_and_paused() {
    assert_eq!(GameState::Playing.toggle_pause(true), Some(GameState::Paused));
    assert_eq!(GameState::Paused.toggle_pause(true), Some(GameState::Playing));
    let twice = GameState::Playing.toggle_pause(true).unwrap().toggle_pause(true);
    assert_eq!(twice, Some(GameState::Playing));
}

#[test]
fn no_escape_no_transition() {
    assert_eq!(GameState::Playing.toggle_pause(false), None);
    assert_eq!(GameState::Paused.toggle_pause(false), None);
}

#[test]
fn escape_is_ignored_outside_play_and_pause() {
    assert_eq!(GameState::Boot.toggle_pause(true), None);
    assert_eq!(GameState::MainMenu.toggle_pause(true), None);
}

#[test]
fn only_playing_simulates() {
    assert!(GameState::Playing.simulates());
    assert!(!GameState::Paused.simulates());
    assert!(!GameState::MainMenu.simulates());
    assert!(!GameState::Boot.simulates());
}

#[test]
fn cursor_locks_in_play_and_frees_in_menus() {
    assert_eq!(GameState::Playing.cursor_on_enter(), Some(CursorGrab::Locked));
    assert_eq!(GameState::Paused.cursor_on_enter(), Some(CursorGrab::Free));
    assert_eq!(GameState::MainMenu.cursor_on_enter(), Some(CursorGrab::Free));
    assert_eq!(GameState::Boot.cursor_on_enter(), None);
}

#[test]
fn click_regrabs_a_free_cursor() {
    assert_eq!(regrab_on_click(CursorGrab::Free, true), CursorGrab::Locked);
    assert_eq!(regrab_on_click(CursorGrab::Free, false), CursorGrab::Free);
    assert_eq!(regrab_on_click(CursorGrab::Locked, true), CursorGrab::Locked);
}

#[test]
fn escape_focus_loss_or_exit_frees_the_cursor() {
    assert_eq!(release_on_escape(CursorGrab::Locked, true, false, false), CursorGrab::Free);
    assert_eq!(release_on_escape(CursorGrab::Locked, false, true, false), CursorGrab::Free);
    assert_eq!(release_on_escape(CursorGrab::Locked, false, false, true), CursorGrab::Free);
    assert_eq!(release_on_escape(CursorGrab::Locked, false, false, false), CursorGrab::Locked);
}

#[test]
fn mouse_look_needs_capture_and_focus() {
    assert!(mouse_look_active(CursorGrab::Locked, true));
    assert!(!mouse_look_active(CursorGrab::Locked, false));
    assert!(!mouse_look_active(CursorGrab::Free, true));
    // Escape stops mouse-look on the same frame, even with a click.
    let after = release_on_escape(regrab_on_click(CursorGrab::Free, true), true, false, false);
    assert!(!mouse_look_active(after, true));
}
