use lumen::photo::{Filter, PhotoMode};
use lumen::states::GameState;

#[test]
fn filter_cycles_through_all_and_wraps() {
    assert_eq!(Filter::Off.next(), Filter::Warm);
    assert_eq!(Filter::Warm.next(), Filter::Dream);
    assert_eq!(Filter::Dream.next(), Filter::Off);
}

#[test]
fn filter_labels_are_distinct() {
    let labels = [Filter::Off.label(), Filter::Warm.label(), Filter::Dream.label()];
    assert_eq!(labels[0], "None");
    assert!(labels[1] != labels[0] && labels[2] != labels[1]);
}

#[test]
fn photo_state_defaults_are_inactive() {
    let state = PhotoMode::default();
    assert!(!state.requested);
    assert!(!state.entered);
    assert_eq!(state.filter, Filter::Off);
}

#[test]
fn p_in_playing_requests_a_photo_pause() {
    let mut m = PhotoMode::default();
    assert_eq!(m.toggle_photo(GameState::Playing, false, true), Some(GameState::Paused));
    assert!(m.requested);
    assert!(!m.entered);
}

#[test]
fn photo_session_round_trip() {
    let mut m = PhotoMode::default();
    assert_eq!(m.toggle_photo(GameState::Playing, false, true), Some(GameState::Paused));
    assert!(m.enter_photo());
    assert!(m.entered);
    // `F` cycles the filter only while photo mode is applied.
    assert_eq!(m.toggle_photo(GameState::Paused, true, false), None);
    assert_eq!(m.filter, Filter::Warm);
    assert_eq!(m.toggle_photo(GameState::Paused, false, true), Some(GameState::Playing));
    assert!(m.exit_photo());
    assert!(!m.requested && !m.entered);
}

#[test]
fn menu_pause_is_not_photo_mode() {
    let mut m = PhotoMode::default();
    assert!(!m.enter_photo());
    assert_eq!(m, PhotoMode::default());
    // `P` while paused by the menu does nothing.
    assert_eq!(m.toggle_photo(GameState::Paused, false, true), None);
    // `F` outside photo mode leaves the filter alone.
    assert_eq!(m.toggle_photo(GameState::Playing, true, false), None);
    assert_eq!(m.filter, Filter::Off);
    assert!(!m.exit_photo());
}

#[test]
fn entering_photo_mode_resets_the_filter() {
    let mut m = PhotoMode { requested: true, entered: false, filter: Filter::Dream };
    assert!(m.enter_photo());
    assert_eq!(m.filter, Filter::Off);
}

#[test]
fn p_in_the_main_menu_does_nothing() {
    let mut m = PhotoMode::default();
    assert_eq!(m.toggle_photo(GameState::MainMenu, false, true), None);
    assert_eq!(m, PhotoMode::default());
}
