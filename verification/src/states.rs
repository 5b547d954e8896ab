//! The game-state machine: `Boot → MainMenu → Playing`, with the title
//! screen's Play button starting the game and `Esc` toggling
//! `Playing ↔ Paused`.
//!
//! Gameplay simulates only in [`GameState::Playing`]; entering `Playing` locks
//! the cursor, entering `Paused` or `MainMenu` frees it.

use vstd::prelude::*;

verus! {

/// High-level game flow. Gameplay simulation only runs in `Playing`.
#[derive(Clone, Copy, Debug, PartialEq, Eq, Hash, Structural)]
pub enum GameState {
    /// One-frame entry state; immediately advances to the title screen.
    Boot,
    /// Title screen.
    MainMenu,
    /// Active gameplay: the world simulates and the player is in control.
    Playing,
    /// Gameplay frozen under the pause overlay (or photo mode).
    Paused,
}

impl Default for GameState {
    /// The machine starts in `Boot`.
    fn default() -> (s: GameState)
        ensures
            s == GameState::Boot,
    {
        GameState::Boot
    }
}

/// What happens to the mouse cursor on entering a state.
#[derive(Clone, Copy, Debug, PartialEq, Eq, Structural)]
pub enum CursorGrab {
    /// Hidden and locked to the window (mouse-look active).
    Locked,
    /// Visible and free.
    Free,
}

/// The state `Esc` leads to from `state`: pausing from `Playing`, resuming
/// from anything else.
pub open spec fn pause_toggled(state: GameState) -> GameState {
    if state == GameState::Playing {
        GameState::Paused
    } else {
        GameState::Playing
    }
}

impl GameState {
    /// Whether the gameplay simulation (player, shrines, sky, wildlife) runs.
    pub fn simulates(self) -> (b: bool)
        ensures
            b <==> self == GameState::Playing,
    {
        matches!(self, GameState::Playing)
    }

    /// The per-frame boot step: `Boot` advances to the title screen
    /// (`MainMenu`), whose Play button starts the game; no other state is
    /// affected.
    pub fn boot_step(self) -> (next: Option<GameState>)
        ensures
            self == GameState::Boot ==> next == Some(GameState::MainMenu),
            self != GameState::Boot ==> next is None,
    {
        match self {
            GameState::Boot => Some(GameState::MainMenu),
            _ => None,
        }
    }

    /// The transition `Esc` requests. The toggle only listens while `Playing`
    /// or `Paused`; there, a fresh `Esc` press pauses a running game and
    /// resumes a paused one. Returns `None` when no transition is requested.
    pub fn toggle_pause(self, esc_just_pressed: bool) -> (next: Option<GameState>)
        ensures
            next is Some <==> esc_just_pressed && (self == GameState::Playing || self
                == GameState::Paused),
            next is Some ==> next == Some(pause_toggled(self)),
            esc_just_pressed && self == GameState::Playing ==> next == Some(GameState::Paused),
            esc_just_pressed && self == GameState::Paused ==> next == Some(GameState::Playing),
    {
        match self {
            GameState::Playing | GameState::Paused => {
                if !esc_just_pressed {
                    return None;
                }
                Some(
                    match self {
                        GameState::Playing => GameState::Paused,
                        _ => GameState::Playing,
                    },
                )
            },
            _ => None,
        }
    }

    /// The cursor change made on entering this state: `Playing` locks the
    /// cursor, `Paused` and `MainMenu` free it, `Boot` leaves it alone.
    pub fn cursor_on_enter(self) -> (grab: Option<CursorGrab>)
        ensures
            self == GameState::Playing ==> grab == Some(CursorGrab::Locked),
            (self == GameState::Paused || self == GameState::MainMenu) ==> grab == Some(
                CursorGrab::Free,
            ),
            self == GameState::Boot ==> grab is None,
    {
        match self {
            GameState::Playing => Some(CursorGrab::Locked),
            GameState::Paused | GameState::MainMenu => Some(CursorGrab::Free),
            GameState::Boot => None,
        }
    }
}

/// The cursor after a possible click into the window.
pub open spec fn regrabbed(grab: CursorGrab, left_just_pressed: bool) -> CursorGrab {
    if left_just_pressed && grab == CursorGrab::Free {
        CursorGrab::Locked
    } else {
        grab
    }
}

/// The cursor after a possible `Esc`, focus loss or cursor exit.
pub open spec fn released(grab: CursorGrab, esc: bool, lost_focus: bool, cursor_left: bool) -> CursorGrab {
    if esc || lost_focus || cursor_left {
        CursorGrab::Free
    } else {
        grab
    }
}

/// Re-grab the cursor when the player clicks into the window (the user
/// gesture browsers require for pointer lock): a left click on a free cursor
/// locks it; otherwise nothing changes.
pub fn regrab_on_click(grab: CursorGrab, left_just_pressed: bool) -> (after: CursorGrab)
    ensures
        after == regrabbed(grab, left_just_pressed),
        !left_just_pressed ==> after == grab,
        left_just_pressed ==> after == CursorGrab::Locked,
{
    if left_just_pressed && grab == CursorGrab::Free {
        CursorGrab::Locked
    } else {
        grab
    }
}

/// Release the cursor when `Esc` is pressed, the window loses focus, or the
/// cursor leaves the window (how a browser's own pointer-lock exit shows up);
/// otherwise nothing changes.
pub fn release_on_escape(grab: CursorGrab, esc_just_pressed: bool, lost_focus: bool, cursor_left: bool) -> (after:
    CursorGrab)
    ensures
        after == released(grab, esc_just_pressed, lost_focus, cursor_left),
        !(esc_just_pressed || lost_focus || cursor_left) ==> after == grab,
        (esc_just_pressed || lost_focus || cursor_left) ==> after == CursorGrab::Free,
{
    if esc_just_pressed || lost_focus || cursor_left {
        CursorGrab::Free
    } else {
        grab
    }
}

/// Mouse-look steers the camera only while the cursor is captured and the
/// window is focused.
pub fn mouse_look_active(grab: CursorGrab, window_focused: bool) -> (active: bool)
    ensures
        active <==> grab == CursorGrab::Locked && window_focused,
{
    grab == CursorGrab::Locked && window_focused
}

/// `Esc` is an involution on the running/paused pair: pressing it twice from
/// `Playing` or from `Paused` returns to where it started, and the cursor is
/// locked exactly when the toggle lands in `Playing`.
pub proof fn lemma_pause_toggle_involution(state: GameState)
    requires
        state == GameState::Playing || state == GameState::Paused,
    ensures
        pause_toggled(pause_toggled(state)) == state,
        pause_toggled(state) != state,
        pause_toggled(state) == GameState::Playing || pause_toggled(state) == GameState::Paused,
{
}

/// A click only ever captures the cursor: without a click the cursor is left
/// as it is, and with one it ends up locked (a locked cursor stays locked).
/// Symmetrically, without `Esc`, focus loss or cursor exit the cursor is left
/// as it is, and with any of them it ends up free.
pub proof fn lemma_cursor_changes_only_on_input(
    grab: CursorGrab,
    click: bool,
    esc: bool,
    lost_focus: bool,
    cursor_left: bool,
)
    ensures
        !click ==> regrabbed(grab, click) == grab,
        click ==> regrabbed(grab, click) == CursorGrab::Locked,
        grab == CursorGrab::Locked ==> regrabbed(grab, click) == CursorGrab::Locked,
        !(esc || lost_focus || cursor_left) ==> released(grab, esc, lost_focus, cursor_left)
            == grab,
        (esc || lost_focus || cursor_left) ==> released(grab, esc, lost_focus, cursor_left)
            == CursorGrab::Free,
{
}

/// `Esc` pauses a running game and resumes a paused one.
pub proof fn lemma_pause_toggle_targets()
    ensures
        pause_toggled(GameState::Playing) == GameState::Paused,
        pause_toggled(GameState::Paused) == GameState::Playing,
{
}

/// A single `Esc` always frees the cursor and stops mouse-look in the same
/// frame, whatever the cursor was doing and even if the player also clicked:
/// the release runs after the click re-grab.
pub proof fn lemma_escape_stops_mouse_look(
    grab: CursorGrab,
    click: bool,
    lost_focus: bool,
    cursor_left: bool,
    focused: bool,
)
    ensures
        released(regrabbed(grab, click), true, lost_focus, cursor_left) == CursorGrab::Free,
        !(released(regrabbed(grab, click), true, lost_focus, cursor_left) == CursorGrab::Locked
            && focused),
{
}

} // verus!
