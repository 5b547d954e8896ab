//! Photo mode: freeze the world and fly a detached camera to frame a shot,
//! with a couple of cheap filters.
//!
//! Photo mode rides on the game-state machine: `P` in `Playing` asks for
//! `Paused` (marking the pause as a photo pause), the photo setup is applied
//! on entering `Paused` only when it was asked for, `P` again resumes
//! `Playing`, and leaving `Paused` restores everything. A normal menu pause is
//! never mistaken for photo mode.

use crate::states::GameState;
use vstd::prelude::*;

verus! {

/// The post filters photo mode can apply, cycled with `F`.
#[derive(Clone, Copy, Debug, PartialEq, Eq, Structural)]
pub enum Filter {
    /// The world as it looks in play.
    Off,
    /// A warm, desaturated postcard grade.
    Warm,
    /// A soft, glowy dream look.
    Dream,
}

impl Default for Filter {
    /// Photo mode starts unfiltered.
    fn default() -> (f: Filter)
        ensures
            f == Filter::Off,
    {
        Filter::Off
    }
}

/// The filter after `f` in the cycle `Off → Warm → Dream → Off`.
pub open spec fn filter_after(f: Filter) -> Filter {
    match f {
        Filter::Off => Filter::Warm,
        Filter::Warm => Filter::Dream,
        Filter::Dream => Filter::Off,
    }
}

/// The name shown for a filter.
pub open spec fn filter_text(f: Filter) -> Seq<char> {
    match f {
        Filter::Off => "None"@,
        Filter::Warm => "Warm"@,
        Filter::Dream => "Dream"@,
    }
}

impl Filter {
    /// The next filter in the cycle (wraps back to `Off`, shown as "None").
    pub fn next(self) -> (f: Filter)
        ensures
            f == filter_after(self),
            self == Filter::Off ==> f == Filter::Warm,
            self == Filter::Warm ==> f == Filter::Dream,
            self == Filter::Dream ==> f == Filter::Off,
    {
        match self {
            Filter::Off => Filter::Warm,
            Filter::Warm => Filter::Dream,
            Filter::Dream => Filter::Off,
        }
    }

    /// The filter's display name.
    pub fn label(self) -> (text: &'static str)
        ensures
            text@ == filter_text(self),
            self == Filter::Off ==> text@ == "None"@,
            self == Filter::Warm ==> text@ == "Warm"@,
            self == Filter::Dream ==> text@ == "Dream"@,
    {
        match self {
            Filter::Off => "None",
            Filter::Warm => "Warm",
            Filter::Dream => "Dream",
        }
    }
}

/// The discrete state of photo mode.
#[derive(Clone, Copy, Debug, PartialEq, Eq, Structural)]
pub struct PhotoMode {
    /// The world is paused *for photo mode* (as opposed to the pause menu).
    pub requested: bool,
    /// The photo setup (camera snapshot, hidden UI) has been applied.
    pub entered: bool,
    /// The active filter.
    pub filter: Filter,
}

impl Default for PhotoMode {
    /// Photo mode starts inactive and unfiltered.
    fn default() -> (m: PhotoMode)
        ensures
            m == (PhotoMode { requested: false, entered: false, filter: Filter::Off }),
    {
        PhotoMode { requested: false, entered: false, filter: Filter::Off }
    }
}

/// Photo mode after a frame's key handling in `state`, and the state change it
/// asks for: `F` cycles the filter while photo mode is applied; `P` in
/// `Playing` marks a photo pause and asks for `Paused`, and `P` during a photo
/// pause asks for `Playing`.
pub open spec fn after_keys(m: PhotoMode, state: GameState, f_pressed: bool, p_pressed: bool) -> (
    PhotoMode,
    Option<GameState>,
) {
    let m1 = if m.entered && f_pressed {
        PhotoMode { filter: filter_after(m.filter), ..m }
    } else {
        m
    };
    if !p_pressed {
        (m1, None)
    } else if state == GameState::Playing {
        (PhotoMode { requested: true, ..m1 }, Some(GameState::Paused))
    } else if state == GameState::Paused && m1.requested {
        (m1, Some(GameState::Playing))
    } else {
        (m1, None)
    }
}

/// Photo mode after entering `Paused`: a requested photo pause applies the
/// setup and resets the filter; a menu pause changes nothing.
pub open spec fn after_enter(m: PhotoMode) -> PhotoMode {
    if m.requested {
        PhotoMode { entered: true, filter: Filter::Off, ..m }
    } else {
        m
    }
}

/// Photo mode after leaving `Paused`: an applied photo mode is torn down.
pub open spec fn after_exit(m: PhotoMode) -> PhotoMode {
    if m.entered {
        PhotoMode { requested: false, entered: false, ..m }
    } else {
        m
    }
}

impl PhotoMode {
    /// Handle a frame's `F` (cycle filter) and `P` (toggle photo mode) presses
    /// in `state`, returning the state change to request, if any.
    pub fn toggle_photo(&mut self, state: GameState, f_pressed: bool, p_pressed: bool) -> (next:
        Option<GameState>)
        ensures
            (*final(self), next) == after_keys(*old(self), state, f_pressed, p_pressed),
            old(self).entered && f_pressed && old(self).filter == Filter::Off ==> final(self).filter
                == Filter::Warm,
            old(self).entered && f_pressed && old(self).filter == Filter::Warm ==> final(self).filter == Filter::Dream,
            old(self).entered && f_pressed && old(self).filter == Filter::Dream ==> final(self).filter == Filter::Off,
            !(old(self).entered && f_pressed) ==> final(self).filter == old(self).filter,
            final(self).entered == old(self).entered,
            final(self).requested == (old(self).requested || (p_pressed && state
                == GameState::Playing)),
            !p_pressed ==> next is None,
            p_pressed && state == GameState::Playing ==> next == Some(GameState::Paused),
            p_pressed && state == GameState::Paused ==> (next == if old(self).requested {
                Some(GameState::Playing)
            } else {
                None
            }),
            state != GameState::Playing && state != GameState::Paused ==> next is None,
    {
        if self.entered && f_pressed {
            self.filter = self.filter.next();
        }
        if !p_pressed {
            return None;
        }
        match state {
            GameState::Playing => {
                self.requested = true;
                Some(GameState::Paused)
            },
            GameState::Paused => {
                if self.requested {
                    Some(GameState::Playing)
                } else {
                    None
                }
            },
            _ => None,
        }
    }

    /// On entering `Paused`: if this pause was asked for by photo mode, apply
    /// the photo setup (unfiltered) and return `true`; otherwise change nothing
    /// and return `false`.
    pub fn enter_photo(&mut self) -> (applied: bool)
        ensures
            applied == old(self).requested,
            *final(self) == after_enter(*old(self)),
            old(self).requested ==> *final(self) == (PhotoMode {
                requested: true,
                entered: true,
                filter: Filter::Off,
            }),
            !old(self).requested ==> *final(self) == *old(self),
    {
        if !self.requested {
            return false;
        }
        self.filter = Filter::Off;
        self.entered = true;
        true
    }

    /// On leaving `Paused`: if photo mode was applied, tear it down and return
    /// `true` (the caller restores the camera and UI); otherwise change
    /// nothing and return `false`.
    pub fn exit_photo(&mut self) -> (restored: bool)
        ensures
            restored == old(self).entered,
            *final(self) == after_exit(*old(self)),
            old(self).entered ==> !final(self).requested && !final(self).entered
                && final(self).filter == old(self).filter,
            !old(self).entered ==> *final(self) == *old(self),
    {
        if !self.entered {
            return false;
        }
        self.requested = false;
        self.entered = false;
        true
    }
}

/// The filters cycle through all three and wrap, and their names are
/// distinct.
pub proof fn lemma_filter_cycle(f: Filter, g: Filter)
    ensures
        filter_after(filter_after(filter_after(f))) == f,
        filter_after(f) != f,
        f != g ==> filter_text(f) != filter_text(g),
{
    reveal_strlit("None");
    reveal_strlit("Warm");
    reveal_strlit("Dream");
    if f != g {
        assert(filter_text(f)[0] != filter_text(g)[0]);
    }
}

/// In photo mode each `F` press moves the filter one step along
/// `Off → Warm → Dream → Off`, whatever the state and `P`: three presses visit
/// all three filters and come back to the first. Outside photo mode `F`
/// leaves the filter alone, and the filter never decides the state change.
pub proof fn lemma_filter_presses(m: PhotoMode, state: GameState, f_pressed: bool, p_pressed: bool)
    ensures
        m.entered && f_pressed ==> after_keys(m, state, f_pressed, p_pressed).0.filter == (match m.filter {
            Filter::Off => Filter::Warm,
            Filter::Warm => Filter::Dream,
            Filter::Dream => Filter::Off,
        }),
        !(m.entered && f_pressed) ==> after_keys(m, state, f_pressed, p_pressed).0.filter == m.filter,
        after_keys(m, state, f_pressed, p_pressed).0.entered == m.entered,
        after_keys(m, state, f_pressed, p_pressed).1 == after_keys(m, state, false, p_pressed).1,
        m.entered ==> ({
            let m1 = after_keys(m, state, true, false).0;
            let m2 = after_keys(m1, state, true, false).0;
            let m3 = after_keys(m2, state, true, false).0;
            &&& m3.filter == m.filter
            &&& m1.filter != m.filter
            &&& m2.filter != m.filter
            &&& m1.filter != m2.filter
        }),
{
}

/// A photo session returns photo mode to where it started: from inactive
/// photo mode in `Playing`, `P` asks for `Paused`; entering `Paused` applies
/// photo mode; any `F` presses only change the filter; `P` asks for `Playing`
/// again; and leaving `Paused` tears photo mode down, leaving it inactive.
/// A menu pause (entering `Paused` without `P`) never applies photo mode.
pub proof fn lemma_photo_session(m: PhotoMode, f_presses: bool)
    requires
        !m.requested,
        !m.entered,
    ensures
        ({
            let (m1, go1) = after_keys(m, GameState::Playing, false, true);
            let m2 = after_enter(m1);
            let (m3, _) = after_keys(m2, GameState::Paused, f_presses, false);
            let (m4, go2) = after_keys(m3, GameState::Paused, false, true);
            let m5 = after_exit(m4);
            &&& go1 == Some(GameState::Paused)
            &&& m2.entered && m2.filter == Filter::Off
            &&& go2 == Some(GameState::Playing)
            &&& !m5.requested && !m5.entered
        }),
        after_enter(m) == m,
{
}

} // verus!
