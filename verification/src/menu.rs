//! Menu buttons: what a click does and how a button looks.
//!
//! The title screen and the pause overlay share one set of actions and one
//! click handler; a disabled button neither
//! reacts nor changes its look. Generic screen buttons carry either a state to
//! switch to or a link to open.

use crate::states::GameState;
use vstd::prelude::*;

verus! {

/// A button's pointer interaction this frame.
#[derive(Clone, Copy, Debug, PartialEq, Eq, Structural)]
pub enum Interaction {
    /// The button is being pressed.
    Pressed,
    /// The pointer is over the button.
    Hovered,
    /// Nothing is happening to the button.
    Idle,
}

/// What a menu button does when clicked.
#[derive(Clone, Copy, Debug, PartialEq, Eq, Structural)]
pub enum MenuAction {
    /// Main menu → start the game.
    Play,
    /// Pause menu → return to gameplay.
    Resume,
    /// Pause menu → back out to the title screen.
    ToMainMenu,
    /// Open the settings overlay on top of the current menu.
    Settings,
    /// Quit the game.
    Quit,
}

/// The outcome of a menu button interaction.
#[derive(Clone, Copy, Debug, PartialEq, Eq, Structural)]
pub enum MenuEffect {
    /// Nothing happens.
    Stay,
    /// Switch the game to this state.
    Enter(GameState),
    /// Open the settings overlay over the current menu, leaving the game
    /// state as it is.
    OpenSettings,
    /// Quit the application.
    Exit,
}

/// The look a menu button takes.
#[derive(Clone, Copy, Debug, PartialEq, Eq, Structural)]
pub enum ButtonShade {
    Normal,
    Hovered,
    Pressed,
}

/// What an interaction with a generic screen button does.
#[derive(Clone, Copy, Debug, PartialEq, Eq, Structural)]
pub enum ButtonResponse {
    /// Request a transition to this state.
    SwitchTo(GameState),
    /// Open the button's link in the system browser.
    OpenLink,
    /// Show the hovered colour.
    ShowHovered,
    /// Show the idle colour.
    ShowNormal,
    /// Nothing to do.
    Ignore,
}

/// Attach to a generic button to make clicking it request a transition.
#[derive(Clone, Copy, Debug, PartialEq, Eq, Structural)]
pub struct ChangeState(pub GameState);

/// The effect of `action` for a click: only a press on an enabled button
/// acts; `Play` and `Resume` start gameplay, `ToMainMenu` returns to the
/// title screen, `Settings` opens the settings overlay (the game state is
/// untouched) and `Quit` exits.
pub open spec fn action_effect(interaction: Interaction, action: MenuAction, disabled: bool) -> MenuEffect {
    if disabled || interaction != Interaction::Pressed {
        MenuEffect::Stay
    } else {
        match action {
            MenuAction::Play | MenuAction::Resume => MenuEffect::Enter(GameState::Playing),
            MenuAction::ToMainMenu => MenuEffect::Enter(GameState::MainMenu),
            MenuAction::Settings => MenuEffect::OpenSettings,
            MenuAction::Quit => MenuEffect::Exit,
        }
    }
}

/// Run a menu button's action for this frame's interaction.
pub fn menu_action_effect(interaction: Interaction, action: MenuAction, disabled: bool) -> (effect:
    MenuEffect)
    ensures
        effect == action_effect(interaction, action, disabled),
        disabled || interaction != Interaction::Pressed ==> effect == MenuEffect::Stay,
        !disabled && interaction == Interaction::Pressed ==> effect == (match action {
            MenuAction::Play => MenuEffect::Enter(GameState::Playing),
            MenuAction::Resume => MenuEffect::Enter(GameState::Playing),
            MenuAction::ToMainMenu => MenuEffect::Enter(GameState::MainMenu),
            MenuAction::Settings => MenuEffect::OpenSettings,
            MenuAction::Quit => MenuEffect::Exit,
        }),
{
    if disabled {
        return MenuEffect::Stay;
    }
    match interaction {
        Interaction::Pressed => {},
        _ => {
            return MenuEffect::Stay;
        },
    }
    match action {
        MenuAction::Play | MenuAction::Resume => MenuEffect::Enter(GameState::Playing),
        MenuAction::ToMainMenu => MenuEffect::Enter(GameState::MainMenu),
        MenuAction::Settings => MenuEffect::OpenSettings,
        MenuAction::Quit => MenuEffect::Exit,
    }
}

/// The look of a menu button for this frame's interaction; a disabled button
/// keeps its dimmed look (`None`).
pub fn menu_button_shade(interaction: Interaction, disabled: bool) -> (shade: Option<ButtonShade>)
    ensures
        disabled ==> shade is None,
        !disabled && interaction == Interaction::Pressed ==> shade == Some(ButtonShade::Pressed),
        !disabled && interaction == Interaction::Hovered ==> shade == Some(ButtonShade::Hovered),
        !disabled && interaction == Interaction::Idle ==> shade == Some(ButtonShade::Normal),
{
    if disabled {
        return None;
    }
    Some(
        match interaction {
            Interaction::Pressed => ButtonShade::Pressed,
            Interaction::Hovered => ButtonShade::Hovered,
            Interaction::Idle => ButtonShade::Normal,
        },
    )
}

/// The response of a generic screen button: a press switches state if the
/// button carries one, else opens its link if it has one; hovering and
/// leaving recolour it.
pub fn button_response(interaction: Interaction, change_state: Option<ChangeState>, has_link: bool) -> (response:
    ButtonResponse)
    ensures
        interaction == Interaction::Pressed ==> response == (match change_state {
            Some(ChangeState(target)) => ButtonResponse::SwitchTo(target),
            None => if has_link {
                ButtonResponse::OpenLink
            } else {
                ButtonResponse::Ignore
            },
        }),
        interaction == Interaction::Hovered ==> response == ButtonResponse::ShowHovered,
        interaction == Interaction::Idle ==> response == ButtonResponse::ShowNormal,
{
    match interaction {
        Interaction::Pressed => {
            if let Some(ChangeState(target)) = change_state {
                ButtonResponse::SwitchTo(target)
            } else if has_link {
                ButtonResponse::OpenLink
            } else {
                ButtonResponse::Ignore
            }
        },
        Interaction::Hovered => ButtonResponse::ShowHovered,
        Interaction::Idle => ButtonResponse::ShowNormal,
    }
}

/// Only a press on an enabled button acts: hovering, leaving or pressing a
/// disabled button does nothing, whatever the action. A press on an enabled
/// button does exactly what its label says: Play and Resume start gameplay,
/// Main Menu returns to the title screen, Settings opens the overlay, Quit
/// exits.
pub proof fn lemma_only_presses_act(interaction: Interaction, action: MenuAction, disabled: bool)
    ensures
        interaction != Interaction::Pressed ==> action_effect(interaction, action, disabled)
            == MenuEffect::Stay,
        disabled ==> action_effect(interaction, action, disabled) == MenuEffect::Stay,
        !disabled && interaction == Interaction::Pressed ==> {
            &&& action == MenuAction::Play ==> action_effect(interaction, action, disabled)
                == MenuEffect::Enter(GameState::Playing)
            &&& action == MenuAction::Resume ==> action_effect(interaction, action, disabled)
                == MenuEffect::Enter(GameState::Playing)
            &&& action == MenuAction::ToMainMenu ==> action_effect(interaction, action, disabled)
                == MenuEffect::Enter(GameState::MainMenu)
            &&& action == MenuAction::Settings ==> action_effect(interaction, action, disabled)
                == MenuEffect::OpenSettings
            &&& action == MenuAction::Quit ==> action_effect(interaction, action, disabled)
                == MenuEffect::Exit
        },
{
}

/// Every way out of a menu lands in a state where the cursor is handled: a
/// menu click only ever switches to `Playing` (cursor locked) or `MainMenu`
/// (cursor free); opening the settings overlay switches no state at all; and
/// a disabled button never acts.
pub proof fn lemma_menu_targets(interaction: Interaction, action: MenuAction, disabled: bool)
    ensures
        action_effect(interaction, action, disabled) matches MenuEffect::Enter(s) ==> (s
            == GameState::Playing || s == GameState::MainMenu),
        action == MenuAction::Settings && interaction == Interaction::Pressed && !disabled
            ==> action_effect(interaction, action, disabled) == MenuEffect::OpenSettings,
        disabled ==> action_effect(interaction, action, disabled) == MenuEffect::Stay,
{
}

} // verus!
