use lumen::menu::{
    button_response, menu_action_effect, menu_button_shade, ButtonResponse, ButtonShade,
    ChangeState, Interaction, MenuAction, MenuEffect,
};
use lumen::states::GameState;

#[test]
fn play_and_resume_start_gameplay() {
    assert_eq!(
        menu_action_effect(Interaction::Pressed, MenuAction::Play, false),
        MenuEffect::Enter(GameState::Playing)
    );
    assert_eq!(
        menu_action_effect(Interaction::Pressed, MenuAction::Resume, false),
        MenuEffect::Enter(GameState::Playing)
    );
}

#[test]
fn main_menu_button_returns_to_title_and_quit_exits() {
    assert_eq!(
        menu_action_effect(Interaction::Pressed, MenuAction::ToMainMenu, false),
        MenuEffect::Enter(GameState::MainMenu)
    );
    assert_eq!(menu_action_effect(Interaction::Pressed, MenuAction::Quit, false), MenuEffect::Exit);
}

#[test]
fn settings_button_opens_the_overlay() {
    assert_eq!(
        menu_action_effect(Interaction::Pressed, MenuAction::Settings, false),
        MenuEffect::OpenSettings
    );
    assert_eq!(menu_action_effect(Interaction::Hovered, MenuAction::Settings, false), MenuEffect::Stay);
}

#[test]
fn hovering_or_leaving_does_nothing() {
    assert_eq!(menu_action_effect(Interaction::Hovered, MenuAction::Play, false), MenuEffect::Stay);
    assert_eq!(menu_action_effect(Interaction::Idle, MenuAction::Quit, false), MenuEffect::Stay);
}

#[test]
fn disabled_buttons_never_act_or_recolour() {
    assert_eq!(menu_action_effect(Interaction::Pressed, MenuAction::Play, true), MenuEffect::Stay);
    assert_eq!(menu_action_effect(Interaction::Pressed, MenuAction::Settings, true), MenuEffect::Stay);
    assert_eq!(menu_button_shade(Interaction::Pressed, true), None);
}

#[test]
fn button_shades_follow_the_pointer() {
    assert_eq!(menu_button_shade(Interaction::Pressed, false), Some(ButtonShade::Pressed));
    assert_eq!(menu_button_shade(Interaction::Hovered, false), Some(ButtonShade::Hovered));
    assert_eq!(menu_button_shade(Interaction::Idle, false), Some(ButtonShade::Normal));
}

#[test]
fn screen_buttons_switch_state_or_open_links() {
    let to_menu = Some(ChangeState(GameState::MainMenu));
    assert_eq!(
        button_response(Interaction::Pressed, to_menu, true),
        ButtonResponse::SwitchTo(GameState::MainMenu)
    );
    assert_eq!(button_response(Interaction::Pressed, None, true), ButtonResponse::OpenLink);
    assert_eq!(button_response(Interaction::Pressed, None, false), ButtonResponse::Ignore);
    assert_eq!(button_response(Interaction::Hovered, to_menu, false), ButtonResponse::ShowHovered);
    assert_eq!(button_response(Interaction::Idle, None, true), ButtonResponse::ShowNormal);
}
