use menu_scaffold::game::{boot, App, AppConfig, AppState};
use menu_scaffold::main_menu::{MenuButton, MenuError};
use menu_scaffold::ui::{Interaction, BUTTON_COLOR, BUTTON_HOVER_COLOR};
use menu_scaffold::world::EntityRole;

fn native_config() -> AppConfig {
    AppConfig { quit_offered: true, inspector_overlay: true }
}

fn web_config() -> AppConfig {
    AppConfig { quit_offered: false, inspector_overlay: false }
}

fn button_color(app: &App, kind: MenuButton) -> u32 {
    for e in app.world.entities.iter() {
        if e.role == EntityRole::Button(kind) {
            return e.color;
        }
    }
    panic!("no button of that kind in the scene");
}

#[test]
fn fresh_start_native_three_buttons() {
    let app = boot(native_config());
    assert_eq!(app.state, AppState::MainMenu);
    assert_eq!(app.world.count_buttons(), 3);
    assert_eq!(app.world.count_role(EntityRole::Button(MenuButton::Start)), 1);
    assert_eq!(app.world.count_role(EntityRole::Button(MenuButton::Help)), 1);
    assert_eq!(app.world.count_role(EntityRole::Button(MenuButton::Quit)), 1);
    assert_eq!(app.world.count_role(EntityRole::Camera), 1);
    assert_eq!(app.world.count_role(EntityRole::GameRect), 0);
    assert_eq!(app.world.count_menu_entities(), 8);
    assert_eq!(app.exit_events, 0);
    assert!(matches!(app.next_state, None));
}

#[test]
fn fresh_start_web_two_buttons() {
    let app = boot(web_config());
    assert_eq!(app.state, AppState::MainMenu);
    assert_eq!(app.world.count_buttons(), 2);
    assert_eq!(app.world.count_role(EntityRole::Button(MenuButton::Quit)), 0);
    assert_eq!(app.world.count_menu_entities(), 6);
}

#[test]
fn press_start_enters_game() {
    let mut app = boot(native_config());
    assert!(app.set_button_interaction(MenuButton::Start, Interaction::Pressed));
    assert!(app.frame().is_ok());
    assert_eq!(app.state, AppState::InGame);
    assert_eq!(app.world.count_menu_entities(), 0);
    assert_eq!(app.world.count_role(EntityRole::GameRect), 1);
    assert_eq!(app.world.count_role(EntityRole::Camera), 1);
    assert_eq!(app.exit_events, 0);
    assert!(matches!(app.next_state, None));
}

#[test]
fn start_press_is_consumed_once() {
    let mut app = boot(native_config());
    app.set_button_interaction(MenuButton::Start, Interaction::Pressed);
    assert!(app.frame().is_ok());
    assert_eq!(app.state, AppState::InGame);
    // The button is still held, but the press-edge is spent and the menu
    // systems are no longer active: further frames change nothing.
    assert!(app.frame().is_ok());
    assert!(app.frame().is_ok());
    assert_eq!(app.world.count_role(EntityRole::GameRect), 1);
    assert_eq!(app.state, AppState::InGame);
    assert_eq!(app.exit_events, 0);
}

#[test]
fn hover_then_unhover_restores_base_color() {
    let mut app = boot(native_config());
    app.set_button_interaction(MenuButton::Start, Interaction::Hovered);
    assert!(app.frame().is_ok());
    assert_eq!(button_color(&app, MenuButton::Start), BUTTON_HOVER_COLOR);
    app.set_button_interaction(MenuButton::Start, Interaction::Idle);
    assert!(app.frame().is_ok());
    assert_eq!(button_color(&app, MenuButton::Start), BUTTON_COLOR);
}

#[test]
fn pressed_button_keeps_last_rendered_color() {
    let mut app = boot(native_config());
    app.set_button_interaction(MenuButton::Quit, Interaction::Hovered);
    assert!(app.frame().is_ok());
    assert_eq!(button_color(&app, MenuButton::Quit), BUTTON_HOVER_COLOR);
    app.set_button_interaction(MenuButton::Quit, Interaction::Pressed);
    assert!(app.frame().is_ok());
    assert_eq!(button_color(&app, MenuButton::Quit), BUTTON_HOVER_COLOR);
}

#[test]
fn quit_press_requests_exit_once() {
    let mut app = boot(native_config());
    app.set_button_interaction(MenuButton::Quit, Interaction::Pressed);
    assert!(app.frame().is_ok());
    assert_eq!(app.exit_events, 1);
    assert_eq!(app.state, AppState::MainMenu);
    // Still held the next frame: no new press-edge, no new request.
    assert!(app.frame().is_ok());
    assert_eq!(app.exit_events, 0);
}

#[test]
fn help_press_signals_unimplemented() {
    let mut app = boot(native_config());
    app.set_button_interaction(MenuButton::Help, Interaction::Pressed);
    let r = app.frame();
    assert_eq!(r, Err(MenuError::HelpUnimplemented));
    assert_eq!(app.state, AppState::MainMenu);
    assert_eq!(app.world.count_buttons(), 3);
}

#[test]
fn unknown_button_is_not_found() {
    let mut app = boot(web_config());
    let found = app.set_button_interaction(MenuButton::Quit, Interaction::Pressed);
    assert!(!found);
    assert!(app.frame().is_ok());
    assert_eq!(app.exit_events, 0);
    assert_eq!(app.state, AppState::MainMenu);
}

#[test]
fn frame_outside_menu_clears_exit_events() {
    let mut app = boot(native_config());
    app.set_button_interaction(MenuButton::Quit, Interaction::Pressed);
    assert!(app.frame().is_ok());
    assert_eq!(app.exit_events, 1);
    app.set_button_interaction(MenuButton::Start, Interaction::Pressed);
    assert!(app.frame().is_ok());
    assert_eq!(app.state, AppState::InGame);
    assert!(app.frame().is_ok());
    assert_eq!(app.exit_events, 0);
}

#[test]
fn app_state_default_is_main_menu() {
    assert_eq!(AppState::default(), AppState::MainMenu);
}

#[test]
fn button_labels() {
    assert_eq!(MenuButton::Start.label_text(), "Start");
    assert_eq!(MenuButton::Help.label_text(), "Help");
    assert_eq!(MenuButton::Quit.label_text(), "Quit");
}
