use menu_scaffold::game::{App, AppConfig, AppState, Hooks};
use menu_scaffold::main_menu::{button_on_press_system, button_render_system};
use menu_scaffold::ui::{
    BACKDROP_COLOR, BORDER_COLOR, BORDER_PX, BORDER_RADIUS_PIXEL, BUTTON_COLOR,
    BUTTON_HOVER_COLOR, MENU_COLOR, RECT_COLOR, TEXT_COLOR,
};
use menu_scaffold::world::World;

#[test]
fn palette_matches_named_colors() {
    // The fixed palette: beige buttons that flash floral white, a bisque
    // panel with black borders and text, a gray backdrop, a purple rectangle.
    assert_eq!(BUTTON_COLOR, 0xF5F5DC);
    assert_eq!(BUTTON_HOVER_COLOR, 0xFFFAF0);
    assert_eq!(MENU_COLOR, 0xFFE4C4);
    assert_eq!(BORDER_COLOR, 0x000000);
    assert_eq!(TEXT_COLOR, 0x000000);
    assert_eq!(BACKDROP_COLOR, 0x808080);
    assert_eq!(RECT_COLOR, 0x800080);
    assert_eq!(BORDER_RADIUS_PIXEL, 25);
    assert_eq!(BORDER_PX, 3);
}

#[test]
fn systems_tolerate_an_empty_scene() {
    let mut world = World::new();
    button_render_system(&mut world);
    assert_eq!(world.entities.len(), 0);
    let mut app = App {
        config: AppConfig { quit_offered: true, inspector_overlay: false },
        hooks: Hooks {
            menu_on_enter: true,
            menu_update: true,
            menu_on_exit: true,
            game_on_enter: true,
            startup_camera: true,
        },
        state: AppState::MainMenu,
        next_state: None,
        world: World::new(),
        exit_events: 0,
    };
    assert_eq!(button_on_press_system(&mut app), Ok(()));
    assert_eq!(app.next_state, None);
    assert_eq!(app.exit_events, 0);
}
