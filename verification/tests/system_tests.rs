use menu_scaffold::game::{setup, setup_game, App, AppConfig, AppState, Hooks};
use menu_scaffold::main_menu::{
    button_on_press_system, button_render_system, despawn_main_menu, setup_main_menu, MenuButton,
    MenuError,
};
use menu_scaffold::ui::{Interaction, BUTTON_COLOR, BUTTON_HOVER_COLOR};
use menu_scaffold::world::{Entity, EntityRole, World};

fn hooks_all() -> Hooks {
    Hooks {
        menu_on_enter: true,
        menu_update: true,
        menu_on_exit: true,
        game_on_enter: true,
        startup_camera: true,
    }
}

fn test_button(id: u64, kind: MenuButton, i: Interaction, changed: bool) -> Entity {
    Entity {
        id,
        parent: None,
        role: EntityRole::Button(kind),
        color: BUTTON_COLOR,
        interaction: i,
        changed,
    }
}

fn app_with_entities(entities: Vec<Entity>, next_id: u64) -> App {
    App {
        config: AppConfig { quit_offered: true, inspector_overlay: false },
        hooks: hooks_all(),
        state: AppState::MainMenu,
        next_state: None,
        world: World { entities, next_id },
        exit_events: 0,
    }
}

#[test]
fn teardown_is_scoped_to_menu_entities() {
    let mut world = World::new();
    setup(&mut world);
    setup_main_menu(&mut world, true);
    setup_game(&mut world);
    assert_eq!(world.count_menu_entities(), 8);
    despawn_main_menu(&mut world);
    assert_eq!(world.count_menu_entities(), 0);
    assert_eq!(world.count_buttons(), 0);
    assert_eq!(world.count_role(EntityRole::Camera), 1);
    assert_eq!(world.count_role(EntityRole::GameRect), 1);
}

#[test]
fn menu_builder_spawns_in_order() {
    let mut world = World::new();
    setup_main_menu(&mut world, false);
    assert_eq!(world.entities.len(), 6);
    assert_eq!(world.entities[0].role, EntityRole::MenuRoot);
    assert_eq!(world.entities[1].role, EntityRole::MenuPanel);
    assert_eq!(world.entities[2].role, EntityRole::Button(MenuButton::Start));
    assert_eq!(world.entities[3].role, EntityRole::Label(MenuButton::Start));
    assert_eq!(world.entities[4].role, EntityRole::Button(MenuButton::Help));
    assert_eq!(world.entities[5].role, EntityRole::Label(MenuButton::Help));
    assert_eq!(world.entities[1].parent, Some(0));
    assert_eq!(world.entities[2].parent, Some(1));
    assert_eq!(world.entities[3].parent, Some(2));
}

#[test]
fn render_recolors_only_changed_buttons() {
    let mut world = World {
        entities: vec![
            test_button(0, MenuButton::Start, Interaction::Hovered, true),
            test_button(1, MenuButton::Help, Interaction::Hovered, false),
            test_button(2, MenuButton::Quit, Interaction::Idle, true),
        ],
        next_id: 3,
    };
    button_render_system(&mut world);
    assert_eq!(world.entities[0].color, BUTTON_HOVER_COLOR);
    assert_eq!(world.entities[1].color, BUTTON_COLOR);
    assert_eq!(world.entities[2].color, BUTTON_COLOR);
}

#[test]
fn render_leaves_pressed_buttons_alone() {
    let mut world = World {
        entities: vec![Entity {
            id: 0,
            parent: None,
            role: EntityRole::Button(MenuButton::Start),
            color: BUTTON_HOVER_COLOR,
            interaction: Interaction::Pressed,
            changed: true,
        }],
        next_id: 1,
    };
    button_render_system(&mut world);
    assert_eq!(world.entities[0].color, BUTTON_HOVER_COLOR);
}

#[test]
fn press_dispatch_only_start_requests_transition() {
    let mut app = app_with_entities(
        vec![
            test_button(0, MenuButton::Quit, Interaction::Hovered, true),
            test_button(1, MenuButton::Start, Interaction::Pressed, true),
        ],
        2,
    );
    assert_eq!(button_on_press_system(&mut app), Ok(()));
    assert_eq!(app.next_state, Some(AppState::InGame));
    assert_eq!(app.exit_events, 0);
}

#[test]
fn press_without_edge_is_ignored() {
    let mut app = app_with_entities(
        vec![
            test_button(0, MenuButton::Start, Interaction::Pressed, false),
            test_button(1, MenuButton::Quit, Interaction::Pressed, false),
        ],
        2,
    );
    assert_eq!(button_on_press_system(&mut app), Ok(()));
    assert_eq!(app.next_state, None);
    assert_eq!(app.exit_events, 0);
}

#[test]
fn press_on_non_button_entities_does_nothing() {
    let mut app = app_with_entities(
        vec![Entity {
            id: 0,
            parent: None,
            role: EntityRole::Label(MenuButton::Start),
            color: BUTTON_COLOR,
            interaction: Interaction::Pressed,
            changed: true,
        }],
        1,
    );
    assert_eq!(button_on_press_system(&mut app), Ok(()));
    assert_eq!(app.next_state, None);
    assert_eq!(app.exit_events, 0);
}

#[test]
fn help_press_stops_the_activation_pass() {
    let mut app = app_with_entities(
        vec![
            test_button(0, MenuButton::Quit, Interaction::Pressed, true),
            test_button(1, MenuButton::Help, Interaction::Pressed, true),
            test_button(2, MenuButton::Quit, Interaction::Pressed, true),
        ],
        3,
    );
    assert_eq!(button_on_press_system(&mut app), Err(MenuError::HelpUnimplemented));
    // The pass processed the Quit press before the Help press, not the one
    // after it.
    assert_eq!(app.exit_events, 1);
    assert_eq!(app.next_state, None);
}
