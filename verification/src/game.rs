//! The application: its two states, the startup configuration flags, the
//! registered lifecycle hooks, and the per-frame step that drives the menu
//! systems and applies the pending state transition.

use crate::main_menu::{
    help_hit, lemma_menu_entities_counts, lemma_press_count_zero, lemma_scan_len, menu_entities,
    menu_id_span, press_count, press_of, processed, setup_main_menu, spec_render, MainMenuPlugin,
    MenuButton, MenuError,
};
use crate::ui::{Interaction, RECT_COLOR};
use crate::world::{
    button_count, button_idx, lemma_button_count_concat, lemma_button_count_push,
    lemma_button_idx, lemma_menu_count_push, lemma_role_count_concat, lemma_role_count_push,
    menu_count, non_menu, poked_entity, role_count, spec_clear, Entity, EntityRole, World,
    WorldModel,
};
use vstd::prelude::*;

verus! {

/// The entity the startup system spawns: the scene camera.
pub open spec fn camera_entity(id: u64) -> Entity {
    Entity {
        id: id,
        parent: None,
        role: EntityRole::Camera,
        color: 0x000000,
        interaction: Interaction::Idle,
        changed: false,
    }
}

/// The entity the gameplay bootstrap spawns: one static purple rectangle at
/// the scene origin.
pub open spec fn rect_entity(id: u64) -> Entity {
    Entity {
        id: id,
        parent: None,
        role: EntityRole::GameRect,
        color: RECT_COLOR,
        interaction: Interaction::Idle,
        changed: false,
    }
}

/// Startup system: spawn the camera.
pub fn setup(world: &mut World)
    requires
        old(world)@.wf(),
        old(world)@.next_id < u64::MAX,
    ensures
        final(world)@.entities == old(world)@.entities.push(camera_entity(old(world)@.next_id)),
        final(world)@.next_id == old(world)@.next_id + 1,
        final(world)@.wf(),
{
    world.spawn(None, EntityRole::Camera, 0x000000);
}

/// Gameplay bootstrap, run on entering gameplay: spawn the one placeholder
/// rectangle. The rectangle count rises by exactly one.
pub fn setup_game(world: &mut World)
    requires
        old(world)@.wf(),
        old(world)@.next_id < u64::MAX,
    ensures
        final(world)@.entities == old(world)@.entities.push(rect_entity(old(world)@.next_id)),
        final(world)@.next_id == old(world)@.next_id + 1,
        final(world)@.wf(),
        role_count(final(world)@.entities, EntityRole::GameRect) == role_count(
            old(world)@.entities,
            EntityRole::GameRect,
        ) + 1,
{
    world.spawn(None, EntityRole::GameRect, RECT_COLOR);
    proof {
        lemma_role_count_push(
            old(world)@.entities,
            EntityRole::GameRect,
            rect_entity(old(world)@.next_id),
        );
    }
}

/// The phases of the application. It starts in the main menu; pressing Start
/// moves it into gameplay, and no transition leads back.
#[derive(Clone, Copy, Debug, PartialEq, Eq, Structural)]
pub enum AppState {
    MainMenu,
    InGame,
}

impl Default for AppState {
    /// The application starts in the main menu.
    fn default() -> (s: AppState)
        ensures
            s == AppState::MainMenu,
    {
        AppState::MainMenu
    }
}

/// Target- and build-dependent choices, resolved once at startup: whether a
/// Quit button (and the termination request behind it) is offered at all —
/// it is not on a page-embedded build — and whether the debug inspector
/// overlay is wanted.
#[derive(Clone, Copy, Debug, PartialEq, Eq, Structural)]
pub struct AppConfig {
    pub quit_offered: bool,
    pub inspector_overlay: bool,
}

/// Which lifecycle hooks have been registered: the three menu systems (build
/// on entering the menu, per-frame button handling while in it, teardown on
/// leaving it), the gameplay bootstrap on entering gameplay, and the startup
/// camera spawn.
#[derive(Clone, Copy, Debug, PartialEq, Eq, Structural)]
pub struct Hooks {
    pub menu_on_enter: bool,
    pub menu_update: bool,
    pub menu_on_exit: bool,
    pub game_on_enter: bool,
    pub startup_camera: bool,
}

impl Hooks {
    /// No hooks registered yet.
    pub fn none() -> (h: Hooks)
        ensures
            h == (Hooks {
                menu_on_enter: false,
                menu_update: false,
                menu_on_exit: false,
                game_on_enter: false,
                startup_camera: false,
            }),
    {
        Hooks {
            menu_on_enter: false,
            menu_update: false,
            menu_on_exit: false,
            game_on_enter: false,
            startup_camera: false,
        }
    }
}

/// The application: its configuration, registered hooks, current state, the
/// pending state request the runtime consumes once per frame, the scene, and
/// the termination requests issued during the last frame.
pub struct App {
    pub config: AppConfig,
    pub hooks: Hooks,
    pub state: AppState,
    pub next_state: Option<AppState>,
    pub world: World,
    pub exit_events: u64,
}

/// Spec-level image of an [`App`].
#[verifier::ext_equal]
pub struct AppModel {
    pub config: AppConfig,
    pub hooks: Hooks,
    pub state: AppState,
    pub next_state: Option<AppState>,
    pub world: WorldModel,
    pub exit_events: u64,
}

impl View for App {
    type V = AppModel;

    open spec fn view(&self) -> AppModel {
        AppModel {
            config: self.config,
            hooks: self.hooks,
            state: self.state,
            next_state: self.next_state,
            world: self.world@,
            exit_events: self.exit_events,
        }
    }
}

impl AppModel {
    /// The application's invariant: a well-formed scene, no gameplay
    /// rectangle while the menu state is current, and no pending request to
    /// enter the menu state — nothing ever requests it, since the menu is
    /// where the application begins and no transition leads back.
    pub open spec fn inv(self) -> bool {
        &&& self.world.wf()
        &&& (self.state == AppState::MainMenu ==> role_count(
            self.world.entities,
            EntityRole::GameRect,
        ) == 0)
        &&& self.next_state != Some(AppState::MainMenu)
    }
}

/// What consuming the pending state request does: nothing if there is none
/// or it names the current state; otherwise the old state's exit hooks run
/// (teardown when leaving the menu), the state changes, and the new state's
/// enter hooks run (menu build on entering the menu, rectangle spawn on
/// entering gameplay).
pub open spec fn spec_transition(m: AppModel) -> AppModel {
    match m.next_state {
        None => m,
        Some(s) => {
            if s == m.state {
                AppModel { next_state: None, ..m }
            } else {
                let w_exit = if m.state == AppState::MainMenu && m.hooks.menu_on_exit {
                    WorldModel {
                        entities: crate::world::non_menu(m.world.entities),
                        next_id: m.world.next_id,
                    }
                } else {
                    m.world
                };
                let w_enter = if s == AppState::InGame && m.hooks.game_on_enter {
                    WorldModel {
                        entities: w_exit.entities.push(rect_entity(w_exit.next_id)),
                        next_id: (w_exit.next_id + 1) as u64,
                    }
                } else if s == AppState::MainMenu && m.hooks.menu_on_enter {
                    WorldModel {
                        entities: w_exit.entities + menu_entities(
                            w_exit.next_id,
                            m.config.quit_offered,
                        ),
                        next_id: (w_exit.next_id + menu_id_span(m.config.quit_offered)) as u64,
                    }
                } else {
                    w_exit
                };
                AppModel { state: s, next_state: None, world: w_enter, ..m }
            }
        },
    }
}

/// What startup does: spawn the camera if registered, followed by the enter
/// hooks of the initial state.
pub open spec fn spec_startup(m: AppModel) -> AppModel {
    let w1 = if m.hooks.startup_camera {
        WorldModel {
            entities: m.world.entities.push(camera_entity(m.world.next_id)),
            next_id: (m.world.next_id + 1) as u64,
        }
    } else {
        m.world
    };
    let w2 = if m.state == AppState::MainMenu && m.hooks.menu_on_enter {
        WorldModel {
            entities: w1.entities + menu_entities(w1.next_id, m.config.quit_offered),
            next_id: (w1.next_id + menu_id_span(m.config.quit_offered)) as u64,
        }
    } else if m.state == AppState::InGame && m.hooks.game_on_enter {
        WorldModel {
            entities: w1.entities.push(rect_entity(w1.next_id)),
            next_id: (w1.next_id + 1) as u64,
        }
    } else {
        w1
    };
    AppModel { world: w2, ..m }
}

/// Whether a frame stepped from `m` aborts on the Help button's deliberately
/// unbuilt action.
pub open spec fn frame_aborts(m: AppModel) -> bool {
    m.state == AppState::MainMenu && m.hooks.menu_update && help_hit(m.world.entities)
}

/// The application after a frame that aborts on the Help button: the
/// activation pass has processed the scene up to the Help press-edge —
/// recording its Start and Quit effects — and nothing later in the frame has
/// run.
pub open spec fn spec_frame_err(m: AppModel) -> AppModel {
    let s = m.world.entities;
    AppModel {
        next_state: if press_count(processed(s), MenuButton::Start) > 0 {
            Some(AppState::InGame)
        } else {
            m.next_state
        },
        exit_events: press_count(processed(s), MenuButton::Quit) as u64,
        ..m
    }
}

/// The application after a completed frame: while the menu is active the
/// activation pass turns press-edges into a pending state request and
/// termination requests and the visual pass recolors changed buttons; the
/// pending state request is consumed; every change flag is lowered.
pub open spec fn spec_frame_ok(m: AppModel) -> AppModel {
    let s = m.world.entities;
    let m1 = if m.state == AppState::MainMenu && m.hooks.menu_update {
        AppModel {
            next_state: if press_count(s, MenuButton::Start) > 0 {
                Some(AppState::InGame)
            } else {
                m.next_state
            },
            exit_events: press_count(s, MenuButton::Quit) as u64,
            world: WorldModel { entities: spec_render(s), next_id: m.world.next_id },
            ..m
        }
    } else {
        AppModel { exit_events: 0, ..m }
    };
    let m2 = spec_transition(m1);
    AppModel {
        world: WorldModel { entities: spec_clear(m2.world.entities), next_id: m2.world.next_id },
        ..m2
    }
}

impl App {
    /// A fresh application: the given configuration, an empty scene, no
    /// hooks registered, the initial state current, nothing pending.
    pub fn new(config: AppConfig) -> (app: App)
        ensures
            app@ == (AppModel {
                config: config,
                hooks: (Hooks {
                    menu_on_enter: false,
                    menu_update: false,
                    menu_on_exit: false,
                    game_on_enter: false,
                    startup_camera: false,
                }),
                state: AppState::MainMenu,
                next_state: None,
                world: (WorldModel { entities: Seq::<Entity>::empty(), next_id: 0 }),
                exit_events: 0,
            }),
            app@.inv(),
    {
        App {
            config,
            hooks: Hooks::none(),
            state: AppState::MainMenu,
            next_state: None,
            world: World::new(),
            exit_events: 0,
        }
    }

    /// Register the startup system that spawns the camera.
    pub fn add_camera_startup(&mut self)
        ensures
            final(self)@ == (AppModel {
                hooks: (Hooks { startup_camera: true, ..old(self)@.hooks }),
                ..old(self)@
            }),
    {
        self.hooks.startup_camera = true;
    }

    /// Register the gameplay bootstrap on entering gameplay.
    pub fn add_game_setup(&mut self)
        ensures
            final(self)@ == (AppModel {
                hooks: (Hooks { game_on_enter: true, ..old(self)@.hooks }),
                ..old(self)@
            }),
    {
        self.hooks.game_on_enter = true;
    }

    /// Run the startup systems: the camera spawn, followed by the enter
    /// hooks of the initial state — building the menu when the application
    /// starts, as it does, in the menu.
    pub fn startup(&mut self)
        requires
            old(self)@.world.wf(),
            old(self)@.world.next_id + 9 <= u64::MAX,
        ensures
            final(self)@ == spec_startup(old(self)@),
            final(self)@.world.wf(),
    {
        if self.hooks.startup_camera {
            setup(&mut self.world);
        }
        match self.state {
            AppState::MainMenu => {
                if self.hooks.menu_on_enter {
                    let q: bool = self.config.quit_offered;
                    setup_main_menu(&mut self.world, q);
                }
            },
            AppState::InGame => {
                if self.hooks.game_on_enter {
                    setup_game(&mut self.world);
                }
            },
        }
        proof {
            assert(final(self)@ =~= spec_startup(old(self)@));
        }
    }

    /// Consume the pending state request, running exit and enter hooks
    /// exactly once on a real change of state. Leaving the menu for gameplay
    /// under the registered hooks leaves exactly one placeholder rectangle
    /// and zero menu-created entities.
    pub fn apply_next_state(&mut self)
        requires
            old(self)@.world.wf(),
            old(self)@.world.next_id + 8 <= u64::MAX,
        ensures
            final(self)@ == spec_transition(old(self)@),
            final(self)@.world.wf(),
            old(self)@.inv() ==> final(self)@.inv(),
            (old(self)@.inv() && old(self)@.state == AppState::MainMenu && old(self)@.next_state
                == Some(AppState::InGame) && old(self)@.hooks.menu_on_exit
                && old(self)@.hooks.game_on_enter) ==> (role_count(
                final(self)@.world.entities,
                EntityRole::GameRect,
            ) == 1 && menu_count(final(self)@.world.entities) == 0),
    {
        let next: Option<AppState> = self.next_state;
        self.next_state = None;
        match next {
            None => {},
            Some(s) => {
                if s != self.state {
                    if self.state == AppState::MainMenu && self.hooks.menu_on_exit {
                        crate::main_menu::despawn_main_menu(&mut self.world);
                    }
                    self.state = s;
                    match s {
                        AppState::InGame => {
                            if self.hooks.game_on_enter {
                                setup_game(&mut self.world);
                            }
                        },
                        AppState::MainMenu => {
                            if self.hooks.menu_on_enter {
                                let q: bool = self.config.quit_offered;
                                setup_main_menu(&mut self.world, q);
                            }
                        },
                    }
                }
            },
        }
        proof {
            assert(final(self)@ =~= spec_transition(old(self)@));
            if old(self)@.inv() && old(self)@.state == AppState::MainMenu && old(self)@.next_state
                == Some(AppState::InGame) && old(self)@.hooks.menu_on_exit
                && old(self)@.hooks.game_on_enter {
                let s0 = old(self)@.world.entities;
                crate::world::lemma_non_menu_role_count(s0, EntityRole::GameRect);
                crate::world::lemma_non_menu_clean(s0);
                let filtered = crate::world::non_menu(s0);
                let r = rect_entity(old(self)@.world.next_id);
                lemma_role_count_push(filtered, EntityRole::GameRect, r);
                crate::world::lemma_menu_count_push(filtered, r);
            }
        }
    }

    /// Point the pointer at the button of kind `k` (if the scene has one)
    /// and set its interaction, marking it changed when the interaction
    /// really changed. Returns whether such a button was found.
    pub fn set_button_interaction(&mut self, k: MenuButton, i: Interaction) -> (found: bool)
        requires
            old(self)@.world.wf(),
        ensures
            found <==> button_idx(old(self)@.world.entities, k) < old(
                self,
            )@.world.entities.len(),
            found <==> role_count(old(self)@.world.entities, EntityRole::Button(k)) > 0,
            !found ==> final(self)@ == old(self)@,
            found ==> final(self)@ == (AppModel {
                world: (WorldModel {
                    entities: old(self)@.world.entities.update(
                        button_idx(old(self)@.world.entities, k) as int,
                        poked_entity(
                            old(self)@.world.entities[button_idx(
                                old(self)@.world.entities,
                                k,
                            ) as int],
                            i,
                        ),
                    ),
                    next_id: old(self)@.world.next_id,
                }),
                ..old(self)@
            }),
            final(self)@.world.wf(),
    {
        let s = Ghost(self@.world.entities);
        let n: usize = self.world.entities.len();
        let mut j: usize = 0;
        while j < n
            invariant
                0 <= j <= n,
                n == s@.len(),
                s@ == self@.world.entities,
                self@ == old(self)@,
                old(self)@.world.wf(),
                forall|t: int| 0 <= t < j ==> s@[t].role != EntityRole::Button(k),
            decreases n - j,
        {
            let e = self.world.entities[j];
            let is_match: bool = match e.role {
                EntityRole::Button(kk) => kk == k,
                _ => false,
            };
            if is_match {
                let was_changed: bool = e.changed || e.interaction != i;
                self.world.entities[j] = Entity {
                    id: e.id,
                    parent: e.parent,
                    role: e.role,
                    color: e.color,
                    interaction: i,
                    changed: was_changed,
                };
                proof {
                    lemma_button_idx(s@, k);
                    crate::world::lemma_button_found(s@, k);
                    assert(button_idx(s@, k) <= j) by {
                        if button_idx(s@, k) > j {
                            assert(s@[j as int].role != EntityRole::Button(k));
                        }
                    }
                    assert(button_idx(s@, k) >= j) by {
                        if button_idx(s@, k) < j {
                            assert(s@[button_idx(s@, k) as int].role == EntityRole::Button(k));
                            assert(s@[button_idx(s@, k) as int].role != EntityRole::Button(k));
                        }
                    }
                    let s2 = self@.world.entities;
                    assert(s2 == s@.update(j as int, poked_entity(s@[j as int], i)));
                    assert(crate::world::ids_sorted(s@));
                    assert(crate::world::ids_below(s@, old(self)@.world.next_id));
                    assert(s2.len() == s@.len());
                    assert forall|i2: int| 0 <= i2 < s2.len() implies s2[i2].id == s@[i2].id by {
                        if i2 == j as int {
                            assert(s2[i2] == poked_entity(s@[i2], i));
                        } else {
                            assert(s2[i2] == s@[i2]);
                        }
                    }
                    assert forall|i2: int, j2: int|
                        0 <= i2 < j2 < s2.len() implies s2[i2].id < s2[j2].id by {
                        assert(s2[i2].id == s@[i2].id);
                        assert(s2[j2].id == s@[j2].id);
                        assert(s@[i2].id < s@[j2].id);
                    }
                    assert forall|i2: int| 0 <= i2 < s2.len() implies s2[i2].id
                        < self@.world.next_id by {
                        assert(s2[i2].id == s@[i2].id);
                        assert(s@[i2].id < old(self)@.world.next_id);
                    }
                }
                return true;
            }
            j = j + 1;
        }
        proof {
            lemma_button_idx(s@, k);
            crate::world::lemma_button_found(s@, k);
            assert(button_idx(s@, k) == n) by {
                if button_idx(s@, k) < n {
                    assert(s@[button_idx(s@, k) as int].role == EntityRole::Button(k));
                    assert(s@[button_idx(s@, k) as int].role != EntityRole::Button(k));
                }
            }
        }
        false
    }

    /// Drive one frame: while the menu is active, run the activation pass
    /// and the visual pass over this frame's interaction changes; consume
    /// the pending state request; lower every change flag. A Help press-edge
    /// aborts the frame with the unimplemented-path signal. Termination
    /// requests from earlier frames are dropped first, so afterwards
    /// `exit_events` counts exactly this frame's Quit press-edges.
    pub fn frame(&mut self) -> (r: Result<(), MenuError>)
        requires
            old(self)@.world.wf(),
            old(self)@.world.next_id + 8 <= u64::MAX,
        ensures
            match r {
                Ok(_) => !frame_aborts(old(self)@) && final(self)@ == spec_frame_ok(old(self)@)
                    && final(self)@.world.wf(),
                Err(e) => frame_aborts(old(self)@) && e == MenuError::HelpUnimplemented
                    && final(self)@ == spec_frame_err(old(self)@) && final(self)@.world.wf(),
            },
            old(self)@.inv() && r is Ok ==> final(self)@.inv(),
    {
        self.exit_events = 0;
        let in_menu: bool = self.state == AppState::MainMenu && self.hooks.menu_update;
        if in_menu {
            let n: usize = self.world.entities.len();
            proof {
                assert(self@.world.entities.len() == n);
                assert(n <= usize::MAX);
                assert(self@.world.entities.len() <= u64::MAX);
            }
            let pressed = crate::main_menu::button_on_press_system(self);
            match pressed {
                Err(e) => {
                    proof {
                        assert(final(self)@ =~= spec_frame_err(old(self)@));
                    }
                    return Err(e);
                },
                Ok(_) => {},
            }
            proof {
                let s0 = old(self)@.world.entities;
                lemma_scan_len_full(s0);
            }
            crate::main_menu::button_render_system(&mut self.world);
        }
        self.apply_next_state();
        self.world.clear_changed();
        proof {
            assert(final(self)@ =~= spec_frame_ok(old(self)@));
            if old(self)@.inv() {
                let m2 = spec_transition(
                    if old(self)@.state == AppState::MainMenu && old(self)@.hooks.menu_update {
                        AppModel {
                            next_state: if press_count(
                                old(self)@.world.entities,
                                MenuButton::Start,
                            ) > 0 {
                                Some(AppState::InGame)
                            } else {
                                old(self)@.next_state
                            },
                            exit_events: press_count(
                                old(self)@.world.entities,
                                MenuButton::Quit,
                            ) as u64,
                            world: WorldModel {
                                entities: spec_render(old(self)@.world.entities),
                                next_id: old(self)@.world.next_id,
                            },
                            ..old(self)@
                        }
                    } else {
                        AppModel { exit_events: 0, ..old(self)@ }
                    },
                );
                crate::main_menu::lemma_render_preserves_counts(
                    old(self)@.world.entities,
                    EntityRole::GameRect,
                );
                crate::world::lemma_clear_preserves_counts(
                    m2.world.entities,
                    EntityRole::GameRect,
                );
                if m2.state == AppState::MainMenu {
                    assert(role_count(m2.world.entities, EntityRole::GameRect) == 0);
                }
            }
        }
        Ok(())
    }
}

/// When the scene holds no Help press-edge, the activation pass processes
/// all of it.
pub proof fn lemma_scan_len_full(s: Seq<Entity>)
    requires
        !help_hit(s),
    ensures
        processed(s) == s,
{
    lemma_scan_len(s);
    assert(processed(s) =~= s);
}

/// Bring the application up as the program does: create it with the given
/// configuration, build the main-menu plugin on it, register the startup
/// camera and the gameplay bootstrap, and run startup. It comes up in the
/// menu showing the camera and the full button set — one Start, one Help,
/// and one Quit exactly where the target offers quitting.
pub fn boot(config: AppConfig) -> (app: App)
    ensures
        app@.config == config,
        app@.state == AppState::MainMenu,
        app@.next_state is None,
        app@.exit_events == 0,
        app@.hooks == (Hooks {
            menu_on_enter: true,
            menu_update: true,
            menu_on_exit: true,
            game_on_enter: true,
            startup_camera: true,
        }),
        app@.world.entities == seq![camera_entity(0)] + menu_entities(1, config.quit_offered),
        app@.world.next_id == 1 + menu_id_span(config.quit_offered),
        app@.world.wf(),
        app@.inv(),
        role_count(app@.world.entities, EntityRole::Button(MenuButton::Start)) == 1,
        role_count(app@.world.entities, EntityRole::Button(MenuButton::Help)) == 1,
        role_count(app@.world.entities, EntityRole::Button(MenuButton::Quit))
            == if config.quit_offered {
            1nat
        } else {
            0nat
        },
        button_count(app@.world.entities) == if config.quit_offered {
            3nat
        } else {
            2nat
        },
        role_count(app@.world.entities, EntityRole::Camera) == 1,
        role_count(app@.world.entities, EntityRole::GameRect) == 0,
{
    let mut app = App::new(config);
    let plugin = MainMenuPlugin;
    plugin.build(&mut app);
    app.add_camera_startup();
    app.add_game_setup();
    app.startup();
    proof {
        let cam = seq![camera_entity(0)];
        let menu = menu_entities(1, config.quit_offered);
        assert(app@.world.entities =~= cam + menu);
        lemma_menu_entities_counts(1, config.quit_offered);
        let e0 = Seq::<Entity>::empty();
        assert(cam =~= e0.push(camera_entity(0)));
        lemma_role_count_push(e0, EntityRole::Button(MenuButton::Start), camera_entity(0));
        lemma_role_count_push(e0, EntityRole::Button(MenuButton::Help), camera_entity(0));
        lemma_role_count_push(e0, EntityRole::Button(MenuButton::Quit), camera_entity(0));
        lemma_role_count_push(e0, EntityRole::Camera, camera_entity(0));
        lemma_role_count_push(e0, EntityRole::GameRect, camera_entity(0));
        lemma_button_count_push(e0, camera_entity(0));
        lemma_role_count_concat(cam, menu, EntityRole::Button(MenuButton::Start));
        lemma_role_count_concat(cam, menu, EntityRole::Button(MenuButton::Help));
        lemma_role_count_concat(cam, menu, EntityRole::Button(MenuButton::Quit));
        lemma_role_count_concat(cam, menu, EntityRole::Camera);
        lemma_role_count_concat(cam, menu, EntityRole::GameRect);
        lemma_button_count_concat(cam, menu);
    }
    app
}

/// Law (menu activation): in a completed frame stepped while the menu is
/// active and nothing else is pending, a press-edge on the Start button
/// moves the application into gameplay and consumes the request, and a frame
/// without one — whatever the other buttons saw — leaves it in the menu.
pub proof fn lemma_start_press_transitions(m: AppModel)
    requires
        m.inv(),
        m.state == AppState::MainMenu,
        m.hooks.menu_update,
        !help_hit(m.world.entities),
    ensures
        press_count(m.world.entities, MenuButton::Start) > 0 ==> spec_frame_ok(m).state
            == AppState::InGame && spec_frame_ok(m).next_state is None,
        press_count(m.world.entities, MenuButton::Start) == 0 && m.next_state is None
            ==> spec_frame_ok(m).state == AppState::MainMenu && spec_frame_ok(
            m,
        ).next_state is None,
{
}

/// Law (edge, not level): a frame in which no entity's interaction changed —
/// every button merely held or rested exactly as last frame — aborts on
/// nothing, requests no transition and no termination: pressing is acted on
/// once per press-edge, not repeatedly while held.
pub proof fn lemma_held_press_no_retrigger(m: AppModel)
    requires
        m.inv(),
        m.state == AppState::MainMenu,
        m.hooks.menu_update,
        m.next_state is None,
        forall|i: int| 0 <= i < m.world.entities.len() ==> !m.world.entities[i].changed,
    ensures
        !frame_aborts(m),
        spec_frame_ok(m).state == m.state,
        spec_frame_ok(m).next_state is None,
        spec_frame_ok(m).exit_events == 0,
{
    let s = m.world.entities;
    lemma_scan_len(s);
    lemma_press_count_zero(s, MenuButton::Start);
    lemma_press_count_zero(s, MenuButton::Quit);
}

/// Law (termination requests): after a completed frame in the menu,
/// `exit_events` equals exactly the number of Quit press-edges the frame
/// saw — one press-edge, one request, never more — and is zero when there
/// was none.
pub proof fn lemma_quit_exit_requests(m: AppModel)
    requires
        m.state == AppState::MainMenu,
        m.hooks.menu_update,
        !help_hit(m.world.entities),
        m.world.entities.len() <= u64::MAX,
    ensures
        spec_frame_ok(m).exit_events == press_count(m.world.entities, MenuButton::Quit),
        (forall|i: int|
            0 <= i < m.world.entities.len() ==> !press_of(
                m.world.entities[i],
                MenuButton::Quit,
            )) ==> spec_frame_ok(m).exit_events == 0,
{
    let s = m.world.entities;
    crate::main_menu::lemma_press_count_le_len(s, MenuButton::Quit);
    lemma_press_count_zero(s, MenuButton::Quit);
}

/// Law (entering gameplay, leaving the menu): consuming a pending request to
/// enter gameplay from the menu leaves exactly one placeholder rectangle in
/// the scene, zero menu-created entities — not one entity of the scene is
/// menu-owned afterwards — and the camera untouched.
pub proof fn lemma_menu_to_game_transition(m: AppModel)
    requires
        m.inv(),
        m.state == AppState::MainMenu,
        m.next_state == Some(AppState::InGame),
        m.hooks.menu_on_exit,
        m.hooks.game_on_enter,
    ensures
        spec_transition(m).state == AppState::InGame,
        spec_transition(m).next_state is None,
        role_count(spec_transition(m).world.entities, EntityRole::GameRect) == 1,
        menu_count(spec_transition(m).world.entities) == 0,
        forall|i: int|
            0 <= i < spec_transition(m).world.entities.len() ==> !crate::world::menu_owned(
                spec_transition(m).world.entities[i].role,
            ),
        role_count(spec_transition(m).world.entities, EntityRole::Camera) == role_count(
            m.world.entities,
            EntityRole::Camera,
        ),
{
    let s = m.world.entities;
    crate::world::lemma_menu_count_zero(spec_transition(m).world.entities);
    crate::world::lemma_non_menu_role_count(s, EntityRole::GameRect);
    crate::world::lemma_non_menu_role_count(s, EntityRole::Camera);
    crate::world::lemma_non_menu_clean(s);
    let filtered = non_menu(s);
    let r = rect_entity(m.world.next_id);
    lemma_role_count_push(filtered, EntityRole::GameRect, r);
    lemma_role_count_push(filtered, EntityRole::Camera, r);
    lemma_menu_count_push(filtered, r);
}

/// Law (the Start press, end to end): a frame stepped in the menu that sees
/// a press-edge on a Start button — and no Help press-edge — completes,
/// enters gameplay, tears the whole menu down, and leaves exactly one
/// placeholder rectangle in the scene.
pub proof fn lemma_start_press_frame(m: AppModel, i: int)
    requires
        m.inv(),
        m.state == AppState::MainMenu,
        m.hooks.menu_update,
        m.hooks.menu_on_exit,
        m.hooks.game_on_enter,
        0 <= i < m.world.entities.len(),
        press_of(m.world.entities[i], MenuButton::Start),
        forall|j: int|
            0 <= j < m.world.entities.len() ==> !press_of(
                m.world.entities[j],
                MenuButton::Help,
            ),
    ensures
        !frame_aborts(m),
        spec_frame_ok(m).state == AppState::InGame,
        spec_frame_ok(m).next_state is None,
        role_count(spec_frame_ok(m).world.entities, EntityRole::GameRect) == 1,
        menu_count(spec_frame_ok(m).world.entities) == 0,
{
    let s = m.world.entities;
    lemma_scan_len(s);
    assert(!help_hit(s)) by {
        if crate::main_menu::scan_len(s) < s.len() {
            assert(press_of(s[crate::main_menu::scan_len(s) as int], MenuButton::Help));
            assert(!press_of(s[crate::main_menu::scan_len(s) as int], MenuButton::Help));
        }
    }
    lemma_press_count_zero(s, MenuButton::Start);
    assert(press_count(s, MenuButton::Start) > 0) by {
        if press_count(s, MenuButton::Start) == 0 {
            assert(!press_of(s[i], MenuButton::Start));
        }
    }
    let s1 = spec_render(s);
    crate::main_menu::lemma_render_preserves_counts(s, EntityRole::GameRect);
    crate::world::lemma_non_menu_role_count(s1, EntityRole::GameRect);
    crate::world::lemma_non_menu_clean(s1);
    let filtered = non_menu(s1);
    let r = rect_entity(m.world.next_id);
    lemma_role_count_push(filtered, EntityRole::GameRect, r);
    lemma_menu_count_push(filtered, r);
    crate::world::lemma_clear_preserves_counts(filtered.push(r), EntityRole::GameRect);
}

} // verus!
