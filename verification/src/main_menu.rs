//! The main-menu plugin: the button tags, the systems that build the menu,
//! react to pointer interaction, and tear the menu down, and the plugin type
//! that registers them on an application.

use crate::game::{App, AppModel, AppState, Hooks};
use crate::ui::{
    render_color, Interaction, BACKDROP_COLOR, BUTTON_COLOR, BUTTON_HOVER_COLOR, MENU_COLOR,
    TEXT_COLOR,
};
use crate::world::{
    lemma_button_count_push, lemma_menu_count_push, lemma_non_menu_clean,
    lemma_non_menu_preserves_wf, lemma_role_count_push, menu_owned, non_menu, Entity, EntityRole,
    World,
};
use vstd::prelude::*;

verus! {

/// Role tag of a menu button: which action a press of it requests.
#[derive(Clone, Copy, Debug, PartialEq, Eq, Structural)]
pub enum MenuButton {
    Help,
    Start,
    Quit,
}

/// The one failure the menu can signal: the Help button's action is
/// deliberately unbuilt, and pressing it must flag that loudly rather than
/// pass silently.
#[derive(Clone, Copy, Debug, PartialEq, Eq, Structural)]
pub enum MenuError {
    HelpUnimplemented,
}

impl MenuButton {
    /// The label shown on this button.
    pub fn label_text(&self) -> (s: &'static str)
        ensures
            self is Start ==> s@ == "Start"@,
            self is Help ==> s@ == "Help"@,
            self is Quit ==> s@ == "Quit"@,
    {
        match self {
            MenuButton::Start => "Start",
            MenuButton::Help => "Help",
            MenuButton::Quit => "Quit",
        }
    }
}

/// The full-viewport centered container behind the menu.
pub open spec fn root_entity(id: u64) -> Entity {
    Entity {
        id: id,
        parent: None,
        role: EntityRole::MenuRoot,
        color: BACKDROP_COLOR,
        interaction: Interaction::Idle,
        changed: false,
    }
}

/// The bordered, padded panel holding the buttons.
pub open spec fn panel_entity(id: u64, parent: u64) -> Entity {
    Entity {
        id: id,
        parent: Some(parent),
        role: EntityRole::MenuPanel,
        color: MENU_COLOR,
        interaction: Interaction::Idle,
        changed: false,
    }
}

/// A button of kind `k`, resting on its base color.
pub open spec fn button_entity(id: u64, parent: u64, k: MenuButton) -> Entity {
    Entity {
        id: id,
        parent: Some(parent),
        role: EntityRole::Button(k),
        color: BUTTON_COLOR,
        interaction: Interaction::Idle,
        changed: false,
    }
}

/// The centered label inside the button of kind `k`.
pub open spec fn label_entity(id: u64, parent: u64, k: MenuButton) -> Entity {
    Entity {
        id: id,
        parent: Some(parent),
        role: EntityRole::Label(k),
        color: TEXT_COLOR,
        interaction: Interaction::Idle,
        changed: false,
    }
}

/// How many ids building the menu consumes: two per button plus the root and
/// the panel.
pub open spec fn menu_id_span(quit_offered: bool) -> u64 {
    if quit_offered {
        8
    } else {
        6
    }
}

/// The exact entities the menu builder creates, in spawn order, with ids
/// starting at `first`: root, panel, a Start and a Help button each followed
/// by its label, and — only where a Quit action is offered — a Quit button
/// and its label.
pub open spec fn menu_entities(first: u64, quit_offered: bool) -> Seq<Entity> {
    let base = seq![
        root_entity(first),
        panel_entity((first + 1) as u64, first),
        button_entity((first + 2) as u64, (first + 1) as u64, MenuButton::Start),
        label_entity((first + 3) as u64, (first + 2) as u64, MenuButton::Start),
        button_entity((first + 4) as u64, (first + 1) as u64, MenuButton::Help),
        label_entity((first + 5) as u64, (first + 4) as u64, MenuButton::Help),
    ];
    if quit_offered {
        base + seq![
            button_entity((first + 6) as u64, (first + 1) as u64, MenuButton::Quit),
            label_entity((first + 7) as u64, (first + 6) as u64, MenuButton::Quit),
        ]
    } else {
        base
    }
}

/// Counting the menu builder's output: one button of each offered kind, two
/// or three buttons in all, everything menu-owned, and ids consecutive from
/// `first`.
pub proof fn lemma_menu_entities_counts(first: u64, quit_offered: bool)
    requires
        first + 8 <= u64::MAX,
    ensures
        menu_entities(first, quit_offered).len() == menu_id_span(quit_offered),
        crate::world::role_count(
            menu_entities(first, quit_offered),
            EntityRole::Button(MenuButton::Start),
        ) == 1,
        crate::world::role_count(
            menu_entities(first, quit_offered),
            EntityRole::Button(MenuButton::Help),
        ) == 1,
        crate::world::role_count(
            menu_entities(first, quit_offered),
            EntityRole::Button(MenuButton::Quit),
        ) == if quit_offered {
            1nat
        } else {
            0nat
        },
        crate::world::button_count(menu_entities(first, quit_offered)) == if quit_offered {
            3nat
        } else {
            2nat
        },
        crate::world::menu_count(menu_entities(first, quit_offered)) == menu_id_span(quit_offered),
        crate::world::role_count(menu_entities(first, quit_offered), EntityRole::GameRect) == 0,
        crate::world::role_count(menu_entities(first, quit_offered), EntityRole::Camera) == 0,
        forall|i: int|
            0 <= i < menu_entities(first, quit_offered).len() ==> menu_entities(
                first,
                quit_offered,
            )[i].id == first + i,
{
    let e0 = root_entity(first);
    let e1 = panel_entity((first + 1) as u64, first);
    let e2 = button_entity((first + 2) as u64, (first + 1) as u64, MenuButton::Start);
    let e3 = label_entity((first + 3) as u64, (first + 2) as u64, MenuButton::Start);
    let e4 = button_entity((first + 4) as u64, (first + 1) as u64, MenuButton::Help);
    let e5 = label_entity((first + 5) as u64, (first + 4) as u64, MenuButton::Help);
    let e6 = button_entity((first + 6) as u64, (first + 1) as u64, MenuButton::Quit);
    let e7 = label_entity((first + 7) as u64, (first + 6) as u64, MenuButton::Quit);
    let s0 = Seq::<Entity>::empty();
    let s1 = s0.push(e0);
    let s2 = s1.push(e1);
    let s3 = s2.push(e2);
    let s4 = s3.push(e3);
    let s5 = s4.push(e4);
    let s6 = s5.push(e5);
    let s7 = s6.push(e6);
    let s8 = s7.push(e7);
    lemma_all_counts_push(s0, e0);
    lemma_all_counts_push(s1, e1);
    lemma_all_counts_push(s2, e2);
    lemma_all_counts_push(s3, e3);
    lemma_all_counts_push(s4, e4);
    lemma_all_counts_push(s5, e5);
    lemma_all_counts_push(s6, e6);
    lemma_all_counts_push(s7, e7);
    if quit_offered {
        assert(menu_entities(first, quit_offered) =~= s8);
    } else {
        assert(menu_entities(first, quit_offered) =~= s6);
    }
}

/// All the push-step count equations at once, for chaining.
proof fn lemma_all_counts_push(s: Seq<Entity>, e: Entity)
    ensures
        crate::world::role_count(s.push(e), EntityRole::Button(MenuButton::Start))
            == crate::world::role_count(s, EntityRole::Button(MenuButton::Start)) + if e.role
            == EntityRole::Button(MenuButton::Start) {
            1nat
        } else {
            0nat
        },
        crate::world::role_count(s.push(e), EntityRole::Button(MenuButton::Help))
            == crate::world::role_count(s, EntityRole::Button(MenuButton::Help)) + if e.role
            == EntityRole::Button(MenuButton::Help) {
            1nat
        } else {
            0nat
        },
        crate::world::role_count(s.push(e), EntityRole::Button(MenuButton::Quit))
            == crate::world::role_count(s, EntityRole::Button(MenuButton::Quit)) + if e.role
            == EntityRole::Button(MenuButton::Quit) {
            1nat
        } else {
            0nat
        },
        crate::world::role_count(s.push(e), EntityRole::GameRect) == crate::world::role_count(
            s,
            EntityRole::GameRect,
        ) + if e.role == EntityRole::GameRect {
            1nat
        } else {
            0nat
        },
        crate::world::role_count(s.push(e), EntityRole::Camera) == crate::world::role_count(
            s,
            EntityRole::Camera,
        ) + if e.role == EntityRole::Camera {
            1nat
        } else {
            0nat
        },
        crate::world::button_count(s.push(e)) == crate::world::button_count(s) + if e.role
            is Button {
            1nat
        } else {
            0nat
        },
        crate::world::menu_count(s.push(e)) == crate::world::menu_count(s) + if menu_owned(
            e.role,
        ) {
            1nat
        } else {
            0nat
        },
{
    lemma_role_count_push(s, EntityRole::Button(MenuButton::Start), e);
    lemma_role_count_push(s, EntityRole::Button(MenuButton::Help), e);
    lemma_role_count_push(s, EntityRole::Button(MenuButton::Quit), e);
    lemma_role_count_push(s, EntityRole::GameRect, e);
    lemma_role_count_push(s, EntityRole::Camera, e);
    lemma_button_count_push(s, e);
    lemma_menu_count_push(s, e);
}

/// Spawn one button of kind `menu_button` under `parent`, with its centered
/// label as a child, and return the button's id.
pub fn create_button(world: &mut World, parent: u64, menu_button: MenuButton) -> (id: u64)
    requires
        old(world)@.wf(),
        old(world)@.next_id + 2 <= u64::MAX,
    ensures
        id == old(world)@.next_id,
        final(world)@.entities == old(world)@.entities.push(
            button_entity(old(world)@.next_id, parent, menu_button),
        ).push(
            label_entity((old(world)@.next_id + 1) as u64, old(world)@.next_id, menu_button),
        ),
        final(world)@.next_id == old(world)@.next_id + 2,
        final(world)@.wf(),
{
    let id: u64 = world.spawn(Some(parent), EntityRole::Button(menu_button), BUTTON_COLOR);
    world.spawn(Some(id), EntityRole::Label(menu_button), TEXT_COLOR);
    id
}

/// Spawn the menu panel under `parent` and return its id.
pub fn create_menu(world: &mut World, parent: u64) -> (id: u64)
    requires
        old(world)@.wf(),
        old(world)@.next_id < u64::MAX,
    ensures
        id == old(world)@.next_id,
        final(world)@.entities == old(world)@.entities.push(
            panel_entity(old(world)@.next_id, parent),
        ),
        final(world)@.next_id == old(world)@.next_id + 1,
        final(world)@.wf(),
{
    world.spawn(Some(parent), EntityRole::MenuPanel, MENU_COLOR)
}

/// Build the whole menu on entering the menu state: the backdrop container,
/// the panel, and the buttons — Quit only where the target offers it.
pub fn setup_main_menu(world: &mut World, quit_offered: bool)
    requires
        old(world)@.wf(),
        old(world)@.next_id + 8 <= u64::MAX,
    ensures
        final(world)@.entities == old(world)@.entities + menu_entities(
            old(world)@.next_id,
            quit_offered,
        ),
        final(world)@.next_id == old(world)@.next_id + menu_id_span(quit_offered),
        final(world)@.wf(),
{
    let root: u64 = world.spawn(None, EntityRole::MenuRoot, BACKDROP_COLOR);
    let panel: u64 = create_menu(world, root);
    create_button(world, panel, MenuButton::Start);
    create_button(world, panel, MenuButton::Help);
    if quit_offered {
        create_button(world, panel, MenuButton::Quit);
    }
    proof {
        assert(final(world)@.entities =~= old(world)@.entities + menu_entities(
            old(world)@.next_id,
            quit_offered,
        ));
    }
}

/// Tear the menu down on leaving the menu state: despawn every entity the
/// menu created — and only those, so the camera and any gameplay entities
/// survive.
pub fn despawn_main_menu(world: &mut World)
    requires
        old(world)@.wf(),
    ensures
        final(world)@.entities == non_menu(old(world)@.entities),
        final(world)@.next_id == old(world)@.next_id,
        final(world)@.wf(),
        crate::world::menu_count(final(world)@.entities) == 0,
{
    let s = Ghost(world@.entities);
    let n: usize = world.entities.len();
    let mut kept: Vec<Entity> = Vec::new();
    let mut i: usize = 0;
    while i < n
        invariant
            0 <= i <= n,
            n == s@.len(),
            s@ == world@.entities,
            kept@ == non_menu(s@.take(i as int)),
        decreases n - i,
    {
        proof {
            assert(s@.take(i + 1) =~= s@.take(i as int).push(s@[i as int]));
            crate::world::lemma_non_menu_push(s@.take(i as int), s@[i as int]);
        }
        let e = world.entities[i];
        if !crate::world::is_menu_owned(e.role) {
            kept.push(e);
        }
        i = i + 1;
    }
    proof {
        assert(s@.take(n as int) =~= s@);
        lemma_non_menu_clean(s@);
        lemma_non_menu_preserves_wf(s@, old(world)@.next_id);
    }
    world.entities = kept;
}

/// What the per-frame visual pass makes of one entity: a button whose
/// interaction changed takes the color the interaction calls for; everything
/// else is left alone.
pub open spec fn rendered_entity(e: Entity) -> Entity {
    if e.changed && e.role is Button {
        Entity {
            id: e.id,
            parent: e.parent,
            role: e.role,
            color: render_color(e.interaction, e.color),
            interaction: e.interaction,
            changed: e.changed,
        }
    } else {
        e
    }
}

/// The visual pass over the whole scene.
pub open spec fn spec_render(s: Seq<Entity>) -> Seq<Entity> {
    Seq::new(s.len(), |i: int| rendered_entity(s[i]))
}

/// The visual pass touches only colors, so no count moves.
pub proof fn lemma_render_preserves_counts(s: Seq<Entity>, r: EntityRole)
    ensures
        spec_render(s).len() == s.len(),
        crate::world::role_count(spec_render(s), r) == crate::world::role_count(s, r),
        crate::world::menu_count(spec_render(s)) == crate::world::menu_count(s),
        crate::world::button_count(spec_render(s)) == crate::world::button_count(s),
    decreases s.len(),
{
    if s.len() > 0 {
        let t = s.drop_last();
        lemma_render_preserves_counts(t, r);
        assert(spec_render(s).drop_last() =~= spec_render(t));
        assert(spec_render(s).last() == rendered_entity(s.last()));
    }
}

/// Per-frame visual feedback, run while the menu is active: every button
/// whose interaction changed this frame is recolored by [`render_color`] —
/// hover color under the pointer, base color when left, no change while
/// pressed.
pub fn button_render_system(world: &mut World)
    requires
        old(world)@.wf(),
    ensures
        final(world)@.entities == spec_render(old(world)@.entities),
        final(world)@.next_id == old(world)@.next_id,
        final(world)@.wf(),
{
    let s = Ghost(world@.entities);
    let n: usize = world.entities.len();
    let mut out: Vec<Entity> = Vec::new();
    let mut i: usize = 0;
    while i < n
        invariant
            0 <= i <= n,
            n == s@.len(),
            s@ == world@.entities,
            out@.len() == i,
            forall|j: int| 0 <= j < i ==> out@[j] == rendered_entity(s@[j]),
        decreases n - i,
    {
        let e = world.entities[i];
        let is_btn: bool = match e.role {
            EntityRole::Button(_) => true,
            _ => false,
        };
        if e.changed && is_btn {
            let c: u32 = match e.interaction {
                Interaction::Hovered => BUTTON_HOVER_COLOR,
                Interaction::Idle => BUTTON_COLOR,
                Interaction::Pressed => e.color,
            };
            out.push(
                Entity {
                    id: e.id,
                    parent: e.parent,
                    role: e.role,
                    color: c,
                    interaction: e.interaction,
                    changed: e.changed,
                },
            );
        } else {
            out.push(e);
        }
        i = i + 1;
    }
    world.entities = out;
    proof {
        assert(world@.entities =~= spec_render(s@));
        assert forall|i2: int, j2: int|
            0 <= i2 < j2 < world@.entities.len() implies world@.entities[i2].id
            < world@.entities[j2].id by {
            assert(world@.entities[i2].id == s@[i2].id);
            assert(world@.entities[j2].id == s@[j2].id);
        }
        assert forall|i2: int| 0 <= i2 < world@.entities.len() implies world@.entities[i2].id
            < world@.next_id by {
            assert(world@.entities[i2].id == s@[i2].id);
        }
    }
}

/// A press-edge: the entity's interaction changed this frame and now reads
/// `Pressed`.
pub open spec fn pressed_edge(e: Entity) -> bool {
    e.changed && e.interaction == Interaction::Pressed
}

/// A press-edge on the button of kind `k`.
pub open spec fn press_of(e: Entity, k: MenuButton) -> bool {
    pressed_edge(e) && e.role == EntityRole::Button(k)
}

/// Number of press-edges on buttons of kind `k` in `s`.
pub open spec fn press_count(s: Seq<Entity>, k: MenuButton) -> nat
    decreases s.len(),
{
    if s.len() == 0 {
        0
    } else {
        press_count(s.drop_last(), k) + if press_of(s.last(), k) {
            1nat
        } else {
            0nat
        }
    }
}

pub proof fn lemma_press_count_push(s: Seq<Entity>, k: MenuButton, e: Entity)
    ensures
        press_count(s.push(e), k) == press_count(s, k) + if press_of(e, k) {
            1nat
        } else {
            0nat
        },
{
    assert(s.push(e).drop_last() =~= s);
    assert(s.push(e).last() == e);
}

pub proof fn lemma_press_count_le_len(s: Seq<Entity>, k: MenuButton)
    ensures
        press_count(s, k) <= s.len(),
    decreases s.len(),
{
    if s.len() > 0 {
        lemma_press_count_le_len(s.drop_last(), k);
    }
}

/// The press count is zero exactly when no entity carries a press-edge of
/// kind `k` — in particular, a button merely held down (pressed but not
/// changed this frame) contributes nothing.
pub proof fn lemma_press_count_zero(s: Seq<Entity>, k: MenuButton)
    ensures
        press_count(s, k) == 0 <==> (forall|i: int| 0 <= i < s.len() ==> !press_of(s[i], k)),
    decreases s.len(),
{
    if s.len() > 0 {
        lemma_press_count_zero(s.drop_last(), k);
        assert(forall|i: int| 0 <= i < s.len() - 1 ==> s.drop_last()[i] == s[i]);
        if press_count(s, k) == 0 {
            assert(!press_of(s.last(), k));
            assert forall|i: int| 0 <= i < s.len() implies !press_of(s[i], k) by {
                if i < s.len() - 1 {
                    assert(s.drop_last()[i] == s[i]);
                } else {
                    assert(s[i] == s.last());
                }
            }
        }
    }
}

/// How far the activation pass gets before it meets a press-edge on the Help
/// button: the index of the first such entity, or `s.len()` if there is none.
pub open spec fn scan_len(s: Seq<Entity>) -> nat
    decreases s.len(),
{
    if s.len() == 0 {
        0
    } else if press_of(s.first(), MenuButton::Help) {
        0
    } else {
        scan_len(s.drop_first()) + 1
    }
}

/// Whether the activation pass meets a Help press-edge at all.
pub open spec fn help_hit(s: Seq<Entity>) -> bool {
    scan_len(s) < s.len()
}

/// The entities the activation pass processes: everything before the first
/// Help press-edge, or all of `s` if there is none.
pub open spec fn processed(s: Seq<Entity>) -> Seq<Entity> {
    s.take(scan_len(s) as int)
}

pub proof fn lemma_scan_len(s: Seq<Entity>)
    ensures
        scan_len(s) <= s.len(),
        forall|i: int| 0 <= i < scan_len(s) ==> !press_of(s[i], MenuButton::Help),
        scan_len(s) < s.len() ==> press_of(s[scan_len(s) as int], MenuButton::Help),
    decreases s.len(),
{
    if s.len() > 0 && !press_of(s.first(), MenuButton::Help) {
        lemma_scan_len(s.drop_first());
        assert(forall|i: int| 0 <= i < s.len() - 1 ==> s.drop_first()[i] == s[i + 1]);
        assert forall|i: int| 0 <= i < scan_len(s) implies !press_of(s[i], MenuButton::Help) by {
            if i > 0 {
                assert(s.drop_first()[i - 1] == s[i]);
            }
        }
    }
}

/// Per-frame activation, run while the menu is active: for each press-edge,
/// in scene order, dispatch by the button's tag. Start requests the
/// transition into gameplay; Quit records one termination request; Help is
/// deliberately unbuilt and stops the pass with the unimplemented-path
/// signal, leaving everything after it unprocessed.
pub fn button_on_press_system(app: &mut App) -> (r: Result<(), MenuError>)
    requires
        old(app)@.exit_events + old(app)@.world.entities.len() <= u64::MAX,
    ensures
        final(app)@.world == old(app)@.world,
        final(app)@.state == old(app)@.state,
        final(app)@.config == old(app)@.config,
        final(app)@.hooks == old(app)@.hooks,
        match r {
            Ok(_) => !help_hit(old(app)@.world.entities),
            Err(e) => help_hit(old(app)@.world.entities) && e == MenuError::HelpUnimplemented,
        },
        final(app)@.exit_events == old(app)@.exit_events + press_count(
            processed(old(app)@.world.entities),
            MenuButton::Quit,
        ),
        final(app)@.next_state == if press_count(
            processed(old(app)@.world.entities),
            MenuButton::Start,
        ) > 0 {
            Some(AppState::InGame)
        } else {
            old(app)@.next_state
        },
{
    let s = Ghost(app@.world.entities);
    let n: usize = app.world.entities.len();
    let mut i: usize = 0;
    while i < n
        invariant
            0 <= i <= n,
            n == s@.len(),
            s@ == app@.world.entities,
            app@.world == old(app)@.world,
            app@.state == old(app)@.state,
            app@.config == old(app)@.config,
            app@.hooks == old(app)@.hooks,
            old(app)@.exit_events + s@.len() <= u64::MAX,
            forall|j: int| 0 <= j < i ==> !press_of(s@[j], MenuButton::Help),
            app@.exit_events == old(app)@.exit_events + press_count(
                s@.take(i as int),
                MenuButton::Quit,
            ),
            app@.next_state == if press_count(s@.take(i as int), MenuButton::Start) > 0 {
                Some(AppState::InGame)
            } else {
                old(app)@.next_state
            },
        decreases n - i,
    {
        proof {
            assert(s@.take(i + 1) =~= s@.take(i as int).push(s@[i as int]));
            lemma_press_count_push(s@.take(i as int), MenuButton::Start, s@[i as int]);
            lemma_press_count_push(s@.take(i as int), MenuButton::Quit, s@[i as int]);
            lemma_press_count_le_len(s@.take(i as int), MenuButton::Quit);
        }
        let e = app.world.entities[i];
        let pressed_now: bool = e.changed && match e.interaction {
            Interaction::Pressed => true,
            _ => false,
        };
        if pressed_now {
            match e.role {
                EntityRole::Button(MenuButton::Start) => {
                    app.next_state = Some(AppState::InGame);
                },
                EntityRole::Button(MenuButton::Help) => {
                    proof {
                        lemma_scan_len(s@);
                        assert(press_of(s@[i as int], MenuButton::Help));
                        assert(scan_len(s@) <= i) by {
                            if scan_len(s@) > i {
                                assert(!press_of(s@[i as int], MenuButton::Help));
                            }
                        }
                        assert(scan_len(s@) >= i) by {
                            if scan_len(s@) < i {
                                assert(press_of(s@[scan_len(s@) as int], MenuButton::Help));
                                assert(!press_of(s@[scan_len(s@) as int], MenuButton::Help));
                            }
                        }
                        assert(processed(s@) == s@.take(i as int));
                    }
                    return Err(MenuError::HelpUnimplemented);
                },
                EntityRole::Button(MenuButton::Quit) => {
                    app.exit_events = app.exit_events + 1;
                },
                _ => {},
            }
        }
        i = i + 1;
    }
    proof {
        lemma_scan_len(s@);
        assert(scan_len(s@) == s@.len()) by {
            if scan_len(s@) < s@.len() {
                assert(press_of(s@[scan_len(s@) as int], MenuButton::Help));
                assert(!press_of(s@[scan_len(s@) as int], MenuButton::Help));
            }
        }
        assert(processed(s@) =~= s@);
        assert(s@.take(n as int) =~= s@);
    }
    Ok(())
}

/// The main-menu plugin: carries no state of its own; building it on an
/// application registers the menu's three lifecycle systems.
pub struct MainMenuPlugin;

impl MainMenuPlugin {
    /// Register the menu systems: build the menu on entering the menu state,
    /// run the button systems every frame while it is active, tear the menu
    /// down on leaving it.
    pub fn build(&self, app: &mut App)
        ensures
            final(app)@ == (AppModel {
                hooks: (Hooks {
                    menu_on_enter: true,
                    menu_update: true,
                    menu_on_exit: true,
                    ..old(app)@.hooks
                }),
                ..old(app)@
            }),
    {
        app.hooks.menu_on_enter = true;
        app.hooks.menu_update = true;
        app.hooks.menu_on_exit = true;
    }
}

} // verus!
