//! The scene: a flat list of owned entities, each tagged with the role it
//! plays, in spawn order with strictly increasing ids. Spec-level counts over
//! the list and the filter that removes the menu's own entities live here,
//! with the lemmas that the systems' proofs lean on.

use crate::main_menu::MenuButton;
use crate::ui::Interaction;
use vstd::prelude::*;

verus! {

/// What an entity is for: the startup camera, the pieces of the main menu
/// (root container, panel, a button and its label, tagged by button kind), or
/// the gameplay placeholder rectangle.
#[derive(Clone, Copy, Debug, PartialEq, Eq, Structural)]
pub enum EntityRole {
    Camera,
    MenuRoot,
    MenuPanel,
    Button(MenuButton),
    Label(MenuButton),
    GameRect,
}

/// Whether the menu created entities of this role, and teardown must remove
/// them. The camera and the gameplay rectangle are not the menu's to delete.
pub open spec fn menu_owned(r: EntityRole) -> bool {
    match r {
        EntityRole::MenuRoot => true,
        EntityRole::MenuPanel => true,
        EntityRole::Button(_) => true,
        EntityRole::Label(_) => true,
        EntityRole::Camera => false,
        EntityRole::GameRect => false,
    }
}

/// Executable twin of [`menu_owned`].
pub fn is_menu_owned(r: EntityRole) -> (b: bool)
    ensures
        b == menu_owned(r),
{
    match r {
        EntityRole::MenuRoot => true,
        EntityRole::MenuPanel => true,
        EntityRole::Button(_) => true,
        EntityRole::Label(_) => true,
        EntityRole::Camera => false,
        EntityRole::GameRect => false,
    }
}

/// One scene entity: its id, its parent in the widget tree (the camera, the
/// menu root and the rectangle have none), its role, its background color
/// (packed sRGB), its pointer-interaction state, and whether that state
/// changed since the last frame.
#[derive(Clone, Copy, Debug)]
pub struct Entity {
    pub id: u64,
    pub parent: Option<u64>,
    pub role: EntityRole,
    pub color: u32,
    pub interaction: Interaction,
    pub changed: bool,
}

/// Number of entities of exactly role `r` in `s`.
pub open spec fn role_count(s: Seq<Entity>, r: EntityRole) -> nat
    decreases s.len(),
{
    if s.len() == 0 {
        0
    } else {
        role_count(s.drop_last(), r) + if s.last().role == r {
            1nat
        } else {
            0nat
        }
    }
}

/// Number of menu-owned entities in `s`.
pub open spec fn menu_count(s: Seq<Entity>) -> nat
    decreases s.len(),
{
    if s.len() == 0 {
        0
    } else {
        menu_count(s.drop_last()) + if menu_owned(s.last().role) {
            1nat
        } else {
            0nat
        }
    }
}

/// Number of buttons (of any kind) in `s`.
pub open spec fn button_count(s: Seq<Entity>) -> nat
    decreases s.len(),
{
    if s.len() == 0 {
        0
    } else {
        button_count(s.drop_last()) + if s.last().role is Button {
            1nat
        } else {
            0nat
        }
    }
}

/// `s` with every menu-owned entity removed, order kept.
pub open spec fn non_menu(s: Seq<Entity>) -> Seq<Entity>
    decreases s.len(),
{
    if s.len() == 0 {
        s
    } else if menu_owned(s.last().role) {
        non_menu(s.drop_last())
    } else {
        non_menu(s.drop_last()).push(s.last())
    }
}

/// `e` with its interaction set to `i`; the entity counts as changed if it
/// already did or if the new interaction differs from the old.
pub open spec fn poked_entity(e: Entity, i: Interaction) -> Entity {
    Entity {
        id: e.id,
        parent: e.parent,
        role: e.role,
        color: e.color,
        interaction: i,
        changed: e.changed || i != e.interaction,
    }
}

/// `e` with its change flag lowered, as happens to every entity when a frame
/// ends.
pub open spec fn cleared_entity(e: Entity) -> Entity {
    Entity {
        id: e.id,
        parent: e.parent,
        role: e.role,
        color: e.color,
        interaction: e.interaction,
        changed: false,
    }
}

/// `s` with every change flag lowered.
pub open spec fn spec_clear(s: Seq<Entity>) -> Seq<Entity> {
    Seq::new(s.len(), |i: int| cleared_entity(s[i]))
}

/// Index of the first button of kind `k` in `s`, or `s.len()` if there is
/// none.
pub open spec fn button_idx(s: Seq<Entity>, k: MenuButton) -> nat
    decreases s.len(),
{
    if s.len() == 0 {
        0
    } else if s.first().role == EntityRole::Button(k) {
        0
    } else {
        button_idx(s.drop_first(), k) + 1
    }
}

pub proof fn lemma_button_idx(s: Seq<Entity>, k: MenuButton)
    ensures
        button_idx(s, k) <= s.len(),
        forall|i: int| 0 <= i < button_idx(s, k) ==> s[i].role != EntityRole::Button(k),
        button_idx(s, k) < s.len() ==> s[button_idx(s, k) as int].role == EntityRole::Button(k),
    decreases s.len(),
{
    if s.len() > 0 && s.first().role != EntityRole::Button(k) {
        lemma_button_idx(s.drop_first(), k);
        assert(forall|i: int| 0 <= i < s.len() - 1 ==> s.drop_first()[i] == s[i + 1]);
        assert forall|i: int| 0 <= i < button_idx(s, k) implies s[i].role != EntityRole::Button(
            k,
        ) by {
            if i > 0 {
                assert(s.drop_first()[i - 1] == s[i]);
            }
        }
    }
}

/// Clearing change flags touches neither roles nor interactions, so no count
/// moves.
pub proof fn lemma_clear_preserves_counts(s: Seq<Entity>, r: EntityRole)
    ensures
        spec_clear(s).len() == s.len(),
        role_count(spec_clear(s), r) == role_count(s, r),
        menu_count(spec_clear(s)) == menu_count(s),
        button_count(spec_clear(s)) == button_count(s),
    decreases s.len(),
{
    if s.len() > 0 {
        let t = s.drop_last();
        lemma_clear_preserves_counts(t, r);
        assert(spec_clear(s).drop_last() =~= spec_clear(t));
        assert(spec_clear(s).last() == cleared_entity(s.last()));
    }
}

/// Entity ids strictly increase along `s`.
pub open spec fn ids_sorted(s: Seq<Entity>) -> bool {
    forall|i: int, j: int| 0 <= i < j < s.len() ==> s[i].id < s[j].id
}

/// Every entity id in `s` is below `b`.
pub open spec fn ids_below(s: Seq<Entity>, b: u64) -> bool {
    forall|i: int| 0 <= i < s.len() ==> s[i].id < b
}

pub proof fn lemma_role_count_push(s: Seq<Entity>, r: EntityRole, e: Entity)
    ensures
        role_count(s.push(e), r) == role_count(s, r) + if e.role == r {
            1nat
        } else {
            0nat
        },
{
    assert(s.push(e).drop_last() =~= s);
    assert(s.push(e).last() == e);
}

pub proof fn lemma_menu_count_push(s: Seq<Entity>, e: Entity)
    ensures
        menu_count(s.push(e)) == menu_count(s) + if menu_owned(e.role) {
            1nat
        } else {
            0nat
        },
{
    assert(s.push(e).drop_last() =~= s);
    assert(s.push(e).last() == e);
}

pub proof fn lemma_button_count_push(s: Seq<Entity>, e: Entity)
    ensures
        button_count(s.push(e)) == button_count(s) + if e.role is Button {
            1nat
        } else {
            0nat
        },
{
    assert(s.push(e).drop_last() =~= s);
    assert(s.push(e).last() == e);
}

pub proof fn lemma_non_menu_push(s: Seq<Entity>, e: Entity)
    ensures
        non_menu(s.push(e)) == if menu_owned(e.role) {
            non_menu(s)
        } else {
            non_menu(s).push(e)
        },
{
    assert(s.push(e).drop_last() =~= s);
    assert(s.push(e).last() == e);
}

/// The role count is zero exactly when no entity of the list has the role.
pub proof fn lemma_role_count_zero(s: Seq<Entity>, r: EntityRole)
    ensures
        role_count(s, r) == 0 <==> (forall|i: int| 0 <= i < s.len() ==> s[i].role != r),
    decreases s.len(),
{
    if s.len() > 0 {
        lemma_role_count_zero(s.drop_last(), r);
        assert(forall|i: int| 0 <= i < s.len() - 1 ==> s.drop_last()[i] == s[i]);
        if role_count(s, r) == 0 {
            assert(s.last().role != r);
            assert forall|i: int| 0 <= i < s.len() implies s[i].role != r by {
                if i < s.len() - 1 {
                    assert(s.drop_last()[i] == s[i]);
                } else {
                    assert(s[i] == s.last());
                }
            }
        }
    }
}

/// A button of kind `k` stands somewhere in the list exactly when the search
/// for it lands inside the list.
pub proof fn lemma_button_found(s: Seq<Entity>, k: MenuButton)
    ensures
        role_count(s, EntityRole::Button(k)) > 0 <==> button_idx(s, k) < s.len(),
{
    lemma_button_idx(s, k);
    lemma_role_count_zero(s, EntityRole::Button(k));
    if button_idx(s, k) < s.len() {
        assert(s[button_idx(s, k) as int].role == EntityRole::Button(k));
        assert(role_count(s, EntityRole::Button(k)) != 0) by {
            if role_count(s, EntityRole::Button(k)) == 0 {
                assert(s[button_idx(s, k) as int].role != EntityRole::Button(k));
            }
        }
    }
}

pub proof fn lemma_role_count_concat(a: Seq<Entity>, b: Seq<Entity>, r: EntityRole)
    ensures
        role_count(a + b, r) == role_count(a, r) + role_count(b, r),
    decreases b.len(),
{
    if b.len() == 0 {
        assert(a + b =~= a);
    } else {
        lemma_role_count_concat(a, b.drop_last(), r);
        assert((a + b).drop_last() =~= a + b.drop_last());
        assert((a + b).last() == b.last());
    }
}

pub proof fn lemma_button_count_concat(a: Seq<Entity>, b: Seq<Entity>)
    ensures
        button_count(a + b) == button_count(a) + button_count(b),
    decreases b.len(),
{
    if b.len() == 0 {
        assert(a + b =~= a);
    } else {
        lemma_button_count_concat(a, b.drop_last());
        assert((a + b).drop_last() =~= a + b.drop_last());
        assert((a + b).last() == b.last());
    }
}

/// The menu count is zero exactly when no entity of the list is menu-owned.
pub proof fn lemma_menu_count_zero(s: Seq<Entity>)
    ensures
        menu_count(s) == 0 <==> (forall|i: int| 0 <= i < s.len() ==> !menu_owned(s[i].role)),
    decreases s.len(),
{
    if s.len() > 0 {
        lemma_menu_count_zero(s.drop_last());
        assert(forall|i: int|
            0 <= i < s.len() - 1 ==> s.drop_last()[i] == s[i]);
        if menu_count(s) == 0 {
            assert(!menu_owned(s.last().role));
            assert(forall|i: int| 0 <= i < s.len() ==> !menu_owned(s[i].role)) by {
                assert(forall|i: int|
                    0 <= i < s.len() - 1 ==> !menu_owned(#[trigger] s[i].role));
                assert(s[s.len() - 1] == s.last());
            }
        }
    }
}

/// Filtering the menu out leaves no menu-owned entity behind.
pub proof fn lemma_non_menu_clean(s: Seq<Entity>)
    ensures
        menu_count(non_menu(s)) == 0,
        non_menu(s).len() <= s.len(),
    decreases s.len(),
{
    if s.len() > 0 {
        lemma_non_menu_clean(s.drop_last());
        if !menu_owned(s.last().role) {
            lemma_menu_count_push(non_menu(s.drop_last()), s.last());
        }
    }
}

/// Filtering the menu out does not touch counts of roles the menu does not own.
pub proof fn lemma_non_menu_role_count(s: Seq<Entity>, r: EntityRole)
    requires
        !menu_owned(r),
    ensures
        role_count(non_menu(s), r) == role_count(s, r),
    decreases s.len(),
{
    if s.len() > 0 {
        lemma_non_menu_role_count(s.drop_last(), r);
        if !menu_owned(s.last().role) {
            lemma_role_count_push(non_menu(s.drop_last()), r, s.last());
        }
    }
}

/// Filtering the menu out keeps ids strictly increasing and below any bound
/// the whole list respected.
pub proof fn lemma_non_menu_preserves_wf(s: Seq<Entity>, b: u64)
    requires
        ids_sorted(s),
        ids_below(s, b),
    ensures
        ids_sorted(non_menu(s)),
        ids_below(non_menu(s), b),
    decreases s.len(),
{
    if s.len() > 0 {
        let t = s.drop_last();
        assert(forall|i: int| 0 <= i < t.len() ==> t[i] == s[i]);
        lemma_non_menu_preserves_wf(t, b);
        if !menu_owned(s.last().role) {
            lemma_non_menu_preserves_wf(t, s.last().id);
            let u = non_menu(t).push(s.last());
            assert forall|i: int, j: int| 0 <= i < j < u.len() implies u[i].id < u[j].id by {
                if j < u.len() - 1 {
                    assert(non_menu(t)[i] == u[i] && non_menu(t)[j] == u[j]);
                } else {
                    assert(u[j] == s.last());
                    assert(non_menu(t)[i] == u[i]);
                }
            }
        }
    }
}

/// The scene: entities in spawn order plus the id the next spawn will take.
pub struct World {
    pub entities: Vec<Entity>,
    pub next_id: u64,
}

/// Spec-level image of a [`World`].
#[verifier::ext_equal]
pub struct WorldModel {
    pub entities: Seq<Entity>,
    pub next_id: u64,
}

impl WorldModel {
    /// Well-formed scene: ids strictly increase along the list and stay below
    /// the next id to be handed out, so every id is unique.
    pub open spec fn wf(self) -> bool {
        &&& ids_sorted(self.entities)
        &&& ids_below(self.entities, self.next_id)
    }
}

impl View for World {
    type V = WorldModel;

    open spec fn view(&self) -> WorldModel {
        WorldModel { entities: self.entities@, next_id: self.next_id }
    }
}

impl World {
    /// An empty scene.
    pub fn new() -> (w: World)
        ensures
            w@.entities == Seq::<Entity>::empty(),
            w@.next_id == 0,
            w@.wf(),
    {
        World { entities: Vec::new(), next_id: 0 }
    }

    /// Add one entity with the next fresh id, idle and unchanged, and return
    /// its id.
    pub fn spawn(&mut self, parent: Option<u64>, role: EntityRole, color: u32) -> (id: u64)
        requires
            old(self)@.wf(),
            old(self)@.next_id < u64::MAX,
        ensures
            id == old(self)@.next_id,
            final(self)@.entities == old(self)@.entities.push(
                Entity {
                    id: old(self)@.next_id,
                    parent: parent,
                    role: role,
                    color: color,
                    interaction: Interaction::Idle,
                    changed: false,
                },
            ),
            final(self)@.next_id == old(self)@.next_id + 1,
            final(self)@.wf(),
    {
        let id = self.next_id;
        self.entities.push(
            Entity { id, parent, role, color, interaction: Interaction::Idle, changed: false },
        );
        self.next_id = id + 1;
        proof {
            let s = self@.entities;
            assert(forall|i: int| 0 <= i < s.len() - 1 ==> s[i] == old(self)@.entities[i]);
        }
        id
    }

    /// Lower every change flag, as the end of a frame does once the systems
    /// have seen this frame's interaction changes.
    pub fn clear_changed(&mut self)
        requires
            old(self)@.wf(),
        ensures
            final(self)@.entities == spec_clear(old(self)@.entities),
            final(self)@.next_id == old(self)@.next_id,
            final(self)@.wf(),
    {
        let s = Ghost(self@.entities);
        let n: usize = self.entities.len();
        let mut out: Vec<Entity> = Vec::new();
        let mut i: usize = 0;
        while i < n
            invariant
                0 <= i <= n,
                n == s@.len(),
                s@ == self@.entities,
                out@.len() == i,
                forall|j: int| 0 <= j < i ==> out@[j] == cleared_entity(s@[j]),
            decreases n - i,
        {
            let e = self.entities[i];
            out.push(
                Entity {
                    id: e.id,
                    parent: e.parent,
                    role: e.role,
                    color: e.color,
                    interaction: e.interaction,
                    changed: false,
                },
            );
            i = i + 1;
        }
        self.entities = out;
        proof {
            assert(self@.entities =~= spec_clear(s@));
            assert forall|i2: int, j2: int|
                0 <= i2 < j2 < self@.entities.len() implies self@.entities[i2].id
                < self@.entities[j2].id by {
                assert(self@.entities[i2].id == s@[i2].id);
                assert(self@.entities[j2].id == s@[j2].id);
            }
            assert forall|i2: int|
                0 <= i2 < self@.entities.len() implies self@.entities[i2].id
                < self@.next_id by {
                assert(self@.entities[i2].id == s@[i2].id);
            }
        }
    }

    /// How many entities of exactly role `r` the scene holds.
    pub fn count_role(&self, r: EntityRole) -> (n: usize)
        ensures
            n == role_count(self@.entities, r),
    {
        let s = Ghost(self@.entities);
        let mut n: usize = 0;
        let mut i: usize = 0;
        while i < self.entities.len()
            invariant
                0 <= i <= s@.len(),
                s@ == self@.entities,
                n == role_count(s@.take(i as int), r),
                n <= i,
            decreases s@.len() - i,
        {
            proof {
                assert(s@.take(i + 1) =~= s@.take(i as int).push(s@[i as int]));
                lemma_role_count_push(s@.take(i as int), r, s@[i as int]);
            }
            if self.entities[i].role == r {
                n = n + 1;
            }
            i = i + 1;
        }
        proof {
            assert(s@.take(s@.len() as int) =~= s@);
        }
        n
    }

    /// How many buttons (of any kind) the scene holds.
    pub fn count_buttons(&self) -> (n: usize)
        ensures
            n == button_count(self@.entities),
    {
        let s = Ghost(self@.entities);
        let mut n: usize = 0;
        let mut i: usize = 0;
        while i < self.entities.len()
            invariant
                0 <= i <= s@.len(),
                s@ == self@.entities,
                n == button_count(s@.take(i as int)),
                n <= i,
            decreases s@.len() - i,
        {
            proof {
                assert(s@.take(i + 1) =~= s@.take(i as int).push(s@[i as int]));
                lemma_button_count_push(s@.take(i as int), s@[i as int]);
            }
            match self.entities[i].role {
                EntityRole::Button(_) => {
                    n = n + 1;
                },
                _ => {},
            }
            i = i + 1;
        }
        proof {
            assert(s@.take(s@.len() as int) =~= s@);
        }
        n
    }

    /// How many menu-owned entities the scene holds.
    pub fn count_menu_entities(&self) -> (n: usize)
        ensures
            n == menu_count(self@.entities),
    {
        let s = Ghost(self@.entities);
        let mut n: usize = 0;
        let mut i: usize = 0;
        while i < self.entities.len()
            invariant
                0 <= i <= s@.len(),
                s@ == self@.entities,
                n == menu_count(s@.take(i as int)),
                n <= i,
            decreases s@.len() - i,
        {
            proof {
                assert(s@.take(i + 1) =~= s@.take(i as int).push(s@[i as int]));
                lemma_menu_count_push(s@.take(i as int), s@[i as int]);
            }
            if is_menu_owned(self.entities[i].role) {
                n = n + 1;
            }
            i = i + 1;
        }
        proof {
            assert(s@.take(s@.len() as int) =~= s@);
        }
        n
    }
}

} // verus!
