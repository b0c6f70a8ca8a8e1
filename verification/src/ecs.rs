//! Components, the `World` that owns one table per component kind, and the
//! lifecycle rules: identifier allocation and entity destruction.

use vstd::prelude::*;

use crate::table::Table;

verus! {

/// An entity is an opaque identifier, unique for the lifetime of the world,
/// used only as a join key across the component tables.
pub type Entity = usize;

/// Three 32-bit lanes, each holding the IEEE-754 bit pattern of a
/// single-precision float. The store never interprets the lanes; collaborators
/// convert to and from floating point at the boundary.
#[derive(Clone, Copy, Debug, PartialEq, Eq, Structural)]
pub struct Vec3Bits {
    pub x: u32,
    pub y: u32,
    pub z: u32,
}

/// World-space translation of an entity.
#[derive(Clone, Copy, Debug, PartialEq, Eq, Structural)]
pub struct Position(pub Vec3Bits);

/// Per-axis Euler angles in degrees, composed Y then X then Z when a model
/// matrix is built.
#[derive(Clone, Copy, Debug, PartialEq, Eq, Structural)]
pub struct Rotation(pub Vec3Bits);

/// Per-axis multiplicative scale of an entity.
#[derive(Clone, Copy, Debug, PartialEq, Eq, Structural)]
pub struct Scale(pub Vec3Bits);

/// Linear velocity of an entity; stored but not read by the render pass.
#[derive(Clone, Copy, Debug, PartialEq, Eq, Structural)]
pub struct Velocity(pub Vec3Bits);

/// RGB shading tint, conceptually in the unit range but not clamped.
#[derive(Clone, Copy, Debug, PartialEq, Eq, Structural)]
pub struct Color(pub Vec3Bits);

/// What to draw for an entity and with which compiled program: the shader
/// program handle, the vertex-array handle, and the number of indices.
#[derive(Clone, Copy, Debug, PartialEq, Eq, Structural)]
pub struct PartRenderData {
    pub program_id: u32,
    pub vao_id: u32,
    pub index_count: i32,
}

/// A compiled shader program handle, owned and freed outside the store.
#[derive(Clone, Copy, Debug, PartialEq, Eq, Structural)]
pub struct Shader {
    pub program: u32,
}

/// A loaded 2D texture handle with its pixel dimensions; the texture memory
/// is owned and freed outside the store.
#[derive(Clone, Copy, Debug, PartialEq, Eq, Structural)]
pub struct Texture {
    pub id: u32,
    pub width: i32,
    pub height: i32,
}

/// The kind tag the render pass branches on. A `Line` carries its own
/// endpoints and color; that embedded data is the sole source of truth for
/// the line's visual geometry, never re-derived from the `Position` or
/// `Color` tables.
#[derive(Clone, Copy, Debug, PartialEq, Eq, Structural)]
pub enum EntityType {
    Part,
    Special,
    Line(Vec3Bits, Vec3Bits, Vec3Bits),
}

/// The single authoritative store of all live entities: one table per
/// component kind, all keyed by entity identifier, plus the allocation
/// counter. Tables are public so that collaborators insert, look up and
/// remove components directly, each through its own typed table.
pub struct World {
    pub next_entity_id: usize,
    pub positions: Table<Position>,
    pub rotations: Table<Rotation>,
    pub scales: Table<Scale>,
    pub velocities: Table<Velocity>,
    pub colors: Table<Color>,
    pub part_render_data: Table<PartRenderData>,
    pub textures: Table<Texture>,
    pub shaders: Table<Shader>,
    pub entity_types: Table<EntityType>,
}

impl World {
    /// Every key of every table was allocated before the counter's current
    /// value. Holds for every world built through `new`, `create_entity`,
    /// `destroy_entity` and the spawn helpers; direct table insertion with a
    /// key that was never allocated can break it.
    pub open spec fn wf(self) -> bool {
        &&& forall|e: Entity| #[trigger] self.positions@.dom().contains(e) ==> e < self.next_entity_id
        &&& forall|e: Entity| #[trigger] self.rotations@.dom().contains(e) ==> e < self.next_entity_id
        &&& forall|e: Entity| #[trigger] self.scales@.dom().contains(e) ==> e < self.next_entity_id
        &&& forall|e: Entity| #[trigger] self.velocities@.dom().contains(e) ==> e < self.next_entity_id
        &&& forall|e: Entity| #[trigger] self.colors@.dom().contains(e) ==> e < self.next_entity_id
        &&& forall|e: Entity| #[trigger] self.part_render_data@.dom().contains(e) ==> e < self.next_entity_id
        &&& forall|e: Entity| #[trigger] self.textures@.dom().contains(e) ==> e < self.next_entity_id
        &&& forall|e: Entity| #[trigger] self.shaders@.dom().contains(e) ==> e < self.next_entity_id
        &&& forall|e: Entity| #[trigger] self.entity_types@.dom().contains(e) ==> e < self.next_entity_id
    }

    /// The entity appears in no component table.
    pub open spec fn absent_everywhere(self, e: Entity) -> bool {
        &&& !self.positions@.dom().contains(e)
        &&& !self.rotations@.dom().contains(e)
        &&& !self.scales@.dom().contains(e)
        &&& !self.velocities@.dom().contains(e)
        &&& !self.colors@.dom().contains(e)
        &&& !self.part_render_data@.dom().contains(e)
        &&& !self.textures@.dom().contains(e)
        &&& !self.shaders@.dom().contains(e)
        &&& !self.entity_types@.dom().contains(e)
    }

    /// An empty world: no entities, no components, identifiers start at zero.
    pub fn new() -> (w: World)
        ensures
            w.next_entity_id == 0,
            w.positions@ == Map::<Entity, Position>::empty(),
            w.rotations@ == Map::<Entity, Rotation>::empty(),
            w.scales@ == Map::<Entity, Scale>::empty(),
            w.velocities@ == Map::<Entity, Velocity>::empty(),
            w.colors@ == Map::<Entity, Color>::empty(),
            w.part_render_data@ == Map::<Entity, PartRenderData>::empty(),
            w.textures@ == Map::<Entity, Texture>::empty(),
            w.shaders@ == Map::<Entity, Shader>::empty(),
            w.entity_types@ == Map::<Entity, EntityType>::empty(),
            w.part_render_data.key_seq() == Seq::<Entity>::empty(),
            w.wf(),
    {
        World {
            next_entity_id: 0,
            positions: Table::new(),
            rotations: Table::new(),
            scales: Table::new(),
            velocities: Table::new(),
            colors: Table::new(),
            part_render_data: Table::new(),
            textures: Table::new(),
            shaders: Table::new(),
            entity_types: Table::new(),
        }
    }

    /// Allocate the next unused identifier and return it. The counter is
    /// monotonic and identifiers are never reused while the world lives; in
    /// a well-formed world the returned entity has no components yet.
    pub fn create_entity(&mut self) -> (entity: Entity)
        requires
            old(self).next_entity_id < usize::MAX,
        ensures
            create_step(*old(self), *final(self), entity),
            old(self).wf() ==> final(self).wf(),
            old(self).wf() ==> old(self).absent_everywhere(entity),
    {
        let entity = self.next_entity_id;
        self.next_entity_id = self.next_entity_id + 1;
        entity
    }

    /// Remove the entity's row from every component table it may appear in.
    /// Destroying an unknown or already-destroyed entity is a no-op, not an
    /// error; the counter is untouched, so the identifier is never reused.
    pub fn destroy_entity(&mut self, entity: Entity)
        ensures
            destroy_step(*old(self), *final(self), entity),
            old(self).wf() ==> final(self).wf(),
    {
        self.positions.remove(entity);
        self.rotations.remove(entity);
        self.scales.remove(entity);
        self.velocities.remove(entity);
        self.colors.remove(entity);
        self.part_render_data.remove(entity);
        self.textures.remove(entity);
        self.shaders.remove(entity);
        self.entity_types.remove(entity);
    }
}

/// Exactly what `create_entity` does to the world: it hands out the
/// counter's value as the new identifier, advances the counter by one, and
/// touches no table.
pub open spec fn create_step(w0: World, w1: World, e: Entity) -> bool {
    &&& e == w0.next_entity_id
    &&& w1.next_entity_id == w0.next_entity_id + 1
    &&& w1.positions == w0.positions
    &&& w1.rotations == w0.rotations
    &&& w1.scales == w0.scales
    &&& w1.velocities == w0.velocities
    &&& w1.colors == w0.colors
    &&& w1.part_render_data == w0.part_render_data
    &&& w1.textures == w0.textures
    &&& w1.shaders == w0.shaders
    &&& w1.entity_types == w0.entity_types
}

/// Exactly what `destroy_entity` does to the world: every table loses the
/// entity's row, iteration over every table no longer yields the entity,
/// entries of other entities and their iteration presence are untouched, and
/// the allocation counter keeps its value.
pub open spec fn destroy_step(w0: World, w1: World, e: Entity) -> bool {
    &&& w1.next_entity_id == w0.next_entity_id
    &&& w1.positions@ == w0.positions@.remove(e)
    &&& w1.rotations@ == w0.rotations@.remove(e)
    &&& w1.scales@ == w0.scales@.remove(e)
    &&& w1.velocities@ == w0.velocities@.remove(e)
    &&& w1.colors@ == w0.colors@.remove(e)
    &&& w1.part_render_data@ == w0.part_render_data@.remove(e)
    &&& w1.textures@ == w0.textures@.remove(e)
    &&& w1.shaders@ == w0.shaders@.remove(e)
    &&& w1.entity_types@ == w0.entity_types@.remove(e)
    &&& !w1.positions.key_seq().contains(e)
    &&& !w1.rotations.key_seq().contains(e)
    &&& !w1.scales.key_seq().contains(e)
    &&& !w1.velocities.key_seq().contains(e)
    &&& !w1.colors.key_seq().contains(e)
    &&& !w1.part_render_data.key_seq().contains(e)
    &&& !w1.textures.key_seq().contains(e)
    &&& !w1.shaders.key_seq().contains(e)
    &&& !w1.entity_types.key_seq().contains(e)
    &&& forall|x: Entity| x != e ==> w1.positions.key_seq().contains(x)
        == w0.positions.key_seq().contains(x)
    &&& forall|x: Entity| x != e ==> w1.rotations.key_seq().contains(x)
        == w0.rotations.key_seq().contains(x)
    &&& forall|x: Entity| x != e ==> w1.scales.key_seq().contains(x)
        == w0.scales.key_seq().contains(x)
    &&& forall|x: Entity| x != e ==> w1.velocities.key_seq().contains(x)
        == w0.velocities.key_seq().contains(x)
    &&& forall|x: Entity| x != e ==> w1.colors.key_seq().contains(x)
        == w0.colors.key_seq().contains(x)
    &&& forall|x: Entity| x != e ==> w1.part_render_data.key_seq().contains(x)
        == w0.part_render_data.key_seq().contains(x)
    &&& forall|x: Entity| x != e ==> w1.textures.key_seq().contains(x)
        == w0.textures.key_seq().contains(x)
    &&& forall|x: Entity| x != e ==> w1.shaders.key_seq().contains(x)
        == w0.shaders.key_seq().contains(x)
    &&& forall|x: Entity| x != e ==> w1.entity_types.key_seq().contains(x)
        == w0.entity_types.key_seq().contains(x)
}

/// The component tables agree between two worlds, entry for entry.
pub open spec fn tables_eq(w0: World, w1: World) -> bool {
    &&& w1.positions@ == w0.positions@
    &&& w1.rotations@ == w0.rotations@
    &&& w1.scales@ == w0.scales@
    &&& w1.velocities@ == w0.velocities@
    &&& w1.colors@ == w0.colors@
    &&& w1.part_render_data@ == w0.part_render_data@
    &&& w1.textures@ == w0.textures@
    &&& w1.shaders@ == w0.shaders@
    &&& w1.entity_types@ == w0.entity_types@
}

/// Identifier uniqueness: across any sequence of `create_entity` calls the
/// returned identifiers strictly increase, hence are pairwise distinct. Two
/// consecutive allocations witness the induction step; `create_entity`'s
/// contract pins each returned identifier to the counter it increments.
pub proof fn lemma_entity_ids_strictly_increase(
    w0: World,
    w1: World,
    w2: World,
    e1: Entity,
    e2: Entity,
)
    requires
        create_step(w0, w1, e1),
        create_step(w1, w2, e2),
    ensures
        e1 < e2,
{
}

/// Identifier uniqueness over a whole run: if worlds `w[0], ..., w[n]` are
/// joined by successive `create_entity` calls that returned
/// `ids[0], ..., ids[n-1]`, then any earlier identifier is smaller than any
/// later one — so all returned identifiers are pairwise distinct.
pub proof fn lemma_create_sequence_ids_increase(
    worlds: Seq<World>,
    ids: Seq<Entity>,
    i: int,
    j: int,
)
    requires
        worlds.len() == ids.len() + 1,
        forall|k: int|
            0 <= k < ids.len() ==> create_step(worlds[k], worlds[k + 1], #[trigger] ids[k]),
        0 <= i < j < ids.len(),
    ensures
        ids[i] < ids[j],
    decreases j - i,
{
    assert(create_step(worlds[i], worlds[i + 1], ids[i]));
    assert(create_step(worlds[j], worlds[j + 1], ids[j]));
    if j == i + 1 {
        lemma_entity_ids_strictly_increase(worlds[i], worlds[i + 1], worlds[i + 2], ids[i], ids[j]);
    } else {
        lemma_create_sequence_ids_increase(worlds, ids, i, j - 1);
        lemma_create_sequence_ids_increase(worlds, ids, j - 1, j);
    }
}

/// Destroy completeness: after `destroy_entity`, looking the entity up in
/// every component table reports absence, and iterating any table never
/// yields the entity.
pub proof fn lemma_destroy_completeness(w0: World, w1: World, e: Entity)
    requires
        destroy_step(w0, w1, e),
    ensures
        w1.absent_everywhere(e),
        !w1.positions.key_seq().contains(e),
        !w1.rotations.key_seq().contains(e),
        !w1.scales.key_seq().contains(e),
        !w1.velocities.key_seq().contains(e),
        !w1.colors.key_seq().contains(e),
        !w1.part_render_data.key_seq().contains(e),
        !w1.textures.key_seq().contains(e),
        !w1.shaders.key_seq().contains(e),
        !w1.entity_types.key_seq().contains(e),
{
}

/// Destroy idempotence, first half: destroying the same entity twice leaves
/// exactly the tables the first destruction left.
pub proof fn lemma_destroy_twice_is_once(w0: World, w1: World, w2: World, e: Entity)
    requires
        destroy_step(w0, w1, e),
        destroy_step(w1, w2, e),
    ensures
        tables_eq(w1, w2),
        w2.next_entity_id == w1.next_entity_id,
{
    assert(w1.positions@.remove(e) =~= w1.positions@);
    assert(w1.rotations@.remove(e) =~= w1.rotations@);
    assert(w1.scales@.remove(e) =~= w1.scales@);
    assert(w1.velocities@.remove(e) =~= w1.velocities@);
    assert(w1.colors@.remove(e) =~= w1.colors@);
    assert(w1.part_render_data@.remove(e) =~= w1.part_render_data@);
    assert(w1.textures@.remove(e) =~= w1.textures@);
    assert(w1.shaders@.remove(e) =~= w1.shaders@);
    assert(w1.entity_types@.remove(e) =~= w1.entity_types@);
}

/// Destroy idempotence, second half: destroying an entity that appears in no
/// table — never created, or already destroyed — changes no table and no
/// counter value.
pub proof fn lemma_destroy_absent_is_noop(w0: World, w1: World, e: Entity)
    requires
        destroy_step(w0, w1, e),
        w0.absent_everywhere(e),
    ensures
        tables_eq(w0, w1),
        w1.next_entity_id == w0.next_entity_id,
{
    assert(w0.positions@.remove(e) =~= w0.positions@);
    assert(w0.rotations@.remove(e) =~= w0.rotations@);
    assert(w0.scales@.remove(e) =~= w0.scales@);
    assert(w0.velocities@.remove(e) =~= w0.velocities@);
    assert(w0.colors@.remove(e) =~= w0.colors@);
    assert(w0.part_render_data@.remove(e) =~= w0.part_render_data@);
    assert(w0.textures@.remove(e) =~= w0.textures@);
    assert(w0.shaders@.remove(e) =~= w0.shaders@);
    assert(w0.entity_types@.remove(e) =~= w0.entity_types@);
}

/// Table independence: attaching a `Color` to an entity touches the color
/// table alone; the entity gains no entry in any other table, and no other
/// entity's color changes.
pub proof fn lemma_color_insert_independent(w0: World, w1: World, e: Entity, c: Color)
    requires
        w1.colors@ == w0.colors@.insert(e, c),
        w1.positions@ == w0.positions@,
        w1.rotations@ == w0.rotations@,
        w1.scales@ == w0.scales@,
        w1.velocities@ == w0.velocities@,
        w1.part_render_data@ == w0.part_render_data@,
        w1.textures@ == w0.textures@,
        w1.shaders@ == w0.shaders@,
        w1.entity_types@ == w0.entity_types@,
    ensures
        w1.colors@[e] == c,
        w1.positions@.dom().contains(e) == w0.positions@.dom().contains(e),
        w1.rotations@.dom().contains(e) == w0.rotations@.dom().contains(e),
        w1.scales@.dom().contains(e) == w0.scales@.dom().contains(e),
        w1.velocities@.dom().contains(e) == w0.velocities@.dom().contains(e),
        w1.part_render_data@.dom().contains(e) == w0.part_render_data@.dom().contains(e),
        w1.textures@.dom().contains(e) == w0.textures@.dom().contains(e),
        w1.shaders@.dom().contains(e) == w0.shaders@.dom().contains(e),
        w1.entity_types@.dom().contains(e) == w0.entity_types@.dom().contains(e),
        forall|x: Entity| x != e ==> w1.colors@.contains_key(x) == w0.colors@.contains_key(x),
        forall|x: Entity| x != e && w0.colors@.dom().contains(x)
            ==> w1.colors@[x] == w0.colors@[x],
{
}

} // verus!
