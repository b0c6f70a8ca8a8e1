//! Spawn helpers: the construction protocol that allocates an entity and
//! populates every table a renderable entity needs, consistently.
//!
//! The GPU-side work — compiling shaders, building vertex arrays and
//! uploading buffers — happens outside the store; callers hand the resulting
//! handles in, and these helpers guarantee the tables end up row-complete.

use vstd::prelude::*;

use crate::ecs::Color;
use crate::ecs::Entity;
use crate::ecs::EntityType;
use crate::ecs::PartRenderData;
use crate::ecs::Position;
use crate::ecs::Rotation;
use crate::ecs::Scale;
use crate::ecs::Shader;
use crate::ecs::Texture;
use crate::ecs::Vec3Bits;
use crate::ecs::World;
use crate::render::draws_line;
use crate::render::draws_part;
use crate::render::part_complete;

verus! {

/// Number of indices of the shared unit-cube geometry: six faces of two
/// triangles each.
pub const PART_INDEX_COUNT: i32 = 36;

/// Number of vertices a line draw consumes.
pub const LINE_INDEX_COUNT: i32 = 2;

/// Bit pattern of the single-precision float 0.0.
pub const F32_ZERO_BITS: u32 = 0;

/// Bit pattern of the single-precision float 1.0.
pub const F32_ONE_BITS: u32 = 0x3F80_0000;

/// The zero vector, lane by lane.
pub open spec fn vec3_zero_bits() -> Vec3Bits {
    Vec3Bits { x: F32_ZERO_BITS, y: F32_ZERO_BITS, z: F32_ZERO_BITS }
}

/// The all-ones vector, lane by lane.
pub open spec fn vec3_one_bits() -> Vec3Bits {
    Vec3Bits { x: F32_ONE_BITS, y: F32_ONE_BITS, z: F32_ONE_BITS }
}

/// Spawn a solid cuboid part. The caller supplies the transform and tint,
/// the compiled shader, the vertex-array handle holding the shared unit-cube
/// geometry, and optionally a loaded texture. On return the new entity is
/// fully renderable: every table the render pass probes for a `Part` has a
/// row, and the texture table has one exactly when a texture was supplied.
pub fn spawn_part(
    world: &mut World,
    position: Vec3Bits,
    rotation: Vec3Bits,
    scale: Vec3Bits,
    color: Vec3Bits,
    shader: &Shader,
    vao_id: u32,
    texture: Option<Texture>,
) -> (entity: Entity)
    requires
        old(world).next_entity_id < usize::MAX,
    ensures
        entity == old(world).next_entity_id,
        final(world).next_entity_id == old(world).next_entity_id + 1,
        final(world).positions@ == old(world).positions@.insert(entity, Position(position)),
        final(world).rotations@ == old(world).rotations@.insert(entity, Rotation(rotation)),
        final(world).scales@ == old(world).scales@.insert(entity, Scale(scale)),
        final(world).colors@ == old(world).colors@.insert(entity, Color(color)),
        final(world).part_render_data@ == old(world).part_render_data@.insert(
            entity,
            (PartRenderData {
                program_id: shader.program,
                vao_id: vao_id,
                index_count: PART_INDEX_COUNT,
            }),
        ),
        final(world).shaders@ == old(world).shaders@.insert(entity, *shader),
        final(world).entity_types@ == old(world).entity_types@.insert(entity, EntityType::Part),
        final(world).textures@ == (match texture {
            Some(t) => old(world).textures@.insert(entity, t),
            None => old(world).textures@,
        }),
        final(world).velocities@ == old(world).velocities@,
        final(world).part_render_data.key_seq() == (if old(
            world,
        ).part_render_data@.dom().contains(entity) {
            old(world).part_render_data.key_seq()
        } else {
            old(world).part_render_data.key_seq().push(entity)
        }),
        final(world).part_render_data@.dom().contains(entity),
        draws_part(*final(world), entity),
        part_complete(*final(world), entity),
        old(world).wf() ==> final(world).wf(),
        old(world).wf() && texture is None ==> !final(world).textures@.dom().contains(entity),
    {
    let entity = world.create_entity();
    world.positions.insert(entity, Position(position));
    world.rotations.insert(entity, Rotation(rotation));
    world.scales.insert(entity, Scale(scale));
    world.colors.insert(entity, Color(color));
    world.part_render_data.insert(
        entity,
        PartRenderData { program_id: shader.program, vao_id, index_count: PART_INDEX_COUNT },
    );
    world.shaders.insert(entity, *shader);
    world.entity_types.insert(entity, EntityType::Part);
    if let Some(tex) = texture {
        world.textures.insert(entity, tex);
    }
    entity
}

/// Geometry uploaded ahead of time — for example a mesh parsed from a model
/// file — ready to be wrapped into a world entity.
#[derive(Clone, Copy, Debug, PartialEq, Eq, Structural)]
pub struct RenderData {
    pub vao_id: u32,
    pub index_count: i32,
    pub program_id: u32,
}

/// Register already-uploaded geometry as a new `Part` entity, exactly like a
/// hand-built part: same tables, same row completeness, but the index count
/// comes from the supplied geometry and the program from the supplied shader.
pub fn add_render_data_to_world(
    world: &mut World,
    position: Vec3Bits,
    rotation: Vec3Bits,
    scale: Vec3Bits,
    color: Vec3Bits,
    render_data: &RenderData,
    shader: &Shader,
    texture: Option<Texture>,
)
    requires
        old(world).next_entity_id < usize::MAX,
    ensures
        final(world).next_entity_id == old(world).next_entity_id + 1,
        final(world).positions@ == old(world).positions@.insert(
            old(world).next_entity_id,
            Position(position),
        ),
        final(world).rotations@ == old(world).rotations@.insert(
            old(world).next_entity_id,
            Rotation(rotation),
        ),
        final(world).scales@ == old(world).scales@.insert(
            old(world).next_entity_id,
            Scale(scale),
        ),
        final(world).colors@ == old(world).colors@.insert(
            old(world).next_entity_id,
            Color(color),
        ),
        final(world).part_render_data@ == old(world).part_render_data@.insert(
            old(world).next_entity_id,
            (PartRenderData {
                program_id: shader.program,
                vao_id: render_data.vao_id,
                index_count: render_data.index_count,
            }),
        ),
        final(world).shaders@ == old(world).shaders@.insert(old(world).next_entity_id, *shader),
        final(world).entity_types@ == old(world).entity_types@.insert(
            old(world).next_entity_id,
            EntityType::Part,
        ),
        final(world).textures@ == (match texture {
            Some(t) => old(world).textures@.insert(old(world).next_entity_id, t),
            None => old(world).textures@,
        }),
        final(world).velocities@ == old(world).velocities@,
        final(world).part_render_data.key_seq() == (if old(
            world,
        ).part_render_data@.dom().contains(old(world).next_entity_id) {
            old(world).part_render_data.key_seq()
        } else {
            old(world).part_render_data.key_seq().push(old(world).next_entity_id)
        }),
        final(world).part_render_data@.dom().contains(old(world).next_entity_id),
        draws_part(*final(world), old(world).next_entity_id),
        part_complete(*final(world), old(world).next_entity_id),
        old(world).wf() ==> final(world).wf(),
    {
    let entity = world.create_entity();
    world.positions.insert(entity, Position(position));
    world.rotations.insert(entity, Rotation(rotation));
    world.scales.insert(entity, Scale(scale));
    world.colors.insert(entity, Color(color));
    world.shaders.insert(entity, *shader);
    if let Some(tex) = texture {
        world.textures.insert(entity, tex);
    }
    world.part_render_data.insert(
        entity,
        PartRenderData {
            program_id: shader.program,
            vao_id: render_data.vao_id,
            index_count: render_data.index_count,
        },
    );
    world.entity_types.insert(entity, EntityType::Part);
}

/// Spawn a two-point debug line. The `Line` kind tag carries the endpoints
/// and color and is the sole source of truth for the draw; the `Position`
/// row (set to the start point), the zero `Rotation` and the unit `Scale`
/// exist only to keep the tables' shape consistent with parts. The geometry
/// row fixes the index count at two.
pub fn spawn_line(
    world: &mut World,
    start: Vec3Bits,
    end: Vec3Bits,
    color: Vec3Bits,
    shader: &Shader,
    vao_id: u32,
) -> (entity: Entity)
    requires
        old(world).next_entity_id < usize::MAX,
    ensures
        entity == old(world).next_entity_id,
        final(world).next_entity_id == old(world).next_entity_id + 1,
        final(world).positions@ == old(world).positions@.insert(entity, Position(start)),
        final(world).rotations@ == old(world).rotations@.insert(
            entity,
            Rotation(vec3_zero_bits()),
        ),
        final(world).scales@ == old(world).scales@.insert(entity, Scale(vec3_one_bits())),
        final(world).entity_types@ == old(world).entity_types@.insert(
            entity,
            EntityType::Line(start, end, color),
        ),
        final(world).shaders@ == old(world).shaders@.insert(entity, *shader),
        final(world).part_render_data@ == old(world).part_render_data@.insert(
            entity,
            (PartRenderData {
                program_id: shader.program,
                vao_id: vao_id,
                index_count: LINE_INDEX_COUNT,
            }),
        ),
        final(world).colors@ == old(world).colors@,
        final(world).textures@ == old(world).textures@,
        final(world).velocities@ == old(world).velocities@,
        final(world).part_render_data.key_seq() == (if old(
            world,
        ).part_render_data@.dom().contains(entity) {
            old(world).part_render_data.key_seq()
        } else {
            old(world).part_render_data.key_seq().push(entity)
        }),
        final(world).part_render_data@.dom().contains(entity),
        draws_line(*final(world), entity),
        old(world).wf() ==> final(world).wf(),
    {
    let entity = world.create_entity();
    world.positions.insert(entity, Position(start));
    world.rotations.insert(
        entity,
        Rotation(Vec3Bits { x: F32_ZERO_BITS, y: F32_ZERO_BITS, z: F32_ZERO_BITS }),
    );
    world.scales.insert(
        entity,
        Scale(Vec3Bits { x: F32_ONE_BITS, y: F32_ONE_BITS, z: F32_ONE_BITS }),
    );
    world.entity_types.insert(entity, EntityType::Line(start, end, color));
    world.shaders.insert(entity, *shader);
    world.part_render_data.insert(
        entity,
        PartRenderData { program_id: shader.program, vao_id, index_count: LINE_INDEX_COUNT },
    );
    entity
}

} // verus!
