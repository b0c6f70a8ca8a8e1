//! The per-frame render traversal: a read-only pass that joins the
//! component tables by entity identifier and plans exactly one draw
//! operation per renderable entity.
//!
//! The traversal walks the `RenderGeometry` table in its iteration order.
//! An entity without a `ShaderHandle` is skipped — the only per-entity skip
//! condition. For the rest the pass branches on the kind tag: a `Line` draws
//! from the data embedded in its tag; a `Part` requires `Position`,
//! `Rotation`, `Scale` and `Color`, and a `Part` missing one of them fails
//! the whole pass loudly, identifying the entity and the first missing
//! component, rather than drawing with a garbage default.
//!
//! The pass emits plain draw operations; executing them — building the
//! model matrix from the recorded transform, binding and drawing — is the
//! GPU collaborator's job.

use vstd::prelude::*;

use crate::ecs::Entity;
use crate::ecs::EntityType;
use crate::ecs::Texture;
use crate::ecs::Vec3Bits;
use crate::ecs::World;

verus! {

/// The identifier setup code conventionally reserves for the light-source
/// entity whose position and color tint every part.
pub const LIGHT_ENTITY: usize = 0;

/// One component kind a `Part` draw requires, named in the order the join
/// probes them.
#[derive(Clone, Copy, Debug, PartialEq, Eq, Structural)]
pub enum ComponentKind {
    Position,
    Rotation,
    Scale,
    Color,
}

/// A `Part`-kind entity reached the draw branch without a required
/// component: a violation of the construction protocol, reported instead of
/// drawn.
#[derive(Clone, Copy, Debug, PartialEq, Eq, Structural)]
pub struct RenderError {
    pub entity: Entity,
    pub component: ComponentKind,
}

/// One draw call to issue. `program_id` is the program recorded in the
/// geometry row and `shader_program` the one from the `ShaderHandle` table;
/// the collaborator binds them in that order, so the shader table's program
/// is the one in effect, as well as the one whose uniforms are set.
#[derive(Clone, Copy, Debug, PartialEq, Eq, Structural)]
pub enum DrawOp {
    /// A two-vertex line-primitive draw under an identity model matrix,
    /// colored from the kind tag's embedded color.
    Line {
        entity: Entity,
        program_id: u32,
        vao_id: u32,
        shader_program: u32,
        start: Vec3Bits,
        end: Vec3Bits,
        color: Vec3Bits,
    },
    /// An indexed-triangle draw of `index_count` indices under the model
    /// matrix built from the recorded transform, tinted with `color`, with
    /// the texture, when there is one, bound to unit zero first.
    Part {
        entity: Entity,
        program_id: u32,
        vao_id: u32,
        shader_program: u32,
        index_count: i32,
        position: Vec3Bits,
        rotation: Vec3Bits,
        scale: Vec3Bits,
        color: Vec3Bits,
        texture: Option<Texture>,
    },
}

/// The position and color of the conventionally reserved light entity,
/// when it has both.
#[derive(Clone, Copy, Debug, PartialEq, Eq, Structural)]
pub struct LightSource {
    pub position: Vec3Bits,
    pub color: Vec3Bits,
}

/// Everything one frame draws: the shared light data, resolved once, and
/// the draw operations in traversal order.
#[derive(Debug)]
pub struct FramePlan {
    pub light: Option<LightSource>,
    pub ops: Vec<DrawOp>,
}

/// The entity a draw operation belongs to.
pub open spec fn op_entity(op: DrawOp) -> Entity {
    match op {
        DrawOp::Line { entity, .. } => entity,
        DrawOp::Part { entity, .. } => entity,
    }
}

/// The entity has a shader and is tagged as a line.
pub open spec fn draws_line(w: World, e: Entity) -> bool {
    &&& w.shaders@.dom().contains(e)
    &&& w.entity_types@.dom().contains(e)
    &&& w.entity_types@[e] is Line
}

/// The entity has a shader and is tagged as a part.
pub open spec fn draws_part(w: World, e: Entity) -> bool {
    &&& w.shaders@.dom().contains(e)
    &&& w.entity_types@.dom().contains(e)
    &&& w.entity_types@[e] is Part
}

/// Every component a part draw joins on is present.
pub open spec fn part_complete(w: World, e: Entity) -> bool {
    &&& w.positions@.dom().contains(e)
    &&& w.rotations@.dom().contains(e)
    &&& w.scales@.dom().contains(e)
    &&& w.colors@.dom().contains(e)
}

/// The first component the join misses for the entity, in probe order.
pub open spec fn first_missing(w: World, e: Entity) -> ComponentKind {
    if !w.positions@.dom().contains(e) {
        ComponentKind::Position
    } else if !w.rotations@.dom().contains(e) {
        ComponentKind::Rotation
    } else if !w.scales@.dom().contains(e) {
        ComponentKind::Scale
    } else {
        ComponentKind::Color
    }
}

/// The draw operation for a line entity, read from its geometry row, its
/// shader row and its kind tag alone.
pub open spec fn line_op(w: World, e: Entity) -> DrawOp {
    let g = w.part_render_data@[e];
    DrawOp::Line {
        entity: e,
        program_id: g.program_id,
        vao_id: g.vao_id,
        shader_program: w.shaders@[e].program,
        start: w.entity_types@[e]->Line_0,
        end: w.entity_types@[e]->Line_1,
        color: w.entity_types@[e]->Line_2,
    }
}

/// The draw operation for a complete part entity.
pub open spec fn part_op(w: World, e: Entity) -> DrawOp {
    let g = w.part_render_data@[e];
    DrawOp::Part {
        entity: e,
        program_id: g.program_id,
        vao_id: g.vao_id,
        shader_program: w.shaders@[e].program,
        index_count: g.index_count,
        position: w.positions@[e].0,
        rotation: w.rotations@[e].0,
        scale: w.scales@[e].0,
        color: w.colors@[e].0,
        texture: if w.textures@.dom().contains(e) {
            Some(w.textures@[e])
        } else {
            None
        },
    }
}

/// What the traversal emits for one entity of the geometry table: one line
/// draw, one part draw, or nothing — for entities without a shader, without
/// a kind tag, with the special tag, or with an incomplete part row.
pub open spec fn op_at(w: World, e: Entity) -> Seq<DrawOp> {
    if draws_line(w, e) {
        seq![line_op(w, e)]
    } else if draws_part(w, e) && part_complete(w, e) {
        seq![part_op(w, e)]
    } else {
        Seq::empty()
    }
}

/// Whether one entity of the geometry table fails the pass: only a
/// part-tagged entity with a shader but an incomplete row does.
pub open spec fn error_at(w: World, e: Entity) -> Option<RenderError> {
    if draws_part(w, e) && !part_complete(w, e) {
        Some(RenderError { entity: e, component: first_missing(w, e) })
    } else {
        None
    }
}

/// The draw operations of a traversal over the given keys, in order.
pub open spec fn ops_of(w: World, keys: Seq<Entity>) -> Seq<DrawOp>
    decreases keys.len(),
{
    if keys.len() == 0 {
        Seq::empty()
    } else {
        ops_of(w, keys.drop_last()) + op_at(w, keys.last())
    }
}

/// The first failure a traversal over the given keys meets, if any.
pub open spec fn first_error(w: World, keys: Seq<Entity>) -> Option<RenderError>
    decreases keys.len(),
{
    if keys.len() == 0 {
        None
    } else if first_error(w, keys.drop_last()) is Some {
        first_error(w, keys.drop_last())
    } else {
        error_at(w, keys.last())
    }
}

/// The shared light data of a frame: present exactly when the reserved
/// light entity has both a position and a color.
pub open spec fn light_of(w: World) -> Option<LightSource> {
    if w.positions@.dom().contains(LIGHT_ENTITY) && w.colors@.dom().contains(LIGHT_ENTITY) {
        Some(
            LightSource {
                position: w.positions@[LIGHT_ENTITY].0,
                color: w.colors@[LIGHT_ENTITY].0,
            },
        )
    } else {
        None
    }
}

proof fn lemma_first_error_of_prefix(w: World, keys: Seq<Entity>, i: int)
    requires
        0 <= i < keys.len(),
        first_error(w, keys.subrange(0, i)) is None,
        error_at(w, keys[i]) is Some,
    ensures
        first_error(w, keys) == error_at(w, keys[i]),
    decreases keys.len(),
{
    let pre = keys.drop_last();
    if i == keys.len() - 1 {
        assert(keys.subrange(0, i) =~= pre);
    } else {
        assert(pre.subrange(0, i) =~= keys.subrange(0, i));
        lemma_first_error_of_prefix(w, pre, i);
    }
}

/// The pass succeeds exactly when every shader-carrying part-tagged entity
/// among the keys has its full transform and color row.
pub proof fn lemma_render_ok_iff_parts_complete(w: World, keys: Seq<Entity>)
    ensures
        first_error(w, keys) is None <==> (forall|i: int|
            0 <= i < keys.len() ==> (draws_part(w, #[trigger] keys[i])
                ==> part_complete(w, keys[i]))),
    decreases keys.len(),
{
    if keys.len() == 0 {
    } else {
        let pre = keys.drop_last();
        lemma_render_ok_iff_parts_complete(w, pre);
        if first_error(w, keys) is None {
            assert forall|i: int|
                0 <= i < keys.len() && draws_part(w, #[trigger] keys[i])
                implies part_complete(w, keys[i]) by {
                if i < keys.len() - 1 {
                    assert(pre[i] == keys[i]);
                }
            }
        } else {
            if first_error(w, pre) is Some {
                let i = choose|i: int|
                    0 <= i < pre.len() && draws_part(w, #[trigger] pre[i]) && !part_complete(
                        w,
                        pre[i],
                    );
                assert(keys[i] == pre[i]);
                assert(draws_part(w, keys[i]) && !part_complete(w, keys[i]));
            } else {
                assert(draws_part(w, keys[keys.len() - 1]) && !part_complete(
                    w,
                    keys[keys.len() - 1],
                ));
            }
        }
    }
}

/// Join skip on missing shader: an entity that never got a `ShaderHandle`
/// produces no draw operation and causes no failure, whatever else it has.
pub proof fn lemma_missing_shader_entity_skipped(w: World, keys: Seq<Entity>, e: Entity)
    requires
        !w.shaders@.dom().contains(e),
    ensures
        forall|j: int| 0 <= j < ops_of(w, keys).len()
            ==> op_entity(#[trigger] ops_of(w, keys)[j]) != e,
        first_error(w, keys) matches Some(err) ==> err.entity != e,
    decreases keys.len(),
{
    if keys.len() == 0 {
    } else {
        let pre = keys.drop_last();
        lemma_missing_shader_entity_skipped(w, pre, e);
        let last = keys.last();
        assert forall|j: int| 0 <= j < ops_of(w, keys).len()
            implies op_entity(#[trigger] ops_of(w, keys)[j]) != e by {
            if j < ops_of(w, pre).len() {
                assert(ops_of(w, keys)[j] == ops_of(w, pre)[j]);
            } else {
                assert(ops_of(w, keys)[j] == op_at(w, last)[j - ops_of(w, pre).len()]);
                assert(op_entity(op_at(w, last)[j - ops_of(w, pre).len()]) == last);
            }
        }
    }
}

proof fn lemma_ops_entities_among_keys(w: World, keys: Seq<Entity>)
    ensures
        forall|j: int| 0 <= j < ops_of(w, keys).len()
            ==> keys.contains(op_entity(#[trigger] ops_of(w, keys)[j])),
    decreases keys.len(),
{
    if keys.len() == 0 {
    } else {
        let pre = keys.drop_last();
        lemma_ops_entities_among_keys(w, pre);
        let last = keys.last();
        assert forall|j: int| 0 <= j < ops_of(w, keys).len()
            implies keys.contains(op_entity(#[trigger] ops_of(w, keys)[j])) by {
            if j < ops_of(w, pre).len() {
                assert(ops_of(w, keys)[j] == ops_of(w, pre)[j]);
                let x = op_entity(ops_of(w, pre)[j]);
                let k = choose|k: int| 0 <= k < pre.len() && pre[k] == x;
                assert(keys[k] == x);
            } else {
                assert(ops_of(w, keys)[j] == op_at(w, last)[j - ops_of(w, pre).len()]);
                assert(op_entity(ops_of(w, keys)[j]) == last);
                assert(keys[keys.len() - 1] == last);
            }
        }
    }
}

/// No entity is drawn twice: over distinct keys the traversal emits at most
/// one draw operation per entity.
pub proof fn lemma_entity_drawn_at_most_once(w: World, keys: Seq<Entity>)
    requires
        keys.no_duplicates(),
    ensures
        forall|j1: int, j2: int|
            0 <= j1 < ops_of(w, keys).len() && 0 <= j2 < ops_of(w, keys).len() && j1 != j2
                ==> op_entity(#[trigger] ops_of(w, keys)[j1]) != op_entity(
                #[trigger] ops_of(w, keys)[j2],
            ),
    decreases keys.len(),
{
    if keys.len() == 0 {
    } else {
        let pre = keys.drop_last();
        assert(pre.no_duplicates()) by {
            assert forall|a: int, b: int|
                0 <= a < pre.len() && 0 <= b < pre.len() && a != b implies pre[a] != pre[b] by {
                assert(keys[a] != keys[b]);
            }
        }
        lemma_entity_drawn_at_most_once(w, pre);
        lemma_ops_entities_among_keys(w, pre);
        let last = keys.last();
        assert(!pre.contains(last)) by {
            if pre.contains(last) {
                let k = choose|k: int| 0 <= k < pre.len() && pre[k] == last;
                assert(keys[k] != keys[keys.len() - 1]);
            }
        }
        assert forall|j1: int, j2: int|
            0 <= j1 < ops_of(w, keys).len() && 0 <= j2 < ops_of(w, keys).len() && j1 != j2
            implies op_entity(#[trigger] ops_of(w, keys)[j1]) != op_entity(
            #[trigger] ops_of(w, keys)[j2],
        ) by {
            let np = ops_of(w, pre).len();
            if j1 < np && j2 < np {
                assert(ops_of(w, keys)[j1] == ops_of(w, pre)[j1]);
                assert(ops_of(w, keys)[j2] == ops_of(w, pre)[j2]);
            } else if j1 < np {
                assert(ops_of(w, keys)[j1] == ops_of(w, pre)[j1]);
                assert(pre.contains(op_entity(ops_of(w, pre)[j1])));
                assert(ops_of(w, keys)[j2] == op_at(w, last)[j2 - np]);
                assert(op_entity(ops_of(w, keys)[j2]) == last);
            } else if j2 < np {
                assert(ops_of(w, keys)[j2] == ops_of(w, pre)[j2]);
                assert(pre.contains(op_entity(ops_of(w, pre)[j2])));
                assert(ops_of(w, keys)[j1] == op_at(w, last)[j1 - np]);
                assert(op_entity(ops_of(w, keys)[j1]) == last);
            } else {
                assert(op_at(w, last).len() <= 1);
            }
        }
    }
}

/// Every renderable entity among the keys is drawn: a key that is a line,
/// or a part with its full row, has a draw operation of its own. Together
/// with `lemma_entity_drawn_at_most_once` this makes it exactly one.
pub proof fn lemma_renderable_entity_drawn(w: World, keys: Seq<Entity>, e: Entity)
    requires
        keys.contains(e),
        draws_line(w, e) || (draws_part(w, e) && part_complete(w, e)),
    ensures
        exists|j: int|
            0 <= j < ops_of(w, keys).len() && op_entity(#[trigger] ops_of(w, keys)[j]) == e,
    decreases keys.len(),
{
    let pre = keys.drop_last();
    let np = ops_of(w, pre).len();
    if keys.last() == e {
        assert(op_at(w, e).len() == 1 && op_entity(op_at(w, e)[0]) == e);
        assert(ops_of(w, keys)[np as int] == op_at(w, e)[0]);
    } else {
        let i = choose|i: int| 0 <= i < keys.len() && keys[i] == e;
        assert(pre[i] == e);
        assert(pre.contains(e));
        lemma_renderable_entity_drawn(w, pre, e);
        let j = choose|j: int|
            0 <= j < ops_of(w, pre).len() && op_entity(#[trigger] ops_of(w, pre)[j]) == e;
        assert(ops_of(w, keys)[j] == ops_of(w, pre)[j]);
    }
}

/// One factor of a part's model matrix. Angle factors carry the bit
/// pattern of the angle in degrees; whoever builds the matrix converts to
/// radians there and not earlier.
#[derive(Clone, Copy, Debug, PartialEq, Eq, Structural)]
pub enum MatrixStep {
    Translate(Vec3Bits),
    RotateYDeg(u32),
    RotateXDeg(u32),
    RotateZDeg(u32),
    ScaleAxes(Vec3Bits),
}

/// The factors of a part's model matrix, left to right as they are
/// multiplied: translation first, then the rotations in the fixed Y, X, Z
/// order — which does not commute and must be reproduced exactly — and the
/// per-axis scale last.
pub fn model_matrix_steps(position: Vec3Bits, rotation: Vec3Bits, scale: Vec3Bits) -> (steps: Vec<
    MatrixStep,
>)
    ensures
        steps@ == seq![
            MatrixStep::Translate(position),
            MatrixStep::RotateYDeg(rotation.y),
            MatrixStep::RotateXDeg(rotation.x),
            MatrixStep::RotateZDeg(rotation.z),
            MatrixStep::ScaleAxes(scale),
        ],
{
    let mut steps: Vec<MatrixStep> = Vec::new();
    steps.push(MatrixStep::Translate(position));
    steps.push(MatrixStep::RotateYDeg(rotation.y));
    steps.push(MatrixStep::RotateXDeg(rotation.x));
    steps.push(MatrixStep::RotateZDeg(rotation.z));
    steps.push(MatrixStep::ScaleAxes(scale));
    proof {
        assert(steps@ =~= seq![
            MatrixStep::Translate(position),
            MatrixStep::RotateYDeg(rotation.y),
            MatrixStep::RotateXDeg(rotation.x),
            MatrixStep::RotateZDeg(rotation.z),
            MatrixStep::ScaleAxes(scale),
        ]);
    }
    steps
}

/// Plan one frame: walk the geometry table once, join the other tables by
/// entity, and emit one draw operation per renderable entity, in table
/// order. Fails on the first shader-carrying part-tagged entity whose
/// transform or color row is missing, naming the entity and the component.
pub fn render_frame(world: &World) -> (r: Result<FramePlan, RenderError>)
    ensures
        match r {
            Ok(plan) => {
                &&& first_error(*world, world.part_render_data.key_seq()) is None
                &&& plan.ops@ == ops_of(*world, world.part_render_data.key_seq())
                &&& plan.light == light_of(*world)
            },
            Err(err) => first_error(*world, world.part_render_data.key_seq()) == Some(err),
        },
        r is Ok <==> (forall|i: int|
            0 <= i < world.part_render_data.key_seq().len() ==> (draws_part(
                *world,
                #[trigger] world.part_render_data.key_seq()[i],
            ) ==> part_complete(*world, world.part_render_data.key_seq()[i]))),
        r matches Ok(plan) ==> (forall|j1: int, j2: int|
            0 <= j1 < plan.ops@.len() && 0 <= j2 < plan.ops@.len() && j1 != j2
                ==> op_entity(#[trigger] plan.ops@[j1]) != op_entity(#[trigger] plan.ops@[j2])),
{
    let ghost keys = world.part_render_data.key_seq();
    proof {
        use_type_invariant(&world.part_render_data);
        world.part_render_data.lemma_wf_facts();
    }
    let n = world.part_render_data.len();
    let mut ops: Vec<DrawOp> = Vec::new();
    let mut i: usize = 0;
    while i < n
        invariant
            n == keys.len(),
            keys == world.part_render_data.key_seq(),
            i <= n,
            first_error(*world, keys.subrange(0, i as int)) is None,
            ops@ == ops_of(*world, keys.subrange(0, i as int)),
        decreases n - i,
    {
        let e = world.part_render_data.key_at(i);
        let geom = match world.part_render_data.get(e) {
            Some(g) => *g,
            None => unreached(),
        };
        match world.shaders.get(e) {
            None => {},
            Some(shader) => {
                let shader_program = shader.program;
                match world.entity_types.get(e) {
                    None => {},
                    Some(et) => {
                        match *et {
                            EntityType::Special => {},
                            EntityType::Line(start, end, color) => {
                                ops.push(
                                    DrawOp::Line {
                                        entity: e,
                                        program_id: geom.program_id,
                                        vao_id: geom.vao_id,
                                        shader_program,
                                        start,
                                        end,
                                        color,
                                    },
                                );
                            },
                            EntityType::Part => {
                                let position = match world.positions.get(e) {
                                    Some(p) => p.0,
                                    None => {
                                        let err = RenderError {
                                            entity: e,
                                            component: ComponentKind::Position,
                                        };
                                        proof {
                                            lemma_first_error_of_prefix(*world, keys, i as int);
                                            lemma_render_ok_iff_parts_complete(*world, keys);
                                        }
                                        return Err(err);
                                    },
                                };
                                let rotation = match world.rotations.get(e) {
                                    Some(rt) => rt.0,
                                    None => {
                                        let err = RenderError {
                                            entity: e,
                                            component: ComponentKind::Rotation,
                                        };
                                        proof {
                                            lemma_first_error_of_prefix(*world, keys, i as int);
                                            lemma_render_ok_iff_parts_complete(*world, keys);
                                        }
                                        return Err(err);
                                    },
                                };
                                let scale = match world.scales.get(e) {
                                    Some(s) => s.0,
                                    None => {
                                        let err = RenderError {
                                            entity: e,
                                            component: ComponentKind::Scale,
                                        };
                                        proof {
                                            lemma_first_error_of_prefix(*world, keys, i as int);
                                            lemma_render_ok_iff_parts_complete(*world, keys);
                                        }
                                        return Err(err);
                                    },
                                };
                                let color = match world.colors.get(e) {
                                    Some(c) => c.0,
                                    None => {
                                        let err = RenderError {
                                            entity: e,
                                            component: ComponentKind::Color,
                                        };
                                        proof {
                                            lemma_first_error_of_prefix(*world, keys, i as int);
                                            lemma_render_ok_iff_parts_complete(*world, keys);
                                        }
                                        return Err(err);
                                    },
                                };
                                let texture = match world.textures.get(e) {
                                    Some(t) => Some(*t),
                                    None => None,
                                };
                                ops.push(
                                    DrawOp::Part {
                                        entity: e,
                                        program_id: geom.program_id,
                                        vao_id: geom.vao_id,
                                        shader_program,
                                        index_count: geom.index_count,
                                        position,
                                        rotation,
                                        scale,
                                        color,
                                        texture,
                                    },
                                );
                            },
                        }
                    },
                }
            },
        }
        i = i + 1;
        proof {
            assert(keys.subrange(0, i as int).drop_last() =~= keys.subrange(0, i - 1));
            assert(keys.subrange(0, i as int).last() == keys[i - 1]);
        }
    }
    proof {
        assert(keys.subrange(0, n as int) =~= keys);
        lemma_render_ok_iff_parts_complete(*world, keys);
        lemma_entity_drawn_at_most_once(*world, keys);
    }
    let light = match world.positions.get(LIGHT_ENTITY) {
        Some(p) => match world.colors.get(LIGHT_ENTITY) {
            Some(c) => Some(LightSource { position: p.0, color: c.0 }),
            None => None,
        },
        None => None,
    };
    Ok(FramePlan { light, ops })
}

} // verus!
