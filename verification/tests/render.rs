//! The frame traversal: one draw operation per renderable entity, in table
//! order, with the documented skip and failure rules.

use buat::ecs::Color;
use buat::ecs::EntityType;
use buat::ecs::PartRenderData;
use buat::ecs::Position;
use buat::ecs::Rotation;
use buat::ecs::Scale;
use buat::ecs::Shader;
use buat::ecs::Texture;
use buat::ecs::Vec3Bits;
use buat::ecs::World;
use buat::funcs::spawn_line;
use buat::funcs::spawn_part;
use buat::render::render_frame;
use buat::render::ComponentKind;
use buat::render::DrawOp;
use buat::render::LightSource;

fn v3(x: f32, y: f32, z: f32) -> Vec3Bits {
    Vec3Bits { x: x.to_bits(), y: y.to_bits(), z: z.to_bits() }
}

#[test]
fn entity_without_shader_is_skipped_without_error() {
    let mut world = World::new();
    let e = world.create_entity();
    world.part_render_data.insert(
        e,
        PartRenderData { program_id: 1, vao_id: 2, index_count: 36 },
    );
    world.entity_types.insert(e, EntityType::Part);
    let plan = render_frame(&world).expect("a missing shader must not fail the pass");
    assert_eq!(plan.ops.len(), 0);
}

#[test]
fn part_missing_position_fails_loudly() {
    let mut world = World::new();
    let e = world.create_entity();
    world.part_render_data.insert(
        e,
        PartRenderData { program_id: 1, vao_id: 2, index_count: 36 },
    );
    world.shaders.insert(e, Shader { program: 1 });
    world.entity_types.insert(e, EntityType::Part);
    let err = render_frame(&world).unwrap_err();
    assert_eq!(err.entity, e);
    assert_eq!(err.component, ComponentKind::Position);
}

#[test]
fn part_missing_color_fails_with_color() {
    let mut world = World::new();
    let e = world.create_entity();
    world.part_render_data.insert(
        e,
        PartRenderData { program_id: 1, vao_id: 2, index_count: 36 },
    );
    world.shaders.insert(e, Shader { program: 1 });
    world.entity_types.insert(e, EntityType::Part);
    world.positions.insert(e, Position(v3(0.0, 0.0, 0.0)));
    world.rotations.insert(e, Rotation(v3(0.0, 0.0, 0.0)));
    world.scales.insert(e, Scale(v3(1.0, 1.0, 1.0)));
    let err = render_frame(&world).unwrap_err();
    assert_eq!(err.entity, e);
    assert_eq!(err.component, ComponentKind::Color);
}

#[test]
fn ops_follow_table_order_with_exact_content() {
    let mut world = World::new();
    let part_shader = Shader { program: 10 };
    let line_shader = Shader { program: 11 };
    let tex = Texture { id: 3, width: 8, height: 8 };
    let part = spawn_part(
        &mut world,
        v3(1.0, 2.0, 3.0),
        v3(0.0, 90.0, 0.0),
        v3(2.0, 2.0, 2.0),
        v3(0.1, 0.2, 0.3),
        &part_shader,
        40,
        Some(tex),
    );
    let start = v3(0.0, 0.0, 0.0);
    let end = v3(0.0, 2.0, 0.0);
    let lcolor = v3(0.0, 1.0, 0.0);
    let line = spawn_line(&mut world, start, end, lcolor, &line_shader, 41);

    let plan = render_frame(&world).unwrap();
    assert_eq!(plan.ops.len(), 2);
    match plan.ops[0] {
        DrawOp::Part {
            entity,
            program_id,
            vao_id,
            shader_program,
            index_count,
            position,
            rotation,
            scale,
            color,
            texture,
        } => {
            assert_eq!(entity, part);
            assert_eq!(program_id, 10);
            assert_eq!(vao_id, 40);
            assert_eq!(shader_program, 10);
            assert_eq!(index_count, 36);
            assert_eq!(position, v3(1.0, 2.0, 3.0));
            assert_eq!(rotation, v3(0.0, 90.0, 0.0));
            assert_eq!(scale, v3(2.0, 2.0, 2.0));
            assert_eq!(color, v3(0.1, 0.2, 0.3));
            assert_eq!(texture, Some(tex));
        }
        _ => panic!("first operation must be the part draw"),
    }
    match plan.ops[1] {
        DrawOp::Line { entity, program_id, vao_id, shader_program, start: s, end: e, color: c } => {
            assert_eq!(entity, line);
            assert_eq!(program_id, 11);
            assert_eq!(vao_id, 41);
            assert_eq!(shader_program, 11);
            assert_eq!(s, start);
            assert_eq!(e, end);
            assert_eq!(c, lcolor);
        }
        _ => panic!("second operation must be the line draw"),
    }
    // the part spawned first got identifier zero and a full row, so it also
    // supplies the light
    assert_eq!(
        plan.light,
        Some(LightSource { position: v3(1.0, 2.0, 3.0), color: v3(0.1, 0.2, 0.3) })
    );
}

#[test]
fn line_draw_reads_tag_not_color_table() {
    let mut world = World::new();
    let shader = Shader { program: 1 };
    let start = v3(0.0, 0.0, 0.0);
    let end = v3(2.0, 0.0, 0.0);
    let tag_color = v3(1.0, 0.0, 0.0);
    let e = spawn_line(&mut world, start, end, tag_color, &shader, 5);
    // a stray entry in the color table must not leak into the line draw
    world.colors.insert(e, Color(v3(0.0, 0.0, 1.0)));
    let plan = render_frame(&world).unwrap();
    assert_eq!(plan.ops.len(), 1);
    match plan.ops[0] {
        DrawOp::Line { color, .. } => assert_eq!(color, tag_color),
        _ => panic!("a line entity must draw as a line"),
    }
}

#[test]
fn special_kind_and_missing_kind_draw_nothing() {
    let mut world = World::new();
    let tagged = world.create_entity();
    world.part_render_data.insert(
        tagged,
        PartRenderData { program_id: 1, vao_id: 2, index_count: 36 },
    );
    world.shaders.insert(tagged, Shader { program: 1 });
    world.entity_types.insert(tagged, EntityType::Special);
    let untagged = world.create_entity();
    world.part_render_data.insert(
        untagged,
        PartRenderData { program_id: 1, vao_id: 3, index_count: 36 },
    );
    world.shaders.insert(untagged, Shader { program: 1 });
    let plan = render_frame(&world).unwrap();
    assert_eq!(plan.ops.len(), 0);
}

#[test]
fn light_absent_without_entity_zero_rows() {
    let mut world = World::new();
    // burn identifier zero without giving it a color
    let zero = world.create_entity();
    world.positions.insert(zero, Position(v3(9.0, 9.0, 9.0)));
    let plan = render_frame(&world).unwrap();
    assert_eq!(plan.light, None);
    // completing the pair makes the light appear
    world.colors.insert(zero, Color(v3(1.0, 1.0, 1.0)));
    let plan = render_frame(&world).unwrap();
    assert_eq!(
        plan.light,
        Some(LightSource { position: v3(9.0, 9.0, 9.0), color: v3(1.0, 1.0, 1.0) })
    );
}

#[test]
fn destroyed_entity_is_not_drawn() {
    let mut world = World::new();
    let shader = Shader { program: 1 };
    let a = spawn_part(
        &mut world,
        v3(0.0, 0.0, 0.0),
        v3(0.0, 0.0, 0.0),
        v3(1.0, 1.0, 1.0),
        v3(1.0, 1.0, 1.0),
        &shader,
        1,
        None,
    );
    let b = spawn_line(&mut world, v3(0.0, 0.0, 0.0), v3(1.0, 0.0, 0.0), v3(1.0, 0.0, 0.0), &shader, 2);
    world.destroy_entity(a);
    let plan = render_frame(&world).unwrap();
    assert_eq!(plan.ops.len(), 1);
    match plan.ops[0] {
        DrawOp::Line { entity, .. } => assert_eq!(entity, b),
        _ => panic!("only the line survives"),
    }
}
