//! The construction protocol: spawned entities end up row-complete.

use buat::ecs::EntityType;
use buat::ecs::Position;
use buat::ecs::Rotation;
use buat::ecs::Scale;
use buat::ecs::Shader;
use buat::ecs::Texture;
use buat::ecs::Vec3Bits;
use buat::ecs::World;
use buat::funcs::add_render_data_to_world;
use buat::funcs::spawn_line;
use buat::funcs::spawn_part;
use buat::funcs::RenderData;

fn v3(x: f32, y: f32, z: f32) -> Vec3Bits {
    Vec3Bits { x: x.to_bits(), y: y.to_bits(), z: z.to_bits() }
}

#[test]
fn spawn_part_with_texture_fills_every_table() {
    let mut world = World::new();
    let shader = Shader { program: 12 };
    let tex = Texture { id: 7, width: 128, height: 128 };
    let e = spawn_part(
        &mut world,
        v3(1.0, 2.0, 3.0),
        v3(10.0, 20.0, 30.0),
        v3(2.0, 2.0, 2.0),
        v3(0.3, 0.6, 0.9),
        &shader,
        44,
        Some(tex),
    );
    assert_eq!(world.positions.get(e), Some(&Position(v3(1.0, 2.0, 3.0))));
    assert_eq!(world.rotations.get(e), Some(&Rotation(v3(10.0, 20.0, 30.0))));
    assert_eq!(world.scales.get(e), Some(&Scale(v3(2.0, 2.0, 2.0))));
    assert!(world.colors.get(e).is_some());
    let geom = world.part_render_data.get(e).unwrap();
    assert_eq!(geom.program_id, 12);
    assert_eq!(geom.vao_id, 44);
    assert_eq!(geom.index_count, 36);
    assert_eq!(world.shaders.get(e), Some(&shader));
    assert_eq!(world.textures.get(e), Some(&tex));
    assert_eq!(world.entity_types.get(e), Some(&EntityType::Part));
}

#[test]
fn spawn_part_without_texture_leaves_texture_absent() {
    let mut world = World::new();
    let shader = Shader { program: 12 };
    let e = spawn_part(
        &mut world,
        v3(0.0, 0.0, 0.0),
        v3(0.0, 0.0, 0.0),
        v3(1.0, 1.0, 1.0),
        v3(1.0, 1.0, 1.0),
        &shader,
        3,
        None,
    );
    assert!(world.positions.get(e).is_some());
    assert!(world.rotations.get(e).is_some());
    assert!(world.scales.get(e).is_some());
    assert!(world.colors.get(e).is_some());
    assert!(world.part_render_data.get(e).is_some());
    assert!(world.shaders.get(e).is_some());
    assert_eq!(world.entity_types.get(e), Some(&EntityType::Part));
    assert!(world.textures.get(e).is_none());
}

#[test]
fn spawn_line_embeds_endpoints_and_fixes_index_count() {
    let mut world = World::new();
    let shader = Shader { program: 2 };
    let start = v3(0.0, 0.0, 0.0);
    let end = v3(2.0, 0.0, 0.0);
    let color = v3(1.0, 0.0, 0.0);
    let e = spawn_line(&mut world, start, end, color, &shader, 17);
    assert_eq!(world.entity_types.get(e), Some(&EntityType::Line(start, end, color)));
    let geom = world.part_render_data.get(e).unwrap();
    assert_eq!(geom.index_count, 2);
    assert_eq!(geom.program_id, 2);
    assert_eq!(geom.vao_id, 17);
    // bookkeeping rows exist with the defaults: start position, zero
    // rotation, unit scale
    assert_eq!(world.positions.get(e), Some(&Position(start)));
    assert_eq!(world.rotations.get(e), Some(&Rotation(v3(0.0, 0.0, 0.0))));
    assert_eq!(world.scales.get(e), Some(&Scale(v3(1.0, 1.0, 1.0))));
    // a line carries its color in the tag, not in the color table
    assert!(world.colors.get(e).is_none());
}

#[test]
fn add_render_data_registers_a_part() {
    let mut world = World::new();
    let shader = Shader { program: 8 };
    let data = RenderData { vao_id: 21, index_count: 4242, program_id: 0 };
    add_render_data_to_world(
        &mut world,
        v3(0.0, 0.0, 5.0),
        v3(0.0, 0.0, 0.0),
        v3(1.0, 1.0, 1.0),
        v3(0.0, 1.0, 0.0),
        &data,
        &shader,
        None,
    );
    // the helper registers under the identifier it allocated: the first one
    let e = 0;
    let geom = world.part_render_data.get(e).unwrap();
    // the program comes from the shader, not from the uploaded geometry
    assert_eq!(geom.program_id, 8);
    assert_eq!(geom.vao_id, 21);
    assert_eq!(geom.index_count, 4242);
    assert_eq!(world.entity_types.get(e), Some(&EntityType::Part));
    assert!(world.positions.get(e).is_some());
}
