//! Numeric behavior of the model-matrix recipe, checked by folding the
//! recorded factors into an actual matrix the way the GPU collaborator does.

use buat::ecs::Vec3Bits;
use buat::render::model_matrix_steps;
use buat::render::MatrixStep;
use nalgebra_glm as glm;

fn v3(x: f32, y: f32, z: f32) -> Vec3Bits {
    Vec3Bits { x: x.to_bits(), y: y.to_bits(), z: z.to_bits() }
}

fn glm_vec(v: Vec3Bits) -> glm::Vec3 {
    glm::vec3(f32::from_bits(v.x), f32::from_bits(v.y), f32::from_bits(v.z))
}

/// Multiply the factors left to right, converting recorded degrees to
/// radians at matrix-construction time — the same fold the draw executor
/// performs.
fn matrix_of_steps(steps: &[MatrixStep]) -> glm::Mat4 {
    let mut m = glm::Mat4::identity();
    for step in steps {
        let factor = match *step {
            MatrixStep::Translate(v) => glm::translation(&glm_vec(v)),
            MatrixStep::RotateYDeg(bits) => {
                glm::rotation(f32::from_bits(bits).to_radians(), &glm::vec3(0.0, 1.0, 0.0))
            }
            MatrixStep::RotateXDeg(bits) => {
                glm::rotation(f32::from_bits(bits).to_radians(), &glm::vec3(1.0, 0.0, 0.0))
            }
            MatrixStep::RotateZDeg(bits) => {
                glm::rotation(f32::from_bits(bits).to_radians(), &glm::vec3(0.0, 0.0, 1.0))
            }
            MatrixStep::ScaleAxes(v) => glm::scaling(&glm_vec(v)),
        };
        m = m * factor;
    }
    m
}

fn transform_point(m: &glm::Mat4, x: f32, y: f32, z: f32) -> (f32, f32, f32) {
    let p = m * glm::vec4(x, y, z, 1.0);
    (p.x, p.y, p.z)
}

#[test]
fn steps_come_in_fixed_composition_order() {
    let steps = model_matrix_steps(v3(1.0, 2.0, 3.0), v3(10.0, 20.0, 30.0), v3(2.0, 2.0, 2.0));
    assert_eq!(
        steps,
        vec![
            MatrixStep::Translate(v3(1.0, 2.0, 3.0)),
            MatrixStep::RotateYDeg(20.0f32.to_bits()),
            MatrixStep::RotateXDeg(10.0f32.to_bits()),
            MatrixStep::RotateZDeg(30.0f32.to_bits()),
            MatrixStep::ScaleAxes(v3(2.0, 2.0, 2.0)),
        ]
    );
}

#[test]
fn translate_and_scale_move_the_cube_corner() {
    // position (1,2,3), no rotation, scale (2,2,2): the unit-cube corner
    // (0.5, 0.5, 0.5) lands on (2, 3, 4)
    let steps = model_matrix_steps(v3(1.0, 2.0, 3.0), v3(0.0, 0.0, 0.0), v3(2.0, 2.0, 2.0));
    let m = matrix_of_steps(&steps);
    let (x, y, z) = transform_point(&m, 0.5, 0.5, 0.5);
    assert!((x - 2.0).abs() < 1e-5);
    assert!((y - 3.0).abs() < 1e-5);
    assert!((z - 4.0).abs() < 1e-5);
}

#[test]
fn rotation_about_x_maps_y_axis_to_z_axis() {
    // rotation (90, 0, 0) degrees, right-handed with counter-clockwise
    // positive angles: the point (0,1,0) goes to (0,0,1)
    let steps = model_matrix_steps(v3(0.0, 0.0, 0.0), v3(90.0, 0.0, 0.0), v3(1.0, 1.0, 1.0));
    let m = matrix_of_steps(&steps);
    let (x, y, z) = transform_point(&m, 0.0, 1.0, 0.0);
    assert!(x.abs() < 1e-5);
    assert!(y.abs() < 1e-5);
    assert!((z - 1.0).abs() < 1e-5);
}

#[test]
fn rotation_order_is_y_then_x_then_z() {
    // with rx = 90 and ry = 90 the composition order is observable: the
    // matrix product RY * RX applies RX to the point first, so (1,0,0) is
    // fixed by RX and sent to (0,0,-1) by RY; the X-then-Z-then-Y product
    // would send it to (0,1,0) instead
    let steps = model_matrix_steps(v3(0.0, 0.0, 0.0), v3(90.0, 90.0, 0.0), v3(1.0, 1.0, 1.0));
    let m = matrix_of_steps(&steps);
    let (x, y, z) = transform_point(&m, 1.0, 0.0, 0.0);
    assert!(x.abs() < 1e-5);
    assert!(y.abs() < 1e-5);
    assert!((z + 1.0).abs() < 1e-5);
}
