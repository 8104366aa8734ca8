use cube_render::vector::{Angle, Rotation, Vector, SCALE};

fn angle_of(theta: f64) -> Angle {
    Angle {
        cos: (theta.cos() * SCALE as f64).round() as i64,
        sin: (theta.sin() * SCALE as f64).round() as i64,
    }
}

fn norm_squared(v: Vector) -> f64 {
    let x = v.x as f64;
    let y = v.y as f64;
    let z = v.z as f64;
    x * x + y * y + z * z
}

#[test]
fn rotation_by_zero_angle_is_identity() {
    let a0 = Angle::zero();
    let v = Vector { x: 3 * SCALE, y: -4 * SCALE, z: 5 * SCALE + 17 };
    assert_eq!(v.rotate_x(a0), v);
    assert_eq!(v.rotate_y(a0), v);
    assert_eq!(v.rotate_z(a0), v);
    let mut w = v;
    w.rotate_all(a0, a0, a0);
    assert_eq!(w, v);
}

#[test]
fn rotation_preserves_norm_within_tolerance() {
    let a = angle_of(0.7);
    let v = Vector { x: 11 * SCALE + 123, y: -7 * SCALE + 99, z: 3 * SCALE - 55 };
    let before = norm_squared(v);
    let after_x = norm_squared(v.rotate_x(a));
    let after_y = norm_squared(v.rotate_y(a));
    let after_z = norm_squared(v.rotate_z(a));
    let tolerance = 1e-4;
    assert!((after_x / before - 1.0).abs() < tolerance);
    assert!((after_y / before - 1.0).abs() < tolerance);
    assert!((after_z / before - 1.0).abs() < tolerance);
    let mut w = v;
    w.rotate_all(a, angle_of(1.1), angle_of(-0.4));
    assert!((norm_squared(w) / before - 1.0).abs() < tolerance);
}

#[test]
fn rotate_all_matches_manual_composition() {
    let ax = angle_of(0.5);
    let ay = angle_of(1.0);
    let az = angle_of(1.5);
    let v = Vector { x: SCALE, y: 2 * SCALE, z: 3 * SCALE };
    let mut w = v;
    w.rotate_all(ax, ay, az);
    assert_eq!(w, v.rotate_x(ax).rotate_y(ay).rotate_z(az));
}

#[test]
fn rotation_order_is_not_commutative() {
    let ax = angle_of(0.5);
    let ay = angle_of(1.0);
    let az = angle_of(1.5);
    let v = Vector { x: SCALE, y: 2 * SCALE, z: 3 * SCALE };
    let forward = v.rotate_x(ax).rotate_y(ay).rotate_z(az);
    let reversed = v.rotate_z(az).rotate_y(ay).rotate_x(ax);
    assert_ne!(forward, reversed);
}

#[test]
fn rotation_formula_exact_values() {
    // A quarter-scale exact case: cos and sin both SCALE/2.
    let half = Angle { cos: SCALE / 2, sin: SCALE / 2 };
    let v = Vector { x: SCALE, y: SCALE, z: 0 };
    // x' = (x*c - y*s)/SCALE = 0, y' = (x*s + y*c)/SCALE = SCALE.
    assert_eq!(v.rotate_z(half), Vector { x: 0, y: SCALE, z: 0 });
}

#[test]
fn rotation_truncates_toward_zero() {
    let half = Angle { cos: SCALE / 2, sin: SCALE / 2 };
    // y*c + z*s = -SCALE/2: the exact quotient -0.5 truncates to 0, not -1.
    let v = Vector { x: 0, y: -1, z: 0 };
    assert_eq!(v.rotate_x(half), Vector { x: 0, y: 0, z: 0 });
}
