use cube_render::render::{
    build_frame, face_vector, new_depth_buffer, new_output_buffer, parse_surface, Face, BG_CHAR,
    DEPTH_CLEAR, HEIGHT, WIDTH,
};
use cube_render::vector::{Angle, Vector, SCALE};

fn fresh_buffers() -> (Vec<Vec<i64>>, Vec<Vec<char>>) {
    (new_depth_buffer(), new_output_buffer())
}

#[test]
fn fresh_buffers_hold_background_and_minimal_depth() {
    let (z, o) = fresh_buffers();
    assert_eq!(o.len(), HEIGHT);
    assert_eq!(z.len(), HEIGHT);
    for row in &o {
        assert_eq!(row.len(), WIDTH);
        assert!(row.iter().all(|&ch| ch == BG_CHAR));
    }
    for row in &z {
        assert_eq!(row.len(), WIDTH);
        assert!(row.iter().all(|&d| d == DEPTH_CLEAR));
    }
}

#[test]
fn center_point_projects_to_frame_center() {
    let a0 = Angle::zero();
    let (mut z, mut o) = fresh_buffers();
    // The centre of the front face: local (0, 0), depth -CUBE_LEN.
    let p = Vector { x: 0, y: 0, z: -15 * SCALE };
    parse_surface(p, a0, a0, a0, '$', &mut z, &mut o);
    assert_eq!(o[22][80], '$');
    // ooz = SCALE*SCALE / (60*SCALE - 15*SCALE) = 65536 / 45.
    assert_eq!(z[22][80], 1456);
}

#[test]
fn closer_point_wins_in_either_order() {
    let a0 = Angle::zero();
    let near = Vector { x: 0, y: 0, z: -15 * SCALE }; // ooz 1456
    let far = Vector { x: 0, y: 0, z: 0 }; // ooz 1092

    let (mut z1, mut o1) = fresh_buffers();
    parse_surface(near, a0, a0, a0, '$', &mut z1, &mut o1);
    parse_surface(far, a0, a0, a0, '+', &mut z1, &mut o1);

    let (mut z2, mut o2) = fresh_buffers();
    parse_surface(far, a0, a0, a0, '+', &mut z2, &mut o2);
    parse_surface(near, a0, a0, a0, '$', &mut z2, &mut o2);

    assert_eq!(o1[22][80], '$');
    assert_eq!(z1[22][80], 1456);
    assert_eq!(o1, o2);
    assert_eq!(z1, z2);
}

#[test]
fn even_closer_point_flips_the_cell() {
    let a0 = Angle::zero();
    let (mut z, mut o) = fresh_buffers();
    parse_surface(Vector { x: 0, y: 0, z: -15 * SCALE }, a0, a0, a0, '$', &mut z, &mut o);
    assert_eq!(o[22][80], '$');
    // ooz = 65536 / 40 = 1638: strictly closer, so the cell flips.
    parse_surface(Vector { x: 0, y: 0, z: -20 * SCALE }, a0, a0, a0, '+', &mut z, &mut o);
    assert_eq!(o[22][80], '+');
    assert_eq!(z[22][80], 1638);
}

#[test]
fn equal_depth_does_not_overwrite() {
    let a0 = Angle::zero();
    let (mut z, mut o) = fresh_buffers();
    let p = Vector { x: 0, y: 0, z: -15 * SCALE };
    parse_surface(p, a0, a0, a0, '$', &mut z, &mut o);
    // The same inverse depth fails the strict depth test.
    parse_surface(p, a0, a0, a0, '+', &mut z, &mut o);
    assert_eq!(o[22][80], '$');
}

#[test]
fn projection_truncates_the_full_coordinate() {
    let a0 = Angle::zero();
    let (mut z, mut o) = fresh_buffers();
    // One raw unit above centre: the exact row is fractionally below 22,
    // and truncating the whole coordinate pulls it to row 21.
    parse_surface(Vector { x: 0, y: -1, z: -15 * SCALE }, a0, a0, a0, '^', &mut z, &mut o);
    assert_eq!(o[21][80], '^');
    // One raw unit below centre stays on the centre row.
    parse_surface(Vector { x: 0, y: 1, z: -15 * SCALE }, a0, a0, a0, 'v', &mut z, &mut o);
    assert_eq!(o[22][80], 'v');
}

#[test]
fn out_of_frame_points_leave_buffers_unchanged() {
    let a0 = Angle::zero();
    let (mut z, mut o) = fresh_buffers();
    let z_before = z.clone();
    let o_before = o.clone();
    // Projected column far beyond the right edge.
    parse_surface(Vector { x: 1000 * SCALE, y: 0, z: 0 }, a0, a0, a0, '#', &mut z, &mut o);
    // Projected column negative.
    parse_surface(Vector { x: -1000 * SCALE, y: 0, z: 0 }, a0, a0, a0, '#', &mut z, &mut o);
    // Projected row far below the bottom edge.
    parse_surface(Vector { x: 0, y: 500 * SCALE, z: 0 }, a0, a0, a0, '#', &mut z, &mut o);
    // Perspective divisor exactly zero: the point is discarded.
    parse_surface(Vector { x: 0, y: 0, z: -60 * SCALE }, a0, a0, a0, '#', &mut z, &mut o);
    // Perspective divisor negative: behind the camera.
    parse_surface(Vector { x: 0, y: 0, z: -100 * SCALE }, a0, a0, a0, '#', &mut z, &mut o);
    assert_eq!(z, z_before);
    assert_eq!(o, o_before);
}

#[test]
fn face_points_match_their_axis_assignments() {
    let s = SCALE;
    assert_eq!(face_vector(Face::Front, 2, 3), Vector { x: 2 * s, y: 3 * s, z: -15 * s });
    assert_eq!(face_vector(Face::Right, 2, 3), Vector { x: 15 * s, y: 3 * s, z: 2 * s });
    assert_eq!(face_vector(Face::Left, 2, 3), Vector { x: -15 * s, y: 3 * s, z: -2 * s });
    assert_eq!(face_vector(Face::Back, 2, 3), Vector { x: -2 * s, y: 3 * s, z: 15 * s });
    assert_eq!(face_vector(Face::Bottom, 2, 3), Vector { x: 2 * s, y: -15 * s, z: -3 * s });
    assert_eq!(face_vector(Face::Top, 2, 3), Vector { x: 2 * s, y: 15 * s, z: 3 * s });
}

#[test]
fn zero_rotation_frame_renders_front_face_at_center() {
    let a0 = Angle::zero();
    let (mut z, mut o) = fresh_buffers();
    build_frame(a0, a0, a0, &mut z, &mut o);
    // At zero rotation nothing can occlude the centre of the front face.
    assert_eq!(o[22][80], '$');
    assert_eq!(z[22][80], 1456);
    // The frame's corners stay background: the cube is much smaller.
    assert_eq!(o[0][0], BG_CHAR);
    assert_eq!(o[43][159], BG_CHAR);
}
