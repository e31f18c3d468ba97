use icosahedron::fixed::div_trunc;
use icosahedron::fixed::FP_ONE;
use icosahedron::geometry::build_icosahedron;
use icosahedron::geometry::Vec3;
use icosahedron::geometry::PHI_FP;
use icosahedron::transform::make_segments;
use icosahedron::transform::project;
use icosahedron::transform::project_point;
use icosahedron::transform::rotate_y;
use icosahedron::transform::ScreenPoint;
use icosahedron::transform::State;
use icosahedron::transform::ROT_STEP;
use icosahedron::transform::TWO_PI_FP;

/// Converts an `f64` number of units to fixed-point (millionths).
fn fp(x: f64) -> i64 {
    (x * 1_000_000.0).round() as i64
}

const W: i64 = 800_000_000;
const H: i64 = 600_000_000;
const D: i64 = 3_000_000;
const SCALE: i64 = 200_000_000;

#[test]
fn div_trunc_rounds_toward_zero() {
    assert_eq!(div_trunc(7, 2), 3);
    assert_eq!(div_trunc(-7, 2), -3);
    assert_eq!(div_trunc(0, 5), 0);
    assert_eq!(div_trunc(-1, 1_000_000), 0);
}

#[test]
fn rotation_by_angle_zero_is_identity() {
    let (vertices, _) = build_icosahedron();
    for &v in &vertices {
        let r = rotate_y(v, 0, FP_ONE);
        assert_eq!(r, v);
    }
}

#[test]
fn rotation_by_full_turn_is_identity_within_tolerance() {
    let two_pi = 2.0 * std::f64::consts::PI;
    let sin_y = fp(two_pi.sin());
    let cos_y = fp(two_pi.cos());
    let (vertices, _) = build_icosahedron();
    for &v in &vertices {
        let r = rotate_y(v, sin_y, cos_y);
        assert!((r.x - v.x).abs() <= 5);
        assert!((r.y - v.y).abs() <= 5);
        assert!((r.z - v.z).abs() <= 5);
    }
}

#[test]
fn origin_projects_to_viewport_centre() {
    let origin = Vec3 { x: 0, y: 0, z: 0 };
    // any rotation: angle 0 and an arbitrary nonzero angle
    for &(sin_y, cos_y) in &[(0i64, FP_ONE), (fp(0.7f64.sin()), fp(0.7f64.cos()))] {
        let p = project_point(origin, sin_y, cos_y, D, SCALE, W, H);
        assert_eq!(p, ScreenPoint { x: W / 2, y: H / 2 });
    }
    // and for other positive parameters
    let p = project_point(origin, 0, FP_ONE, 1_000_000, 50_000_000, 1_024_000_000, 768_000_000);
    assert_eq!(p, ScreenPoint { x: 512_000_000, y: 384_000_000 });
}

#[test]
fn projection_is_deterministic() {
    let (vertices, _) = build_icosahedron();
    let sin_y = fp(1.23f64.sin());
    let cos_y = fp(1.23f64.cos());
    let p1 = project(&vertices, sin_y, cos_y, D, SCALE, W, H);
    let p2 = project(&vertices, sin_y, cos_y, D, SCALE, W, H);
    assert_eq!(p1, p2);
}

#[test]
fn first_vertex_projects_per_the_formula() {
    // vertex (0, 1, phi) at angle 0: z_depth = phi + 3, x centred, and
    // y = 300 - (1 / (phi + 3)) * 200 ~= 256.6915 pixels
    let v = Vec3 { x: 0, y: FP_ONE, z: PHI_FP };
    let p = project_point(v, 0, FP_ONE, D, SCALE, W, H);
    assert_eq!(p.x, 400_000_000);
    assert_eq!(p.y, 256_691_528);
    let expected = 300.0 - (1.0 / (1.618033988749895 + 3.0)) * 200.0;
    assert!((p.y as f64 / 1_000_000.0 - expected).abs() < 0.001);
}

#[test]
fn reference_point_projects_near_the_worked_values() {
    // a point whose rotated coordinates are (phi, 1, 0): with d = 3 and
    // scale = 200 it lands at (phi / 3) * 200 + 400 ~= 507.87 and
    // 300 - (1 / 3) * 200 ~= 233.33 pixels
    let v = Vec3 { x: PHI_FP, y: FP_ONE, z: 0 };
    let p = project_point(v, 0, FP_ONE, D, SCALE, W, H);
    assert_eq!(p.x, 507_868_933);
    assert_eq!(p.y, 233_333_334);
    let ex = (1.618033988749895 / 3.0) * 200.0 + 400.0;
    let ey = 300.0 - (1.0 / 3.0) * 200.0;
    assert!((p.x as f64 / 1_000_000.0 - ex).abs() < 0.001);
    assert!((p.y as f64 / 1_000_000.0 - ey).abs() < 0.001);
}

#[test]
fn depth_is_clamped_at_the_camera_plane() {
    // rotated depth z' + d would be negative; it is clamped to one
    // millionth, so the point flies far off screen instead of flipping sign
    let v = Vec3 { x: 0, y: FP_ONE, z: -2_000_000 };
    let p = project_point(v, 0, FP_ONE, 1_000_000, SCALE, W, H);
    assert_eq!(p.x, 400_000_000);
    assert_eq!(p.y, 300_000_000 - 200_000_000_000_000);
}

#[test]
fn update_advances_both_angles_by_the_fixed_step() {
    let mut s = State::new();
    assert_eq!(s.angle_x, 0);
    assert_eq!(s.angle_y, 0);
    s.update();
    assert_eq!(s.angle_x, ROT_STEP);
    assert_eq!(s.angle_y, ROT_STEP);
    s.update();
    assert_eq!(s.angle_y, 2 * ROT_STEP);
}

#[test]
fn update_wraps_angles_below_a_full_turn() {
    let mut s = State::new();
    s.angle_x = TWO_PI_FP - 5_000;
    s.angle_y = TWO_PI_FP - 25_000;
    s.update();
    assert_eq!(s.angle_x, ROT_STEP - 5_000);
    assert_eq!(s.angle_y, TWO_PI_FP - 25_000 + ROT_STEP);
    assert!(s.angle_x < TWO_PI_FP && s.angle_y < TWO_PI_FP);
}

#[test]
fn state_new_uses_the_reference_parameters() {
    let s = State::new();
    assert_eq!(s.d, 3_000_000);
    assert_eq!(s.scale, 200_000_000);
    assert_eq!(s.vertices.len(), 12);
    assert_eq!(s.edges.len(), 30);
}

#[test]
fn frame_segments_join_the_projected_edge_endpoints() {
    let s = State::new();
    let sin_y = fp(0.44f64.sin());
    let cos_y = fp(0.44f64.cos());
    let segs = s.frame_segments(sin_y, cos_y, W, H);
    let pts = project(&s.vertices, sin_y, cos_y, s.d, s.scale, W, H);
    assert_eq!(segs.len(), 30);
    for (k, &(i, j)) in s.edges.iter().enumerate() {
        assert_eq!(segs[k].0, pts[i]);
        assert_eq!(segs[k].1, pts[j]);
    }
}

#[test]
fn make_segments_preserves_edge_order() {
    let pts = vec![
        ScreenPoint { x: 1, y: 2 },
        ScreenPoint { x: 3, y: 4 },
        ScreenPoint { x: 5, y: 6 },
    ];
    let edges = vec![(0usize, 2usize), (1usize, 0usize)];
    let segs = make_segments(&edges, &pts);
    assert_eq!(segs.len(), 2);
    assert_eq!(segs[0], (pts[0], pts[2]));
    assert_eq!(segs[1], (pts[1], pts[0]));
}
