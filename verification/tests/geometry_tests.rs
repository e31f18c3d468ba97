use icosahedron::geometry::build_icosahedron;
use icosahedron::geometry::Vec3;
use icosahedron::geometry::EDGE_DIST_SQ;
use icosahedron::geometry::EDGE_TOL;
use icosahedron::geometry::PHI_FP;
use icosahedron::fixed::FP_ONE;

fn dist_sq(a: Vec3, b: Vec3) -> i64 {
    let dx = a.x - b.x;
    let dy = a.y - b.y;
    let dz = a.z - b.z;
    dx * dx + dy * dy + dz * dz
}

#[test]
fn vertex_count_is_twelve() {
    let (vertices, _) = build_icosahedron();
    assert_eq!(vertices.len(), 12);
}

#[test]
fn vertex_coordinates_follow_the_phi_pattern() {
    let (vertices, _) = build_icosahedron();
    assert_eq!(vertices[0], Vec3 { x: 0, y: FP_ONE, z: PHI_FP });
    assert_eq!(vertices[3], Vec3 { x: 0, y: -FP_ONE, z: -PHI_FP });
    assert_eq!(vertices[5], Vec3 { x: -FP_ONE, y: PHI_FP, z: 0 });
    assert_eq!(vertices[10], Vec3 { x: PHI_FP, y: 0, z: -FP_ONE });
    // all twelve are distinct
    for i in 0..12 {
        for j in (i + 1)..12 {
            assert_ne!(vertices[i], vertices[j]);
        }
    }
}

#[test]
fn edge_count_is_thirty() {
    let (_, edges) = build_icosahedron();
    assert_eq!(edges.len(), 30);
}

#[test]
fn every_vertex_has_degree_five() {
    let (_, edges) = build_icosahedron();
    let mut degree = [0usize; 12];
    for &(i, j) in &edges {
        degree[i] += 1;
        degree[j] += 1;
    }
    for v in 0..12 {
        assert_eq!(degree[v], 5);
    }
}

#[test]
fn edges_are_exactly_the_pairs_at_distance_two() {
    let (vertices, edges) = build_icosahedron();
    // every listed edge is within tolerance of squared distance 4
    for &(i, j) in &edges {
        let delta = dist_sq(vertices[i], vertices[j]) - EDGE_DIST_SQ;
        assert!(-EDGE_TOL < delta && delta < EDGE_TOL);
    }
    // and no pair outside tolerance is listed
    for i in 0..12 {
        for j in (i + 1)..12 {
            let delta = dist_sq(vertices[i], vertices[j]) - EDGE_DIST_SQ;
            let within = -EDGE_TOL < delta && delta < EDGE_TOL;
            let listed = edges.iter().any(|&e| e == (i, j));
            assert_eq!(within, listed);
        }
    }
}

#[test]
fn edges_are_sorted_and_unique() {
    let (_, edges) = build_icosahedron();
    for k in 0..edges.len() {
        let (i, j) = edges[k];
        assert!(i < j && j < 12);
        if k + 1 < edges.len() {
            let (i2, j2) = edges[k + 1];
            assert!(i < i2 || (i == i2 && j < j2));
        }
    }
}

#[test]
fn build_is_deterministic() {
    let (v1, e1) = build_icosahedron();
    let (v2, e2) = build_icosahedron();
    assert_eq!(v1, v2);
    assert_eq!(e1, e2);
}
