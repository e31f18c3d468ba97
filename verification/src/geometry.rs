//! The fixed vertex set of a regular icosahedron and its edge list,
//! derived from the vertices by squared-distance comparison.
//!
//! Coordinates are fixed-point (millionths of a unit, see
//! [`crate::fixed::FP_ONE`]).  The twelve vertices are all cyclic axis
//! permutations of `(0, +-1, +-phi)`, with `phi` the golden ratio.  A pair of
//! distinct vertices is an edge exactly when its squared distance is `4`
//! within the tolerance `1e-4`; that reconstructs the thirty edges of the
//! icosahedron without hardcoding connectivity.

use vstd::prelude::*;

verus! {

use crate::fixed::FP_ONE;

/// The golden ratio in fixed-point form (`phi ~= 1.618033988749895`).
pub const PHI_FP: i64 = 1_618_034;

/// Squared edge length of the icosahedron (`2 * 2`), in squared
/// fixed-point units.
pub const EDGE_DIST_SQ: i64 = 4_000_000_000_000;

/// Tolerance `1e-4` on the squared distance, in squared fixed-point units.
pub const EDGE_TOL: i64 = 100_000_000;

/// A 3D point with fixed-point coordinates.
#[derive(Clone, Copy, PartialEq, Eq, Structural, Debug)]
pub struct Vec3 {
    pub x: i64,
    pub y: i64,
    pub z: i64,
}

/// The `k`-th icosahedron vertex: the cyclic permutations of
/// `(0, +-1, +-phi)`, enumerated axis by axis.
pub open spec fn icosa_vertex(k: int) -> Vec3 {
    if k == 0 {
        Vec3 { x: 0, y: FP_ONE, z: PHI_FP }
    } else if k == 1 {
        Vec3 { x: 0, y: (-FP_ONE) as i64, z: PHI_FP }
    } else if k == 2 {
        Vec3 { x: 0, y: FP_ONE, z: (-PHI_FP) as i64 }
    } else if k == 3 {
        Vec3 { x: 0, y: (-FP_ONE) as i64, z: (-PHI_FP) as i64 }
    } else if k == 4 {
        Vec3 { x: FP_ONE, y: PHI_FP, z: 0 }
    } else if k == 5 {
        Vec3 { x: (-FP_ONE) as i64, y: PHI_FP, z: 0 }
    } else if k == 6 {
        Vec3 { x: FP_ONE, y: (-PHI_FP) as i64, z: 0 }
    } else if k == 7 {
        Vec3 { x: (-FP_ONE) as i64, y: (-PHI_FP) as i64, z: 0 }
    } else if k == 8 {
        Vec3 { x: PHI_FP, y: 0, z: FP_ONE }
    } else if k == 9 {
        Vec3 { x: (-PHI_FP) as i64, y: 0, z: FP_ONE }
    } else if k == 10 {
        Vec3 { x: PHI_FP, y: 0, z: (-FP_ONE) as i64 }
    } else {
        Vec3 { x: (-PHI_FP) as i64, y: 0, z: (-FP_ONE) as i64 }
    }
}

/// Squared Euclidean distance between two points, exact (no overflow:
/// spec arithmetic is over `int`).
pub open spec fn dist_sq(a: Vec3, b: Vec3) -> int {
    let dx = a.x - b.x;
    let dy = a.y - b.y;
    let dz = a.z - b.z;
    dx * dx + dy * dy + dz * dz
}

/// Vertices `i` and `j` form an edge: their squared distance is
/// [`EDGE_DIST_SQ`] within [`EDGE_TOL`].
pub open spec fn is_edge(i: int, j: int) -> bool {
    let delta = dist_sq(icosa_vertex(i), icosa_vertex(j)) - EDGE_DIST_SQ;
    -(EDGE_TOL as int) < delta && delta < EDGE_TOL
}

/// The edge pairs `(a, b)` with `a < b < 12`, in lexicographic order,
/// restricted to those at or after position `(i, j)` of the pair scan.
pub open spec fn edge_seq_from(i: int, j: int) -> Seq<(usize, usize)>
    decreases 12 - i, 13 - j,
{
    if i >= 11 {
        Seq::empty()
    } else if j >= 12 {
        edge_seq_from(i + 1, i + 2)
    } else {
        let rest = edge_seq_from(i, j + 1);
        if is_edge(i, j) {
            seq![(i as usize, j as usize)] + rest
        } else {
            rest
        }
    }
}

/// The full icosahedron edge list, in lexicographic order.
pub open spec fn icosa_edges() -> Seq<(usize, usize)> {
    edge_seq_from(0, 1)
}

/// Every coordinate of every icosahedron vertex lies in
/// `[-PHI_FP, PHI_FP]`.
pub open spec fn vertex_in_bounds(v: Vec3) -> bool {
    &&& -PHI_FP <= v.x <= PHI_FP
    &&& -PHI_FP <= v.y <= PHI_FP
    &&& -PHI_FP <= v.z <= PHI_FP
}

pub proof fn lemma_vertex_bounds()
    ensures
        forall|k: int| 0 <= k < 12 ==> vertex_in_bounds(#[trigger] icosa_vertex(k)),
{
}

/// Pair `(a, b)` comes strictly before `(i, j)` in the lexicographic scan
/// of index pairs.
pub open spec fn lex_before(a: int, b: int, i: int, j: int) -> bool {
    a < i || (a == i && b < j)
}

/// Builds the twelve icosahedron vertices and derives the thirty edges by
/// squared-distance comparison over all index pairs `i < j`.
///
/// The result is fully determined: the vertex list is exactly
/// [`icosa_vertex`]`(0) .. `[`icosa_vertex`]`(11)` and the edge list is
/// exactly [`icosa_edges`], the lexicographically ordered list of all pairs
/// whose squared distance is `4` within tolerance — and no others.
pub fn build_icosahedron() -> (r: (Vec<Vec3>, Vec<(usize, usize)>))
    ensures
        r.0@.len() == 12,
        forall|k: int| 0 <= k < 12 ==> r.0@[k] == icosa_vertex(k),
        r.1@ == icosa_edges(),
        r.1@.len() == 30,
        forall|k: int|
            0 <= k < r.1@.len() ==> {
                let (a, b) = #[trigger] r.1@[k];
                a < b < 12 && is_edge(a as int, b as int)
            },
        forall|a: int, b: int|
            0 <= a < b < 12 ==> (r.1@.contains((a as usize, b as usize)) <==> is_edge(a, b)),
{
    let mut vertices: Vec<Vec3> = Vec::new();
    vertices.push(Vec3 { x: 0, y: FP_ONE, z: PHI_FP });
    vertices.push(Vec3 { x: 0, y: (-FP_ONE) as i64, z: PHI_FP });
    vertices.push(Vec3 { x: 0, y: FP_ONE, z: (-PHI_FP) as i64 });
    vertices.push(Vec3 { x: 0, y: (-FP_ONE) as i64, z: (-PHI_FP) as i64 });
    vertices.push(Vec3 { x: FP_ONE, y: PHI_FP, z: 0 });
    vertices.push(Vec3 { x: (-FP_ONE) as i64, y: PHI_FP, z: 0 });
    vertices.push(Vec3 { x: FP_ONE, y: (-PHI_FP) as i64, z: 0 });
    vertices.push(Vec3 { x: (-FP_ONE) as i64, y: (-PHI_FP) as i64, z: 0 });
    vertices.push(Vec3 { x: PHI_FP, y: 0, z: FP_ONE });
    vertices.push(Vec3 { x: (-PHI_FP) as i64, y: 0, z: FP_ONE });
    vertices.push(Vec3 { x: PHI_FP, y: 0, z: (-FP_ONE) as i64 });
    vertices.push(Vec3 { x: (-PHI_FP) as i64, y: 0, z: (-FP_ONE) as i64 });
    assert(forall|k: int| 0 <= k < 12 ==> vertices@[k] == icosa_vertex(k));

    let mut edges: Vec<(usize, usize)> = Vec::new();
    let mut i: usize = 0;
    while i < 12
        invariant
            i <= 12,
            vertices@.len() == 12,
            forall|k: int| 0 <= k < 12 ==> vertices@[k] == icosa_vertex(k),
            edges@ + edge_seq_from(i as int, i as int + 1) == icosa_edges(),
            forall|k: int|
                0 <= k < edges@.len() ==> {
                    let (a, b) = #[trigger] edges@[k];
                    a < b < 12 && is_edge(a as int, b as int)
                },
            forall|a: int, b: int|
                0 <= a < b < 12 && lex_before(a, b, i as int, i as int + 1) && is_edge(a, b)
                    ==> edges@.contains((a as usize, b as usize)),
        decreases 12 - i,
    {
        let mut j: usize = i + 1;
        while j < 12
            invariant
                i < 12,
                i + 1 <= j <= 12,
                vertices@.len() == 12,
                forall|k: int| 0 <= k < 12 ==> vertices@[k] == icosa_vertex(k),
                edges@ + edge_seq_from(i as int, j as int) == icosa_edges(),
                forall|k: int|
                    0 <= k < edges@.len() ==> {
                        let (a, b) = #[trigger] edges@[k];
                        a < b < 12 && is_edge(a as int, b as int)
                    },
                forall|a: int, b: int|
                    0 <= a < b < 12 && lex_before(a, b, i as int, j as int) && is_edge(a, b)
                        ==> edges@.contains((a as usize, b as usize)),
            decreases 12 - j,
        {
            proof {
                lemma_vertex_bounds();
                assert(vertex_in_bounds(icosa_vertex(i as int)));
                assert(vertex_in_bounds(icosa_vertex(j as int)));
            }
            let vi = vertices[i];
            let vj = vertices[j];
            let dx = vi.x - vj.x;
            let dy = vi.y - vj.y;
            let dz = vi.z - vj.z;
            proof {
                crate::fixed::lemma_mul_bound(dx as int, dx as int, 2 * PHI_FP, 2 * PHI_FP);
                crate::fixed::lemma_mul_bound(dy as int, dy as int, 2 * PHI_FP, 2 * PHI_FP);
                crate::fixed::lemma_mul_bound(dz as int, dz as int, 2 * PHI_FP, 2 * PHI_FP);
            }
            let dsq = dx * dx + dy * dy + dz * dz;
            let delta = dsq - EDGE_DIST_SQ;
            if -EDGE_TOL < delta && delta < EDGE_TOL {
                let ghost old_edges = edges@;
                edges.push((i, j));
                proof {
                    assert(is_edge(i as int, j as int));
                    assert(edge_seq_from(i as int, j as int) == seq![(i, j)]
                        + edge_seq_from(i as int, j as int + 1));
                    assert(edges@ + edge_seq_from(i as int, j as int + 1) =~= old_edges
                        + edge_seq_from(i as int, j as int));
                    assert forall|a: int, b: int|
                        0 <= a < b < 12 && lex_before(a, b, i as int, j as int + 1) && is_edge(
                            a,
                            b,
                        ) implies edges@.contains((a as usize, b as usize)) by {
                        if a == i as int && b == j as int {
                            assert(edges@[edges@.len() - 1] == (a as usize, b as usize));
                        } else {
                            assert(old_edges.contains((a as usize, b as usize)));
                            let k = choose|k: int|
                                0 <= k < old_edges.len() && old_edges[k] == (
                                a as usize,
                                b as usize,
                                );
                            assert(edges@[k] == (a as usize, b as usize));
                        }
                    }
                }
            } else {
                proof {
                    assert(!is_edge(i as int, j as int));
                    assert(edge_seq_from(i as int, j as int) == edge_seq_from(
                        i as int,
                        j as int + 1,
                    ));
                }
            }
            j += 1;
        }
        proof {
            assert(edge_seq_from(i as int, 12) == edge_seq_from(i as int + 1, i as int + 2));
        }
        i += 1;
    }
    proof {
        assert(edge_seq_from(12, 13) =~= Seq::<(usize, usize)>::empty());
        assert(edges@ =~= edges@ + edge_seq_from(12, 13));
        lemma_icosa_edges_eq_list();
        assert forall|a: int, b: int|
            0 <= a < b < 12 && edges@.contains((a as usize, b as usize)) implies is_edge(
            a,
            b,
        ) by {
            let k = choose|k: int|
                0 <= k < edges@.len() && edges@[k] == (a as usize, b as usize);
            assert(edges@[k] == (a as usize, b as usize));
        }
    }
    (vertices, edges)
}

/// The thirty icosahedron edges written out, for concrete reasoning about
/// counts and degrees.
pub open spec fn icosa_edge_list() -> Seq<(usize, usize)> {
    seq![
        (0usize, 1usize),
        (0usize, 4usize),
        (0usize, 5usize),
        (0usize, 8usize),
        (0usize, 9usize),
        (1usize, 6usize),
        (1usize, 7usize),
        (1usize, 8usize),
        (1usize, 9usize),
        (2usize, 3usize),
        (2usize, 4usize),
        (2usize, 5usize),
        (2usize, 10usize),
        (2usize, 11usize),
        (3usize, 6usize),
        (3usize, 7usize),
        (3usize, 10usize),
        (3usize, 11usize),
        (4usize, 5usize),
        (4usize, 8usize),
        (4usize, 10usize),
        (5usize, 9usize),
        (5usize, 11usize),
        (6usize, 7usize),
        (6usize, 8usize),
        (6usize, 10usize),
        (7usize, 9usize),
        (7usize, 11usize),
        (8usize, 10usize),
        (9usize, 11usize),
    ]
}

/// Ground values of the squares of every coordinate difference that occurs
/// between two icosahedron vertices; stating them lets the solver evaluate
/// [`dist_sq`] on concrete vertices.
proof fn lemma_square_table()
    ensures
        (-3236068) * (-3236068) == 10472136100624 && 3236068 * 3236068 == 10472136100624,
        (-2618034) * (-2618034) == 6854102025156 && 2618034 * 2618034 == 6854102025156,
        (-2000000) * (-2000000) == 4000000000000 && 2000000 * 2000000 == 4000000000000,
        (-1618034) * (-1618034) == 2618034025156 && 1618034 * 1618034 == 2618034025156,
        (-1000000) * (-1000000) == 1000000000000 && 1000000 * 1000000 == 1000000000000,
        (-618034) * (-618034) == 381966025156 && 618034 * 618034 == 381966025156,
        0 * 0 == 0,
{
    assert((-3236068) * (-3236068) == 10472136100624) by (nonlinear_arith);
    assert(3236068 * 3236068 == 10472136100624) by (nonlinear_arith);
    assert((-2618034) * (-2618034) == 6854102025156) by (nonlinear_arith);
    assert(2618034 * 2618034 == 6854102025156) by (nonlinear_arith);
    assert((-2000000) * (-2000000) == 4000000000000) by (nonlinear_arith);
    assert(2000000 * 2000000 == 4000000000000) by (nonlinear_arith);
    assert((-1618034) * (-1618034) == 2618034025156) by (nonlinear_arith);
    assert(1618034 * 1618034 == 2618034025156) by (nonlinear_arith);
    assert((-1000000) * (-1000000) == 1000000000000) by (nonlinear_arith);
    assert(1000000 * 1000000 == 1000000000000) by (nonlinear_arith);
    assert((-618034) * (-618034) == 381966025156) by (nonlinear_arith);
    assert(618034 * 618034 == 381966025156) by (nonlinear_arith);
    assert(0 * 0 == 0) by (nonlinear_arith);
}

/// The distance-derived edge list is exactly the thirty edges of the
/// icosahedron, in lexicographic order.
#[verifier::rlimit(100)]
pub proof fn lemma_icosa_edges_eq_list()
    ensures
        icosa_edges() == icosa_edge_list(),
        icosa_edges().len() == 30,
{
    lemma_square_table();
    let l = icosa_edge_list();
    assert(l.len() == 30);
    assert(edge_seq_from(11, 12) =~= l.skip(30)) by {
        reveal_with_fuel(edge_seq_from, 2);
    }
    assert(edge_seq_from(10, 11) =~= l.skip(30)) by {
        reveal_with_fuel(edge_seq_from, 4);
    }
    assert(edge_seq_from(9, 10) =~= l.skip(29)) by {
        reveal_with_fuel(edge_seq_from, 5);
    }
    assert(edge_seq_from(8, 9) =~= l.skip(28)) by {
        reveal_with_fuel(edge_seq_from, 6);
    }
    assert(edge_seq_from(7, 8) =~= l.skip(26)) by {
        reveal_with_fuel(edge_seq_from, 7);
    }
    assert(edge_seq_from(6, 7) =~= l.skip(23)) by {
        reveal_with_fuel(edge_seq_from, 8);
    }
    assert(edge_seq_from(5, 6) =~= l.skip(21)) by {
        reveal_with_fuel(edge_seq_from, 9);
    }
    assert(edge_seq_from(4, 5) =~= l.skip(18)) by {
        reveal_with_fuel(edge_seq_from, 10);
    }
    assert(edge_seq_from(3, 4) =~= l.skip(14)) by {
        reveal_with_fuel(edge_seq_from, 11);
    }
    assert(edge_seq_from(2, 3) =~= l.skip(9)) by {
        reveal_with_fuel(edge_seq_from, 12);
    }
    assert(edge_seq_from(1, 2) =~= l.skip(5)) by {
        reveal_with_fuel(edge_seq_from, 13);
    }
    assert(edge_seq_from(0, 1) =~= l.skip(0)) by {
        reveal_with_fuel(edge_seq_from, 14);
    }
    assert(icosa_edges() =~= l);
}

/// How many of the edges in `es` are incident to vertex `v`, looking at the
/// first `n` entries.
pub open spec fn degree_upto(v: int, es: Seq<(usize, usize)>, n: int) -> int
    decreases n,
{
    if n <= 0 {
        0
    } else {
        degree_upto(v, es, n - 1) + if es[n - 1].0 as int == v || es[n - 1].1 as int == v {
            1int
        } else {
            0int
        }
    }
}

/// How many edges of `es` are incident to vertex `v`.
pub open spec fn degree_of(v: int, es: Seq<(usize, usize)>) -> int {
    degree_upto(v, es, es.len() as int)
}

/// Edge regularity: every vertex of the icosahedron is incident to exactly
/// five of the thirty edges.
#[verifier::rlimit(100)]
pub proof fn lemma_vertex_degree()
    ensures
        forall|v: int| 0 <= v < 12 ==> degree_of(v, icosa_edges()) == 5,
{
    lemma_icosa_edges_eq_list();
    let es = icosa_edge_list();
    assert forall|v: int| 0 <= v < 12 implies degree_of(v, icosa_edges()) == 5 by {
        reveal_with_fuel(degree_upto, 31);
        if v == 0 {
            assert(degree_of(0, es) == 5);
        } else if v == 1 {
            assert(degree_of(1, es) == 5);
        } else if v == 2 {
            assert(degree_of(2, es) == 5);
        } else if v == 3 {
            assert(degree_of(3, es) == 5);
        } else if v == 4 {
            assert(degree_of(4, es) == 5);
        } else if v == 5 {
            assert(degree_of(5, es) == 5);
        } else if v == 6 {
            assert(degree_of(6, es) == 5);
        } else if v == 7 {
            assert(degree_of(7, es) == 5);
        } else if v == 8 {
            assert(degree_of(8, es) == 5);
        } else if v == 9 {
            assert(degree_of(9, es) == 5);
        } else if v == 10 {
            assert(degree_of(10, es) == 5);
        } else {
            assert(degree_of(11, es) == 5);
        }
    }
}

} // verus!
