//! Rotation about the vertical axis, perspective projection to screen
//! coordinates, and the per-frame orientation state.
//!
//! Angles are fixed-point radians (millionths).  The host evaluates
//! `sin`/`cos` of the current angle and passes their fixed-point values in;
//! every computation here is exact integer arithmetic with the truncating
//! division [`fpdiv`].  Only the vertical-axis rotation enters the
//! transform: `angle_x` is accumulated but deliberately unused, for a
//! single-axis tumble.  A rotated depth that would reach the camera plane
//! is clamped to the smallest positive fixed-point value rather than
//! dividing by zero or a negative depth.

use vstd::prelude::*;

verus! {

use crate::fixed::FP_ONE;
use crate::fixed::div_trunc;
use crate::fixed::fpdiv;
use crate::fixed::lemma_fpdiv_cancel;
use crate::fixed::lemma_fpdiv_of0;
use crate::fixed::lemma_fpdiv_ratio_bound;
use crate::fixed::lemma_mul_bound;
use crate::geometry::Vec3;
use crate::geometry::build_icosahedron;
use crate::geometry::icosa_edges;
use crate::geometry::icosa_vertex;
use vstd::arithmetic::mul::lemma_mul_basics;

/// One full turn (`2 * pi`) in fixed-point radians.
pub const TWO_PI_FP: i64 = 6_283_185;

/// The per-frame rotation step (`0.02` radians per frame; the rotation
/// speed is per frame, not scaled by elapsed time).
pub const ROT_STEP: i64 = 20_000;

/// Largest coordinate magnitude the transform accepts (2000 units).
pub const COORD_LIMIT: i64 = 2_000_000_000;

/// Largest camera distance accepted (a million units).
pub const D_MAX: i64 = 1_000_000_000_000;

/// Largest scale factor accepted (1000 units).
pub const SCALE_MAX: i64 = 1_000_000_000;

/// Largest viewport dimension accepted (a million pixels).
pub const VIEW_MAX: i64 = 1_000_000_000_000;

/// A 2D screen point in fixed-point pixels (millionths of a pixel).
#[derive(Clone, Copy, PartialEq, Eq, Structural, Debug)]
pub struct ScreenPoint {
    pub x: i64,
    pub y: i64,
}

/// Every coordinate of `v` is within [`COORD_LIMIT`].
pub open spec fn vertex_limit(v: Vec3) -> bool {
    &&& -COORD_LIMIT <= v.x <= COORD_LIMIT
    &&& -COORD_LIMIT <= v.y <= COORD_LIMIT
    &&& -COORD_LIMIT <= v.z <= COORD_LIMIT
}

/// `s` and `c` are plausible sine/cosine values: both within one unit.
pub open spec fn trig_limit(s: int, c: int) -> bool {
    &&& -FP_ONE <= s <= FP_ONE
    &&& -FP_ONE <= c <= FP_ONE
}

/// The projection parameters are positive and within the machine limits.
pub open spec fn param_limit(d: int, scale: int, w: int, h: int) -> bool {
    &&& 1 <= d <= D_MAX
    &&& 1 <= scale <= SCALE_MAX
    &&& 0 <= w <= VIEW_MAX
    &&& 0 <= h <= VIEW_MAX
}

/// The x coordinate of `v` rotated about the vertical axis:
/// `x' = x * cos + z * sin`.
pub open spec fn rotated_x(v: Vec3, sin_y: int, cos_y: int) -> int {
    fpdiv(v.x * cos_y + v.z * sin_y, FP_ONE as int)
}

/// The z coordinate of `v` rotated about the vertical axis:
/// `z' = -x * sin + z * cos`.
pub open spec fn rotated_z(v: Vec3, sin_y: int, cos_y: int) -> int {
    fpdiv(v.z * cos_y - v.x * sin_y, FP_ONE as int)
}

/// Depth of the rotated vertex in front of the camera: `z' + d`, clamped
/// to the smallest positive fixed-point value so the perspective divide is
/// defined even when the vertex reaches the camera plane.
pub open spec fn depth_of(v: Vec3, sin_y: int, cos_y: int, d: int) -> int {
    let zd = rotated_z(v, sin_y, cos_y) + d;
    if zd < 1 {
        1
    } else {
        zd
    }
}

/// Horizontal screen coordinate: `(x' / z_depth) * scale + w / 2`.
pub open spec fn screen_x(v: Vec3, sin_y: int, cos_y: int, d: int, scale: int, w: int) -> int {
    fpdiv(rotated_x(v, sin_y, cos_y) * scale, depth_of(v, sin_y, cos_y, d)) + fpdiv(w, 2)
}

/// Vertical screen coordinate: `h / 2 - (y / z_depth) * scale` (the y
/// coordinate is untouched by the vertical-axis rotation).
pub open spec fn screen_y(v: Vec3, sin_y: int, cos_y: int, d: int, scale: int, h: int) -> int {
    fpdiv(h, 2) - fpdiv(v.y * scale, depth_of(v, sin_y, cos_y, d))
}

/// Rotates `v` about the vertical axis, given the fixed-point sine and
/// cosine of the rotation angle.
pub fn rotate_y(v: Vec3, sin_y: i64, cos_y: i64) -> (r: Vec3)
    requires
        vertex_limit(v),
        trig_limit(sin_y as int, cos_y as int),
    ensures
        r.x == rotated_x(v, sin_y as int, cos_y as int),
        r.y == v.y,
        r.z == rotated_z(v, sin_y as int, cos_y as int),
        -2 * COORD_LIMIT <= r.x <= 2 * COORD_LIMIT,
        -2 * COORD_LIMIT <= r.z <= 2 * COORD_LIMIT,
{
    proof {
        lemma_mul_bound(v.x as int, cos_y as int, COORD_LIMIT as int, FP_ONE as int);
        lemma_mul_bound(v.z as int, sin_y as int, COORD_LIMIT as int, FP_ONE as int);
        lemma_mul_bound(v.z as int, cos_y as int, COORD_LIMIT as int, FP_ONE as int);
        lemma_mul_bound(v.x as int, sin_y as int, COORD_LIMIT as int, FP_ONE as int);
        assert((COORD_LIMIT as int) * (FP_ONE as int) == 2_000_000_000_000_000) by (nonlinear_arith);
        assert((2 * COORD_LIMIT as int) * (FP_ONE as int) == 4_000_000_000_000_000)
            by (nonlinear_arith);
    }
    let nx = v.x * cos_y + v.z * sin_y;
    let nz = v.z * cos_y - v.x * sin_y;
    proof {
        lemma_fpdiv_ratio_bound(nx as int, FP_ONE as int, 2 * COORD_LIMIT as int);
        lemma_fpdiv_ratio_bound(nz as int, FP_ONE as int, 2 * COORD_LIMIT as int);
    }
    let rx = div_trunc(nx, FP_ONE);
    let rz = div_trunc(nz, FP_ONE);
    Vec3 { x: rx, y: v.y, z: rz }
}

/// Projects one vertex to screen coordinates: rotate about the vertical
/// axis, add the camera distance to the depth, divide by the depth and
/// scale, then centre on the viewport.
pub fn project_point(v: Vec3, sin_y: i64, cos_y: i64, d: i64, scale: i64, w: i64, h: i64) -> (p:
    ScreenPoint)
    requires
        vertex_limit(v),
        trig_limit(sin_y as int, cos_y as int),
        param_limit(d as int, scale as int, w as int, h as int),
    ensures
        p.x == screen_x(v, sin_y as int, cos_y as int, d as int, scale as int, w as int),
        p.y == screen_y(v, sin_y as int, cos_y as int, d as int, scale as int, h as int),
{
    let r = rotate_y(v, sin_y, cos_y);
    let zd0 = r.z + d;
    let zd = if zd0 < 1 {
        1
    } else {
        zd0
    };
    proof {
        lemma_mul_bound(r.x as int, scale as int, 2 * COORD_LIMIT as int, SCALE_MAX as int);
        lemma_mul_bound(r.y as int, scale as int, COORD_LIMIT as int, SCALE_MAX as int);
        assert((2 * COORD_LIMIT as int) * (SCALE_MAX as int) == 4_000_000_000_000_000_000)
            by (nonlinear_arith);
        assert((COORD_LIMIT as int) * (SCALE_MAX as int) == 2_000_000_000_000_000_000)
            by (nonlinear_arith);
    }
    let mx = r.x * scale;
    let my = r.y * scale;
    let qx = div_trunc(mx, zd);
    let qy = div_trunc(my, zd);
    let w2 = div_trunc(w, 2);
    let h2 = div_trunc(h, 2);
    ScreenPoint { x: qx + w2, y: h2 - qy }
}

/// Projects every vertex, preserving index correspondence.
pub fn project(vertices: &Vec<Vec3>, sin_y: i64, cos_y: i64, d: i64, scale: i64, w: i64, h: i64)
    -> (pts: Vec<ScreenPoint>)
    requires
        forall|k: int| 0 <= k < vertices@.len() ==> vertex_limit(#[trigger] vertices@[k]),
        trig_limit(sin_y as int, cos_y as int),
        param_limit(d as int, scale as int, w as int, h as int),
    ensures
        pts@.len() == vertices@.len(),
        forall|k: int|
            0 <= k < vertices@.len() ==> {
                &&& (#[trigger] pts@[k]).x == screen_x(
                    vertices@[k],
                    sin_y as int,
                    cos_y as int,
                    d as int,
                    scale as int,
                    w as int,
                )
                &&& pts@[k].y == screen_y(
                    vertices@[k],
                    sin_y as int,
                    cos_y as int,
                    d as int,
                    scale as int,
                    h as int,
                )
            },
{
    let mut pts: Vec<ScreenPoint> = Vec::new();
    let mut k: usize = 0;
    while k < vertices.len()
        invariant
            k <= vertices@.len(),
            pts@.len() == k,
            forall|m: int| 0 <= m < vertices@.len() ==> vertex_limit(#[trigger] vertices@[m]),
            trig_limit(sin_y as int, cos_y as int),
            param_limit(d as int, scale as int, w as int, h as int),
            forall|m: int|
                0 <= m < k ==> {
                    &&& (#[trigger] pts@[m]).x == screen_x(
                        vertices@[m],
                        sin_y as int,
                        cos_y as int,
                        d as int,
                        scale as int,
                        w as int,
                    )
                    &&& pts@[m].y == screen_y(
                        vertices@[m],
                        sin_y as int,
                        cos_y as int,
                        d as int,
                        scale as int,
                        h as int,
                    )
                },
        decreases vertices@.len() - k,
    {
        let p = project_point(vertices[k], sin_y, cos_y, d, scale, w, h);
        pts.push(p);
        k += 1;
    }
    pts
}

/// Pairs the projected endpoints of every edge, preserving edge order.
pub fn make_segments(edges: &Vec<(usize, usize)>, pts: &Vec<ScreenPoint>) -> (segs: Vec<
    (ScreenPoint, ScreenPoint),
>)
    requires
        forall|k: int|
            0 <= k < edges@.len() ==> (#[trigger] edges@[k]).0 < pts@.len() && edges@[k].1
                < pts@.len(),
    ensures
        segs@.len() == edges@.len(),
        forall|k: int|
            0 <= k < edges@.len() ==> (#[trigger] segs@[k]).0 == pts@[edges@[k].0 as int]
                && segs@[k].1 == pts@[edges@[k].1 as int],
{
    let mut segs: Vec<(ScreenPoint, ScreenPoint)> = Vec::new();
    let mut k: usize = 0;
    while k < edges.len()
        invariant
            k <= edges@.len(),
            segs@.len() == k,
            forall|m: int|
                0 <= m < edges@.len() ==> (#[trigger] edges@[m]).0 < pts@.len() && edges@[m].1
                    < pts@.len(),
            forall|m: int|
                0 <= m < k ==> (#[trigger] segs@[m]).0 == pts@[edges@[m].0 as int] && segs@[m].1
                    == pts@[edges@[m].1 as int],
        decreases edges@.len() - k,
    {
        let (a, b) = edges[k];
        segs.push((pts[a], pts[b]));
        k += 1;
    }
    segs
}

/// Wraps an accumulated angle back below one full turn.
pub open spec fn wrap_angle(a: int) -> int
    recommends
        0 <= a < 2 * TWO_PI_FP,
{
    if a >= TWO_PI_FP {
        a - TWO_PI_FP
    } else {
        a
    }
}

/// The scene state: the fixed geometry, the accumulated rotation angles,
/// and the projection parameters.
pub struct State {
    pub vertices: Vec<Vec3>,
    pub edges: Vec<(usize, usize)>,
    pub angle_x: i64,
    pub angle_y: i64,
    pub d: i64,
    pub scale: i64,
}

impl State {
    /// Well-formedness: the geometry is the icosahedron, the angles are
    /// wrapped into one turn, and the parameters are positive and bounded.
    pub open spec fn wf(self) -> bool {
        &&& self.vertices@.len() == 12
        &&& (forall|k: int| 0 <= k < 12 ==> self.vertices@[k] == icosa_vertex(k))
        &&& self.edges@ == icosa_edges()
        &&& self.edges@.len() == 30
        &&& (forall|k: int|
            0 <= k < self.edges@.len() ==> (#[trigger] self.edges@[k]).0 < self.edges@[k].1 < 12)
        &&& 0 <= self.angle_x < TWO_PI_FP
        &&& 0 <= self.angle_y < TWO_PI_FP
        &&& 1 <= self.d <= D_MAX
        &&& 1 <= self.scale <= SCALE_MAX
    }

    /// Builds the initial scene: the icosahedron at angle zero, camera
    /// distance `3` and scale `200`.
    pub fn new() -> (s: State)
        ensures
            s.wf(),
            s.angle_x == 0,
            s.angle_y == 0,
            s.d == 3_000_000,
            s.scale == 200_000_000,
    {
        let (vertices, edges) = build_icosahedron();
        State { vertices, edges, angle_x: 0, angle_y: 0, d: 3_000_000, scale: 200_000_000 }
    }

    /// Advances both orientation angles by one fixed step, wrapping each
    /// into `[0, TWO_PI_FP)`.  Everything else is unchanged.
    pub fn update(&mut self)
        requires
            old(self).wf(),
        ensures
            final(self).wf(),
            final(self).angle_x == wrap_angle(old(self).angle_x + ROT_STEP),
            final(self).angle_y == wrap_angle(old(self).angle_y + ROT_STEP),
            final(self).vertices == old(self).vertices,
            final(self).edges == old(self).edges,
            final(self).d == old(self).d,
            final(self).scale == old(self).scale,
    {
        let ax = self.angle_x + ROT_STEP;
        self.angle_x = if ax >= TWO_PI_FP {
            ax - TWO_PI_FP
        } else {
            ax
        };
        let ay = self.angle_y + ROT_STEP;
        self.angle_y = if ay >= TWO_PI_FP {
            ay - TWO_PI_FP
        } else {
            ay
        };
    }

    /// The per-frame drawing computation: projects all twelve vertices with
    /// the supplied sine/cosine of `angle_y` and the current viewport, and
    /// pairs the projected endpoints of all thirty edges.
    pub fn frame_segments(&self, sin_y: i64, cos_y: i64, w: i64, h: i64) -> (segs: Vec<
        (ScreenPoint, ScreenPoint),
    >)
        requires
            self.wf(),
            trig_limit(sin_y as int, cos_y as int),
            0 <= w <= VIEW_MAX,
            0 <= h <= VIEW_MAX,
        ensures
            segs@.len() == 30,
            forall|k: int|
                0 <= k < 30 ==> {
                    let (a, b) = #[trigger] self.edges@[k];
                    let sa = segs@[k].0;
                    let sb = segs@[k].1;
                    &&& sa.x == screen_x(
                        self.vertices@[a as int],
                        sin_y as int,
                        cos_y as int,
                        self.d as int,
                        self.scale as int,
                        w as int,
                    )
                    &&& sa.y == screen_y(
                        self.vertices@[a as int],
                        sin_y as int,
                        cos_y as int,
                        self.d as int,
                        self.scale as int,
                        h as int,
                    )
                    &&& sb.x == screen_x(
                        self.vertices@[b as int],
                        sin_y as int,
                        cos_y as int,
                        self.d as int,
                        self.scale as int,
                        w as int,
                    )
                    &&& sb.y == screen_y(
                        self.vertices@[b as int],
                        sin_y as int,
                        cos_y as int,
                        self.d as int,
                        self.scale as int,
                        h as int,
                    )
                },
    {
        proof {
            crate::geometry::lemma_vertex_bounds();
            assert forall|k: int| 0 <= k < self.vertices@.len() implies vertex_limit(
                #[trigger] self.vertices@[k],
            ) by {
                assert(self.vertices@[k] == icosa_vertex(k));
                assert(crate::geometry::vertex_in_bounds(icosa_vertex(k)));
            }
        }
        let pts = project(&self.vertices, sin_y, cos_y, self.d, self.scale, w, h);
        make_segments(&self.edges, &pts)
    }
}

/// Rotating by angle zero (sine `0`, cosine one unit) leaves every vertex
/// exactly unchanged.
pub proof fn lemma_rotation_angle_zero(v: Vec3)
    ensures
        rotated_x(v, 0, FP_ONE as int) == v.x,
        rotated_z(v, 0, FP_ONE as int) == v.z,
{
    lemma_mul_basics(v.x as int);
    lemma_mul_basics(v.z as int);
    lemma_fpdiv_cancel(v.x as int, FP_ONE as int);
    lemma_fpdiv_cancel(v.z as int, FP_ONE as int);
}

/// A vertex at the origin projects exactly to the viewport centre, for any
/// rotation and any positive camera distance and scale.
pub proof fn lemma_projection_centering(
    v: Vec3,
    sin_y: int,
    cos_y: int,
    d: int,
    scale: int,
    w: int,
    h: int,
)
    requires
        v.x == 0,
        v.y == 0,
        v.z == 0,
        d >= 1,
        scale >= 1,
        w >= 0,
        h >= 0,
    ensures
        screen_x(v, sin_y, cos_y, d, scale, w) == fpdiv(w, 2),
        screen_y(v, sin_y, cos_y, d, scale, h) == fpdiv(h, 2),
{
    lemma_mul_basics(sin_y);
    lemma_mul_basics(cos_y);
    assert(0 * cos_y == 0) by (nonlinear_arith);
    assert(0 * sin_y == 0) by (nonlinear_arith);
    assert(0 * scale == 0) by (nonlinear_arith);
    lemma_fpdiv_of0(FP_ONE as int);
    lemma_fpdiv_of0(depth_of(v, sin_y, cos_y, d));
}

/// Projection is deterministic: any two point lists that both satisfy the
/// projection relation for the same inputs are equal.
pub proof fn lemma_project_deterministic(
    p1: Seq<ScreenPoint>,
    p2: Seq<ScreenPoint>,
    vs: Seq<Vec3>,
    sin_y: int,
    cos_y: int,
    d: int,
    scale: int,
    w: int,
    h: int,
)
    requires
        p1.len() == vs.len(),
        p2.len() == vs.len(),
        forall|k: int|
            0 <= k < vs.len() ==> (#[trigger] p1[k]).x == screen_x(vs[k], sin_y, cos_y, d, scale, w)
                && p1[k].y == screen_y(vs[k], sin_y, cos_y, d, scale, h),
        forall|k: int|
            0 <= k < vs.len() ==> (#[trigger] p2[k]).x == screen_x(vs[k], sin_y, cos_y, d, scale, w)
                && p2[k].y == screen_y(vs[k], sin_y, cos_y, d, scale, h),
    ensures
        p1 == p2,
{
    assert forall|k: int| 0 <= k < vs.len() implies p1[k] == p2[k] by {
        assert(p1[k].x == p2[k].x);
        assert(p1[k].y == p2[k].y);
    }
    assert(p1 =~= p2);
}

} // verus!
