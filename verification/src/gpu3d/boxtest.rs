//! Visibility test of an axis-aligned box against the view volume.
//!
//! The corners of the box are taken to clip space. If all of them lie outside
//! one bounding plane, no part of the box can be visible. Otherwise the box
//! counts as visible: either one of its faces reaches the volume, or the box
//! encloses it.

use vstd::prelude::*;
use crate::fixed;
use super::matrix;
use super::matrix::{Matrix, ONE};

verus! {

/// Signed distance of a clip-space point from plane number `plane`, which
/// counts left, right, bottom, top, near and far: non-negative inside.
pub open spec fn plane_value(v: [i64; 4], plane: int) -> int {
    if plane == 0 {
        v[0] + v[3]
    } else if plane == 1 {
        v[3] - v[0]
    } else if plane == 2 {
        v[1] + v[3]
    } else if plane == 3 {
        v[3] - v[1]
    } else if plane == 4 {
        v[2] + v[3]
    } else {
        v[3] - v[2]
    }
}

/// A clip-space point with 64-bit components.
pub open spec fn widened(v: [i32; 4]) -> [i64; 4] {
    [v[0] as i64, v[1] as i64, v[2] as i64, v[3] as i64]
}

/// Corner `k` of a box in clip space: bits 0, 1 and 2 of `k` select the far
/// side in x, y and z.
pub open spec fn corner(origin: [i32; 3], size: [i32; 3], m: Matrix, k: int) -> [i64; 4] {
    let x = if k % 2 == 1 { origin[0] + size[0] } else { origin[0] as int };
    let y = if k / 2 % 2 == 1 { origin[1] + size[1] } else { origin[1] as int };
    let z = if k / 4 % 2 == 1 { origin[2] + size[2] } else { origin[2] as int };
    widened(matrix::transformed([x as i32, y as i32, z as i32, ONE], m))
}

/// Whether all corners of a box lie outside a plane.
pub open spec fn rejected_by(origin: [i32; 3], size: [i32; 3], m: Matrix, plane: int) -> bool {
    forall|k: int|
        0 <= k < 8 ==> plane_value(#[trigger] corner(origin, size, m, k), plane) < 0
}

/// Whether a box counts as visible: no plane has all of it outside.
pub open spec fn visible(origin: [i32; 3], size: [i32; 3], m: Matrix) -> bool {
    forall|plane: int| 0 <= plane < 6 ==> !#[trigger] rejected_by(origin, size, m, plane)
}

/// The box has its far corner within 32 bits.
pub open spec fn in_range(origin: [i32; 3], size: [i32; 3]) -> bool {
    &&& i32::MIN <= origin[0] + size[0] <= i32::MAX
    &&& i32::MIN <= origin[1] + size[1] <= i32::MAX
    &&& i32::MIN <= origin[2] + size[2] <= i32::MAX
}

/// A box with a corner in the view volume is visible.
pub proof fn law_box_with_corner_inside_is_visible(
    origin: [i32; 3],
    size: [i32; 3],
    m: Matrix,
    k: int,
)
    requires
        0 <= k < 8,
        forall|plane: int|
            0 <= plane < 6 ==> #[trigger] plane_value(corner(origin, size, m, k), plane) >= 0,
    ensures
        visible(origin, size, m),
{
    assert forall|plane: int| 0 <= plane < 6 implies !#[trigger] rejected_by(
        origin,
        size,
        m,
        plane,
    ) by {
        assert(plane_value(corner(origin, size, m, k), plane) >= 0);
    }
}

/// One component of the point where an edge meets a plane.
pub open spec fn meet(a: int, b: int, a_value: int, b_value: int) -> int {
    a + fixed::tdiv((b - a) * a_value, a_value - b_value)
}

/// The point where the edge from `a` to `b` meets a plane at distances
/// `a_value` and `b_value`.
pub open spec fn meeting_point(a: [i64; 4], b: [i64; 4], a_value: int, b_value: int) -> [i64; 4] {
    [
        meet(a[0] as int, b[0] as int, a_value, b_value) as i64,
        meet(a[1] as int, b[1] as int, a_value, b_value) as i64,
        meet(a[2] as int, b[2] as int, a_value, b_value) as i64,
        meet(a[3] as int, b[3] as int, a_value, b_value) as i64,
    ]
}

/// What the edge from `prev` to `cur` contributes to a clipped outline.
pub open spec fn contributed(prev: [i64; 4], cur: [i64; 4], plane: int) -> Seq<[i64; 4]> {
    let pv = plane_value(prev, plane);
    let cv = plane_value(cur, plane);
    (if (pv >= 0) != (cv >= 0) {
        seq![meeting_point(prev, cur, pv, cv)]
    } else {
        Seq::empty()
    }) + (if cv >= 0 {
        seq![cur]
    } else {
        Seq::empty()
    })
}

/// What the edges that end at the first `n` points contribute.
pub open spec fn outline_prefix(vs: Seq<[i64; 4]>, plane: int, n: int) -> Seq<[i64; 4]>
    decreases n,
{
    if n <= 0 {
        Seq::empty()
    } else {
        outline_prefix(vs, plane, n - 1) + contributed(
            if n == 1 { vs[vs.len() - 1] } else { vs[n - 2] },
            vs[n - 1],
            plane,
        )
    }
}

/// An outline clipped against the first `k` planes.
pub open spec fn outline(vs: Seq<[i64; 4]>, k: int) -> Seq<[i64; 4]>
    decreases k,
{
    if k <= 0 {
        vs
    } else {
        let before = outline(vs, k - 1);
        outline_prefix(before, k - 1, before.len() as int)
    }
}

/// Whether every component of a point fits in 32 bits.
pub open spec fn small(v: [i64; 4]) -> bool {
    forall|i: int| 0 <= i < 4 ==> -0x8000_0000 <= #[trigger] v[i] <= 0x7FFF_FFFF
}

proof fn lemma_meet_between(a: int, b: int, av: int, bv: int)
    requires
        (av >= 0) != (bv >= 0),
    ensures
        fixed::min(a, b) <= meet(a, b, av, bv) <= fixed::max(a, b),
{
    // With a positive divisor the quotient is a share `num / den` of `b - a`.
    let num = fixed::abs(av);
    let den = num + fixed::abs(bv);
    let d = b - a;
    if av >= 0 {
        assert(av - bv == den);
        lemma_share(d, num, den);
    } else {
        assert(av - bv == -den);
        lemma_share(d, num, den);
        assert(d * av == -(d * num)) by (nonlinear_arith)
            requires
                av == -num,
        ;
        lemma_negated_quotient(d * num, den);
    }
}

proof fn lemma_share(d: int, num: int, den: int)
    requires
        0 <= num <= den,
        den > 0,
    ensures
        d >= 0 ==> 0 <= fixed::tdiv(d * num, den) <= d,
        d < 0 ==> d <= fixed::tdiv(d * num, den) <= 0,
{
    if d >= 0 {
        assert(0 <= d * num <= d * den) by (nonlinear_arith)
            requires
                d >= 0,
                0 <= num <= den,
        ;
        fixed::lemma_tdiv_bound(d * num, den, d);
        fixed::lemma_tdiv_monotone(0, d * num, den);
    } else {
        assert(d * den <= d * num <= 0 && (-d) * den == -(d * den)) by (nonlinear_arith)
            requires
                d < 0,
                0 <= num <= den,
        ;
        fixed::lemma_tdiv_bound(d * num, den, -d);
        fixed::lemma_tdiv_monotone(d * num, 0, den);
    }
}

/// Negating dividend and divisor keeps a truncated quotient.
proof fn lemma_negated_quotient(x: int, den: int)
    requires
        den > 0,
    ensures
        fixed::tdiv(-x, -den) == fixed::tdiv(x, den),
{
    let a = fixed::abs(x);
    vstd::arithmetic::div_mod::lemma_fundamental_div_mod(a, den);
    vstd::arithmetic::div_mod::lemma_mod_bound(a, den);
    let q = a / den;
    let r = a % den;
    assert(a == (-q) * (-den) + r) by (nonlinear_arith)
        requires
            a == den * q + r,
    ;
    assert(a / (-den) == -q) by {
        let p = a / (-den);
        let s = a % (-den);
        assert(a == (-den) * p + s && 0 <= s < den) by {
            vstd::arithmetic::div_mod::lemma_fundamental_div_mod(a, -den);
        }
        assert(p == -q) by (nonlinear_arith)
            requires
                a == (-den) * p + s,
                a == den * q + r,
                0 <= s < den,
                0 <= r < den,
        ;
    }
}

/// Signed distance of a clip-space point from one of the six planes.
pub fn clip_plane_value(v: [i64; 4], plane: usize) -> (r: i64)
    requires
        plane < 6,
        i64::MIN <= plane_value(v, plane as int) <= i64::MAX,
    ensures
        r == plane_value(v, plane as int),
{
    match plane {
        0 => v[0] + v[3],
        1 => v[3] - v[0],
        2 => v[1] + v[3],
        3 => v[3] - v[1],
        4 => v[2] + v[3],
        _ => v[3] - v[2],
    }
}

fn meet_component(a: i64, b: i64, a_value: i64, b_value: i64) -> (r: i64)
    requires
        -0x8000_0000 <= a <= 0x7FFF_FFFF,
        -0x8000_0000 <= b <= 0x7FFF_FFFF,
        -0x1_0000_0000 <= a_value <= 0x1_0000_0000,
        -0x1_0000_0000 <= b_value <= 0x1_0000_0000,
        (a_value >= 0) != (b_value >= 0),
    ensures
        r == meet(a as int, b as int, a_value as int, b_value as int),
        -0x8000_0000 <= r <= 0x7FFF_FFFF,
{
    let d: i64 = b - a;
    proof {
        lemma_meet_between(a as int, b as int, a_value as int, b_value as int);
        assert(-0x1_0000_0000 * 0x1_0000_0000 <= d * a_value <= 0x1_0000_0000 * 0x1_0000_0000)
            by (nonlinear_arith)
            requires
                -0x1_0000_0000 <= d <= 0x1_0000_0000,
                -0x1_0000_0000 <= a_value <= 0x1_0000_0000,
        ;
    }
    (a as i128 + fixed::div_trunc_wide(d as i128 * a_value as i128, a_value - b_value)) as i64
}

/// Where the edge from `a` to `b`, which straddles a plane, meets it.
fn interpolate_clip_vertex(a: [i64; 4], b: [i64; 4], a_value: i64, b_value: i64) -> (r: [i64; 4])
    requires
        small(a),
        small(b),
        -0x1_0000_0000 <= a_value <= 0x1_0000_0000,
        -0x1_0000_0000 <= b_value <= 0x1_0000_0000,
        (a_value >= 0) != (b_value >= 0),
    ensures
        r == meeting_point(a, b, a_value as int, b_value as int),
        small(r),
{
    assert(small(a) ==> -0x8000_0000 <= a[0] <= 0x7FFF_FFFF && -0x8000_0000 <= a[1] <= 0x7FFF_FFFF
        && -0x8000_0000 <= a[2] <= 0x7FFF_FFFF && -0x8000_0000 <= a[3] <= 0x7FFF_FFFF);
    assert(small(b) ==> -0x8000_0000 <= b[0] <= 0x7FFF_FFFF && -0x8000_0000 <= b[1] <= 0x7FFF_FFFF
        && -0x8000_0000 <= b[2] <= 0x7FFF_FFFF && -0x8000_0000 <= b[3] <= 0x7FFF_FFFF);
    [
        meet_component(a[0], b[0], a_value, b_value),
        meet_component(a[1], b[1], a_value, b_value),
        meet_component(a[2], b[2], a_value, b_value),
        meet_component(a[3], b[3], a_value, b_value),
    ]
}

fn clip_outline(polygon: &Vec<[i64; 4]>, plane: usize) -> (r: Vec<[i64; 4]>)
    requires
        plane < 6,
        forall|i: int| 0 <= i < polygon@.len() ==> small(#[trigger] polygon@[i]),
    ensures
        r@ == outline_prefix(polygon@, plane as int, polygon@.len() as int),
        forall|i: int| 0 <= i < r@.len() ==> small(#[trigger] r@[i]),
{
    let mut clipped: Vec<[i64; 4]> = Vec::new();
    let n: usize = polygon.len();
    if n == 0 {
        return clipped;
    }
    let mut prev: [i64; 4] = polygon[n - 1];
    assert(small(polygon@[n - 1]));
    proof {
        lemma_small_value(prev, plane as int);
    }
    let mut prev_value: i64 = clip_plane_value(prev, plane);
    for i in 0..n
        invariant
            n == polygon@.len(),
            n > 0,
            plane < 6,
            forall|k: int| 0 <= k < polygon@.len() ==> small(#[trigger] polygon@[k]),
            prev == if i == 0 { polygon@[n - 1] } else { polygon@[i - 1] },
            small(prev),
            prev_value == plane_value(prev, plane as int),
            clipped@ == outline_prefix(polygon@, plane as int, i as int),
            forall|k: int| 0 <= k < clipped@.len() ==> small(#[trigger] clipped@[k]),
    {
        let current: [i64; 4] = polygon[i];
        assert(small(polygon@[i as int]));
        proof {
            lemma_small_value(current, plane as int);
            lemma_small_value(prev, plane as int);
        }
        let current_value: i64 = clip_plane_value(current, plane);
        let ghost before = clipped@;
        if (current_value >= 0) != (prev_value >= 0) {
            clipped.push(interpolate_clip_vertex(prev, current, prev_value, current_value));
        }
        if current_value >= 0 {
            clipped.push(current);
        }
        assert(clipped@ =~= before + contributed(prev, current, plane as int));
        prev = current;
        prev_value = current_value;
    }
    clipped
}

proof fn lemma_small_value(v: [i64; 4], plane: int)
    requires
        small(v),
    ensures
        -0x1_0000_0000 <= plane_value(v, plane) <= 0x1_0000_0000,
{
    assert(-0x8000_0000 <= v[0] <= 0x7FFF_FFFF);
    assert(-0x8000_0000 <= v[1] <= 0x7FFF_FFFF);
    assert(-0x8000_0000 <= v[2] <= 0x7FFF_FFFF);
    assert(-0x8000_0000 <= v[3] <= 0x7FFF_FFFF);
}

/// Whether something of an outline remains after clipping it against the view
/// volume.
pub fn clip_homogeneous_polygon_to_view_volume(polygon: Vec<[i64; 4]>) -> (r: bool)
    requires
        forall|i: int| 0 <= i < polygon@.len() ==> small(#[trigger] polygon@[i]),
    ensures
        r == (outline(polygon@, 6).len() > 0),
{
    let ghost start = polygon@;
    let mut current: Vec<[i64; 4]> = polygon;
    for plane in 0..6usize
        invariant
            current@ == outline(start, plane as int),
            forall|i: int| 0 <= i < current@.len() ==> small(#[trigger] current@[i]),
    {
        current = clip_outline(&current, plane);
    }
    current.len() > 0
}

/// One corner of a box in clip space.
fn box_corner(x: i32, y: i32, z: i32, m: &Matrix) -> (r: [i64; 4])
    ensures
        r == widened(matrix::transformed([x, y, z, ONE], *m)),
        small(r),
{
    let v: [i32; 4] = m.mul_vec4([x, y, z, ONE]);
    [v[0] as i64, v[1] as i64, v[2] as i64, v[3] as i64]
}

/// Whether a box intersects the view volume.
pub fn box_intersects_view_volume(origin: [i32; 3], size: [i32; 3], clip: &Matrix) -> (r: bool)
    requires
        in_range(origin, size),
    ensures
        r == visible(origin, size, *clip),
{
    let x0: i32 = origin[0];
    let x1: i32 = origin[0] + size[0];
    let y0: i32 = origin[1];
    let y1: i32 = origin[1] + size[1];
    let z0: i32 = origin[2];
    let z1: i32 = origin[2] + size[2];
    let corners: [[i64; 4]; 8] = [
        box_corner(x0, y0, z0, clip),
        box_corner(x1, y0, z0, clip),
        box_corner(x0, y1, z0, clip),
        box_corner(x1, y1, z0, clip),
        box_corner(x0, y0, z1, clip),
        box_corner(x1, y0, z1, clip),
        box_corner(x0, y1, z1, clip),
        box_corner(x1, y1, z1, clip),
    ];
    assert forall|k: int| 0 <= k < 8 implies #[trigger] corner(origin, size, *clip, k) == corners[k]
        && small(corners[k]) by {
        if k == 0 {
        } else if k == 1 {
        } else if k == 2 {
        } else if k == 3 {
        } else if k == 4 {
        } else if k == 5 {
        } else if k == 6 {
        } else {
        }
    }
    // Fast reject: if all corners are outside one plane, no part of the box can
    // be visible.
    for plane in 0..6usize
        invariant
            forall|k: int|
                0 <= k < 8 ==> #[trigger] corner(origin, size, *clip, k) == corners[k] && small(
                    corners[k],
                ),
            forall|p: int| 0 <= p < plane ==> !#[trigger] rejected_by(origin, size, *clip, p),
    {
        let mut all_outside: bool = true;
        for k in 0..8usize
            invariant
                plane < 6,
                forall|k: int|
                    0 <= k < 8 ==> #[trigger] corner(origin, size, *clip, k) == corners[k] && small(
                        corners[k],
                    ),
                all_outside == (forall|j: int|
                    0 <= j < k ==> plane_value(
                        #[trigger] corner(origin, size, *clip, j),
                        plane as int,
                    ) < 0),
        {
            assert(corner(origin, size, *clip, k as int) == corners[k as int]);
            proof {
                lemma_small_value(corners[k as int], plane as int);
            }
            if clip_plane_value(corners[k], plane) >= 0 {
                all_outside = false;
                assert(plane_value(corner(origin, size, *clip, k as int), plane as int) >= 0);
            }
        }
        if all_outside {
            assert(rejected_by(origin, size, *clip, plane as int));
            return false;
        }
    }
    let faces: [[usize; 4]; 6] = [
        [0, 1, 3, 2],
        [4, 6, 7, 5],
        [0, 4, 5, 1],
        [2, 3, 7, 6],
        [0, 2, 6, 4],
        [1, 5, 7, 3],
    ];
    for f in 0..6usize
        invariant
            visible(origin, size, *clip),
            forall|k: int| 0 <= k < 8 ==> small(#[trigger] corners[k]),
            forall|i: int, j: int| 0 <= i < 6 && 0 <= j < 4 ==> #[trigger] faces[i][j] < 8,
    {
        let face: [usize; 4] = faces[f];
        assert(faces[f as int][0] < 8 && faces[f as int][1] < 8 && faces[f as int][2] < 8
            && faces[f as int][3] < 8);
        let mut polygon: Vec<[i64; 4]> = Vec::new();
        polygon.push(corners[face[0]]);
        polygon.push(corners[face[1]]);
        polygon.push(corners[face[2]]);
        polygon.push(corners[face[3]]);
        if clip_homogeneous_polygon_to_view_volume(polygon) {
            return true;
        }
    }
    // No face reaches the volume, but no plane rejects the box either: it
    // encloses the volume.
    true
}

/// Through an identity matrix the view volume reaches from -1.0 to 1.0 on each axis: a
/// box is visible unless it lies wholly beyond one of these bounds.
pub proof fn law_box_under_identity(origin: [i32; 3], size: [i32; 3])
    requires
        in_range(origin, size),
    ensures
        visible(origin, size, matrix::identity()) == (forall|i: int|
            0 <= i < 3 ==> fixed::min(#[trigger] origin[i] as int, origin[i] + size[i]) <= 4096
                && fixed::max(origin[i] as int, origin[i] + size[i]) >= -4096),
{
    let m = matrix::identity();
    assert forall|k: int| 0 <= k < 8 implies plane_value(#[trigger] corner(origin, size, m, k), 0)
        == 4096 + side(origin, size, k, 0) && plane_value(corner(origin, size, m, k), 1) == 4096
        - side(origin, size, k, 0) && plane_value(corner(origin, size, m, k), 2) == 4096 + side(
        origin,
        size,
        k,
        1,
    ) && plane_value(corner(origin, size, m, k), 3) == 4096 - side(origin, size, k, 1)
        && plane_value(corner(origin, size, m, k), 4) == 4096 + side(origin, size, k, 2)
        && plane_value(corner(origin, size, m, k), 5) == 4096 - side(origin, size, k, 2) by {
        let x = side(origin, size, k, 0);
        let y = side(origin, size, k, 1);
        let z = side(origin, size, k, 2);
        matrix::law_identity_transform([x as i32, y as i32, z as i32, ONE]);
    }
    lemma_axis_rejected(origin, size, 0);
    lemma_axis_rejected(origin, size, 1);
    lemma_axis_rejected(origin, size, 2);
    assert(visible(origin, size, m) ==> !rejected_by(origin, size, m, 0) && !rejected_by(
        origin,
        size,
        m,
        1,
    ) && !rejected_by(origin, size, m, 2) && !rejected_by(origin, size, m, 3) && !rejected_by(
        origin,
        size,
        m,
        4,
    ) && !rejected_by(origin, size, m, 5));
    assert(origin[0] == origin[0] && origin[1] == origin[1] && origin[2] == origin[2]);
}

/// Coordinate `axis` of corner `k`.
spec fn side(origin: [i32; 3], size: [i32; 3], k: int, axis: int) -> int {
    let far = if axis == 0 {
        k % 2 == 1
    } else if axis == 1 {
        k / 2 % 2 == 1
    } else {
        k / 4 % 2 == 1
    };
    if far {
        origin[axis] + size[axis]
    } else {
        origin[axis] as int
    }
}

proof fn lemma_axis_rejected(origin: [i32; 3], size: [i32; 3], axis: int)
    requires
        0 <= axis < 3,
        in_range(origin, size),
        forall|k: int|
            0 <= k < 8 ==> plane_value(
                #[trigger] corner(origin, size, matrix::identity(), k),
                2 * axis,
            ) == 4096 + side(origin, size, k, axis) && plane_value(
                corner(origin, size, matrix::identity(), k),
                2 * axis + 1,
            ) == 4096 - side(origin, size, k, axis),
    ensures
        rejected_by(origin, size, matrix::identity(), 2 * axis) == (fixed::max(
            origin[axis] as int,
            origin[axis] + size[axis],
        ) < -4096),
        rejected_by(origin, size, matrix::identity(), 2 * axis + 1) == (fixed::min(
            origin[axis] as int,
            origin[axis] + size[axis],
        ) > 4096),
{
    let m = matrix::identity();
    let (a, b) = (corner(origin, size, m, 0), corner(origin, size, m, 7));
    assert(side(origin, size, 0, axis) == origin[axis]);
    assert(side(origin, size, 7, axis) == origin[axis] + size[axis]);
    assert(plane_value(a, 2 * axis) == 4096 + origin[axis]);
    assert(plane_value(b, 2 * axis) == 4096 + origin[axis] + size[axis]);
}

} // verus!
