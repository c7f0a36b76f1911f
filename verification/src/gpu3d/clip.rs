//! Sutherland-Hodgman 6-plane clipping in homogeneous clip space.
//!
//! Each polygon's vertices come in with clip-space `(x, y, z, w)`. They are
//! clipped against the canonical view volume:
//!
//! ```text
//!     -w <= x <= +w     (left, right planes)
//!     -w <= y <= +w     (bottom, top)
//!     -w <= z <= +w     (near, far)
//! ```
//!
//! For each of the 6 planes in turn, the polygon's edges are walked. Inside
//! vertices are kept; outside vertices are dropped; edges that straddle the
//! plane produce a new vertex at the intersection point, with color and texture
//! coordinates linearly interpolated.

use vstd::prelude::*;
use crate::bgr555;
use crate::fixed;
use super::vertex::Vertex;

verus! {

/// A bounding plane of the view volume.
#[derive(Debug, Clone, Copy, PartialEq, Eq, Structural)]
pub enum Plane {
    /// `x >= -w`
    NegX,
    /// `x <= w`
    PosX,
    NegY,
    PosY,
    /// `z >= -w` (near plane)
    NegZ,
    /// `z <= w` (far plane)
    PosZ,
}

impl Plane {
    /// The component that the plane bounds.
    pub open spec fn axis(self) -> int {
        match self {
            Plane::NegX | Plane::PosX => 0,
            Plane::NegY | Plane::PosY => 1,
            Plane::NegZ | Plane::PosZ => 2,
        }
    }

    /// Whether the plane bounds its component from above.
    pub open spec fn upper(self) -> bool {
        self == Plane::PosX || self == Plane::PosY || self == Plane::PosZ
    }
}

/// Signed distance of a component `c` of a point with homogeneous `w`.
pub open spec fn signed_distance(c: int, w: int, upper: bool) -> int {
    if upper { w - c } else { c + w }
}

/// Signed distance of a vertex from a plane: non-negative inside.
pub open spec fn distance(v: Vertex, plane: Plane) -> int {
    signed_distance(v.clip[plane.axis()] as int, v.clip[3] as int, plane.upper())
}

/// Whether a vertex lies on the inner side of a plane.
pub open spec fn inside(v: Vertex, plane: Plane) -> bool {
    distance(v, plane) >= 0
}

/// Whether a vertex lies in the view volume.
pub open spec fn in_volume(v: Vertex) -> bool {
    &&& -v.clip[3] <= v.clip[0] <= v.clip[3]
    &&& -v.clip[3] <= v.clip[1] <= v.clip[3]
    &&& -v.clip[3] <= v.clip[2] <= v.clip[3]
}

/// The value `num / den` of the way from `a` to `b`, rounded towards zero.
pub open spec fn mix(a: int, b: int, num: int, den: int) -> int {
    fixed::tdiv(a * (den - num) + b * num, den)
}

/// The vertex `num / den` of the way from `a` to `b`.
pub open spec fn between(a: Vertex, b: Vertex, num: int, den: int) -> Vertex {
    Vertex {
        clip: [
            mix(a.clip[0] as int, b.clip[0] as int, num, den) as i32,
            mix(a.clip[1] as int, b.clip[1] as int, num, den) as i32,
            mix(a.clip[2] as int, b.clip[2] as int, num, den) as i32,
            mix(a.clip[3] as int, b.clip[3] as int, num, den) as i32,
        ],
        color: bgr555::pack(
            mix(bgr555::red(a.color), bgr555::red(b.color), num, den),
            mix(bgr555::green(a.color), bgr555::green(b.color), num, den),
            mix(bgr555::blue(a.color), bgr555::blue(b.color), num, den),
        ),
        tex: [
            mix(a.tex[0] as int, b.tex[0] as int, num, den) as i16,
            mix(a.tex[1] as int, b.tex[1] as int, num, den) as i16,
        ],
    }
}

/// Where the edge from `a` to `b`, which straddles the plane, meets it.
pub open spec fn crossing(a: Vertex, b: Vertex, plane: Plane) -> Vertex {
    let da = fixed::abs(distance(a, plane));
    let db = fixed::abs(distance(b, plane));
    between(a, b, da, da + db)
}

/// What the edge from `prev` to `cur` contributes: the crossing where it
/// straddles the plane, then `cur` where that is inside.
pub open spec fn emitted(prev: Vertex, cur: Vertex, plane: Plane) -> Seq<Vertex> {
    if inside(prev, plane) {
        if inside(cur, plane) {
            seq![cur]
        } else {
            seq![crossing(prev, cur, plane)]
        }
    } else if inside(cur, plane) {
        seq![crossing(prev, cur, plane), cur]
    } else {
        Seq::empty()
    }
}

/// The vertex before number `i` on the polygon's boundary.
pub open spec fn previous(vs: Seq<Vertex>, i: int) -> Vertex {
    if i == 0 { vs[vs.len() - 1] } else { vs[i - 1] }
}

/// What the edges that end at the first `n` vertices contribute.
pub open spec fn clipped_prefix(vs: Seq<Vertex>, plane: Plane, n: int) -> Seq<Vertex>
    decreases n,
{
    if n <= 0 {
        Seq::empty()
    } else {
        clipped_prefix(vs, plane, n - 1) + emitted(previous(vs, n - 1), vs[n - 1], plane)
    }
}

/// The polygon clipped against one plane.
pub open spec fn clipped_by(vs: Seq<Vertex>, plane: Plane) -> Seq<Vertex> {
    clipped_prefix(vs, plane, vs.len() as int)
}

/// The planes in the order in which they clip.
pub open spec fn plane_at(k: int) -> Plane {
    if k == 0 {
        Plane::NegX
    } else if k == 1 {
        Plane::PosX
    } else if k == 2 {
        Plane::NegY
    } else if k == 3 {
        Plane::PosY
    } else if k == 4 {
        Plane::NegZ
    } else {
        Plane::PosZ
    }
}

/// The polygon clipped against the first `k` planes.
pub open spec fn clipped_by_first(vs: Seq<Vertex>, k: int) -> Seq<Vertex>
    decreases k,
{
    if k <= 0 {
        vs
    } else {
        clipped_by(clipped_by_first(vs, k - 1), plane_at(k - 1))
    }
}

/// The polygon clipped against the view volume; `None` where fewer than three
/// vertices come in or remain.
pub open spec fn clipped(vs: Seq<Vertex>) -> Option<Seq<Vertex>> {
    let out = clipped_by_first(vs, 6);
    if vs.len() < 3 || out.len() < 3 { None } else { Some(out) }
}

/// Division of an exact multiple.
proof fn lemma_tdiv_multiple(m: int, d: int)
    requires
        d > 0,
    ensures
        fixed::tdiv(m * d, d) == m,
{
    if m >= 0 {
        assert((m * d) / d == m && m * d >= 0) by (nonlinear_arith)
            requires
                m >= 0,
                d > 0,
        ;
    } else {
        assert(((-m) * d) / d == -m && m * d < 0 && (-m) * d == -(m * d)) by (nonlinear_arith)
            requires
                m < 0,
                d > 0,
        ;
    }
}

/// An interpolated value lies between its ends.
proof fn lemma_mix_between(a: int, b: int, num: int, den: int)
    requires
        0 <= num <= den,
        den > 0,
    ensures
        fixed::min(a, b) <= mix(a, b, num, den) <= fixed::max(a, b),
{
    let v = a * (den - num) + b * num;
    let lo = fixed::min(a, b);
    let hi = fixed::max(a, b);
    assert(lo * den <= v <= hi * den) by (nonlinear_arith)
        requires
            v == a * (den - num) + b * num,
            lo <= a <= hi,
            lo <= b <= hi,
            0 <= num <= den,
    ;
    fixed::lemma_tdiv_monotone(lo * den, v, den);
    fixed::lemma_tdiv_monotone(v, hi * den, den);
    lemma_tdiv_multiple(lo, den);
    lemma_tdiv_multiple(hi, den);
}

/// Interpolation keeps the inner side of a plane, and it keeps the outer side
/// where no `w` is negative.
proof fn lemma_mix_distance(ca: int, wa: int, cb: int, wb: int, num: int, den: int, upper: bool)
    requires
        0 <= num <= den,
        den > 0,
    ensures
        ({
            let d = signed_distance(mix(ca, cb, num, den), mix(wa, wb, num, den), upper);
            let da = signed_distance(ca, wa, upper);
            let db = signed_distance(cb, wb, upper);
            &&& da >= 0 && db >= 0 ==> d >= 0
            &&& da < 0 && db < 0 && wa >= 0 && wb >= 0 ==> d < 0
        }),
{
    let c = ca * (den - num) + cb * num;
    let w = wa * (den - num) + wb * num;
    let da = signed_distance(ca, wa, upper);
    let db = signed_distance(cb, wb, upper);
    let s = if upper { c } else { -c };
    // The distance of the exact point, times `den`, is the mix of the distances.
    assert(w - s == da * (den - num) + db * num) by (nonlinear_arith)
        requires
            c == ca * (den - num) + cb * num,
            w == wa * (den - num) + wb * num,
            da == if upper { wa - ca } else { ca + wa },
            db == if upper { wb - cb } else { cb + wb },
            s == if upper { c } else { -c },
    ;
    if da >= 0 && db >= 0 {
        assert(da * (den - num) + db * num >= 0) by (nonlinear_arith)
            requires
                da >= 0,
                db >= 0,
                0 <= num <= den,
        ;
        fixed::lemma_tdiv_monotone(s, w, den);
    }
    if da < 0 && db < 0 && wa >= 0 && wb >= 0 {
        assert(da * (den - num) + db * num <= -den) by (nonlinear_arith)
            requires
                da <= -1,
                db <= -1,
                0 <= num <= den,
        ;
        assert(w >= 0) by (nonlinear_arith)
            requires
                w == wa * (den - num) + wb * num,
                wa >= 0,
                wb >= 0,
                0 <= num <= den,
        ;
        fixed::lemma_tdiv_monotone(w + den, s, den);
        assert((w + den) / den == w / den + 1) by (nonlinear_arith)
            requires
                den > 0,
        ;
    }
}

/// The components of an interpolated vertex are those of [`mix`].
proof fn lemma_between_clip(a: Vertex, b: Vertex, num: int, den: int, i: int)
    requires
        0 <= num <= den,
        den > 0,
        0 <= i < 4,
    ensures
        between(a, b, num, den).clip[i] == mix(a.clip[i] as int, b.clip[i] as int, num, den),
{
    lemma_mix_between(a.clip[i] as int, b.clip[i] as int, num, den);
}

/// The intersection of a straddling edge with a plane lies exactly on the
/// plane.
pub proof fn law_crossing_on_plane(a: Vertex, b: Vertex, plane: Plane)
    requires
        inside(a, plane) != inside(b, plane),
    ensures
        distance(crossing(a, b, plane), plane) == 0,
{
    let i = plane.axis();
    let upper = plane.upper();
    let da = distance(a, plane);
    let db = distance(b, plane);
    let num = fixed::abs(da);
    let den = num + fixed::abs(db);
    lemma_between_clip(a, b, num, den, i);
    lemma_between_clip(a, b, num, den, 3);
    let ca = a.clip[i] as int;
    let cb = b.clip[i] as int;
    let wa = a.clip[3] as int;
    let wb = b.clip[3] as int;
    let c = ca * (den - num) + cb * num;
    let w = wa * (den - num) + wb * num;
    let s = if upper { c } else { -c };
    assert(w == s) by (nonlinear_arith)
        requires
            c == ca * (den - num) + cb * num,
            w == wa * (den - num) + wb * num,
            s == if upper { c } else { -c },
            da == if upper { wa - ca } else { ca + wa },
            db == if upper { wb - cb } else { cb + wb },
            (num == da && den - num == -db) || (num == -da && den - num == db),
    ;
}

/// Clipping against a plane leaves only vertices inside it, and keeps what lay
/// inside another plane inside that one.
proof fn lemma_clip_keeps_inside(vs: Seq<Vertex>, plane: Plane, other: Plane, n: int)
    requires
        0 <= n <= vs.len(),
        other == plane || forall|i: int| 0 <= i < vs.len() ==> inside(#[trigger] vs[i], other),
    ensures
        forall|k: int|
            0 <= k < clipped_prefix(vs, plane, n).len() ==> inside(
                #[trigger] clipped_prefix(vs, plane, n)[k],
                other,
            ),
    decreases n,
{
    if n > 0 {
        lemma_clip_keeps_inside(vs, plane, other, n - 1);
        let prev = previous(vs, n - 1);
        let cur = vs[n - 1];
        if inside(prev, plane) != inside(cur, plane) {
            if other == plane {
                law_crossing_on_plane(prev, cur, plane);
            } else {
                let num = fixed::abs(distance(prev, plane));
                let den = num + fixed::abs(distance(cur, plane));
                let i = other.axis();
                lemma_between_clip(prev, cur, num, den, i);
                lemma_between_clip(prev, cur, num, den, 3);
                lemma_mix_distance(
                    prev.clip[i] as int,
                    prev.clip[3] as int,
                    cur.clip[i] as int,
                    cur.clip[3] as int,
                    num,
                    den,
                    other.upper(),
                );
            }
            assert(inside(crossing(prev, cur, plane), other));
        }
        let before = clipped_prefix(vs, plane, n - 1);
        let added = emitted(prev, cur, plane);
        assert(inside(cur, plane) ==> inside(cur, other));
        assert forall|k: int| 0 <= k < added.len() implies inside(#[trigger] added[k], other) by {}
        assert forall|k: int| 0 <= k < (before + added).len() implies inside(
            #[trigger] (before + added)[k],
            other,
        ) by {
            if k < before.len() {
                assert(inside(before[k], other));
            } else {
                assert(inside(added[k - before.len()], other));
            }
        }
    }
}

proof fn lemma_first_planes_inside(vs: Seq<Vertex>, k: int, j: int)
    requires
        0 <= j < k <= 6,
    ensures
        forall|i: int|
            0 <= i < clipped_by_first(vs, k).len() ==> inside(
                #[trigger] clipped_by_first(vs, k)[i],
                plane_at(j),
            ),
    decreases k,
{
    let before = clipped_by_first(vs, k - 1);
    if j < k - 1 {
        lemma_first_planes_inside(vs, k - 1, j);
    }
    lemma_clip_keeps_inside(before, plane_at(k - 1), plane_at(j), before.len() as int);
}

/// Every vertex of a clipped polygon lies in the view volume, and there are at
/// least three of them.
pub proof fn law_clipped_in_volume(vs: Seq<Vertex>)
    ensures
        clipped(vs) matches Some(out) ==> out.len() >= 3 && forall|i: int|
            0 <= i < out.len() ==> in_volume(#[trigger] out[i]),
{
    let out = clipped_by_first(vs, 6);
    lemma_first_planes_inside(vs, 6, 0);
    lemma_first_planes_inside(vs, 6, 1);
    lemma_first_planes_inside(vs, 6, 2);
    lemma_first_planes_inside(vs, 6, 3);
    lemma_first_planes_inside(vs, 6, 4);
    lemma_first_planes_inside(vs, 6, 5);
    assert forall|i: int| 0 <= i < out.len() implies in_volume(#[trigger] out[i]) by {
        assert(inside(out[i], plane_at(0)));
        assert(inside(out[i], plane_at(1)));
        assert(inside(out[i], plane_at(2)));
        assert(inside(out[i], plane_at(3)));
        assert(inside(out[i], plane_at(4)));
        assert(inside(out[i], plane_at(5)));
    }
}

proof fn lemma_inside_unchanged(vs: Seq<Vertex>, plane: Plane, n: int)
    requires
        0 <= n <= vs.len(),
        forall|i: int| 0 <= i < vs.len() ==> inside(#[trigger] vs[i], plane),
    ensures
        clipped_prefix(vs, plane, n) == vs.take(n),
    decreases n,
{
    if n > 0 {
        lemma_inside_unchanged(vs, plane, n - 1);
        assert(clipped_prefix(vs, plane, n) =~= vs.take(n));
    } else {
        assert(vs.take(0) =~= Seq::<Vertex>::empty());
    }
}

proof fn lemma_volume_unchanged(vs: Seq<Vertex>, k: int)
    requires
        0 <= k <= 6,
        forall|i: int| 0 <= i < vs.len() ==> in_volume(#[trigger] vs[i]),
    ensures
        clipped_by_first(vs, k) == vs,
    decreases k,
{
    if k > 0 {
        lemma_volume_unchanged(vs, k - 1);
        assert forall|i: int| 0 <= i < vs.len() implies inside(
            #[trigger] vs[i],
            plane_at(k - 1),
        ) by {
            assert(in_volume(vs[i]));
        }
        lemma_inside_unchanged(vs, plane_at(k - 1), vs.len() as int);
        assert(vs.take(vs.len() as int) =~= vs);
    }
}

/// A polygon that lies in the view volume passes through unchanged.
pub proof fn law_inside_polygon_unchanged(vs: Seq<Vertex>)
    requires
        vs.len() >= 3,
        forall|i: int| 0 <= i < vs.len() ==> in_volume(#[trigger] vs[i]),
    ensures
        clipped(vs) == Some(vs),
{
    lemma_volume_unchanged(vs, 6);
}

/// All vertices lie outside a plane, and no `w` is negative.
pub open spec fn beyond(vs: Seq<Vertex>, plane: Plane) -> bool {
    forall|i: int|
        0 <= i < vs.len() ==> !inside(#[trigger] vs[i], plane) && vs[i].clip[3] >= 0
}

proof fn lemma_stays_beyond(vs: Seq<Vertex>, plane: Plane, other: Plane, n: int)
    requires
        0 <= n <= vs.len(),
        beyond(vs, other),
    ensures
        beyond(clipped_prefix(vs, plane, n), other),
        plane == other ==> clipped_prefix(vs, plane, n).len() == 0,
    decreases n,
{
    if n > 0 {
        lemma_stays_beyond(vs, plane, other, n - 1);
        let prev = previous(vs, n - 1);
        let cur = vs[n - 1];
        if inside(prev, plane) != inside(cur, plane) {
            let num = fixed::abs(distance(prev, plane));
            let den = num + fixed::abs(distance(cur, plane));
            let i = other.axis();
            lemma_between_clip(prev, cur, num, den, i);
            lemma_between_clip(prev, cur, num, den, 3);
            lemma_mix_between(prev.clip[3] as int, cur.clip[3] as int, num, den);
            lemma_mix_distance(
                prev.clip[i] as int,
                prev.clip[3] as int,
                cur.clip[i] as int,
                cur.clip[3] as int,
                num,
                den,
                other.upper(),
            );
        }
    }
}

proof fn lemma_beyond_vanishes(vs: Seq<Vertex>, j: int, k: int)
    requires
        0 <= k <= 6,
        0 <= j < 6,
        beyond(vs, plane_at(j)),
    ensures
        beyond(clipped_by_first(vs, k), plane_at(j)),
        k > j ==> clipped_by_first(vs, k).len() == 0,
    decreases k,
{
    if k > 0 {
        lemma_beyond_vanishes(vs, j, k - 1);
        let before = clipped_by_first(vs, k - 1);
        lemma_stays_beyond(before, plane_at(k - 1), plane_at(j), before.len() as int);
    }
}

/// A polygon that lies wholly outside one plane is rejected, as long as no `w`
/// is negative.
pub proof fn law_outside_polygon_rejected(vs: Seq<Vertex>, plane: Plane)
    requires
        beyond(vs, plane),
    ensures
        clipped(vs) is None,
{
    let j: int = if plane == Plane::NegX {
        0
    } else if plane == Plane::PosX {
        1
    } else if plane == Plane::NegY {
        2
    } else if plane == Plane::PosY {
        3
    } else if plane == Plane::NegZ {
        4
    } else {
        5
    };
    lemma_beyond_vanishes(vs, j, 6);
}

/// Edges among those that end at the first `n` vertices that straddle a plane.
pub open spec fn crossings(vs: Seq<Vertex>, plane: Plane, n: int) -> int
    decreases n,
{
    if n <= 0 {
        0
    } else {
        crossings(vs, plane, n - 1) + if inside(previous(vs, n - 1), plane) != inside(
            vs[n - 1],
            plane,
        ) {
            1int
        } else {
            0
        }
    }
}

/// Vertices among the first `n` that lie inside a plane.
pub open spec fn inside_count(vs: Seq<Vertex>, plane: Plane, n: int) -> int
    decreases n,
{
    if n <= 0 {
        0
    } else {
        inside_count(vs, plane, n - 1) + if inside(vs[n - 1], plane) { 1int } else { 0 }
    }
}

proof fn lemma_clip_count(vs: Seq<Vertex>, plane: Plane, n: int)
    requires
        0 <= n <= vs.len(),
    ensures
        clipped_prefix(vs, plane, n).len() == inside_count(vs, plane, n) + crossings(vs, plane, n),
        0 <= inside_count(vs, plane, n) <= n,
        inside_count(vs, plane, n) == n ==> forall|i: int|
            0 <= i < n ==> inside(#[trigger] vs[i], plane),
    decreases n,
{
    if n > 0 {
        lemma_clip_count(vs, plane, n - 1);
    }
}

proof fn lemma_no_crossings(vs: Seq<Vertex>, plane: Plane, n: int)
    requires
        0 <= n <= vs.len(),
        forall|i: int| 0 <= i < vs.len() ==> inside(#[trigger] vs[i], plane),
    ensures
        crossings(vs, plane, n) == 0,
    decreases n,
{
    if n > 0 {
        lemma_no_crossings(vs, plane, n - 1);
    }
}

/// Clipping keeps the inside vertices and adds one vertex per edge that
/// straddles the plane. A polygon whose boundary crosses the plane at most
/// twice, as that of a convex polygon does, grows by at most one vertex.
pub proof fn law_clip_vertex_count(vs: Seq<Vertex>, plane: Plane)
    ensures
        clipped_by(vs, plane).len() == inside_count(vs, plane, vs.len() as int) + crossings(
            vs,
            plane,
            vs.len() as int,
        ),
        crossings(vs, plane, vs.len() as int) <= 2 ==> clipped_by(vs, plane).len() <= vs.len() + 1,
{
    let n = vs.len() as int;
    lemma_clip_count(vs, plane, n);
    if inside_count(vs, plane, n) == n {
        lemma_no_crossings(vs, plane, n);
    }
}

/// Signed distance of a vertex from a plane: non-negative inside.
fn classify(v: &Vertex, plane: Plane) -> (r: i64)
    ensures
        r == distance(*v, plane),
        -0x1_0000_0000 <= r <= 0x1_0000_0000,
{
    let x: i64 = v.clip[0] as i64;
    let y: i64 = v.clip[1] as i64;
    let z: i64 = v.clip[2] as i64;
    let w: i64 = v.clip[3] as i64;
    match plane {
        Plane::NegX => x + w,
        Plane::PosX => w - x,
        Plane::NegY => y + w,
        Plane::PosY => w - y,
        Plane::NegZ => z + w,
        Plane::PosZ => w - z,
    }
}

fn mix_i64(a: i64, b: i64, num: i64, den: i64) -> (r: i64)
    requires
        0 <= num <= den,
        0 < den <= 0x2_0000_0000,
        -0x8000_0000 <= a <= 0x8000_0000,
        -0x8000_0000 <= b <= 0x8000_0000,
    ensures
        r == mix(a as int, b as int, num as int, den as int),
        fixed::min(a as int, b as int) <= r <= fixed::max(a as int, b as int),
{
    proof {
        lemma_mix_between(a as int, b as int, num as int, den as int);
        assert(-0x8000_0000 * 0x2_0000_0000 <= a * (den - num) <= 0x8000_0000 * 0x2_0000_0000)
            by (nonlinear_arith)
            requires
                0 <= den - num <= 0x2_0000_0000,
                -0x8000_0000 <= a <= 0x8000_0000,
        ;
        assert(-0x8000_0000 * 0x2_0000_0000 <= b * num <= 0x8000_0000 * 0x2_0000_0000)
            by (nonlinear_arith)
            requires
                0 <= num <= 0x2_0000_0000,
                -0x8000_0000 <= b <= 0x8000_0000,
        ;
    }
    let sum: i128 = a as i128 * (den - num) as i128 + b as i128 * num as i128;
    fixed::div_trunc_wide(sum, den) as i64
}

/// The vertex `t_num / t_den` of the way from `a` to `b`: the standard
/// parametric line-plane intersection in homogeneous coordinates.
fn interpolate(a: &Vertex, b: &Vertex, t_num: i64, t_den: i64) -> (r: Vertex)
    requires
        0 <= t_num <= t_den,
        0 < t_den <= 0x2_0000_0000,
    ensures
        r == between(*a, *b, t_num as int, t_den as int),
{
    let (ar, ag, ab): (u32, u32, u32) = bgr555::channels(a.color);
    let (br, bg, bb): (u32, u32, u32) = bgr555::channels(b.color);
    Vertex {
        clip: [
            mix_i64(a.clip[0] as i64, b.clip[0] as i64, t_num, t_den) as i32,
            mix_i64(a.clip[1] as i64, b.clip[1] as i64, t_num, t_den) as i32,
            mix_i64(a.clip[2] as i64, b.clip[2] as i64, t_num, t_den) as i32,
            mix_i64(a.clip[3] as i64, b.clip[3] as i64, t_num, t_den) as i32,
        ],
        color: bgr555::make(
            mix_i64(ar as i64, br as i64, t_num, t_den) as u32,
            mix_i64(ag as i64, bg as i64, t_num, t_den) as u32,
            mix_i64(ab as i64, bb as i64, t_num, t_den) as u32,
        ),
        tex: [
            mix_i64(a.tex[0] as i64, b.tex[0] as i64, t_num, t_den) as i16,
            mix_i64(a.tex[1] as i64, b.tex[1] as i64, t_num, t_den) as i16,
        ],
    }
}

/// Clip one polygon against all 6 planes. Returns `None` if nothing of the
/// polygon remains; otherwise returns the (possibly modified) list of vertices.
pub fn clip_polygon(input: &[Vertex]) -> (r: Option<Vec<Vertex>>)
    ensures
        match r {
            Some(out) => clipped(input@) == Some(out@),
            None => clipped(input@) is None,
        },
{
    if input.len() < 3 {
        return None;
    }
    let c1: Vec<Vertex> = clip_against_plane(input, Plane::NegX);
    let c2: Vec<Vertex> = clip_against_plane(c1.as_slice(), Plane::PosX);
    let c3: Vec<Vertex> = clip_against_plane(c2.as_slice(), Plane::NegY);
    let c4: Vec<Vertex> = clip_against_plane(c3.as_slice(), Plane::PosY);
    let c5: Vec<Vertex> = clip_against_plane(c4.as_slice(), Plane::NegZ);
    let c6: Vec<Vertex> = clip_against_plane(c5.as_slice(), Plane::PosZ);
    proof {
        reveal_with_fuel(clipped_by_first, 7);
    }
    if c6.len() < 3 {
        None
    } else {
        Some(c6)
    }
}

fn clip_against_plane(input: &[Vertex], plane: Plane) -> (r: Vec<Vertex>)
    ensures
        r@ == clipped_by(input@, plane),
{
    let mut output: Vec<Vertex> = Vec::new();
    let n: usize = input.len();
    if n == 0 {
        return output;
    }
    let mut prev: Vertex = input[n - 1];
    let mut prev_d: i64 = classify(&prev, plane);
    for i in 0..n
        invariant
            n == input@.len(),
            n > 0,
            prev == previous(input@, i as int),
            prev_d == distance(prev, plane),
            -0x1_0000_0000 <= prev_d <= 0x1_0000_0000,
            output@ == clipped_prefix(input@, plane, i as int),
    {
        let cur: Vertex = input[i];
        let cur_d: i64 = classify(&cur, plane);
        let ghost before = output@;
        if prev_d >= 0 {
            if cur_d >= 0 {
                output.push(cur);
            } else {
                output.push(interpolate(&prev, &cur, prev_d, prev_d - cur_d));
            }
        } else if cur_d >= 0 {
            output.push(interpolate(&prev, &cur, -prev_d, cur_d - prev_d));
            output.push(cur);
        }
        assert(output@ =~= before + emitted(prev, cur, plane));
        prev = cur;
        prev_d = cur_d;
    }
    output
}

/// The six planes: x, y and z each at least `-w` and at most `w`.
pub proof fn law_plane_distances(v: Vertex)
    ensures
        distance(v, Plane::NegX) == v.clip[3] + v.clip[0],
        distance(v, Plane::PosX) == v.clip[3] - v.clip[0],
        distance(v, Plane::NegY) == v.clip[3] + v.clip[1],
        distance(v, Plane::PosY) == v.clip[3] - v.clip[1],
        distance(v, Plane::NegZ) == v.clip[3] + v.clip[2],
        distance(v, Plane::PosZ) == v.clip[3] - v.clip[2],
{
}

/// Whether `c` divides the way from `a` to `b` as `p` to `q`, rounded towards zero.
pub open spec fn divides(c: int, a: int, b: int, p: int, q: int) -> bool {
    &&& fixed::abs(a * q + b * p - c * (p + q)) < p + q
    &&& fixed::abs(c) * (p + q) <= fixed::abs(a * q + b * p)
}

proof fn lemma_mix_divides(a: int, b: int, p: int, q: int)
    requires
        0 <= p,
        0 <= q,
        p + q > 0,
    ensures
        divides(mix(a, b, p, p + q), a, b, p, q),
        fixed::min(a, b) <= mix(a, b, p, p + q) <= fixed::max(a, b),
        p == 0 ==> mix(a, b, p, p + q) == a,
        q == 0 ==> mix(a, b, p, p + q) == b,
{
    let den = p + q;
    let v = a * (den - p) + b * p;
    assert(v == a * q + b * p);
    lemma_mix_between(a, b, p, den);
    let c = mix(a, b, p, den);
    if v >= 0 {
        vstd::arithmetic::div_mod::lemma_fundamental_div_mod(v, den);
        vstd::arithmetic::div_mod::lemma_mod_bound(v, den);
        assert(c * den == den * c) by (nonlinear_arith);
        assert(c >= 0) by (nonlinear_arith)
            requires
                v == den * c + v % den,
                v % den < den,
                v >= 0,
                den > 0,
        ;
    } else {
        let m = -v;
        let k = m / den;
        vstd::arithmetic::div_mod::lemma_fundamental_div_mod(m, den);
        vstd::arithmetic::div_mod::lemma_mod_bound(m, den);
        assert(c == -k);
        assert(c * den == -(den * k) && k * den == den * k) by (nonlinear_arith)
            requires
                c == -k,
        ;
        assert(k >= 0) by (nonlinear_arith)
            requires
                m == den * k + m % den,
                m % den < den,
                m >= 0,
                den > 0,
        ;
    }
    if p == 0 {
        lemma_tdiv_multiple(a, den);
        assert(v == a * den) by (nonlinear_arith)
            requires
                v == a * q + b * p,
                p == 0,
                den == q,
        ;
    }
    if q == 0 {
        lemma_tdiv_multiple(b, den);
        assert(v == b * den) by (nonlinear_arith)
            requires
                v == a * q + b * p,
                q == 0,
                den == p,
        ;
    }
}

/// Where an edge meets a plane, everything it carries is divided as the plane divides
/// the edge: position, color channels and texture coordinates, the nearer end having
/// the larger share.
pub proof fn law_crossing_divides_edge(a: Vertex, b: Vertex, plane: Plane)
    requires
        inside(a, plane) != inside(b, plane),
    ensures
        ({
            let x = crossing(a, b, plane);
            let p = fixed::abs(distance(a, plane));
            let q = fixed::abs(distance(b, plane));
            let (ca, cb, cx) = (a.color as int, b.color as int, x.color as int);
            &&& forall|i: int|
                0 <= i < 4 ==> divides(
                    #[trigger] x.clip[i] as int,
                    a.clip[i] as int,
                    b.clip[i] as int,
                    p,
                    q,
                )
            &&& divides(x.tex[0] as int, a.tex[0] as int, b.tex[0] as int, p, q)
            &&& divides(x.tex[1] as int, a.tex[1] as int, b.tex[1] as int, p, q)
            &&& divides(cx % 32, ca % 32, cb % 32, p, q)
            &&& divides(cx / 32 % 32, ca / 32 % 32, cb / 32 % 32, p, q)
            &&& divides(cx / 1024 % 32, ca / 1024 % 32, cb / 1024 % 32, p, q)
            &&& p == 0 ==> x.clip =~= a.clip && x.tex =~= a.tex && x.color == a.color % 0x8000
            &&& q == 0 ==> x.clip =~= b.clip && x.tex =~= b.tex && x.color == b.color % 0x8000
        }),
{
    let x = crossing(a, b, plane);
    let p = fixed::abs(distance(a, plane));
    let q = fixed::abs(distance(b, plane));
    assert forall|i: int| 0 <= i < 4 implies divides(
        #[trigger] x.clip[i] as int,
        a.clip[i] as int,
        b.clip[i] as int,
        p,
        q,
    ) && (p == 0 ==> x.clip[i] == a.clip[i]) && (q == 0 ==> x.clip[i] == b.clip[i]) by {
        lemma_between_clip(a, b, p, p + q, i);
        lemma_mix_divides(a.clip[i] as int, b.clip[i] as int, p, q);
    }
    lemma_mix_divides(a.tex[0] as int, b.tex[0] as int, p, q);
    lemma_mix_divides(a.tex[1] as int, b.tex[1] as int, p, q);
    lemma_mix_divides(bgr555::red(a.color), bgr555::red(b.color), p, q);
    lemma_mix_divides(bgr555::green(a.color), bgr555::green(b.color), p, q);
    lemma_mix_divides(bgr555::blue(a.color), bgr555::blue(b.color), p, q);
    bgr555::law_pack_channels(
        mix(bgr555::red(a.color), bgr555::red(b.color), p, p + q),
        mix(bgr555::green(a.color), bgr555::green(b.color), p, p + q),
        mix(bgr555::blue(a.color), bgr555::blue(b.color), p, p + q),
    );
    bgr555::law_channels_pack(a.color);
    bgr555::law_channels_pack(b.color);
}

/// Clipping walks the outline in order: of a triangle with one corner outside a plane
/// the corner gives way to the two points where its edges meet the plane, and of one
/// with one corner inside that corner remains between two such points.
pub proof fn law_triangle_corner_cut(a: Vertex, b: Vertex, c: Vertex, plane: Plane)
    ensures
        ({
            let out = clipped_by(seq![a, b, c], plane);
            let (ia, ib, ic) = (inside(a, plane), inside(b, plane), inside(c, plane));
            &&& ia && ib && ic ==> out == seq![a, b, c]
            &&& !ia && ib && ic ==> out == seq![
                crossing(c, a, plane),
                crossing(a, b, plane),
                b,
                c,
            ]
            &&& ia && !ib && ic ==> out == seq![
                a,
                crossing(a, b, plane),
                crossing(b, c, plane),
                c,
            ]
            &&& ia && ib && !ic ==> out == seq![
                crossing(c, a, plane),
                a,
                b,
                crossing(b, c, plane),
            ]
            &&& ia && !ib && !ic ==> out == seq![crossing(c, a, plane), a, crossing(a, b, plane)]
            &&& !ia && ib && !ic ==> out == seq![crossing(a, b, plane), b, crossing(b, c, plane)]
            &&& !ia && !ib && ic ==> out == seq![crossing(c, a, plane), crossing(b, c, plane), c]
            &&& !ia && !ib && !ic ==> out.len() == 0
        }),
{
    reveal_with_fuel(clipped_prefix, 4);
    let vs = seq![a, b, c];
    let e0 = emitted(c, a, plane);
    let e1 = emitted(a, b, plane);
    let e2 = emitted(b, c, plane);
    assert(clipped_prefix(vs, plane, 1) =~= e0);
    assert(clipped_by(vs, plane) =~= e0 + e1 + e2);
}

} // verus!
