//! Circle-vs-segment collision testing and iterative slide resolution.
//!
//! All geometry is carried out on fixed-point vectors (`crate::fixed`). Each
//! executable function is proved equal to a spec-level mirror written over
//! unbounded integers, so callers reason about exact integer formulas.

use vstd::prelude::*;
use vstd::arithmetic::div_mod::lemma_fundamental_div_mod;
use vstd::arithmetic::div_mod::lemma_mod_bound;
use vstd::arithmetic::div_mod::lemma_div_is_ordered;
use vstd::arithmetic::div_mod::lemma_div_multiples_vanish;
use crate::fixed::SCALE;
use crate::fixed::COORD_MAX;
use crate::fixed::RADIUS_MAX;
use crate::fixed::Vec2;
use crate::fixed::in_range;
use crate::fixed::abs_i;
use crate::fixed::is_sqrt;
use crate::fixed::sqrt_floor;
use crate::fixed::lemma_sqrt_floor;
use crate::fixed::lemma_sqrt_unique;
use crate::fixed::isqrt;
use crate::fixed::div_floor;
use crate::fixed::div_floor_wide;

verus! {

/// Iteration cap of the slide-resolution loop.
pub const COLLISION_RESOLUTION: usize = 5;

/// Bound accepted for the position and velocity handed to `slide_move`; it
/// leaves room for the correction pushes to stay under `COORD_MAX`.
pub const SLIDE_MAX: i64 = 0x100_0000;

/// A static wall segment between two fixed-point points.
#[derive(Clone, Copy, PartialEq, Eq, Structural, Debug)]
pub struct Segment {
    pub a: Vec2,
    pub b: Vec2,
}

/// Penetration depth (fixed-point distance the circle must be pushed out by)
/// and the push direction scaled by `SCALE`.
#[derive(Clone, Copy, PartialEq, Eq, Structural, Debug)]
pub struct CollisionResult {
    pub depth: i64,
    pub normal: Vec2,
}

/// Spec-level collision record over unbounded integers.
pub struct CollisionSpec {
    pub depth: int,
    pub nx: int,
    pub ny: int,
}

/// Dot product of `p - a` with the segment tangent `b - a`.
pub open spec fn seg_num(p: Vec2, a: Vec2, b: Vec2) -> int {
    (p.x - a.x) * (b.x - a.x) + (p.y - a.y) * (b.y - a.y)
}

/// Squared length of the segment tangent `b - a`.
pub open spec fn seg_den(a: Vec2, b: Vec2) -> int {
    (b.x - a.x) * (b.x - a.x) + (b.y - a.y) * (b.y - a.y)
}

/// The point of segment `[a, b]` closest to `p`: `a` when the clamped scalar
/// projection falls before the start, `b` when past the end, otherwise the
/// interior projection rounded down per component.
pub open spec fn closest_point_spec(p: Vec2, a: Vec2, b: Vec2) -> (int, int) {
    let num = seg_num(p, a, b);
    let den = seg_den(a, b);
    if num <= 0 {
        (a.x as int, a.y as int)
    } else if num >= den {
        (b.x as int, b.y as int)
    } else {
        (a.x + (b.x - a.x) * num / den, a.y + (b.y - a.y) * num / den)
    }
}

/// Squared distance from `c` to the closest point of segment `s`.
pub open spec fn dist2_spec(c: Vec2, s: Segment) -> int {
    let (px, py) = closest_point_spec(c, s.a, s.b);
    (c.x - px) * (c.x - px) + (c.y - py) * (c.y - py)
}

/// Collision of the circle at `c` with radius `r` against segment `s`:
/// no collision when the circle is at least `r` away from the segment, or
/// when its center lies exactly on the segment (the degenerate case where no
/// push direction exists); otherwise depth `r - dist` and the direction from
/// the segment toward the center, scaled to `SCALE` length and rounded down.
pub open spec fn collide_spec(c: Vec2, r: i64, s: Segment) -> Option<CollisionSpec> {
    let (px, py) = closest_point_spec(c, s.a, s.b);
    let dx = c.x - px;
    let dy = c.y - py;
    let d2 = dx * dx + dy * dy;
    if d2 >= r * r {
        None
    } else if d2 == 0 {
        None
    } else {
        let d = sqrt_floor(d2);
        Some(CollisionSpec { depth: r - d, nx: dx * SCALE / d, ny: dy * SCALE / d })
    }
}

/// Fold of `collide_spec` over a segment list, keeping the greatest
/// penetration depth; an earlier segment wins ties.
pub open spec fn best_collision(c: Vec2, r: i64, segs: Seq<Segment>) -> Option<CollisionSpec>
    decreases segs.len(),
{
    if segs.len() == 0 {
        None
    } else {
        let prev = best_collision(c, r, segs.drop_last());
        match collide_spec(c, r, segs.last()) {
            None => prev,
            Some(cur) => match prev {
                None => Some(cur),
                Some(p) => if cur.depth > p.depth {
                    Some(cur)
                } else {
                    Some(p)
                },
            },
        }
    }
}

/// Every segment of `segs` lies within the geometry coordinate range.
pub open spec fn segs_in_range(segs: Seq<Segment>) -> bool {
    forall|i: int|
        0 <= i < segs.len() ==> in_range(#[trigger] segs[i].a, COORD_MAX as int) && in_range(
            segs[i].b,
            COORD_MAX as int,
        )
}

/// One slide correction: push the position out along the collision normal by
/// the penetration depth, rounding each component down.
pub open spec fn push_spec(px: int, py: int, col: CollisionSpec) -> (int, int) {
    (px + col.nx * col.depth / (SCALE as int), py + col.ny * col.depth / (SCALE as int))
}

/// Up to `n` correction iterations from `(px, py)`, stopping early once no
/// segment collides.
pub open spec fn slide_iter(px: int, py: int, r: i64, segs: Seq<Segment>, n: nat) -> (int, int)
    decreases n,
{
    if n == 0 {
        (px, py)
    } else {
        match best_collision(Vec2 { x: px as i64, y: py as i64 }, r, segs) {
            None => (px, py),
            Some(col) => {
                let (qx, qy) = push_spec(px, py, col);
                slide_iter(qx, qy, r, segs, (n - 1) as nat)
            },
        }
    }
}

/// The whole slide move: apply the velocity once, then run the correction
/// iterations.
pub open spec fn slide_move_spec(pos: Vec2, r: i64, vel: Vec2, segs: Seq<Segment>) -> (int, int) {
    slide_iter(pos.x + vel.x, pos.y + vel.y, r, segs, COLLISION_RESOLUTION as nat)
}

/// A product of two differences of in-range coordinates stays well inside
/// `i64`.
proof fn lemma_product_range(u: int, v: int)
    by (nonlinear_arith)
    requires
        -0x800_0000 <= u <= 0x800_0000,
        -0x800_0000 <= v <= 0x800_0000,
    ensures
        -0x40_0000_0000_0000 <= u * v <= 0x40_0000_0000_0000,
{
}

/// The square of a difference of in-range coordinates is nonnegative and
/// stays well inside `i64`.
proof fn lemma_square_range(u: int)
    by (nonlinear_arith)
    requires
        -0x800_0000 <= u <= 0x800_0000,
    ensures
        0 <= u * u <= 0x40_0000_0000_0000,
{
}

/// For `den >= 1` and `0 <= num <= den`, the rounded scaled step `d*num/den`
/// stays between `0` and `d`.
proof fn lemma_scaled_step_bounds(d: int, num: int, den: int)
    requires
        den >= 1,
        0 <= num <= den,
    ensures
        d >= 0 ==> 0 <= d * num / den <= d,
        d < 0 ==> d <= d * num / den <= 0,
{
    if d >= 0 {
        assert(0 <= d * num && d * num <= d * den && d * den == den * d) by (nonlinear_arith)
            requires
                d >= 0,
                0 <= num <= den,
        ;
        lemma_div_is_ordered(0, d * num, den);
        lemma_div_is_ordered(d * num, d * den, den);
        lemma_div_multiples_vanish(d, den);
        assert(d * den / den == d);
    } else {
        assert(d * den <= d * num && d * num <= 0 && d * den == den * d) by (nonlinear_arith)
            requires
                d < 0,
                0 <= num <= den,
        ;
        lemma_div_is_ordered(d * den, d * num, den);
        lemma_div_is_ordered(d * num, 0, den);
        lemma_div_multiples_vanish(d, den);
        assert(d * den / den == d);
        assert(0int / den == 0);
    }
}

/// Multiplying by `d` and then flooring-dividing by `d` is the identity.
proof fn lemma_mul_div_exact(k: int, d: int)
    requires
        d >= 1,
    ensures
        (d * k) / d == k,
{
    lemma_div_multiples_vanish(k, d);
}

/// Law: a point whose projection falls strictly between a segment's
/// endpoints is sent by `closest_point_spec` to a point whose offset from it
/// is perpendicular to the segment's tangent, up to the sub-unit rounding of
/// the two coordinates: the dot product with the tangent is smaller in
/// magnitude than the tangent's coordinate span.
#[verifier::rlimit(100)]
pub proof fn lemma_closest_point_perpendicular(p: Vec2, a: Vec2, b: Vec2)
    requires
        0 < seg_num(p, a, b) < seg_den(a, b),
    ensures
        ({
            let (cx, cy) = closest_point_spec(p, a, b);
            let dot = (p.x - cx) * (b.x - a.x) + (p.y - cy) * (b.y - a.y);
            -(abs_i(b.x - a.x) + abs_i(b.y - a.y)) < dot < abs_i(b.x - a.x) + abs_i(b.y - a.y)
        }),
{
    let num = seg_num(p, a, b);
    let den = seg_den(a, b);
    let dx = b.x - a.x;
    let dy = b.y - a.y;
    let ex = p.x - a.x;
    let ey = p.y - a.y;
    let qx = dx * num / den;
    let qy = dy * num / den;
    let mx = (dx * num) % den;
    let my = (dy * num) % den;
    lemma_fundamental_div_mod(dx * num, den);
    lemma_fundamental_div_mod(dy * num, den);
    lemma_mod_bound(dx * num, den);
    lemma_mod_bound(dy * num, den);
    let (cx, cy) = closest_point_spec(p, a, b);
    assert(cx == a.x + qx && cy == a.y + qy);
    let dot = (p.x - cx) * dx + (p.y - cy) * dy;
    assert(den * dot == dx * mx + dy * my) by (nonlinear_arith)
        requires
            den == dx * dx + dy * dy,
            num == ex * dx + ey * dy,
            dx * num == den * qx + mx,
            dy * num == den * qy + my,
            dot == (ex - qx) * dx + (ey - qy) * dy,
    ;
    let adx = abs_i(dx);
    let ady = abs_i(dy);
    assert(adx + ady >= 1) by (nonlinear_arith)
        requires
            den == dx * dx + dy * dy,
            den >= 1,
            adx == abs_i(dx),
            ady == abs_i(dy),
            -adx <= dx <= adx,
            -ady <= dy <= ady,
            adx >= 0,
            ady >= 0,
    ;
    assert(-((adx + ady) * den) < den * dot < (adx + ady) * den) by (nonlinear_arith)
        requires
            den * dot == dx * mx + dy * my,
            0 <= mx < den,
            0 <= my < den,
            den >= 1,
            -adx <= dx <= adx,
            -ady <= dy <= ady,
            adx >= 0,
            ady >= 0,
            adx + ady >= 1,
            den == dx * dx + dy * dy,
    ;
    assert(-(adx + ady) < dot < adx + ady) by (nonlinear_arith)
        requires
            -((adx + ady) * den) < den * dot < (adx + ady) * den,
            den >= 1,
    ;
}

/// Law: a circle whose center sits at squared distance exactly `radius`
/// squared from a segment — touching but not overlapping — reports no
/// collision.
pub proof fn lemma_collide_at_radius_none(c: Vec2, r: i64, s: Segment)
    requires
        dist2_spec(c, s) == r * r,
    ensures
        collide_spec(c, r, s) is None,
{
}

/// Law: a circle whose center sits at exact distance `radius - e` from a
/// segment, for `0 < e < radius`, collides with penetration depth exactly
/// `e`, and the reported normal components never exceed one unit of scale.
pub proof fn lemma_collide_depth_exact(c: Vec2, r: i64, s: Segment, e: int)
    requires
        0 < e < r,
        dist2_spec(c, s) == (r - e) * (r - e),
    ensures
        collide_spec(c, r, s) matches Some(col) && col.depth == e && -SCALE <= col.nx <= SCALE
            && -SCALE <= col.ny <= SCALE,
{
    let (px, py) = closest_point_spec(c, s.a, s.b);
    let dx = c.x - px;
    let dy = c.y - py;
    let d2 = dist2_spec(c, s);
    assert(0 < d2 < r * r) by (nonlinear_arith)
        requires
            d2 == (r - e) * (r - e),
            0 < e < r,
    ;
    assert(is_sqrt(d2, r - e)) by (nonlinear_arith)
        requires
            d2 == (r - e) * (r - e),
            0 < e < r,
    ;
    lemma_sqrt_floor(d2);
    lemma_sqrt_unique(d2, r - e, sqrt_floor(d2));
    assert(-(r - e) <= dx <= r - e && -(r - e) <= dy <= r - e) by (nonlinear_arith)
        requires
            d2 == dx * dx + dy * dy,
            d2 == (r - e) * (r - e),
            0 < e < r,
    ;
    lemma_scaled_normal_bounds(dx, r - e);
    lemma_scaled_normal_bounds(dy, r - e);
}

/// Law: among all colliding segments the resolver keeps one of greatest
/// penetration depth — when it reports nothing, no segment collides, and
/// when it reports a collision, that collision belongs to some segment of
/// the list and no segment penetrates deeper.
pub proof fn lemma_best_collision_deepest(c: Vec2, r: i64, segs: Seq<Segment>)
    ensures
        best_collision(c, r, segs) is None ==> forall|i: int|
            0 <= i < segs.len() ==> collide_spec(c, r, #[trigger] segs[i]) is None,
        best_collision(c, r, segs) matches Some(best) ==> (exists|i: int|
            0 <= i < segs.len() && collide_spec(c, r, #[trigger] segs[i]) == Some(best)) && (
        forall|i: int|
            0 <= i < segs.len() ==> (collide_spec(c, r, #[trigger] segs[i]) matches Some(ci)
                ==> ci.depth <= best.depth)),
    decreases segs.len(),
{
    if segs.len() == 0 {
    } else {
        let prefix = segs.drop_last();
        lemma_best_collision_deepest(c, r, prefix);
        let lastseg = segs[segs.len() - 1];
        assert(segs.last() == lastseg);
        match best_collision(c, r, segs) {
            None => {
                assert(collide_spec(c, r, lastseg) is None);
                assert forall|i: int|
                    0 <= i < segs.len() implies collide_spec(c, r, #[trigger] segs[i]) is None by {
                    if i < segs.len() - 1 {
                        assert(segs[i] == prefix[i]);
                        assert(collide_spec(c, r, prefix[i]) is None);
                    }
                }
            },
            Some(best) => {
                match collide_spec(c, r, lastseg) {
                    None => {
                        assert(best_collision(c, r, prefix) == Some(best));
                        let j = choose|i: int|
                            0 <= i < prefix.len() && collide_spec(c, r, #[trigger] prefix[i])
                                == Some(best);
                        assert(segs[j] == prefix[j]);
                        assert(0 <= j < segs.len() && collide_spec(c, r, segs[j]) == Some(best));
                    },
                    Some(cur) => {
                        if best == cur {
                            assert(collide_spec(c, r, segs[segs.len() - 1]) == Some(best));
                        } else {
                            assert(best_collision(c, r, prefix) == Some(best));
                            let j = choose|i: int|
                                0 <= i < prefix.len() && collide_spec(c, r, #[trigger] prefix[i])
                                    == Some(best);
                            assert(segs[j] == prefix[j]);
                            assert(0 <= j < segs.len() && collide_spec(c, r, segs[j]) == Some(
                            best));
                        }
                    },
                }
                assert forall|i: int|
                    0 <= i < segs.len() implies (collide_spec(c, r, #[trigger] segs[i]) matches Some(
                    ci,
                ) ==> ci.depth <= best.depth) by {
                    if i < segs.len() - 1 {
                        assert(segs[i] == prefix[i]);
                        match best_collision(c, r, prefix) {
                            None => {
                                assert(collide_spec(c, r, prefix[i]) is None);
                            },
                            Some(p) => {
                                assert(p.depth <= best.depth);
                            },
                        }
                    }
                }
            },
        }
    }
}

/// For a horizontal segment and a point whose x coordinate lies strictly
/// between the endpoints, the closest point is exactly the foot of the
/// vertical: same x, the wall's y.
pub proof fn lemma_horizontal_closest(v: Vec2, seg: Segment)
    requires
        seg.a.y == seg.b.y,
        (seg.a.x < v.x < seg.b.x) || (seg.b.x < v.x < seg.a.x),
    ensures
        0 < seg_num(v, seg.a, seg.b) < seg_den(seg.a, seg.b),
        closest_point_spec(v, seg.a, seg.b) == (v.x as int, seg.a.y as int),
{
    let dxs = seg.b.x - seg.a.x;
    let wx = v.x - seg.a.x;
    let num = seg_num(v, seg.a, seg.b);
    let den = seg_den(seg.a, seg.b);
    assert(num == wx * dxs && den == dxs * dxs) by (nonlinear_arith)
        requires
            num == (v.x - seg.a.x) * (seg.b.x - seg.a.x) + (v.y - seg.a.y) * (seg.b.y - seg.a.y),
            den == (seg.b.x - seg.a.x) * (seg.b.x - seg.a.x) + (seg.b.y - seg.a.y) * (seg.b.y
                - seg.a.y),
            seg.a.y == seg.b.y,
            wx == v.x - seg.a.x,
            dxs == seg.b.x - seg.a.x,
    ;
    assert(0 < num < den) by (nonlinear_arith)
        requires
            num == wx * dxs,
            den == dxs * dxs,
            (0 < wx < dxs) || (dxs < wx < 0),
    ;
    assert(dxs * num == den * wx) by (nonlinear_arith)
        requires
            num == wx * dxs,
            den == dxs * dxs,
    ;
    lemma_mul_div_exact(wx, den);
    assert(dxs * num / den == wx);
    assert((seg.b.y - seg.a.y) * num == den * 0 && den * 0 == 0) by (nonlinear_arith)
        requires
            seg.a.y == seg.b.y,
    ;
    lemma_mul_div_exact(0, den);
    assert((seg.b.y - seg.a.y) * num / den == 0);
}

/// The collision of a circle against a horizontal wall segment it overlaps,
/// with its center projecting strictly inside the segment at exact distance
/// `e` from the wall line: depth `r - e` and a normal of exactly one scale
/// unit straight away from the wall.
pub proof fn lemma_horizontal_collide(v: Vec2, r: i64, seg: Segment, e: int)
    requires
        0 < r,
        seg.a.y == seg.b.y,
        (seg.a.x < v.x < seg.b.x) || (seg.b.x < v.x < seg.a.x),
        e == abs_i(v.y - seg.a.y),
        0 < e < r,
    ensures
        collide_spec(v, r, seg) matches Some(col) && col == (CollisionSpec {
            depth: r - e,
            nx: 0,
            ny: if v.y >= seg.a.y {
                SCALE as int
            } else {
                -SCALE as int
            },
        }),
{
    lemma_horizontal_closest(v, seg);
    let (px, py) = closest_point_spec(v, seg.a, seg.b);
    assert(px == v.x && py == seg.a.y);
    let dy = v.y - seg.a.y;
    let d2 = (v.x - px) * (v.x - px) + dy * dy;
    assert(d2 == e * e && 0 < d2 < r * r && e * e < (e + 1) * (e + 1)) by (nonlinear_arith)
        requires
            d2 == 0 * 0 + dy * dy,
            e == (if dy < 0 { -dy } else { dy }),
            0 < e < r,
    ;
    assert(is_sqrt(d2, e));
    lemma_sqrt_floor(d2);
    lemma_sqrt_unique(d2, e, sqrt_floor(d2));
    assert(sqrt_floor(d2) == e);
    assert(0int * SCALE == e * 0 && e * 0 == 0) by (nonlinear_arith);
    lemma_mul_div_exact(0, e);
    assert((v.x - px) * (SCALE as int) / e == 0);
    if v.y >= seg.a.y {
        assert(dy * (SCALE as int) == e * (SCALE as int)) by (nonlinear_arith)
            requires
                dy == e,
        ;
        lemma_mul_div_exact(SCALE as int, e);
        assert(dy * (SCALE as int) / e == SCALE);
    } else {
        assert(dy * (SCALE as int) == e * (-SCALE as int)) by (nonlinear_arith)
            requires
                dy == -e,
        ;
        lemma_mul_div_exact(-SCALE as int, e);
        assert(dy * (SCALE as int) / e == -SCALE);
    }
}

/// Law: a circle pushed into a single flat (horizontal) wall segment by one
/// slide move comes to rest at distance exactly its radius from the wall
/// line, never embedded past it: when the post-velocity center projects
/// strictly inside the segment and penetrates the wall, the slide keeps its
/// horizontal position and leaves it exactly `r` from the wall.
pub proof fn lemma_slide_flat_wall(pos: Vec2, r: i64, vel: Vec2, seg: Segment)
    requires
        0 < r <= RADIUS_MAX,
        in_range(pos, SLIDE_MAX as int),
        in_range(vel, SLIDE_MAX as int),
        seg.a.y == seg.b.y,
        (seg.a.x < pos.x + vel.x < seg.b.x) || (seg.b.x < pos.x + vel.x < seg.a.x),
        0 < abs_i(pos.y + vel.y - seg.a.y) < r,
    ensures
        ({
            let (fx, fy) = slide_move_spec(pos, r, vel, seq![seg]);
            fx == pos.x + vel.x && abs_i(fy - seg.a.y) == r
        }),
{
    let segs = seq![seg];
    assert(segs.drop_last() =~= Seq::<Segment>::empty());
    assert(segs.last() == seg);
    let qx = pos.x + vel.x as int;
    let qy = pos.y + vel.y as int;
    let ay = seg.a.y as int;
    let e = abs_i(qy - ay);
    let q = Vec2 { x: qx as i64, y: qy as i64 };
    assert(q.x == qx && q.y == qy);
    lemma_horizontal_collide(q, r, seg, e);
    let col = collide_spec(q, r, seg).unwrap();
    assert(best_collision(q, r, segs.drop_last()) is None);
    assert(best_collision(q, r, segs) == Some(col));
    let (p2x, p2y) = push_spec(qx, qy, col);
    assert(0int * col.depth == (SCALE as int) * 0) by (nonlinear_arith);
    lemma_mul_div_exact(0, SCALE as int);
    assert(p2x == qx);
    lemma_mul_div_exact(col.depth, SCALE as int);
    lemma_mul_div_exact(-col.depth, SCALE as int);
    assert((SCALE as int) * col.depth / (SCALE as int) == col.depth);
    assert((-SCALE as int) * col.depth == (SCALE as int) * (-col.depth)) by (nonlinear_arith);
    if qy >= ay {
        assert(col.ny == SCALE as int);
        assert(p2y == qy + col.depth);
        assert(p2y - ay == r);
    } else {
        assert(col.ny == -SCALE as int);
        assert(p2y == qy - col.depth);
        assert(ay - p2y == r);
    }
    let p2 = Vec2 { x: p2x as i64, y: p2y as i64 };
    assert(p2.x == p2x && p2.y == p2y);
    lemma_horizontal_closest(p2, seg);
    let (rx, ry) = closest_point_spec(p2, seg.a, seg.b);
    assert(rx == p2x && ry == ay);
    let dd = (p2.x - rx) * (p2.x - rx) + (p2.y - ry) * (p2.y - ry);
    assert(dd >= r * r) by (nonlinear_arith)
        requires
            dd == 0 * 0 + (p2y - ay) * (p2y - ay),
            (p2y - ay == r) || (p2y - ay == -r),
    ;
    assert(collide_spec(p2, r, seg) is None);
    assert(best_collision(p2, r, segs.drop_last()) is None);
    assert(best_collision(p2, r, segs) is None);
    assert(slide_iter(p2x, p2y, r, segs, 4) == (p2x, p2y));
    assert(slide_iter(qx, qy, r, segs, 5) == (p2x, p2y));
}

/// Projects `pos` onto segment `[s0, s1]` using the clamped scalar projection
/// along the tangent: `s0` before the start, `s1` past the end, otherwise the
/// interior point, each coordinate rounded down.
pub fn closest_point_on_segment(pos: Vec2, s0: Vec2, s1: Vec2) -> (r: Vec2)
    requires
        in_range(pos, COORD_MAX as int),
        in_range(s0, COORD_MAX as int),
        in_range(s1, COORD_MAX as int),
    ensures
        (r.x as int, r.y as int) == closest_point_spec(pos, s0, s1),
        in_range(r, COORD_MAX as int),
{
    let dx: i64 = s1.x - s0.x;
    let dy: i64 = s1.y - s0.y;
    let ex: i64 = pos.x - s0.x;
    let ey: i64 = pos.y - s0.y;
    proof {
        lemma_product_range(ex as int, dx as int);
        lemma_product_range(ey as int, dy as int);
        lemma_square_range(dx as int);
        lemma_square_range(dy as int);
    }
    let num: i64 = ex * dx + ey * dy;
    let den: i64 = dx * dx + dy * dy;
    if num <= 0 {
        s0
    } else if num >= den {
        s1
    } else {
        proof {
            assert(-0x80_0000_0000_0000_0000_0000 <= (dx as int) * (num as int)
                <= 0x80_0000_0000_0000_0000_0000 && -0x80_0000_0000_0000_0000_0000 <= (dy as int)
                * (num as int) <= 0x80_0000_0000_0000_0000_0000) by (nonlinear_arith)
                requires
                    -0x800_0000 <= dx <= 0x800_0000,
                    -0x800_0000 <= dy <= 0x800_0000,
                    0 <= num <= 0x80_0000_0000_0000,
            ;
        }
        let qx: i128 = div_floor_wide((dx as i128) * (num as i128), den as i128);
        let qy: i128 = div_floor_wide((dy as i128) * (num as i128), den as i128);
        proof {
            lemma_scaled_step_bounds(dx as int, num as int, den as int);
            lemma_scaled_step_bounds(dy as int, num as int, den as int);
        }
        Vec2 { x: s0.x + (qx as i64), y: s0.y + (qy as i64) }
    }
}

/// Tests the circle at `circle` with radius `r` against segment `[s0, s1]`,
/// returning the penetration depth and push normal exactly as `collide_spec`
/// describes. The degenerate center-on-segment case reports no collision, so
/// no push direction ever has to be fabricated from a zero vector.
pub fn collide_circle_with_segment(circle: Vec2, r: i64, s0: Vec2, s1: Vec2) -> (res: Option<
    CollisionResult,
>)
    requires
        in_range(circle, COORD_MAX as int),
        in_range(s0, COORD_MAX as int),
        in_range(s1, COORD_MAX as int),
        0 < r <= RADIUS_MAX,
    ensures
        ({
            let spec = collide_spec(circle, r, Segment { a: s0, b: s1 });
            match res {
                None => spec is None,
                Some(c) => spec == Some(
                    CollisionSpec { depth: c.depth as int, nx: c.normal.x as int, ny: c.normal.y as int },
                ) && 0 < c.depth < r && -SCALE <= c.normal.x <= SCALE && -SCALE <= c.normal.y
                    <= SCALE,
            }
        }),
{
    let cp = closest_point_on_segment(circle, s0, s1);
    let dx: i64 = circle.x - cp.x;
    let dy: i64 = circle.y - cp.y;
    proof {
        lemma_square_range(dx as int);
        lemma_square_range(dy as int);
        assert(0 < r * r <= 0x100_0000_0000) by (nonlinear_arith)
            requires
                0 < r <= 0x10_0000,
        ;
    }
    let d2: i64 = dx * dx + dy * dy;
    if d2 >= r * r {
        None
    } else if d2 == 0 {
        None
    } else {
        let du: u64 = isqrt(d2 as u64);
        proof {
            assert(du <= 0x1000_0000) by (nonlinear_arith)
                requires
                    (du as int) * (du as int) <= d2 as int,
                    d2 <= 0x40_0000_0000_0000,
            ;
        }
        let d: i64 = du as i64;
        proof {
            assert(d >= 0 && d * d <= d2 < (d + 1) * (d + 1));
            assert(d >= 1) by (nonlinear_arith)
                requires
                    d >= 0,
                    d2 < (d + 1) * (d + 1),
                    d2 >= 1,
            ;
            assert(d < r) by (nonlinear_arith)
                requires
                    d >= 0,
                    d * d <= d2,
                    d2 < r * r,
                    r > 0,
            ;
            // |dx| <= d and |dy| <= d, so the scaled normal components stay
            // within [-SCALE, SCALE].
            assert(-d <= dx <= d && -d <= dy <= d) by (nonlinear_arith)
                requires
                    d >= 0,
                    d2 < (d + 1) * (d + 1),
                    d2 == dx * dx + dy * dy,
            ;
            lemma_scaled_normal_bounds(dx as int, d as int);
            lemma_scaled_normal_bounds(dy as int, d as int);
        }
        let nx: i64 = div_floor(dx * SCALE, d);
        let ny: i64 = div_floor(dy * SCALE, d);
        Some(CollisionResult { depth: r - d, normal: Vec2 { x: nx, y: ny } })
    }
}

/// For `1 <= d` and `|v| <= d`, the rounded scaled component `v*SCALE/d`
/// stays within `[-SCALE, SCALE]`.
proof fn lemma_scaled_normal_bounds(v: int, d: int)
    requires
        1 <= d,
        -d <= v <= d,
    ensures
        -SCALE <= v * SCALE / d <= SCALE,
{
    assert(-(d * SCALE) <= v * SCALE && v * SCALE <= d * SCALE) by (nonlinear_arith)
        requires
            1 <= d,
            -d <= v <= d,
            SCALE == 1024i64,
    ;
    lemma_div_is_ordered(-(d * SCALE), v * SCALE, d);
    lemma_div_is_ordered(v * SCALE, d * SCALE, d);
    lemma_div_multiples_vanish(SCALE as int, d);
    lemma_div_multiples_vanish(-(SCALE as int), d);
    assert(d * SCALE == d * (SCALE as int) && -(d * SCALE) == d * (-(SCALE as int)))
        by (nonlinear_arith);
}

/// Tests every segment and keeps the collision with the greatest penetration
/// depth — the deepest interpenetration is resolved first; shallow contacts
/// are more likely spurious or already resolved. Ties keep the earlier
/// segment.
pub fn collide_with_segments(pos: Vec2, r: i64, segments: &Vec<Segment>) -> (res: Option<
    CollisionResult,
>)
    requires
        in_range(pos, COORD_MAX as int),
        0 < r <= RADIUS_MAX,
        segs_in_range(segments@),
    ensures
        ({
            let spec = best_collision(pos, r, segments@);
            match res {
                None => spec is None,
                Some(c) => spec == Some(
                    CollisionSpec { depth: c.depth as int, nx: c.normal.x as int, ny: c.normal.y as int },
                ) && 0 < c.depth < r && -SCALE <= c.normal.x <= SCALE && -SCALE <= c.normal.y
                    <= SCALE,
            }
        }),
{
    let mut earliest: Option<CollisionResult> = None;
    let mut i: usize = 0;
    while i < segments.len()
        invariant
            0 <= i <= segments.len(),
            in_range(pos, COORD_MAX as int),
            0 < r <= RADIUS_MAX,
            segs_in_range(segments@),
            ({
                let spec = best_collision(pos, r, segments@.take(i as int));
                match earliest {
                    None => spec is None,
                    Some(c) => spec == Some(
                        CollisionSpec {
                            depth: c.depth as int,
                            nx: c.normal.x as int,
                            ny: c.normal.y as int,
                        },
                    ) && 0 < c.depth < r && -SCALE <= c.normal.x <= SCALE && -SCALE <= c.normal.y
                        <= SCALE,
                }
            }),
        decreases segments.len() - i,
    {
        let seg = segments[i];
        proof {
            assert(segments@.take(i as int + 1).drop_last() == segments@.take(i as int));
            assert(segments@.take(i as int + 1).last() == segments@[i as int]);
        }
        let collision = collide_circle_with_segment(pos, r, seg.a, seg.b);
        match collision {
            Some(c) => {
                match earliest {
                    Some(e) => {
                        if c.depth > e.depth {
                            earliest = Some(c);
                        }
                    },
                    None => {
                        earliest = Some(c);
                    },
                }
            },
            None => {},
        }
        i = i + 1;
    }
    proof {
        assert(segments@.take(segments@.len() as int) == segments@);
    }
    earliest
}

/// Applies the velocity once, then repeatedly pushes the position out of the
/// deepest collision, up to `COLLISION_RESOLUTION` times, stopping early when
/// no segment collides. A discrete corrective relaxation: fast motion can
/// still tunnel through thin geometry.
pub fn slide_move(pos: Vec2, r: i64, vel: Vec2, segments: &Vec<Segment>) -> (np: Vec2)
    requires
        in_range(pos, SLIDE_MAX as int),
        in_range(vel, SLIDE_MAX as int),
        0 < r <= RADIUS_MAX,
        segs_in_range(segments@),
    ensures
        (np.x as int, np.y as int) == slide_move_spec(pos, r, vel, segments@),
{
    let mut p = Vec2 { x: pos.x + vel.x, y: pos.y + vel.y };
    let mut i: usize = 0;
    while i < COLLISION_RESOLUTION
        invariant
            0 <= i <= COLLISION_RESOLUTION,
            0 < r <= RADIUS_MAX,
            segs_in_range(segments@),
            in_range(p, 2 * SLIDE_MAX + i * RADIUS_MAX),
            slide_iter(p.x as int, p.y as int, r, segments@, (COLLISION_RESOLUTION - i) as nat)
                == slide_move_spec(pos, r, vel, segments@),
        decreases COLLISION_RESOLUTION - i,
    {
        assert(in_range(p, COORD_MAX as int));
        match collide_with_segments(p, r, segments) {
            Some(collision) => {
                proof {
                    lemma_push_small(collision.normal.x as int, collision.depth as int);
                    lemma_push_small(collision.normal.y as int, collision.depth as int);
                }
                let px: i64 = div_floor(collision.normal.x * collision.depth, SCALE);
                let py: i64 = div_floor(collision.normal.y * collision.depth, SCALE);
                p = Vec2 { x: p.x + px, y: p.y + py };
                i = i + 1;
            },
            None => {
                // No remaining contact: the fixed point is reached.
                i = COLLISION_RESOLUTION;
            },
        }
    }
    p
}

/// A fixed-point scaling by a factor of magnitude at most `SCALE` never
/// exceeds the scaled quantity per component.
pub proof fn lemma_push_small(n: int, depth: int)
    requires
        -SCALE <= n <= SCALE,
        0 <= depth,
    ensures
        -depth <= n * depth / (SCALE as int) <= depth,
{
    assert(-(SCALE * depth) <= n * depth && n * depth <= SCALE * depth) by (nonlinear_arith)
        requires
            -1024 <= n <= 1024,
            0 <= depth,
            SCALE == 1024i64,
    ;
    lemma_div_is_ordered(-(SCALE * depth), n * depth, SCALE as int);
    lemma_div_is_ordered(n * depth, SCALE * depth, SCALE as int);
    lemma_div_multiples_vanish(depth, SCALE as int);
    lemma_div_multiples_vanish(-depth, SCALE as int);
    assert(SCALE * depth == (SCALE as int) * depth && -(SCALE * depth) == (SCALE as int) * (-depth))
        by (nonlinear_arith);
}

} // verus!
