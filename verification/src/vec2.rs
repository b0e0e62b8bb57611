//! Fixed-point 2D vector math: normalized direction scaling, rotation by a
//! millidegree angle, and an exact point-in-triangle test.
//!
//! Coordinates are integers in milliunits. Every operation is exact integer
//! arithmetic, specified by a total spec-level counterpart.

use vstd::prelude::*;

verus! {

/// Largest coordinate magnitude the vector operations accept; keeps every
/// intermediate product inside `i64`/`u64`.
pub const COORD_LIMIT: i64 = 1_000_000_000;

/// A 2D point or displacement in milliunits (one world unit = 1000).
#[derive(Clone, Copy, PartialEq, Eq, Structural, Debug)]
pub struct Vec2 {
    pub x: i64,
    pub y: i64,
}

/// Both coordinates of `v` are at most `limit` in magnitude.
pub open spec fn in_range(v: Vec2, limit: int) -> bool {
    -limit <= v.x <= limit && -limit <= v.y <= limit
}

impl Vec2 {
    pub fn new(x: i64, y: i64) -> (r: Vec2)
        ensures
            r == (Vec2 { x, y }),
    {
        Vec2 { x, y }
    }

    /// Componentwise sum.
    pub fn plus(&self, other: &Vec2) -> (r: Vec2)
        requires
            in_range(*self, COORD_LIMIT as int),
            in_range(*other, COORD_LIMIT as int),
        ensures
            r == (Vec2 { x: (self.x + other.x) as i64, y: (self.y + other.y) as i64 }),
    {
        Vec2 { x: self.x + other.x, y: self.y + other.y }
    }
}

/// Floor of the square root of `n`, defined by counting up.
pub open spec fn sqrt_floor(n: nat) -> nat
    decreases n,
{
    if n == 0 {
        0
    } else {
        let r = sqrt_floor((n - 1) as nat);
        if (r + 1) * (r + 1) <= n {
            (r + 1) as nat
        } else {
            r
        }
    }
}

/// `sqrt_floor(n)` is the unique `r` with `r * r <= n < (r + 1) * (r + 1)`.
pub proof fn lemma_sqrt_floor_bounds(n: nat)
    ensures
        sqrt_floor(n) * sqrt_floor(n) <= n,
        n < (sqrt_floor(n) + 1) * (sqrt_floor(n) + 1),
    decreases n,
{
    if n > 0 {
        lemma_sqrt_floor_bounds((n - 1) as nat);
        let p = sqrt_floor((n - 1) as nat);
        if (p + 1) * (p + 1) <= n {
            assert(sqrt_floor(n) == p + 1);
            assert(n < (p + 2) * (p + 2)) by (nonlinear_arith)
                requires
                    n - 1 < (p + 1) * (p + 1),
                    p >= 0,
            ;
            assert(n < (sqrt_floor(n) + 1) * (sqrt_floor(n) + 1));
        } else {
            assert(sqrt_floor(n) == p);
            assert(p * p <= n - 1);
        }
    } else {
        let s = sqrt_floor(n);
        assert(s == 0);
        assert(s * s <= n && n < (s + 1) * (s + 1)) by (nonlinear_arith)
            requires
                s == 0,
                n == 0,
        ;
    }
}

/// Two integers whose squares are floor-sqrt brackets of the same value agree.
pub proof fn lemma_sqrt_floor_unique(n: nat, r: nat)
    requires
        r * r <= n,
        n < (r + 1) * (r + 1),
    ensures
        r == sqrt_floor(n),
{
    lemma_sqrt_floor_bounds(n);
    let s = sqrt_floor(n);
    if r < s {
        assert((r + 1) * (r + 1) <= s * s) by (nonlinear_arith)
            requires
                r + 1 <= s,
                r >= 0,
        ;
    } else if s < r {
        assert((s + 1) * (s + 1) <= r * r) by (nonlinear_arith)
            requires
                s + 1 <= r,
                s >= 0,
        ;
    }
}

/// Integer square root by binary search.
pub fn isqrt64(n: u64) -> (r: u64)
    ensures
        r == sqrt_floor(n as nat),
{
    let mut lo: u64 = 0;
    let mut hi: u64 = 0xFFFF_FFFF;
    proof {
        assert((hi + 1) * (hi + 1) > n as int) by (nonlinear_arith)
            requires
                hi == 0xFFFF_FFFFu64,
                n <= u64::MAX,
        ;
    }
    while lo < hi
        invariant
            lo <= hi,
            hi <= 0xFFFF_FFFF,
            lo * lo <= n,
            n < (hi + 1) * (hi + 1),
        decreases hi - lo,
    {
        let mid = lo + (hi - lo + 1) / 2;
        assert(lo < mid <= hi);
        assert(mid * mid <= u64::MAX) by (nonlinear_arith)
            requires
                mid <= 0xFFFF_FFFFu64,
        ;
        if mid * mid <= n {
            lo = mid;
        } else {
            hi = mid - 1;
        }
    }
    proof {
        lemma_sqrt_floor_unique(n as nat, lo as nat);
    }
    lo
}

/// `d * s / l` with the quotient truncated toward zero (`s`, `l` positive).
pub open spec fn mul_div_trunc(d: int, s: int, l: int) -> int {
    if d >= 0 {
        d * s / l
    } else {
        -((-d) * s / l)
    }
}

/// The vector from `from` toward `to`, normalized and scaled to length
/// `scale` (up to integer truncation); the zero vector when `from == to`.
pub open spec fn spec_scaled_vector_to(from: Vec2, to: Vec2, scale: int) -> Vec2 {
    let dx = to.x - from.x;
    let dy = to.y - from.y;
    if dx == 0 && dy == 0 {
        Vec2 { x: 0, y: 0 }
    } else {
        let len = sqrt_floor((dx * dx + dy * dy) as nat) as int;
        Vec2 { x: mul_div_trunc(dx, scale, len) as i64, y: mul_div_trunc(dy, scale, len) as i64 }
    }
}

/// Aiming a point at itself yields the zero vector, whatever the scale.
pub proof fn lemma_scaled_vector_to_self_is_zero(p: Vec2, scale: int)
    ensures
        spec_scaled_vector_to(p, p, scale) == (Vec2 { x: 0, y: 0 }),
{
}

impl Vec2 {
    /// Normalized direction from `self` toward `to`, scaled by `scale`;
    /// the zero vector when the two points coincide.
    pub fn scaled_vector_to(&self, to: &Vec2, scale: i64) -> (r: Vec2)
        requires
            in_range(*self, COORD_LIMIT as int),
            in_range(*to, COORD_LIMIT as int),
            0 <= scale <= COORD_LIMIT,
        ensures
            r == spec_scaled_vector_to(*self, *to, scale as int),
            in_range(r, scale as int),
    {
        let dx = to.x - self.x;
        let dy = to.y - self.y;
        if dx == 0 && dy == 0 {
            return Vec2 { x: 0, y: 0 };
        }
        let dx_abs: u64 = if dx >= 0 { dx as u64 } else { (-dx) as u64 };
        let dy_abs: u64 = if dy >= 0 { dy as u64 } else { (-dy) as u64 };
        proof {
            assert(dx_abs * dx_abs == dx * dx && dx_abs * dx_abs <= 4_000_000_000_000_000_000)
                by (nonlinear_arith)
                requires
                    dx_abs == if dx >= 0 { dx as int } else { -dx as int },
                    -2_000_000_000 <= dx <= 2_000_000_000,
            ;
            assert(dy_abs * dy_abs == dy * dy && dy_abs * dy_abs <= 4_000_000_000_000_000_000)
                by (nonlinear_arith)
                requires
                    dy_abs == if dy >= 0 { dy as int } else { -dy as int },
                    -2_000_000_000 <= dy <= 2_000_000_000,
            ;
        }
        let n = dx_abs * dx_abs + dy_abs * dy_abs;
        let len = isqrt64(n);
        proof {
            lemma_sqrt_floor_bounds(n as nat);
            assert(dx_abs <= len && dy_abs <= len && 1 <= len) by (nonlinear_arith)
                requires
                    len * len <= n,
                    n < (len + 1) * (len + 1),
                    n == dx_abs * dx_abs + dy_abs * dy_abs,
                    len >= 0,
                    dx_abs >= 0,
                    dy_abs >= 0,
                    dx_abs >= 1 || dy_abs >= 1,
            ;
            assert(dx_abs * scale <= 2_000_000_000_000_000_000 && dy_abs * scale
                <= 2_000_000_000_000_000_000) by (nonlinear_arith)
                requires
                    0 <= dx_abs <= 2_000_000_000,
                    0 <= dy_abs <= 2_000_000_000,
                    0 <= scale <= 1_000_000_000,
            ;
        }
        let rx_mag = dx_abs * (scale as u64) / len;
        let ry_mag = dy_abs * (scale as u64) / len;
        proof {
            assert(rx_mag <= scale && ry_mag <= scale) by (nonlinear_arith)
                requires
                    rx_mag == dx_abs as int * scale as int / len as int,
                    ry_mag == dy_abs as int * scale as int / len as int,
                    1 <= len,
                    dx_abs <= len,
                    dy_abs <= len,
                    0 <= dx_abs,
                    0 <= dy_abs,
                    0 <= scale,
            ;
        }
        let rx: i64 = if dx >= 0 {
            rx_mag as i64
        } else {
            -(rx_mag as i64)
        };
        let ry: i64 = if dy >= 0 {
            ry_mag as i64
        } else {
            -(ry_mag as i64)
        };
        Vec2 { x: rx, y: ry }
    }
}

/// Twice the signed area of the triangle `o`, `a`, `b`: positive when the
/// three points wind counter-clockwise, zero when they are collinear.
pub open spec fn cross(o: Vec2, a: Vec2, b: Vec2) -> int {
    (a.x - o.x) * (b.y - o.y) - (a.y - o.y) * (b.x - o.x)
}

/// `p` lies inside or on the boundary of triangle `a`-`b`-`c`: the point is
/// on the same side of (or on) every edge. A degenerate (zero-area) triangle
/// contains no point at all.
pub open spec fn spec_in_triangle(p: Vec2, a: Vec2, b: Vec2, c: Vec2) -> bool {
    cross(a, b, c) != 0 && ((cross(a, b, p) >= 0 && cross(b, c, p) >= 0 && cross(c, a, p) >= 0)
        || (cross(a, b, p) <= 0 && cross(b, c, p) <= 0 && cross(c, a, p) <= 0))
}

/// Twice the signed area, computed exactly in `i64`.
fn cross_i64(o: &Vec2, a: &Vec2, b: &Vec2) -> (r: i64)
    requires
        in_range(*o, COORD_LIMIT as int),
        in_range(*a, COORD_LIMIT as int),
        in_range(*b, COORD_LIMIT as int),
    ensures
        r == cross(*o, *a, *b),
{
    let ux = a.x - o.x;
    let uy = a.y - o.y;
    let vx = b.x - o.x;
    let vy = b.y - o.y;
    proof {
        assert(-4_000_000_000_000_000_000 <= ux * vy <= 4_000_000_000_000_000_000
            && -4_000_000_000_000_000_000 <= uy * vx <= 4_000_000_000_000_000_000)
            by (nonlinear_arith)
            requires
                -2_000_000_000 <= ux <= 2_000_000_000,
                -2_000_000_000 <= uy <= 2_000_000_000,
                -2_000_000_000 <= vx <= 2_000_000_000,
                -2_000_000_000 <= vy <= 2_000_000_000,
        ;
    }
    ux * vy - uy * vx
}

impl Vec2 {
    /// Whether `self` lies inside or on the boundary of triangle `a`-`b`-`c`;
    /// always false for a degenerate (collinear) triangle.
    pub fn is_in_triangle(&self, a: &Vec2, b: &Vec2, c: &Vec2) -> (r: bool)
        requires
            in_range(*self, COORD_LIMIT as int),
            in_range(*a, COORD_LIMIT as int),
            in_range(*b, COORD_LIMIT as int),
            in_range(*c, COORD_LIMIT as int),
        ensures
            r == spec_in_triangle(*self, *a, *b, *c),
    {
        let area = cross_i64(a, b, c);
        if area == 0 {
            return false;
        }
        let wc = cross_i64(a, b, self);
        let wa = cross_i64(b, c, self);
        let wb = cross_i64(c, a, self);
        (wc >= 0 && wa >= 0 && wb >= 0) || (wc <= 0 && wa <= 0 && wb <= 0)
    }
}

/// The three edge weights of a point split the triangle's doubled area, and
/// weight them onto the vertices to recover the point: the barycentric
/// identities, written over integer cross products.
/// `u x v` for raw coordinate pairs: the cross product of two displacement
/// vectors.
pub open spec fn cross2(ux: int, uy: int, vx: int, vy: int) -> int {
    ux * vy - uy * vx
}

/// An edge weight rewritten over point-relative displacements.
proof fn lemma_cross_relative(a: Vec2, b: Vec2, p: Vec2)
    ensures
        cross(a, b, p) == cross2(a.x - p.x, a.y - p.y, b.x - p.x, b.y - p.y),
{
    assert(cross(a, b, p) == cross2(a.x - p.x, a.y - p.y, b.x - p.x, b.y - p.y))
        by (nonlinear_arith);
}

/// The three edge weights of the origin against triangle `u`-`v`-`w` sum to
/// that triangle's doubled area.
proof fn nl_sum6(ux: int, uy: int, vx: int, vy: int, wx: int, wy: int)
    ensures
        cross2(vx, vy, wx, wy) + cross2(wx, wy, ux, uy) + cross2(ux, uy, vx, vy) == cross2(
            vx - ux,
            vy - uy,
            wx - ux,
            wy - uy,
        ),
{
    assert(cross2(vx, vy, wx, wy) + cross2(wx, wy, ux, uy) + cross2(ux, uy, vx, vy) == cross2(
        vx - ux,
        vy - uy,
        wx - ux,
        wy - uy,
    )) by (nonlinear_arith);
}

/// Weighting one coordinate of three displacements by the opposite edge
/// weights of the origin cancels exactly.
proof fn nl_core6(ux: int, uy: int, vx: int, vy: int, wx: int, wy: int)
    ensures
        cross2(vx, vy, wx, wy) * ux + cross2(wx, wy, ux, uy) * vx + cross2(ux, uy, vx, vy) * wx
            == 0,
        cross2(vx, vy, wx, wy) * uy + cross2(wx, wy, ux, uy) * vy + cross2(ux, uy, vx, vy) * wy
            == 0,
{
    let m1 = vx * wy;
    let m2 = vy * wx;
    let m3 = wx * uy;
    let m4 = wy * ux;
    let m5 = ux * vy;
    let m6 = uy * vx;
    vstd::arithmetic::mul::lemma_mul_is_distributive_sub_other_way(ux, m1, m2);
    vstd::arithmetic::mul::lemma_mul_is_distributive_sub_other_way(vx, m3, m4);
    vstd::arithmetic::mul::lemma_mul_is_distributive_sub_other_way(wx, m5, m6);
    vstd::arithmetic::mul::lemma_mul_is_distributive_sub_other_way(uy, m1, m2);
    vstd::arithmetic::mul::lemma_mul_is_distributive_sub_other_way(vy, m3, m4);
    vstd::arithmetic::mul::lemma_mul_is_distributive_sub_other_way(wy, m5, m6);
    // Each monomial of three distinct coordinates appears twice with opposite
    // signs; reassociate so the pairs cancel.
    vstd::arithmetic::mul::lemma_mul_is_commutative(m4, vx);
    vstd::arithmetic::mul::lemma_mul_is_associative(vx, wy, ux);
    vstd::arithmetic::mul::lemma_mul_is_associative(ux, vy, wx);
    vstd::arithmetic::mul::lemma_mul_is_commutative(ux, m2);
    vstd::arithmetic::mul::lemma_mul_is_associative(wx, uy, vx);
    vstd::arithmetic::mul::lemma_mul_is_commutative(wx, m6);
    assert(m4 * vx == m1 * ux);
    assert(m5 * wx == m2 * ux);
    assert(m3 * vx == m6 * wx);
    vstd::arithmetic::mul::lemma_mul_is_associative(uy, vx, wy);
    vstd::arithmetic::mul::lemma_mul_is_commutative(uy, m1);
    vstd::arithmetic::mul::lemma_mul_is_commutative(m3, vy);
    vstd::arithmetic::mul::lemma_mul_is_associative(vy, wx, uy);
    vstd::arithmetic::mul::lemma_mul_is_associative(ux, vy, wy);
    vstd::arithmetic::mul::lemma_mul_is_commutative(m4, vy);
    vstd::arithmetic::mul::lemma_mul_is_associative(vy, wy, ux);
    vstd::arithmetic::mul::lemma_mul_is_commutative(ux, vy * wy);
    assert(m6 * wy == m1 * uy);
    assert(m3 * vy == m2 * uy);
    assert(m4 * vy == m5 * wy);
}

/// The barycentric identities over integer cross products: the edge weights
/// of `p` sum to the triangle's doubled area, and weighting the vertices by
/// them recovers `p`, scaled by that area.
proof fn lemma_barycentric_identities(p: Vec2, a: Vec2, b: Vec2, c: Vec2)
    ensures
        cross(b, c, p) + cross(c, a, p) + cross(a, b, p) == cross(a, b, c),
        cross(b, c, p) * a.x + cross(c, a, p) * b.x + cross(a, b, p) * c.x == cross(a, b, c)
            * p.x,
        cross(b, c, p) * a.y + cross(c, a, p) * b.y + cross(a, b, p) * c.y == cross(a, b, c)
            * p.y,
{
    broadcast use vstd::arithmetic::mul::group_mul_is_distributive;

    let ux = a.x - p.x;
    let uy = a.y - p.y;
    let vx = b.x - p.x;
    let vy = b.y - p.y;
    let wx = c.x - p.x;
    let wy = c.y - p.y;
    lemma_cross_relative(b, c, p);
    lemma_cross_relative(c, a, p);
    lemma_cross_relative(a, b, p);
    let wa = cross2(vx, vy, wx, wy);
    let wb = cross2(wx, wy, ux, uy);
    let wc = cross2(ux, uy, vx, vy);
    // The triangle's doubled area is definitionally the cross product of two
    // edge displacements, which are translation-free.
    assert(cross(a, b, c) == cross2(vx - ux, vy - uy, wx - ux, wy - uy));
    nl_sum6(ux, uy, vx, vy, wx, wy);
    nl_core6(ux, uy, vx, vy, wx, wy);
    assert(wa * a.x == wa * ux + wa * p.x);
    assert(wb * b.x == wb * vx + wb * p.x);
    assert(wc * c.x == wc * wx + wc * p.x);
    assert(wa * p.x + wb * p.x + wc * p.x == (wa + wb + wc) * p.x);
    assert(wa * a.y == wa * uy + wa * p.y);
    assert(wb * b.y == wb * vy + wb * p.y);
    assert(wc * c.y == wc * wy + wc * p.y);
    assert(wa * p.y + wb * p.y + wc * p.y == (wa + wb + wc) * p.y);
}

/// The smallest of three values.
pub open spec fn min3(x: int, y: int, z: int) -> int {
    if x <= y && x <= z {
        x
    } else if y <= z {
        y
    } else {
        z
    }
}

/// The largest of three values.
pub open spec fn max3(x: int, y: int, z: int) -> int {
    if x >= y && x >= z {
        x
    } else if y >= z {
        y
    } else {
        z
    }
}

/// One coordinate of a point with consistently-signed edge weights is a
/// weighted mean of the vertices' coordinates, so it stays between their
/// extremes.
/// The nonnegative-weights case of the weighted-mean bound.
proof fn lemma_weighted_mean_core(
    wa: int,
    wb: int,
    wc: int,
    s: int,
    va: int,
    vb: int,
    vc: int,
    pv: int,
    lo: int,
    hi: int,
)
    requires
        wa >= 0,
        wb >= 0,
        wc >= 0,
        s == wa + wb + wc,
        s > 0,
        wa * va + wb * vb + wc * vc == s * pv,
        lo <= va <= hi,
        lo <= vb <= hi,
        lo <= vc <= hi,
    ensures
        lo <= pv <= hi,
{
    broadcast use vstd::arithmetic::mul::lemma_mul_is_commutative;

    vstd::arithmetic::mul::lemma_mul_inequality(lo, va, wa);
    vstd::arithmetic::mul::lemma_mul_inequality(lo, vb, wb);
    vstd::arithmetic::mul::lemma_mul_inequality(lo, vc, wc);
    vstd::arithmetic::mul::lemma_mul_inequality(va, hi, wa);
    vstd::arithmetic::mul::lemma_mul_inequality(vb, hi, wb);
    vstd::arithmetic::mul::lemma_mul_inequality(vc, hi, wc);
    vstd::arithmetic::mul::lemma_mul_is_distributive_add(lo, wa + wb, wc);
    vstd::arithmetic::mul::lemma_mul_is_distributive_add(lo, wa, wb);
    vstd::arithmetic::mul::lemma_mul_is_distributive_add(hi, wa + wb, wc);
    vstd::arithmetic::mul::lemma_mul_is_distributive_add(hi, wa, wb);
    assert(lo * s <= s * pv);
    assert(s * pv <= hi * s);
    vstd::arithmetic::mul::lemma_mul_inequality_converse(lo, pv, s);
    vstd::arithmetic::mul::lemma_mul_inequality_converse(pv, hi, s);
}

proof fn lemma_weighted_mean_bounds(
    wa: int,
    wb: int,
    wc: int,
    d: int,
    va: int,
    vb: int,
    vc: int,
    pv: int,
)
    requires
        wa + wb + wc == d,
        wa * va + wb * vb + wc * vc == d * pv,
        (wa >= 0 && wb >= 0 && wc >= 0) || (wa <= 0 && wb <= 0 && wc <= 0),
        d != 0,
    ensures
        min3(va, vb, vc) <= pv <= max3(va, vb, vc),
{
    let lo = min3(va, vb, vc);
    let hi = max3(va, vb, vc);
    if wa >= 0 && wb >= 0 && wc >= 0 {
        lemma_weighted_mean_core(wa, wb, wc, d, va, vb, vc, pv, lo, hi);
    } else {
        vstd::arithmetic::mul::lemma_mul_unary_negation(wa, va);
        vstd::arithmetic::mul::lemma_mul_unary_negation(wb, vb);
        vstd::arithmetic::mul::lemma_mul_unary_negation(wc, vc);
        vstd::arithmetic::mul::lemma_mul_unary_negation(d, pv);
        lemma_weighted_mean_core(-wa, -wb, -wc, -d, va, vb, vc, pv, lo, hi);
    }
}

/// A point in (or on) a triangle lies within the triangle's bounding box; a
/// point outside that box is therefore never reported as a hit.
pub proof fn lemma_in_triangle_within_bounding_box(p: Vec2, a: Vec2, b: Vec2, c: Vec2)
    requires
        spec_in_triangle(p, a, b, c),
    ensures
        min3(a.x as int, b.x as int, c.x as int) <= p.x <= max3(a.x as int, b.x as int, c.x as int),
        min3(a.y as int, b.y as int, c.y as int) <= p.y <= max3(a.y as int, b.y as int, c.y as int),
{
    lemma_barycentric_identities(p, a, b, c);
    let wa = cross(b, c, p);
    let wb = cross(c, a, p);
    let wc = cross(a, b, p);
    let d = cross(a, b, c);
    lemma_weighted_mean_bounds(wa, wb, wc, d, a.x as int, b.x as int, c.x as int, p.x as int);
    lemma_weighted_mean_bounds(wa, wb, wc, d, a.y as int, b.y as int, c.y as int, p.y as int);
}

/// Sine and cosine scale: the fixed-point value standing for 1.0.
pub const TRIG_ONE: i64 = 1_000_000;

/// Millidegrees in a full turn.
pub const FULL_TURN_MDEG: i64 = 360_000;

/// Millidegrees in a half turn.
pub const HALF_TURN_MDEG: i64 = 180_000;

/// Millidegrees in a quarter turn.
pub const QUARTER_TURN_MDEG: i64 = 90_000;

/// Bhaskara's rational approximation of the sine on the first half turn,
/// scaled by `TRIG_ONE`; exact at 0, 30, 90, 150 and 180 degrees. `y` is in
/// millidegrees, `0 <= y <= 180_000`.
pub open spec fn sin_half_turn(y: int) -> int {
    let p = y * (180_000 - y);
    4_000_000 * p / (40_500_000_000 - p)
}

/// The sine of an angle in `[0, 360_000)` millidegrees, scaled by `TRIG_ONE`.
pub open spec fn sin_mdeg(a: int) -> int {
    if a <= 180_000 {
        sin_half_turn(a)
    } else {
        -sin_half_turn(a - 180_000)
    }
}

/// The cosine of an angle in `[0, 360_000)` millidegrees, scaled by
/// `TRIG_ONE`: the sine shifted by a quarter turn.
pub open spec fn cos_mdeg(a: int) -> int {
    if a + 90_000 < 360_000 {
        sin_mdeg(a + 90_000)
    } else {
        sin_mdeg(a + 90_000 - 360_000)
    }
}

/// Bhaskara's sine approximation on the first half turn, computed exactly.
fn sin_half_turn_fp(y: i64) -> (r: i64)
    requires
        0 <= y <= 180_000,
    ensures
        r == sin_half_turn(y as int),
        0 <= r <= TRIG_ONE,
{
    proof {
        assert(0 <= y * (180_000 - y) <= 8_100_000_000) by (nonlinear_arith)
            requires
                0 <= y <= 180_000,
        ;
    }
    let p = y * (180_000 - y);
    let num = 4_000_000 * p;
    let den = 40_500_000_000 - p;
    let r = ((num as u64) / (den as u64)) as i64;
    proof {
        vstd::arithmetic::div_mod::lemma_div_pos_is_pos(num as int, den as int);
        vstd::arithmetic::div_mod::lemma_div_is_ordered(num as int, 1_000_000 * den as int,
            den as int);
        vstd::arithmetic::div_mod::lemma_div_multiples_vanish(1_000_000, den as int);
    }
    r
}

/// The sine of an angle in millidegrees, scaled by `TRIG_ONE`.
pub fn sin_fp(a: i64) -> (r: i64)
    requires
        0 <= a < FULL_TURN_MDEG,
    ensures
        r == sin_mdeg(a as int),
        -TRIG_ONE <= r <= TRIG_ONE,
{
    if a <= 180_000 {
        sin_half_turn_fp(a)
    } else {
        -sin_half_turn_fp(a - 180_000)
    }
}

/// The cosine of an angle in millidegrees, scaled by `TRIG_ONE`.
pub fn cos_fp(a: i64) -> (r: i64)
    requires
        0 <= a < FULL_TURN_MDEG,
    ensures
        r == cos_mdeg(a as int),
        -TRIG_ONE <= r <= TRIG_ONE,
{
    if a + 90_000 < 360_000 {
        sin_fp(a + 90_000)
    } else {
        sin_fp(a + 90_000 - 360_000)
    }
}

/// `n / TRIG_ONE` truncated toward zero: strips the scale off a product of a
/// coordinate and a sine or cosine.
pub open spec fn div_trig(n: int) -> int {
    if n >= 0 {
        n / 1_000_000
    } else {
        -((-n) / 1_000_000)
    }
}

/// `v` rotated counter-clockwise by `a` millidegrees (`0 <= a < 360_000`),
/// each component truncated toward zero.
pub open spec fn spec_rotated_by(v: Vec2, a: int) -> Vec2 {
    let s = sin_mdeg(a);
    let c = cos_mdeg(a);
    Vec2 {
        x: div_trig(v.x * c - v.y * s) as i64,
        y: div_trig(v.x * s + v.y * c) as i64,
    }
}

/// Truncating division by the trig scale, on a bounded numerator.
fn div_trig_fp(n: i64) -> (r: i64)
    requires
        -4_000_000_000_000_000 <= n <= 4_000_000_000_000_000,
    ensures
        r == div_trig(n as int),
{
    if n >= 0 {
        ((n as u64) / 1_000_000) as i64
    } else {
        proof {
            vstd::arithmetic::div_mod::lemma_div_pos_is_pos(-n as int, 1_000_000);
            vstd::arithmetic::div_mod::lemma_div_is_ordered(-n as int, 4_000_000_000_000_000,
                1_000_000);
        }
        -((((-n) as u64) / 1_000_000) as i64)
    }
}

impl Vec2 {
    /// `self` rotated counter-clockwise by `angle_mdeg` millidegrees.
    /// Negative angles are taken modulo a full turn. Each resulting component
    /// is at most `|x| + |y|` in magnitude.
    pub fn rotated_by(&self, angle_mdeg: i64) -> (r: Vec2)
        requires
            -FULL_TURN_MDEG < angle_mdeg < FULL_TURN_MDEG,
            in_range(*self, COORD_LIMIT as int),
        ensures
            r == spec_rotated_by(
                *self,
                if angle_mdeg >= 0 {
                    angle_mdeg as int
                } else {
                    angle_mdeg + FULL_TURN_MDEG
                },
            ),
            in_range(r, (vstd::math::abs(self.x as int) + vstd::math::abs(self.y as int)) as int),
    {
        let a = if angle_mdeg >= 0 {
            angle_mdeg
        } else {
            angle_mdeg + FULL_TURN_MDEG
        };
        let s = sin_fp(a);
        let c = cos_fp(a);
        proof {
            assert(-1_000_000_000_000_000 <= self.x * c <= 1_000_000_000_000_000
                && -1_000_000_000_000_000 <= self.y * s <= 1_000_000_000_000_000
                && -1_000_000_000_000_000 <= self.x * s <= 1_000_000_000_000_000
                && -1_000_000_000_000_000 <= self.y * c <= 1_000_000_000_000_000
                && self.x * c - self.y * s <= (vstd::math::abs(self.x as int) + vstd::math::abs(
                self.y as int,
            )) * 1_000_000
                && -(self.x * c - self.y * s) <= (vstd::math::abs(self.x as int)
                + vstd::math::abs(self.y as int)) * 1_000_000
                && self.x * s + self.y * c <= (vstd::math::abs(self.x as int) + vstd::math::abs(
                self.y as int,
            )) * 1_000_000
                && -(self.x * s + self.y * c) <= (vstd::math::abs(self.x as int)
                + vstd::math::abs(self.y as int)) * 1_000_000) by (nonlinear_arith)
                requires
                    -1_000_000_000 <= self.x <= 1_000_000_000,
                    -1_000_000_000 <= self.y <= 1_000_000_000,
                    -1_000_000 <= s <= 1_000_000,
                    -1_000_000 <= c <= 1_000_000,
            ;
        }
        let nx = self.x * c - self.y * s;
        let ny = self.x * s + self.y * c;
        let rx = div_trig_fp(nx);
        let ry = div_trig_fp(ny);
        proof {
            let bound: int = (vstd::math::abs(self.x as int) + vstd::math::abs(self.y as int)) as int;
            lemma_div_trig_bound(nx as int, bound);
            lemma_div_trig_bound(ny as int, bound);
        }
        Vec2 { x: rx, y: ry }
    }
}

/// `a * t / TRIG_ONE` for a nonnegative length `a` and a sine or cosine
/// value `t`: one polar component of a vector of length `a` at some angle.
pub fn scale_by_trig(a: i64, t: i64) -> (r: i64)
    requires
        0 <= a <= COORD_LIMIT,
        -TRIG_ONE <= t <= TRIG_ONE,
    ensures
        r == div_trig(a as int * t as int),
        -a <= r <= a,
{
    proof {
        assert(-(a * 1_000_000) <= a * t <= a * 1_000_000 && a * 1_000_000
            <= 1_000_000_000_000_000) by (nonlinear_arith)
            requires
                0 <= a <= 1_000_000_000,
                -1_000_000 <= t <= 1_000_000,
        ;
    }
    let n = a * t;
    let r = div_trig_fp(n);
    proof {
        lemma_div_trig_bound(n as int, a as int);
    }
    r
}

/// A numerator bounded by `b * TRIG_ONE` keeps its truncated quotient within
/// `b`.
proof fn lemma_div_trig_bound(n: int, b: int)
    requires
        0 <= b,
        -(b * 1_000_000) <= n <= b * 1_000_000,
    ensures
        -b <= div_trig(n) <= b,
{
    vstd::arithmetic::mul::lemma_mul_is_commutative(b, 1_000_000);
    vstd::arithmetic::div_mod::lemma_div_multiples_vanish(b, 1_000_000);
    if n >= 0 {
        vstd::arithmetic::div_mod::lemma_div_pos_is_pos(n, 1_000_000);
        vstd::arithmetic::div_mod::lemma_div_is_ordered(n, b * 1_000_000, 1_000_000);
    } else {
        vstd::arithmetic::div_mod::lemma_div_pos_is_pos(-n, 1_000_000);
        vstd::arithmetic::div_mod::lemma_div_is_ordered(-n, b * 1_000_000, 1_000_000);
    }
}

} // verus!
