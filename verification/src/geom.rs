//! Integer plane geometry for the simulation: positions and offsets in whole
//! world units, squared distances, a floor square root, sign-aware scaled
//! division, and a fixed-point unit circle used to place enemy waves.

use vstd::arithmetic::div_mod::{
    lemma_div_is_ordered, lemma_div_multiples_vanish, lemma_multiply_divide_lt,
};
use vstd::arithmetic::mul::lemma_mul_inequality;
use vstd::prelude::*;

verus! {

/// Every coordinate the simulation stores lies in `[-COORD_LIMIT, COORD_LIMIT]`.
pub const COORD_LIMIT: i64 = 0x2000_0000;

/// Largest speed any entity may be configured with, world units per second.
pub const MAX_SPEED: i64 = 100_000;

/// Fixed-point scale of the unit circle: a component of `UNIT_SCALE` stands for 1.0.
pub const UNIT_SCALE: i64 = 65536;

/// Angle steps in a full turn of the fixed-point circle.
pub const TURN: u64 = 4096;

/// Angle steps in a half turn.
pub const HALF_TURN: u64 = 2048;

/// Angle steps in a quarter turn.
pub const QUARTER_TURN: u64 = 1024;

/// A point or displacement of the plane, in whole world units.
#[derive(Clone, Copy, PartialEq, Eq, Structural, Debug)]
pub struct Vec2i {
    pub x: i64,
    pub y: i64,
}

/// The point lies inside the world bounds.
pub open spec fn in_world(p: Vec2i) -> bool {
    &&& -COORD_LIMIT <= p.x <= COORD_LIMIT
    &&& -COORD_LIMIT <= p.y <= COORD_LIMIT
}

/// Squared Euclidean distance between two points.
pub open spec fn dist2_spec(a: Vec2i, b: Vec2i) -> int {
    (b.x - a.x) * (b.x - a.x) + (b.y - a.y) * (b.y - a.y)
}

/// `r` is the floor of the square root of `v`.
pub open spec fn is_sqrt_floor(v: int, r: int) -> bool {
    &&& 0 <= r
    &&& r * r <= v
    &&& v < (r + 1) * (r + 1)
}

/// The floor of the square root of a non-negative integer.
pub closed spec fn sqrt_floor(v: int) -> int {
    choose|r: int| is_sqrt_floor(v, r)
}

pub proof fn lemma_sqrt_floor_exists(v: int)
    requires
        0 <= v,
    ensures
        is_sqrt_floor(v, sqrt_floor(v)),
    decreases v,
{
    if v == 0 {
        assert(is_sqrt_floor(0, 0));
    } else {
        lemma_sqrt_floor_exists(v - 1);
        let r = sqrt_floor(v - 1);
        if (r + 1) * (r + 1) <= v {
            // v - 1 < (r + 1) * (r + 1) <= v forces v == (r + 1) * (r + 1).
            assert(v == (r + 1) * (r + 1));
            assert((r + 1) * (r + 1) < (r + 2) * (r + 2)) by (nonlinear_arith)
                requires
                    0 <= r,
            ;
            assert(is_sqrt_floor(v, r + 1));
        } else {
            assert(is_sqrt_floor(v, r));
        }
    }
    let w = choose|w: int| is_sqrt_floor(v, w);
    assert(is_sqrt_floor(v, w));
}

pub proof fn lemma_sqrt_floor_unique(v: int, r: int)
    requires
        is_sqrt_floor(v, r),
    ensures
        r == sqrt_floor(v),
{
    lemma_sqrt_floor_exists(v);
    let s = sqrt_floor(v);
    assert(r == s) by (nonlinear_arith)
        requires
            0 <= r,
            0 <= s,
            r * r <= v < (r + 1) * (r + 1),
            s * s <= v < (s + 1) * (s + 1),
    ;
}

/// Euclidean distance between two points, rounded down to a whole unit.
pub open spec fn dist_spec(a: Vec2i, b: Vec2i) -> int {
    sqrt_floor(dist2_spec(a, b))
}

/// Squared distance of two in-world points, exactly.
pub fn dist2(a: Vec2i, b: Vec2i) -> (d: u64)
    requires
        in_world(a),
        in_world(b),
    ensures
        d == dist2_spec(a, b),
        d < 0x4000_0000_0000_0000,
{
    let dx: i64 = b.x - a.x;
    let dy: i64 = b.y - a.y;
    proof {
        assert(0 <= dx * dx <= 0x1000_0000_0000_0000i64) by (nonlinear_arith)
            requires
                -0x4000_0000 <= dx <= 0x4000_0000,
        ;
        assert(0 <= dy * dy <= 0x1000_0000_0000_0000i64) by (nonlinear_arith)
            requires
                -0x4000_0000 <= dy <= 0x4000_0000,
        ;
    }
    let sq: i64 = dx * dx + dy * dy;
    sq as u64
}

/// Floor square root by binary search.
pub fn isqrt(v: u64) -> (r: u64)
    requires
        v < 0x4000_0000_0000_0000,
    ensures
        r == sqrt_floor(v as int),
        r <= 0x8000_0000u64,
{
    let mut lo: u64 = 0;
    let mut hi: u64 = 0x8000_0000;
    proof {
        assert(0x8000_0000u64 * 0x8000_0000u64 == 0x4000_0000_0000_0000) by (nonlinear_arith);
    }
    while lo + 1 < hi
        invariant
            lo < hi <= 0x8000_0000u64,
            lo * lo <= v,
            v < hi * hi,
        decreases hi - lo,
    {
        let mid: u64 = lo + (hi - lo) / 2;
        proof {
            assert(mid * mid <= 0x8000_0000u64 * 0x8000_0000u64) by (nonlinear_arith)
                requires
                    0 <= mid <= 0x8000_0000u64,
            ;
            assert(0x8000_0000u64 * 0x8000_0000u64 == 0x4000_0000_0000_0000) by (nonlinear_arith);
        }
        if mid * mid <= v {
            lo = mid;
        } else {
            hi = mid;
        }
    }
    proof {
        assert(hi == lo + 1);
        lemma_sqrt_floor_unique(v as int, lo as int);
    }
    lo
}

/// Distance of two in-world points, rounded down to a whole unit.
pub fn dist(a: Vec2i, b: Vec2i) -> (d: i64)
    requires
        in_world(a),
        in_world(b),
    ensures
        d == dist_spec(a, b),
        0 <= d <= 0x8000_0000i64,
{
    let sq: u64 = dist2(a, b);
    let r: u64 = isqrt(sq);
    r as i64
}

/// The distance dominates the displacement along each axis.
pub proof fn lemma_dist_dominates_axes(a: Vec2i, b: Vec2i)
    requires
        in_world(a),
        in_world(b),
    ensures
        b.x - a.x <= dist_spec(a, b),
        a.x - b.x <= dist_spec(a, b),
        b.y - a.y <= dist_spec(a, b),
        a.y - b.y <= dist_spec(a, b),
        0 <= dist_spec(a, b),
{
    let dx = b.x - a.x;
    let dy = b.y - a.y;
    assert(0 <= dx * dx + dy * dy) by (nonlinear_arith);
    lemma_sqrt_floor_exists(dist2_spec(a, b));
    let r = sqrt_floor(dist2_spec(a, b));
    assert(dx <= r && -dx <= r && dy <= r && -dy <= r) by (nonlinear_arith)
        requires
            0 <= r,
            dx * dx + dy * dy < (r + 1) * (r + 1),
    ;
}

/// Sign-preserving scaled division: `a` multiplied by `num / den`, with the
/// magnitude rounded down. The one integer division primitive the simulation
/// uses on signed values.
pub open spec fn scaled_div_spec(a: int, num: int, den: int) -> int
    recommends
        0 <= num,
        1 <= den,
{
    if a >= 0 {
        (a * num) / den
    } else {
        -(((-a) * num) / den)
    }
}

pub fn scaled_div(a: i64, num: i64, den: i64) -> (r: i64)
    requires
        0 <= num,
        1 <= den,
        -0x4000_0000_0000_0000 <= a <= 0x4000_0000_0000_0000,
        -0x4000_0000_0000_0000 <= a * num <= 0x4000_0000_0000_0000,
    ensures
        r == scaled_div_spec(a as int, num as int, den as int),
        -0x4000_0000_0000_0000 <= r <= 0x4000_0000_0000_0000,
{
    if a >= 0 {
        let scaled: u64 = (a as u64) * (num as u64);
        let q: u64 = scaled / (den as u64);
        proof {
            vstd::arithmetic::div_mod::lemma_div_nonincreasing(scaled as int, den as int);
        }
        q as i64
    } else {
        let neg: i64 = -a;
        proof {
            let ai: int = a as int;
            let ni: int = num as int;
            assert((-ai) * ni == -(ai * ni)) by (nonlinear_arith);
        }
        let scaled: u64 = (neg as u64) * (num as u64);
        let q: u64 = scaled / (den as u64);
        proof {
            vstd::arithmetic::div_mod::lemma_div_nonincreasing(scaled as int, den as int);
        }
        -(q as i64)
    }
}

/// The scaled value never grows past the magnitude of `a` when `num <= den`.
pub proof fn lemma_scaled_div_shrinks(a: int, num: int, den: int)
    requires
        0 <= num <= den,
        1 <= den,
    ensures
        a >= 0 ==> 0 <= scaled_div_spec(a, num, den) <= a,
        a < 0 ==> a <= scaled_div_spec(a, num, den) <= 0,
{
    let m = if a >= 0 { a } else { -a };
    lemma_mul_inequality(num, den, m);
    assert(m * num == num * m && m * den == den * m) by (nonlinear_arith);
    lemma_div_is_ordered(m * num, m * den, den);
    lemma_div_multiples_vanish(m, den);
    vstd::arithmetic::div_mod::lemma_div_pos_is_pos(m * num, den);
    assert(0 <= m * num) by (nonlinear_arith)
        requires
            0 <= m,
            0 <= num,
    ;
}

/// When the magnitude of `a` is at most `den`, the scaled value is bounded by
/// `num`: scaling a component of a vector by `num / len` cannot exceed `num`.
pub proof fn lemma_scaled_div_bounded(a: int, num: int, den: int)
    requires
        0 <= num,
        1 <= den,
        -den <= a <= den,
    ensures
        -num <= scaled_div_spec(a, num, den) <= num,
{
    let m = if a >= 0 { a } else { -a };
    lemma_mul_inequality(m, den, num);
    assert(m * num == num * m && den * num == num * den) by (nonlinear_arith);
    lemma_div_is_ordered(m * num, den * num, den);
    lemma_div_multiples_vanish(num, den);
    vstd::arithmetic::div_mod::lemma_div_pos_is_pos(m * num, den);
    assert(0 <= m * num) by (nonlinear_arith)
        requires
            0 <= m,
            0 <= num,
    ;
}

/// Fixed-point sine over the first half turn, by a quadratic approximation
/// that is exact at 0, a quarter turn and a half turn.
pub open spec fn sin_half_spec(t: int) -> int
    recommends
        0 <= t <= HALF_TURN,
{
    (16 * (t * (2048 - t)) * 65536) / (20971520 - 4 * (t * (2048 - t)))
}

pub fn sin_half(t: u64) -> (s: u64)
    requires
        t <= HALF_TURN,
    ensures
        s == sin_half_spec(t as int),
        s <= 65536,
{
    proof {
        assert(0 <= (t as int) * (2048 - (t as int)) <= 1048576) by (nonlinear_arith)
            requires
                0 <= t <= 2048,
        ;
    }
    let p: u64 = t * (2048 - t);
    let num: u64 = 16 * p * 65536;
    let den: u64 = 20971520 - 4 * p;
    proof {
        assert(num <= 65536 * (den as int)) by (nonlinear_arith)
            requires
                num == 16 * p * 65536,
                den == 20971520 - 4 * p,
                0 <= p <= 1048576,
        ;
        lemma_div_is_ordered(num as int, 65536 * (den as int), den as int);
        lemma_div_multiples_vanish(65536, den as int);
    }
    num / den
}

/// Fixed-point sine over a full turn, in `[-UNIT_SCALE, UNIT_SCALE]`.
pub open spec fn sin_spec(t: int) -> int
    recommends
        0 <= t < TURN,
{
    if t < HALF_TURN {
        sin_half_spec(t)
    } else {
        -sin_half_spec(t - HALF_TURN)
    }
}

/// Fixed-point cosine over a full turn: the sine a quarter turn ahead.
pub open spec fn cos_spec(t: int) -> int
    recommends
        0 <= t < TURN,
{
    sin_spec((t + QUARTER_TURN) % (TURN as int))
}

pub fn sin_fp(t: u64) -> (s: i64)
    requires
        t < TURN,
    ensures
        s == sin_spec(t as int),
        -65536 <= s <= 65536,
{
    if t < HALF_TURN {
        sin_half(t) as i64
    } else {
        -(sin_half(t - HALF_TURN) as i64)
    }
}

pub fn cos_fp(t: u64) -> (c: i64)
    requires
        t < TURN,
    ensures
        c == cos_spec(t as int),
        -65536 <= c <= 65536,
{
    sin_fp((t + QUARTER_TURN) % TURN)
}

/// The offset of spawn slot `n` out of `count`, on a circle of radius
/// `radius`: the fixed-point unit circle scaled back to world units.
pub open spec fn wave_offset_spec(n: int, count: int, radius: int) -> Vec2i
    recommends
        0 <= n < count,
        1 <= radius,
{
    let t = (n * TURN) / count;
    (Vec2i {
        x: scaled_div_spec(cos_spec(t), radius, UNIT_SCALE as int) as i64,
        y: scaled_div_spec(sin_spec(t), radius, UNIT_SCALE as int) as i64,
    })
}

pub fn wave_offset(n: u32, count: u32, radius: i64) -> (o: Vec2i)
    requires
        n < count,
        1 <= radius <= COORD_LIMIT,
    ensures
        o == wave_offset_spec(n as int, count as int, radius as int),
        -radius <= o.x <= radius,
        -radius <= o.y <= radius,
{
    let t: u64 = ((n as u64) * TURN) / (count as u64);
    proof {
        let prod: int = (n as int) * (TURN as int);
        assert(prod < (count as int) * (TURN as int)) by (nonlinear_arith)
            requires
                n < count,
                prod == (n as int) * (TURN as int),
                TURN == 4096u64,
        ;
        lemma_multiply_divide_lt(prod, count as int, TURN as int);
    }
    let c: i64 = cos_fp(t);
    let s: i64 = sin_fp(t);
    proof {
        assert(-0x4000_0000_0000_0000 <= (c as int) * (radius as int) <= 0x4000_0000_0000_0000)
            by (nonlinear_arith)
            requires
                -65536 <= c <= 65536,
                1 <= radius <= 0x2000_0000i64,
        ;
        assert(-0x4000_0000_0000_0000 <= (s as int) * (radius as int) <= 0x4000_0000_0000_0000)
            by (nonlinear_arith)
            requires
                -65536 <= s <= 65536,
                1 <= radius <= 0x2000_0000i64,
        ;
    }
    let ox: i64 = scaled_div(c, radius, UNIT_SCALE);
    let oy: i64 = scaled_div(s, radius, UNIT_SCALE);
    proof {
        lemma_scaled_div_shrinks_unit(c as int, radius as int);
        lemma_scaled_div_shrinks_unit(s as int, radius as int);
    }
    Vec2i { x: ox, y: oy }
}

/// Scaling a fixed-point unit component by `radius` stays within `radius`.
proof fn lemma_scaled_div_shrinks_unit(c: int, radius: int)
    requires
        -65536 <= c <= 65536,
        1 <= radius,
    ensures
        -radius <= scaled_div_spec(c, radius, UNIT_SCALE as int) <= radius,
{
    let m = if c >= 0 { c } else { -c };
    lemma_mul_inequality(m, 65536, radius);
    assert(m * radius == radius * m && 65536 * radius == radius * 65536) by (nonlinear_arith);
    lemma_div_is_ordered(m * radius, radius * 65536, 65536);
    lemma_div_multiples_vanish(radius, 65536);
    vstd::arithmetic::div_mod::lemma_div_pos_is_pos(m * radius, 65536);
    assert(0 <= m * radius) by (nonlinear_arith)
        requires
            0 <= m,
            1 <= radius,
    ;
}

/// On a circle of four spawn slots the offsets are exactly the four cardinal
/// points `radius * (cos, sin)` of the angles `0`, a quarter, a half and
/// three quarters of a turn.
pub proof fn lemma_wave_offset_cardinal(radius: i64)
    requires
        1 <= radius <= COORD_LIMIT,
    ensures
        wave_offset_spec(0, 4, radius as int) == (Vec2i { x: radius, y: 0 }),
        wave_offset_spec(1, 4, radius as int) == (Vec2i { x: 0, y: radius }),
        wave_offset_spec(2, 4, radius as int) == (Vec2i { x: (-radius) as i64, y: 0 }),
        wave_offset_spec(3, 4, radius as int) == (Vec2i { x: 0, y: (-radius) as i64 }),
{
    let r: int = radius as int;
    lemma_div_multiples_vanish(r, 65536);
    lemma_div_multiples_vanish(0, 65536);
    assert(65536 * r == r * 65536) by (nonlinear_arith);
    lemma_div_multiples_vanish(0, 20971520);
    assert(sin_half_spec(0) == 0);
    lemma_div_multiples_vanish(65536, 16777216);
    assert(16777216 * 65536 == 1099511627776int) by (nonlinear_arith);
    assert(16 * (1024 * (2048 - 1024)) * 65536 == 1099511627776int) by (nonlinear_arith);
    assert(20971520 - 4 * (1024 * (2048 - 1024)) == 16777216int) by (nonlinear_arith);
    assert(sin_half_spec(1024) == 65536);
    assert(scaled_div_spec(65536, r, 65536) == r);
    assert(scaled_div_spec(-65536, r, 65536) == -r);
    assert(scaled_div_spec(0, r, 65536) == 0);
    assert((0 * (TURN as int)) / 4 == 0);
    assert((1 * (TURN as int)) / 4 == 1024);
    assert((2 * (TURN as int)) / 4 == 2048);
    assert((3 * (TURN as int)) / 4 == 3072);
    assert(cos_spec(0) == 65536 && sin_spec(0) == 0);
    assert(cos_spec(1024) == 0 && sin_spec(1024) == 65536);
    assert(cos_spec(2048) == -65536 && sin_spec(2048) == 0);
    assert(cos_spec(3072) == 0 && sin_spec(3072) == -65536);
}

/// One attraction step: `pos` moved toward `target` by `step` units, snapping
/// onto `target` when the step covers the whole distance, and staying put at
/// distance zero.
pub open spec fn move_toward_spec(pos: Vec2i, target: Vec2i, step: int) -> Vec2i
    recommends
        0 <= step,
{
    let d = dist_spec(pos, target);
    if d == 0 {
        pos
    } else if step >= d {
        target
    } else {
        (Vec2i {
            x: (pos.x + scaled_div_spec(target.x - pos.x, step, d)) as i64,
            y: (pos.y + scaled_div_spec(target.y - pos.y, step, d)) as i64,
        })
    }
}

/// The attraction step never moves past the target on either axis, and it
/// never increases the distance to the target.
pub proof fn lemma_move_toward_not_past(pos: Vec2i, target: Vec2i, step: int)
    requires
        in_world(pos),
        in_world(target),
        0 <= step,
    ensures
        ({
            let r = move_toward_spec(pos, target, step);
            &&& pos.x <= target.x ==> pos.x <= r.x <= target.x
            &&& pos.x >= target.x ==> target.x <= r.x <= pos.x
            &&& pos.y <= target.y ==> pos.y <= r.y <= target.y
            &&& pos.y >= target.y ==> target.y <= r.y <= pos.y
            &&& in_world(r)
            &&& dist2_spec(r, target) <= dist2_spec(pos, target)
        }),
{
    let dx = target.x - pos.x;
    let dy = target.y - pos.y;
    assert(0 <= dx * dx + dy * dy) by (nonlinear_arith);
    lemma_sqrt_floor_exists(dist2_spec(pos, target));
    let d = dist_spec(pos, target);
    let r = move_toward_spec(pos, target, step);
    if d == 0 {
        assert(dx == 0 && dy == 0) by (nonlinear_arith)
            requires
                dx * dx + dy * dy < (0 + 1) * (0 + 1),
        ;
    } else if step >= d {
        assert(dist2_spec(target, target) == 0);
    } else {
        lemma_scaled_div_shrinks(dx as int, step, d);
        lemma_scaled_div_shrinks(dy as int, step, d);
        let nx = target.x - r.x;
        let ny = target.y - r.y;
        assert(nx * nx <= dx * dx) by (nonlinear_arith)
            requires
                (0 <= nx <= dx) || (dx <= nx <= 0),
        ;
        assert(ny * ny <= dy * dy) by (nonlinear_arith)
            requires
                (0 <= ny <= dy) || (dy <= ny <= 0),
        ;
    }
}

/// Executable attraction step.
pub fn move_toward(pos: Vec2i, target: Vec2i, step: i64) -> (r: Vec2i)
    requires
        in_world(pos),
        in_world(target),
        0 <= step,
    ensures
        r == move_toward_spec(pos, target, step as int),
        in_world(r),
{
    let d: i64 = dist(pos, target);
    proof {
        lemma_move_toward_not_past(pos, target, step as int);
    }
    if d == 0 {
        pos
    } else if step >= d {
        target
    } else {
        proof {
            assert({
                &&& -0x4000_0000_0000_0000 <= ((target.x - pos.x) as int) * (step as int)
                    <= 0x4000_0000_0000_0000
                &&& -0x4000_0000_0000_0000 <= ((target.y - pos.y) as int) * (step as int)
                    <= 0x4000_0000_0000_0000
            }) by (nonlinear_arith)
                requires
                    -0x4000_0000 <= target.x - pos.x <= 0x4000_0000,
                    -0x4000_0000 <= target.y - pos.y <= 0x4000_0000,
                    0 <= step <= 0x8000_0000i64,
            ;
        }
        let sdx: i64 = scaled_div(target.x - pos.x, step, d);
        let sdy: i64 = scaled_div(target.y - pos.y, step, d);
        proof {
            lemma_scaled_div_shrinks((target.x - pos.x) as int, step as int, d as int);
            lemma_scaled_div_shrinks((target.y - pos.y) as int, step as int, d as int);
        }
        Vec2i { x: pos.x + sdx, y: pos.y + sdy }
    }
}

/// Clamp a coordinate into the world bounds.
pub open spec fn clamp_coord_spec(v: int) -> int {
    if v > COORD_LIMIT {
        COORD_LIMIT as int
    } else if v < -COORD_LIMIT {
        -(COORD_LIMIT as int)
    } else {
        v
    }
}

pub fn clamp_coord(v: i64) -> (r: i64)
    ensures
        r == clamp_coord_spec(v as int),
        -COORD_LIMIT <= r <= COORD_LIMIT,
{
    if v > COORD_LIMIT {
        COORD_LIMIT
    } else if v < -COORD_LIMIT {
        -COORD_LIMIT
    } else {
        v
    }
}

/// Clamp a point into the world bounds.
pub open spec fn clamp_point_spec(p: Vec2i) -> Vec2i {
    (Vec2i { x: clamp_coord_spec(p.x as int) as i64, y: clamp_coord_spec(p.y as int) as i64 })
}

pub fn clamp_point(p: Vec2i) -> (r: Vec2i)
    ensures
        r == clamp_point_spec(p),
        in_world(r),
{
    Vec2i { x: clamp_coord(p.x), y: clamp_coord(p.y) }
}

} // verus!
