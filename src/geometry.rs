//! Integer plane geometry: points, squared distances and cone tests.

use vstd::arithmetic::div_mod::{lemma_div_by_multiple, lemma_div_is_ordered, lemma_div_pos_is_pos};
use vstd::arithmetic::mul::lemma_mul_inequality;
use vstd::prelude::*;

verus! {

/// Number of world units in one screen pixel.
pub const UNITS_PER_PIXEL: i64 = 1000;

/// Largest extent of a world: every world lies in `[0, WORLD_MAX]` on
/// both axes.
pub const WORLD_MAX: i64 = 0x2000_0000;

/// Longest distance that anything may move in one update.
pub const MAX_STEP: u64 = 0x2000_0000;

/// Largest magnitude of a coordinate held by the simulation: a world's
/// extent plus one step, so that a mover that passes its target inside the
/// world stays in the plane.
pub const COORD_MAX: i64 = 0x4000_0000;

/// A point (or a displacement) of the world plane.
#[derive(Clone, Copy, Debug, PartialEq, Eq, Structural)]
pub struct Point {
    pub x: i64,
    pub y: i64,
}

/// A coordinate that lies inside the simulated plane.
pub open spec fn valid_coord(c: int) -> bool {
    -COORD_MAX <= c <= COORD_MAX
}

impl Point {
    /// Both coordinates lie inside the simulated plane.
    pub open spec fn valid(self) -> bool {
        valid_coord(self.x as int) && valid_coord(self.y as int)
    }

    /// Both coordinates lie within a world's extent of the origin: a
    /// point that movers may head for.
    pub open spec fn valid_target(self) -> bool {
        -WORLD_MAX <= self.x <= WORLD_MAX && -WORLD_MAX <= self.y <= WORLD_MAX
    }

    pub fn new(x: i64, y: i64) -> (r: Point)
        ensures
            r.x == x,
            r.y == y,
    {
        Point { x, y }
    }
}

/// Square of the Euclidean distance between `a` and `b`.
pub open spec fn dist2(a: Point, b: Point) -> int {
    (a.x - b.x) * (a.x - b.x) + (a.y - b.y) * (a.y - b.y)
}

/// `a` lies at distance at most `r` from `b`.
pub open spec fn within(a: Point, b: Point, r: int) -> bool {
    dist2(a, b) <= r * r
}

/// Squared distance between two valid points.
pub fn distance_squared(a: Point, b: Point) -> (r: u64)
    requires
        a.valid(),
        b.valid(),
    ensures
        r == dist2(a, b),
{
    let dx: i64 = a.x - b.x;
    let dy: i64 = a.y - b.y;
    let ax: u64 = if dx < 0 { (-dx) as u64 } else { dx as u64 };
    let ay: u64 = if dy < 0 { (-dy) as u64 } else { dy as u64 };
    assert(ax * ax <= 0x4000_0000_0000_0000) by (nonlinear_arith)
        requires ax <= 0x8000_0000u64;
    assert(ay * ay <= 0x4000_0000_0000_0000) by (nonlinear_arith)
        requires ay <= 0x8000_0000u64;
    assert(ax * ax == dx * dx) by (nonlinear_arith)
        requires ax == dx || ax == -dx;
    assert(ay * ay == dy * dy) by (nonlinear_arith)
        requires ay == dy || ay == -dy;
    ax * ax + ay * ay
}


/// Whether `a` lies at distance at most `r` from `b`.
pub fn within_distance(a: Point, b: Point, r: u64) -> (res: bool)
    requires
        a.valid(),
        b.valid(),
    ensures
        res == within(a, b, r as int),
{
    let d = distance_squared(a, b);
    assert(r * r <= 0xffff_ffff_ffff_ffff * 0xffff_ffff_ffff_ffff) by (nonlinear_arith)
        requires r <= 0xffff_ffff_ffff_ffffu64;
    let rr: u128 = r as u128 * r as u128;
    (d as u128) <= rr
}

/// Whether `a` lies at distance `r` or more from `b`.
pub fn at_least_distance(a: Point, b: Point, r: u64) -> (res: bool)
    requires
        a.valid(),
        b.valid(),
    ensures
        res == (dist2(a, b) >= r * r),
{
    let d = distance_squared(a, b);
    assert(r * r <= 0xffff_ffff_ffff_ffff * 0xffff_ffff_ffff_ffff) by (nonlinear_arith)
        requires r <= 0xffff_ffff_ffff_ffffu64;
    let rr: u128 = r as u128 * r as u128;
    (d as u128) >= rr
}

/// Cosines are stored as integers: `COS_SCALE` stands for one.
pub const COS_SCALE: i64 = 10_000;

/// An aiming direction; only its bearing matters, not its length.
#[derive(Clone, Copy, Debug, PartialEq, Eq, Structural)]
pub struct Direction {
    pub x: i16,
    pub y: i16,
}

/// Dot product of a displacement and a direction.
pub open spec fn dot(d: Point, a: Direction) -> int {
    d.x * a.x + d.y * a.y
}

pub open spec fn norm2(d: Point) -> int {
    d.x * d.x + d.y * d.y
}

pub open spec fn dir_norm2(a: Direction) -> int {
    a.x * a.x + a.y * a.y
}

/// The angle between `d` and `aim` is at most the angle whose cosine is
/// `cos / COS_SCALE`, that is `COS_SCALE * (d . aim) >= cos * |d| * |aim|`.
/// The comparison is written on squares so that it stays in the integers.
/// A zero displacement lies in every cone.
pub open spec fn in_cone(d: Point, aim: Direction, cos: int) -> bool {
    let p = dot(d, aim);
    let lhs = (COS_SCALE * COS_SCALE) * (p * p);
    let rhs = (cos * cos) * (norm2(d) * dir_norm2(aim));
    if cos >= 0 {
        p >= 0 && lhs >= rhs
    } else {
        p >= 0 || lhs <= rhs
    }
}

/// Difference `a - b` of two points.
pub open spec fn delta(a: Point, b: Point) -> Point {
    Point { x: (a.x - b.x) as i64, y: (a.y - b.y) as i64 }
}

proof fn lemma_square_bound(a: int, m: int)
    requires
        -m <= a <= m,
    ensures
        0 <= a * a <= m * m,
{
    assert(0 <= a * a <= m * m) by (nonlinear_arith)
        requires -m <= a <= m;
}

/// Whether the displacement from `origin` to `target` lies in the cone
/// around `aim` whose half-angle has cosine `cos / COS_SCALE`.
pub fn cone_contains(origin: Point, target: Point, aim: Direction, cos: i16) -> (res: bool)
    requires
        origin.valid(),
        target.valid(),
    ensures
        res == in_cone(delta(target, origin), aim, cos as int),
{
    let dx: i64 = target.x - origin.x;
    let dy: i64 = target.y - origin.y;
    let ax: i64 = aim.x as i64;
    let ay: i64 = aim.y as i64;
    proof {
        assert(dx * ax <= 0x8000_0000 * 0x8000 && dx * ax >= -(0x8000_0000 * 0x8000)) by (nonlinear_arith)
            requires -0x8000_0000 <= dx <= 0x8000_0000, -0x8000 <= ax <= 0x8000;
        assert(dy * ay <= 0x8000_0000 * 0x8000 && dy * ay >= -(0x8000_0000 * 0x8000)) by (nonlinear_arith)
            requires -0x8000_0000 <= dy <= 0x8000_0000, -0x8000 <= ay <= 0x8000;
    }
    let p: i64 = dx * ax + dy * ay;
    let pa: u128 = if p < 0 { (-p) as u128 } else { p as u128 };
    let dxa: u128 = if dx < 0 { (-dx) as u128 } else { dx as u128 };
    let dya: u128 = if dy < 0 { (-dy) as u128 } else { dy as u128 };
    let axa: u128 = if ax < 0 { (-ax) as u128 } else { ax as u128 };
    let aya: u128 = if ay < 0 { (-ay) as u128 } else { ay as u128 };
    let ca: u128 = if cos < 0 { (-(cos as i64)) as u128 } else { cos as u128 };
    proof {
        lemma_square_bound(p as int, 0x1_0000_0000_0000);
        lemma_square_bound(dx as int, 0x8000_0000);
        lemma_square_bound(dy as int, 0x8000_0000);
        lemma_square_bound(ax as int, 0x8000);
        lemma_square_bound(ay as int, 0x8000);
        lemma_square_bound(cos as int, 0x8000);
        assert(pa * pa == p * p) by (nonlinear_arith) requires pa == p || pa == -p;
        assert(dxa * dxa == dx * dx) by (nonlinear_arith) requires dxa == dx || dxa == -dx;
        assert(dya * dya == dy * dy) by (nonlinear_arith) requires dya == dy || dya == -dy;
        assert(axa * axa == ax * ax) by (nonlinear_arith) requires axa == ax || axa == -ax;
        assert(aya * aya == ay * ay) by (nonlinear_arith) requires aya == ay || aya == -ay;
        assert(ca * ca == cos * cos) by (nonlinear_arith) requires ca == cos || ca == -cos;
    }
    let pp: u128 = pa * pa;
    let dd: u128 = dxa * dxa + dya * dya;
    let aa: u128 = axa * axa + aya * aya;
    let cc: u128 = ca * ca;
    proof {
        assert(pp * 100_000_000 <= 0x1_0000_0000_0000_0000_0000_0000 * 100_000_000) by (nonlinear_arith)
            requires pp <= 0x1_0000_0000_0000_0000_0000_0000u128;
        assert(cc * dd <= 0x4000_0000 * 0x8000_0000_0000_0000) by (nonlinear_arith)
            requires cc <= 0x4000_0000u128, dd <= 0x8000_0000_0000_0000u128;
        assert(cc * dd * aa <= 0x4000_0000 * 0x8000_0000_0000_0000 * 0x8000_0000) by (nonlinear_arith)
            requires cc * dd <= 0x4000_0000 * 0x8000_0000_0000_0000, aa <= 0x8000_0000u128;
        assert(cc * dd * aa == (cos * cos) * ((dx * dx + dy * dy) * (ax * ax + ay * ay))) by (nonlinear_arith)
            requires cc == cos * cos, dd == dx * dx + dy * dy, aa == ax * ax + ay * ay;
    }
    let lhs: u128 = 100_000_000u128 * pp;
    let rhs: u128 = cc * dd * aa;
    assert(COS_SCALE * COS_SCALE == 100_000_000);
    if cos >= 0 {
        p >= 0 && lhs >= rhs
    } else {
        p >= 0 || lhs <= rhs
    }
}


/// Microseconds in one second: the unit of all durations.
pub const MICROS_PER_SECOND: u64 = 1_000_000;

/// Integer square root, rounded down.
pub open spec fn isqrt(n: nat) -> nat
    decreases n,
{
    if n == 0 {
        0
    } else {
        let r = isqrt((n - 1) as nat);
        if (r + 1) * (r + 1) <= n {
            r + 1
        } else {
            r
        }
    }
}

proof fn lemma_isqrt_bounds(n: nat)
    ensures
        isqrt(n) * isqrt(n) <= n,
        n < (isqrt(n) + 1) * (isqrt(n) + 1),
    decreases n,
{
    if n == 0 {
        let q = isqrt(n);
        assert(q == 0);
        assert((q + 1) * (q + 1) == 1) by (nonlinear_arith)
            requires q == 0;
    } else {
        lemma_isqrt_bounds((n - 1) as nat);
        let r = isqrt((n - 1) as nat);
        let q = isqrt(n);
        if (r + 1) * (r + 1) > n {
            assert(q == r);
        } else {
            assert(q == r + 1);
            assert(q * q == n);
            assert((q + 1) * (q + 1) > n) by (nonlinear_arith)
                requires q * q == n, q >= 1;
        }
    }
}

proof fn lemma_isqrt_unique(n: nat, r: nat)
    requires
        r * r <= n < (r + 1) * (r + 1),
    ensures
        isqrt(n) == r,
{
    lemma_isqrt_bounds(n);
    let q = isqrt(n);
    if q < r {
        assert((q + 1) * (q + 1) <= r * r) by (nonlinear_arith)
            requires q + 1 <= r, q >= 0;
    } else if r < q {
        assert((r + 1) * (r + 1) <= q * q) by (nonlinear_arith)
            requires r + 1 <= q, r >= 0;
    }
}

/// Integer square root of `n`, rounded down.
pub fn floor_sqrt(n: u64) -> (r: u64)
    ensures
        r == isqrt(n as nat),
        r <= 0x1_0000_0000,
        r * r <= n < (r + 1) * (r + 1),
{
    let mut lo: u64 = 0;
    let mut hi: u64 = 0x1_0000_0000;
    assert(hi * hi > n) by (nonlinear_arith)
        requires hi == 0x1_0000_0000u64, n <= 0xffff_ffff_ffff_ffffu64;
    while lo + 1 < hi
        invariant
            lo < hi <= 0x1_0000_0000,
            lo * lo <= n,
            n < hi * hi,
        decreases hi - lo,
    {
        let mid: u64 = lo + (hi - lo) / 2;
        assert(mid * mid <= 0x1_0000_0000 * 0x1_0000_0000) by (nonlinear_arith)
            requires mid <= 0x1_0000_0000u64;
        let sq: u128 = mid as u128 * mid as u128;
        if sq <= n as u128 {
            lo = mid;
        } else {
            hi = mid;
        }
    }
    proof {
        lemma_isqrt_unique(n as nat, lo as nat);
    }
    lo
}

/// Distance covered at `speed` units per second during `time` microseconds.
pub open spec fn travel(speed: int, time: int) -> int {
    speed * time / (MICROS_PER_SECOND as int)
}

/// Quotient of `a` by `b > 0`, rounded toward zero.
pub open spec fn div_trunc(a: int, b: int) -> int {
    if a >= 0 {
        a / b
    } else {
        -((-a) / b)
    }
}

/// Where a point at `p` ends up after moving `step` units straight toward
/// `t`, along the unit vector from `p` to `t` (rounded toward zero on each
/// axis). The length of the way is the rounded-down integer distance. A
/// point whose step is longer than the way passes `t`; a point on `t`
/// stays.
pub open spec fn step_toward(p: Point, t: Point, step: int) -> Point {
    let d = delta(t, p);
    let len = isqrt(norm2(d) as nat) as int;
    if len == 0 {
        p
    } else {
        Point {
            x: (p.x + div_trunc(d.x * step, len)) as i64,
            y: (p.y + div_trunc(d.y * step, len)) as i64,
        }
    }
}

/// `a` (a coordinate difference, at most `len` in magnitude) scaled by
/// `s / len`, rounded toward zero. The result has the sign of `a` and is at
/// most `s` in magnitude.
pub fn scaled_offset(a: i64, s: u64, len: u64) -> (r: i64)
    requires
        -(len as int) <= a <= len,
        0 < len <= 0x1_0000_0000,
        s <= MAX_STEP,
    ensures
        r == div_trunc(a * s, len as int),
        a >= 0 ==> 0 <= r <= s,
        a < 0 ==> -(s as int) <= r <= 0,
{
    let m: u64 = if a < 0 { (-a) as u64 } else { a as u64 };
    assert(m * s <= 0x1_0000_0000 * 0x2000_0000) by (nonlinear_arith)
        requires m <= 0x1_0000_0000u64, s <= 0x2000_0000u64;
    let q: u64 = m * s / len;
    proof {
        lemma_mul_inequality(m as int, len as int, s as int);
        lemma_div_is_ordered(m * s, len * s, len as int);
        assert(len * s == s * len) by (nonlinear_arith);
        lemma_div_by_multiple(s as int, len as int);
        lemma_div_pos_is_pos(m * s, len as int);
        if a < 0 {
            assert(-(a * s) == m * s) by (nonlinear_arith) requires m == -a;
        } else {
            assert(a * s == m * s);
        }
    }
    if a < 0 {
        -(q as i64)
    } else {
        q as i64
    }
}

} // verus!
