//! Exact integer geometry: points, axis-aligned boxes, rational scale
//! factors, and the arithmetic helpers the selector's decisions rest on.
//!
//! All coordinates live in document units inside the bounded canvas
//! `[-COORD_LIMIT, COORD_LIMIT]`; operations that could leave the canvas
//! clamp their results back into it.

use vstd::prelude::*;

verus! {

/// Half-width of the canvas: every coordinate is kept within this bound.
pub const COORD_LIMIT: i64 = 1_000_000;

/// Clamp of an unbounded value into `[lo, hi]`.
pub open spec fn clamp_spec(v: int, lo: int, hi: int) -> int {
    if v < lo {
        lo
    } else if v > hi {
        hi
    } else {
        v
    }
}

/// Whether a coordinate lies inside the canvas.
pub open spec fn coord_in_range(v: int) -> bool {
    -(COORD_LIMIT as int) <= v <= COORD_LIMIT as int
}

/// Clamps a wide intermediate value back into the canvas range.
pub fn clamp_coord(v: i128) -> (r: i64)
    ensures
        r as int == clamp_spec(v as int, -(COORD_LIMIT as int), COORD_LIMIT as int),
        coord_in_range(r as int),
{
    if v < -(COORD_LIMIT as i128) {
        -COORD_LIMIT
    } else if v > COORD_LIMIT as i128 {
        COORD_LIMIT
    } else {
        v as i64
    }
}

/// Bounds on a product follow from bounds on the factors.
pub proof fn lemma_mul_bound(a: int, b: int, ma: int, mb: int)
    requires
        -ma <= a <= ma,
        -mb <= b <= mb,
        0 <= ma,
        0 <= mb,
    ensures
        -(ma * mb) <= a * b <= ma * mb,
{
    assert(-(ma * mb) <= a * b <= ma * mb) by (nonlinear_arith)
        requires
            -ma <= a <= ma,
            -mb <= b <= mb,
            0 <= ma,
            0 <= mb,
    ;
}

/// Truncating division never grows a value's magnitude.
pub proof fn lemma_div_trunc_bound(a: int, b: int)
    requires
        b >= 1,
    ensures
        a >= 0 ==> 0 <= div_trunc(a, b) <= a,
        a < 0 ==> a <= div_trunc(a, b) <= 0,
{
    if a >= 0 {
        vstd::arithmetic::div_mod::lemma_div_is_ordered_by_denominator(a, 1, b);
        vstd::arithmetic::div_mod::lemma_div_basics(a);
        vstd::arithmetic::div_mod::lemma_div_pos_is_pos(a, b);
    } else {
        vstd::arithmetic::div_mod::lemma_div_is_ordered_by_denominator(-a, 1, b);
        vstd::arithmetic::div_mod::lemma_div_basics(-a);
        vstd::arithmetic::div_mod::lemma_div_pos_is_pos(-a, b);
    }
}

/// Division truncated toward zero, for a positive divisor.
pub open spec fn div_trunc(a: int, b: int) -> int
    recommends
        b >= 1,
{
    if a >= 0 {
        a / b
    } else {
        -((-a) / b)
    }
}

/// Truncating division on wide intermediates; divisor must be positive.
pub fn div_trunc_i128(a: i128, b: i128) -> (r: i128)
    requires
        b >= 1,
        -(0x7fff_ffff_ffff_ffff_ffff_ffff_ffff_ffffi128) < a,
    ensures
        r as int == div_trunc(a as int, b as int),
{
    if a >= 0 {
        let q: u128 = (a as u128) / (b as u128);
        proof {
            assert(q <= a as u128) by (nonlinear_arith)
                requires
                    q == (a as u128) / (b as u128),
                    b as u128 >= 1,
            ;
        }
        q as i128
    } else {
        let m: u128 = (-a) as u128;
        let q: u128 = m / (b as u128);
        proof {
            assert(q <= m) by (nonlinear_arith)
                requires
                    q == m / (b as u128),
                    b as u128 >= 1,
            ;
        }
        -(q as i128)
    }
}

/// Floor division, for a positive divisor; matches `int` division.
pub fn div_floor_i128(a: i128, b: i128) -> (r: i128)
    requires
        b >= 1,
        -(0x7fff_ffff_ffff_ffff_ffff_ffff_ffff_fffei128) <= a,
    ensures
        r as int == a as int / b as int,
{
    if a >= 0 {
        let q: u128 = (a as u128) / (b as u128);
        proof {
            assert(q <= a as u128) by (nonlinear_arith)
                requires
                    q == (a as u128) / (b as u128),
                    b as u128 >= 1,
            ;
        }
        q as i128
    } else {
        let m: u128 = (-a) as u128;
        let q: u128 = m / (b as u128);
        let rem: u128 = m % (b as u128);
        proof {
            vstd::arithmetic::div_mod::lemma_fundamental_div_mod(m as int, b as int);
            vstd::arithmetic::div_mod::lemma_mod_bound(m as int, b as int);
            assert(m as int == b as int * q as int + rem as int);
            assert(q <= m) by (nonlinear_arith)
                requires
                    m as int == b as int * q as int + rem as int,
                    b as int >= 1,
                    rem as int >= 0,
                    q as int >= 0,
            ;
        }
        if rem == 0 {
            let r: i128 = -(q as i128);
            proof {
                assert(a as int == r as int * b as int + 0) by (nonlinear_arith)
                    requires
                        a as int == -(m as int),
                        m as int == b as int * q as int,
                        r as int == -(q as int),
                ;
                vstd::arithmetic::div_mod::lemma_fundamental_div_mod_converse(
                    a as int, b as int, r as int, 0);
            }
            r
        } else {
            let r: i128 = -(q as i128) - 1;
            proof {
                assert(a as int == r as int * b as int + (b as int - rem as int))
                    by (nonlinear_arith)
                    requires
                        a as int == -(m as int),
                        m as int == b as int * q as int + rem as int,
                        r as int == -(q as int) - 1,
                ;
                vstd::arithmetic::div_mod::lemma_fundamental_div_mod_converse(
                    a as int, b as int, r as int, b as int - rem as int);
            }
            r
        }
    }
}

/// A point or offset on the canvas.
#[derive(Clone, Copy, Debug, PartialEq, Eq, Structural)]
pub struct Vector2 {
    pub x: i64,
    pub y: i64,
}

impl Vector2 {
    /// Both coordinates lie inside the canvas.
    pub open spec fn wf(self) -> bool {
        coord_in_range(self.x as int) && coord_in_range(self.y as int)
    }

    pub open spec fn zero_spec() -> Vector2 {
        Vector2 { x: 0, y: 0 }
    }

    pub fn zero() -> (r: Vector2)
        ensures
            r == Vector2::zero_spec(),
    {
        Vector2 { x: 0, y: 0 }
    }

    pub fn new(x: i64, y: i64) -> (r: Vector2)
        ensures
            r.x == x && r.y == y,
    {
        Vector2 { x, y }
    }

    /// Componentwise difference, clamped into the canvas.
    pub open spec fn minus_spec(self, other: Vector2) -> Vector2 {
        Vector2 {
            x: clamp_coord_spec(self.x as int - other.x as int),
            y: clamp_coord_spec(self.y as int - other.y as int),
        }
    }

    pub fn minus(self, other: Vector2) -> (r: Vector2)
        ensures
            r == self.minus_spec(other),
            r.wf(),
    {
        Vector2 {
            x: clamp_coord(self.x as i128 - other.x as i128),
            y: clamp_coord(self.y as i128 - other.y as i128),
        }
    }

    /// Componentwise sum, clamped into the canvas.
    pub open spec fn plus_spec(self, other: Vector2) -> Vector2 {
        Vector2 {
            x: clamp_coord_spec(self.x as int + other.x as int),
            y: clamp_coord_spec(self.y as int + other.y as int),
        }
    }

    pub fn plus(self, other: Vector2) -> (r: Vector2)
        ensures
            r == self.plus_spec(other),
            r.wf(),
    {
        Vector2 {
            x: clamp_coord(self.x as i128 + other.x as i128),
            y: clamp_coord(self.y as i128 + other.y as i128),
        }
    }
}

/// Clamp into the canvas, at the spec level.
pub open spec fn clamp_coord_spec(v: int) -> i64 {
    clamp_spec(v, -(COORD_LIMIT as int), COORD_LIMIT as int) as i64
}

/// An axis-aligned box, the only bounding volume the selector works with.
#[derive(Clone, Copy, Debug, PartialEq, Eq, Structural)]
pub struct Aabb {
    pub mins: Vector2,
    pub maxs: Vector2,
}

impl Aabb {
    /// Mins do not exceed maxs and all corners lie inside the canvas.
    pub open spec fn wf(self) -> bool {
        &&& self.mins.wf()
        &&& self.maxs.wf()
        &&& self.mins.x <= self.maxs.x
        &&& self.mins.y <= self.maxs.y
    }

    pub open spec fn width(self) -> int {
        self.maxs.x as int - self.mins.x as int
    }

    pub open spec fn height(self) -> int {
        self.maxs.y as int - self.mins.y as int
    }

    /// The box spanned by two arbitrary points.
    pub open spec fn new_positive_spec(a: Vector2, b: Vector2) -> Aabb {
        Aabb {
            mins: Vector2 {
                x: if a.x <= b.x { a.x } else { b.x },
                y: if a.y <= b.y { a.y } else { b.y },
            },
            maxs: Vector2 {
                x: if a.x <= b.x { b.x } else { a.x },
                y: if a.y <= b.y { b.y } else { a.y },
            },
        }
    }

    pub fn new_positive(a: Vector2, b: Vector2) -> (r: Aabb)
        requires
            a.wf(),
            b.wf(),
        ensures
            r == Aabb::new_positive_spec(a, b),
            r.wf(),
    {
        Aabb {
            mins: Vector2 {
                x: if a.x <= b.x { a.x } else { b.x },
                y: if a.y <= b.y { a.y } else { b.y },
            },
            maxs: Vector2 {
                x: if a.x <= b.x { b.x } else { a.x },
                y: if a.y <= b.y { b.y } else { a.y },
            },
        }
    }

    pub open spec fn contains_pt(self, p: Vector2) -> bool {
        &&& self.mins.x <= p.x <= self.maxs.x
        &&& self.mins.y <= p.y <= self.maxs.y
    }

    /// Whether the point lies inside the box, borders included.
    pub fn contains_local_point(&self, p: Vector2) -> (r: bool)
        ensures
            r == self.contains_pt(p),
    {
        self.mins.x <= p.x && p.x <= self.maxs.x && self.mins.y <= p.y && p.y <= self.maxs.y
    }

    pub open spec fn contains_aabb(self, other: Aabb) -> bool {
        &&& self.mins.x <= other.mins.x
        &&& self.mins.y <= other.mins.y
        &&& other.maxs.x <= self.maxs.x
        &&& other.maxs.y <= self.maxs.y
    }

    /// Whether `other` lies entirely inside `self`.
    pub fn contains_box(&self, other: &Aabb) -> (r: bool)
        ensures
            r == self.contains_aabb(*other),
    {
        self.mins.x <= other.mins.x && self.mins.y <= other.mins.y
            && other.maxs.x <= self.maxs.x && other.maxs.y <= self.maxs.y
    }

    pub open spec fn intersects(self, other: Aabb) -> bool {
        &&& self.mins.x <= other.maxs.x
        &&& other.mins.x <= self.maxs.x
        &&& self.mins.y <= other.maxs.y
        &&& other.mins.y <= self.maxs.y
    }

    /// Whether the two boxes share at least one point.
    pub fn intersects_box(&self, other: &Aabb) -> (r: bool)
        ensures
            r == self.intersects(*other),
    {
        self.mins.x <= other.maxs.x && other.mins.x <= self.maxs.x
            && self.mins.y <= other.maxs.y && other.mins.y <= self.maxs.y
    }

    /// The smallest box enclosing both.
    pub open spec fn merged_spec(self, other: Aabb) -> Aabb {
        Aabb {
            mins: Vector2 {
                x: if self.mins.x <= other.mins.x { self.mins.x } else { other.mins.x },
                y: if self.mins.y <= other.mins.y { self.mins.y } else { other.mins.y },
            },
            maxs: Vector2 {
                x: if self.maxs.x >= other.maxs.x { self.maxs.x } else { other.maxs.x },
                y: if self.maxs.y >= other.maxs.y { self.maxs.y } else { other.maxs.y },
            },
        }
    }

    pub fn merged(&self, other: &Aabb) -> (r: Aabb)
        requires
            self.wf(),
            other.wf(),
        ensures
            r == self.merged_spec(*other),
            r.wf(),
    {
        Aabb {
            mins: Vector2 {
                x: if self.mins.x <= other.mins.x { self.mins.x } else { other.mins.x },
                y: if self.mins.y <= other.mins.y { self.mins.y } else { other.mins.y },
            },
            maxs: Vector2 {
                x: if self.maxs.x >= other.maxs.x { self.maxs.x } else { other.maxs.x },
                y: if self.maxs.y >= other.maxs.y { self.maxs.y } else { other.maxs.y },
            },
        }
    }

    /// Translation by an offset, clamped into the canvas.
    pub open spec fn translate_spec(self, offset: Vector2) -> Aabb {
        Aabb { mins: self.mins.plus_spec(offset), maxs: self.maxs.plus_spec(offset) }
    }

    pub fn translate(&self, offset: Vector2) -> (r: Aabb)
        requires
            self.wf(),
        ensures
            r == self.translate_spec(offset),
            r.wf(),
    {
        Aabb { mins: self.mins.plus(offset), maxs: self.maxs.plus(offset) }
    }

    /// The box grown by `margin` on every side, clamped into the canvas.
    pub open spec fn loosened_spec(self, margin: i64) -> Aabb {
        Aabb {
            mins: Vector2 {
                x: clamp_coord_spec(self.mins.x - margin as int),
                y: clamp_coord_spec(self.mins.y - margin as int),
            },
            maxs: Vector2 {
                x: clamp_coord_spec(self.maxs.x + margin as int),
                y: clamp_coord_spec(self.maxs.y + margin as int),
            },
        }
    }

    pub fn loosened(&self, margin: i64) -> (r: Aabb)
        requires
            self.wf(),
            0 <= margin,
        ensures
            r == self.loosened_spec(margin),
            r.wf(),
    {
        Aabb {
            mins: Vector2 {
                x: clamp_coord(self.mins.x as i128 - margin as i128),
                y: clamp_coord(self.mins.y as i128 - margin as i128),
            },
            maxs: Vector2 {
                x: clamp_coord(self.maxs.x as i128 + margin as i128),
                y: clamp_coord(self.maxs.y as i128 + margin as i128),
            },
        }
    }

    /// Widths per axis, as a vector; always nonnegative for a well-formed box.
    pub open spec fn extents_spec(self) -> Vector2 {
        Vector2 { x: (self.maxs.x - self.mins.x) as i64, y: (self.maxs.y - self.mins.y) as i64 }
    }

    pub fn extents(&self) -> (r: Vector2)
        requires
            self.wf(),
        ensures
            r == self.extents_spec(),
            r.x >= 0 && r.y >= 0,
    {
        Vector2 { x: self.maxs.x - self.mins.x, y: self.maxs.y - self.mins.y }
    }

    /// The center, rounded down on odd spans.
    pub open spec fn center_spec(self) -> Vector2 {
        Vector2 {
            x: (self.mins.x as int + (self.maxs.x as int - self.mins.x as int) / 2) as i64,
            y: (self.mins.y as int + (self.maxs.y as int - self.mins.y as int) / 2) as i64,
        }
    }

    pub fn center(&self) -> (r: Vector2)
        requires
            self.wf(),
        ensures
            r == self.center_spec(),
            r.wf(),
    {
        let dx: i64 = self.maxs.x - self.mins.x;
        let dy: i64 = self.maxs.y - self.mins.y;
        let hx: i64 = ((dx as u64) / 2u64) as i64;
        let hy: i64 = ((dy as u64) / 2u64) as i64;
        Vector2 { x: self.mins.x + hx, y: self.mins.y + hy }
    }
}

/// A nonnegative rational scale factor.
#[derive(Clone, Copy, Debug, PartialEq, Eq, Structural)]
pub struct Frac {
    pub num: i64,
    pub den: i64,
}

impl Frac {
    /// Numerator nonnegative, denominator positive, both bounded so that
    /// scaling a canvas coordinate stays well inside wide intermediates.
    pub open spec fn wf(self) -> bool {
        &&& 0 <= self.num <= 8 * COORD_LIMIT
        &&& 1 <= self.den <= 8 * COORD_LIMIT
    }

    pub open spec fn one_spec() -> Frac {
        Frac { num: 1, den: 1 }
    }

    pub fn one() -> (r: Frac)
        ensures
            r == Frac::one_spec(),
            r.wf(),
    {
        Frac { num: 1, den: 1 }
    }

    /// `v * num / den`, truncated toward zero.
    pub open spec fn apply_spec(self, v: int) -> int
        recommends
            self.wf(),
    {
        div_trunc(v * self.num as int, self.den as int)
    }

    /// Scales a coordinate, clamping the result into the canvas.
    pub fn apply_clamped(self, v: i64) -> (r: i64)
        requires
            self.wf(),
            coord_in_range(v as int),
        ensures
            r as int == clamp_spec(
                self.apply_spec(v as int),
                -(COORD_LIMIT as int),
                COORD_LIMIT as int,
            ),
            coord_in_range(r as int),
    {
        proof {
            lemma_mul_bound(v as int, self.num as int, COORD_LIMIT as int, 8 * COORD_LIMIT as int);
        }
        let wide: i128 = (v as i128) * (self.num as i128);
        let q: i128 = div_trunc_i128(wide, self.den as i128);
        clamp_coord(q)
    }
}

/// Product of two narrow values; always fits the wide type.
pub fn wide_mul(a: i64, b: i64) -> (r: i128)
    ensures
        r as int == a as int * b as int,
{
    proof {
        lemma_mul_bound(a as int, b as int, 0x8000_0000_0000_0000, 0x8000_0000_0000_0000);
    }
    (a as i128) * (b as i128)
}

/// Product of two wide values of moderate size.
pub fn mul_i128(a: i128, b: i128) -> (r: i128)
    requires
        -0x1_0000_0000_0000_0000i128 <= a <= 0x1_0000_0000_0000_0000i128,
        -0x4000_0000_0000_0000i128 <= b <= 0x4000_0000_0000_0000i128,
    ensures
        r as int == a as int * b as int,
{
    proof {
        lemma_mul_bound(a as int, b as int, 0x1_0000_0000_0000_0000, 0x4000_0000_0000_0000);
    }
    a * b
}

/// The integer square root, defined by stepwise refinement.
pub open spec fn sqrt_floor(n: nat) -> nat
    decreases n,
{
    if n == 0 {
        0
    } else {
        let s = sqrt_floor((n - 1) as nat);
        if (s + 1) * (s + 1) <= n {
            s + 1
        } else {
            s
        }
    }
}

/// `sqrt_floor` brackets its argument between consecutive squares.
pub proof fn lemma_sqrt_floor_bracket(n: nat)
    ensures
        sqrt_floor(n) * sqrt_floor(n) <= n,
        (sqrt_floor(n) + 1) * (sqrt_floor(n) + 1) > n,
    decreases n,
{
    if n > 0 {
        lemma_sqrt_floor_bracket((n - 1) as nat);
        let s = sqrt_floor((n - 1) as nat);
        assert(s * s <= (n - 1) as nat);
        assert((s + 1) * (s + 1) > (n - 1) as nat);
        if (s + 1) * (s + 1) <= n {
            assert(sqrt_floor(n) == s + 1);
            assert((s + 2) * (s + 2) > (s + 1) * (s + 1)) by (nonlinear_arith);
            assert((s + 2) * (s + 2) > n);
            assert((sqrt_floor(n) + 1) * (sqrt_floor(n) + 1) > n) by (nonlinear_arith)
                requires
                    sqrt_floor(n) == s + 1,
                    (s + 2) * (s + 2) > n,
            ;
        } else {
            assert(sqrt_floor(n) == s);
            assert((sqrt_floor(n) + 1) * (sqrt_floor(n) + 1) > n) by (nonlinear_arith)
                requires
                    sqrt_floor(n) == s,
                    (s + 1) * (s + 1) > n,
            ;
        }
    } else {
        assert(n == 0);
        assert(sqrt_floor(0) == 0);
        assert((sqrt_floor(n) + 1) * (sqrt_floor(n) + 1) > n) by (nonlinear_arith)
            requires
                sqrt_floor(n) == 0,
                n == 0,
        ;
    }
}

/// Consecutive squares bracket each value uniquely.
pub proof fn lemma_sqrt_unique(n: nat, r: nat)
    requires
        r * r <= n,
        (r + 1) * (r + 1) > n,
    ensures
        r == sqrt_floor(n),
{
    lemma_sqrt_floor_bracket(n);
    let s = sqrt_floor(n);
    if r < s {
        assert((r + 1) * (r + 1) <= s * s) by (nonlinear_arith)
            requires
                r + 1 <= s,
        ;
    }
    if s < r {
        assert((s + 1) * (s + 1) <= r * r) by (nonlinear_arith)
            requires
                s + 1 <= r,
        ;
    }
}

/// Binary-search integer square root on wide nonnegative values.
pub fn isqrt(n: u128) -> (r: u128)
    ensures
        r as nat == sqrt_floor(n as nat),
        r <= 0xffff_ffff_ffff_ffffu128,
{
    let mut lo: u128 = 0;
    let mut hi: u128 = if n < 0xffff_ffff_ffff_ffffu128 {
        n
    } else {
        0xffff_ffff_ffff_ffffu128
    };
    proof {
        if n >= 0xffff_ffff_ffff_ffffu128 {
            assert((hi as int + 1) * (hi as int + 1) > n as int) by (nonlinear_arith)
                requires
                    hi as int == 0xffff_ffff_ffff_ffff,
                    n as int <= 0xffff_ffff_ffff_ffff_ffff_ffff_ffff_ffff,
            ;
        } else {
            assert((hi as int + 1) * (hi as int + 1) > n as int) by (nonlinear_arith)
                requires
                    hi == n,
            ;
        }
    }
    while lo < hi
        invariant
            lo <= hi,
            hi <= 0xffff_ffff_ffff_ffffu128,
            lo as int * lo as int <= n as int,
            (hi as int + 1) * (hi as int + 1) > n as int,
        decreases hi - lo,
    {
        let mid: u128 = lo + (hi - lo + 1) / 2;
        proof {
            lemma_mul_bound(mid as int, mid as int, 0xffff_ffff_ffff_ffff,
                0xffff_ffff_ffff_ffff);
        }
        if mid * mid <= n {
            lo = mid;
        } else {
            hi = mid - 1;
        }
    }
    proof {
        lemma_sqrt_unique(n as nat, lo as nat);
    }
    lo
}

/// Dot product of two direction vectors.
pub open spec fn rot_dot(u: Vector2, v: Vector2) -> int {
    u.x as int * v.x as int + u.y as int * v.y as int
}

/// Cross product (z component) of two direction vectors.
pub open spec fn rot_cross(u: Vector2, v: Vector2) -> int {
    u.x as int * v.y as int - u.y as int * v.x as int
}

/// A direction vector: the difference of two canvas points, unclamped.
pub open spec fn dir_in_range(v: Vector2) -> bool {
    -(2 * COORD_LIMIT as int) <= v.x as int <= 2 * COORD_LIMIT as int
        && -(2 * COORD_LIMIT as int) <= v.y as int <= 2 * COORD_LIMIT as int
}

pub open spec fn dir_spec(from: Vector2, to: Vector2) -> Vector2 {
    Vector2 { x: (to.x - from.x) as i64, y: (to.y - from.y) as i64 }
}

/// The vector pointing from one canvas point to another.
pub fn dir_between(from: Vector2, to: Vector2) -> (r: Vector2)
    requires
        from.wf(),
        to.wf(),
    ensures
        r == dir_spec(from, to),
        dir_in_range(r),
{
    Vector2 { x: to.x - from.x, y: to.y - from.y }
}

/// Tangent of the fixed rotation threshold, as a ratio.
pub const ROTATE_THRESHOLD_TAN_NUM: i64 = 1;

pub const ROTATE_THRESHOLD_TAN_DEN: i64 = 100;

/// Whether the turn from direction `u` to direction `v` exceeds the fixed
/// rotation threshold (an angle with tangent 1/100). Degenerate directions
/// never exceed it.
pub open spec fn rotation_exceeds_threshold_spec(u: Vector2, v: Vector2) -> bool {
    &&& !(u.x == 0 && u.y == 0)
    &&& !(v.x == 0 && v.y == 0)
    &&& {
        let dot = rot_dot(u, v);
        let cross = rot_cross(u, v);
        let mag = if cross >= 0 {
            cross
        } else {
            -cross
        };
        dot <= 0 || mag * ROTATE_THRESHOLD_TAN_DEN as int > dot * ROTATE_THRESHOLD_TAN_NUM as int
    }
}

pub fn rotation_exceeds_threshold(u: Vector2, v: Vector2) -> (r: bool)
    requires
        dir_in_range(u),
        dir_in_range(v),
    ensures
        r == rotation_exceeds_threshold_spec(u, v),
{
    if (u.x == 0 && u.y == 0) || (v.x == 0 && v.y == 0) {
        return false;
    }
    proof {
        lemma_dir_products_bounded(u, v);
    }
    let dot: i128 = wide_mul(u.x, v.x) + wide_mul(u.y, v.y);
    let cross: i128 = wide_mul(u.x, v.y) - wide_mul(u.y, v.x);
    let mag: i128 = if cross >= 0 {
        cross
    } else {
        -cross
    };
    let lhs: i128 = mag * 100i128;
    let rhs: i128 = dot * 1i128;
    dot <= 0 || lhs > rhs
}

/// The four coordinate products of two direction vectors are bounded.
pub proof fn lemma_dir_products_bounded(u: Vector2, v: Vector2)
    requires
        dir_in_range(u),
        dir_in_range(v),
    ensures
        -4_000_000_000_000 <= u.x as int * v.x as int <= 4_000_000_000_000,
        -4_000_000_000_000 <= u.y as int * v.y as int <= 4_000_000_000_000,
        -4_000_000_000_000 <= u.x as int * v.y as int <= 4_000_000_000_000,
        -4_000_000_000_000 <= u.y as int * v.x as int <= 4_000_000_000_000,
{
    lemma_mul_bound(u.x as int, v.x as int, 2_000_000, 2_000_000);
    lemma_mul_bound(u.y as int, v.y as int, 2_000_000, 2_000_000);
    lemma_mul_bound(u.x as int, v.y as int, 2_000_000, 2_000_000);
    lemma_mul_bound(u.y as int, v.x as int, 2_000_000, 2_000_000);
}

/// The model rotation: the point turned about `center` by the angle that
/// takes direction `u` to direction `v`, with each coordinate rounded toward
/// zero and clamped into the canvas. Degenerate directions leave the point
/// unchanged.
pub open spec fn rotate_pt_spec(p: Vector2, center: Vector2, u: Vector2, v: Vector2) -> Vector2 {
    let dot = rot_dot(u, v);
    let cross = rot_cross(u, v);
    let den = sqrt_floor((dot * dot + cross * cross) as nat) as int;
    if den == 0 {
        p
    } else {
        let dx = p.x as int - center.x as int;
        let dy = p.y as int - center.y as int;
        Vector2 {
            x: clamp_coord_spec(center.x as int + div_trunc(dx * dot - dy * cross, den)),
            y: clamp_coord_spec(center.y as int + div_trunc(dx * cross + dy * dot, den)),
        }
    }
}

pub fn rotate_pt(p: Vector2, center: Vector2, u: Vector2, v: Vector2) -> (r: Vector2)
    requires
        p.wf(),
        center.wf(),
        dir_in_range(u),
        dir_in_range(v),
    ensures
        r == rotate_pt_spec(p, center, u, v),
        r.wf(),
{
    proof {
        lemma_dir_products_bounded(u, v);
    }
    let dot_w: i128 = wide_mul(u.x, v.x) + wide_mul(u.y, v.y);
    let cross_w: i128 = wide_mul(u.x, v.y) - wide_mul(u.y, v.x);
    let dot: i64 = dot_w as i64;
    let cross: i64 = cross_w as i64;
    proof {
        lemma_mul_bound(dot as int, dot as int, 8_000_000_000_000, 8_000_000_000_000);
        lemma_mul_bound(cross as int, cross as int, 8_000_000_000_000, 8_000_000_000_000);
        assert(dot as int * dot as int >= 0) by (nonlinear_arith);
        assert(cross as int * cross as int >= 0) by (nonlinear_arith);
    }
    let den2: i128 = wide_mul(dot, dot) + wide_mul(cross, cross);
    let den: u128 = isqrt(den2 as u128);
    if den == 0 {
        return p;
    }
    let deni: i128 = den as i128;
    let dx: i64 = p.x - center.x;
    let dy: i64 = p.y - center.y;
    proof {
        lemma_mul_bound(dx as int, dot as int, 2_000_000, 8_000_000_000_000);
        lemma_mul_bound(dy as int, cross as int, 2_000_000, 8_000_000_000_000);
        lemma_mul_bound(dx as int, cross as int, 2_000_000, 8_000_000_000_000);
        lemma_mul_bound(dy as int, dot as int, 2_000_000, 8_000_000_000_000);
    }
    let numx: i128 = wide_mul(dx, dot) - wide_mul(dy, cross);
    let numy: i128 = wide_mul(dx, cross) + wide_mul(dy, dot);
    let qx: i128 = div_trunc_i128(numx, deni);
    let qy: i128 = div_trunc_i128(numy, deni);
    Vector2 {
        x: clamp_coord(center.x as i128 + qx),
        y: clamp_coord(center.y as i128 + qy),
    }
}

/// Whether an offset's magnitude exceeds `threshold / zoom`, stated without
/// division: compares squared magnitudes cross-multiplied by the zoom ratio.
pub open spec fn offset_exceeds_threshold_spec(o: Vector2, zoom: Frac, threshold: i64) -> bool {
    (o.x as int * o.x as int + o.y as int * o.y as int) * (zoom.num as int * zoom.num as int)
        > (threshold as int * threshold as int) * (zoom.den as int * zoom.den as int)
}

pub fn offset_exceeds_threshold(o: Vector2, zoom: Frac, threshold: i64) -> (r: bool)
    requires
        dir_in_range(o),
        zoom.wf(),
        0 <= threshold <= COORD_LIMIT,
    ensures
        r == offset_exceeds_threshold_spec(o, zoom, threshold),
{
    proof {
        lemma_mul_bound(o.x as int, o.x as int, 2_000_000, 2_000_000);
        lemma_mul_bound(o.y as int, o.y as int, 2_000_000, 2_000_000);
        lemma_mul_bound(zoom.num as int, zoom.num as int, 8_000_000, 8_000_000);
        lemma_mul_bound(zoom.den as int, zoom.den as int, 8_000_000, 8_000_000);
        lemma_mul_bound(threshold as int, threshold as int, 1_000_000, 1_000_000);
    }
    let m2: i128 = wide_mul(o.x, o.x) + wide_mul(o.y, o.y);
    let zn2: i128 = wide_mul(zoom.num, zoom.num);
    let zd2: i128 = wide_mul(zoom.den, zoom.den);
    let t2: i128 = wide_mul(threshold, threshold);
    mul_i128(m2, zn2) > mul_i128(t2, zd2)
}

/// A coordinate snapped to the nearest multiple of the grid step, then
/// clamped into the canvas.
pub open spec fn snap_coord_spec(v: int, grid: int) -> i64
    recommends
        grid >= 1,
{
    clamp_coord_spec((v + grid / 2) / grid * grid)
}

pub fn snap_coord(v: i64, grid: i64) -> (r: i64)
    requires
        coord_in_range(v as int),
        1 <= grid <= 1000,
    ensures
        r as int == snap_coord_spec(v as int, grid as int) as int,
        coord_in_range(r as int),
{
    let half_grid: i128 = ((grid as u128) / 2u128) as i128;
    let num: i128 = v as i128 + half_grid;
    let q: i128 = div_floor_i128(num, grid as i128);
    proof {
        vstd::arithmetic::div_mod::lemma_fundamental_div_mod(num as int, grid as int);
        vstd::arithmetic::div_mod::lemma_mod_bound(num as int, grid as int);
        let rr = num as int % grid as int;
        assert(grid as int * q as int == num as int - rr);
        assert(-0x1_0000_0000_0000_0000i128 <= q <= 0x1_0000_0000_0000_0000i128)
            by (nonlinear_arith)
            requires
                grid as int * q as int == num as int - rr,
                1 <= grid as int <= 1000,
                0 <= rr && rr < grid as int,
                -0x10_0000 <= num as int <= 0x10_0000 + 500,
        ;
    }
    let qg: i128 = mul_i128(q, grid as i128);
    clamp_coord(qg)
}

/// Whether the edge from `a` to `b` crosses the horizontal ray running from
/// `p` toward positive x, in the even-odd crossing convention.
pub open spec fn edge_crosses_ray(a: Vector2, b: Vector2, p: Vector2) -> bool {
    ((a.y > p.y) != (b.y > p.y)) && {
        let dy = b.y as int - a.y as int;
        let lhs = (p.x as int - a.x as int) * dy;
        let rhs = (b.x as int - a.x as int) * (p.y as int - a.y as int);
        if dy > 0 {
            lhs < rhs
        } else {
            lhs > rhs
        }
    }
}

fn edge_crosses_ray_exec(a: Vector2, b: Vector2, p: Vector2) -> (r: bool)
    requires
        a.wf(),
        b.wf(),
        p.wf(),
    ensures
        r == edge_crosses_ray(a, b, p),
{
    let a_above: bool = a.y > p.y;
    let b_above: bool = b.y > p.y;
    if a_above == b_above {
        false
    } else {
        let dy: i64 = b.y - a.y;
        let lhs: i128 = wide_mul(p.x - a.x, dy);
        let rhs: i128 = wide_mul(b.x - a.x, p.y - a.y);
        if dy > 0 {
            lhs < rhs
        } else {
            lhs > rhs
        }
    }
}

/// Crossings of the ray from `p` with the first `n` edges of the closed
/// polygon traced by `path` (edge `k` runs from vertex `k` to the next
/// vertex, wrapping at the end).
pub open spec fn ray_crossings(path: Seq<Vector2>, p: Vector2, n: int) -> nat
    recommends
        n <= path.len(),
    decreases n,
{
    if n <= 0 {
        0
    } else {
        let a = path[n - 1];
        let b = if n == path.len() {
            path[0]
        } else {
            path[n]
        };
        ray_crossings(path, p, n - 1) + if edge_crosses_ray(a, b, p) {
            1nat
        } else {
            0nat
        }
    }
}

/// Even-odd containment of a point in the closed polygon traced by `path`.
pub open spec fn point_in_polygon_spec(path: Seq<Vector2>, p: Vector2) -> bool {
    ray_crossings(path, p, path.len() as int) % 2 == 1
}

pub fn point_in_polygon(path: &Vec<Vector2>, p: Vector2) -> (r: bool)
    requires
        forall|i: int| 0 <= i < path@.len() ==> (#[trigger] path@[i]).wf(),
        p.wf(),
    ensures
        r == point_in_polygon_spec(path@, p),
{
    let n: usize = path.len();
    let mut count: u64 = 0;
    let mut i: usize = 0;
    while i < n
        invariant
            i <= n,
            n == path@.len(),
            count <= i,
            forall|k: int| 0 <= k < path@.len() ==> (#[trigger] path@[k]).wf(),
            p.wf(),
            count as nat == ray_crossings(path@, p, i as int),
        decreases n - i,
    {
        let a: Vector2 = path[i];
        let b: Vector2 = if i + 1 == n {
            path[0]
        } else {
            path[i + 1]
        };
        if edge_crosses_ray_exec(a, b, p) {
            count = count + 1;
        }
        i = i + 1;
    }
    count % 2 == 1
}

/// All four corners of the box, in a fixed order.
pub open spec fn box_corner(b: Aabb, k: int) -> Vector2 {
    if k == 0 {
        b.mins
    } else if k == 1 {
        Vector2 { x: b.maxs.x, y: b.mins.y }
    } else if k == 2 {
        b.maxs
    } else {
        Vector2 { x: b.mins.x, y: b.maxs.y }
    }
}

/// Containment of a box in a polygon, in the coarse convention the stroke
/// hit tests use: every corner of the box lies inside the polygon.
pub open spec fn box_in_polygon_spec(path: Seq<Vector2>, b: Aabb) -> bool {
    forall|k: int| 0 <= k < 4 ==> point_in_polygon_spec(path, #[trigger] box_corner(b, k))
}

pub fn box_in_polygon(path: &Vec<Vector2>, b: &Aabb) -> (r: bool)
    requires
        forall|i: int| 0 <= i < path@.len() ==> (#[trigger] path@[i]).wf(),
        b.wf(),
    ensures
        r == box_in_polygon_spec(path@, *b),
{
    let c1: bool = point_in_polygon(path, b.mins);
    let c2: bool = point_in_polygon(path, Vector2 { x: b.maxs.x, y: b.mins.y });
    let c3: bool = point_in_polygon(path, b.maxs);
    let c4: bool = point_in_polygon(path, Vector2 { x: b.mins.x, y: b.maxs.y });
    let r: bool = c1 && c2 && c3 && c4;
    proof {
        assert(box_corner(*b, 0) == b.mins);
        assert(box_corner(*b, 1) == Vector2 { x: b.maxs.x, y: b.mins.y });
        assert(box_corner(*b, 2) == b.maxs);
        assert(box_corner(*b, 3) == Vector2 { x: b.mins.x, y: b.maxs.y });
    }
    r
}

/// Signed area sense of `c` relative to the directed line from `a` to `b`.
pub open spec fn side_of(a: Vector2, b: Vector2, c: Vector2) -> int {
    (b.x as int - a.x as int) * (c.y as int - a.y as int) - (b.y as int - a.y as int) * (c.x as int
        - a.x as int)
}

/// Exact segment-box intersection: the bounding boxes overlap and the box
/// has corners on both sides of the segment's carrier line (or on it).
pub open spec fn seg_intersects_box_spec(a: Vector2, b: Vector2, bx: Aabb) -> bool {
    &&& Aabb::new_positive_spec(a, b).intersects(bx)
    &&& (exists|k: int| 0 <= k < 4 && side_of(a, b, #[trigger] box_corner(bx, k)) >= 0)
    &&& (exists|k: int| 0 <= k < 4 && side_of(a, b, #[trigger] box_corner(bx, k)) <= 0)
}

fn side_of_exec(a: Vector2, b: Vector2, c: Vector2) -> (r: i128)
    requires
        a.wf(),
        b.wf(),
        c.wf(),
    ensures
        r as int == side_of(a, b, c),
{
    proof {
        lemma_mul_bound(b.x as int - a.x as int, c.y as int - a.y as int, 2_000_000, 2_000_000);
        lemma_mul_bound(b.y as int - a.y as int, c.x as int - a.x as int, 2_000_000, 2_000_000);
    }
    wide_mul(b.x - a.x, c.y - a.y) - wide_mul(b.y - a.y, c.x - a.x)
}

pub fn seg_intersects_box(a: Vector2, b: Vector2, bx: &Aabb) -> (r: bool)
    requires
        a.wf(),
        b.wf(),
        bx.wf(),
    ensures
        r == seg_intersects_box_spec(a, b, *bx),
{
    let sb: Aabb = Aabb::new_positive(a, b);
    if !sb.intersects_box(bx) {
        return false;
    }
    let c0: i128 = side_of_exec(a, b, bx.mins);
    let c1: i128 = side_of_exec(a, b, Vector2 { x: bx.maxs.x, y: bx.mins.y });
    let c2: i128 = side_of_exec(a, b, bx.maxs);
    let c3: i128 = side_of_exec(a, b, Vector2 { x: bx.mins.x, y: bx.maxs.y });
    let any_nonneg: bool = c0 >= 0 || c1 >= 0 || c2 >= 0 || c3 >= 0;
    let any_nonpos: bool = c0 <= 0 || c1 <= 0 || c2 <= 0 || c3 <= 0;
    proof {
        assert(box_corner(*bx, 0) == bx.mins);
        assert(box_corner(*bx, 1) == Vector2 { x: bx.maxs.x, y: bx.mins.y });
        assert(box_corner(*bx, 2) == bx.maxs);
        assert(box_corner(*bx, 3) == Vector2 { x: bx.mins.x, y: bx.maxs.y });
    }
    any_nonneg && any_nonpos
}

/// Whether any of the first `n` segments of the open polyline `path`
/// (segment `j` runs from vertex `j` to vertex `j + 1`) meets the box.
pub open spec fn polyline_hits_box(path: Seq<Vector2>, bx: Aabb, n: int) -> bool
    recommends
        n < path.len(),
    decreases n,
{
    if n <= 0 {
        false
    } else {
        polyline_hits_box(path, bx, n - 1) || seg_intersects_box_spec(path[n - 1], path[n], bx)
    }
}

/// Whether the open polyline meets the box anywhere.
pub open spec fn path_intersects_box_spec(path: Seq<Vector2>, bx: Aabb) -> bool {
    path.len() >= 1 && polyline_hits_box(path, bx, path.len() - 1)
}

pub fn path_intersects_box(path: &Vec<Vector2>, bx: &Aabb) -> (r: bool)
    requires
        forall|i: int| 0 <= i < path@.len() ==> (#[trigger] path@[i]).wf(),
        bx.wf(),
    ensures
        r == path_intersects_box_spec(path@, *bx),
{
    let n: usize = path.len();
    if n == 0 {
        return false;
    }
    let mut hit: bool = false;
    let mut j: usize = 0;
    while j < n - 1
        invariant
            j <= n - 1,
            n == path@.len(),
            n >= 1,
            forall|k: int| 0 <= k < path@.len() ==> (#[trigger] path@[k]).wf(),
            bx.wf(),
            hit == polyline_hits_box(path@, *bx, j as int),
        decreases n - j,
    {
        if seg_intersects_box(path[j], path[j + 1], bx) {
            hit = true;
        }
        j = j + 1;
    }
    hit
}

/// A pair of per-axis scale factors.
#[derive(Clone, Copy, Debug, PartialEq, Eq, Structural)]
pub struct Scale2 {
    pub x: Frac,
    pub y: Frac,
}

impl Scale2 {
    pub open spec fn wf(self) -> bool {
        self.x.wf() && self.y.wf()
    }

    pub open spec fn one_spec() -> Scale2 {
        Scale2 { x: Frac::one_spec(), y: Frac::one_spec() }
    }

    pub fn one() -> (r: Scale2)
        ensures
            r == Scale2::one_spec(),
            r.wf(),
    {
        Scale2 { x: Frac::one(), y: Frac::one() }
    }
}

impl Frac {
    /// Scales a direction-sized value, without clamping the result.
    pub fn apply_wide(self, v: i64) -> (r: i128)
        requires
            self.wf(),
            -(2 * COORD_LIMIT as int) <= v as int <= 2 * COORD_LIMIT as int,
        ensures
            r as int == self.apply_spec(v as int),
            -(16_000_000_000_000i128 + 1) <= r <= 16_000_000_000_000i128,
    {
        proof {
            lemma_mul_bound(v as int, self.num as int, 2_000_000, 8_000_000);
        }
        let wide: i128 = (v as i128) * (self.num as i128);
        let q: i128 = div_trunc_i128(wide, self.den as i128);
        proof {
            lemma_div_trunc_bound(wide as int, self.den as int);
        }
        q
    }
}

/// A point scaled about a pivot by per-axis factors, each coordinate rounded
/// toward zero and clamped into the canvas.
pub open spec fn scale_pt_spec(p: Vector2, pivot: Vector2, sc: Scale2) -> Vector2 {
    Vector2 {
        x: clamp_coord_spec(pivot.x as int + sc.x.apply_spec(p.x as int - pivot.x as int)),
        y: clamp_coord_spec(pivot.y as int + sc.y.apply_spec(p.y as int - pivot.y as int)),
    }
}

pub fn scale_pt(p: Vector2, pivot: Vector2, sc: Scale2) -> (r: Vector2)
    requires
        p.wf(),
        pivot.wf(),
        sc.wf(),
    ensures
        r == scale_pt_spec(p, pivot, sc),
        r.wf(),
{
    let qx: i128 = sc.x.apply_wide(p.x - pivot.x);
    let qy: i128 = sc.y.apply_wide(p.y - pivot.y);
    Vector2 {
        x: clamp_coord(pivot.x as i128 + qx),
        y: clamp_coord(pivot.y as i128 + qy),
    }
}

/// A nonnegative length scaled by a factor, clamped into `[0, COORD_LIMIT]`.
pub open spec fn scale_len_spec(v: i64, f: Frac) -> i64 {
    clamp_spec(f.apply_spec(v as int), 0, COORD_LIMIT as int) as i64
}

pub fn scale_len(v: i64, f: Frac) -> (r: i64)
    requires
        0 <= v <= COORD_LIMIT,
        f.wf(),
    ensures
        r == scale_len_spec(v, f),
        0 <= r <= COORD_LIMIT,
{
    let q: i128 = f.apply_wide(v);
    if q < 0 {
        0
    } else if q > COORD_LIMIT as i128 {
        COORD_LIMIT
    } else {
        q as i64
    }
}

} // verus!
