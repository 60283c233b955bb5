use vstd::prelude::*;

verus! {

/// Position units per world length.
pub const LENGTH_UNIT: i64 = 1000;

/// The largest magnitude of a coordinate of a position or of a velocity.
pub const COORD_LIMIT: i64 = 1073741824;

/// A vector in the plane, in fixed-point units.
#[derive(Clone, Copy, Debug, PartialEq, Eq, Structural)]
pub struct Vec2 {
    pub x: i64,
    pub y: i64,
}

/// Both coordinates lie within `COORD_LIMIT` of zero.
pub open spec fn in_limits(v: Vec2) -> bool {
    -COORD_LIMIT <= v.x <= COORD_LIMIT && -COORD_LIMIT <= v.y <= COORD_LIMIT
}

pub open spec fn coord_in_limits(c: int) -> bool {
    -COORD_LIMIT <= c <= COORD_LIMIT
}

/// The dot product of two vectors given by their coordinates.
pub open spec fn dot(ax: int, ay: int, bx: int, by: int) -> int {
    ax * bx + ay * by
}

/// The squared length of a vector given by its coordinates.
pub open spec fn norm2(x: int, y: int) -> int {
    x * x + y * y
}

/// The squared distance between two points.
pub open spec fn dist2(a: Vec2, b: Vec2) -> int {
    norm2(a.x - b.x, a.y - b.y)
}

/// Division rounding toward zero, for a positive divisor.
pub open spec fn trunc_div(n: int, d: int) -> int {
    if n >= 0 {
        n / d
    } else {
        -((-n) / d)
    }
}

/// `c` held within `[-limit, limit]`.
pub open spec fn clamp_spec(c: int, limit: int) -> int {
    if c < -limit {
        -limit
    } else if c > limit {
        limit
    } else {
        c
    }
}

/// Divides rounding toward zero.
pub fn trunc_div_i128(n: i128, d: i128) -> (r: i128)
    requires
        d > 0,
        n > i128::MIN,
    ensures
        r == trunc_div(n as int, d as int),
{
    if n >= 0 {
        n / d
    } else {
        let m: i128 = -n;
        -(m / d)
    }
}

/// Holds `c` within `[-limit, limit]`.
pub fn clamp_i128(c: i128, limit: i128) -> (r: i128)
    requires
        limit >= 0,
    ensures
        r == clamp_spec(c as int, limit as int),
{
    if c < -limit {
        -limit
    } else if c > limit {
        limit
    } else {
        c
    }
}


/// Rounding toward zero never moves a quotient past its numerator.
pub proof fn lemma_trunc_div_bound(n: int, d: int)
    requires
        d >= 1,
    ensures
        n >= 0 ==> 0 <= trunc_div(n, d) <= n,
        n < 0 ==> n <= trunc_div(n, d) <= 0,
{
    if n >= 0 {
        vstd::arithmetic::div_mod::lemma_div_pos_is_pos(n, d);
        vstd::arithmetic::div_mod::lemma_div_nonincreasing(n, d);
    } else {
        vstd::arithmetic::div_mod::lemma_div_pos_is_pos(-n, d);
        vstd::arithmetic::div_mod::lemma_div_nonincreasing(-n, d);
    }
}


/// A product of two bounded factors is bounded by the product of the bounds.
pub proof fn lemma_mul_within(a: int, b: int, la: int, lb: int)
    requires
        -la <= a <= la,
        -lb <= b <= lb,
    ensures
        -la * lb <= a * b <= la * lb,
        0 <= a * a <= la * la,
{
    assert(-la * lb <= a * b <= la * lb) by (nonlinear_arith)
        requires -la <= a <= la, -lb <= b <= lb;
    assert(0 <= a * a <= la * la) by (nonlinear_arith)
        requires -la <= a <= la;
}

} // verus!
