//! Squared distances between points and integer square roots.

use vstd::prelude::*;

verus! {

/// One more than the largest square root that `isqrt` can return.
pub const ROOT_LIMIT: u128 = 0x1_0000_0000_0000_0000u128;

/// The square of an integer.
pub open spec fn square(v: int) -> int {
    v * v
}

/// The squared Euclidean distance between two points.
pub open spec fn dist_sq_of(a: [i32; 3], b: [i32; 3]) -> int {
    square(a[0] - b[0]) + square(a[1] - b[1]) + square(a[2] - b[2])
}

/// Whether `r` is the square root of `n`, rounded down.
pub open spec fn is_floor_sqrt(n: int, r: int) -> bool {
    0 <= r && r * r <= n && n < (r + 1) * (r + 1)
}

/// The square root of `n`, rounded down.
pub open spec fn floor_sqrt(n: int) -> int {
    choose|r: int| is_floor_sqrt(n, r)
}

/// A square is never negative, and hides the sign of what was squared.
pub proof fn square_facts(v: int)
    ensures
        square(v) >= 0,
        square(v) == square(-v),
        -0x1_0000_0000 <= v <= 0x1_0000_0000 ==> square(v) <= 0x1_0000_0000_0000_0000,
{
    assert(v * v >= 0 && v * v == (-v) * (-v)) by (nonlinear_arith);
    assert(-0x1_0000_0000 <= v <= 0x1_0000_0000 ==> v * v <= 0x1_0000_0000_0000_0000)
        by (nonlinear_arith);
}

/// Squaring keeps the order of numbers that are not negative.
pub proof fn square_order(a: int, b: int)
    requires
        0 <= a,
        0 <= b,
    ensures
        a <= b <==> a * a <= b * b,
        a < b <==> a * a < b * b,
{
    assert(a <= b ==> a * a <= b * b) by (nonlinear_arith)
        requires 0 <= a, 0 <= b;
    assert(a < b ==> a * a < b * b) by (nonlinear_arith)
        requires 0 <= a, 0 <= b;
    assert(b <= a ==> b * b <= a * a) by (nonlinear_arith)
        requires 0 <= a, 0 <= b;
    assert(b < a ==> b * b < a * a) by (nonlinear_arith)
        requires 0 <= a, 0 <= b;
}

/// At most one number is the rounded-down square root of `n`.
pub proof fn floor_sqrt_unique(n: int, r: int)
    requires
        is_floor_sqrt(n, r),
    ensures
        floor_sqrt(n) == r,
{
    let c = floor_sqrt(n);
    assert(is_floor_sqrt(n, c));
    square_order(c + 1, r);
    square_order(r + 1, c);
}

/// Every number that is not negative has a rounded-down square root.
pub proof fn floor_sqrt_exists(n: int)
    requires
        0 <= n,
    ensures
        is_floor_sqrt(n, floor_sqrt(n)),
    decreases n,
{
    if n == 0 {
        assert(is_floor_sqrt(0, 0));
    } else {
        floor_sqrt_exists(n - 1);
        let r = floor_sqrt(n - 1);
        assert((r + 2) * (r + 2) > (r + 1) * (r + 1)) by (nonlinear_arith)
            requires
                0 <= r,
        ;
        if (r + 1) * (r + 1) <= n {
            assert(is_floor_sqrt(n, r + 1));
        } else {
            assert(is_floor_sqrt(n, r));
        }
    }
}

/// Only zero has the rounded-down square root zero.
pub proof fn floor_sqrt_positive(n: int, r: int)
    requires
        is_floor_sqrt(n, r),
        n >= 1,
    ensures
        r >= 1,
{
    assert(r == 0 ==> (r + 1) * (r + 1) == 1) by (nonlinear_arith);
}

/// The rounded-down square root grows with its argument.
pub proof fn floor_sqrt_monotone(m: int, n: int, p: int, q: int)
    requires
        is_floor_sqrt(m, p),
        is_floor_sqrt(n, q),
        m <= n,
    ensures
        p <= q,
{
    square_order(q + 1, p);
}

/// The distance from `a` to `b` is the distance from `b` to `a`, and it is
/// zero only between a point and itself.
pub proof fn dist_sq_facts(a: [i32; 3], b: [i32; 3])
    ensures
        dist_sq_of(a, b) == dist_sq_of(b, a),
        0 <= dist_sq_of(a, b) <= 3 * 0x1_0000_0000_0000_0000,
        dist_sq_of(a, b) == 0 <==> (a[0] == b[0] && a[1] == b[1] && a[2] == b[2]),
{
    square_facts(a[0] - b[0]);
    square_facts(a[1] - b[1]);
    square_facts(a[2] - b[2]);
    assert forall|v: int| v != 0 implies #[trigger] square(v) > 0 by {
        assert(v != 0 ==> v * v > 0) by (nonlinear_arith);
    }
    assert(square(0) == 0);
}

/// The inner product of two vectors.
pub open spec fn dot(a0: int, a1: int, a2: int, b0: int, b1: int, b2: int) -> int {
    a0 * b0 + a1 * b1 + a2 * b2
}

/// The square of an inner product is at most the product of the squared
/// lengths.
pub proof fn dot_bound(a0: int, a1: int, a2: int, b0: int, b1: int, b2: int)
    ensures
        square(dot(a0, a1, a2, b0, b1, b2)) <= (square(a0) + square(a1) + square(a2)) * (square(
            b0,
        ) + square(b1) + square(b2)),
{
    let (p0, p1, p2) = (a0 * b0, a1 * b1, a2 * b2);
    let (x0, x1, x2) = (square(a0), square(a1), square(a2));
    let (y0, y1, y2) = (square(b0), square(b1), square(b2));
    cross_square(a0, a1, b0, b1);
    cross_square(a0, a2, b0, b2);
    cross_square(a1, a2, b1, b2);
    assert((p0 + p1 + p2) * (p0 + p1 + p2) == p0 * p0 + p1 * p1 + p2 * p2 + 2 * (p0 * p1) + 2 * (p0
        * p2) + 2 * (p1 * p2)) by (nonlinear_arith);
    assert((x0 + x1 + x2) * (y0 + y1 + y2) == x0 * y0 + x0 * y1 + x0 * y2 + x1 * y0 + x1 * y1 + x1
        * y2 + x2 * y0 + x2 * y1 + x2 * y2) by (nonlinear_arith);
    square_facts(a0 * b1 - a1 * b0);
    square_facts(a0 * b2 - a2 * b0);
    square_facts(a1 * b2 - a2 * b1);
}

/// The two-dimensional case, as an identity: the squared lengths multiplied,
/// less the squared inner product, are the square of the cross term.
proof fn cross_square(a0: int, a1: int, b0: int, b1: int)
    ensures
        square(a0) * square(b1) + square(a1) * square(b0) - 2 * ((a0 * b0) * (a1 * b1)) == square(
            a0 * b1 - a1 * b0,
        ),
        square(a0) * square(b0) == (a0 * b0) * (a0 * b0),
        square(a1) * square(b1) == (a1 * b1) * (a1 * b1),
{
    let u = a0 * b1;
    let v = a1 * b0;
    assert((u - v) * (u - v) == u * u + v * v - 2 * (u * v)) by (nonlinear_arith);
    assert((a0 * a0) * (b1 * b1) == (a0 * b1) * (a0 * b1)) by (nonlinear_arith);
    assert((a1 * a1) * (b0 * b0) == (a1 * b0) * (a1 * b0)) by (nonlinear_arith);
    assert((a0 * b1) * (a1 * b0) == (a0 * b0) * (a1 * b1)) by (nonlinear_arith);
    assert((a0 * a0) * (b0 * b0) == (a0 * b0) * (a0 * b0)) by (nonlinear_arith);
    assert((a1 * a1) * (b1 * b1) == (a1 * b1) * (a1 * b1)) by (nonlinear_arith);
}

/// The squared length of a sum of two vectors.
pub proof fn square_of_sum(a0: int, a1: int, a2: int, b0: int, b1: int, b2: int)
    ensures
        square(a0 + b0) + square(a1 + b1) + square(a2 + b2) == square(a0) + square(a1) + square(a2)
            + square(b0) + square(b1) + square(b2) + 2 * dot(a0, a1, a2, b0, b1, b2),
{
    assert((a0 + b0) * (a0 + b0) == a0 * a0 + b0 * b0 + 2 * (a0 * b0)) by (nonlinear_arith);
    assert((a1 + b1) * (a1 + b1) == a1 * a1 + b1 * b1 + 2 * (a1 * b1)) by (nonlinear_arith);
    assert((a2 + b2) * (a2 + b2) == a2 * a2 + b2 * b2 + 2 * (a2 * b2)) by (nonlinear_arith);
}

/// The triangle inequality for distances that are rounded down: the way from
/// `a` to `c` is at most one step longer than the way over `b`.
pub proof fn rounded_triangle(a: [i32; 3], b: [i32; 3], c: [i32; 3], ab: int, bc: int, ac: int)
    requires
        is_floor_sqrt(dist_sq_of(a, b), ab),
        is_floor_sqrt(dist_sq_of(b, c), bc),
        is_floor_sqrt(dist_sq_of(a, c), ac),
    ensures
        ac <= ab + bc + 1,
{
    let (u0, u1, u2) = (a[0] - b[0], a[1] - b[1], a[2] - b[2]);
    let (v0, v1, v2) = (b[0] - c[0], b[1] - c[1], b[2] - c[2]);
    let s = dot(u0, u1, u2, v0, v1, v2);
    let m = dist_sq_of(a, b);
    let n = dist_sq_of(b, c);
    let p = ab + 1;
    let q = bc + 1;
    dot_bound(u0, u1, u2, v0, v1, v2);
    square_of_sum(u0, u1, u2, v0, v1, v2);
    assert(u0 + v0 == a[0] - c[0] && u1 + v1 == a[1] - c[1] && u2 + v2 == a[2] - c[2]);
    assert(dist_sq_of(a, c) == m + n + 2 * s);
    dist_sq_facts(a, b);
    dist_sq_facts(b, c);
    assert(s * s <= m * n);
    assert(s < p * q) by (nonlinear_arith)
        requires
            s * s <= m * n,
            0 <= m < p * p,
            0 <= n < q * q,
            0 < p,
            0 < q,
    ;
    assert((p + q) * (p + q) == p * p + q * q + 2 * (p * q)) by (nonlinear_arith);
    assert(ac * ac < (p + q) * (p + q));
    square_order(p + q, ac);
}

/// Computes the squared Euclidean distance between `a` and `b`.
pub fn dist_sq(a: [i32; 3], b: [i32; 3]) -> (d: u128)
    ensures
        d == dist_sq_of(a, b),
{
    proof {
        dist_sq_facts(a, b);
        square_facts(a[0] - b[0]);
        square_facts(a[1] - b[1]);
        square_facts(a[2] - b[2]);
    }
    let dx: i128 = a[0] as i128 - b[0] as i128;
    let dy: i128 = a[1] as i128 - b[1] as i128;
    let dz: i128 = a[2] as i128 - b[2] as i128;
    let sx: i128 = dx * dx;
    let sy: i128 = dy * dy;
    let sz: i128 = dz * dz;
    (sx + sy + sz) as u128
}

/// Computes the square root of `n`, rounded down.
pub fn isqrt(n: u128) -> (r: u64)
    ensures
        is_floor_sqrt(n as int, r as int),
        r == floor_sqrt(n as int),
{
    let mut lo: u128 = 0;
    let mut hi: u128 = ROOT_LIMIT;
    assert(0x1_0000_0000_0000_0000 * 0x1_0000_0000_0000_0000 > n) by (nonlinear_arith)
        requires n <= u128::MAX;
    while hi - lo > 1
        invariant
            lo < hi <= ROOT_LIMIT,
            lo * lo <= n,
            n < hi * hi,
        decreases hi - lo,
    {
        let mid: u128 = lo + (hi - lo) / 2;
        assert(mid * mid <= u128::MAX) by (nonlinear_arith)
            requires mid < 0x1_0000_0000_0000_0000;
        if mid * mid <= n {
            lo = mid;
        } else {
            hi = mid;
        }
    }
    proof {
        floor_sqrt_unique(n as int, lo as int);
    }
    lo as u64
}

} // verus!
