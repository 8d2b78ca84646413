//! Integer helpers: clamping into machine ranges, whole square roots, the
//! distance between two positions, and the test of whether two positions are
//! within reach of each other.

use crate::geometry::Coords;
use vstd::prelude::*;

verus! {

/// The value of `v` pulled into the range of `i32`.
pub open spec fn clamp_i32(v: int) -> int {
    if v < i32::MIN {
        i32::MIN as int
    } else if v > i32::MAX {
        i32::MAX as int
    } else {
        v
    }
}

/// `clamp_i32` on a 64-bit value.
pub fn saturate_i32(v: i64) -> (r: i32)
    ensures
        r == clamp_i32(v as int),
{
    if v < i32::MIN as i64 {
        i32::MIN
    } else if v > i32::MAX as i64 {
        i32::MAX
    } else {
        v as i32
    }
}

/// A product is no larger in size than the product of its factors' bounds.
pub proof fn lemma_product_bounded(a: int, b: int, m: int)
    by (nonlinear_arith)
    requires
        -m <= a <= m,
        -m <= b <= m,
    ensures
        -(m * m) <= a * b <= m * m,
{
}

/// The whole part of the square root of `n`.
pub open spec fn isqrt(n: nat) -> nat
    decreases n,
{
    if n == 0 {
        0
    } else {
        let r = isqrt((n - 1) as nat);
        if (r + 1) * (r + 1) <= n {
            r + 1
        } else {
            r
        }
    }
}

/// `isqrt(n)` is the largest number whose square does not exceed `n`.
pub proof fn lemma_isqrt_bounds(n: nat)
    ensures
        isqrt(n) * isqrt(n) <= n < (isqrt(n) + 1) * (isqrt(n) + 1),
    decreases n,
{
    if n > 0 {
        let r = isqrt((n - 1) as nat);
        lemma_isqrt_bounds((n - 1) as nat);
        assert((r + 1 + 1) * (r + 1 + 1) > (r + 1) * (r + 1)) by (nonlinear_arith);
    } else {
        assert(isqrt(0) == 0);
        assert(0 * 0 == 0 && (0 + 1) * (0 + 1) == 1) by (nonlinear_arith);
    }
}

/// Only one number lies that close under the root of `n`: a number that is
/// not negative, whose square does not exceed `n` while the square of the
/// next number does, is the whole root of `n`.
pub proof fn lemma_isqrt_unique(n: int, r: int)
    requires
        0 <= r,
        r * r <= n < (r + 1) * (r + 1),
    ensures
        r == isqrt(n as nat),
{
    let q = isqrt(n as nat) as int;
    lemma_isqrt_bounds(n as nat);
    assert(r == q) by (nonlinear_arith)
        requires
            0 <= r,
            0 <= q,
            0 <= n,
            r * r <= n < (r + 1) * (r + 1),
            q * q <= n < (q + 1) * (q + 1),
    {
        if r < q {
            assert((r + 1) * (r + 1) <= q * q);
        } else if q < r {
            assert((q + 1) * (q + 1) <= r * r);
        }
    }
}

/// How far apart `a` and `b` lie on one axis.
pub open spec fn span(a: int, b: int) -> int {
    if a >= b {
        a - b
    } else {
        b - a
    }
}

/// The square of the separation of `c1` and `c2`: the squares of their
/// spans on both axes, added up.
pub open spec fn separation_sq(c1: Coords, c2: Coords) -> int {
    span(c1.x as int, c2.x as int) * span(c1.x as int, c2.x as int) + span(c1.y as int, c2.y as int) * span(
        c1.y as int,
        c2.y as int,
    )
}

/// The distance between `c1` and `c2`: the whole part of their separation.
pub open spec fn dist_spec(c1: Coords, c2: Coords) -> int {
    isqrt(separation_sq(c1, c2) as nat) as int
}

/// Whether `c1` and `c2` are no further apart than `reach`. This goes by the
/// separation itself, not by its whole part: two positions whose separation
/// is four and a half are not within four of each other.
pub open spec fn within_spec(c1: Coords, c2: Coords, reach: int) -> bool {
    0 <= reach && separation_sq(c1, c2) <= reach * reach
}

/// A square is not negative, and of two numbers that are not negative the
/// larger has the larger square.
pub proof fn lemma_squares(a: int, b: int)
    by (nonlinear_arith)
    ensures
        0 <= a * a,
        0 <= a <= b ==> a * a <= b * b,
        0 <= a < b ==> a * a < b * b,
{
}

/// The whole root of a square is the number that was squared.
pub proof fn lemma_isqrt_of_square(a: nat)
    ensures
        isqrt(a * a) == a,
{
    lemma_squares(a as int, a as int + 1);
    lemma_isqrt_unique((a * a) as int, a as int);
}

/// The separation of two positions is the same both ways, and so is their
/// distance. Neither is negative, and only a position itself is within
/// nothing of it.
pub proof fn lemma_dist_symmetric(c1: Coords, c2: Coords)
    ensures
        separation_sq(c1, c2) == separation_sq(c2, c1),
        separation_sq(c1, c2) >= 0,
        dist_spec(c1, c2) == dist_spec(c2, c1),
        dist_spec(c1, c2) >= 0,
        within_spec(c1, c2, 0) <==> c1 == c2,
{
    let dx = span(c1.x as int, c2.x as int);
    let dy = span(c1.y as int, c2.y as int);
    lemma_squares(dx, 0);
    lemma_squares(dy, 0);
    assert(dx * dx + dy * dy <= 0 <==> dx == 0 && dy == 0) by (nonlinear_arith)
        requires
            0 <= dx,
            0 <= dy,
    ;
}

/// How the distance goes with the separation. The distance is at most `k`
/// exactly where the square of the separation is below the square of
/// `k + 1`. So positions within `k` of each other have a distance of at most
/// `k`, and positions with a distance below `k` are within `k` of each
/// other.
pub proof fn lemma_dist_within(c1: Coords, c2: Coords, k: int)
    requires
        0 <= k,
    ensures
        dist_spec(c1, c2) <= k <==> separation_sq(c1, c2) < (k + 1) * (k + 1),
        within_spec(c1, c2, k) ==> dist_spec(c1, c2) <= k,
        dist_spec(c1, c2) < k ==> within_spec(c1, c2, k),
{
    lemma_dist_symmetric(c1, c2);
    let s = separation_sq(c1, c2);
    let d = isqrt(s as nat) as int;
    lemma_isqrt_bounds(s as nat);
    lemma_squares(d + 1, k + 1);
    lemma_squares(k + 1, d);
    lemma_squares(k, k + 1);
    lemma_squares(d + 1, k);
}

/// The distance between two positions is no less than their span on either
/// axis and no more than the two spans together. Along one axis it is the
/// span.
pub proof fn lemma_dist_spans_axes(c1: Coords, c2: Coords)
    ensures
        dist_spec(c1, c2) >= span(c1.x as int, c2.x as int),
        dist_spec(c1, c2) >= span(c1.y as int, c2.y as int),
        dist_spec(c1, c2) <= span(c1.x as int, c2.x as int) + span(c1.y as int, c2.y as int),
        c1.y == c2.y ==> dist_spec(c1, c2) == span(c1.x as int, c2.x as int),
        c1.x == c2.x ==> dist_spec(c1, c2) == span(c1.y as int, c2.y as int),
{
    lemma_dist_symmetric(c1, c2);
    let s = separation_sq(c1, c2);
    let d = isqrt(s as nat) as int;
    lemma_isqrt_bounds(s as nat);
    let dx = span(c1.x as int, c2.x as int);
    let dy = span(c1.y as int, c2.y as int);
    lemma_squares(dx, 0);
    lemma_squares(dy, 0);
    lemma_squares(d + 1, dx);
    lemma_squares(d + 1, dy);
    assert(dx * dx + dy * dy <= (dx + dy) * (dx + dy)) by (nonlinear_arith)
        requires
            0 <= dx,
            0 <= dy,
    ;
    lemma_squares(dx + dy + 1, d);
    lemma_squares(dx + dy, dx + dy + 1);
    if c1.y == c2.y {
        assert(dy * dy == 0);
        lemma_isqrt_of_square(dx as nat);
    }
    if c1.x == c2.x {
        assert(dx * dx == 0);
        lemma_isqrt_of_square(dy as nat);
    }
}

/// The distance between `c1` and `c2`, stopped at the largest number that
/// the result can hold: positions at opposite ends of the range are further
/// apart than that. The distance is the same both ways; it is no less than
/// the span on either axis, and along one axis it is the span.
pub fn dist(c1: &Coords, c2: &Coords) -> (d: i32)
    ensures
        d == (if dist_spec(*c1, *c2) <= i32::MAX {
            dist_spec(*c1, *c2)
        } else {
            i32::MAX as int
        }),
        0 <= d,
        dist_spec(*c1, *c2) == dist_spec(*c2, *c1),
        dist_spec(*c1, *c2) >= span(c1.x as int, c2.x as int),
        dist_spec(*c1, *c2) >= span(c1.y as int, c2.y as int),
        dist_spec(*c1, *c2) <= span(c1.x as int, c2.x as int) + span(c1.y as int, c2.y as int),
        c1.y == c2.y ==> dist_spec(*c1, *c2) == span(c1.x as int, c2.x as int),
        c1.x == c2.x ==> dist_spec(*c1, *c2) == span(c1.y as int, c2.y as int),
{
    let dx: i128 = if c1.x >= c2.x {
        c1.x as i128 - c2.x as i128
    } else {
        c2.x as i128 - c1.x as i128
    };
    let dy: i128 = if c1.y >= c2.y {
        c1.y as i128 - c2.y as i128
    } else {
        c2.y as i128 - c1.y as i128
    };
    proof {
        lemma_product_bounded(dx as int, dx as int, 0x1_0000_0000);
        lemma_product_bounded(dy as int, dy as int, 0x1_0000_0000);
        lemma_dist_symmetric(*c1, *c2);
        lemma_dist_spans_axes(*c1, *c2);
        lemma_isqrt_bounds(separation_sq(*c1, *c2) as nat);
    }
    let s: i128 = dx * dx + dy * dy;
    let top: i128 = i32::MAX as i128;
    let ghost root = dist_spec(*c1, *c2);
    if s >= top * top {
        proof {
            lemma_squares(root + 1, top as int);
        }
        return i32::MAX;
    }
    let mut lo: i128 = 0;
    let mut hi: i128 = top;
    while hi - lo > 1
        invariant
            0 <= lo < hi <= top,
            top == i32::MAX,
            lo * lo <= s < hi * hi,
        decreases hi - lo,
    {
        let mid: i128 = lo + (hi - lo) / 2;
        proof {
            lemma_product_bounded(mid as int, mid as int, 0x8000_0000);
        }
        if mid * mid <= s {
            lo = mid;
        } else {
            hi = mid;
        }
    }
    proof {
        lemma_isqrt_unique(s as int, lo as int);
    }
    lo as i32
}

/// Whether `c1` and `c2` are no further apart than `reach`, whichever of
/// them is asked about first.
pub fn within(c1: &Coords, c2: &Coords, reach: i32) -> (b: bool)
    ensures
        b == within_spec(*c1, *c2, reach as int),
        b == within_spec(*c2, *c1, reach as int),
{
    if reach < 0 {
        return false;
    }
    let dx: i128 = if c1.x >= c2.x {
        c1.x as i128 - c2.x as i128
    } else {
        c2.x as i128 - c1.x as i128
    };
    let dy: i128 = if c1.y >= c2.y {
        c1.y as i128 - c2.y as i128
    } else {
        c2.y as i128 - c1.y as i128
    };
    proof {
        lemma_product_bounded(dx as int, dx as int, 0x1_0000_0000);
        lemma_product_bounded(dy as int, dy as int, 0x1_0000_0000);
        lemma_product_bounded(reach as int, reach as int, 0x8000_0000);
    }
    dx * dx + dy * dy <= (reach as i128) * (reach as i128)
}

} // verus!
