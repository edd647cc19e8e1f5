//! Bringing a stick's deflection into the unit circle.

use crate::actions::UNIT;
use crate::vector::Vector;
use vstd::prelude::*;

verus! {

/// Whether `r` is the whole part of the square root of `n`.
pub open spec fn is_root(r: int, n: int) -> bool {
    0 <= r && r * r <= n < (r + 1) * (r + 1)
}

/// The whole part of the square root of `n`.
pub open spec fn root_of(n: int) -> int {
    choose|r: int| is_root(r, n)
}

/// A component held to the range from minus one to one.
pub open spec fn bounded(c: int) -> int {
    if c < -UNIT {
        -UNIT as int
    } else if c > UNIT {
        UNIT as int
    } else {
        c
    }
}

/// A component of a vector of length `length` scaled down so that the
/// vector comes to lie within the unit circle: times one, over the next
/// whole number above the length, rounded toward zero.
pub open spec fn shrunk(c: int, length: int) -> int {
    if c >= 0 {
        (c * UNIT) / (length + 1)
    } else {
        -(((-c) * UNIT) / (length + 1))
    }
}

/// The deflection `v` brought into the unit circle. Each component is first
/// held to the range from minus one to one. A vector that then lies within
/// the circle is left as it is, the zero vector too; a longer one is scaled
/// down to the circle, keeping its direction.
pub open spec fn clamped_deflection(v: Vector) -> Vector {
    let x = bounded(v.x as int);
    let y = bounded(v.y as int);
    if x * x + y * y <= UNIT * UNIT {
        Vector { x: x as i64, y: y as i64 }
    } else {
        let length = root_of(x * x + y * y);
        Vector { x: shrunk(x, length) as i64, y: shrunk(y, length) as i64 }
    }
}

/// Whether `v` lies within the unit circle, its edge included.
pub open spec fn within_unit(v: Vector) -> bool {
    v.x * v.x + v.y * v.y <= UNIT * UNIT
}

/// Among numbers that are not negative, the greater has the greater square.
pub proof fn lemma_squares(a: int, b: int)
    requires
        0 <= a,
        0 <= b,
    ensures
        a <= b ==> a * a <= b * b,
        a < b ==> a * a < b * b,
{
    assert(a <= b ==> a * a <= b * b) by (nonlinear_arith)
        requires
            0 <= a,
            0 <= b,
    ;
    assert(a < b ==> a * a < b * b) by (nonlinear_arith)
        requires
            0 <= a,
            0 <= b,
    ;
}

/// A number has one square root.
pub proof fn lemma_root_is_unique(r: int, s: int, n: int)
    requires
        is_root(r, n),
        is_root(s, n),
    ensures
        r == s,
{
    if r < s {
        lemma_squares(r + 1, s);
    } else if s < r {
        lemma_squares(s + 1, r);
    }
}

/// Finds the whole part of the square root of a number below two to the
/// seventieth.
pub fn whole_root(n: u128) -> (r: u64)
    requires
        n < 0x40_0000_0000_0000_0000,
    ensures
        is_root(r as int, n as int),
        r == root_of(n as int),
        r < 0x8_0000_0000,
{
    let mut low: u64 = 0;
    let mut high: u64 = 0x8_0000_0000;
    assert(0x8_0000_0000int * 0x8_0000_0000int == 0x40_0000_0000_0000_0000) by (nonlinear_arith);
    while high - low > 1
        invariant
            low < high <= 0x8_0000_0000,
            low * low <= n < high * high,
        decreases high - low,
    {
        let middle: u64 = low + (high - low) / 2;
        proof {
            lemma_squares(middle as int, 0x8_0000_0000);
            assert(0x8_0000_0000int * 0x8_0000_0000int == 0x40_0000_0000_0000_0000)
                by (nonlinear_arith);
        }
        if (middle as u128) * (middle as u128) <= n {
            low = middle;
        } else {
            high = middle;
        }
    }
    proof {
        assert(is_root(low as int, n as int));
        lemma_root_is_unique(low as int, root_of(n as int), n as int);
    }
    low
}

/// The size of one component after scaling down.
fn shrink(size: u64, length: u64) -> (s: u64)
    requires
        size <= UNIT,
        length <= 2_000_000,
    ensures
        s == (size * UNIT) / (length + 1),
        s * (length + 1) <= size * UNIT,
        (s + 1) * (length + 1) > size * UNIT,
        s <= UNIT * UNIT,
        length >= UNIT ==> s <= UNIT,
{
    proof {
        assert(0 <= size * UNIT <= UNIT * UNIT) by (nonlinear_arith)
            requires
                0 <= size <= UNIT,
        ;
        assert(UNIT * UNIT == 1_000_000_000_000) by (nonlinear_arith);
        let a = size * UNIT;
        let d = length + 1;
        assert((a / d) * d <= a && a / d <= a && (a / d + 1) * d > a) by (nonlinear_arith)
            requires
                0 <= a,
                1 <= d,
        ;
        if length >= UNIT {
            assert(a / d <= UNIT) by (nonlinear_arith)
                requires
                    (a / d) * d <= a,
                    a <= UNIT * UNIT,
                    d > UNIT,
                    UNIT > 0,
                    a / d >= 0,
            ;
        }
    }
    size * 1_000_000 / (length + 1)
}

fn size_of(c: i64) -> (size: u64)
    requires
        -UNIT <= c <= UNIT,
    ensures
        size == if c >= 0 {
            c as int
        } else {
            -c
        },
        size <= UNIT,
        size * size == c * c,
{
    let size: u64 = if c >= 0 {
        c as u64
    } else {
        (-c) as u64
    };
    assert(size * size == c * c) by (nonlinear_arith)
        requires
            size == c || size == -c,
    ;
    size
}

fn bound(c: i64) -> (b: i64)
    ensures
        b == bounded(c as int),
{
    if c < -UNIT {
        -UNIT
    } else if c > UNIT {
        UNIT
    } else {
        c
    }
}

/// The scaled vector lies within the circle: each component times the
/// divisor is at most the old component times one, and the divisor exceeds
/// the old length.
proof fn lemma_shrunk_within(sx: int, sy: int, ax: int, ay: int, d: int)
    requires
        0 <= sx,
        0 <= sy,
        0 <= ax,
        0 <= ay,
        1 <= d,
        sx * d <= ax * UNIT,
        sy * d <= ay * UNIT,
        ax * ax + ay * ay < d * d,
    ensures
        sx * sx + sy * sy <= UNIT * UNIT,
{
    let u = UNIT as int;
    lemma_squares(sx * d, ax * u);
    lemma_squares(sy * d, ay * u);
    assert((sx * d) * (sx * d) == (sx * sx) * (d * d)) by (nonlinear_arith);
    assert((sy * d) * (sy * d) == (sy * sy) * (d * d)) by (nonlinear_arith);
    assert((ax * u) * (ax * u) == (ax * ax) * (u * u)) by (nonlinear_arith);
    assert((ay * u) * (ay * u) == (ay * ay) * (u * u)) by (nonlinear_arith);
    let s2 = sx * sx + sy * sy;
    let a2 = ax * ax + ay * ay;
    let d2 = d * d;
    let u2 = u * u;
    assert(s2 * d2 == (sx * sx) * d2 + (sy * sy) * d2) by (nonlinear_arith)
        requires
            s2 == sx * sx + sy * sy,
    ;
    assert(a2 * u2 == (ax * ax) * u2 + (ay * ay) * u2) by (nonlinear_arith)
        requires
            a2 == ax * ax + ay * ay,
    ;
    assert(s2 * d2 <= a2 * u2);
    assert(a2 * u2 < d2 * u2) by (nonlinear_arith)
        requires
            a2 < d2,
            u2 > 0,
    ;
    assert(s2 <= u2) by (nonlinear_arith)
        requires
            s2 * d2 < d2 * u2,
            d2 > 0,
    ;
}

/// The scaled vector has length one within four millionths: each
/// component lost less than one by rounding, and the divisor exceeds the
/// old length by at most one.
proof fn lemma_shrunk_near_unit(sx: int, sy: int, ax: int, ay: int, r: int)
    requires
        0 <= sx <= UNIT,
        0 <= sy <= UNIT,
        0 <= ax,
        0 <= ay,
        UNIT <= r,
        r * r <= ax * ax + ay * ay,
        (sx + 1) * (r + 1) > ax * UNIT,
        (sy + 1) * (r + 1) > ay * UNIT,
    ensures
        sx * sx + sy * sy >= (UNIT - 4) * (UNIT - 4),
{
    let u = UNIT as int;
    let d = r + 1;
    let tx = sx + 1;
    let ty = sy + 1;
    assert(0 <= ax * u) by (nonlinear_arith)
        requires
            0 <= ax,
            u > 0,
    ;
    assert(0 <= ay * u) by (nonlinear_arith)
        requires
            0 <= ay,
            u > 0,
    ;
    assert(0 <= tx * d && 0 <= ty * d) by (nonlinear_arith)
        requires
            0 < tx,
            0 < ty,
            0 < d,
    ;
    lemma_squares(ax * u, tx * d);
    lemma_squares(ay * u, ty * d);
    assert((tx * d) * (tx * d) == (tx * tx) * (d * d)) by (nonlinear_arith);
    assert((ty * d) * (ty * d) == (ty * ty) * (d * d)) by (nonlinear_arith);
    assert((ax * u) * (ax * u) == (ax * ax) * (u * u)) by (nonlinear_arith);
    assert((ay * u) * (ay * u) == (ay * ay) * (u * u)) by (nonlinear_arith);
    let p = tx * tx + ty * ty;
    let a2 = ax * ax + ay * ay;
    let d2 = d * d;
    let u2 = u * u;
    let r2 = r * r;
    assert(p * d2 == (tx * tx) * d2 + (ty * ty) * d2) by (nonlinear_arith)
        requires
            p == tx * tx + ty * ty,
    ;
    assert(a2 * u2 == (ax * ax) * u2 + (ay * ay) * u2) by (nonlinear_arith)
        requires
            a2 == ax * ax + ay * ay,
    ;
    assert(p * d2 > a2 * u2);
    assert(r2 * u2 <= a2 * u2) by (nonlinear_arith)
        requires
            r2 <= a2,
            u2 >= 0,
    ;
    // If the sum of the squares were no more than the square of one less
    // than one, the product would fall short.
    let w = u - 1;
    assert(0 <= w * d <= r * u) by (nonlinear_arith)
        requires
            w == u - 1,
            d == r + 1,
            u <= r,
            1 <= u,
    ;
    lemma_squares(w * d, r * u);
    assert((w * d) * (w * d) == (w * w) * d2) by (nonlinear_arith)
        requires
            d2 == d * d,
    ;
    assert((r * u) * (r * u) == r2 * u2) by (nonlinear_arith)
        requires
            r2 == r * r,
            u2 == u * u,
    ;
    assert(d2 > 0) by (nonlinear_arith)
        requires
            d2 == d * d,
            d >= 1,
    ;
    assert(p > w * w) by (nonlinear_arith)
        requires
            p * d2 > r2 * u2,
            (w * w) * d2 <= r2 * u2,
            d2 > 0,
    ;
    assert(p == sx * sx + sy * sy + 2 * sx + 2 * sy + 2) by (nonlinear_arith)
        requires
            p == (sx + 1) * (sx + 1) + (sy + 1) * (sy + 1),
    ;
    assert(w * w == 999_998_000_001) by (nonlinear_arith)
        requires
            w == 999_999,
    ;
    assert((UNIT - 4) * (UNIT - 4) == 999_992_000_016) by (nonlinear_arith);
}

/// Brings a deflection into the unit circle. What lies within it stays as
/// it is, so nothing is divided by a length of zero; what lies beyond it
/// comes out with a length of one, short of it by no more than four
/// millionths.
#[verifier::when_used_as_spec(clamped_deflection)]
pub fn clamp_deflection(v: Vector) -> (out: Vector)
    ensures
        out == clamped_deflection(v),
        within_unit(out),
        within_unit(v) ==> out == v,
        !within_unit(v) ==> (UNIT - 4) * (UNIT - 4) <= out.norm_squared(),
{
    let x = bound(v.x);
    let y = bound(v.y);
    let ax = size_of(x);
    let ay = size_of(y);
    proof {
        lemma_squares(ax as int, UNIT as int);
        lemma_squares(ay as int, UNIT as int);
        assert(UNIT * UNIT == 1_000_000_000_000) by (nonlinear_arith);
        if within_unit(v) {
            lemma_squares(0, if v.x >= 0 { v.x as int } else { -v.x });
            lemma_squares(0, if v.y >= 0 { v.y as int } else { -v.y });
            assert(v.x * v.x >= 0 && v.y * v.y >= 0) by (nonlinear_arith);
            if v.x > UNIT || v.x < -UNIT {
                lemma_squares(UNIT as int, if v.x >= 0 { v.x as int } else { -v.x });
                assert(v.x * v.x > UNIT * UNIT) by (nonlinear_arith)
                    requires
                        v.x > UNIT || v.x < -UNIT,
                ;
            }
            if v.y > UNIT || v.y < -UNIT {
                assert(v.y * v.y > UNIT * UNIT) by (nonlinear_arith)
                    requires
                        v.y > UNIT || v.y < -UNIT,
                ;
            }
        }
    }
    let squared: u64 = ax * ax + ay * ay;
    if squared <= 1_000_000_000_000 {
        Vector { x, y }
    } else {
        let length = whole_root(squared as u128);
        proof {
            assert(2_000_001int * 2_000_001int > 2_000_000_000_000) by (nonlinear_arith);
            if length > 2_000_000 {
                lemma_squares(2_000_001, length as int);
            }
        }
        let sx = shrink(ax, length);
        let sy = shrink(ay, length);
        proof {
            lemma_shrunk_within(
                sx as int,
                sy as int,
                ax as int,
                ay as int,
                length as int + 1,
            );
            if length < UNIT {
                lemma_squares(length as int + 1, UNIT as int);
            }
            lemma_shrunk_near_unit(sx as int, sy as int, ax as int, ay as int, length as int);
            assert(sx * sx == (sx as int) * (sx as int));
            assert((-(sx as int)) * (-(sx as int)) == sx * sx) by (nonlinear_arith);
            assert((-(sy as int)) * (-(sy as int)) == sy * sy) by (nonlinear_arith);
        }
        Vector {
            x: if x >= 0 {
                sx as i64
            } else {
                -(sx as i64)
            },
            y: if y >= 0 {
                sy as i64
            } else {
                -(sy as i64)
            },
        }
    }
}

} // verus!
