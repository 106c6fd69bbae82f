//! The quantities of a line of response that the axes bin, computed exactly.

use vstd::prelude::*;
use crate::units::{point_in_range, Length, LOR, MAX_LENGTH};

verus! {

/// Whether both end points of `lor` are within `MAX_LENGTH` of the origin on
/// every axis.
pub open spec fn lor_in_range(lor: LOR) -> bool {
    point_in_range(lor.p1) && point_in_range(lor.p2)
}

/// Whether both end points of `lor` are in range; see `lor_in_range`.
pub fn is_lor_in_range(lor: &LOR) -> (ok: bool)
    ensures
        ok == lor_in_range(*lor),
{
    coordinate_fits(lor.p1.x) && coordinate_fits(lor.p1.y) && coordinate_fits(lor.p1.z)
        && coordinate_fits(lor.p2.x) && coordinate_fits(lor.p2.y) && coordinate_fits(lor.p2.z)
}

/// Whether `x` is within `MAX_LENGTH` of zero.
fn coordinate_fits(x: Length) -> (ok: bool)
    ensures
        ok == (-MAX_LENGTH <= x <= MAX_LENGTH),
{
    -MAX_LENGTH <= x && x <= MAX_LENGTH
}

/// Height of the midpoint of the line, rounded down to a whole unit.
pub open spec fn spec_z_of_midpoint(lor: LOR) -> int {
    (lor.p1.z + lor.p2.z) / 2
}

/// Extent of the line in height.
pub open spec fn spec_delta_z(lor: LOR) -> int {
    if lor.p1.z >= lor.p2.z {
        lor.p1.z - lor.p2.z
    } else {
        lor.p2.z - lor.p1.z
    }
}

/// Twice the area of the triangle that the transverse projection of the line
/// spans with the origin, signed.
pub open spec fn transverse_cross(lor: LOR) -> int {
    (lor.p2.x - lor.p1.x) * lor.p1.y - (lor.p2.y - lor.p1.y) * lor.p1.x
}

/// Square of the length of the transverse projection of the line.
pub open spec fn transverse_square(lor: LOR) -> int {
    (lor.p2.x - lor.p1.x) * (lor.p2.x - lor.p1.x) + (lor.p2.y - lor.p1.y) * (lor.p2.y
        - lor.p1.y)
}

/// Whether `r` is the distance from the z axis of the straight line through
/// the two end points, rounded down to a whole unit. For a line parallel to
/// the z axis that distance is the distance of either end point from the axis;
/// otherwise it is `|cross| / sqrt(square)`.
pub open spec fn is_distance_from_z_axis(r: int, lor: LOR) -> bool {
    let cross = transverse_cross(lor);
    let square = transverse_square(lor);
    if square == 0 {
        let from_axis = lor.p1.x * lor.p1.x + lor.p1.y * lor.p1.y;
        0 <= r && r * r <= from_axis < (r + 1) * (r + 1)
    } else {
        0 <= r && r * r * square <= cross * cross < (r + 1) * (r + 1) * square
    }
}

/// Distance from the z axis of the straight line through the two end points,
/// rounded down to a whole unit.
pub open spec fn spec_distance_from_z_axis(lor: LOR) -> int {
    choose|r: int| is_distance_from_z_axis(r, lor)
}

/// Whether `r` is the square root of `x` rounded down.
pub open spec fn is_floor_sqrt(r: int, x: int) -> bool {
    0 <= r && r * r <= x < (r + 1) * (r + 1)
}

/// Only one whole number is the rounded-down quotient of a root.
proof fn lemma_scaled_root_unique(r1: int, r2: int, c2: int, q: int)
    by (nonlinear_arith)
    requires
        q > 0,
        0 <= r1 && r1 * r1 * q <= c2 < (r1 + 1) * (r1 + 1) * q,
        0 <= r2 && r2 * r2 * q <= c2 < (r2 + 1) * (r2 + 1) * q,
    ensures
        r1 == r2,
{
    if r1 < r2 {
        assert((r1 + 1) * (r1 + 1) <= r2 * r2);
        assert((r1 + 1) * (r1 + 1) * q <= r2 * r2 * q);
    } else if r2 < r1 {
        assert((r2 + 1) * (r2 + 1) <= r1 * r1);
        assert((r2 + 1) * (r2 + 1) * q <= r1 * r1 * q);
    }
}

/// The square root of `x`, rounded down.
fn floor_sqrt(x: u128) -> (r: u128)
    requires
        x < 0x4000_0000_0000_0000_0000_0000_0000_0000,
    ensures
        is_floor_sqrt(r as int, x as int),
        r < 0x8000_0000_0000_0000,
{
    let mut lo: u128 = 0;
    let mut hi: u128 = 0x8000_0000_0000_0000;
    assert(0x8000_0000_0000_0000 * 0x8000_0000_0000_0000
        == 0x4000_0000_0000_0000_0000_0000_0000_0000) by (nonlinear_arith);
    while hi - lo > 1
        invariant
            lo < hi <= 0x8000_0000_0000_0000,
            lo * lo <= x < hi * hi,
        decreases hi - lo,
    {
        let mid = lo + (hi - lo) / 2;
        assert(mid * mid < 0x8000_0000_0000_0000 * 0x8000_0000_0000_0000) by (nonlinear_arith)
            requires
                0 <= mid < 0x8000_0000_0000_0000,
        ;
        if mid * mid <= x {
            lo = mid;
        } else {
            hi = mid;
        }
    }
    lo
}

/// Height of the midpoint of the line, rounded down to a whole unit.
pub fn z_of_midpoint(lor: &LOR) -> (z: Length)
    requires
        lor_in_range(*lor),
    ensures
        z == spec_z_of_midpoint(*lor),
        -MAX_LENGTH <= z <= MAX_LENGTH,
{
    let sum = lor.p1.z + lor.p2.z;
    if sum >= 0 {
        sum / 2
    } else {
        -((1 - sum) / 2)
    }
}

/// Extent of the line in height.
pub fn delta_z(lor: &LOR) -> (dz: Length)
    requires
        lor_in_range(*lor),
    ensures
        dz == spec_delta_z(*lor),
        0 <= dz <= 2 * MAX_LENGTH,
{
    if lor.p1.z >= lor.p2.z {
        lor.p1.z - lor.p2.z
    } else {
        lor.p2.z - lor.p1.z
    }
}

/// Distance from the z axis of the straight line through the two end points,
/// rounded down to a whole unit.
pub fn distance_from_z_axis(lor: &LOR) -> (r: Length)
    requires
        lor_in_range(*lor),
    ensures
        is_distance_from_z_axis(r as int, *lor),
        r == spec_distance_from_z_axis(*lor),
        0 <= r <= 2 * MAX_LENGTH,
{
    let dx: i128 = lor.p2.x as i128 - lor.p1.x as i128;
    let dy: i128 = lor.p2.y as i128 - lor.p1.y as i128;
    let x1: i128 = lor.p1.x as i128;
    let y1: i128 = lor.p1.y as i128;
    assert(-0x2000_0000_0000_0000 <= dx * y1 <= 0x2000_0000_0000_0000 && -0x2000_0000_0000_0000
        <= dy * x1 <= 0x2000_0000_0000_0000 && 0 <= dx * dx <= 0x4000_0000_0000_0000 && 0 <= dy
        * dy <= 0x4000_0000_0000_0000 && 0 <= x1 * x1 <= 0x1000_0000_0000_0000 && 0 <= y1 * y1
        <= 0x1000_0000_0000_0000) by (nonlinear_arith)
        requires
            -0x8000_0000 <= dx <= 0x8000_0000,
            -0x8000_0000 <= dy <= 0x8000_0000,
            -0x4000_0000 <= x1 <= 0x4000_0000,
            -0x4000_0000 <= y1 <= 0x4000_0000,
    ;
    let cross: i128 = dx * y1 - dy * x1;
    let square: u128 = (dx * dx + dy * dy) as u128;
    let from_axis: u128 = (x1 * x1 + y1 * y1) as u128;
    if square == 0 {
        let r = floor_sqrt(from_axis);
        assert(r <= 0x8000_0000) by (nonlinear_arith)
            requires
                r * r <= from_axis <= 0x2000_0000_0000_0000,
        ;
        proof {
            assert(r * r * 1 == r * r && (r + 1) * (r + 1) * 1 == (r + 1) * (r + 1))
                by (nonlinear_arith);
            assert(is_distance_from_z_axis(r as int, *lor));
            let other = spec_distance_from_z_axis(*lor);
            assert(other * other * 1 == other * other && (other + 1) * (other + 1) * 1 == (other
                + 1) * (other + 1)) by (nonlinear_arith);
            lemma_scaled_root_unique(other, r as int, from_axis as int, 1);
        }
        r as i64
    } else {
        let magnitude: u128 = if cross >= 0 {
            cross as u128
        } else {
            (-cross) as u128
        };
        assert(magnitude * magnitude == cross * cross && magnitude * magnitude
            <= 0x4000_0000_0000_0000 * 0x4000_0000_0000_0000) by (nonlinear_arith)
            requires
                magnitude == cross || magnitude == -cross,
                0 <= magnitude <= 0x4000_0000_0000_0000,
        ;
        let c2: u128 = magnitude * magnitude;
        let quotient = c2 / square;
        let r = floor_sqrt(quotient);
        proof {
            lemma_root_of_quotient(r as int, c2 as int, square as int);
            lemma_lagrange(dx as int, dy as int, x1 as int, y1 as int);
            assert(r <= 0x8000_0000) by (nonlinear_arith)
                requires
                    r * r * square <= c2 <= square * from_axis,
                    square > 0,
                    from_axis <= 0x2000_0000_0000_0000,
                    r >= 0,
            ;
            assert(is_distance_from_z_axis(r as int, *lor));
            lemma_scaled_root_unique(
                spec_distance_from_z_axis(*lor),
                r as int,
                c2 as int,
                square as int,
            );
        }
        r as i64
    }
}

/// The root of a rounded-down quotient is the rounded-down quotient of the
/// root.
proof fn lemma_root_of_quotient(r: int, c2: int, q: int)
    by (nonlinear_arith)
    requires
        q > 0,
        c2 >= 0,
        0 <= r && r * r <= c2 / q < (r + 1) * (r + 1),
    ensures
        r * r * q <= c2 < (r + 1) * (r + 1) * q,
{
    let k = c2 / q;
    assert(k * q <= c2 < (k + 1) * q);
    assert(r * r * q <= k * q);
    assert((k + 1) * q <= (r + 1) * (r + 1) * q);
}

/// The square of a cross product is at most the product of the squares.
proof fn lemma_lagrange(dx: int, dy: int, x: int, y: int)
    ensures
        (dx * y - dy * x) * (dx * y - dy * x) <= (dx * dx + dy * dy) * (x * x + y * y),
{
    let (a, b, c, d) = (dx * x, dy * y, dx * y, dy * x);
    assert(c * d == a * b) by (nonlinear_arith)
        requires
            a == dx * x,
            b == dy * y,
            c == dx * y,
            d == dy * x,
    ;
    assert((dx * dx) * (x * x) == a * a) by (nonlinear_arith)
        requires
            a == dx * x,
    ;
    assert((dx * dx) * (y * y) == c * c) by (nonlinear_arith)
        requires
            c == dx * y,
    ;
    assert((dy * dy) * (x * x) == d * d) by (nonlinear_arith)
        requires
            d == dy * x,
    ;
    assert((dy * dy) * (y * y) == b * b) by (nonlinear_arith)
        requires
            b == dy * y,
    ;
    let (p, q, u, v) = (dx * dx, dy * dy, x * x, y * y);
    assert((p + q) * (u + v) == p * u + p * v + q * u + q * v) by (nonlinear_arith);
    assert((c - d) * (c - d) == c * c - 2 * (c * d) + d * d) by (nonlinear_arith);
    assert((a + b) * (a + b) == a * a + 2 * (a * b) + b * b) by (nonlinear_arith);
    assert((a + b) * (a + b) >= 0) by (nonlinear_arith);
}

} // verus!
