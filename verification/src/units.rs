//! Scalar kinds and three-component tuples shared by the whole library.
//!
//! Every quantity is an exact integer. A `Length` counts whole length units
//! (the caller picks the unit, for instance the micrometre), a `Time` counts
//! whole time units, and a `Ratio` is an exact fraction. Where the library
//! rounds, it rounds down to a whole unit and says so.

use vstd::prelude::*;

verus! {

/// A length, in whole length units.
pub type Length = i64;

/// A time, in whole time units.
pub type Time = i64;

/// Largest magnitude of a coordinate or half-width that the geometry accepts.
/// It keeps every product formed during a traversal within 128 bits.
pub const MAX_LENGTH: Length = 0x4000_0000;

/// Largest number of voxels along one axis.
pub const MAX_VOXELS: usize = 2048;

/// An exact fraction `num / den`.
#[derive(Clone, Copy, Debug, PartialEq, Eq, Structural)]
pub struct Ratio {
    pub num: i128,
    pub den: i128,
}

impl Ratio {
    /// The fraction `1 / 1`.
    pub fn one() -> (r: Ratio)
        ensures
            r == (Ratio { num: 1, den: 1 }),
    {
        Ratio { num: 1, den: 1 }
    }

    /// The fraction `0 / 1`.
    pub fn zero() -> (r: Ratio)
        ensures
            r == (Ratio { num: 0, den: 1 }),
    {
        Ratio { num: 0, den: 1 }
    }
}

/// Three values, one per axis.
#[derive(Clone, Copy, Debug, PartialEq, Eq)]
pub struct VecOf<T> {
    pub x: T,
    pub y: T,
    pub z: T,
}

impl<T> VecOf<T> {
    /// Builds the tuple from its three components.
    pub fn new(x: T, y: T, z: T) -> (v: Self)
        ensures
            v == (VecOf { x, y, z }),
    {
        VecOf { x, y, z }
    }
}

/// A displacement.
pub type Vector = VecOf<Length>;

/// A position; the origin is the centre of the field of view.
pub type Point = VecOf<Length>;

/// A voxel index; voxel `(0, 0, 0)` is the corner with the most negative
/// coordinates.
pub type Index = VecOf<usize>;

/// Number of voxels along each axis.
pub type BoxDim = VecOf<usize>;

/// Whether every coordinate of `p` is within `MAX_LENGTH` of zero.
pub open spec fn point_in_range(p: Point) -> bool {
    &&& -MAX_LENGTH <= p.x <= MAX_LENGTH
    &&& -MAX_LENGTH <= p.y <= MAX_LENGTH
    &&& -MAX_LENGTH <= p.z <= MAX_LENGTH
}

/// A line of response: the segment between two coincident detections.
#[derive(Clone, Copy, Debug, PartialEq, Eq)]
pub struct LOR {
    pub p1: Point,
    pub p2: Point,
    /// Detection time at `p1` minus detection time at `p2`.
    pub dt: Time,
    /// Per-line multiplicative correction; `1 / 1` when there is none.
    pub additive_correction: Ratio,
}

} // verus!
