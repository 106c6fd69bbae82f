//! Histograms of the geometry of lines of response.
//!
//! The axes of these histograms are not raw coordinates but quantities
//! derived from the two end points of a line: the height of its midpoint,
//! its extent in height, and its distance from the z axis. A wrap-around
//! axis bins a quantity that the caller computes, such as the direction of
//! the line. The counts are kept by histograms of `ndhistogram`.

pub mod axis;
pub mod counts;
pub mod cyclic;
pub mod histogram;
pub mod mapped;
pub mod projection;
pub mod scattergram;
pub mod store;

pub use cyclic::{CyclicLorogram, LorAxC};
pub use histogram::LorHistogram;
pub use mapped::{axis_dz, axis_r, axis_z, Feature, MappedAxis};
pub use projection::{delta_z, distance_from_z_axis, is_lor_in_range, lor_in_range, z_of_midpoint};
pub use scattergram::{fill_scattergram, Scattergram, SCATTER_THRESHOLD};

use vstd::prelude::*;
use crate::units::{Length, Ratio, VecOf, LOR};

verus! {

/// Distinguish between true, scatter and random prompt signals.
#[derive(Clone, Copy, Debug, PartialEq, Eq, Structural)]
pub enum Prompt {
    True,
    Scatter,
    Random,
}

/// A line of response between two points given by their coordinates, with no
/// time difference and no correction.
pub fn mk_lor(ends: ((Length, Length, Length), (Length, Length, Length))) -> (lor: LOR)
    ensures
        lor.p1 == (VecOf { x: ends.0.0, y: ends.0.1, z: ends.0.2 }),
        lor.p2 == (VecOf { x: ends.1.0, y: ends.1.1, z: ends.1.2 }),
        lor.dt == 0,
        lor.additive_correction == (Ratio { num: 1, den: 1 }),
{
    let ((x1, y1, z1), (x2, y2, z2)) = ends;
    LOR {
        p1: VecOf { x: x1, y: y1, z: z1 },
        p2: VecOf { x: x2, y: y2, z: z2 },
        dt: 0,
        additive_correction: Ratio::one(),
    }
}

/// A histogram that counts lines of response.
pub trait Lorogram {
    /// The histogram is well-formed.
    spec fn inv(&self) -> bool;

    /// The bin in which `lor` is counted.
    spec fn bin_of(&self, lor: LOR) -> int;

    /// Number of lines counted in `bin`.
    spec fn count(&self, bin: int) -> nat;

    /// Counts `lor` in its bin and leaves every other count, and the bins
    /// themselves, as they were.
    fn fill(&mut self, lor: &LOR)
        requires
            old(self).inv(),
            lor_in_range(*lor),
            old(self).count(old(self).bin_of(*lor)) < usize::MAX,
        ensures
            final(self).inv(),
            forall|l: LOR| #[trigger] final(self).bin_of(l) == old(self).bin_of(l),
            forall|b: int| #[trigger]
                final(self).count(b) == old(self).count(b) + if b == old(self).bin_of(*lor) {
                    1nat
                } else {
                    0nat
                },
    ;

    /// Number of lines counted in the bin of `lor`.
    fn value(&self, lor: &LOR) -> (n: usize)
        requires
            self.inv(),
            lor_in_range(*lor),
        ensures
            n == self.count(self.bin_of(*lor)),
    ;
}

} // verus!
