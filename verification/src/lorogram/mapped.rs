//! Axes of bins over a quantity of a line of response.

use vstd::prelude::*;
use crate::units::{Length, LOR};
use crate::lorogram::axis::{
    coordinate_in_range, lemma_bin_within_range, shape_bin, shape_of, BinInterval, UniformAxis,
    MAX_BINS,
};
use crate::lorogram::projection::{
    delta_z, distance_from_z_axis, lor_in_range, spec_delta_z, spec_distance_from_z_axis,
    spec_z_of_midpoint, z_of_midpoint,
};

verus! {

/// Which quantity of a line of response an axis bins.
#[derive(Clone, Copy, Debug, PartialEq, Eq, Structural)]
pub enum Feature {
    /// Height of the midpoint.
    ZOfMidpoint,
    /// Extent in height.
    DeltaZ,
    /// Distance of the line from the z axis.
    DistanceFromZAxis,
}

/// The coordinate of `lor` on an axis that bins `map`.
pub open spec fn spec_project(map: Feature, lor: LOR) -> int {
    match map {
        Feature::ZOfMidpoint => spec_z_of_midpoint(lor),
        Feature::DeltaZ => spec_delta_z(lor),
        Feature::DistanceFromZAxis => spec_distance_from_z_axis(lor),
    }
}

/// The coordinate of `lor` on an axis that bins `map`.
pub fn project(map: Feature, lor: &LOR) -> (coordinate: i64)
    requires
        lor_in_range(*lor),
    ensures
        coordinate == spec_project(map, *lor),
        coordinate_in_range(coordinate as int),
{
    match map {
        Feature::ZOfMidpoint => z_of_midpoint(lor),
        Feature::DeltaZ => delta_z(lor),
        Feature::DistanceFromZAxis => distance_from_z_axis(lor),
    }
}

/// An axis of bins together with the quantity of a line of response that it
/// bins.
pub struct MappedAxis {
    axis: UniformAxis,
    map: Feature,
}

impl MappedAxis {
    /// The bins of the axis.
    pub closed spec fn binning(&self) -> UniformAxis {
        self.axis
    }

    /// The quantity that the axis bins.
    pub closed spec fn feature(&self) -> Feature {
        self.map
    }

    /// The bins of the axis are well-formed.
    pub open spec fn wf(&self) -> bool {
        self.binning().wf()
    }

    /// Number of bins, the underflow and overflow bins included.
    pub open spec fn spec_num_bins(&self) -> int {
        self.binning().nbins() + 2
    }

    /// The bin of `lor`.
    pub open spec fn spec_index(&self, lor: LOR) -> int {
        self.binning().spec_index(spec_project(self.feature(), lor))
    }

    /// An axis that bins `map` into the bins of `axis`.
    pub fn new(axis: UniformAxis, map: Feature) -> (mapped: Self)
        ensures
            mapped.binning() == axis,
            mapped.feature() == map,
    {
        MappedAxis { axis, map }
    }

    /// The bin of `lor`.
    pub fn index(&self, lor: &LOR) -> (bin: Option<usize>)
        requires
            self.wf(),
            lor_in_range(*lor),
        ensures
            bin == Some(self.spec_index(*lor) as usize),
            0 <= self.spec_index(*lor) < self.spec_num_bins(),
    {
        self.axis.index(project(self.map, lor))
    }

    /// The coordinate of `lor` on the outside axis behind the bins, on which
    /// it falls in the bin that this axis gives the line.
    pub(crate) fn scaled_coordinate(&self, lor: &LOR) -> (fine: i64)
        requires
            self.wf(),
            lor_in_range(*lor),
        ensures
            shape_bin(self.binning().shape(), fine) == self.spec_index(*lor),
    {
        self.axis.scaled(project(self.map, lor))
    }

    /// Another outside axis of the same shape as the one behind the bins.
    pub(crate) fn twin(&self) -> (axis: ndhistogram::axis::Uniform<i64>)
        requires
            self.wf(),
        ensures
            shape_of(axis) == self.binning().shape(),
    {
        self.axis.twin()
    }

    /// The stretch of coordinates of bin `index`.
    pub fn bin(&self, index: usize) -> (interval: Option<BinInterval>)
        requires
            self.wf(),
        ensures
            interval == self.binning().spec_bin(index as int),
    {
        self.axis.bin(index)
    }

    /// Number of bins, the underflow and overflow bins included.
    pub fn num_bins(&self) -> (bins: usize)
        requires
            self.wf(),
        ensures
            bins == self.spec_num_bins(),
            3 <= bins <= MAX_BINS + 2,
    {
        proof {
            self.axis.lemma_wf();
        }
        self.axis.num_bins()
    }
}

/// An axis of `nbins` equal bins of the height of the midpoint, between
/// `min` and `max`.
pub fn axis_z(nbins: usize, min: Length, max: Length) -> (mapped: MappedAxis)
    requires
        1 <= nbins <= MAX_BINS,
        min != max,
        coordinate_in_range(min as int),
        coordinate_in_range(max as int),
    ensures
        mapped.wf(),
        mapped.feature() == Feature::ZOfMidpoint,
        mapped.binning().nbins() == nbins,
        mapped.binning().spec_low() == if min < max { min } else { max },
        mapped.binning().spec_high() == if min < max { max } else { min },
{
    MappedAxis { axis: UniformAxis::new(nbins, min, max), map: Feature::ZOfMidpoint }
}

/// An axis of `nbins` equal bins of the extent in height, between 0 and
/// `max`.
pub fn axis_dz(nbins: usize, max: Length) -> (mapped: MappedAxis)
    requires
        1 <= nbins <= MAX_BINS,
        max != 0,
        coordinate_in_range(max as int),
    ensures
        mapped.wf(),
        mapped.feature() == Feature::DeltaZ,
        mapped.binning().nbins() == nbins,
        mapped.binning().spec_low() == if 0 < max { 0 } else { max },
        mapped.binning().spec_high() == if 0 < max { max } else { 0 },
{
    MappedAxis { axis: UniformAxis::new(nbins, 0, max), map: Feature::DeltaZ }
}

/// An axis of `nbins` equal bins of the distance from the z axis, between 0
/// and `max`.
pub fn axis_r(nbins: usize, max: Length) -> (mapped: MappedAxis)
    requires
        1 <= nbins <= MAX_BINS,
        max != 0,
        coordinate_in_range(max as int),
    ensures
        mapped.wf(),
        mapped.feature() == Feature::DistanceFromZAxis,
        mapped.binning().nbins() == nbins,
        mapped.binning().spec_low() == if 0 < max { 0 } else { max },
        mapped.binning().spec_high() == if 0 < max { max } else { 0 },
{
    MappedAxis { axis: UniformAxis::new(nbins, 0, max), map: Feature::DistanceFromZAxis }
}

impl MappedAxis {
    /// A line in range falls in one of the bins of the axis.
    pub proof fn lemma_index_in_range(&self, lor: LOR)
        requires
            self.wf(),
            lor_in_range(lor),
        ensures
            0 <= self.spec_index(lor) < self.spec_num_bins(),
    {
        let x = spec_project(self.feature(), lor);
        self.binning().lemma_wf();
        if self.binning().spec_low() <= x < self.binning().spec_high() {
            lemma_bin_within_range(
                x,
                self.binning().nbins(),
                self.binning().spec_low(),
                self.binning().spec_high(),
            );
        }
    }
}

} // verus!
