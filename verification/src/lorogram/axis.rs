//! Axes with equal-sized bins over whole-number coordinates.

use vstd::prelude::*;
use vstd::arithmetic::div_mod::{
    lemma_div_multiples_vanish_quotient, lemma_mod_add_multiples_vanish,
    lemma_mod_multiples_vanish, lemma_mod_sub_multiples_vanish, lemma_small_mod,
};
use ndhistogram::axis::{Axis, Uniform};
use crate::units::Ratio;

verus! {

/// `Uniform` of `ndhistogram`: an axis of equal bins, held as an opaque
/// value.
#[verifier::external_type_specification]
#[verifier::external_body]
#[verifier::reject_recursive_types(T)]
pub struct ExUniform<T>(Uniform<T>);

/// Number of bins of an `ndhistogram` uniform axis between its two edges,
/// the underflow and overflow bins not counted.
pub uninterp spec fn uniform_num(axis: Uniform<i64>) -> usize;

/// Low edge of an `ndhistogram` uniform axis.
pub uninterp spec fn uniform_low(axis: Uniform<i64>) -> i64;

/// High edge of an `ndhistogram` uniform axis.
pub uninterp spec fn uniform_high(axis: Uniform<i64>) -> i64;

/// Bin width of an `ndhistogram` uniform axis.
pub uninterp spec fn uniform_step(axis: Uniform<i64>) -> i64;

/// `Uniform::with_step_size` of `ndhistogram`: an axis of `num` bins of width
/// `step` starting at `low`. The call panics when `num` is 0 or `step` is not
/// positive, and computes the high edge `num * step + low` in `i64`; the
/// requirements leave those inputs out.
#[verifier::external_body]
pub(crate) fn uniform_with_step_size(num: usize, low: i64, step: i64) -> (axis: Uniform<i64>)
    requires
        num > 0,
        step > 0,
        num * step <= i64::MAX,
        low + num * step <= i64::MAX,
    ensures
        uniform_num(axis) == num,
        uniform_low(axis) == low,
        uniform_high(axis) == low + num * step,
        uniform_step(axis) == step,
{
    Uniform::with_step_size(num, low, step)
}

/// What makes a uniform axis: the number of its bins between the edges, its
/// low edge, its high edge and the width of a bin.
pub open spec fn shape_of(axis: Uniform<i64>) -> (usize, i64, i64, i64) {
    (uniform_num(axis), uniform_low(axis), uniform_high(axis), uniform_step(axis))
}

/// The bin of `coordinate` on a uniform axis of the given shape: bin 0 below
/// the low edge, the bin after the last from the high edge on, and in between
/// the number of whole steps above the low edge, plus one.
pub open spec fn shape_bin(shape: (usize, i64, i64, i64), coordinate: i64) -> int {
    if coordinate < shape.1 {
        0
    } else if coordinate >= shape.2 {
        shape.0 + 1
    } else {
        (coordinate - shape.1) / (shape.3 as int) + 1
    }
}

/// Whether a lookup on an axis of the given shape stays within the machine's
/// numbers and within the bins of the axis: the step is positive, the bins
/// between the edges fill the distance between them, that distance fits an
/// `i64`, and the number of bins, with the two beyond the edges, a `usize`.
pub open spec fn shape_ok(shape: (usize, i64, i64, i64)) -> bool {
    &&& shape.3 > 0
    &&& shape.2 == shape.1 + shape.0 * shape.3
    &&& shape.2 - shape.1 <= i64::MAX
    &&& shape.0 + 2 <= usize::MAX
}

/// The bin of `coordinate` on an `ndhistogram` uniform axis.
pub open spec fn uniform_bin(axis: Uniform<i64>, coordinate: i64) -> int {
    shape_bin(shape_of(axis), coordinate)
}

/// `Axis::index` of an `ndhistogram` uniform axis: the bin of the coordinate,
/// see `uniform_bin`. The call subtracts the low edge from the coordinate in
/// `i64`, divides by the step, and adds one to the number of bins in `usize`.
#[verifier::external_body]
pub(crate) fn uniform_index(axis: &Uniform<i64>, coordinate: i64) -> (bin: Option<usize>)
    requires
        uniform_step(*axis) > 0,
        uniform_high(*axis) - uniform_low(*axis) <= i64::MAX,
        uniform_num(*axis) < usize::MAX,
    ensures
        bin == Some(uniform_bin(*axis, coordinate) as usize),
{
    axis.index(&coordinate)
}

/// Largest number of bins of an axis.
pub const MAX_BINS: usize = 0x10_0000;

/// Largest magnitude of an axis edge or of a coordinate looked up on an axis.
pub const MAX_COORDINATE: i64 = 0x100_0000_0000;

/// Whether `x` may be looked up on an axis.
pub open spec fn coordinate_in_range(x: int) -> bool {
    -MAX_COORDINATE <= x <= MAX_COORDINATE
}

/// Bin of `x` among `nbins` equal bins that divide `[low, high)`, counted
/// from 0; meant for `low <= x < high`.
pub open spec fn bin_within(x: int, nbins: int, low: int, high: int) -> int {
    ((x - low) * nbins) / (high - low)
}

/// The value of `x` brought into `[low, high)` by whole periods `high - low`.
pub open spec fn wrapped(x: int, low: int, high: int) -> int {
    low + (x - low) % (high - low)
}

/// Dividing on a finer scale gives the same whole quotient.
proof fn lemma_rescaled_quotient(a: int, scale: int, step: int, nbins: int, range: int)
    requires
        0 <= a,
        0 < scale,
        0 < step,
        0 < nbins,
        0 < range,
        step * nbins == range * scale,
    ensures
        (a * scale) / step == (a * nbins) / range,
{
    assert(0 <= a * scale && 0 <= a * nbins) by (nonlinear_arith)
        requires
            0 <= a,
            0 < scale,
            0 < nbins,
    ;
    lemma_div_multiples_vanish_quotient(nbins, a * scale, step);
    lemma_div_multiples_vanish_quotient(scale, a * nbins, range);
    assert(nbins * (a * scale) == scale * (a * nbins) && nbins * step == scale * range)
        by (nonlinear_arith)
        requires
            step * nbins == range * scale,
    ;
}

/// An axis of equal bins between two edges, with one bin for everything
/// below the low edge and one for everything from the high edge on.
///
/// With `nbins` bins between the edges the axis has `nbins + 2` bins: bin 0
/// is the underflow, bins 1 to `nbins` divide `[low, high)` equally, and bin
/// `nbins + 1` is the overflow. The bins need not be a whole number of
/// coordinate units wide.
pub struct UniformAxis {
    axis: Uniform<i64>,
    nbins: usize,
    scale: i64,
    step: i64,
    low: i64,
    high: i64,
}

impl UniformAxis {
    /// Number of bins between the two edges.
    pub closed spec fn nbins(&self) -> int {
        self.nbins as int
    }

    /// The low edge.
    pub closed spec fn spec_low(&self) -> int {
        self.low as int
    }

    /// The high edge.
    pub closed spec fn spec_high(&self) -> int {
        self.high as int
    }

    /// The axis was made by one of the constructors.
    pub closed spec fn wf(&self) -> bool {
        &&& 1 <= self.scale <= MAX_BINS
        &&& 1 <= self.nbins() <= MAX_BINS
        &&& uniform_num(self.axis) == self.nbins
        &&& uniform_step(self.axis) == self.step
        &&& uniform_low(self.axis) == self.spec_low() * self.scale
        &&& uniform_high(self.axis) == self.spec_high() * self.scale
        &&& uniform_step(self.axis) > 0
        &&& uniform_step(self.axis) * self.nbins() == (self.spec_high() - self.spec_low())
            * self.scale
        &&& self.spec_low() < self.spec_high()
        &&& coordinate_in_range(self.spec_low())
        &&& coordinate_in_range(self.spec_high())
    }

    /// The bin of coordinate `x`.
    pub open spec fn spec_index(&self, x: int) -> int {
        if x < self.spec_low() {
            0
        } else if x >= self.spec_high() {
            self.nbins() + 1
        } else {
            bin_within(x, self.nbins(), self.spec_low(), self.spec_high()) + 1
        }
    }

    /// What a well-formed axis guarantees of its parameters.
    pub proof fn lemma_wf(&self)
        requires
            self.wf(),
        ensures
            1 <= self.nbins() <= MAX_BINS,
            self.spec_low() < self.spec_high(),
            coordinate_in_range(self.spec_low()),
            coordinate_in_range(self.spec_high()),
    {
    }

    /// An axis of `nbins` equal bins over `[low, high)`; the two edges may be
    /// given in either order.
    pub fn new(nbins: usize, low: i64, high: i64) -> (axis: Self)
        requires
            1 <= nbins <= MAX_BINS,
            low != high,
            coordinate_in_range(low as int),
            coordinate_in_range(high as int),
        ensures
            axis.wf(),
            axis.nbins() == nbins,
            axis.spec_low() == if low < high { low } else { high },
            axis.spec_high() == if low < high { high } else { low },
    {
        let (low, high) = if low > high {
            (high, low)
        } else {
            (low, high)
        };
        let scale = nbins as i64;
        assert(-0x1000_0000_0000_0000 <= low * scale <= 0x1000_0000_0000_0000 && 0 < nbins * (high
            - low) <= 0x2000_0000_0000_0000 && low * scale + nbins * (high - low) == high * scale)
            by (nonlinear_arith)
            requires
                -0x100_0000_0000 <= low < high <= 0x100_0000_0000,
                1 <= nbins <= 0x10_0000,
                scale == nbins,
        ;
        let axis = uniform_with_step_size(nbins, low * scale, high - low);
        assert((high - low) * nbins == (high - low) * scale) by (nonlinear_arith)
            requires
                scale == nbins,
        ;
        UniformAxis { axis, nbins, scale, step: high - low, low, high }
    }

    /// An axis of `nbins` bins of width `step` over `[low, low + nbins * step)`.
    pub fn with_step_size(nbins: usize, low: i64, step: i64) -> (axis: Self)
        requires
            1 <= nbins <= MAX_BINS,
            step > 0,
            coordinate_in_range(low as int),
            coordinate_in_range(low + nbins * step),
        ensures
            axis.wf(),
            axis.nbins() == nbins,
            axis.spec_low() == low,
            axis.spec_high() == low + nbins * step,
    {
        assert(nbins * step >= step) by (nonlinear_arith)
            requires
                nbins >= 1,
                step > 0,
        ;
        let axis = uniform_with_step_size(nbins, low, step);
        assert(step * nbins == (low + nbins * step - low) * 1) by (nonlinear_arith);
        UniformAxis { axis, nbins, scale: 1, step, low, high: low + (nbins as i64) * step }
    }

    /// Low edge of the axis, the underflow bin not counted.
    pub fn low(&self) -> (low: i64)
        requires
            self.wf(),
        ensures
            low == self.spec_low(),
    {
        self.low
    }

    /// High edge of the axis, the overflow bin not counted.
    pub fn high(&self) -> (high: i64)
        requires
            self.wf(),
        ensures
            high == self.spec_high(),
    {
        self.high
    }

    /// The shape of the outside axis behind this one, which bins coordinates
    /// on a finer scale.
    pub closed spec fn shape(&self) -> (usize, i64, i64, i64) {
        shape_of(self.axis)
    }

    /// The outside axis behind a well-formed axis has as many bins between
    /// its edges, and lookups on it stay within the machine's numbers.
    pub proof fn lemma_shape(&self)
        requires
            self.wf(),
        ensures
            shape_ok(self.shape()),
            self.shape().0 == self.nbins(),
    {
        let (low, high, scale) = (self.spec_low(), self.spec_high(), self.scale as int);
        let (step, nbins) = (uniform_step(self.axis) as int, self.nbins());
        assert(high * scale - low * scale == (high - low) * scale && nbins * step == step * nbins
            && -0x1000_0000_0000_0000 <= low * scale < high * scale <= 0x1000_0000_0000_0000)
            by (nonlinear_arith)
            requires
                -0x100_0000_0000 <= low < high <= 0x100_0000_0000,
                1 <= scale <= 0x10_0000,
        ;
    }

    /// `coordinate` on the scale of the outside axis, on which it falls in
    /// the bin that this axis gives it.
    pub(crate) fn scaled(&self, coordinate: i64) -> (fine: i64)
        requires
            self.wf(),
            coordinate_in_range(coordinate as int),
        ensures
            shape_ok(self.shape()),
            self.shape().0 == self.nbins(),
            shape_bin(self.shape(), fine) == self.spec_index(coordinate as int),
            0 <= self.spec_index(coordinate as int) <= self.nbins() + 1,
    {
        let ghost (x, low, high) = (coordinate as int, self.spec_low(), self.spec_high());
        let ghost scale = self.scale as int;
        assert(-0x1000_0000_0000_0000 <= coordinate * self.scale <= 0x1000_0000_0000_0000
            && -0x1000_0000_0000_0000 <= low * scale < high * scale <= 0x1000_0000_0000_0000 && (x
            < low <==> x * scale < low * scale) && (x >= high <==> x * scale >= high * scale) && x
            * scale - low * scale == (x - low) * scale) by (nonlinear_arith)
            requires
                -0x100_0000_0000 <= coordinate <= 0x100_0000_0000,
                -0x100_0000_0000 <= low < high <= 0x100_0000_0000,
                1 <= self.scale <= 0x10_0000,
                scale == self.scale,
                x == coordinate,
        ;
        proof {
            let (step, nbins) = (uniform_step(self.axis) as int, self.nbins());
            assert(high * scale - low * scale == (high - low) * scale && nbins * step == step
                * nbins) by (nonlinear_arith);
            if low <= x < high {
                lemma_rescaled_quotient(x - low, scale, step, nbins, high - low);
                lemma_bin_within_range(x, nbins, low, high);
            }
        }
        coordinate * self.scale
    }

    /// Another outside axis of the same shape as the one behind this axis.
    pub(crate) fn twin(&self) -> (axis: Uniform<i64>)
        requires
            self.wf(),
        ensures
            shape_of(axis) == self.shape(),
    {
        let ghost (low, high, scale) = (self.low as int, self.high as int, self.scale as int);
        assert(-0x1000_0000_0000_0000 <= low * scale < high * scale <= 0x1000_0000_0000_0000
            && high * scale - low * scale == (high - low) * scale) by (nonlinear_arith)
            requires
                -0x100_0000_0000 <= low < high <= 0x100_0000_0000,
                1 <= scale <= 0x10_0000,
        ;
        assert(self.nbins * self.step == self.step * self.nbins) by (nonlinear_arith);
        uniform_with_step_size(self.nbins, self.low * self.scale, self.step)
    }

    /// The bin of `coordinate`.
    pub fn index(&self, coordinate: i64) -> (bin: Option<usize>)
        requires
            self.wf(),
            coordinate_in_range(coordinate as int),
        ensures
            bin == Some(self.spec_index(coordinate as int) as usize),
            0 <= self.spec_index(coordinate as int) <= self.nbins() + 1,
    {
        let fine = self.scaled(coordinate);
        uniform_index(&self.axis, fine)
    }

    /// Number of bins, the underflow and overflow bins included.
    pub fn num_bins(&self) -> (bins: usize)
        requires
            self.wf(),
        ensures
            bins == self.nbins() + 2,
    {
        self.nbins + 2
    }
}

/// A coordinate between the edges falls in one of the `nbins` bins.
pub proof fn lemma_bin_within_range(x: int, nbins: int, low: int, high: int)
    requires
        low <= x < high,
        0 < nbins,
    ensures
        0 <= bin_within(x, nbins, low, high) < nbins,
{
    let (a, range) = (x - low, high - low);
    assert(0 <= a * nbins < range * nbins) by (nonlinear_arith)
        requires
            0 <= a < range,
            0 < nbins,
    ;
    assert((a * nbins) / range < nbins && (a * nbins) / range >= 0) by (nonlinear_arith)
        requires
            0 <= a * nbins < range * nbins,
            0 < range,
    ;
}


/// A wrap-around axis with equal-sized bins.
///
/// An axis of `nbins` equal bins over `[low, high)`. A coordinate outside
/// this interval is brought into it by whole periods `high - low`, so there
/// are no underflow or overflow bins and the axis has exactly `nbins` bins.
pub struct Cyclic {
    axis: UniformAxis,
}

impl Cyclic {
    /// Number of bins.
    pub closed spec fn nbins(&self) -> int {
        self.axis.nbins()
    }

    /// The low edge, wrap-around not counted.
    pub closed spec fn spec_low(&self) -> int {
        self.axis.spec_low()
    }

    /// The high edge, wrap-around not counted.
    pub closed spec fn spec_high(&self) -> int {
        self.axis.spec_high()
    }

    /// The axis was made by one of the constructors.
    pub closed spec fn wf(&self) -> bool {
        self.axis.wf()
    }

    /// The bin of coordinate `x`: that of `x` wrapped into `[low, high)`.
    pub open spec fn spec_index(&self, x: int) -> int {
        bin_within(
            wrapped(x, self.spec_low(), self.spec_high()),
            self.nbins(),
            self.spec_low(),
            self.spec_high(),
        )
    }

    /// What a well-formed axis guarantees of its parameters.
    pub proof fn lemma_wf(&self)
        requires
            self.wf(),
        ensures
            1 <= self.nbins() <= MAX_BINS,
            self.spec_low() < self.spec_high(),
            coordinate_in_range(self.spec_low()),
            coordinate_in_range(self.spec_high()),
    {
        self.axis.lemma_wf();
    }

    /// A wrap-around axis of `nbins` equal bins over `[low, high)`; the two
    /// edges may be given in either order.
    pub fn new(nbins: usize, low: i64, high: i64) -> (axis: Self)
        requires
            1 <= nbins <= MAX_BINS,
            low != high,
            coordinate_in_range(low as int),
            coordinate_in_range(high as int),
        ensures
            axis.wf(),
            axis.nbins() == nbins,
            axis.spec_low() == if low < high { low } else { high },
            axis.spec_high() == if low < high { high } else { low },
    {
        Self { axis: UniformAxis::new(nbins, low, high) }
    }

    /// A wrap-around axis of `nbins` bins of width `step` over
    /// `[low, low + nbins * step)`.
    pub fn with_step_size(nbins: usize, low: i64, step: i64) -> (axis: Self)
        requires
            1 <= nbins <= MAX_BINS,
            step > 0,
            coordinate_in_range(low as int),
            coordinate_in_range(low + nbins * step),
        ensures
            axis.wf(),
            axis.nbins() == nbins,
            axis.spec_low() == low,
            axis.spec_high() == low + nbins * step,
    {
        Self { axis: UniformAxis::with_step_size(nbins, low, step) }
    }

    /// Low edge of the axis, wrap-around not counted.
    pub fn low(&self) -> (low: i64)
        requires
            self.wf(),
        ensures
            low == self.spec_low(),
    {
        self.axis.low()
    }

    /// High edge of the axis, wrap-around not counted.
    pub fn high(&self) -> (high: i64)
        requires
            self.wf(),
        ensures
            high == self.spec_high(),
    {
        self.axis.high()
    }

    /// The bin of `coordinate`, counted from 0.
    pub fn index(&self, coordinate: i64) -> (bin: Option<usize>)
        requires
            self.wf(),
            coordinate_in_range(coordinate as int),
        ensures
            bin == Some(self.spec_index(coordinate as int) as usize),
            0 <= self.spec_index(coordinate as int) < self.nbins(),
    {
        let (mut x, hi, lo) = (coordinate, self.axis.high(), self.axis.low());
        proof {
            self.axis.lemma_wf();
        }
        let range = hi - lo;
        while x >= hi
            invariant
                lo < hi,
                range == hi - lo,
                coordinate_in_range(lo as int),
                coordinate_in_range(hi as int),
                range > 0,
                lo <= x <= coordinate || x == coordinate,
                (x - lo) % (range as int) == (coordinate - lo) % (range as int),
            decreases x - lo,
        {
            proof {
                lemma_mod_sub_multiples_vanish(x - lo, range as int);
            }
            x = x - range;
        }
        while x < lo
            invariant
                lo < hi,
                range == hi - lo,
                coordinate_in_range(lo as int),
                coordinate_in_range(hi as int),
                range > 0,
                x < hi,
                coordinate_in_range(x as int),
                (x - lo) % (range as int) == (coordinate - lo) % (range as int),
            decreases hi - x,
        {
            proof {
                lemma_mod_add_multiples_vanish(x - lo, range as int);
            }
            x = x + range;
        }
        proof {
            lemma_small_mod((x - lo) as nat, range as nat);
            lemma_bin_within_range(x as int, self.nbins(), lo as int, hi as int);
        }
        match self.axis.index(x) {
            Some(n) => Some(n - 1),
            None => None,
        }
    }

    /// Number of bins.
    pub fn num_bins(&self) -> (bins: usize)
        requires
            self.wf(),
        ensures
            bins == self.nbins(),
    {
        proof {
            self.axis.lemma_wf();
        }
        self.axis.num_bins() - 2
    }

    /// The bin numbers, in order.
    pub fn indices(&self) -> (all: Vec<usize>)
        requires
            self.wf(),
        ensures
            all@.len() == self.nbins(),
            forall|i: int| 0 <= i < all@.len() ==> all@[i] == i,
    {
        let bins = self.num_bins();
        let mut all: Vec<usize> = Vec::new();
        let mut i: usize = 0;
        while i < bins
            invariant
                i <= bins,
                all@.len() == i,
                forall|j: int| 0 <= j < all@.len() ==> all@[j] == j,
            decreases bins - i,
        {
            all.push(i);
            i += 1;
        }
        all
    }

    /// Coordinates that differ by whole periods fall in the same bin.
    pub proof fn lemma_periodic(&self, x: int, k: int)
        requires
            self.wf(),
        ensures
            self.spec_index(x + k * (self.spec_high() - self.spec_low())) == self.spec_index(x),
    {
        self.lemma_wf();
        let (low, range) = (self.spec_low(), self.spec_high() - self.spec_low());
        lemma_mod_multiples_vanish(k, x - low, range);
        assert(range * k + (x - low) == x + k * range - low) by (nonlinear_arith);
    }
}


/// The stretch of coordinates that fall in one bin of an axis.
#[derive(Clone, Copy, Debug, PartialEq, Eq)]
pub enum BinInterval {
    /// Everything below `end`.
    Underflow { end: Ratio },
    /// Everything from `start` on.
    Overflow { start: Ratio },
    /// Everything from `start` on and below `end`.
    Bin { start: Ratio, end: Ratio },
}

/// Edge number `i` of `nbins` equal bins over `[low, high)`: the low edge is
/// number 0, the high edge is number `nbins`.
pub open spec fn bin_edge(i: int, nbins: int, low: int, high: int) -> Ratio {
    Ratio { num: (low * nbins + i * (high - low)) as i128, den: nbins as i128 }
}

/// Whether the fraction `edge` is no more than the whole number `x`.
pub open spec fn edge_at_most(edge: Ratio, x: int) -> bool {
    edge.num <= x * edge.den
}

/// A coordinate between the edges of an axis lies in the bin it is counted
/// in: not below the lower edge of that bin, and below its upper edge.
pub proof fn lemma_coordinate_in_its_bin(x: int, nbins: int, low: int, high: int)
    requires
        low <= x < high,
        0 < nbins,
        coordinate_in_range(low),
        coordinate_in_range(high),
        nbins <= MAX_BINS,
    ensures
        edge_at_most(bin_edge(bin_within(x, nbins, low, high), nbins, low, high), x),
        !edge_at_most(bin_edge(bin_within(x, nbins, low, high) + 1, nbins, low, high), x),
{
    let (a, range) = (x - low, high - low);
    let bin = bin_within(x, nbins, low, high);
    lemma_bin_within_range(x, nbins, low, high);
    vstd::arithmetic::div_mod::lemma_fundamental_div_mod(a * nbins, range);
    assert(0 <= (a * nbins) % range < range) by (nonlinear_arith)
        requires
            range > 0,
    ;
    assert(low * nbins + a * nbins == x * nbins && range * bin == bin * range && (bin + 1) * range
        == bin * range + range) by (nonlinear_arith)
        requires
            a == x - low,
    ;
    lemma_edge_fits(bin, nbins, low, high);
    lemma_edge_fits(bin + 1, nbins, low, high);
}

/// The edges of an axis fit the fraction that holds them.
proof fn lemma_edge_fits(i: int, nbins: int, low: int, high: int)
    requires
        0 <= i <= nbins,
        0 < nbins <= MAX_BINS,
        low < high,
        coordinate_in_range(low),
        coordinate_in_range(high),
    ensures
        -0x1000_0000_0000_0000 <= low * nbins + i * (high - low) <= 0x1000_0000_0000_0000,
        low * nbins <= low * nbins + i * (high - low) <= high * nbins,
{
    let range = high - low;
    assert(-0x1000_0000_0000_0000 <= low * nbins && high * nbins <= 0x1000_0000_0000_0000 && 0
        <= i * range <= nbins * range && low * nbins + nbins * range == high * nbins)
        by (nonlinear_arith)
        requires
            0 <= i <= nbins <= 0x10_0000,
            -0x100_0000_0000 <= low < high <= 0x100_0000_0000,
            range == high - low,
    ;
}

impl UniformAxis {
    /// The stretch of coordinates of bin `index`: the underflow for bin 0,
    /// the overflow for the bin after the last, and nothing beyond that.
    pub open spec fn spec_bin(&self, index: int) -> Option<BinInterval> {
        let (n, low, high) = (self.nbins(), self.spec_low(), self.spec_high());
        if index == 0 {
            Some(BinInterval::Underflow { end: Ratio { num: low as i128, den: 1 } })
        } else if index == n + 1 {
            Some(BinInterval::Overflow { start: Ratio { num: high as i128, den: 1 } })
        } else if index > n + 1 {
            None
        } else {
            Some(
                BinInterval::Bin {
                    start: bin_edge(index - 1, n, low, high),
                    end: bin_edge(index, n, low, high),
                },
            )
        }
    }

    /// The stretch of coordinates of bin `index`.
    pub fn bin(&self, index: usize) -> (interval: Option<BinInterval>)
        requires
            self.wf(),
        ensures
            interval == self.spec_bin(index as int),
    {
        if index == 0 {
            Some(BinInterval::Underflow { end: Ratio { num: self.low as i128, den: 1 } })
        } else if index == self.nbins + 1 {
            Some(BinInterval::Overflow { start: Ratio { num: self.high as i128, den: 1 } })
        } else if index > self.nbins + 1 {
            None
        } else {
            proof {
                lemma_edge_fits(index - 1, self.nbins as int, self.low as int, self.high as int);
                lemma_edge_fits(index as int, self.nbins as int, self.low as int, self.high as int);
            }
            let n = self.nbins as i128;
            let range = self.high as i128 - self.low as i128;
            assert(-0x1000_0000_0000_0000 <= self.low * n <= 0x1000_0000_0000_0000 && 0 <= (index
                - 1) * range <= 0x2000_0000_0000_0000 && 0 <= index * range
                <= 0x2000_0000_0000_0000) by (nonlinear_arith)
                requires
                    1 <= index <= n <= 0x10_0000,
                    -0x100_0000_0000 <= self.low <= 0x100_0000_0000,
                    0 < range <= 0x200_0000_0000,
            ;
            let base = self.low as i128 * n;
            Some(
                BinInterval::Bin {
                    start: Ratio { num: base + (index as i128 - 1) * range, den: n },
                    end: Ratio { num: base + index as i128 * range, den: n },
                },
            )
        }
    }
}

impl Cyclic {
    /// The stretch of coordinates of bin `index`, wrap-around not counted;
    /// nothing for an index that is not the number of one of the bins.
    pub open spec fn spec_bin(&self, index: int) -> Option<BinInterval> {
        let (n, low, high) = (self.nbins(), self.spec_low(), self.spec_high());
        if 0 <= index < n {
            Some(
                BinInterval::Bin {
                    start: bin_edge(index, n, low, high),
                    end: bin_edge(index + 1, n, low, high),
                },
            )
        } else {
            None
        }
    }

    /// The stretch of coordinates of bin `index`, wrap-around not counted.
    pub fn bin(&self, index: usize) -> (interval: Option<BinInterval>)
        requires
            self.wf(),
        ensures
            interval == self.spec_bin(index as int),
    {
        proof {
            self.axis.lemma_wf();
        }
        if index < self.num_bins() {
            self.axis.bin(index + 1)
        } else {
            None
        }
    }
}

} // verus!
