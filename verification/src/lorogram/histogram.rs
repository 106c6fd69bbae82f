//! A histogram of lines of response over one to four axes.

use vstd::prelude::*;
use crate::units::LOR;
use crate::lorogram::axis::{shape_bin, shape_ok};
use crate::lorogram::counts::MAX_COUNTERS;
use crate::lorogram::mapped::MappedAxis;
use crate::lorogram::projection::lor_in_range;
use crate::lorogram::store::{
    counted, grid_bins, grid_index, lemma_grid_index_in_range, shapes_given, shapes_ok, Store,
};
use crate::lorogram::Lorogram;

verus! {

/// Number of bins of a histogram with the given axes: the product of their
/// numbers of bins.
pub open spec fn total_bins(axes: Seq<MappedAxis>) -> int
    decreases axes.len(),
{
    if axes.len() == 0 {
        1
    } else {
        axes[0].spec_num_bins() * total_bins(axes.skip(1))
    }
}

/// The bin of `lor` in a histogram with the given axes: the bins on the
/// single axes combined in mixed radix, the first axis counting fastest.
pub open spec fn flat_index(axes: Seq<MappedAxis>, lor: LOR) -> int
    decreases axes.len(),
{
    if axes.len() == 0 {
        0
    } else {
        axes[0].spec_index(lor) + axes[0].spec_num_bins() * flat_index(axes.skip(1), lor)
    }
}

/// Whether every axis is well-formed.
pub open spec fn all_wf(axes: Seq<MappedAxis>) -> bool {
    forall|k: int| 0 <= k < axes.len() ==> (#[trigger] axes[k]).wf()
}

/// A line in range falls in one of the bins of the histogram.
pub proof fn lemma_flat_index_in_range(axes: Seq<MappedAxis>, lor: LOR)
    requires
        all_wf(axes),
        lor_in_range(lor),
    ensures
        0 <= flat_index(axes, lor) < total_bins(axes),
    decreases axes.len(),
{
    if axes.len() > 0 {
        let rest = axes.skip(1);
        assert forall|k: int| 0 <= k < rest.len() implies (#[trigger] rest[k]).wf() by {
            assert(rest[k] == axes[k + 1]);
        }
        lemma_flat_index_in_range(rest, lor);
        axes[0].lemma_index_in_range(lor);
        let (i, n, f, t) = (
            axes[0].spec_index(lor),
            axes[0].spec_num_bins(),
            flat_index(rest, lor),
            total_bins(rest),
        );
        assert(0 <= i + n * f < n * t) by (nonlinear_arith)
            requires
                0 <= i < n,
                0 <= f < t,
        ;
    }
}

/// A histogram has at least as many bins as any of its trailing axes have
/// together.
pub proof fn lemma_total_bins_grows(axes: Seq<MappedAxis>, k: int)
    requires
        all_wf(axes),
        0 <= k <= axes.len(),
    ensures
        1 <= total_bins(axes.skip(k)) <= total_bins(axes),
    decreases k,
{
    if k == 0 {
        assert(axes.skip(0) =~= axes);
        lemma_total_bins_positive(axes);
    } else {
        lemma_total_bins_grows(axes, k - 1);
        let from = axes.skip(k - 1);
        assert(from.skip(1) =~= axes.skip(k));
        assert(from[0] == axes[k - 1]);
        axes[k - 1].binning().lemma_wf();
        lemma_total_bins_positive(axes.skip(k));
        let (n, t) = (from[0].spec_num_bins(), total_bins(axes.skip(k)));
        assert(t <= n * t) by (nonlinear_arith)
            requires
                n >= 1,
                t >= 1,
        ;
    }
}

/// A histogram has at least one bin.
pub proof fn lemma_total_bins_positive(axes: Seq<MappedAxis>)
    requires
        all_wf(axes),
    ensures
        1 <= total_bins(axes),
    decreases axes.len(),
{
    if axes.len() > 0 {
        let rest = axes.skip(1);
        assert forall|k: int| 0 <= k < rest.len() implies (#[trigger] rest[k]).wf() by {
            assert(rest[k] == axes[k + 1]);
        }
        lemma_total_bins_positive(rest);
        axes[0].binning().lemma_wf();
        let (n, t) = (axes[0].spec_num_bins(), total_bins(rest));
        assert(1 <= n * t) by (nonlinear_arith)
            requires
                n >= 1,
                t >= 1,
        ;
    }
}

/// The shapes of the outside axes behind the axes given, in order.
pub open spec fn shapes_of(axes: Seq<MappedAxis>) -> Seq<(usize, i64, i64, i64)> {
    Seq::new(axes.len(), |k: int| axes[k].binning().shape())
}

/// The outside axes behind the axes of a histogram have as many bins as the
/// axes themselves, and lookups on them stay within the machine's numbers.
pub proof fn lemma_shapes(axes: Seq<MappedAxis>)
    requires
        all_wf(axes),
    ensures
        shapes_ok(shapes_of(axes)),
        grid_bins(shapes_of(axes)) == total_bins(axes),
    decreases axes.len(),
{
    let shapes = shapes_of(axes);
    assert forall|k: int| 0 <= k < shapes.len() implies shape_ok(#[trigger] shapes[k]) by {
        axes[k].binning().lemma_shape();
    }
    if axes.len() > 0 {
        let rest = axes.skip(1);
        assert forall|k: int| 0 <= k < rest.len() implies (#[trigger] rest[k]).wf() by {
            assert(rest[k] == axes[k + 1]);
        }
        lemma_shapes(rest);
        assert(shapes.skip(1) =~= shapes_of(rest));
        axes[0].binning().lemma_shape();
    }
}

/// Coordinates that fall, on the outside axes, in the bins that the axes of
/// the histogram give a line, fall in the bin of that line.
pub proof fn lemma_grid_index(axes: Seq<MappedAxis>, at: Seq<i64>, lor: LOR)
    requires
        all_wf(axes),
        at.len() == axes.len(),
        forall|k: int|
            0 <= k < axes.len() ==> shape_bin(axes[k].binning().shape(), #[trigger] at[k])
                == axes[k].spec_index(lor),
    ensures
        grid_index(shapes_of(axes), at) == flat_index(axes, lor),
    decreases axes.len(),
{
    if axes.len() > 0 {
        let rest = axes.skip(1);
        assert forall|k: int| 0 <= k < rest.len() implies (#[trigger] rest[k]).wf() by {
            assert(rest[k] == axes[k + 1]);
        }
        assert forall|k: int| 0 <= k < rest.len() implies shape_bin(
            rest[k].binning().shape(),
            #[trigger] at.skip(1)[k],
        ) == rest[k].spec_index(lor) by {
            assert(rest[k] == axes[k + 1]);
            assert(at.skip(1)[k] == at[k + 1]);
        }
        lemma_grid_index(rest, at.skip(1), lor);
        assert(shapes_of(axes).skip(1) =~= shapes_of(rest));
        axes[0].binning().lemma_shape();
        assert(shape_bin(axes[0].binning().shape(), at[0]) == axes[0].spec_index(lor));
    }
}

/// A histogram of lines of response over one to four mapped axes. The counts
/// are kept, and the bin of a line is found, by a histogram of `ndhistogram`
/// over the outside axes behind these axes.
pub struct LorHistogram {
    axes: Vec<MappedAxis>,
    store: Store,
}

impl LorHistogram {
    /// The axes of the histogram.
    pub closed spec fn spec_axes(&self) -> Seq<MappedAxis> {
        self.axes@
    }

    /// The counts of the histogram, one per bin.
    pub closed spec fn spec_counts(&self) -> Seq<usize> {
        self.store.values()
    }

    /// An empty histogram over `axes`; `None` unless there are one to four
    /// axes with no more than `MAX_COUNTERS` bins together.
    pub fn new(axes: Vec<MappedAxis>) -> (hist: Option<Self>)
        requires
            all_wf(axes@),
        ensures
            hist is Some <==> 1 <= axes@.len() <= 4 && total_bins(axes@) <= MAX_COUNTERS,
            hist matches Some(h) ==> {
                &&& h.inv()
                &&& h.spec_axes() == axes@
                &&& h.spec_counts().len() == total_bins(axes@)
                &&& forall|b: int| #[trigger] h.count(b) == 0
            },
    {
        let len = axes.len();
        if len == 0 || len > 4 {
            return None;
        }
        let mut size: usize = 1;
        let mut k: usize = len;
        assert(axes@.skip(k as int) =~= Seq::<MappedAxis>::empty());
        while k > 0
            invariant
                k <= axes@.len(),
                all_wf(axes@),
                size == total_bins(axes@.skip(k as int)),
                1 <= size <= MAX_COUNTERS,
            decreases k,
        {
            k -= 1;
            let bins = axes[k].num_bins();
            assert(axes@.skip(k as int).skip(1) =~= axes@.skip(k + 1));
            assert(axes@.skip(k as int)[0] == axes@[k as int]);
            assert(1 <= bins * size <= 0x10_0002 * 0x4000_0000) by (nonlinear_arith)
                requires
                    1 <= bins <= 0x10_0002,
                    1 <= size <= 0x4000_0000,
            ;
            let wide: u64 = (bins as u64) * (size as u64);
            assert(wide == total_bins(axes@.skip(k as int)));
            if wide > MAX_COUNTERS as u64 {
                proof {
                    lemma_total_bins_grows(axes@, k as int);
                }
                return None;
            }
            size = wide as usize;
        }
        assert(axes@.skip(0) =~= axes@);
        let x = axes[0].twin();
        let y = if len > 1 {
            Some(axes[1].twin())
        } else {
            None
        };
        let z = if len > 2 {
            Some(axes[2].twin())
        } else {
            None
        };
        let t = if len > 3 {
            Some(axes[3].twin())
        } else {
            None
        };
        proof {
            lemma_shapes(axes@);
            assert(shapes_given(x, y, z, t) =~= shapes_of(axes@));
        }
        let store = Store::new(x, y, z, t);
        Some(LorHistogram { axes, store })
    }

    /// The coordinates of `lor` on the outside axes.
    fn coordinates(&self, lor: &LOR) -> (at: Vec<i64>)
        requires
            self.inv(),
            lor_in_range(*lor),
        ensures
            at@.len() == self.store.shapes().len(),
            grid_index(self.store.shapes(), at@) == self.bin_of(*lor),
            0 <= self.bin_of(*lor) < self.store.values().len(),
    {
        let mut at: Vec<i64> = Vec::new();
        let mut k: usize = 0;
        while k < self.axes.len()
            invariant
                k <= self.axes@.len(),
                self.inv(),
                lor_in_range(*lor),
                at@.len() == k,
                forall|j: int|
                    0 <= j < k ==> shape_bin(self.axes@[j].binning().shape(), #[trigger] at@[j])
                        == self.axes@[j].spec_index(*lor),
            decreases self.axes@.len() - k,
        {
            let fine = self.axes[k].scaled_coordinate(lor);
            at.push(fine);
            k += 1;
        }
        proof {
            lemma_grid_index(self.axes@, at@, *lor);
            self.store.lemma_wf();
            lemma_grid_index_in_range(self.store.shapes(), at@);
        }
        at
    }
}

impl Lorogram for LorHistogram {
    closed spec fn inv(&self) -> bool {
        &&& all_wf(self.axes@)
        &&& self.store.wf()
        &&& self.store.shapes() == shapes_of(self.axes@)
    }

    closed spec fn bin_of(&self, lor: LOR) -> int {
        flat_index(self.axes@, lor)
    }

    closed spec fn count(&self, bin: int) -> nat {
        if 0 <= bin < self.store.values().len() {
            self.store.values()[bin] as nat
        } else {
            0
        }
    }

    fn fill(&mut self, lor: &LOR) {
        let at = self.coordinates(lor);
        self.store.fill(&at);
    }

    fn value(&self, lor: &LOR) -> (n: usize) {
        let at = self.coordinates(lor);
        self.store.value(&at)
    }
}

impl LorHistogram {
    /// The bin of a line is the mixed-radix combination of its bins on the
    /// single axes.
    pub proof fn lemma_bin_of(&self, lor: LOR)
        ensures
            self.bin_of(lor) == flat_index(self.spec_axes(), lor),
    {
    }

    /// The number of lines counted in a bin is the count of that bin, and
    /// nothing outside the bins of the histogram.
    pub proof fn lemma_count(&self, bin: int)
        ensures
            self.count(bin) == if 0 <= bin < self.spec_counts().len() {
                self.spec_counts()[bin] as nat
            } else {
                0
            },
    {
    }
}

} // verus!
