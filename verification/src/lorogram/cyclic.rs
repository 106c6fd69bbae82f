//! A histogram of lines of response over one wrap-around axis, for a
//! quantity of the line that the caller knows how to compute.

use vstd::prelude::*;
use crate::units::LOR;
use crate::lorogram::axis::{coordinate_in_range, BinInterval, Cyclic, MAX_BINS};
use crate::lorogram::counts::Counts;
use crate::lorogram::projection::lor_in_range;
use crate::lorogram::Lorogram;

verus! {

/// Whether `map` can serve as the quantity that an axis bins: it accepts
/// every line in range, gives each a coordinate that can be looked up on an
/// axis, and gives the same line the same coordinate every time.
pub open spec fn maps_lines<F: Fn(&LOR) -> i64>(map: F) -> bool {
    &&& forall|l: LOR| lor_in_range(l) ==> call_requires(map, (&l,))
    &&& forall|l: LOR, c: i64|
        lor_in_range(l) && call_ensures(map, (&l,), c) ==> coordinate_in_range(c as int)
    &&& forall|l: LOR, a: i64, b: i64|
        call_ensures(map, (&l,), a) && call_ensures(map, (&l,), b) ==> a == b
}

/// A wrap-around axis of bins together with the quantity of a line of
/// response that it bins, which the caller supplies as a function.
pub struct LorAxC<F> {
    axis: Cyclic,
    map: F,
}

impl<F: Fn(&LOR) -> i64> LorAxC<F> {
    /// The bins of the axis.
    pub closed spec fn binning(&self) -> Cyclic {
        self.axis
    }

    /// The coordinate that the supplied function gives `lor`.
    pub closed spec fn coordinate(&self, lor: LOR) -> i64 {
        choose|c: i64| call_ensures(self.map, (&lor,), c)
    }

    /// The bins are well-formed and the supplied function can serve.
    pub closed spec fn wf(&self) -> bool {
        self.axis.wf() && maps_lines(self.map)
    }

    /// The bin of `lor`.
    pub open spec fn spec_index(&self, lor: LOR) -> int {
        self.binning().spec_index(self.coordinate(lor) as int)
    }

    /// An axis that bins what `map` gives into the bins of `axis`.
    pub fn new(axis: Cyclic, map: F) -> (mapped: Self)
        requires
            axis.wf(),
            maps_lines(map),
        ensures
            mapped.wf(),
            mapped.binning() == axis,
            forall|l: LOR, c: i64| call_ensures(map, (&l,), c) ==> mapped.coordinate(l) == c,
    {
        LorAxC { axis, map }
    }

    /// What a well-formed axis guarantees of its bins.
    pub proof fn lemma_wf(&self)
        requires
            self.wf(),
        ensures
            self.binning().wf(),
            1 <= self.binning().nbins() <= MAX_BINS,
    {
        self.axis.lemma_wf();
    }

    /// The bin of `lor`, counted from 0.
    pub fn index(&self, lor: &LOR) -> (bin: Option<usize>)
        requires
            self.wf(),
            lor_in_range(*lor),
        ensures
            bin == Some(self.spec_index(*lor) as usize),
            0 <= self.spec_index(*lor) < self.binning().nbins(),
    {
        let coordinate = (self.map)(lor);
        self.axis.index(coordinate)
    }

    /// Number of bins.
    pub fn num_bins(&self) -> (bins: usize)
        requires
            self.wf(),
        ensures
            bins == self.binning().nbins(),
    {
        self.axis.num_bins()
    }

    /// The stretch of coordinates of bin `index`, wrap-around not counted.
    pub fn bin(&self, index: usize) -> (interval: Option<BinInterval>)
        requires
            self.wf(),
        ensures
            interval == self.binning().spec_bin(index as int),
    {
        self.axis.bin(index)
    }
}

/// A histogram of lines of response over one wrap-around axis.
pub struct CyclicLorogram<F> {
    axis: LorAxC<F>,
    counts: Counts,
}

impl<F: Fn(&LOR) -> i64> CyclicLorogram<F> {
    /// The axis of the histogram.
    pub closed spec fn spec_axis(&self) -> LorAxC<F> {
        self.axis
    }

    /// The counts of the histogram, one per bin.
    pub closed spec fn spec_counts(&self) -> Seq<usize> {
        self.counts@
    }

    /// An empty histogram over `axis`.
    pub fn new(axis: LorAxC<F>) -> (hist: Self)
        requires
            axis.wf(),
        ensures
            hist.inv(),
            hist.spec_axis() == axis,
            hist.spec_counts().len() == axis.binning().nbins(),
            forall|b: int| #[trigger] hist.count(b) == 0,
    {
        proof {
            axis.lemma_wf();
        }
        let bins = axis.num_bins();
        let counts = Counts::new(bins);
        CyclicLorogram { axis, counts }
    }

    /// The bin of a line is its bin on the axis, and the number of lines
    /// counted in a bin is the count of that bin.
    pub proof fn lemma_model(&self, lor: LOR, bin: int)
        ensures
            self.bin_of(lor) == self.spec_axis().spec_index(lor),
            self.count(bin) == if 0 <= bin < self.spec_counts().len() {
                self.spec_counts()[bin] as nat
            } else {
                0
            },
    {
    }
}

impl<F: Fn(&LOR) -> i64> Lorogram for CyclicLorogram<F> {
    closed spec fn inv(&self) -> bool {
        &&& self.axis.wf()
        &&& self.counts.wf()
        &&& self.counts@.len() == self.axis.binning().nbins()
    }

    closed spec fn bin_of(&self, lor: LOR) -> int {
        self.axis.spec_index(lor)
    }

    closed spec fn count(&self, bin: int) -> nat {
        if 0 <= bin < self.counts@.len() {
            self.counts@[bin] as nat
        } else {
            0
        }
    }

    fn fill(&mut self, lor: &LOR) {
        proof {
            self.axis.lemma_wf();
        }
        match self.axis.index(lor) {
            Some(bin) => self.counts.add_one(bin),
            None => {},
        }
    }

    fn value(&self, lor: &LOR) -> (n: usize) {
        proof {
            self.axis.lemma_wf();
        }
        match self.axis.index(lor) {
            Some(bin) => self.counts.get(bin),
            None => 0,
        }
    }
}

} // verus!
