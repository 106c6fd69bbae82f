//! A row of counters, kept in a histogram of `ndhistogram`.

use vstd::prelude::*;
use ndhistogram::axis::Uniform;
use ndhistogram::{AxesTuple, VecHistogram};
use crate::lorogram::axis::{shape_bin, shape_ok, uniform_with_step_size};
use crate::lorogram::store::{
    grid_bins, grid_index, hist1_fill, hist1_new, hist1_shapes, hist1_value, hist1_values,
    shapes_ok,
};

verus! {

/// Largest number of counters in a row.
pub const MAX_COUNTERS: usize = 0x4000_0000;

/// A row of counters, numbered from 0.
pub struct Counts {
    hist: VecHistogram<AxesTuple<(Uniform<i64>,)>, usize>,
    len: usize,
}

impl Counts {
    /// The counters, in order.
    pub closed spec fn view(&self) -> Seq<usize> {
        hist1_values(self.hist).subrange(1, self.len + 1)
    }

    /// The histogram behind the row has one bin of width 1 per counter,
    /// starting at 0.
    pub closed spec fn wf(&self) -> bool {
        &&& 1 <= self.len <= MAX_COUNTERS
        &&& hist1_shapes(self.hist) == seq![(self.len, 0i64, self.len as i64, 1i64)]
        &&& hist1_values(self.hist).len() == self.len + 2 <= usize::MAX
    }

    /// A row of `len` counters, all at 0.
    pub fn new(len: usize) -> (counts: Self)
        requires
            1 <= len <= MAX_COUNTERS,
        ensures
            counts.wf(),
            counts@ == Seq::new(len as nat, |i: int| 0usize),
    {
        let axis = uniform_with_step_size(len, 0, 1);
        proof {
            lemma_one_axis(seq![crate::lorogram::axis::shape_of(axis)], 0);
        }
        let hist = hist1_new(axis);
        let counts = Counts { hist, len };
        assert(counts@ =~= Seq::new(len as nat, |i: int| 0usize));
        counts
    }

    /// Number of counters.
    pub fn len(&self) -> (len: usize)
        requires
            self.wf(),
        ensures
            len == self@.len(),
            1 <= len <= MAX_COUNTERS,
    {
        self.len
    }

    /// Adds one to counter `bin`.
    pub fn add_one(&mut self, bin: usize)
        requires
            old(self).wf(),
            bin < old(self)@.len(),
            old(self)@[bin as int] < usize::MAX,
        ensures
            final(self).wf(),
            final(self)@ == old(self)@.update(bin as int, (old(self)@[bin as int] + 1) as usize),
    {
        let ghost before = self@;
        proof {
            lemma_one_axis(hist1_shapes(self.hist), bin as i64);
            assert(before[bin as int] == hist1_values(self.hist)[bin + 1]);
        }
        hist1_fill(&mut self.hist, bin as i64);
        assert(self@ =~= before.update(bin as int, (before[bin as int] + 1) as usize));
    }

    /// The value of counter `bin`.
    pub fn get(&self, bin: usize) -> (count: usize)
        requires
            self.wf(),
            bin < self@.len(),
        ensures
            count == self@[bin as int],
    {
        proof {
            lemma_one_axis(hist1_shapes(self.hist), bin as i64);
        }
        match hist1_value(&self.hist, bin as i64) {
            Some(count) => count,
            None => 0,
        }
    }
}

/// A histogram over one axis has the bins of that axis.
proof fn lemma_one_axis(shapes: Seq<(usize, i64, i64, i64)>, at: i64)
    requires
        shapes.len() == 1,
    ensures
        grid_bins(shapes) == shapes[0].0 + 2,
        grid_index(shapes, seq![at]) == shape_bin(shapes[0], at),
        shapes_ok(shapes) == shape_ok(shapes[0]),
{
    assert(grid_bins(shapes.skip(1)) == 1);
    assert(grid_index(shapes.skip(1), seq![at].skip(1)) == 0);
    assert((shapes[0].0 + 2) * 1 == shapes[0].0 + 2 && (shapes[0].0 + 2) * 0 == 0)
        by (nonlinear_arith);
}

} // verus!
