//! Where the counts of a histogram are kept: in a histogram of
//! `ndhistogram` over one to four uniform axes, which finds the bin of a
//! tuple of coordinates and counts in it.

use vstd::prelude::*;
use ndhistogram::axis::Uniform;
use ndhistogram::{AxesTuple, Histogram, VecHistogram};
use crate::lorogram::axis::{shape_bin, shape_of, shape_ok};

verus! {

/// `VecHistogram` of `ndhistogram`: a histogram that keeps its values in a
/// vector, held as an opaque value.
#[verifier::external_type_specification]
#[verifier::external_body]
#[verifier::reject_recursive_types(A)]
#[verifier::reject_recursive_types(V)]
pub struct ExVecHistogram<A, V>(VecHistogram<A, V>);

/// `AxesTuple` of `ndhistogram`: the axes of a histogram, held as an opaque
/// value.
#[verifier::external_type_specification]
#[verifier::external_body]
#[verifier::reject_recursive_types(T)]
pub struct ExAxesTuple<T>(AxesTuple<T>);

/// Number of bins of a histogram over axes of the given shapes: the product
/// of their numbers of bins, each with the two beyond its edges.
pub open spec fn grid_bins(shapes: Seq<(usize, i64, i64, i64)>) -> int
    decreases shapes.len(),
{
    if shapes.len() == 0 {
        1
    } else {
        (shapes[0].0 + 2) * grid_bins(shapes.skip(1))
    }
}

/// The bin of the coordinates `at`, one per axis, in a histogram over axes of
/// the given shapes: the bins on the single axes combined in mixed radix, the
/// first axis counting fastest.
pub open spec fn grid_index(shapes: Seq<(usize, i64, i64, i64)>, at: Seq<i64>) -> int
    decreases shapes.len(),
{
    if shapes.len() == 0 {
        0
    } else {
        shape_bin(shapes[0], at[0]) + (shapes[0].0 + 2) * grid_index(shapes.skip(1), at.skip(1))
    }
}

/// Whether a lookup stays within the machine's numbers on every axis.
pub open spec fn shapes_ok(shapes: Seq<(usize, i64, i64, i64)>) -> bool {
    forall|k: int| 0 <= k < shapes.len() ==> shape_ok(#[trigger] shapes[k])
}

/// The values after one was added to the value of bin `bin`, if there is
/// such a bin.
pub open spec fn counted(values: Seq<usize>, bin: int) -> Seq<usize> {
    if 0 <= bin < values.len() {
        values.update(bin, (values[bin] + 1) as usize)
    } else {
        values
    }
}

/// The value of bin `bin`, if there is such a bin.
pub open spec fn looked_up(values: Seq<usize>, bin: int) -> Option<usize> {
    if 0 <= bin < values.len() {
        Some(values[bin])
    } else {
        None
    }
}

/// The shapes of the axes of an `ndhistogram` histogram over one axis, in
/// order.
pub uninterp spec fn hist1_shapes(hist: VecHistogram<AxesTuple<(Uniform<i64>,)>, usize>) -> Seq<(usize, i64, i64, i64)>;

/// The values of an `ndhistogram` histogram over one axis, one per bin.
pub uninterp spec fn hist1_values(hist: VecHistogram<AxesTuple<(Uniform<i64>,)>, usize>) -> Seq<usize>;

/// `VecHistogram::new` of `ndhistogram`, on the axes made of the axis given:
/// a histogram with these axes and one value 0 for each of its bins. The call
/// multiplies the numbers of bins of the axes in `usize`.
#[verifier::external_body]
pub(crate) fn hist1_new(x: Uniform<i64>) -> (hist: VecHistogram<AxesTuple<(Uniform<i64>,)>, usize>)
    requires
        shape_ok(shape_of(x)),
        grid_bins(seq![shape_of(x)]) <= usize::MAX,
    ensures
        hist1_shapes(hist) == seq![shape_of(x)],
        hist1_values(hist) == Seq::new(grid_bins(seq![shape_of(x)]) as nat, |i: int| 0usize),
{
    VecHistogram::new(AxesTuple::from((x,)))
}

/// `Histogram::fill` of `ndhistogram`: adds one to the value of the bin of
/// the coordinates, if the histogram has a value for that bin, and leaves the
/// rest as it was. The call looks the bin up on every axis as `Axis::index`
/// does, combines the bins as `grid_index` says, in `usize`, and adds in
/// `usize`.
#[verifier::external_body]
pub(crate) fn hist1_fill(hist: &mut VecHistogram<AxesTuple<(Uniform<i64>,)>, usize>, x: i64)
    requires
        hist1_shapes(*old(hist)).len() == 1,
        shapes_ok(hist1_shapes(*old(hist))),
        hist1_values(*old(hist)).len() == grid_bins(hist1_shapes(*old(hist))) <= usize::MAX,
        looked_up(
            hist1_values(*old(hist)),
            grid_index(hist1_shapes(*old(hist)), seq![x]),
        ) matches Some(count) ==> count < usize::MAX,
    ensures
        hist1_shapes(*final(hist)) == hist1_shapes(*old(hist)),
        hist1_values(*final(hist)) == counted(
            hist1_values(*old(hist)),
            grid_index(hist1_shapes(*old(hist)), seq![x]),
        ),
{
    hist.fill(&x)
}

/// `Histogram::value` of `ndhistogram`: the value of the bin of the
/// coordinates, if the histogram has a value for that bin. The call looks the
/// bin up as `fill` does.
#[verifier::external_body]
pub(crate) fn hist1_value(hist: &VecHistogram<AxesTuple<(Uniform<i64>,)>, usize>, x: i64) -> (value: Option<usize>)
    requires
        hist1_shapes(*hist).len() == 1,
        shapes_ok(hist1_shapes(*hist)),
        hist1_values(*hist).len() == grid_bins(hist1_shapes(*hist)) <= usize::MAX,
    ensures
        value == looked_up(hist1_values(*hist), grid_index(hist1_shapes(*hist), seq![x])),
{
    hist.value(&x).copied()
}

/// The shapes of the axes of an `ndhistogram` histogram over two axes, in
/// order.
pub uninterp spec fn hist2_shapes(hist: VecHistogram<AxesTuple<(Uniform<i64>, Uniform<i64>)>, usize>) -> Seq<(usize, i64, i64, i64)>;

/// The values of an `ndhistogram` histogram over two axes, one per bin.
pub uninterp spec fn hist2_values(hist: VecHistogram<AxesTuple<(Uniform<i64>, Uniform<i64>)>, usize>) -> Seq<usize>;

/// `VecHistogram::new` of `ndhistogram`, on the axes made of the axes given:
/// a histogram with these axes and one value 0 for each of its bins. The call
/// multiplies the numbers of bins of the axes in `usize`.
#[verifier::external_body]
pub(crate) fn hist2_new(x: Uniform<i64>, y: Uniform<i64>) -> (hist: VecHistogram<AxesTuple<(Uniform<i64>, Uniform<i64>)>, usize>)
    requires
        shape_ok(shape_of(x)),
        shape_ok(shape_of(y)),
        grid_bins(seq![shape_of(x), shape_of(y)]) <= usize::MAX,
    ensures
        hist2_shapes(hist) == seq![shape_of(x), shape_of(y)],
        hist2_values(hist) == Seq::new(grid_bins(seq![shape_of(x), shape_of(y)]) as nat, |i: int| 0usize),
{
    VecHistogram::new(AxesTuple::from((x, y)))
}

/// `Histogram::fill` of `ndhistogram`: adds one to the value of the bin of
/// the coordinates, if the histogram has a value for that bin, and leaves the
/// rest as it was. The call looks the bin up on every axis as `Axis::index`
/// does, combines the bins as `grid_index` says, in `usize`, and adds in
/// `usize`.
#[verifier::external_body]
pub(crate) fn hist2_fill(hist: &mut VecHistogram<AxesTuple<(Uniform<i64>, Uniform<i64>)>, usize>, x: i64, y: i64)
    requires
        hist2_shapes(*old(hist)).len() == 2,
        shapes_ok(hist2_shapes(*old(hist))),
        hist2_values(*old(hist)).len() == grid_bins(hist2_shapes(*old(hist))) <= usize::MAX,
        looked_up(
            hist2_values(*old(hist)),
            grid_index(hist2_shapes(*old(hist)), seq![x, y]),
        ) matches Some(count) ==> count < usize::MAX,
    ensures
        hist2_shapes(*final(hist)) == hist2_shapes(*old(hist)),
        hist2_values(*final(hist)) == counted(
            hist2_values(*old(hist)),
            grid_index(hist2_shapes(*old(hist)), seq![x, y]),
        ),
{
    hist.fill(&(x, y))
}

/// `Histogram::value` of `ndhistogram`: the value of the bin of the
/// coordinates, if the histogram has a value for that bin. The call looks the
/// bin up as `fill` does.
#[verifier::external_body]
pub(crate) fn hist2_value(hist: &VecHistogram<AxesTuple<(Uniform<i64>, Uniform<i64>)>, usize>, x: i64, y: i64) -> (value: Option<usize>)
    requires
        hist2_shapes(*hist).len() == 2,
        shapes_ok(hist2_shapes(*hist)),
        hist2_values(*hist).len() == grid_bins(hist2_shapes(*hist)) <= usize::MAX,
    ensures
        value == looked_up(hist2_values(*hist), grid_index(hist2_shapes(*hist), seq![x, y])),
{
    hist.value(&(x, y)).copied()
}

/// The shapes of the axes of an `ndhistogram` histogram over three axes, in
/// order.
pub uninterp spec fn hist3_shapes(hist: VecHistogram<AxesTuple<(Uniform<i64>, Uniform<i64>, Uniform<i64>)>, usize>) -> Seq<(usize, i64, i64, i64)>;

/// The values of an `ndhistogram` histogram over three axes, one per bin.
pub uninterp spec fn hist3_values(hist: VecHistogram<AxesTuple<(Uniform<i64>, Uniform<i64>, Uniform<i64>)>, usize>) -> Seq<usize>;

/// `VecHistogram::new` of `ndhistogram`, on the axes made of the axes given:
/// a histogram with these axes and one value 0 for each of its bins. The call
/// multiplies the numbers of bins of the axes in `usize`.
#[verifier::external_body]
pub(crate) fn hist3_new(x: Uniform<i64>, y: Uniform<i64>, z: Uniform<i64>) -> (hist: VecHistogram<AxesTuple<(Uniform<i64>, Uniform<i64>, Uniform<i64>)>, usize>)
    requires
        shape_ok(shape_of(x)),
        shape_ok(shape_of(y)),
        shape_ok(shape_of(z)),
        grid_bins(seq![shape_of(x), shape_of(y), shape_of(z)]) <= usize::MAX,
    ensures
        hist3_shapes(hist) == seq![shape_of(x), shape_of(y), shape_of(z)],
        hist3_values(hist) == Seq::new(grid_bins(seq![shape_of(x), shape_of(y), shape_of(z)]) as nat, |i: int| 0usize),
{
    VecHistogram::new(AxesTuple::from((x, y, z)))
}

/// `Histogram::fill` of `ndhistogram`: adds one to the value of the bin of
/// the coordinates, if the histogram has a value for that bin, and leaves the
/// rest as it was. The call looks the bin up on every axis as `Axis::index`
/// does, combines the bins as `grid_index` says, in `usize`, and adds in
/// `usize`.
#[verifier::external_body]
pub(crate) fn hist3_fill(hist: &mut VecHistogram<AxesTuple<(Uniform<i64>, Uniform<i64>, Uniform<i64>)>, usize>, x: i64, y: i64, z: i64)
    requires
        hist3_shapes(*old(hist)).len() == 3,
        shapes_ok(hist3_shapes(*old(hist))),
        hist3_values(*old(hist)).len() == grid_bins(hist3_shapes(*old(hist))) <= usize::MAX,
        looked_up(
            hist3_values(*old(hist)),
            grid_index(hist3_shapes(*old(hist)), seq![x, y, z]),
        ) matches Some(count) ==> count < usize::MAX,
    ensures
        hist3_shapes(*final(hist)) == hist3_shapes(*old(hist)),
        hist3_values(*final(hist)) == counted(
            hist3_values(*old(hist)),
            grid_index(hist3_shapes(*old(hist)), seq![x, y, z]),
        ),
{
    hist.fill(&(x, y, z))
}

/// `Histogram::value` of `ndhistogram`: the value of the bin of the
/// coordinates, if the histogram has a value for that bin. The call looks the
/// bin up as `fill` does.
#[verifier::external_body]
pub(crate) fn hist3_value(hist: &VecHistogram<AxesTuple<(Uniform<i64>, Uniform<i64>, Uniform<i64>)>, usize>, x: i64, y: i64, z: i64) -> (value: Option<usize>)
    requires
        hist3_shapes(*hist).len() == 3,
        shapes_ok(hist3_shapes(*hist)),
        hist3_values(*hist).len() == grid_bins(hist3_shapes(*hist)) <= usize::MAX,
    ensures
        value == looked_up(hist3_values(*hist), grid_index(hist3_shapes(*hist), seq![x, y, z])),
{
    hist.value(&(x, y, z)).copied()
}

/// The shapes of the axes of an `ndhistogram` histogram over four axes, in
/// order.
pub uninterp spec fn hist4_shapes(hist: VecHistogram<AxesTuple<(Uniform<i64>, Uniform<i64>, Uniform<i64>, Uniform<i64>)>, usize>) -> Seq<(usize, i64, i64, i64)>;

/// The values of an `ndhistogram` histogram over four axes, one per bin.
pub uninterp spec fn hist4_values(hist: VecHistogram<AxesTuple<(Uniform<i64>, Uniform<i64>, Uniform<i64>, Uniform<i64>)>, usize>) -> Seq<usize>;

/// `VecHistogram::new` of `ndhistogram`, on the axes made of the axes given:
/// a histogram with these axes and one value 0 for each of its bins. The call
/// multiplies the numbers of bins of the axes in `usize`.
#[verifier::external_body]
pub(crate) fn hist4_new(x: Uniform<i64>, y: Uniform<i64>, z: Uniform<i64>, t: Uniform<i64>) -> (hist: VecHistogram<AxesTuple<(Uniform<i64>, Uniform<i64>, Uniform<i64>, Uniform<i64>)>, usize>)
    requires
        shape_ok(shape_of(x)),
        shape_ok(shape_of(y)),
        shape_ok(shape_of(z)),
        shape_ok(shape_of(t)),
        grid_bins(seq![shape_of(x), shape_of(y), shape_of(z), shape_of(t)]) <= usize::MAX,
    ensures
        hist4_shapes(hist) == seq![shape_of(x), shape_of(y), shape_of(z), shape_of(t)],
        hist4_values(hist) == Seq::new(grid_bins(seq![shape_of(x), shape_of(y), shape_of(z), shape_of(t)]) as nat, |i: int| 0usize),
{
    VecHistogram::new(AxesTuple::from((x, y, z, t)))
}

/// `Histogram::fill` of `ndhistogram`: adds one to the value of the bin of
/// the coordinates, if the histogram has a value for that bin, and leaves the
/// rest as it was. The call looks the bin up on every axis as `Axis::index`
/// does, combines the bins as `grid_index` says, in `usize`, and adds in
/// `usize`.
#[verifier::external_body]
pub(crate) fn hist4_fill(hist: &mut VecHistogram<AxesTuple<(Uniform<i64>, Uniform<i64>, Uniform<i64>, Uniform<i64>)>, usize>, x: i64, y: i64, z: i64, t: i64)
    requires
        hist4_shapes(*old(hist)).len() == 4,
        shapes_ok(hist4_shapes(*old(hist))),
        hist4_values(*old(hist)).len() == grid_bins(hist4_shapes(*old(hist))) <= usize::MAX,
        looked_up(
            hist4_values(*old(hist)),
            grid_index(hist4_shapes(*old(hist)), seq![x, y, z, t]),
        ) matches Some(count) ==> count < usize::MAX,
    ensures
        hist4_shapes(*final(hist)) == hist4_shapes(*old(hist)),
        hist4_values(*final(hist)) == counted(
            hist4_values(*old(hist)),
            grid_index(hist4_shapes(*old(hist)), seq![x, y, z, t]),
        ),
{
    hist.fill(&(x, y, z, t))
}

/// `Histogram::value` of `ndhistogram`: the value of the bin of the
/// coordinates, if the histogram has a value for that bin. The call looks the
/// bin up as `fill` does.
#[verifier::external_body]
pub(crate) fn hist4_value(hist: &VecHistogram<AxesTuple<(Uniform<i64>, Uniform<i64>, Uniform<i64>, Uniform<i64>)>, usize>, x: i64, y: i64, z: i64, t: i64) -> (value: Option<usize>)
    requires
        hist4_shapes(*hist).len() == 4,
        shapes_ok(hist4_shapes(*hist)),
        hist4_values(*hist).len() == grid_bins(hist4_shapes(*hist)) <= usize::MAX,
    ensures
        value == looked_up(hist4_values(*hist), grid_index(hist4_shapes(*hist), seq![x, y, z, t])),
{
    hist.value(&(x, y, z, t)).copied()
}

/// A coordinate on every axis falls in one of the bins of the histogram.
pub proof fn lemma_grid_index_in_range(shapes: Seq<(usize, i64, i64, i64)>, at: Seq<i64>)
    requires
        shapes_ok(shapes),
    ensures
        0 <= grid_index(shapes, at) < grid_bins(shapes),
    decreases shapes.len(),
{
    if shapes.len() > 0 {
        let rest = shapes.skip(1);
        assert forall|k: int| 0 <= k < rest.len() implies shape_ok(#[trigger] rest[k]) by {
            assert(rest[k] == shapes[k + 1]);
        }
        lemma_grid_index_in_range(rest, at.skip(1));
        let (i, n) = (shape_bin(shapes[0], at[0]), shapes[0].0 + 2);
        let (f, t) = (grid_index(rest, at.skip(1)), grid_bins(rest));
        assert(shape_ok(shapes[0]));
        lemma_shape_bin_in_range(shapes[0], at[0]);
        assert(0 <= i + n * f < n * t) by (nonlinear_arith)
            requires
                0 <= i < n,
                0 <= f < t,
        ;
    }
}

/// A coordinate falls in one of the bins of an axis.
pub proof fn lemma_shape_bin_in_range(shape: (usize, i64, i64, i64), coordinate: i64)
    requires
        shape_ok(shape),
    ensures
        0 <= shape_bin(shape, coordinate) < shape.0 + 2,
{
    if shape.1 <= coordinate < shape.2 {
        let (a, step, num) = (coordinate - shape.1, shape.3 as int, shape.0 as int);
        assert(0 <= a / step < num) by (nonlinear_arith)
            requires
                0 <= a < num * step,
                step > 0,
        ;
    }
}

/// A histogram has at least one bin.
pub proof fn lemma_grid_bins_positive(shapes: Seq<(usize, i64, i64, i64)>)
    ensures
        1 <= grid_bins(shapes),
    decreases shapes.len(),
{
    if shapes.len() > 0 {
        lemma_grid_bins_positive(shapes.skip(1));
        let (n, t) = (shapes[0].0 + 2, grid_bins(shapes.skip(1)));
        assert(1 <= n * t) by (nonlinear_arith)
            requires
                n >= 1,
                t >= 1,
        ;
    }
}

/// The counts of a histogram of lines, kept by `ndhistogram` in a histogram
/// over one to four axes.
pub enum Store {
    One(VecHistogram<AxesTuple<(Uniform<i64>,)>, usize>),
    Two(VecHistogram<AxesTuple<(Uniform<i64>, Uniform<i64>)>, usize>),
    Three(VecHistogram<AxesTuple<(Uniform<i64>, Uniform<i64>, Uniform<i64>)>, usize>),
    Four(VecHistogram<AxesTuple<(Uniform<i64>, Uniform<i64>, Uniform<i64>, Uniform<i64>)>, usize>),
}

impl Store {
    /// The shapes of the axes, in order.
    pub closed spec fn shapes(&self) -> Seq<(usize, i64, i64, i64)> {
        match self {
            Store::One(hist) => hist1_shapes(*hist),
            Store::Two(hist) => hist2_shapes(*hist),
            Store::Three(hist) => hist3_shapes(*hist),
            Store::Four(hist) => hist4_shapes(*hist),
        }
    }

    /// The counts, one per bin.
    pub closed spec fn values(&self) -> Seq<usize> {
        match self {
            Store::One(hist) => hist1_values(*hist),
            Store::Two(hist) => hist2_values(*hist),
            Store::Three(hist) => hist3_values(*hist),
            Store::Four(hist) => hist4_values(*hist),
        }
    }

    /// Number of axes that the variant holds.
    pub closed spec fn dimensions(&self) -> int {
        match self {
            Store::One(_) => 1,
            Store::Two(_) => 2,
            Store::Three(_) => 3,
            Store::Four(_) => 4,
        }
    }

    /// The histogram has as many axes as its type says, lookups on them stay
    /// within the machine's numbers, and there is one count per bin.
    pub closed spec fn wf(&self) -> bool {
        &&& self.shapes().len() == self.dimensions()
        &&& shapes_ok(self.shapes())
        &&& self.values().len() == grid_bins(self.shapes()) <= usize::MAX
    }

    /// What a well-formed store guarantees.
    pub proof fn lemma_wf(&self)
        requires
            self.wf(),
        ensures
            1 <= self.shapes().len() <= 4,
            shapes_ok(self.shapes()),
            self.values().len() == grid_bins(self.shapes()),
    {
    }

    /// An empty store over the axes given, of which there are one to four.
    pub(crate) fn new(
        x: Uniform<i64>,
        y: Option<Uniform<i64>>,
        z: Option<Uniform<i64>>,
        t: Option<Uniform<i64>>,
    ) -> (store: Self)
        requires
            z is Some ==> y is Some,
            t is Some ==> z is Some,
            shapes_ok(shapes_given(x, y, z, t)),
            grid_bins(shapes_given(x, y, z, t)) <= usize::MAX,
        ensures
            store.wf(),
            store.shapes() == shapes_given(x, y, z, t),
            store.values() == Seq::new(grid_bins(store.shapes()) as nat, |i: int| 0usize),
    {
        let ghost shapes = shapes_given(x, y, z, t);
        proof {
            lemma_grid_bins_positive(shapes);
            assert forall|k: int| 0 <= k < shapes.len() implies shape_ok(#[trigger] shapes[k]) by {}
            assert(shape_ok(shapes[0]));
            if y is Some {
                assert(shape_ok(shapes[1]));
            }
            if z is Some {
                assert(shape_ok(shapes[2]));
            }
            if t is Some {
                assert(shape_ok(shapes[3]));
            }
        }
        match (y, z, t) {
            (Some(y), Some(z), Some(t)) => Store::Four(hist4_new(x, y, z, t)),
            (Some(y), Some(z), None) => Store::Three(hist3_new(x, y, z)),
            (Some(y), None, _) => Store::Two(hist2_new(x, y)),
            _ => Store::One(hist1_new(x)),
        }
    }

    /// Adds one to the count of the bin of the coordinates `at`, one per
    /// axis.
    pub(crate) fn fill(&mut self, at: &Vec<i64>)
        requires
            old(self).wf(),
            at@.len() == old(self).shapes().len(),
            old(self).values()[grid_index(old(self).shapes(), at@)] < usize::MAX,
        ensures
            final(self).wf(),
            final(self).shapes() == old(self).shapes(),
            final(self).values() == counted(
                old(self).values(),
                grid_index(old(self).shapes(), at@),
            ),
    {
        proof {
            lemma_grid_index_in_range(self.shapes(), at@);
        }
        match self {
            Store::One(hist) => {
                assert(at@ =~= seq![at@[0]]);
                hist1_fill(hist, at[0]);
            },
            Store::Two(hist) => {
                assert(at@ =~= seq![at@[0], at@[1]]);
                hist2_fill(hist, at[0], at[1]);
            },
            Store::Three(hist) => {
                assert(at@ =~= seq![at@[0], at@[1], at@[2]]);
                hist3_fill(hist, at[0], at[1], at[2]);
            },
            Store::Four(hist) => {
                assert(at@ =~= seq![at@[0], at@[1], at@[2], at@[3]]);
                hist4_fill(hist, at[0], at[1], at[2], at[3]);
            },
        }
    }

    /// The count of the bin of the coordinates `at`, one per axis.
    pub(crate) fn value(&self, at: &Vec<i64>) -> (count: usize)
        requires
            self.wf(),
            at@.len() == self.shapes().len(),
        ensures
            count == self.values()[grid_index(self.shapes(), at@)],
            0 <= grid_index(self.shapes(), at@) < self.values().len(),
    {
        proof {
            lemma_grid_index_in_range(self.shapes(), at@);
        }
        let found = match self {
            Store::One(hist) => {
                assert(at@ =~= seq![at@[0]]);
                hist1_value(hist, at[0])
            },
            Store::Two(hist) => {
                assert(at@ =~= seq![at@[0], at@[1]]);
                hist2_value(hist, at[0], at[1])
            },
            Store::Three(hist) => {
                assert(at@ =~= seq![at@[0], at@[1], at@[2]]);
                hist3_value(hist, at[0], at[1], at[2])
            },
            Store::Four(hist) => {
                assert(at@ =~= seq![at@[0], at@[1], at@[2], at@[3]]);
                hist4_value(hist, at[0], at[1], at[2], at[3])
            },
        };
        match found {
            Some(count) => count,
            None => 0,
        }
    }
}

/// The shapes of one to four axes, in order.
pub open spec fn shapes_given(
    x: Uniform<i64>,
    y: Option<Uniform<i64>>,
    z: Option<Uniform<i64>>,
    t: Option<Uniform<i64>>,
) -> Seq<(usize, i64, i64, i64)> {
    match (y, z, t) {
        (Some(y), Some(z), Some(t)) => seq![shape_of(x), shape_of(y), shape_of(z), shape_of(t)],
        (Some(y), Some(z), None) => seq![shape_of(x), shape_of(y), shape_of(z)],
        (Some(y), None, _) => seq![shape_of(x), shape_of(y)],
        _ => seq![shape_of(x)],
    }
}

} // verus!
