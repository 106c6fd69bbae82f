//! The scattergram: true and scattered coincidences counted side by side.

use vstd::prelude::*;
use crate::units::{Ratio, LOR};
use crate::io::hdf5::{Energy, Hdf5Lor};
use crate::lorogram::projection::{is_lor_in_range, lor_in_range};
use crate::lorogram::{Lorogram, Prompt};

verus! {

/// Number of the `fills` of the given kind that fall in `bin`, where
/// `bin_of` says in which bin a line falls.
pub open spec fn tally(
    bin_of: spec_fn(LOR) -> int,
    fills: Seq<(Prompt, LOR)>,
    kind: Prompt,
    bin: int,
) -> nat
    decreases fills.len(),
{
    if fills.len() == 0 {
        0
    } else {
        let earlier = tally(bin_of, fills.drop_last(), kind, bin);
        if fills.last().0 == kind && bin_of(fills.last().1) == bin {
            earlier + 1
        } else {
            earlier
        }
    }
}

/// Number of the `fills` of any kind that fall in `bin`.
pub open spec fn tally_all(bin_of: spec_fn(LOR) -> int, fills: Seq<(Prompt, LOR)>, bin: int) -> nat
    decreases fills.len(),
{
    if fills.len() == 0 {
        0
    } else {
        let earlier = tally_all(bin_of, fills.drop_last(), bin);
        if bin_of(fills.last().1) == bin {
            earlier + 1
        } else {
            earlier
        }
    }
}

/// Whether none of the `fills` is a random coincidence.
pub open spec fn no_randoms(fills: Seq<(Prompt, LOR)>) -> bool {
    forall|i: int| 0 <= i < fills.len() ==> (#[trigger] fills[i]).0 != Prompt::Random
}

/// A tally depends on the binning only through the bins it gives.
pub proof fn lemma_tally_same_bins(
    f: spec_fn(LOR) -> int,
    g: spec_fn(LOR) -> int,
    fills: Seq<(Prompt, LOR)>,
    kind: Prompt,
    bin: int,
)
    requires
        forall|l: LOR| #[trigger] f(l) == g(l),
    ensures
        tally(f, fills, kind, bin) == tally(g, fills, kind, bin),
        tally_all(f, fills, bin) == tally_all(g, fills, bin),
    decreases fills.len(),
{
    if fills.len() > 0 {
        lemma_tally_same_bins(f, g, fills.drop_last(), kind, bin);
    }
}

/// One more fill adds one to the tally of its kind in its bin, and leaves
/// every other tally as it was.
pub proof fn lemma_tally_push(
    f: spec_fn(LOR) -> int,
    fills: Seq<(Prompt, LOR)>,
    fill: (Prompt, LOR),
    kind: Prompt,
    bin: int,
)
    ensures
        tally(f, fills.push(fill), kind, bin) == tally(f, fills, kind, bin) + if fill.0 == kind
            && f(fill.1) == bin {
            1nat
        } else {
            0nat
        },
        tally_all(f, fills.push(fill), bin) == tally_all(f, fills, bin) + if f(fill.1) == bin {
            1nat
        } else {
            0nat
        },
{
    assert(fills.push(fill).drop_last() =~= fills);
}

/// No bin holds more fills than there were.
pub proof fn lemma_tally_bounded(
    f: spec_fn(LOR) -> int,
    fills: Seq<(Prompt, LOR)>,
    kind: Prompt,
    bin: int,
)
    ensures
        tally(f, fills, kind, bin) <= fills.len(),
    decreases fills.len(),
{
    if fills.len() > 0 {
        lemma_tally_bounded(f, fills.drop_last(), kind, bin);
    }
}

/// Where no fill is a random coincidence, the trues and the scatters of a
/// bin together are all the fills that fell in it.
pub proof fn lemma_trues_and_scatters_are_all(
    f: spec_fn(LOR) -> int,
    fills: Seq<(Prompt, LOR)>,
    bin: int,
)
    requires
        no_randoms(fills),
    ensures
        tally(f, fills, Prompt::True, bin) + tally(f, fills, Prompt::Scatter, bin) == tally_all(
            f,
            fills,
            bin,
        ),
    decreases fills.len(),
{
    if fills.len() > 0 {
        let earlier = fills.drop_last();
        assert forall|i: int| 0 <= i < earlier.len() implies (#[trigger] earlier[i]).0
            != Prompt::Random by {
            assert(earlier[i] == fills[i]);
        }
        lemma_trues_and_scatters_are_all(f, earlier, bin);
        assert(fills.last() == fills[fills.len() - 1]);
    }
}

/// The scatter fraction of a bin with `trues` true and `scatters` scattered
/// coincidences: `scatters / (trues + scatters)`, or 0 for an empty bin.
pub open spec fn scatter_fraction(trues: nat, scatters: nat) -> Ratio {
    if trues + scatters == 0 {
        Ratio { num: 0, den: 1 }
    } else {
        Ratio { num: scatters as i128, den: (trues + scatters) as i128 }
    }
}

/// A pair of histograms with the same bins, one of true and one of scattered
/// coincidences.
pub struct Scattergram<L: Lorogram> {
    trues: L,
    scatters: L,
    filled: Ghost<Seq<(Prompt, LOR)>>,
}

impl<L: Lorogram> Scattergram<L> {
    /// Every fill so far, in order, with its kind.
    pub closed spec fn filled(&self) -> Seq<(Prompt, LOR)> {
        self.filled@
    }

    /// The bin of `lor`, the same in both histograms.
    pub closed spec fn bin_of(&self, lor: LOR) -> int {
        self.trues.bin_of(lor)
    }

    /// The binning as a function.
    pub open spec fn bins(&self) -> spec_fn(LOR) -> int {
        |l: LOR| self.bin_of(l)
    }

    /// Number of true coincidences filled into `bin`.
    pub open spec fn trues_in(&self, bin: int) -> nat {
        tally(self.bins(), self.filled(), Prompt::True, bin)
    }

    /// Number of scattered coincidences filled into `bin`.
    pub open spec fn scatters_in(&self, bin: int) -> nat {
        tally(self.bins(), self.filled(), Prompt::Scatter, bin)
    }

    /// Both histograms are well-formed, have the same bins, and hold exactly
    /// the fills of their kind; no fill was a random coincidence.
    pub closed spec fn inv(&self) -> bool {
        &&& self.trues.inv()
        &&& self.scatters.inv()
        &&& forall|l: LOR| #[trigger] self.scatters.bin_of(l) == self.trues.bin_of(l)
        &&& forall|b: int| #[trigger] self.trues.count(b) == self.trues_in(b)
        &&& forall|b: int| #[trigger] self.scatters.count(b) == self.scatters_in(b)
        &&& no_randoms(self.filled@)
    }

    /// In every bin, the trues and the scatters together are all the lines
    /// that were filled into it.
    pub proof fn lemma_every_fill_counted(&self, bin: int)
        requires
            self.inv(),
        ensures
            self.trues_in(bin) + self.scatters_in(bin) == tally_all(
                self.bins(),
                self.filled(),
                bin,
            ),
            no_randoms(self.filled()),
    {
        lemma_trues_and_scatters_are_all(self.bins(), self.filled(), bin);
    }

    /// An empty scattergram whose two histograms both come from
    /// `make_empty_lorogram`.
    pub fn new<F: Fn() -> L>(make_empty_lorogram: F) -> (sgram: Self)
        requires
            call_requires(make_empty_lorogram, ()),
            forall|h: L|
                call_ensures(make_empty_lorogram, (), h) ==> h.inv() && forall|b: int|
                    #[trigger] h.count(b) == 0,
            forall|h1: L, h2: L, l: LOR|
                call_ensures(make_empty_lorogram, (), h1) && call_ensures(
                    make_empty_lorogram,
                    (),
                    h2,
                ) ==> #[trigger] h1.bin_of(l) == #[trigger] h2.bin_of(l),
        ensures
            sgram.inv(),
            sgram.filled() == Seq::<(Prompt, LOR)>::empty(),
            forall|h: L, l: LOR|
                call_ensures(make_empty_lorogram, (), h) ==> #[trigger] h.bin_of(l)
                    == sgram.bin_of(l),
    {
        let trues = make_empty_lorogram();
        let scatters = make_empty_lorogram();
        let sgram = Self { trues, scatters, filled: Ghost(Seq::empty()) };
        proof {
            assert(sgram.trues.inv());
            assert(sgram.scatters.inv());
            assert forall|l: LOR| #[trigger] sgram.scatters.bin_of(l) == sgram.trues.bin_of(l) by {}
            assert forall|b: int| #[trigger] sgram.trues.count(b) == sgram.trues_in(b) by {}
            assert forall|b: int| #[trigger] sgram.scatters.count(b) == sgram.scatters_in(b) by {}
        }
        sgram
    }

    /// Counts `lor` as a coincidence of the given kind.
    pub fn fill(&mut self, kind: Prompt, lor: &LOR)
        requires
            old(self).inv(),
            kind != Prompt::Random,
            lor_in_range(*lor),
            old(self).filled().len() < usize::MAX,
        ensures
            final(self).inv(),
            final(self).filled() == old(self).filled().push((kind, *lor)),
            forall|l: LOR| #[trigger] final(self).bin_of(l) == old(self).bin_of(l),
            forall|b: int| #[trigger]
                final(self).trues_in(b) == old(self).trues_in(b) + if kind == Prompt::True && b
                    == old(self).bin_of(*lor) {
                    1nat
                } else {
                    0nat
                },
            forall|b: int| #[trigger]
                final(self).scatters_in(b) == old(self).scatters_in(b) + if kind == Prompt::Scatter
                    && b == old(self).bin_of(*lor) {
                    1nat
                } else {
                    0nat
                },
    {
        let ghost before = *self;
        let ghost fills = self.filled@;
        let ghost after = fills.push((kind, *lor));
        proof {
            lemma_tally_bounded(before.bins(), fills, Prompt::True, before.bin_of(*lor));
            lemma_tally_bounded(before.bins(), fills, Prompt::Scatter, before.bin_of(*lor));
            assert(after.drop_last() =~= fills);
            assert forall|i: int| 0 <= i < after.len() implies (#[trigger] after[i]).0
                != Prompt::Random by {
                if i < fills.len() {
                    assert(after[i] == fills[i]);
                }
            }
        }
        match kind {
            Prompt::True => self.trues.fill(lor),
            Prompt::Scatter => self.scatters.fill(lor),
            Prompt::Random => {},
        }
        self.filled = Ghost(after);
        proof {
            assert forall|b: int| #[trigger] self.trues.count(b) == self.trues_in(b) by {
                lemma_tally_same_bins(self.bins(), before.bins(), after, Prompt::True, b);
                assert(before.trues.count(b) == before.trues_in(b));
            }
            assert forall|b: int| #[trigger] self.scatters.count(b) == self.scatters_in(b) by {
                lemma_tally_same_bins(self.bins(), before.bins(), after, Prompt::Scatter, b);
                assert(before.scatters.count(b) == before.scatters_in(b));
            }
            assert forall|l: LOR| #[trigger] self.scatters.bin_of(l) == self.trues.bin_of(l) by {
                assert(before.scatters.bin_of(l) == before.trues.bin_of(l));
            }
            assert forall|b: int| #[trigger]
                self.trues_in(b) == before.trues_in(b) + if kind == Prompt::True && b
                    == before.bin_of(*lor) {
                    1nat
                } else {
                    0nat
                } by {
                lemma_tally_same_bins(self.bins(), before.bins(), after, Prompt::True, b);
                lemma_tally_push(before.bins(), fills, (kind, *lor), Prompt::True, b);
            }
            assert forall|b: int| #[trigger]
                self.scatters_in(b) == before.scatters_in(b) + if kind == Prompt::Scatter && b
                    == before.bin_of(*lor) {
                    1nat
                } else {
                    0nat
                } by {
                lemma_tally_same_bins(self.bins(), before.bins(), after, Prompt::Scatter, b);
                lemma_tally_push(before.bins(), fills, (kind, *lor), Prompt::Scatter, b);
            }
        }
    }

    /// The scatter fraction of the bin of `lor`: its scatters over its trues
    /// and scatters together, or 0 where the bin is empty.
    pub fn value(&self, lor: &LOR) -> (fraction: Ratio)
        requires
            self.inv(),
            lor_in_range(*lor),
        ensures
            fraction == scatter_fraction(
                self.trues_in(self.bin_of(*lor)),
                self.scatters_in(self.bin_of(*lor)),
            ),
            self.trues_in(self.bin_of(*lor)) + self.scatters_in(self.bin_of(*lor)) == 0
                ==> fraction.num == 0 && fraction.den == 1,
            self.trues_in(self.bin_of(*lor)) + self.scatters_in(self.bin_of(*lor)) > 0
                ==> fraction.num == self.scatters_in(self.bin_of(*lor)) && fraction.den
                == self.trues_in(self.bin_of(*lor)) + self.scatters_in(self.bin_of(*lor)),
    {
        let trues = self.trues.value(lor);
        let scatters = self.scatters.value(lor);
        fraction_of(trues, scatters)
    }

    /// The scatter fraction of the bin of `lor`, with the numbers of trues
    /// and of scatters in that bin.
    pub fn triplet(&self, lor: &LOR) -> (all: (Ratio, usize, usize))
        requires
            self.inv(),
            lor_in_range(*lor),
        ensures
            all.1 == self.trues_in(self.bin_of(*lor)),
            all.2 == self.scatters_in(self.bin_of(*lor)),
            all.0 == scatter_fraction(all.1 as nat, all.2 as nat),
            all.1 + all.2 == 0 ==> all.0.num == 0 && all.0.den == 1,
            all.1 + all.2 > 0 ==> all.0.num == all.2 && all.0.den == all.1 + all.2,
    {
        let trues = self.trues.value(lor);
        let scatters = self.scatters.value(lor);
        (fraction_of(trues, scatters), trues, scatters)
    }
}

/// The scatter fraction of a bin; see `scatter_fraction`.
fn fraction_of(trues: usize, scatters: usize) -> (fraction: Ratio)
    ensures
        fraction == scatter_fraction(trues as nat, scatters as nat),
        trues + scatters == 0 ==> fraction.num == 0 && fraction.den == 1,
        trues + scatters > 0 ==> fraction.num == scatters && fraction.den == trues + scatters,
{
    if trues == 0 && scatters == 0 {
        Ratio::zero()
    } else {
        Ratio { num: scatters as i128, den: trues as i128 + scatters as i128 }
    }
}


/// Energy below which a detected gamma is taken to have scattered, in
/// electronvolts: the energy of an annihilation gamma.
pub const SCATTER_THRESHOLD: Energy = 511_000;

/// The kind of a row: scattered if the smaller of its two energies is below
/// the threshold, true otherwise.
pub open spec fn prompt_of(row: Hdf5Lor) -> Prompt {
    if row.E1 < SCATTER_THRESHOLD || row.E2 < SCATTER_THRESHOLD {
        Prompt::Scatter
    } else {
        Prompt::True
    }
}

/// The fills that a table gives rise to: one per row whose end points are in
/// range, in the order of the table.
pub open spec fn prompts_of(rows: Seq<Hdf5Lor>) -> Seq<(Prompt, LOR)>
    decreases rows.len(),
{
    if rows.len() == 0 {
        Seq::empty()
    } else {
        let earlier = prompts_of(rows.drop_last());
        if lor_in_range(rows.last().spec_lor()) {
            earlier.push((prompt_of(rows.last()), rows.last().spec_lor()))
        } else {
            earlier
        }
    }
}

/// A table gives rise to no more fills than it has rows.
pub proof fn lemma_prompts_of_bounded(rows: Seq<Hdf5Lor>)
    ensures
        prompts_of(rows).len() <= rows.len(),
    decreases rows.len(),
{
    if rows.len() > 0 {
        lemma_prompts_of_bounded(rows.drop_last());
    }
}

/// Builds a scattergram from a table of coincidences: each row with end
/// points in range is filled once, as a scatter or as a true coincidence
/// according to its energies.
#[allow(nonstandard_style)]
pub fn fill_scattergram<L: Lorogram, F: Fn() -> L>(
    make_empty_lorogram: F,
    lors: Vec<Hdf5Lor>,
) -> (sgram: Scattergram<L>)
    requires
        call_requires(make_empty_lorogram, ()),
        forall|h: L|
            call_ensures(make_empty_lorogram, (), h) ==> h.inv() && forall|b: int|
                #[trigger] h.count(b) == 0,
        forall|h1: L, h2: L, l: LOR|
            call_ensures(make_empty_lorogram, (), h1) && call_ensures(make_empty_lorogram, (), h2)
                ==> #[trigger] h1.bin_of(l) == #[trigger] h2.bin_of(l),
    ensures
        sgram.inv(),
        sgram.filled() == prompts_of(lors@),
        forall|h: L, l: LOR|
            call_ensures(make_empty_lorogram, (), h) ==> #[trigger] h.bin_of(l) == sgram.bin_of(l),
{
    let mut sgram = Scattergram::new(make_empty_lorogram);
    let ghost empty = sgram;
    let mut i: usize = 0;
    assert(lors@.take(0) =~= Seq::<Hdf5Lor>::empty());
    while i < lors.len()
        invariant
            i <= lors@.len(),
            sgram.inv(),
            sgram.filled() == prompts_of(lors@.take(i as int)),
            forall|l: LOR| #[trigger] sgram.bin_of(l) == empty.bin_of(l),
        decreases lors@.len() - i,
    {
        assert(lors@.take(i + 1).drop_last() =~= lors@.take(i as int));
        proof {
            lemma_prompts_of_bounded(lors@.take(i as int));
        }
        let h5lor = &lors[i];
        let lor = LOR::from(*h5lor);
        if is_lor_in_range(&lor) {
            let prompt = if h5lor.E1 < SCATTER_THRESHOLD || h5lor.E2 < SCATTER_THRESHOLD {
                Prompt::Scatter
            } else {
                Prompt::True
            };
            sgram.fill(prompt, &lor);
        }
        i += 1;
    }
    assert(lors@.take(i as int) =~= lors@);
    sgram
}

} // verus!
