//! Selection of lines of response from a table of detected coincidences.

use vstd::prelude::*;
use crate::units::{Length, Ratio, Time, VecOf, LOR};

verus! {

/// An energy, in electronvolts.
pub type Energy = i64;

/// A pair of inclusive bounds; an absent bound admits everything on its side.
#[derive(Clone, Copy, Debug)]
pub struct BoundPair {
    pub low: Option<i64>,
    pub high: Option<i64>,
}

impl BoundPair {
    /// Whether `x` lies within both bounds.
    pub open spec fn spec_contains(self, x: i64) -> bool {
        &&& self.low matches Some(low) ==> low <= x
        &&& self.high matches Some(high) ==> x <= high
    }

    /// The pair that admits everything.
    pub fn unbounded() -> (all: Self)
        ensures
            all.low is None,
            all.high is None,
    {
        BoundPair { low: None, high: None }
    }

    /// Whether `x` lies within both bounds.
    pub fn contains(&self, x: i64) -> (inside: bool)
        ensures
            inside == self.spec_contains(x),
    {
        let above = match self.low {
            Some(low) => low <= x,
            None => true,
        };
        let below = match self.high {
            Some(high) => x <= high,
            None => true,
        };
        above && below
    }
}

/// What to read and which events to keep.
#[derive(Clone)]
pub struct Args {
    pub input_file: String,
    pub dataset: String,
    pub event_range: Option<std::ops::Range<usize>>,
    pub use_true: bool,
    pub legacy_input_format: bool,
    pub ecut: BoundPair,
    pub qcut: BoundPair,
}

/// The charge that one sensor collected in one event.
#[derive(Clone, Copy, Debug, PartialEq, Eq)]
pub struct Charge {
    pub event_id: u64,
    pub sensor_id: u64,
    pub charge: u64,
}

/// One row of a table of lines of response: the two detections with their
/// time difference, charges and energies.
#[allow(nonstandard_style)]
#[derive(Clone, Copy, Debug, PartialEq, Eq)]
pub struct Hdf5Lor {
    pub dt: Time,
    pub x1: Length,
    pub y1: Length,
    pub z1: Length,
    pub x2: Length,
    pub y2: Length,
    pub z2: Length,
    pub q1: i64,
    pub q2: i64,
    pub E1: Energy,
    pub E2: Energy,
}

impl Hdf5Lor {
    /// The line of response of this row: its two end points and its time
    /// difference, with no correction.
    pub open spec fn spec_lor(self) -> LOR {
        LOR {
            p1: VecOf { x: self.x1, y: self.y1, z: self.z1 },
            p2: VecOf { x: self.x2, y: self.y2, z: self.z2 },
            dt: self.dt,
            additive_correction: Ratio { num: 1, den: 1 },
        }
    }
}

impl From<Hdf5Lor> for LOR {
    /// The line of response of a row.
    fn from(lor: Hdf5Lor) -> (out: Self) {
        let Hdf5Lor { dt, x1, y1, z1, x2, y2, z2, .. } = lor;
        Self {
            dt,
            p1: VecOf { x: x1, y: y1, z: z1 },
            p2: VecOf { x: x2, y: y2, z: z2 },
            additive_correction: Ratio { num: 1, den: 1 },
        }
    }
}

impl vstd::std_specs::convert::FromSpecImpl<Hdf5Lor> for LOR {
    open spec fn obeys_from_spec() -> bool {
        true
    }

    open spec fn from_spec(lor: Hdf5Lor) -> Self {
        lor.spec_lor()
    }
}

impl Args {
    /// Whether a row passes both cuts: both energies within `ecut` and both
    /// charges within `qcut`.
    pub open spec fn spec_accepts(self, row: Hdf5Lor) -> bool {
        &&& self.ecut.spec_contains(row.E1)
        &&& self.ecut.spec_contains(row.E2)
        &&& self.qcut.spec_contains(row.q1)
        &&& self.qcut.spec_contains(row.q2)
    }

    /// Whether a row passes both cuts.
    pub fn accepts(&self, row: &Hdf5Lor) -> (ok: bool)
        ensures
            ok == self.spec_accepts(*row),
    {
        let eok = self.ecut.contains(row.E1) && self.ecut.contains(row.E2);
        let qok = self.qcut.contains(row.q1) && self.qcut.contains(row.q2);
        eok && qok
    }
}

/// The lines of response of the rows that pass the cuts of `args`, in the
/// order of the table.
pub open spec fn selected(args: Args, table: Seq<Hdf5Lor>) -> Seq<LOR>
    decreases table.len(),
{
    if table.len() == 0 {
        Seq::empty()
    } else {
        let rest = selected(args, table.drop_last());
        if args.spec_accepts(table.last()) {
            rest.push(table.last().spec_lor())
        } else {
            rest
        }
    }
}

/// Keeps the rows of `table` that pass the cuts of `args` and turns them
/// into lines of response; also counts the rows rejected.
pub fn select_lors(args: &Args, table: &Vec<Hdf5Lor>) -> (kept: (Vec<LOR>, usize))
    ensures
        kept.0@ == selected(*args, table@),
        kept.0@.len() + kept.1 == table@.len(),
{
    let mut lors: Vec<LOR> = Vec::new();
    let mut rejected: usize = 0;
    let mut i: usize = 0;
    while i < table.len()
        invariant
            i <= table@.len(),
            lors@ == selected(*args, table@.take(i as int)),
            lors@.len() + rejected == i,
        decreases table@.len() - i,
    {
        assert(table@.take(i + 1).drop_last() == table@.take(i as int));
        let row = &table[i];
        if args.accepts(row) {
            lors.push(LOR::from(*row));
        } else {
            rejected += 1;
        }
        i += 1;
    }
    assert(table@.take(i as int) == table@);
    (lors, rejected)
}

/// Share of the rows kept, in whole percent rounded down; `None` when there
/// was no row at all.
pub fn used_percent(used: usize, rejected: usize) -> (pct: Option<usize>)
    ensures
        used + rejected == 0 <==> pct is None,
        pct matches Some(p) ==> p == (100 * used) / (used + rejected),
{
    if used == 0 && rejected == 0 {
        None
    } else {
        let p = (100 * (used as u128)) / (used as u128 + rejected as u128);
        assert(p <= 100) by (nonlinear_arith)
            requires
                p == (100 * used) / (used + rejected),
                used + rejected > 0,
        ;
        Some(p as usize)
    }
}

} // verus!
