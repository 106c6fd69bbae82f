//! Where along its line of response each chord lies, as a time-of-flight
//! weight needs it.
//!
//! A time-of-flight weight depends on the distance between the middle of a
//! chord and the most likely point of annihilation. That point lies at a
//! fixed distance, given by the time difference of the two detections, from
//! the centre of the line. This module tracks, chord by chord, the distance
//! from the middle of the chord to the centre of the line.

use vstd::prelude::*;
use crate::units::{point_in_range, Index, Point};
use crate::weights::chords::{chords_before, lemma_chords_before_next};
use crate::weights::laws::{lemma_start_walks, lemma_trace_reaches_exit, to_exit};
use crate::weights::{Ticks, VoxelBox, WeightsAlongLOR, TICKS_BOUND};

verus! {

/// One voxel crossed by a line of response.
#[derive(Clone, Copy, Debug, PartialEq, Eq)]
pub struct MidChord {
    /// Index of the voxel.
    pub index: Index,
    /// Length of the chord inside the voxel, in ticks.
    pub chord: Ticks,
    /// Distance from the middle of the chord to the centre of the line, in
    /// half ticks: positive where the chord lies before the centre on the
    /// way from `p1` to `p2`, negative where it lies after it.
    pub to_centre: i128,
}

/// A walk along a line of response that keeps track of its position on the
/// line.
#[derive(Clone, Copy, Debug)]
pub struct MidChords {
    walk: WeightsAlongLOR,
    /// Ticks from `p1` to the current position.
    position: Ticks,
    /// Ticks from `p1` to `p2`.
    lor_ticks: Ticks,
}

/// Distance, in half ticks, from the middle of a chord that starts
/// `position` ticks after `p1` to the centre of a line of `lor_ticks` ticks.
pub open spec fn mid_chord_to_centre(lor_ticks: int, position: int, chord: int) -> int {
    lor_ticks - 2 * position - chord
}

impl MidChords {
    /// The walk through the voxels.
    pub closed spec fn walk(self) -> WeightsAlongLOR {
        self.walk
    }

    /// Ticks from `p1` to the current position.
    pub closed spec fn position(self) -> int {
        self.position as int
    }

    /// Ticks from `p1` to `p2`.
    pub closed spec fn lor_ticks(self) -> int {
        self.lor_ticks as int
    }

    /// The walk is consistent and the position, even at the end of the walk,
    /// stays within the largest tick count.
    pub closed spec fn inv(self) -> bool {
        &&& self.walk.inv()
        &&& 1 <= self.lor_ticks <= TICKS_BOUND
        &&& self.walk.walking() ==> (to_exit(self.walk) matches Some(left) && self.position + left
            <= TICKS_BOUND)
    }

    /// What `next` yields in this state.
    pub open spec fn spec_next(self) -> Option<MidChord> {
        if self.walk().walking() {
            Some(
                MidChord {
                    index: self.walk().true_index(),
                    chord: self.walk().chord(),
                    to_centre: mid_chord_to_centre(
                        self.lor_ticks(),
                        self.position(),
                        self.walk().chord() as int,
                    ) as i128,
                },
            )
        } else {
            None
        }
    }

    /// Starts at the point where the line from `p1` to `p2` enters `vbox`;
    /// `None` when the line misses the box, for which no time-of-flight
    /// weight is defined.
    pub fn new(p1: Point, p2: Point, vbox: &VoxelBox) -> (tracker: Option<Self>)
        requires
            vbox.wf(),
            point_in_range(p1),
            point_in_range(p2),
        ensures
            tracker is Some <==> vbox.hits(p1, p2),
            tracker matches Some(t) ==> {
                &&& t.inv()
                &&& t.walk() == WeightsAlongLOR::spec_new(p1, p2, *vbox)
                &&& t.position() == vbox.entry_tick(p1, p2)
                &&& t.lor_ticks() == vbox.lor_ticks(p1, p2)
            },
    {
        match vbox.entry(&p1, &p2) {
            None => None,
            Some(entry) => {
                let walk = WeightsAlongLOR::new(p1, p2, vbox);
                proof {
                    lemma_start_walks(p1, p2, *vbox);
                    vbox.lemma_exit_bounded(p1, p2);
                }
                Some(MidChords { walk, position: entry.num as u128, lor_ticks: entry.den as u128 })
            },
        }
    }

    /// Yields the next voxel with its chord and the place of the chord on
    /// the line, and moves on; yields nothing once the walk is over or has
    /// left the grid.
    pub fn next(&mut self) -> (item: Option<MidChord>)
        requires
            old(self).inv(),
        ensures
            final(self).inv(),
            item == old(self).spec_next(),
            final(self).lor_ticks() == old(self).lor_ticks(),
            item matches Some(found) ==> {
                &&& final(self).walk() == old(self).walk().advanced()
                &&& final(self).position() == old(self).position() + found.chord
            },
            item is None ==> *final(self) == *old(self),
    {
        if !self.walk.is_walking() {
            return None;
        }
        proof {
            lemma_trace_reaches_exit(self.walk);
            crate::weights::laws::lemma_step_towards_exit(self.walk);
        }
        let position = self.position;
        match self.walk.next() {
            None => None,
            Some((index, chord)) => {
                let to_centre = self.lor_ticks as i128 - 2 * (position as i128) - chord as i128;
                self.position = position + chord;
                Some(MidChord { index, chord, to_centre })
            },
        }
    }
}

/// The voxels that the line from `p1` to `p2` crosses in `vbox`, in order,
/// each with its chord and with the distance from the middle of the chord to
/// the centre of the line: the line is `lor_ticks` ticks long, the first chord
/// begins at the entry point, and every other chord where the one before it
/// ends.
pub fn mid_chords(p1: Point, p2: Point, vbox: &VoxelBox) -> (found: Vec<MidChord>)
    requires
        vbox.wf(),
        point_in_range(p1),
        point_in_range(p2),
    ensures
        found@.len() == WeightsAlongLOR::spec_new(p1, p2, *vbox).trace().len(),
        forall|i: int|
            0 <= i < found@.len() ==> {
                let hits = WeightsAlongLOR::spec_new(p1, p2, *vbox).trace();
                &&& (#[trigger] found@[i]).index == hits[i].0
                &&& found@[i].chord == hits[i].1
                &&& found@[i].to_centre == mid_chord_to_centre(
                    vbox.lor_ticks(p1, p2),
                    vbox.entry_tick(p1, p2) + chords_before(hits, i),
                    hits[i].1 as int,
                )
            },
{
    let mut found: Vec<MidChord> = Vec::new();
    let ghost first = WeightsAlongLOR::spec_new(p1, p2, *vbox);
    let ghost hits = first.trace();
    let mut tracker = match MidChords::new(p1, p2, vbox) {
        None => {
            return found;
        },
        Some(tracker) => tracker,
    };
    proof {
        lemma_start_walks(p1, p2, *vbox);
        assert(hits.take(0) =~= Seq::<(Index, Ticks)>::empty());
        assert(hits.skip(0) =~= hits);
    }
    loop
        invariant_except_break
            tracker.inv(),
            tracker.walk().inv(),
            found@.len() <= hits.len(),
            tracker.walk().trace() =~= hits.skip(found@.len() as int),
            tracker.position() == vbox.entry_tick(p1, p2) + chords_before(hits, found@.len() as int),
        invariant
            hits == WeightsAlongLOR::spec_new(p1, p2, *vbox).trace(),
            tracker.lor_ticks() == vbox.lor_ticks(p1, p2),
            forall|i: int|
                0 <= i < found@.len() ==> {
                    &&& (#[trigger] found@[i]).index == hits[i].0
                    &&& found@[i].chord == hits[i].1
                    &&& found@[i].to_centre == mid_chord_to_centre(
                        vbox.lor_ticks(p1, p2),
                        vbox.entry_tick(p1, p2) + chords_before(hits, i),
                        hits[i].1 as int,
                    )
                },
        ensures
            found@.len() == hits.len(),
        decreases tracker.walk().steps_left(),
    {
        let ghost before = tracker.walk();
        let ghost done = found@.len() as int;
        match tracker.next() {
            None => {
                assert(before.trace() =~= Seq::<(Index, Ticks)>::empty());
                break ;
            },
            Some(hit) => {
                proof {
                    before.lemma_steps_left_decreases();
                    assert(before.trace() =~= seq![(hit.index, hit.chord)]
                        + before.advanced().trace());
                    assert(hits.skip(done)[0] == hits[done]);
                    assert(hits.skip(done).skip(1) =~= hits.skip(done + 1));
                    lemma_chords_before_next(hits, done);
                }
                found.push(hit);
            },
        }
    }
    found
}

} // verus!
