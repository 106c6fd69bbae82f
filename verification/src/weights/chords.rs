//! Where on the line each chord lies, and that it lies in the voxel it is
//! yielded with.

use vstd::prelude::*;
use crate::units::{point_in_range, Index, Length, Point};
use crate::weights::laws::{
    after_steps, lemma_after_one_more, lemma_axis_to_exit_after, lemma_axis_to_exit_at_start,
    lemma_start_walks, lemma_trace_item, to_exit_x, to_exit_y, to_exit_z, total_chord,
};
use crate::weights::{
    axis_enter, axis_exit, axis_step, start_index, unflip, Ticks, VoxelBox, WeightsAlongLOR,
};

verus! {

/// The distance `left`, if any, less `by`.
pub open spec fn less(left: Option<int>, by: int) -> Option<int> {
    match left {
        Some(l) => Some(l - by),
        None => None,
    }
}

/// The chords of the first `i` items of `hits` added up.
pub open spec fn chords_before(hits: Seq<(Index, Ticks)>, i: int) -> int {
    total_chord(hits.take(i))
}

/// After `i` steps the walk is nearer to the upper face of every axis by the
/// chords of the first `i` items.
pub proof fn lemma_to_exit_after_steps(walk: WeightsAlongLOR, i: nat)
    requires
        walk.inv(),
        i < walk.trace().len(),
    ensures
        to_exit_x(after_steps(walk, i)) == less(to_exit_x(walk), chords_before(walk.trace(), i as int)),
        to_exit_y(after_steps(walk, i)) == less(to_exit_y(walk), chords_before(walk.trace(), i as int)),
        to_exit_z(after_steps(walk, i)) == less(to_exit_z(walk), chords_before(walk.trace(), i as int)),
    decreases i,
{
    let hits = walk.trace();
    if i == 0 {
        assert(hits.take(0) =~= Seq::<(Index, Ticks)>::empty());
    } else {
        let before = (i - 1) as nat;
        lemma_to_exit_after_steps(walk, before);
        lemma_trace_item(walk, before);
        lemma_trace_item(walk, i);
        lemma_after_one_more(walk, before);
        let at = after_steps(walk, before);
        at.lemma_steps_left_decreases();
        let chord = at.chord();
        match at {
            WeightsAlongLOR::Outside => {},
            WeightsAlongLOR::Inside { to_boundary, n_voxels, voxel_size, index, flipped } => {
                lemma_axis_to_exit_after(index.x, n_voxels.x, to_boundary.x, voxel_size.x, chord);
                lemma_axis_to_exit_after(index.y, n_voxels.y, to_boundary.y, voxel_size.y, chord);
                lemma_axis_to_exit_after(index.z, n_voxels.z, to_boundary.z, voxel_size.z, chord);
            },
        }
        lemma_chords_before_next(hits, before as int);
    }
}

/// The chords before an item and its own chord are the chords before the
/// next item.
pub proof fn lemma_chords_before_next(hits: Seq<(Index, Ticks)>, i: int)
    requires
        0 <= i < hits.len(),
    ensures
        chords_before(hits, i + 1) == chords_before(hits, i) + hits[i].1,
    decreases i,
{
    let upto = hits.take(i + 1);
    assert(upto.skip(1) =~= hits.skip(1).take(i));
    if i == 0 {
        assert(hits.take(0) =~= Seq::<(Index, Ticks)>::empty());
        assert(upto.skip(1) =~= Seq::<(Index, Ticks)>::empty());
    } else {
        lemma_chords_before_next(hits.skip(1), i - 1);
        assert(hits.take(i).skip(1) =~= hits.skip(1).take(i - 1));
        assert(hits.skip(1).take(i) =~= hits.skip(1).take(i - 1 + 1));
    }
}

/// Whether the voxels with the given index on an axis along which the line
/// moves hold the stretch of the line from tick `start` to tick `end`: the
/// line crosses the lower boundary plane of these voxels no later than
/// `start`, and the upper one no earlier than `end`.
pub open spec fn axis_holds_stretch(
    a: Length,
    b: Length,
    hw: Length,
    n: usize,
    c: int,
    index: usize,
    start: int,
    end: int,
) -> bool {
    let reflected = unflip(index, n, b < a);
    &&& axis_enter(a, b, hw, n, c) + reflected * axis_step(hw, c) <= start
    &&& end <= axis_enter(a, b, hw, n, c) + (reflected + 1) * axis_step(hw, c)
}

/// Whether the voxels with the given index on an axis along which the line
/// does not move hold the line: its coordinate `a` lies between their lower
/// boundary plane and their upper one. In a box without thickness these are
/// the voxels with index 0.
pub open spec fn still_axis_holds_line(a: Length, hw: Length, n: usize, index: usize) -> bool {
    if hw == 0 {
        index == 0
    } else {
        index * (2 * hw) <= (a + hw) * n < (index + 1) * (2 * hw)
    }
}

/// A state that is a given distance from the upper face of an axis has its
/// chord in its voxel on that axis.
proof fn lemma_axis_holds_stretch(
    a: Length,
    b: Length,
    hw: Length,
    n: usize,
    c: int,
    index: usize,
    to_boundary: Ticks,
    chord: Ticks,
    start: int,
)
    requires
        index < n,
        0 < chord <= to_boundary <= axis_step(hw, c),
        axis_exit(a, b, hw, n, c) == axis_enter(a, b, hw, n, c) + n * axis_step(hw, c),
        (n - 1 - index) * axis_step(hw, c) + to_boundary == axis_exit(a, b, hw, n, c) - start,
    ensures
        axis_holds_stretch(a, b, hw, n, c, unflip(index, n, b < a), start, start + chord),
        to_boundary == chord ==> start + chord == axis_enter(a, b, hw, n, c) + (index + 1)
            * axis_step(hw, c),
{
    let step = axis_step(hw, c);
    assert((n - 1 - index) * step == n * step - (index + 1) * step && (index + 1) * step == index
        * step + step) by (nonlinear_arith);
}

/// A line that keeps its coordinate on an axis runs in the voxel that the
/// walk starts in.
proof fn lemma_still_axis_holds_line(a: Length, hw: Length, n: usize)
    requires
        hw > 0,
        0 < a + hw < 2 * hw,
        n >= 1,
    ensures
        0 <= start_index(a, a, hw, n, 0, 0) < n,
        still_axis_holds_line(a, hw, n, start_index(a, a, hw, n, 0, 0) as usize),
{
    let (up, den) = ((a + hw) * n, 2 * hw);
    vstd::arithmetic::div_mod::lemma_fundamental_div_mod(up, den);
    assert(0 <= up % den < den && 0 <= up < den * n) by (nonlinear_arith)
        requires
            den > 0,
            up == (a + hw) * n,
            0 < a + hw < den,
            n >= 1,
    ;
    let q = up / den;
    assert(0 <= q < n && q * den == den * q && (q + 1) * den == den * q + den)
        by (nonlinear_arith)
        requires
            up == den * q + up % den,
            0 <= up % den < den,
            0 <= up < den * n,
    ;
}

/// Every chord lies in its voxel: item `i` of a walk is a stretch of the
/// line, beginning where the chords before it end, that lies on every axis
/// within the voxel it is yielded with; and the stretch ends on a boundary
/// plane of that voxel.
pub proof fn lemma_chord_lies_in_voxel(p1: Point, p2: Point, vbox: VoxelBox, i: int)
    requires
        vbox.wf(),
        point_in_range(p1),
        point_in_range(p2),
        0 <= i < WeightsAlongLOR::spec_new(p1, p2, vbox).trace().len(),
    ensures
        ({
            let hits = WeightsAlongLOR::spec_new(p1, p2, vbox).trace();
            let start = vbox.entry_tick(p1, p2) + chords_before(hits, i);
            let end = start + hits[i].1;
            let (hw, n, at) = (vbox.half_width, vbox.n, hits[i].0);
            let (cx, cy, cz) = (
                vbox.cofactor_x(p1, p2),
                vbox.cofactor_y(p1, p2),
                vbox.cofactor_z(p1, p2),
            );
            &&& p1.x != p2.x ==> axis_holds_stretch(p1.x, p2.x, hw.x, n.x, cx, at.x, start, end)
            &&& p1.y != p2.y ==> axis_holds_stretch(p1.y, p2.y, hw.y, n.y, cy, at.y, start, end)
            &&& p1.z != p2.z ==> axis_holds_stretch(p1.z, p2.z, hw.z, n.z, cz, at.z, start, end)
            &&& p1.x == p2.x ==> still_axis_holds_line(p1.x, hw.x, n.x, at.x)
            &&& p1.y == p2.y ==> still_axis_holds_line(p1.y, hw.y, n.y, at.y)
            &&& p1.z == p2.z ==> still_axis_holds_line(p1.z, hw.z, n.z, at.z)
            &&& (p1.x != p2.x && end == axis_enter(p1.x, p2.x, hw.x, n.x, cx) + (unflip(
                at.x,
                n.x,
                p2.x < p1.x,
            ) + 1) * axis_step(hw.x, cx)) || (p1.y != p2.y && end == axis_enter(
                p1.y,
                p2.y,
                hw.y,
                n.y,
                cy,
            ) + (unflip(at.y, n.y, p2.y < p1.y) + 1) * axis_step(hw.y, cy)) || (p1.z != p2.z && end
                == axis_enter(p1.z, p2.z, hw.z, n.z, cz) + (unflip(at.z, n.z, p2.z < p1.z) + 1)
                * axis_step(hw.z, cz))
        }),
{
    let first = WeightsAlongLOR::spec_new(p1, p2, vbox);
    let hits = first.trace();
    assert(vbox.hits(p1, p2));
    vbox.lemma_faces(p1, p2);
    lemma_start_walks(p1, p2, vbox);
    lemma_trace_item(first, i as nat);
    lemma_to_exit_after_steps(first, i as nat);
    let state = after_steps(first, i as nat);
    state.lemma_steps_left_decreases();
    crate::weights::laws::lemma_frame_after_steps(first, i as nat);
    let tin = vbox.entry_tick(p1, p2);
    let start = tin + chords_before(hits, i);
    let chord = state.chord();
    let (hw, n) = (vbox.half_width, vbox.n);
    match state {
        WeightsAlongLOR::Outside => {},
        WeightsAlongLOR::Inside { to_boundary, n_voxels, voxel_size, index, flipped } => {
            if p1.x != p2.x {
                let c = vbox.cofactor_x(p1, p2);
                lemma_axis_to_exit_at_start(p1.x, p2.x, hw.x, n.x, c, tin);
                lemma_axis_holds_stretch(
                    p1.x,
                    p2.x,
                    hw.x,
                    n.x,
                    c,
                    index.x,
                    to_boundary.x->0,
                    chord,
                    start,
                );
            } else if hw.x != 0 {
                lemma_still_axis_holds_line(p1.x, hw.x, n.x);
            }
            if p1.y != p2.y {
                let c = vbox.cofactor_y(p1, p2);
                lemma_axis_to_exit_at_start(p1.y, p2.y, hw.y, n.y, c, tin);
                lemma_axis_holds_stretch(
                    p1.y,
                    p2.y,
                    hw.y,
                    n.y,
                    c,
                    index.y,
                    to_boundary.y->0,
                    chord,
                    start,
                );
            } else if hw.y != 0 {
                lemma_still_axis_holds_line(p1.y, hw.y, n.y);
            }
            if p1.z != p2.z {
                let c = vbox.cofactor_z(p1, p2);
                lemma_axis_to_exit_at_start(p1.z, p2.z, hw.z, n.z, c, tin);
                lemma_axis_holds_stretch(
                    p1.z,
                    p2.z,
                    hw.z,
                    n.z,
                    c,
                    index.z,
                    to_boundary.z->0,
                    chord,
                    start,
                );
            } else if hw.z != 0 {
                lemma_still_axis_holds_line(p1.z, hw.z, n.z);
            }
        },
    }
}

} // verus!
