//! What holds of every walk of a line of response through a voxel box.

use vstd::prelude::*;
use vstd::arithmetic::div_mod::lemma_fundamental_div_mod;
use crate::units::{point_in_range, BoxDim, Index, Length, Point, VecOf};
use crate::weights::{
    axis_enter, axis_exit, axis_inv, axis_step, index_after, sooner, start_index,
    start_to_boundary, start_voxel_size, to_boundary_after, Ticks, VoxelBox, WeightsAlongLOR,
};

verus! {

/// The chords of `hits` added up.
pub open spec fn total_chord(hits: Seq<(Index, Ticks)>) -> int
    decreases hits.len(),
{
    if hits.len() == 0 {
        0
    } else {
        hits[0].1 + total_chord(hits.skip(1))
    }
}

/// Ticks from the current position to the upper face of the box on one axis;
/// `None` for an axis along which the line has no extent.
pub open spec fn axis_to_exit(
    index: usize,
    n: usize,
    to_boundary: Option<Ticks>,
    voxel_size: Option<Ticks>,
) -> Option<int> {
    match (to_boundary, voxel_size) {
        (Some(t), Some(v)) => Some((n - 1 - index) * v + t),
        _ => None,
    }
}

/// Ticks from the current position to the point where the line leaves the
/// box: the least over the axes.
pub open spec fn to_exit(walk: WeightsAlongLOR) -> Option<int> {
    match walk {
        WeightsAlongLOR::Outside => None,
        WeightsAlongLOR::Inside { to_boundary, n_voxels, voxel_size, index, flipped } => sooner(
            axis_to_exit(index.x, n_voxels.x, to_boundary.x, voxel_size.x),
            sooner(
                axis_to_exit(index.y, n_voxels.y, to_boundary.y, voxel_size.y),
                axis_to_exit(index.z, n_voxels.z, to_boundary.z, voxel_size.z),
            ),
        ),
    }
}

/// Ticks from the current position to the upper face of the box on the x
/// axis.
pub open spec fn to_exit_x(walk: WeightsAlongLOR) -> Option<int> {
    match walk {
        WeightsAlongLOR::Outside => None,
        WeightsAlongLOR::Inside { to_boundary, n_voxels, voxel_size, index, flipped } => axis_to_exit(
            index.x,
            n_voxels.x,
            to_boundary.x,
            voxel_size.x,
        ),
    }
}

/// Ticks from the current position to the upper face of the box on the y
/// axis.
pub open spec fn to_exit_y(walk: WeightsAlongLOR) -> Option<int> {
    match walk {
        WeightsAlongLOR::Outside => None,
        WeightsAlongLOR::Inside { to_boundary, n_voxels, voxel_size, index, flipped } => axis_to_exit(
            index.y,
            n_voxels.y,
            to_boundary.y,
            voxel_size.y,
        ),
    }
}

/// Ticks from the current position to the upper face of the box on the z
/// axis.
pub open spec fn to_exit_z(walk: WeightsAlongLOR) -> Option<int> {
    match walk {
        WeightsAlongLOR::Outside => None,
        WeightsAlongLOR::Inside { to_boundary, n_voxels, voxel_size, index, flipped } => axis_to_exit(
            index.z,
            n_voxels.z,
            to_boundary.z,
            voxel_size.z,
        ),
    }
}

/// One step brings an axis nearer to its upper face by the chord, and the
/// axis is at least a chord away from it.
pub(crate) proof fn lemma_axis_to_exit_after(
    index: usize,
    n: usize,
    to_boundary: Option<Ticks>,
    voxel_size: Option<Ticks>,
    chord: Ticks,
)
    requires
        axis_inv(to_boundary, voxel_size),
        index < n,
        chord > 0,
        to_boundary matches Some(t) ==> chord <= t,
    ensures
        match axis_to_exit(index, n, to_boundary, voxel_size) {
            None => axis_to_exit(
                index_after(index, to_boundary, chord),
                n,
                to_boundary_after(to_boundary, voxel_size, chord),
                voxel_size,
            ) is None,
            Some(left) => {
                &&& left >= chord
                &&& axis_to_exit(
                    index_after(index, to_boundary, chord),
                    n,
                    to_boundary_after(to_boundary, voxel_size, chord),
                    voxel_size,
                ) == Some(left - chord)
                &&& index_after(index, to_boundary, chord) >= n ==> left == chord
                &&& to_boundary != Some(chord) ==> left > chord
            },
        },
{
    match (to_boundary, voxel_size) {
        (Some(t), Some(v)) => {
            let k = n - 1 - index;
            assert(k * v >= 0 && (k - 1) * v + v == k * v && (k > 0 ==> k * v >= v) && (k == 0
                ==> k * v == 0)) by (nonlinear_arith)
                requires
                    k >= 0,
                    v > 0,
            ;
            assert(axis_to_exit(index, n, to_boundary, voxel_size) == Some(k * v + t));
            if t <= chord {
                assert(index_after(index, to_boundary, chord) == index + 1);
                assert(n - 1 - (index + 1) == k - 1);
                assert(axis_to_exit((index + 1) as usize, n, voxel_size, voxel_size) == Some(
                    (k - 1) * v + v,
                ));
            } else {
                assert(axis_to_exit(index, n, Some((t - chord) as Ticks), voxel_size) == Some(
                    k * v + (t - chord),
                ));
            }
        },
        _ => {},
    }
}

/// From any state in which the walk goes on, the chords still to come add up
/// to the distance to the point where the line leaves the box.
pub proof fn lemma_trace_reaches_exit(walk: WeightsAlongLOR)
    requires
        walk.walking(),
    ensures
        to_exit(walk) == Some(total_chord(walk.trace())),
    decreases walk.steps_left(),
{
    walk.lemma_steps_left_decreases();
    let after = walk.advanced();
    let chord = walk.chord();
    let hits = walk.trace();
    assert(hits.skip(1) =~= after.trace());
    assert(hits[0].1 == chord);
    assert(total_chord(hits) == chord + total_chord(after.trace()));
    match walk {
        WeightsAlongLOR::Outside => {},
        WeightsAlongLOR::Inside { to_boundary, n_voxels, voxel_size, index, flipped } => {
            lemma_axis_to_exit_after(index.x, n_voxels.x, to_boundary.x, voxel_size.x, chord);
            lemma_axis_to_exit_after(index.y, n_voxels.y, to_boundary.y, voxel_size.y, chord);
            lemma_axis_to_exit_after(index.z, n_voxels.z, to_boundary.z, voxel_size.z, chord);
            let left = to_exit(walk);
            assert(left is Some);
            assert(left->0 >= chord);
            if after.walking() {
                lemma_trace_reaches_exit(after);
                assert(to_exit(after) == Some(left->0 - chord));
            } else {
                assert(after.trace() =~= Seq::<(Index, Ticks)>::empty());
                assert(total_chord(after.trace()) == 0);
                let moved = VecOf {
                    x: index_after(index.x, to_boundary.x, chord),
                    y: index_after(index.y, to_boundary.y, chord),
                    z: index_after(index.z, to_boundary.z, chord),
                };
                assert(moved.x >= n_voxels.x || moved.y >= n_voxels.y || moved.z >= n_voxels.z);
                assert(left->0 == chord);
            }
        },
    }
}

/// The first state of a walk is as far from the upper face of an axis as the
/// entry point is.
pub(crate) proof fn lemma_axis_to_exit_at_start(
    a: Length,
    b: Length,
    hw: Length,
    n: usize,
    c: int,
    tin: int,
)
    requires
        a != b,
        axis_enter(a, b, hw, n, c) <= tin < axis_exit(a, b, hw, n, c),
        axis_exit(a, b, hw, n, c) == axis_enter(a, b, hw, n, c) + n * axis_step(hw, c),
        0 <= axis_step(hw, c) <= u128::MAX,
        n >= 1,
    ensures
        axis_step(hw, c) > 0,
        0 <= start_index(a, b, hw, n, c, tin) < n,
        axis_inv(start_to_boundary(a, b, hw, n, c, tin), start_voxel_size(a, b, hw, c)),
        axis_to_exit(
            start_index(a, b, hw, n, c, tin) as usize,
            n,
            start_to_boundary(a, b, hw, n, c, tin),
            start_voxel_size(a, b, hw, c),
        ) == Some(axis_exit(a, b, hw, n, c) - tin),
{
    let step = axis_step(hw, c);
    let off = tin - axis_enter(a, b, hw, n, c);
    assert(step > 0 && 0 <= off / step < n) by (nonlinear_arith)
        requires
            0 <= off < n * step,
            0 <= step,
    ;
    lemma_fundamental_div_mod(off, step);
    assert(0 <= off % step < step) by (nonlinear_arith)
        requires
            step > 0,
    ;
    let q = off / step;
    assert((n - 1 - q) * step + (step - off % step) == n * step - (step * q + off % step))
        by (nonlinear_arith);
}

impl VoxelBox {
    /// What a box and a line in range guarantee of the ticks of each axis.
    pub proof fn lemma_faces(self, p1: Point, p2: Point)
        requires
            self.wf(),
            point_in_range(p1),
            point_in_range(p2),
        ensures
            self.lor_ticks(p1, p2) >= 1,
            self.cofactor_x(p1, p2) >= 1,
            self.cofactor_y(p1, p2) >= 1,
            self.cofactor_z(p1, p2) >= 1,
            p1.x != p2.x ==> axis_exit(
                p1.x,
                p2.x,
                self.half_width.x,
                self.n.x,
                self.cofactor_x(p1, p2),
            ) == axis_enter(p1.x, p2.x, self.half_width.x, self.n.x, self.cofactor_x(p1, p2))
                + self.n.x * axis_step(self.half_width.x, self.cofactor_x(p1, p2)),
            p1.y != p2.y ==> axis_exit(
                p1.y,
                p2.y,
                self.half_width.y,
                self.n.y,
                self.cofactor_y(p1, p2),
            ) == axis_enter(p1.y, p2.y, self.half_width.y, self.n.y, self.cofactor_y(p1, p2))
                + self.n.y * axis_step(self.half_width.y, self.cofactor_y(p1, p2)),
            p1.z != p2.z ==> axis_exit(
                p1.z,
                p2.z,
                self.half_width.z,
                self.n.z,
                self.cofactor_z(p1, p2),
            ) == axis_enter(p1.z, p2.z, self.half_width.z, self.n.z, self.cofactor_z(p1, p2))
                + self.n.z * axis_step(self.half_width.z, self.cofactor_z(p1, p2)),
            0 <= axis_step(self.half_width.x, self.cofactor_x(p1, p2)) <= u128::MAX,
            0 <= axis_step(self.half_width.y, self.cofactor_y(p1, p2)) <= u128::MAX,
            0 <= axis_step(self.half_width.z, self.cofactor_z(p1, p2)) <= u128::MAX,
    {
        let (wx, wy, wz) = (self.weight_x(p1, p2), self.weight_y(p1, p2), self.weight_z(p1, p2));
        crate::fov::lemma_weight_bounds(p1.x, p2.x, self.n.x);
        crate::fov::lemma_weight_bounds(p1.y, p2.y, self.n.y);
        crate::fov::lemma_weight_bounds(p1.z, p2.z, self.n.z);
        let bound = 0x400_0000_0000int;
        crate::fov::lemma_product_bounds(wy, wz, bound, bound);
        crate::fov::lemma_product_bounds(wx, wz, bound, bound);
        crate::fov::lemma_product_bounds(wx, wy, bound, bound);
        crate::fov::lemma_product_bounds(wx * wy, wz, bound * bound, bound);
        crate::fov::lemma_axis_faces(p1.x, p2.x, self.half_width.x, self.n.x, wy * wz);
        crate::fov::lemma_axis_faces(p1.y, p2.y, self.half_width.y, self.n.y, wx * wz);
        crate::fov::lemma_axis_faces(p1.z, p2.z, self.half_width.z, self.n.z, wx * wy);
    }
}

/// Sum of chord lengths: the chords that a walk yields add up to the stretch
/// of the line between the point where it enters the box and the point where
/// it leaves it. The walk does not stop at `p2`: where `p2` lies inside the
/// box, the point where the line leaves the box lies beyond it. A line that
/// misses the box yields nothing.
pub proof fn lemma_chords_add_up(p1: Point, p2: Point, vbox: VoxelBox)
    requires
        vbox.wf(),
        point_in_range(p1),
        point_in_range(p2),
    ensures
        vbox.hits(p1, p2) ==> vbox.exit_tick(p1, p2) == Some(
            vbox.entry_tick(p1, p2) + total_chord(WeightsAlongLOR::spec_new(p1, p2, vbox).trace()),
        ),
        !vbox.hits(p1, p2) ==> WeightsAlongLOR::spec_new(p1, p2, vbox).trace() =~= Seq::empty(),
{
    let walk = WeightsAlongLOR::spec_new(p1, p2, vbox);
    if vbox.hits(p1, p2) {
        lemma_start_walks(p1, p2, vbox);
        lemma_trace_reaches_exit(walk);
    }
}

/// The first state of a walk that hits the box is consistent and in the grid,
/// and as far from the exit as the entry point is.
pub proof fn lemma_start_walks(p1: Point, p2: Point, vbox: VoxelBox)
    requires
        vbox.wf(),
        point_in_range(p1),
        point_in_range(p2),
        vbox.hits(p1, p2),
    ensures
        WeightsAlongLOR::spec_new(p1, p2, vbox).walking(),
        WeightsAlongLOR::spec_new(p1, p2, vbox).grid() == vbox.n,
        vbox.exit_tick(p1, p2) matches Some(out) && to_exit(
            WeightsAlongLOR::spec_new(p1, p2, vbox),
        ) == Some(out - vbox.entry_tick(p1, p2)),
{
    vbox.lemma_faces(p1, p2);
    let tin = vbox.entry_tick(p1, p2);
    let (hw, n) = (vbox.half_width, vbox.n);
    if p1.x != p2.x {
        lemma_axis_to_exit_at_start(p1.x, p2.x, hw.x, n.x, vbox.cofactor_x(p1, p2), tin);
    } else {
        crate::weights::lemma_still_axis_in_grid(p1.x, hw.x, n.x);
    }
    if p1.y != p2.y {
        lemma_axis_to_exit_at_start(p1.y, p2.y, hw.y, n.y, vbox.cofactor_y(p1, p2), tin);
    } else {
        crate::weights::lemma_still_axis_in_grid(p1.y, hw.y, n.y);
    }
    if p1.z != p2.z {
        lemma_axis_to_exit_at_start(p1.z, p2.z, hw.z, n.z, vbox.cofactor_z(p1, p2), tin);
    } else {
        crate::weights::lemma_still_axis_in_grid(p1.z, hw.z, n.z);
    }
}


/// The state of a walk after `steps` more items.
pub open spec fn after_steps(walk: WeightsAlongLOR, steps: nat) -> WeightsAlongLOR
    decreases steps,
{
    if steps == 0 {
        walk
    } else {
        after_steps(walk.advanced(), (steps - 1) as nat)
    }
}

/// Whether `i` is the index of a voxel of a grid of `n` voxels.
pub open spec fn index_in_grid(i: Index, n: BoxDim) -> bool {
    i.x < n.x && i.y < n.y && i.z < n.z
}

/// How far apart two indices are along one axis.
pub open spec fn axis_distance(a: usize, b: usize) -> int {
    if a >= b {
        a - b
    } else {
        b - a
    }
}

impl WeightsAlongLOR {
    /// Whether the next step takes the line across a voxel boundary of the
    /// x axis.
    pub open spec fn crosses_x(self) -> bool {
        self matches WeightsAlongLOR::Inside { to_boundary, .. } && to_boundary.x == Some(
            self.chord(),
        )
    }

    /// Whether the next step takes the line across a voxel boundary of the
    /// y axis.
    pub open spec fn crosses_y(self) -> bool {
        self matches WeightsAlongLOR::Inside { to_boundary, .. } && to_boundary.y == Some(
            self.chord(),
        )
    }

    /// Whether the next step takes the line across a voxel boundary of the
    /// z axis.
    pub open spec fn crosses_z(self) -> bool {
        self matches WeightsAlongLOR::Inside { to_boundary, .. } && to_boundary.z == Some(
            self.chord(),
        )
    }
}

/// Item `i` of what a walk yields is the voxel and chord of its state after
/// `i` steps, a state in which the walk goes on in the same grid.
pub proof fn lemma_trace_item(walk: WeightsAlongLOR, i: nat)
    requires
        walk.inv(),
        i < walk.trace().len(),
    ensures
        after_steps(walk, i).walking(),
        after_steps(walk, i).grid() == walk.grid(),
        walk.trace()[i as int] == (after_steps(walk, i).true_index(), after_steps(walk, i).chord()),
        after_steps(walk, i).trace() =~= walk.trace().skip(i as int),
    decreases i,
{
    if i > 0 {
        walk.lemma_steps_left_decreases();
        let after = walk.advanced();
        assert(walk.trace().skip(1) =~= after.trace());
        lemma_trace_item(after, (i - 1) as nat);
        assert(walk.trace().skip(1).skip(i - 1) =~= walk.trace().skip(i as int));
    }
}

/// Indices in range: every voxel that a walk yields belongs to the grid, and
/// every chord is longer than nothing.
pub proof fn lemma_trace_in_grid(walk: WeightsAlongLOR, i: int)
    requires
        walk.inv(),
        0 <= i < walk.trace().len(),
    ensures
        index_in_grid(walk.trace()[i].0, walk.grid()),
        walk.trace()[i].1 > 0,
{
    lemma_trace_item(walk, i as nat);
    after_steps(walk, i as nat).lemma_steps_left_decreases();
}

/// Indices in range, for the walk of a line through a box: every voxel
/// yielded has, on every axis, an index below the number of voxels of the box.
pub proof fn lemma_indices_in_range(p1: Point, p2: Point, vbox: VoxelBox, i: int)
    requires
        vbox.wf(),
        point_in_range(p1),
        point_in_range(p2),
        0 <= i < WeightsAlongLOR::spec_new(p1, p2, vbox).trace().len(),
    ensures
        index_in_grid(WeightsAlongLOR::spec_new(p1, p2, vbox).trace()[i].0, vbox.n),
{
    let walk = WeightsAlongLOR::spec_new(p1, p2, vbox);
    lemma_start_walks(p1, p2, vbox);
    lemma_trace_in_grid(walk, i);
}

/// Consecutive voxels are neighbours: from one item to the next the index
/// changes by exactly 1 on every axis whose voxel boundary the line crosses
/// at that point, and not at all on the others. The line always crosses the
/// boundary of at least one axis; it crosses those of two or three at once
/// only where it passes through an edge or a corner of a voxel.
pub proof fn lemma_consecutive_voxels(walk: WeightsAlongLOR, i: nat)
    requires
        walk.inv(),
        i + 1 < walk.trace().len(),
    ensures
        ({
            let at = after_steps(walk, i);
            let (here, next) = (walk.trace()[i as int].0, walk.trace()[i as int + 1].0);
            &&& axis_distance(here.x, next.x) == if at.crosses_x() { 1int } else { 0int }
            &&& axis_distance(here.y, next.y) == if at.crosses_y() { 1int } else { 0int }
            &&& axis_distance(here.z, next.z) == if at.crosses_z() { 1int } else { 0int }
            &&& at.crosses_x() || at.crosses_y() || at.crosses_z()
        }),
{
    lemma_trace_item(walk, i);
    lemma_trace_item(walk, i + 1);
    let at = after_steps(walk, i);
    lemma_after_one_more(walk, i);
    at.lemma_steps_left_decreases();
}

/// Consecutive voxels are neighbours, for the walk of a line through a box:
/// from one item to the next the index changes by exactly 1 on at least one
/// axis, and on no axis by more. It changes on one axis only, unless the line
/// passes at that point through an edge or a corner of the voxel, where it
/// crosses the boundaries of two or three axes at once.
pub proof fn lemma_neighbouring_voxels(p1: Point, p2: Point, vbox: VoxelBox, i: int)
    requires
        vbox.wf(),
        point_in_range(p1),
        point_in_range(p2),
        0 <= i,
        i + 1 < WeightsAlongLOR::spec_new(p1, p2, vbox).trace().len(),
    ensures
        ({
            let walk = WeightsAlongLOR::spec_new(p1, p2, vbox);
            let at = after_steps(walk, i as nat);
            let (here, next) = (walk.trace()[i].0, walk.trace()[i + 1].0);
            &&& axis_distance(here.x, next.x) == if at.crosses_x() { 1int } else { 0int }
            &&& axis_distance(here.y, next.y) == if at.crosses_y() { 1int } else { 0int }
            &&& axis_distance(here.z, next.z) == if at.crosses_z() { 1int } else { 0int }
            &&& 1 <= axis_distance(here.x, next.x) + axis_distance(here.y, next.y) + axis_distance(
                here.z,
                next.z,
            ) <= 3
        }),
{
    lemma_start_walks(p1, p2, vbox);
    lemma_consecutive_voxels(WeightsAlongLOR::spec_new(p1, p2, vbox), i as nat);
}

/// One more step is a step from where the earlier ones led.
pub proof fn lemma_after_one_more(walk: WeightsAlongLOR, steps: nat)
    ensures
        after_steps(walk, steps + 1) == after_steps(walk, steps).advanced(),
    decreases steps,
{
    assert(after_steps(walk, steps + 1) == after_steps(walk.advanced(), steps));
    if steps > 0 {
        lemma_after_one_more(walk.advanced(), (steps - 1) as nat);
        assert(after_steps(walk, steps) == after_steps(walk.advanced(), (steps - 1) as nat));
    } else {
        assert(after_steps(walk.advanced(), 0) == walk.advanced());
    }
}


/// The displacements along one axis of the chords of `hits`, added up, for a
/// line that advances by `extent` length units over its `lor_ticks` ticks.
/// The result is in length units times ticks of the line.
pub open spec fn total_displacement(hits: Seq<(Index, Ticks)>, extent: int) -> int
    decreases hits.len(),
{
    if hits.len() == 0 {
        0
    } else {
        hits[0].1 * extent + total_displacement(hits.skip(1), extent)
    }
}

/// Adding up displacements is adding up chords.
pub proof fn lemma_total_displacement(hits: Seq<(Index, Ticks)>, extent: int)
    ensures
        total_displacement(hits, extent) == total_chord(hits) * extent,
    decreases hits.len(),
{
    if hits.len() > 0 {
        lemma_total_displacement(hits.skip(1), extent);
        let (first, rest) = (hits[0].1 as int, total_chord(hits.skip(1)));
        assert((first + rest) * extent == first * extent + rest * extent) by (nonlinear_arith);
    }
}

/// From chords back to the line: laid end to end along the line, the chords
/// that a walk yields span the displacement from the point where the line
/// enters the box to the point where it leaves it, on every axis.
pub proof fn lemma_chords_span_entry_to_exit(p1: Point, p2: Point, vbox: VoxelBox)
    requires
        vbox.wf(),
        point_in_range(p1),
        point_in_range(p2),
        vbox.hits(p1, p2),
    ensures
        ({
            let hits = WeightsAlongLOR::spec_new(p1, p2, vbox).trace();
            let inside = vbox.exit_tick(p1, p2)->0 - vbox.entry_tick(p1, p2);
            &&& total_displacement(hits, p2.x - p1.x) == inside * (p2.x - p1.x)
            &&& total_displacement(hits, p2.y - p1.y) == inside * (p2.y - p1.y)
            &&& total_displacement(hits, p2.z - p1.z) == inside * (p2.z - p1.z)
        }),
{
    let hits = WeightsAlongLOR::spec_new(p1, p2, vbox).trace();
    lemma_chords_add_up(p1, p2, vbox);
    lemma_total_displacement(hits, p2.x - p1.x);
    lemma_total_displacement(hits, p2.y - p1.y);
    lemma_total_displacement(hits, p2.z - p1.z);
}


/// A step brings the walk nearer to the exit by its chord, which is no more
/// than the distance that was left.
pub proof fn lemma_step_towards_exit(walk: WeightsAlongLOR)
    requires
        walk.walking(),
    ensures
        to_exit(walk) matches Some(left) && walk.chord() <= left && (walk.advanced().walking()
            ==> (to_exit(walk.advanced()) == Some(left - walk.chord()))),
{
    walk.lemma_steps_left_decreases();
    let chord = walk.chord();
    match walk {
        WeightsAlongLOR::Outside => {},
        WeightsAlongLOR::Inside { to_boundary, n_voxels, voxel_size, index, flipped } => {
            lemma_axis_to_exit_after(index.x, n_voxels.x, to_boundary.x, voxel_size.x, chord);
            lemma_axis_to_exit_after(index.y, n_voxels.y, to_boundary.y, voxel_size.y, chord);
            lemma_axis_to_exit_after(index.z, n_voxels.z, to_boundary.z, voxel_size.z, chord);
        },
    }
}

impl VoxelBox {
    /// The point where a line leaves the box is within the largest tick
    /// count.
    pub proof fn lemma_exit_bounded(self, p1: Point, p2: Point)
        requires
            self.wf(),
            point_in_range(p1),
            point_in_range(p2),
        ensures
            self.exit_tick(p1, p2) matches Some(out) ==> out <= crate::weights::TICKS_BOUND,
            self.lor_ticks(p1, p2) <= crate::weights::TICKS_BOUND,
    {
        let (wx, wy, wz) = (self.weight_x(p1, p2), self.weight_y(p1, p2), self.weight_z(p1, p2));
        crate::fov::lemma_weight_bounds(p1.x, p2.x, self.n.x);
        crate::fov::lemma_weight_bounds(p1.y, p2.y, self.n.y);
        crate::fov::lemma_weight_bounds(p1.z, p2.z, self.n.z);
        let bound = 0x400_0000_0000int;
        crate::fov::lemma_product_bounds(wy, wz, bound, bound);
        crate::fov::lemma_product_bounds(wx, wz, bound, bound);
        crate::fov::lemma_product_bounds(wx, wy, bound, bound);
        crate::fov::lemma_product_bounds(wx * wy, wz, bound * bound, bound);
        crate::fov::lemma_exit_bound(p1.x, p2.x, self.half_width.x, self.n.x, wy * wz);
        crate::fov::lemma_exit_bound(p1.y, p2.y, self.half_width.y, self.n.y, wx * wz);
        crate::fov::lemma_exit_bound(p1.z, p2.z, self.half_width.z, self.n.z, wx * wy);
    }
}

/// Whether two states belong to the same walk as far as a step leaves
/// things alone: the grid, the voxel sizes, the reflections, and the index on
/// every axis along which the line has no extent.
pub open spec fn same_frame(walk: WeightsAlongLOR, other: WeightsAlongLOR) -> bool {
    match (walk, other) {
        (
            WeightsAlongLOR::Inside { to_boundary, n_voxels, voxel_size, index, flipped },
            WeightsAlongLOR::Inside {
                to_boundary: to_boundary2,
                n_voxels: n_voxels2,
                voxel_size: voxel_size2,
                index: index2,
                flipped: flipped2,
            },
        ) => {
            &&& n_voxels2 == n_voxels
            &&& voxel_size2 == voxel_size
            &&& flipped2 == flipped
            &&& to_boundary.x is None ==> index2.x == index.x
            &&& to_boundary.y is None ==> index2.y == index.y
            &&& to_boundary.z is None ==> index2.z == index.z
        },
        _ => false,
    }
}

/// Steps change neither the grid, nor the voxel sizes, nor the reflections,
/// nor the index on an axis along which the line has no extent.
pub proof fn lemma_frame_after_steps(walk: WeightsAlongLOR, i: nat)
    requires
        walk.inv(),
        i < walk.trace().len(),
    ensures
        same_frame(walk, after_steps(walk, i)),
    decreases i,
{
    lemma_trace_item(walk, 0);
    if i > 0 {
        let before = (i - 1) as nat;
        lemma_frame_after_steps(walk, before);
        lemma_trace_item(walk, before);
        lemma_trace_item(walk, i);
        lemma_after_one_more(walk, before);
        after_steps(walk, before).lemma_steps_left_decreases();
    }
}

} // verus!
