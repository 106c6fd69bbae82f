//! The walk of a line and the walk of the same line taken the other way.

use vstd::prelude::*;
use vstd::arithmetic::div_mod::lemma_fundamental_div_mod_converse;
use crate::units::{point_in_range, Index, Length, Point, VecOf};
use crate::weights::laws::{
    lemma_axis_to_exit_after, lemma_start_walks, same_frame, to_exit, to_exit_x, to_exit_y,
    to_exit_z,
};
use crate::weights::{
    axis_enter, axis_exit, axis_inv, axis_step, axis_weight, index_after, start_coord,
    start_index, start_to_boundary, to_boundary_after, Ticks, VoxelBox, WeightsAlongLOR,
};

verus! {

/// Distance to the next boundary of an axis for the walk the other way,
/// seen from the end of the current chord.
pub open spec fn opposite_to_boundary(
    to_boundary: Option<Ticks>,
    voxel_size: Option<Ticks>,
    chord: Ticks,
) -> Option<Ticks> {
    match (to_boundary, voxel_size) {
        (Some(t), Some(v)) => Some((v - t + chord) as Ticks),
        _ => None,
    }
}

/// Index of the current voxel on an axis as the walk the other way counts it.
pub open spec fn opposite_index(index: usize, n: usize, to_boundary: Option<Ticks>) -> usize {
    if to_boundary is Some {
        (n - 1 - index) as usize
    } else {
        index
    }
}

/// Whether the walk the other way has the axis reflected.
pub open spec fn opposite_flipped(flipped: bool, to_boundary: Option<Ticks>) -> bool {
    if to_boundary is Some {
        !flipped
    } else {
        flipped
    }
}

/// The state of the walk the other way at the point where the current chord
/// ends: about to cross the current voxel backwards.
pub open spec fn opposite(walk: WeightsAlongLOR) -> WeightsAlongLOR {
    match walk {
        WeightsAlongLOR::Outside => WeightsAlongLOR::Outside,
        WeightsAlongLOR::Inside { to_boundary, n_voxels, voxel_size, index, flipped } => {
            let chord = walk.chord();
            WeightsAlongLOR::Inside {
                to_boundary: VecOf {
                    x: opposite_to_boundary(to_boundary.x, voxel_size.x, chord),
                    y: opposite_to_boundary(to_boundary.y, voxel_size.y, chord),
                    z: opposite_to_boundary(to_boundary.z, voxel_size.z, chord),
                },
                n_voxels,
                voxel_size,
                index: VecOf {
                    x: opposite_index(index.x, n_voxels.x, to_boundary.x),
                    y: opposite_index(index.y, n_voxels.y, to_boundary.y),
                    z: opposite_index(index.z, n_voxels.z, to_boundary.z),
                },
                flipped: VecOf {
                    x: opposite_flipped(flipped.x, to_boundary.x),
                    y: opposite_flipped(flipped.y, to_boundary.y),
                    z: opposite_flipped(flipped.z, to_boundary.z),
                },
            }
        },
    }
}

/// Whether the line is, on some axis, exactly at a voxel boundary.
pub open spec fn at_boundary(walk: WeightsAlongLOR) -> bool {
    walk matches WeightsAlongLOR::Inside { to_boundary, voxel_size, .. } && ((to_boundary.x is Some
        && to_boundary.x == voxel_size.x) || (to_boundary.y is Some && to_boundary.y
        == voxel_size.y) || (to_boundary.z is Some && to_boundary.z == voxel_size.z))
}

/// Whether the line is, on some axis, exactly at the lower face of the box.
pub open spec fn at_lower_face(walk: WeightsAlongLOR) -> bool {
    walk matches WeightsAlongLOR::Inside { to_boundary, voxel_size, index, .. } && ((
    to_boundary.x is Some && to_boundary.x == voxel_size.x && index.x == 0) || (to_boundary.y is Some
        && to_boundary.y == voxel_size.y && index.y == 0) || (to_boundary.z is Some
        && to_boundary.z == voxel_size.z && index.z == 0))
}

/// Seen the other way, the current voxel has the same index and the same
/// chord.
pub proof fn lemma_opposite_item(walk: WeightsAlongLOR)
    requires
        walk.walking(),
        at_boundary(walk),
    ensures
        opposite(walk).walking(),
        opposite(walk).chord() == walk.chord(),
        opposite(walk).true_index() == walk.true_index(),
        opposite(walk).grid() == walk.grid(),
        at_lower_face(walk) ==> !opposite(walk).advanced().walking(),
{
    walk.lemma_steps_left_decreases();
    opposite(walk).lemma_steps_left_decreases();
}

/// On one axis, a step back of the walk the other way undoes a step of this
/// walk.
proof fn lemma_opposite_axis_step(
    index: usize,
    n: usize,
    to_boundary: Option<Ticks>,
    voxel_size: Option<Ticks>,
    chord: Ticks,
    next_chord: Ticks,
)
    requires
        axis_inv(to_boundary, voxel_size),
        index < n,
        chord > 0,
        next_chord > 0,
        to_boundary matches Some(t) ==> chord <= t,
        index_after(index, to_boundary, chord) < n,
        to_boundary_after(to_boundary, voxel_size, chord) matches Some(t) ==> next_chord <= t,
    ensures
        ({
            let moved = index_after(index, to_boundary, chord);
            let left = to_boundary_after(to_boundary, voxel_size, chord);
            let back = opposite_to_boundary(left, voxel_size, next_chord);
            &&& axis_inv(back, voxel_size)
            &&& index_after(opposite_index(moved, n, left), back, next_chord) == opposite_index(
                index,
                n,
                to_boundary,
            )
            &&& to_boundary_after(back, voxel_size, next_chord) == opposite_to_boundary(
                to_boundary,
                voxel_size,
                chord,
            )
            &&& left is Some <==> to_boundary is Some
        }),
{
}

/// A step back of the walk the other way undoes a step of this walk.
pub proof fn lemma_opposite_step(walk: WeightsAlongLOR)
    requires
        walk.walking(),
        walk.advanced().walking(),
    ensures
        at_boundary(walk.advanced()),
        opposite(walk.advanced()).advanced() == opposite(walk),
{
    walk.lemma_steps_left_decreases();
    let next = walk.advanced();
    next.lemma_steps_left_decreases();
    assert(at_boundary(next));
    lemma_opposite_item(next);
    let (chord, next_chord) = (walk.chord(), next.chord());
    let back = opposite(next);
    assert(back.chord() == next_chord);
    match walk {
        WeightsAlongLOR::Outside => {},
        WeightsAlongLOR::Inside { to_boundary, n_voxels, voxel_size, index, flipped } => {
            lemma_opposite_axis_step(
                index.x,
                n_voxels.x,
                to_boundary.x,
                voxel_size.x,
                chord,
                next_chord,
            );
            lemma_opposite_axis_step(
                index.y,
                n_voxels.y,
                to_boundary.y,
                voxel_size.y,
                chord,
                next_chord,
            );
            lemma_opposite_axis_step(
                index.z,
                n_voxels.z,
                to_boundary.z,
                voxel_size.z,
                chord,
                next_chord,
            );
            let target = opposite(walk);
            assert(target.in_grid());
            assert(back.advanced() is Inside);
            assert(back.advanced() == target);
        },
    }
}

/// The last state of a walk in which it still yields an item.
pub open spec fn last_walking(walk: WeightsAlongLOR) -> WeightsAlongLOR
    decreases walk.steps_left(),
{
    if walk.walking() && walk.advanced().walking() {
        proof {
            walk.lemma_steps_left_decreases();
        }
        last_walking(walk.advanced())
    } else {
        walk
    }
}

/// Everything the walk yields from this state on, last item first.
pub open spec fn reversed_trace(walk: WeightsAlongLOR) -> Seq<(Index, Ticks)>
    decreases walk.steps_left(),
{
    if walk.walking() {
        proof {
            walk.lemma_steps_left_decreases();
        }
        reversed_trace(walk.advanced()) + seq![(walk.true_index(), walk.chord())]
    } else {
        Seq::empty()
    }
}

/// `reversed_trace` is the trace in reverse order.
pub proof fn lemma_reversed_trace(walk: WeightsAlongLOR)
    ensures
        reversed_trace(walk) =~= walk.trace().reverse(),
    decreases walk.steps_left(),
{
    if walk.walking() {
        walk.lemma_steps_left_decreases();
        let next = walk.advanced();
        lemma_reversed_trace(next);
        let (hits, back) = (walk.trace(), reversed_trace(walk));
        assert(hits.skip(1) =~= next.trace());
        assert(back.len() == hits.len());
        assert forall|i: int| 0 <= i < back.len() implies back[i] == hits[hits.len() - 1 - i] by {
            if i < back.len() - 1 {
                assert(back[i] == next.trace().reverse()[i]);
                assert(next.trace()[hits.len() - 2 - i] == hits.skip(1)[hits.len() - 2 - i]);
            }
        }
    }
}

/// Walking back from the end of a walk yields the items of the walk in
/// reverse, down to the one of the current state.
proof fn lemma_walk_back(walk: WeightsAlongLOR)
    requires
        walk.walking(),
        at_boundary(walk),
    ensures
        opposite(last_walking(walk)).trace() =~= reversed_trace(walk.advanced()) + opposite(
            walk,
        ).trace(),
    decreases walk.steps_left(),
{
    walk.lemma_steps_left_decreases();
    let next = walk.advanced();
    if next.walking() {
        lemma_opposite_step(walk);
        lemma_opposite_item(next);
        lemma_walk_back(next);
        next.lemma_steps_left_decreases();
        let item = (next.true_index(), next.chord());
        assert(opposite(next).trace() =~= seq![item] + opposite(walk).trace());
        assert(reversed_trace(next) =~= reversed_trace(next.advanced()) + seq![item]);
    } else {
        assert(reversed_trace(next) =~= Seq::<(Index, Ticks)>::empty());
    }
}

/// How much later than the line leaves the box it would cross the upper
/// face of an axis.
pub open spec fn slack(axis: Option<int>, all: Option<int>) -> Option<int> {
    match (axis, all) {
        (Some(a), Some(b)) => Some(a - b),
        _ => None,
    }
}

/// The last state of a walk is one step from the exit, and lies as a whole
/// as far along every axis as the first.
proof fn lemma_last_walking(walk: WeightsAlongLOR)
    requires
        walk.walking(),
    ensures
        ({
            let last = last_walking(walk);
            &&& last.walking()
            &&& !last.advanced().walking()
            &&& same_frame(walk, last)
            &&& to_exit(last) == Some(last.chord() as int)
            &&& slack(to_exit_x(last), to_exit(last)) == slack(to_exit_x(walk), to_exit(walk))
            &&& slack(to_exit_y(last), to_exit(last)) == slack(to_exit_y(walk), to_exit(walk))
            &&& slack(to_exit_z(last), to_exit(last)) == slack(to_exit_z(walk), to_exit(walk))
        }),
    decreases walk.steps_left(),
{
    walk.lemma_steps_left_decreases();
    let next = walk.advanced();
    let chord = walk.chord();
    match walk {
        WeightsAlongLOR::Outside => {},
        WeightsAlongLOR::Inside { to_boundary, n_voxels, voxel_size, index, flipped } => {
            lemma_axis_to_exit_after(index.x, n_voxels.x, to_boundary.x, voxel_size.x, chord);
            lemma_axis_to_exit_after(index.y, n_voxels.y, to_boundary.y, voxel_size.y, chord);
            lemma_axis_to_exit_after(index.z, n_voxels.z, to_boundary.z, voxel_size.z, chord);
            if next.walking() {
                lemma_last_walking(next);
                assert(same_frame(walk, next));
            } else {
                let moved = VecOf {
                    x: index_after(index.x, to_boundary.x, chord),
                    y: index_after(index.y, to_boundary.y, chord),
                    z: index_after(index.z, to_boundary.z, chord),
                };
                assert(moved.x >= n_voxels.x || moved.y >= n_voxels.y || moved.z >= n_voxels.z);
            }
        },
    }
}

/// Taken the other way, a line crosses the lower face of an axis as long
/// before its end as it crosses the upper face after its start, and the
/// other way round.
proof fn lemma_axis_reversed(a: Length, b: Length, hw: Length, n: usize, c: int)
    requires
        a != b,
    ensures
        axis_weight(b, a, n) == axis_weight(a, b, n),
        axis_enter(b, a, hw, n, c) == axis_weight(a, b, n) * c - axis_exit(a, b, hw, n, c),
        axis_exit(b, a, hw, n, c) == axis_weight(a, b, n) * c - axis_enter(a, b, hw, n, c),
{
    let (s, t) = (start_coord(a, b), start_coord(b, a));
    let d: int = if a < b {
        b - a
    } else {
        a - b
    };
    let m = n * c;
    assert((n * d) * c == d * m && (hw + t) * m == (hw - s) * m - d * m && (hw - t) * m == (hw + s)
        * m + d * m) by (nonlinear_arith)
        requires
            t == -d - s,
            m == n * c,
    ;
}

impl VoxelBox {
    /// Whether the segment from `p1` to `p2` runs through the box from
    /// surface to surface: it hits the box, and neither end point lies
    /// strictly inside it.
    pub open spec fn passes_through(self, p1: Point, p2: Point) -> bool {
        &&& self.hits(p1, p2)
        &&& self.exit_tick(p1, p2) matches Some(out) && out <= self.lor_ticks(p1, p2)
        &&& (p1.x != p2.x && self.enter_x(p1, p2) == self.entry_tick(p1, p2)) || (p1.y != p2.y
            && self.enter_y(p1, p2) == self.entry_tick(p1, p2)) || (p1.z != p2.z && self.enter_z(
            p1,
            p2,
        ) == self.entry_tick(p1, p2))
    }

    /// The ticks of a line taken the other way.
    proof fn lemma_reversed_ticks(self, p1: Point, p2: Point)
        requires
            self.wf(),
            point_in_range(p1),
            point_in_range(p2),
        ensures
            self.weight_x(p2, p1) == self.weight_x(p1, p2),
            self.weight_y(p2, p1) == self.weight_y(p1, p2),
            self.weight_z(p2, p1) == self.weight_z(p1, p2),
            self.lor_ticks(p1, p2) == self.weight_x(p1, p2) * self.cofactor_x(p1, p2),
            self.lor_ticks(p1, p2) == self.weight_y(p1, p2) * self.cofactor_y(p1, p2),
            self.lor_ticks(p1, p2) == self.weight_z(p1, p2) * self.cofactor_z(p1, p2),
            p1.x != p2.x ==> self.enter_x(p2, p1) == self.lor_ticks(p1, p2) - self.exit_x(
                p1,
                p2,
            )->0 && self.exit_x(p2, p1) == Some(self.lor_ticks(p1, p2) - self.enter_x(p1, p2)),
            p1.y != p2.y ==> self.enter_y(p2, p1) == self.lor_ticks(p1, p2) - self.exit_y(
                p1,
                p2,
            )->0 && self.exit_y(p2, p1) == Some(self.lor_ticks(p1, p2) - self.enter_y(p1, p2)),
            p1.z != p2.z ==> self.enter_z(p2, p1) == self.lor_ticks(p1, p2) - self.exit_z(
                p1,
                p2,
            )->0 && self.exit_z(p2, p1) == Some(self.lor_ticks(p1, p2) - self.enter_z(p1, p2)),
    {
        let (wx, wy, wz) = (self.weight_x(p1, p2), self.weight_y(p1, p2), self.weight_z(p1, p2));
        assert((wx * wy) * wz == wx * (wy * wz) && (wx * wy) * wz == wy * (wx * wz) && (wx * wy)
            * wz == wz * (wx * wy)) by (nonlinear_arith);
        if p1.x != p2.x {
            lemma_axis_reversed(p1.x, p2.x, self.half_width.x, self.n.x, wy * wz);
        }
        if p1.y != p2.y {
            lemma_axis_reversed(p1.y, p2.y, self.half_width.y, self.n.y, wx * wz);
        }
        if p1.z != p2.z {
            lemma_axis_reversed(p1.z, p2.z, self.half_width.z, self.n.z, wx * wy);
        }
    }
}

/// Where the walk the other way starts on one axis, given where this walk
/// ends on it.
proof fn lemma_axis_reverse_start(
    off: int,
    v: int,
    n: usize,
    index: usize,
    to_boundary: Ticks,
    chord: Ticks,
)
    requires
        v > 0,
        index < n,
        0 < chord <= to_boundary <= v,
        off == (n - 1 - index) * v + (to_boundary - chord),
    ensures
        off / v == n - 1 - index,
        v - off % v == v - to_boundary + chord,
{
    lemma_fundamental_div_mod_converse(off, v, n - 1 - index, to_boundary - chord);
}

/// Nothing divided by anything is nothing, and nothing is left over.
proof fn lemma_zero_quotient(v: int)
    by (nonlinear_arith)
    ensures
        v > 0 ==> 0int / v == 0 && 0int % v == 0,
{
}

/// Walking back from the end of a walk that began on a lower face of the
/// box yields the items of the walk in reverse.
proof fn lemma_trace_from_end(first: WeightsAlongLOR)
    requires
        first.walking(),
        at_lower_face(first),
    ensures
        opposite(last_walking(first)).trace() =~= first.trace().reverse(),
{
    lemma_walk_back(first);
    lemma_opposite_item(first);
    lemma_reversed_trace(first);
    first.lemma_steps_left_decreases();
    let item = (first.true_index(), first.chord());
    let turned = opposite(first);
    turned.lemma_steps_left_decreases();
    assert(turned.advanced().trace() =~= Seq::<(Index, Ticks)>::empty());
    assert(turned.trace() =~= seq![item] + turned.advanced().trace());
    assert(turned.trace() =~= seq![item]);
    assert(reversed_trace(first) =~= reversed_trace(first.advanced()) + seq![item]);
}

/// A line that passes through the box does so taken the other way, entering
/// where it left and leaving where it entered.
proof fn lemma_reversed_hits(p1: Point, p2: Point, vbox: VoxelBox)
    requires
        vbox.wf(),
        point_in_range(p1),
        point_in_range(p2),
        vbox.passes_through(p1, p2),
    ensures
        vbox.hits(p2, p1),
        vbox.lor_ticks(p2, p1) == vbox.lor_ticks(p1, p2),
        vbox.cofactor_x(p2, p1) == vbox.cofactor_x(p1, p2),
        vbox.cofactor_y(p2, p1) == vbox.cofactor_y(p1, p2),
        vbox.cofactor_z(p2, p1) == vbox.cofactor_z(p1, p2),
        vbox.entry_tick(p2, p1) == vbox.lor_ticks(p1, p2) - vbox.exit_tick(p1, p2)->0,
{
    vbox.lemma_reversed_ticks(p1, p2);
    let ticks = vbox.lor_ticks(p1, p2);
    let (tin, out) = (vbox.entry_tick(p1, p2), vbox.exit_tick(p1, p2)->0);
    assert(vbox.lor_ticks(p2, p1) == ticks);
    assert(vbox.entry_tick(p2, p1) == ticks - out);
    assert(vbox.exit_tick(p2, p1) == Some(ticks - tin));
}

/// Where the first state of a walk lies with regard to the upper face of an
/// axis, and that it lies on a lower face if the line enters the box from
/// outside.
proof fn lemma_first_state(p1: Point, p2: Point, vbox: VoxelBox)
    requires
        vbox.wf(),
        point_in_range(p1),
        point_in_range(p2),
        vbox.passes_through(p1, p2),
    ensures
        ({
            let first = WeightsAlongLOR::spec_new(p1, p2, vbox);
            let (tin, out) = (vbox.entry_tick(p1, p2), vbox.exit_tick(p1, p2)->0);
            &&& first.walking()
            &&& at_lower_face(first)
            &&& to_exit(first) == Some(out - tin)
            &&& p1.x != p2.x ==> to_exit_x(first) == Some(vbox.exit_x(p1, p2)->0 - tin)
            &&& p1.y != p2.y ==> to_exit_y(first) == Some(vbox.exit_y(p1, p2)->0 - tin)
            &&& p1.z != p2.z ==> to_exit_z(first) == Some(vbox.exit_z(p1, p2)->0 - tin)
        }),
{
    vbox.lemma_faces(p1, p2);
    lemma_start_walks(p1, p2, vbox);
    let tin = vbox.entry_tick(p1, p2);
    let (hw, n) = (vbox.half_width, vbox.n);
    if p1.x != p2.x {
        let c = vbox.cofactor_x(p1, p2);
        crate::weights::laws::lemma_axis_to_exit_at_start(p1.x, p2.x, hw.x, n.x, c, tin);
        lemma_zero_quotient(axis_step(hw.x, c));
    }
    if p1.y != p2.y {
        let c = vbox.cofactor_y(p1, p2);
        crate::weights::laws::lemma_axis_to_exit_at_start(p1.y, p2.y, hw.y, n.y, c, tin);
        lemma_zero_quotient(axis_step(hw.y, c));
    }
    if p1.z != p2.z {
        let c = vbox.cofactor_z(p1, p2);
        crate::weights::laws::lemma_axis_to_exit_at_start(p1.z, p2.z, hw.z, n.z, c, tin);
        lemma_zero_quotient(axis_step(hw.z, c));
    }
}

/// Where the walk the other way starts on an axis that the line crosses,
/// given where this walk ends on it.
proof fn lemma_axis_back(
    a: Length,
    b: Length,
    hw: Length,
    n: usize,
    c: int,
    start: int,
    index: usize,
    to_boundary: Ticks,
    chord: Ticks,
)
    requires
        a != b,
        axis_step(hw, c) > 0,
        index < n,
        0 < chord <= to_boundary <= axis_step(hw, c),
        start - axis_enter(b, a, hw, n, c) == (n - 1 - index) * axis_step(hw, c) + (to_boundary
            - chord),
    ensures
        start_index(b, a, hw, n, c, start) == n - 1 - index,
        start_to_boundary(b, a, hw, n, c, start) == Some(
            (axis_step(hw, c) - to_boundary + chord) as Ticks,
        ),
{
    lemma_axis_reverse_start(
        start - axis_enter(b, a, hw, n, c),
        axis_step(hw, c),
        n,
        index,
        to_boundary,
        chord,
    );
}

/// The walk of a line taken the other way starts where the walk of the line
/// ends, about to cross its last voxel backwards.
proof fn lemma_back_starts_at_end(p1: Point, p2: Point, vbox: VoxelBox)
    requires
        vbox.wf(),
        point_in_range(p1),
        point_in_range(p2),
        vbox.passes_through(p1, p2),
    ensures
        WeightsAlongLOR::spec_new(p2, p1, vbox) == opposite(
            last_walking(WeightsAlongLOR::spec_new(p1, p2, vbox)),
        ),
{
    lemma_reversed_hits(p1, p2, vbox);
    lemma_first_state(p1, p2, vbox);
    vbox.lemma_reversed_ticks(p1, p2);
    vbox.lemma_faces(p1, p2);
    let first = WeightsAlongLOR::spec_new(p1, p2, vbox);
    let back = WeightsAlongLOR::spec_new(p2, p1, vbox);
    let last = last_walking(first);
    lemma_last_walking(first);
    last.lemma_steps_left_decreases();
    let (hw, n) = (vbox.half_width, vbox.n);
    let (tin, out) = (vbox.entry_tick(p1, p2), vbox.exit_tick(p1, p2)->0);
    let start = vbox.lor_ticks(p1, p2) - out;
    let chord = last.chord();
    let target = opposite(last);
    match (last, back, target) {
        (
            WeightsAlongLOR::Inside { to_boundary, n_voxels, voxel_size, index, flipped },
            WeightsAlongLOR::Inside {
                to_boundary: to_boundary2,
                n_voxels: n_voxels2,
                voxel_size: voxel_size2,
                index: index2,
                flipped: flipped2,
            },
            WeightsAlongLOR::Inside {
                to_boundary: to_boundary3,
                n_voxels: n_voxels3,
                voxel_size: voxel_size3,
                index: index3,
                flipped: flipped3,
            },
        ) => {
            assert(same_frame(first, last));
            if p1.x != p2.x {
                lemma_axis_back(
                    p1.x,
                    p2.x,
                    hw.x,
                    n.x,
                    vbox.cofactor_x(p1, p2),
                    start,
                    index.x,
                    to_boundary.x->0,
                    chord,
                );
            }
            if p1.y != p2.y {
                lemma_axis_back(
                    p1.y,
                    p2.y,
                    hw.y,
                    n.y,
                    vbox.cofactor_y(p1, p2),
                    start,
                    index.y,
                    to_boundary.y->0,
                    chord,
                );
            }
            if p1.z != p2.z {
                lemma_axis_back(
                    p1.z,
                    p2.z,
                    hw.z,
                    n.z,
                    vbox.cofactor_z(p1, p2),
                    start,
                    index.z,
                    to_boundary.z->0,
                    chord,
                );
            }
            assert(n_voxels2 == n_voxels3);
            assert(voxel_size2.x == voxel_size3.x && voxel_size2.y == voxel_size3.y
                && voxel_size2.z == voxel_size3.z);
            assert(flipped2.x == flipped3.x && flipped2.y == flipped3.y && flipped2.z
                == flipped3.z);
            assert(index2.x == index3.x);
            assert(index2.y == index3.y);
            assert(index2.z == index3.z);
            assert(to_boundary2.x == to_boundary3.x);
            assert(to_boundary2.y == to_boundary3.y);
            assert(to_boundary2.z == to_boundary3.z);
        },
        _ => {},
    }
}

/// Reversal: take a line the other way, and the walk yields the same voxels
/// with the same chords, in reverse order. This holds of every line of
/// which neither end point lies strictly inside the box.
pub proof fn lemma_reversal(p1: Point, p2: Point, vbox: VoxelBox)
    requires
        vbox.wf(),
        point_in_range(p1),
        point_in_range(p2),
        vbox.hits(p1, p2) ==> vbox.passes_through(p1, p2),
    ensures
        vbox.hits(p2, p1) == vbox.hits(p1, p2),
        WeightsAlongLOR::spec_new(p2, p1, vbox).trace() =~= WeightsAlongLOR::spec_new(
            p1,
            p2,
            vbox,
        ).trace().reverse(),
{
    let first = WeightsAlongLOR::spec_new(p1, p2, vbox);
    if vbox.hits(p1, p2) {
        lemma_reversed_hits(p1, p2, vbox);
        lemma_first_state(p1, p2, vbox);
        lemma_trace_from_end(first);
        lemma_back_starts_at_end(p1, p2, vbox);
    } else {
        lemma_miss_both_ways(p1, p2, vbox);
        assert(first.trace() =~= Seq::<(Index, Ticks)>::empty());
    }
}

/// A line that misses the box misses it taken the other way.
proof fn lemma_miss_both_ways(p1: Point, p2: Point, vbox: VoxelBox)
    requires
        vbox.wf(),
        point_in_range(p1),
        point_in_range(p2),
        !vbox.hits(p1, p2),
    ensures
        !vbox.hits(p2, p1),
{
    vbox.lemma_reversed_ticks(p1, p2);
}

} // verus!
