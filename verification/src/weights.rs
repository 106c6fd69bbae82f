//! The walk of a line of response through the voxels of a box.
//!
//! The walk reflects every axis along which the line runs in the negative
//! direction, so that all progress is in the positive direction, and keeps
//! for every axis the distance to the next voxel boundary. Chords are counted
//! in ticks; see the module `fov`.

pub mod chords;
pub mod laws;
pub mod reversal;
pub mod symmetry;
pub mod tof;

pub use crate::fov::{
    axis_enter, axis_enter_or_zero, axis_exit, axis_exit_if_any, axis_step, axis_weight, later,
    sooner, start_coord, Ticks, VoxelBox, COFACTOR_BOUND, TICKS_BOUND, WEIGHT_BOUND,
};

use vstd::prelude::*;
use crate::fov::{axis_holds, AxisPlan};
use crate::units::{point_in_range, BoxDim, Index, Length, Point, VecOf, MAX_LENGTH, MAX_VOXELS};

verus! {

/// Voxel in which an axis starts, counted in the reflected coordinates.
pub open spec fn start_index(a: Length, b: Length, hw: Length, n: usize, c: int, tin: int) -> int {
    if a != b {
        (tin - axis_enter(a, b, hw, n, c)) / axis_step(hw, c)
    } else if hw == 0 {
        0
    } else {
        ((a + hw) * n) / (2 * hw)
    }
}

/// Ticks from the entry point to the next voxel boundary of an axis.
pub open spec fn start_to_boundary(
    a: Length,
    b: Length,
    hw: Length,
    n: usize,
    c: int,
    tin: int,
) -> Option<Ticks> {
    if a != b {
        Some(
            (axis_step(hw, c) - (tin - axis_enter(a, b, hw, n, c)) % axis_step(hw, c)) as Ticks,
        )
    } else {
        None
    }
}

/// Ticks needed to cross one voxel of an axis; `None` for an axis along which
/// the line has no extent, whose boundaries it never crosses.
pub open spec fn start_voxel_size(a: Length, b: Length, hw: Length, c: int) -> Option<Ticks> {
    if a != b {
        Some(axis_step(hw, c) as Ticks)
    } else {
        None
    }
}

/// Whether `a` comes no later than `b`, where `None` stands for "never" and
/// is never early.
pub open spec fn not_after(a: Option<Ticks>, b: Option<Ticks>) -> bool {
    match (a, b) {
        (Some(x), Some(y)) => x <= y,
        (Some(_), None) => true,
        (None, _) => false,
    }
}

/// What an axis needs of its two distances: both absent, or the distance to
/// the next boundary positive and no more than one voxel.
pub open spec fn axis_inv(to_boundary: Option<Ticks>, voxel_size: Option<Ticks>) -> bool {
    match (to_boundary, voxel_size) {
        (None, None) => true,
        (Some(t), Some(v)) => 0 < t <= v,
        _ => false,
    }
}

/// Distance of an axis to its next boundary after moving `chord` ticks.
pub open spec fn to_boundary_after(
    to_boundary: Option<Ticks>,
    voxel_size: Option<Ticks>,
    chord: Ticks,
) -> Option<Ticks> {
    match to_boundary {
        None => None,
        Some(t) => if t <= chord {
            voxel_size
        } else {
            Some((t - chord) as Ticks)
        },
    }
}

/// Index of an axis after moving `chord` ticks.
pub open spec fn index_after(index: usize, to_boundary: Option<Ticks>, chord: Ticks) -> usize {
    match to_boundary {
        None => index,
        Some(t) => if t <= chord {
            (index + 1) as usize
        } else {
            index
        },
    }
}

/// Index in the caller's coordinates of voxel `index` of a reflected axis.
pub open spec fn unflip(index: usize, n: usize, flipped: bool) -> usize {
    if flipped {
        (n - 1 - index) as usize
    } else {
        index
    }
}

/// Walks the voxels that a line of response crosses, in order from `p1`
/// towards `p2`, giving for each its index and the chord inside it.
#[derive(Clone, Copy, Debug)]
pub enum WeightsAlongLOR {
    /// The line is not in the box: it missed it or has left it.
    Outside,
    /// The line has just entered a voxel.
    Inside {
        /// Ticks still to go before the next voxel boundary, per axis.
        to_boundary: VecOf<Option<Ticks>>,
        /// Number of voxels per axis.
        n_voxels: BoxDim,
        /// Ticks needed to cross one voxel, per axis.
        voxel_size: VecOf<Option<Ticks>>,
        /// Index of the voxel just entered, in reflected coordinates.
        index: Index,
        /// Which axes were reflected.
        flipped: VecOf<bool>,
    },
}

impl WeightsAlongLOR {
    /// The bookkeeping is consistent: on every axis the two distances agree
    /// with `axis_inv`, and at least one axis has a boundary ahead.
    pub open spec fn inv(self) -> bool {
        match self {
            WeightsAlongLOR::Outside => true,
            WeightsAlongLOR::Inside { to_boundary, n_voxels, voxel_size, index, flipped } => {
                &&& axis_inv(to_boundary.x, voxel_size.x)
                &&& axis_inv(to_boundary.y, voxel_size.y)
                &&& axis_inv(to_boundary.z, voxel_size.z)
                &&& to_boundary.x is Some || to_boundary.y is Some || to_boundary.z is Some
            },
        }
    }

    /// Number of voxels per axis of the grid being walked.
    pub open spec fn grid(self) -> BoxDim {
        match self {
            WeightsAlongLOR::Outside => VecOf { x: 0, y: 0, z: 0 },
            WeightsAlongLOR::Inside { to_boundary, n_voxels, voxel_size, index, flipped } => n_voxels,
        }
    }

    /// The current voxel belongs to the grid.
    pub open spec fn in_grid(self) -> bool {
        match self {
            WeightsAlongLOR::Outside => true,
            WeightsAlongLOR::Inside { to_boundary, n_voxels, voxel_size, index, flipped } => {
                &&& index.x < n_voxels.x
                &&& index.y < n_voxels.y
                &&& index.z < n_voxels.z
            },
        }
    }

    /// The axis whose boundary comes first: 0, 1 or 2 for x, y or z. Of
    /// several at the same distance it is the first.
    pub open spec fn leading_axis(self) -> int {
        match self {
            WeightsAlongLOR::Outside => 0,
            WeightsAlongLOR::Inside { to_boundary, n_voxels, voxel_size, index, flipped } => {
                if not_after(to_boundary.x, to_boundary.y) && not_after(
                    to_boundary.x,
                    to_boundary.z,
                ) {
                    0
                } else if not_after(to_boundary.y, to_boundary.z) {
                    1
                } else {
                    2
                }
            },
        }
    }

    /// Ticks to the nearest boundary: the chord inside the current voxel.
    pub open spec fn chord(self) -> Ticks {
        match self {
            WeightsAlongLOR::Outside => 0,
            WeightsAlongLOR::Inside { to_boundary, n_voxels, voxel_size, index, flipped } => {
                let nearest = if self.leading_axis() == 0 {
                    to_boundary.x
                } else if self.leading_axis() == 1 {
                    to_boundary.y
                } else {
                    to_boundary.z
                };
                match nearest {
                    Some(t) => t,
                    None => 0,
                }
            },
        }
    }

    /// Index of the current voxel in the caller's coordinates.
    pub open spec fn true_index(self) -> Index {
        match self {
            WeightsAlongLOR::Outside => VecOf { x: 0, y: 0, z: 0 },
            WeightsAlongLOR::Inside { to_boundary, n_voxels, voxel_size, index, flipped } => VecOf {
                x: unflip(index.x, n_voxels.x, flipped.x),
                y: unflip(index.y, n_voxels.y, flipped.y),
                z: unflip(index.z, n_voxels.z, flipped.z),
            },
        }
    }

    /// What `next` yields in this state.
    pub open spec fn spec_next(self) -> Option<(Index, Ticks)> {
        match self {
            WeightsAlongLOR::Outside => None,
            WeightsAlongLOR::Inside { .. } => Some((self.true_index(), self.chord())),
        }
    }

    /// The state that `next` leaves behind: the line has moved by `chord`,
    /// every axis whose boundary it reached has stepped into its next voxel,
    /// and the walk is over if the leading axis thereby left the grid.
    pub open spec fn advanced(self) -> Self {
        match self {
            WeightsAlongLOR::Outside => WeightsAlongLOR::Outside,
            WeightsAlongLOR::Inside { to_boundary, n_voxels, voxel_size, index, flipped } => {
                let chord = self.chord();
                let moved = VecOf {
                    x: index_after(index.x, to_boundary.x, chord),
                    y: index_after(index.y, to_boundary.y, chord),
                    z: index_after(index.z, to_boundary.z, chord),
                };
                let left = if self.leading_axis() == 0 {
                    moved.x >= n_voxels.x
                } else if self.leading_axis() == 1 {
                    moved.y >= n_voxels.y
                } else {
                    moved.z >= n_voxels.z
                };
                if left {
                    WeightsAlongLOR::Outside
                } else {
                    WeightsAlongLOR::Inside {
                        to_boundary: VecOf {
                            x: to_boundary_after(to_boundary.x, voxel_size.x, chord),
                            y: to_boundary_after(to_boundary.y, voxel_size.y, chord),
                            z: to_boundary_after(to_boundary.z, voxel_size.z, chord),
                        },
                        n_voxels,
                        voxel_size,
                        index: moved,
                        flipped,
                    }
                }
            },
        }
    }

    /// The state in which the walk from `p1` to `p2` through `vbox` starts.
    pub open spec fn spec_new(p1: Point, p2: Point, vbox: VoxelBox) -> Self {
        if !vbox.hits(p1, p2) {
            WeightsAlongLOR::Outside
        } else {
            let tin = vbox.entry_tick(p1, p2);
            let (cx, cy, cz) = (
                vbox.cofactor_x(p1, p2),
                vbox.cofactor_y(p1, p2),
                vbox.cofactor_z(p1, p2),
            );
            let (hw, n) = (vbox.half_width, vbox.n);
            WeightsAlongLOR::Inside {
                to_boundary: VecOf {
                    x: start_to_boundary(p1.x, p2.x, hw.x, n.x, cx, tin),
                    y: start_to_boundary(p1.y, p2.y, hw.y, n.y, cy, tin),
                    z: start_to_boundary(p1.z, p2.z, hw.z, n.z, cz, tin),
                },
                n_voxels: n,
                voxel_size: VecOf {
                    x: start_voxel_size(p1.x, p2.x, hw.x, cx),
                    y: start_voxel_size(p1.y, p2.y, hw.y, cy),
                    z: start_voxel_size(p1.z, p2.z, hw.z, cz),
                },
                index: VecOf {
                    x: start_index(p1.x, p2.x, hw.x, n.x, cx, tin) as usize,
                    y: start_index(p1.y, p2.y, hw.y, n.y, cy, tin) as usize,
                    z: start_index(p1.z, p2.z, hw.z, n.z, cz, tin) as usize,
                },
                flipped: VecOf { x: p2.x < p1.x, y: p2.y < p1.y, z: p2.z < p1.z },
            }
        }
    }

    /// Starts the walk of the line from `p1` to `p2` through `vbox`.
    pub fn new(p1: Point, p2: Point, vbox: &VoxelBox) -> (walk: Self)
        requires
            vbox.wf(),
            point_in_range(p1),
            point_in_range(p2),
        ensures
            walk == Self::spec_new(p1, p2, *vbox),
            walk is Inside <==> vbox.hits(p1, p2),
            walk.inv(),
            walk.in_grid(),
    {
        let plan = vbox.plan(p1, p2);
        if !plan.hit {
            return WeightsAlongLOR::Outside;
        }
        let ghost (cx, cy, cz) = (
            vbox.cofactor_x(p1, p2),
            vbox.cofactor_y(p1, p2),
            vbox.cofactor_z(p1, p2),
        );
        let x = axis_start(p1.x, Ghost(p2.x), vbox.half_width.x, vbox.n.x, Ghost(cx), &plan.x, plan.tin);
        let y = axis_start(p1.y, Ghost(p2.y), vbox.half_width.y, vbox.n.y, Ghost(cy), &plan.y, plan.tin);
        let z = axis_start(p1.z, Ghost(p2.z), vbox.half_width.z, vbox.n.z, Ghost(cz), &plan.z, plan.tin);
        WeightsAlongLOR::Inside {
            to_boundary: VecOf { x: x.1, y: y.1, z: z.1 },
            n_voxels: vbox.n,
            voxel_size: VecOf { x: x.2, y: y.2, z: z.2 },
            index: VecOf { x: x.0, y: y.0, z: z.0 },
            flipped: VecOf { x: plan.x.flipped, y: plan.y.flipped, z: plan.z.flipped },
        }
    }
}

impl WeightsAlongLOR {
    /// Whether the current voxel belongs to the grid; see `in_grid`.
    pub fn is_in_grid(&self) -> (ok: bool)
        ensures
            ok == self.in_grid(),
    {
        match *self {
            WeightsAlongLOR::Outside => true,
            WeightsAlongLOR::Inside { to_boundary, n_voxels, voxel_size, index, flipped } => {
                index.x < n_voxels.x && index.y < n_voxels.y && index.z < n_voxels.z
            },
        }
    }

    /// Yields the index of the current voxel with the chord inside it, and
    /// moves on to the next voxel; yields nothing once the walk is over.
    pub fn next(&mut self) -> (item: Option<(Index, Ticks)>)
        requires
            old(self).inv(),
            old(self).in_grid(),
        ensures
            item == old(self).spec_next(),
            *final(self) == old(self).advanced(),
            final(self).inv(),
            item is Some <==> *old(self) is Inside,
            item matches Some((i, chord)) ==> {
                &&& chord > 0
                &&& i.x < old(self).grid().x
                &&& i.y < old(self).grid().y
                &&& i.z < old(self).grid().z
            },
    {
        match *self {
            WeightsAlongLOR::Outside => None,
            WeightsAlongLOR::Inside { to_boundary, n_voxels, voxel_size, index, flipped } => {
                let true_index = VecOf {
                    x: true_coordinate(index.x, n_voxels.x, flipped.x),
                    y: true_coordinate(index.y, n_voxels.y, flipped.y),
                    z: true_coordinate(index.z, n_voxels.z, flipped.z),
                };
                let (dimension, distance) = argmin(to_boundary);
                let x = axis_advance(index.x, to_boundary.x, voxel_size.x, distance);
                let y = axis_advance(index.y, to_boundary.y, voxel_size.y, distance);
                let z = axis_advance(index.z, to_boundary.z, voxel_size.z, distance);
                let left = if dimension == 0 {
                    x.0 >= n_voxels.x
                } else if dimension == 1 {
                    y.0 >= n_voxels.y
                } else {
                    z.0 >= n_voxels.z
                };
                if left {
                    *self = WeightsAlongLOR::Outside;
                } else {
                    *self = WeightsAlongLOR::Inside {
                        to_boundary: VecOf { x: x.1, y: y.1, z: z.1 },
                        n_voxels,
                        voxel_size,
                        index: VecOf { x: x.0, y: y.0, z: z.0 },
                        flipped,
                    };
                }
                Some((true_index, distance))
            },
        }
    }
}

/// Index in the caller's coordinates of voxel `index` of an axis.
fn true_coordinate(index: usize, n: usize, flipped: bool) -> (i: usize)
    requires
        index < n,
    ensures
        i == unflip(index, n, flipped),
        i < n,
{
    if flipped {
        n - 1 - index
    } else {
        index
    }
}

/// The first axis whose boundary is nearest, and its distance.
fn argmin(to_boundary: VecOf<Option<Ticks>>) -> (nearest: (usize, Ticks))
    requires
        to_boundary.x is Some || to_boundary.y is Some || to_boundary.z is Some,
    ensures
        nearest.0 == 0 <==> not_after(to_boundary.x, to_boundary.y) && not_after(
            to_boundary.x,
            to_boundary.z,
        ),
        nearest.0 == 1 <==> !(not_after(to_boundary.x, to_boundary.y) && not_after(
            to_boundary.x,
            to_boundary.z,
        )) && not_after(to_boundary.y, to_boundary.z),
        nearest.0 <= 2,
        nearest.0 == 0 ==> to_boundary.x == Some(nearest.1),
        nearest.0 == 1 ==> to_boundary.y == Some(nearest.1),
        nearest.0 == 2 ==> to_boundary.z == Some(nearest.1),
        not_after(Some(nearest.1), to_boundary.x) || to_boundary.x is None,
        not_after(Some(nearest.1), to_boundary.y) || to_boundary.y is None,
        not_after(Some(nearest.1), to_boundary.z) || to_boundary.z is None,
{
    let mut best: Option<(usize, Ticks)> = None;
    if let Some(t) = to_boundary.x {
        best = Some((0, t));
    }
    if let Some(t) = to_boundary.y {
        match best {
            Some((_, b)) if b <= t => {},
            _ => {
                best = Some((1, t));
            },
        }
    }
    if let Some(t) = to_boundary.z {
        match best {
            Some((_, b)) if b <= t => {},
            _ => {
                best = Some((2, t));
            },
        }
    }
    match best {
        Some(found) => found,
        None => (0, 0),
    }
}

/// The index of an axis and its distance to the next boundary after moving
/// `chord` ticks.
fn axis_advance(
    index: usize,
    to_boundary: Option<Ticks>,
    voxel_size: Option<Ticks>,
    chord: Ticks,
) -> (after: (usize, Option<Ticks>))
    requires
        axis_inv(to_boundary, voxel_size),
        index < usize::MAX,
        chord > 0,
        not_after(Some(chord), to_boundary) || to_boundary is None,
    ensures
        after.0 == index_after(index, to_boundary, chord),
        after.1 == to_boundary_after(to_boundary, voxel_size, chord),
        axis_inv(after.1, voxel_size),
{
    match to_boundary {
        None => (index, None),
        Some(t) => {
            if t <= chord {
                (index + 1, voxel_size)
            } else {
                (index, Some(t - chord))
            }
        },
    }
}

/// Where the walk starts on one axis: the index, the distance to the next
/// boundary, and the voxel size.
fn axis_start(
    a: Length,
    Ghost(b): Ghost<Length>,
    hw: Length,
    n: usize,
    Ghost(c): Ghost<int>,
    plan: &AxisPlan,
    tin: i128,
) -> (start: (usize, Option<Ticks>, Option<Ticks>))
    requires
        plan.fits(a, b, hw, n, c),
        -MAX_LENGTH <= a <= MAX_LENGTH,
        0 <= hw <= MAX_LENGTH,
        1 <= n <= MAX_VOXELS,
        0 <= tin <= TICKS_BOUND,
        plan.moving ==> plan.enter <= tin < plan.exit,
        !plan.moving ==> axis_holds(a, hw),
    ensures
        start.0 == start_index(a, b, hw, n, c, tin as int),
        start.1 == start_to_boundary(a, b, hw, n, c, tin as int),
        start.2 == start_voxel_size(a, b, hw, c),
        start.0 < n,
        axis_inv(start.1, start.2),
        start.1 is Some <==> a != b,
{
    if plan.moving {
        let off: u128 = (tin - plan.enter) as u128;
        let step: u128 = plan.step as u128;
        assert(step > 0 && off / step < n) by (nonlinear_arith)
            requires
                0 <= off < n * step,
                0 <= step,
        ;
        assert(0 <= off % step < step) by (nonlinear_arith)
            requires
                step > 0,
        ;
        let index = (off / step) as usize;
        (index, Some(step - off % step), Some(step))
    } else if hw == 0 {
        (0, None, None)
    } else {
        let up: u128 = (a as i128 + hw as i128) as u128;
        let den: u128 = 2 * (hw as u128);
        assert(0 <= up * n < den * n <= 0x8000_0000 * 2048 && (up * n) / (den as int) < n)
            by (nonlinear_arith)
            requires
                0 < up < den <= 0x8000_0000,
                1 <= n <= 2048,
        ;
        let num: u128 = up * (n as u128);
        ((num / den) as usize, None, None)
    }
}


/// A line that keeps its coordinate inside the box on an axis stays in one
/// voxel of the grid there.
pub(crate) proof fn lemma_still_axis_in_grid(a: Length, hw: Length, n: usize)
    requires
        axis_holds(a, hw),
        0 <= hw,
        n >= 1,
    ensures
        0 <= start_index(a, a, hw, n, 0, 0) < n,
{
    if hw != 0 {
        let (up, den) = (a + hw, 2 * hw);
        assert(0 <= (up * n) / den < n) by (nonlinear_arith)
            requires
                0 < up < den,
                n >= 1,
        ;
    }
}


/// Voxels still ahead along one axis, the current one included.
pub open spec fn axis_steps_left(index: usize, n: usize) -> nat {
    if index < n {
        (n - index) as nat
    } else {
        0
    }
}

impl WeightsAlongLOR {
    /// An upper bound on the number of items still to come.
    pub open spec fn steps_left(self) -> nat {
        match self {
            WeightsAlongLOR::Outside => 0,
            WeightsAlongLOR::Inside { to_boundary, n_voxels, voxel_size, index, flipped } => {
                axis_steps_left(index.x, n_voxels.x) + axis_steps_left(index.y, n_voxels.y)
                    + axis_steps_left(index.z, n_voxels.z)
            },
        }
    }

    /// The walk has something to yield and may be asked for it: it is inside
    /// the box, consistent, and in a voxel of the grid.
    pub open spec fn walking(self) -> bool {
        self is Inside && self.inv() && self.in_grid()
    }

    /// Everything the walk yields from this state on, in order, for as long
    /// as it stays in the grid.
    pub open spec fn trace(self) -> Seq<(Index, Ticks)>
        decreases self.steps_left(),
    {
        if self.walking() {
            proof {
                self.lemma_steps_left_decreases();
            }
            seq![(self.true_index(), self.chord())] + self.advanced().trace()
        } else {
            Seq::empty()
        }
    }

    /// A step brings the end of the walk nearer.
    pub proof fn lemma_steps_left_decreases(self)
        requires
            self.walking(),
        ensures
            self.advanced().steps_left() < self.steps_left(),
            self.advanced().inv(),
            self.chord() > 0,
    {
    }

    /// Whether the walk may be asked for an item; see `walking`.
    pub fn is_walking(&self) -> (ok: bool)
        requires
            self.inv(),
        ensures
            ok == self.walking(),
    {
        match *self {
            WeightsAlongLOR::Outside => false,
            WeightsAlongLOR::Inside { to_boundary, n_voxels, voxel_size, index, flipped } => {
                index.x < n_voxels.x && index.y < n_voxels.y && index.z < n_voxels.z
            },
        }
    }
}

/// The voxels that the line from `p1` to `p2` crosses in `vbox`, in order
/// from `p1` towards `p2`, each with the chord inside it in ticks.
pub fn traverse(p1: Point, p2: Point, vbox: &VoxelBox) -> (hits: Vec<(Index, Ticks)>)
    requires
        vbox.wf(),
        point_in_range(p1),
        point_in_range(p2),
    ensures
        hits@ == WeightsAlongLOR::spec_new(p1, p2, *vbox).trace(),
{
    let mut walk = WeightsAlongLOR::new(p1, p2, vbox);
    let ghost start = walk;
    let mut hits: Vec<(Index, Ticks)> = Vec::new();
    assert(hits@ + walk.trace() == start.trace());
    while walk.is_walking()
        invariant
            walk.inv(),
            hits@ + walk.trace() == start.trace(),
        decreases walk.steps_left(),
    {
        let ghost before = walk;
        proof {
            before.lemma_steps_left_decreases();
        }
        let item = walk.next();
        match item {
            Some(hit) => {
                assert(before.trace() == seq![hit] + walk.trace());
                assert(hits@.push(hit) + walk.trace() == hits@ + before.trace());
                hits.push(hit);
            },
            None => {},
        }
    }
    assert(walk.trace() == Seq::<(Index, Ticks)>::empty());
    assert(hits@ + walk.trace() == hits@);
    hits
}

} // verus!
