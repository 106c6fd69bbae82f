//! The field of view: an axis-aligned box of voxels, and where a line of
//! response enters and leaves it.
//!
//! Distances along a line of response are counted in *ticks*. The whole
//! segment from `p1` to `p2` is divided into `lor_ticks` equal ticks, a
//! number chosen so that the segment meets every voxel boundary plane at a
//! whole tick. A stretch of `k` ticks therefore has the Euclidean length
//! `k / lor_ticks` times the distance between the two end points.

use vstd::prelude::*;
use crate::units::{point_in_range, BoxDim, Index, Length, Point, Ratio, VecOf, Vector};
use crate::units::{MAX_LENGTH, MAX_VOXELS};

verus! {

/// A distance along a line of response, in ticks.
pub type Ticks = u128;

/// Ticks contributed by one axis to `lor_ticks`: the voxel count times the
/// extent of the line along the axis, or 1 when the line has no extent there.
pub open spec fn axis_weight(a: Length, b: Length, n: usize) -> int {
    if a == b {
        1
    } else if a < b {
        n * (b - a)
    } else {
        n * (a - b)
    }
}

/// The coordinate `a` of the first end point once the axis has been
/// reflected, if need be, to make the line run in the positive direction.
pub open spec fn start_coord(a: Length, b: Length) -> int {
    if b < a {
        -a
    } else {
        a as int
    }
}

/// Ticks needed to cross one voxel along an axis with half-width `hw`, where
/// `c` is the product of the weights of the two other axes.
pub open spec fn axis_step(hw: Length, c: int) -> int {
    2 * hw * c
}

/// Tick at which the line crosses the lower face of the box on this axis.
pub open spec fn axis_enter(a: Length, b: Length, hw: Length, n: usize, c: int) -> int {
    -((hw + start_coord(a, b)) * (n * c))
}

/// Tick at which the line crosses the upper face of the box on this axis.
pub open spec fn axis_exit(a: Length, b: Length, hw: Length, n: usize, c: int) -> int {
    (hw - start_coord(a, b)) * (n * c)
}

/// `axis_enter`, or 0 for an axis along which the line has no extent.
pub open spec fn axis_enter_or_zero(a: Length, b: Length, hw: Length, n: usize, c: int) -> int {
    if a == b {
        0
    } else {
        axis_enter(a, b, hw, n, c)
    }
}

/// `axis_exit`, or nothing for an axis along which the line has no extent.
pub open spec fn axis_exit_if_any(a: Length, b: Length, hw: Length, n: usize, c: int) -> Option<
    int,
> {
    if a == b {
        None
    } else {
        Some(axis_exit(a, b, hw, n, c))
    }
}

/// Whether a line that keeps the coordinate `a` on this axis runs inside the
/// box there: strictly between the two faces, or in the plane of a box that
/// has no thickness.
pub open spec fn axis_holds(a: Length, hw: Length) -> bool {
    (hw == 0 && a == 0) || (-hw < a < hw)
}

/// The smaller of two distances, where `None` stands for "never".
pub open spec fn sooner(a: Option<int>, b: Option<int>) -> Option<int> {
    match (a, b) {
        (None, _) => b,
        (_, None) => a,
        (Some(x), Some(y)) => if x <= y {
            a
        } else {
            b
        },
    }
}

/// The larger of two integers.
pub open spec fn later(a: int, b: int) -> int {
    if a >= b {
        a
    } else {
        b
    }
}

/// An axis-aligned box centred on the origin, cut into a uniform grid.
#[derive(Clone, Copy, Debug)]
pub struct VoxelBox {
    pub half_width: Vector,
    pub n: BoxDim,
    pub voxel_size: VecOf<Ratio>,
}

impl VoxelBox {
    /// The box is usable: no half-width is negative or beyond `MAX_LENGTH`,
    /// each axis has between 1 and `MAX_VOXELS` voxels, and the voxel size is
    /// the full width divided by the voxel count.
    pub open spec fn wf(self) -> bool {
        &&& 0 <= self.half_width.x <= MAX_LENGTH
        &&& 0 <= self.half_width.y <= MAX_LENGTH
        &&& 0 <= self.half_width.z <= MAX_LENGTH
        &&& 1 <= self.n.x <= MAX_VOXELS
        &&& 1 <= self.n.y <= MAX_VOXELS
        &&& 1 <= self.n.z <= MAX_VOXELS
        &&& self.voxel_size == Self::spec_voxel_size(self.n, self.half_width)
    }

    /// Voxel size along each axis: twice the half-width over the voxel count.
    pub open spec fn spec_voxel_size(n: BoxDim, half_width: Vector) -> VecOf<Ratio> {
        VecOf {
            x: Ratio { num: (2 * half_width.x) as i128, den: n.x as i128 },
            y: Ratio { num: (2 * half_width.y) as i128, den: n.y as i128 },
            z: Ratio { num: (2 * half_width.z) as i128, den: n.z as i128 },
        }
    }

    /// A box with the given half-widths and voxel counts.
    pub fn new(half_width: (Length, Length, Length), n: (usize, usize, usize)) -> (vbox: Self)
        ensures
            vbox.half_width == (VecOf { x: half_width.0, y: half_width.1, z: half_width.2 }),
            vbox.n == (VecOf { x: n.0, y: n.1, z: n.2 }),
            vbox.voxel_size == Self::spec_voxel_size(vbox.n, vbox.half_width),
    {
        let half_width = VecOf { x: half_width.0, y: half_width.1, z: half_width.2 };
        let n = VecOf { x: n.0, y: n.1, z: n.2 };
        let voxel_size = Self::voxel_size(n, half_width);
        Self { half_width, n, voxel_size }
    }

    /// Voxel size along each axis.
    fn voxel_size(n: BoxDim, half_width: Vector) -> (size: VecOf<Ratio>)
        ensures
            size == Self::spec_voxel_size(n, half_width),
    {
        VecOf {
            x: Ratio { num: 2 * (half_width.x as i128), den: n.x as i128 },
            y: Ratio { num: 2 * (half_width.y as i128), den: n.y as i128 },
            z: Ratio { num: 2 * (half_width.z as i128), den: n.z as i128 },
        }
    }

    /// Whether the box is usable; see `wf`.
    pub fn is_valid(&self) -> (ok: bool)
        ensures
            ok == self.wf(),
    {
        let size = Self::voxel_size(self.n, self.half_width);
        0 <= self.half_width.x && self.half_width.x <= MAX_LENGTH && 0 <= self.half_width.y
            && self.half_width.y <= MAX_LENGTH && 0 <= self.half_width.z && self.half_width.z
            <= MAX_LENGTH && 1 <= self.n.x && self.n.x <= MAX_VOXELS && 1 <= self.n.y && self.n.y
            <= MAX_VOXELS && 1 <= self.n.z && self.n.z <= MAX_VOXELS && self.voxel_size.x == size.x
            && self.voxel_size.y == size.y && self.voxel_size.z == size.z
    }

    /// Centre of voxel `i`, with the origin at the centre of the box: half a
    /// width below the origin, plus `(i + 1/2)` voxel sizes, along each axis.
    /// That is `(2 i + 1 - n) * half_width / n`.
    pub fn voxel_centre(&self, i: Index) -> (centre: VecOf<Ratio>)
        requires
            self.wf(),
            i.x < self.n.x,
            i.y < self.n.y,
            i.z < self.n.z,
        ensures
            centre.x.num == (2 * i.x + 1 - self.n.x) * self.half_width.x,
            centre.x.den == self.n.x,
            centre.y.num == (2 * i.y + 1 - self.n.y) * self.half_width.y,
            centre.y.den == self.n.y,
            centre.z.num == (2 * i.z + 1 - self.n.z) * self.half_width.z,
            centre.z.den == self.n.z,
    {
        VecOf {
            x: Ratio {
                num: centre_numerator(i.x, self.n.x, self.half_width.x),
                den: self.n.x as i128,
            },
            y: Ratio {
                num: centre_numerator(i.y, self.n.y, self.half_width.y),
                den: self.n.y as i128,
            },
            z: Ratio {
                num: centre_numerator(i.z, self.n.z, self.half_width.z),
                den: self.n.z as i128,
            },
        }
    }
}

impl VoxelBox {
    /// Weight of the x axis for the line from `p1` to `p2`.
    pub open spec fn weight_x(self, p1: Point, p2: Point) -> int {
        axis_weight(p1.x, p2.x, self.n.x)
    }

    /// Weight of the y axis for the line from `p1` to `p2`.
    pub open spec fn weight_y(self, p1: Point, p2: Point) -> int {
        axis_weight(p1.y, p2.y, self.n.y)
    }

    /// Weight of the z axis for the line from `p1` to `p2`.
    pub open spec fn weight_z(self, p1: Point, p2: Point) -> int {
        axis_weight(p1.z, p2.z, self.n.z)
    }

    /// Number of ticks into which the segment from `p1` to `p2` is divided.
    pub open spec fn lor_ticks(self, p1: Point, p2: Point) -> int {
        self.weight_x(p1, p2) * self.weight_y(p1, p2) * self.weight_z(p1, p2)
    }

    /// Product of the weights of the y and z axes.
    pub open spec fn cofactor_x(self, p1: Point, p2: Point) -> int {
        self.weight_y(p1, p2) * self.weight_z(p1, p2)
    }

    /// Product of the weights of the x and z axes.
    pub open spec fn cofactor_y(self, p1: Point, p2: Point) -> int {
        self.weight_x(p1, p2) * self.weight_z(p1, p2)
    }

    /// Product of the weights of the x and y axes.
    pub open spec fn cofactor_z(self, p1: Point, p2: Point) -> int {
        self.weight_x(p1, p2) * self.weight_y(p1, p2)
    }

    /// Tick at which the line crosses the lower x face, or 0.
    pub open spec fn enter_x(self, p1: Point, p2: Point) -> int {
        axis_enter_or_zero(p1.x, p2.x, self.half_width.x, self.n.x, self.cofactor_x(p1, p2))
    }

    /// Tick at which the line crosses the lower y face, or 0.
    pub open spec fn enter_y(self, p1: Point, p2: Point) -> int {
        axis_enter_or_zero(p1.y, p2.y, self.half_width.y, self.n.y, self.cofactor_y(p1, p2))
    }

    /// Tick at which the line crosses the lower z face, or 0.
    pub open spec fn enter_z(self, p1: Point, p2: Point) -> int {
        axis_enter_or_zero(p1.z, p2.z, self.half_width.z, self.n.z, self.cofactor_z(p1, p2))
    }

    /// Tick at which the line crosses the upper x face, if it ever does.
    pub open spec fn exit_x(self, p1: Point, p2: Point) -> Option<int> {
        axis_exit_if_any(p1.x, p2.x, self.half_width.x, self.n.x, self.cofactor_x(p1, p2))
    }

    /// Tick at which the line crosses the upper y face, if it ever does.
    pub open spec fn exit_y(self, p1: Point, p2: Point) -> Option<int> {
        axis_exit_if_any(p1.y, p2.y, self.half_width.y, self.n.y, self.cofactor_y(p1, p2))
    }

    /// Tick at which the line crosses the upper z face, if it ever does.
    pub open spec fn exit_z(self, p1: Point, p2: Point) -> Option<int> {
        axis_exit_if_any(p1.z, p2.z, self.half_width.z, self.n.z, self.cofactor_z(p1, p2))
    }

    /// Tick at which the segment is first inside every slab it crosses: the
    /// latest lower-face crossing, but not before the first end point.
    pub open spec fn entry_tick(self, p1: Point, p2: Point) -> int {
        later(0, later(self.enter_x(p1, p2), later(self.enter_y(p1, p2), self.enter_z(p1, p2))))
    }

    /// Tick at which the line through `p1` and `p2` leaves the box: the
    /// earliest upper-face crossing. `None` when the two points coincide.
    pub open spec fn exit_tick(self, p1: Point, p2: Point) -> Option<int> {
        sooner(self.exit_x(p1, p2), sooner(self.exit_y(p1, p2), self.exit_z(p1, p2)))
    }

    /// Whether the segment from `p1` to `p2` runs through the box over a
    /// stretch of positive length. A segment that only touches the box, at a
    /// corner, along an edge or within a face, does not.
    pub open spec fn hits(self, p1: Point, p2: Point) -> bool {
        &&& self.exit_tick(p1, p2) matches Some(out)
        &&& self.entry_tick(p1, p2) < out
        &&& self.entry_tick(p1, p2) < self.lor_ticks(p1, p2)
        &&& p1.x == p2.x ==> axis_holds(p1.x, self.half_width.x)
        &&& p1.y == p2.y ==> axis_holds(p1.y, self.half_width.y)
        &&& p1.z == p2.z ==> axis_holds(p1.z, self.half_width.z)
    }

    /// Where the segment from `p1` to `p2` enters the box, as the fraction of
    /// the way from `p1` to `p2`; `None` when it misses the box.
    pub fn entry(&self, p1: &Point, p2: &Point) -> (at: Option<Ratio>)
        requires
            self.wf(),
            point_in_range(*p1),
            point_in_range(*p2),
        ensures
            at is Some <==> self.hits(*p1, *p2),
            at matches Some(t) ==> t.num == self.entry_tick(*p1, *p2) && t.den == self.lor_ticks(
                *p1,
                *p2,
            ),
    {
        let plan = self.plan(*p1, *p2);
        if plan.hit {
            Some(Ratio { num: plan.tin, den: plan.ticks })
        } else {
            None
        }
    }

    /// Number of ticks into which the segment from `p1` to `p2` is divided.
    pub fn ticks_per_lor(&self, p1: &Point, p2: &Point) -> (ticks: Ticks)
        requires
            self.wf(),
            point_in_range(*p1),
            point_in_range(*p2),
        ensures
            ticks == self.lor_ticks(*p1, *p2),
            ticks >= 1,
    {
        let plan = self.plan(*p1, *p2);
        plan.ticks as u128
    }

    /// Everything the walk needs to know about the line from `p1` to `p2`.
    pub(crate) fn plan(&self, p1: Point, p2: Point) -> (plan: Plan)
        requires
            self.wf(),
            point_in_range(p1),
            point_in_range(p2),
        ensures
            plan.ticks == self.lor_ticks(p1, p2),
            1 <= plan.ticks <= TICKS_BOUND,
            plan.tin == self.entry_tick(p1, p2),
            plan.hit == self.hits(p1, p2),
            plan.x.fits(p1.x, p2.x, self.half_width.x, self.n.x, self.cofactor_x(p1, p2)),
            plan.y.fits(p1.y, p2.y, self.half_width.y, self.n.y, self.cofactor_y(p1, p2)),
            plan.z.fits(p1.z, p2.z, self.half_width.z, self.n.z, self.cofactor_z(p1, p2)),
    {
        let wx = weight(p1.x, p2.x, self.n.x);
        let wy = weight(p1.y, p2.y, self.n.y);
        let wz = weight(p1.z, p2.z, self.n.z);
        proof {
            lemma_product_bounds(wy as int, wz as int, WEIGHT_BOUND as int, WEIGHT_BOUND as int);
            lemma_product_bounds(wx as int, wz as int, WEIGHT_BOUND as int, WEIGHT_BOUND as int);
            lemma_product_bounds(wx as int, wy as int, WEIGHT_BOUND as int, WEIGHT_BOUND as int);
            lemma_product_bounds(
                wx as int * wy as int,
                wz as int,
                COFACTOR_BOUND as int,
                WEIGHT_BOUND as int,
            );
        }
        let cx = wy * wz;
        let cy = wx * wz;
        let cz = wx * wy;
        let ticks = cz * wz;
        let x = axis_plan(p1.x, p2.x, self.half_width.x, self.n.x, cx);
        let y = axis_plan(p1.y, p2.y, self.half_width.y, self.n.y, cy);
        let z = axis_plan(p1.z, p2.z, self.half_width.z, self.n.z, cz);
        let mut tin: i128 = 0;
        if x.enter > tin {
            tin = x.enter;
        }
        if y.enter > tin {
            tin = y.enter;
        }
        if z.enter > tin {
            tin = z.enter;
        }
        let mut any = false;
        let mut tout: i128 = 0;
        if z.moving {
            any = true;
            tout = z.exit;
        }
        if y.moving {
            if !any || y.exit <= tout {
                tout = y.exit;
            }
            any = true;
        }
        if x.moving {
            if !any || x.exit <= tout {
                tout = x.exit;
            }
            any = true;
        }
        let hit = any && tin < tout && tin < ticks && (x.moving || holds(p1.x, self.half_width.x))
            && (y.moving || holds(p1.y, self.half_width.y)) && (z.moving || holds(
            p1.z,
            self.half_width.z,
        ));
        Plan { x, y, z, ticks, tin, hit }
    }
}

/// Largest weight of one axis.
pub const WEIGHT_BOUND: i128 = 0x400_0000_0000;

/// Largest product of two weights.
pub const COFACTOR_BOUND: i128 = 0x10_0000_0000_0000_0000_0000;

/// Largest number of ticks in a line of response, and largest magnitude of
/// any tick count that the geometry forms.
pub const TICKS_BOUND: i128 = 0x4000_0000_0000_0000_0000_0000_0000_0000;

/// What the walk needs to know about one axis.
pub(crate) struct AxisPlan {
    pub(crate) moving: bool,
    pub(crate) flipped: bool,
    pub(crate) step: i128,
    pub(crate) enter: i128,
    pub(crate) exit: i128,
}

impl AxisPlan {
    /// The plan is that of an axis on which the line runs from `a` to `b`.
    pub(crate) open spec fn fits(self, a: Length, b: Length, hw: Length, n: usize, c: int) -> bool {
        &&& self.moving == (a != b)
        &&& self.flipped == (b < a)
        &&& self.enter == axis_enter_or_zero(a, b, hw, n, c)
        &&& self.moving ==> self.step == axis_step(hw, c) && self.exit == axis_exit(a, b, hw, n, c)
            && self.exit == self.enter + n * self.step
        &&& 0 <= self.step <= TICKS_BOUND
        &&& -TICKS_BOUND <= self.enter <= TICKS_BOUND
        &&& -TICKS_BOUND <= self.exit <= TICKS_BOUND
    }
}

/// What the walk needs to know about the line as a whole.
pub(crate) struct Plan {
    pub(crate) x: AxisPlan,
    pub(crate) y: AxisPlan,
    pub(crate) z: AxisPlan,
    pub(crate) ticks: i128,
    pub(crate) tin: i128,
    pub(crate) hit: bool,
}

/// A product is bounded by the product of the bounds.
pub(crate) proof fn lemma_product_bounds(x: int, y: int, xb: int, yb: int)
    by (nonlinear_arith)
    requires
        -xb <= x <= xb,
        0 <= y <= yb,
    ensures
        -(xb * yb) <= x * y <= xb * yb,
        x >= 1 && y >= 1 ==> x * y >= 1,
        x >= 0 ==> x * y >= 0,
{
}

/// The weight of an axis on which the line runs from `a` to `b`.
fn weight(a: Length, b: Length, n: usize) -> (w: i128)
    requires
        -MAX_LENGTH <= a <= MAX_LENGTH,
        -MAX_LENGTH <= b <= MAX_LENGTH,
        1 <= n <= MAX_VOXELS,
    ensures
        w == axis_weight(a, b, n),
        1 <= w <= WEIGHT_BOUND,
{
    if a == b {
        1
    } else {
        let d: i128 = if a < b {
            b as i128 - a as i128
        } else {
            a as i128 - b as i128
        };
        proof {
            lemma_product_bounds(n as int, d as int, 2048, 0x8000_0000);
        }
        (n as i128) * d
    }
}

/// Whether a line that keeps the coordinate `a` runs inside the box.
fn holds(a: Length, hw: Length) -> (ok: bool)
    requires
        0 <= hw <= MAX_LENGTH,
    ensures
        ok == axis_holds(a, hw),
{
    (hw == 0 && a == 0) || (-hw < a && a < hw)
}

/// The plan of an axis on which the line runs from `a` to `b`, where `c` is
/// the product of the weights of the two other axes.
fn axis_plan(a: Length, b: Length, hw: Length, n: usize, c: i128) -> (plan: AxisPlan)
    requires
        -MAX_LENGTH <= a <= MAX_LENGTH,
        -MAX_LENGTH <= b <= MAX_LENGTH,
        0 <= hw <= MAX_LENGTH,
        1 <= n <= MAX_VOXELS,
        1 <= c <= COFACTOR_BOUND,
    ensures
        plan.fits(a, b, hw, n, c as int),
{
    if a == b {
        AxisPlan { moving: false, flipped: false, step: 0, enter: 0, exit: 0 }
    } else {
        let flipped = b < a;
        let s: i128 = if flipped {
            -(a as i128)
        } else {
            a as i128
        };
        proof {
            lemma_product_bounds(n as int, c as int, 2048, COFACTOR_BOUND as int);
            lemma_product_bounds(2 * hw as int, c as int, 0x8000_0000, COFACTOR_BOUND as int);
            lemma_product_bounds(hw + s, n * c, 0x8000_0000, 2048 * COFACTOR_BOUND);
            lemma_product_bounds(hw - s, n * c, 0x8000_0000, 2048 * COFACTOR_BOUND);
            lemma_faces(hw as int, s as int, n as int, c as int);
        }
        let nc = (n as i128) * c;
        let step = 2 * (hw as i128) * c;
        let enter = -((hw as i128 + s) * nc);
        let exit = (hw as i128 - s) * nc;
        AxisPlan { moving: true, flipped, step, enter, exit }
    }
}

/// The upper face lies `n` voxels after the lower face.
proof fn lemma_faces(hw: int, s: int, n: int, c: int)
    by (nonlinear_arith)
    ensures
        (hw - s) * (n * c) == -((hw + s) * (n * c)) + n * (2 * hw * c),
{
}

/// The weight of an axis is at least 1 and at most `WEIGHT_BOUND`.
pub(crate) proof fn lemma_weight_bounds(a: Length, b: Length, n: usize)
    requires
        -MAX_LENGTH <= a <= MAX_LENGTH,
        -MAX_LENGTH <= b <= MAX_LENGTH,
        1 <= n <= MAX_VOXELS,
    ensures
        1 <= axis_weight(a, b, n) <= WEIGHT_BOUND,
{
    let d: int = if a < b {
        b - a
    } else {
        a - b
    };
    if a != b {
        lemma_product_bounds(n as int, d, 2048, 0x8000_0000);
    }
}

/// On an axis that the line crosses, the upper face lies `n` voxels after
/// the lower face, and a voxel is no more than `TICKS_BOUND` ticks wide.
pub(crate) proof fn lemma_axis_faces(a: Length, b: Length, hw: Length, n: usize, c: int)
    requires
        -MAX_LENGTH <= a <= MAX_LENGTH,
        0 <= hw <= MAX_LENGTH,
        1 <= n <= MAX_VOXELS,
        1 <= c <= COFACTOR_BOUND,
    ensures
        axis_exit(a, b, hw, n, c) == axis_enter(a, b, hw, n, c) + n * axis_step(hw, c),
        0 <= axis_step(hw, c) <= TICKS_BOUND,
{
    lemma_faces(hw as int, start_coord(a, b), n as int, c);
    lemma_product_bounds(2 * hw as int, c, 0x8000_0000, COFACTOR_BOUND as int);
}

/// The tick at which a line crosses an upper face is within `TICKS_BOUND`.
pub(crate) proof fn lemma_exit_bound(a: Length, b: Length, hw: Length, n: usize, c: int)
    requires
        -MAX_LENGTH <= a <= MAX_LENGTH,
        0 <= hw <= MAX_LENGTH,
        1 <= n <= MAX_VOXELS,
        1 <= c <= COFACTOR_BOUND,
    ensures
        -TICKS_BOUND <= axis_exit(a, b, hw, n, c) <= TICKS_BOUND,
{
    lemma_product_bounds(n as int, c, 2048, COFACTOR_BOUND as int);
    lemma_product_bounds(hw - start_coord(a, b), n * c, 0x8000_0000, 2048 * COFACTOR_BOUND);
}

/// `(2 i + 1 - n)` half-widths.
fn centre_numerator(i: usize, n: usize, hw: Length) -> (num: i128)
    requires
        i < n <= MAX_VOXELS,
        0 <= hw <= MAX_LENGTH,
    ensures
        num == (2 * i + 1 - n) * hw,
{
    let k: i128 = 2 * (i as i128) + 1 - (n as i128);
    assert(-2048 * 0x4000_0000 <= k * hw <= 4096 * 0x4000_0000) by (nonlinear_arith)
        requires
            -2048 <= k <= 4096,
            0 <= hw <= 0x4000_0000,
    ;
    k * (hw as i128)
}

} // verus!
