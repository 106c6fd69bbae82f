//! Walks of lines that are mirror images of one another.

use vstd::prelude::*;
use vstd::arithmetic::div_mod::{lemma_fundamental_div_mod, lemma_fundamental_div_mod_converse};
use crate::units::{point_in_range, BoxDim, Index, Length, Point, VecOf};
use crate::weights::{
    axis_holds, axis_weight, start_coord, start_index, unflip, Ticks, VoxelBox, WeightsAlongLOR,
};

verus! {

/// The coordinate `v`, reflected in the origin if `mirror` is set.
pub open spec fn mirror_coordinate(v: Length, mirror: bool) -> Length {
    if mirror {
        (-v) as Length
    } else {
        v
    }
}

/// The point `p`, reflected along the axes that `mirror` marks.
pub open spec fn mirror_point(p: Point, mirror: VecOf<bool>) -> Point {
    VecOf {
        x: mirror_coordinate(p.x, mirror.x),
        y: mirror_coordinate(p.y, mirror.y),
        z: mirror_coordinate(p.z, mirror.z),
    }
}

/// The voxel index `i` of a grid of `n` voxels, reflected along the axes
/// that `mirror` marks.
pub open spec fn mirror_index(i: Index, n: BoxDim, mirror: VecOf<bool>) -> Index {
    VecOf {
        x: unflip(i.x, n.x, mirror.x),
        y: unflip(i.y, n.y, mirror.y),
        z: unflip(i.z, n.z, mirror.z),
    }
}

/// The items `hits` with every index reflected, the chords unchanged.
pub open spec fn mirror_trace(hits: Seq<(Index, Ticks)>, n: BoxDim, mirror: VecOf<bool>) -> Seq<
    (Index, Ticks),
> {
    Seq::new(hits.len(), |k: int| (mirror_index(hits[k].0, n, mirror), hits[k].1))
}

/// Whether a line keeps, on this axis, a coordinate that lies in a boundary
/// plane between two voxels, so that the voxel it runs in is settled by
/// convention. In a box without thickness every plane is such a plane, unless
/// the box has a single voxel there.
pub open spec fn lies_in_boundary_plane(a: Length, b: Length, hw: Length, n: usize) -> bool {
    a == b && if hw == 0 {
        n != 1
    } else {
        ((a + hw) * n) % (2 * hw) == 0
    }
}

/// How the two states of one axis are related in two walks that are mirror
/// images: alike where the axis is not reflected; else in the same voxel of
/// the reflected coordinates with the reflection recorded the other way
/// round, or, where the line has no extent, in the mirror-image voxel.
pub open spec fn axis_mirrored(
    index: usize,
    flipped: bool,
    index2: usize,
    flipped2: bool,
    n: usize,
    moving: bool,
    mirror: bool,
) -> bool {
    if !mirror {
        index2 == index && flipped2 == flipped
    } else if moving {
        index2 == index && flipped2 == !flipped
    } else {
        flipped2 == flipped && index2 == n - 1 - index
    }
}

/// Whether two states are mirror images along the axes that `mirror` marks.
pub open spec fn mirror_images(
    walk: WeightsAlongLOR,
    other: WeightsAlongLOR,
    mirror: VecOf<bool>,
) -> bool {
    match (walk, other) {
        (WeightsAlongLOR::Outside, WeightsAlongLOR::Outside) => true,
        (
            WeightsAlongLOR::Inside { to_boundary, n_voxels, voxel_size, index, flipped },
            WeightsAlongLOR::Inside {
                to_boundary: to_boundary2,
                n_voxels: n_voxels2,
                voxel_size: voxel_size2,
                index: index2,
                flipped: flipped2,
            },
        ) => {
            &&& to_boundary2 == to_boundary
            &&& n_voxels2 == n_voxels
            &&& voxel_size2 == voxel_size
            &&& axis_mirrored(
                index.x,
                flipped.x,
                index2.x,
                flipped2.x,
                n_voxels.x,
                to_boundary.x is Some,
                mirror.x,
            )
            &&& axis_mirrored(
                index.y,
                flipped.y,
                index2.y,
                flipped2.y,
                n_voxels.y,
                to_boundary.y is Some,
                mirror.y,
            )
            &&& axis_mirrored(
                index.z,
                flipped.z,
                index2.z,
                flipped2.z,
                n_voxels.z,
                to_boundary.z is Some,
                mirror.z,
            )
        },
        _ => false,
    }
}

/// Walks that start as mirror images yield mirror-image voxels with the same
/// chords.
pub proof fn lemma_mirror_trace(walk: WeightsAlongLOR, other: WeightsAlongLOR, mirror: VecOf<bool>)
    requires
        mirror_images(walk, other, mirror),
    ensures
        other.trace() =~= mirror_trace(walk.trace(), walk.grid(), mirror),
    decreases walk.steps_left(),
{
    if walk.walking() {
        walk.lemma_steps_left_decreases();
        assert(other.walking());
        assert(other.chord() == walk.chord());
        assert(other.true_index() == mirror_index(walk.true_index(), walk.grid(), mirror));
        assert(mirror_images(walk.advanced(), other.advanced(), mirror));
        lemma_mirror_trace(walk.advanced(), other.advanced(), mirror);
        let (hits, hits2) = (walk.trace(), other.trace());
        assert(hits.skip(1) =~= walk.advanced().trace());
        assert(hits2.skip(1) =~= other.advanced().trace());
        assert forall|k: int| 0 <= k < hits.len() implies hits2[k] == (
            mirror_index(hits[k].0, walk.grid(), mirror),
            hits[k].1,
        ) by {
            if k > 0 {
                assert(hits2[k] == hits2.skip(1)[k - 1]);
                assert(hits[k] == hits.skip(1)[k - 1]);
                assert(walk.advanced().walking() ==> walk.advanced().grid() == walk.grid());
            }
        }
    } else {
        assert(!other.walking());
    }
}

/// What reflecting an axis leaves unchanged.
proof fn lemma_axis_reflected(a: Length, b: Length, hw: Length, n: usize, c: int)
    requires
        -0x4000_0000 <= a <= 0x4000_0000,
        -0x4000_0000 <= b <= 0x4000_0000,
    ensures
        axis_weight(mirror_coordinate(a, true), mirror_coordinate(b, true), n) == axis_weight(
            a,
            b,
            n,
        ),
        a != b ==> start_coord(mirror_coordinate(a, true), mirror_coordinate(b, true))
            == start_coord(a, b),
        axis_holds(mirror_coordinate(a, true), hw) == axis_holds(a, hw),
        (mirror_coordinate(a, true) == mirror_coordinate(b, true)) == (a == b),
        a != b ==> (mirror_coordinate(b, true) < mirror_coordinate(a, true)) == !(b < a),
{
}

/// A line with no extent along an axis runs, after reflection, in the
/// mirror-image voxel, unless it lies in a boundary plane.
proof fn lemma_still_axis_reflected(a: Length, hw: Length, n: usize)
    requires
        -0x4000_0000 <= a <= 0x4000_0000,
        axis_holds(a, hw),
        0 <= hw,
        n >= 1,
        !lies_in_boundary_plane(a, a, hw, n),
    ensures
        start_index(mirror_coordinate(a, true), mirror_coordinate(a, true), hw, n, 0, 0) == n - 1
            - start_index(a, a, hw, n, 0, 0),
{
    if hw != 0 {
        let (x, d) = ((a + hw) * n, 2 * hw);
        lemma_fundamental_div_mod(x, d);
        let (q, r) = (x / d, x % d);
        assert(0 <= r < d) by (nonlinear_arith)
            requires
                r == x % d,
                d > 0,
        ;
        assert((-a + hw) * n == (n - 1 - q) * d + (d - r)) by (nonlinear_arith)
            requires
                x == (a + hw) * n,
                d == 2 * hw,
                x == d * q + r,
        ;
        lemma_fundamental_div_mod_converse((-a + hw) * n, d, n - 1 - q, d - r);
    }
}

/// Mirror symmetry: reflect both end points of a line along any of the axes,
/// and the walk through the box, which is symmetric, yields the mirror-image
/// voxels with the same chords, in the same order. This holds unless the line
/// runs through the box, has no extent along a reflected axis, and lies there
/// in a boundary plane between voxels.
pub proof fn lemma_mirror_symmetry(p1: Point, p2: Point, vbox: VoxelBox, mirror: VecOf<bool>)
    requires
        vbox.wf(),
        point_in_range(p1),
        point_in_range(p2),
        vbox.hits(p1, p2) && mirror.x ==> !lies_in_boundary_plane(
            p1.x,
            p2.x,
            vbox.half_width.x,
            vbox.n.x,
        ),
        vbox.hits(p1, p2) && mirror.y ==> !lies_in_boundary_plane(
            p1.y,
            p2.y,
            vbox.half_width.y,
            vbox.n.y,
        ),
        vbox.hits(p1, p2) && mirror.z ==> !lies_in_boundary_plane(
            p1.z,
            p2.z,
            vbox.half_width.z,
            vbox.n.z,
        ),
    ensures
        point_in_range(mirror_point(p1, mirror)),
        point_in_range(mirror_point(p2, mirror)),
        WeightsAlongLOR::spec_new(mirror_point(p1, mirror), mirror_point(p2, mirror), vbox).trace()
            =~= mirror_trace(WeightsAlongLOR::spec_new(p1, p2, vbox).trace(), vbox.n, mirror),
{
    let (q1, q2) = (mirror_point(p1, mirror), mirror_point(p2, mirror));
    let (hw, n) = (vbox.half_width, vbox.n);
    lemma_axis_reflected(p1.x, p2.x, hw.x, n.x, 0);
    lemma_axis_reflected(p1.y, p2.y, hw.y, n.y, 0);
    lemma_axis_reflected(p1.z, p2.z, hw.z, n.z, 0);
    assert(vbox.weight_x(q1, q2) == vbox.weight_x(p1, p2));
    assert(vbox.weight_y(q1, q2) == vbox.weight_y(p1, p2));
    assert(vbox.weight_z(q1, q2) == vbox.weight_z(p1, p2));
    assert(vbox.enter_x(q1, q2) == vbox.enter_x(p1, p2));
    assert(vbox.enter_y(q1, q2) == vbox.enter_y(p1, p2));
    assert(vbox.enter_z(q1, q2) == vbox.enter_z(p1, p2));
    assert(vbox.exit_x(q1, q2) == vbox.exit_x(p1, p2));
    assert(vbox.exit_y(q1, q2) == vbox.exit_y(p1, p2));
    assert(vbox.exit_z(q1, q2) == vbox.exit_z(p1, p2));
    assert(vbox.hits(q1, q2) == vbox.hits(p1, p2));
    let walk = WeightsAlongLOR::spec_new(p1, p2, vbox);
    let other = WeightsAlongLOR::spec_new(q1, q2, vbox);
    if vbox.hits(p1, p2) {
        crate::weights::laws::lemma_start_walks(p1, p2, vbox);
        if p1.x == p2.x && mirror.x {
            lemma_still_axis_reflected(p1.x, hw.x, n.x);
        }
        if p1.y == p2.y && mirror.y {
            lemma_still_axis_reflected(p1.y, hw.y, n.y);
        }
        if p1.z == p2.z && mirror.z {
            lemma_still_axis_reflected(p1.z, hw.z, n.z);
        }
        assert(mirror_images(walk, other, mirror));
    }
    lemma_mirror_trace(walk, other, mirror);
}

} // verus!
