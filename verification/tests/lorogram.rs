use petalo::io::hdf5::Hdf5Lor;
use petalo::lorogram::{
    axis_dz, axis_r, axis_z, delta_z, distance_from_z_axis, fill_scattergram, mk_lor,
    z_of_midpoint, LorHistogram, Lorogram, Prompt, Scattergram,
};
use petalo::Ratio;

#[test]
fn two_dimensions() {
    // Lengths in tenths of a millimetre.
    let nbins_z = 10;
    let nbins_dz = 10;
    let l = 10_000;
    let max_dz = l;
    let mut h =
        LorHistogram::new(vec![axis_z(nbins_z, -l / 2, l / 2), axis_dz(nbins_dz, max_dz)]).unwrap();
    let (z, delta) = (1234, 5432);
    // Irrelevant values
    let (i1, i2, i3, i4, i5, i6, i7, i8) = (100, 200, 300, 400, 500, 600, 700, 800);

    let l1 = mk_lor(((i1, i2, z - delta), (i3, i4, z + delta)));
    let l2 = mk_lor(((i5, i6, z + delta), (i7, i8, z - delta)));
    Lorogram::fill(&mut h, &l1);
    let n = Lorogram::value(&h, &l2);

    assert_eq!(n, 1);
}

#[test]
fn projections_are_exact() {
    let lor = mk_lor(((3, 4, -7), (3, 4, 10)));
    assert_eq!(z_of_midpoint(&lor), 1);
    assert_eq!(delta_z(&lor), 17);
    // Parallel to the z axis: the distance of the end points from the axis.
    assert_eq!(distance_from_z_axis(&lor), 5);

    // The line y = 10 lies 10 from the axis, whatever the end points.
    let lor = mk_lor(((-300, 10, 0), (500, 10, 3)));
    assert_eq!(distance_from_z_axis(&lor), 10);
    // The line x + y = 10 lies 10 / sqrt(2) = 7.07 from the axis.
    let lor = mk_lor(((10, 0, 0), (0, 10, 0)));
    assert_eq!(distance_from_z_axis(&lor), 7);
    // A line through the axis.
    let lor = mk_lor(((-5, -5, 0), (7, 7, 0)));
    assert_eq!(distance_from_z_axis(&lor), 0);
    // Midpoint heights round down, also below zero.
    assert_eq!(z_of_midpoint(&mk_lor(((0, 0, -4), (0, 0, 1)))), -2);
    assert_eq!(z_of_midpoint(&mk_lor(((0, 0, 4), (0, 0, 1)))), 2);
}

#[test]
fn mixed_radix_bins() {
    // Two axes of 2 + 2 and 3 + 2 bins: 20 bins in all, the first axis fastest.
    let make = || LorHistogram::new(vec![axis_z(2, 0, 20), axis_dz(3, 30)]).unwrap();
    let mut h = make();
    // z of midpoint 15 (bin 2), dz 10 (bin 2).
    let a = mk_lor(((0, 0, 10), (0, 0, 20)));
    // z of midpoint 5 (bin 1), dz 10 (bin 2).
    let b = mk_lor(((0, 0, 0), (0, 0, 10)));
    // z of midpoint 15 (bin 2), dz 30 (overflow bin 4).
    let c = mk_lor(((0, 0, 0), (0, 0, 30)));
    h.fill(&a);
    h.fill(&a);
    h.fill(&b);
    h.fill(&c);
    assert_eq!(h.value(&a), 2);
    assert_eq!(h.value(&b), 1);
    assert_eq!(h.value(&c), 1);
    assert_eq!(h.value(&mk_lor(((0, 0, -10), (0, 0, -20)))), 0);
}

#[test]
fn scattergram_counts_and_fraction() {
    let make = || LorHistogram::new(vec![axis_r(10, 1200)]).unwrap();
    let mut sgram = Scattergram::new(make);
    let near = mk_lor(((50, -1000, 0), (50, 1000, 0)));
    let far = mk_lor(((1000, -1000, 0), (1000, 1000, 0)));
    assert_eq!(sgram.value(&near), Ratio { num: 0, den: 1 });
    sgram.fill(Prompt::True, &near);
    sgram.fill(Prompt::Scatter, &near);
    sgram.fill(Prompt::True, &near);
    sgram.fill(Prompt::Scatter, &far);
    assert_eq!(sgram.triplet(&near), (Ratio { num: 1, den: 3 }, 2, 1));
    assert_eq!(sgram.value(&near), Ratio { num: 1, den: 3 });
    assert_eq!(sgram.triplet(&far), (Ratio { num: 1, den: 1 }, 0, 1));
    // Trues and scatters of a bin together are the fills that fell in it.
    let (_, t, s) = sgram.triplet(&near);
    assert_eq!(t + s, 3);
}

fn row(x: i64, e1: i64, e2: i64) -> Hdf5Lor {
    Hdf5Lor { dt: 0, x1: x, y1: -1000, z1: 0, x2: x, y2: 1000, z2: 0, q1: 0, q2: 0, E1: e1, E2: e2 }
}

#[test]
fn fill_scattergram_classifies_by_energy() {
    let make = || LorHistogram::new(vec![axis_r(10, 1200)]).unwrap();
    let rows = vec![
        row(50, 511_000, 511_000),
        row(50, 510_999, 511_000),
        row(50, 600_000, 400_000),
        row(50, 511_000, 520_000),
        // Out of range: skipped.
        row(i64::MAX, 0, 0),
    ];
    let sgram = fill_scattergram(make, rows);
    let lor = mk_lor(((50, -1000, 0), (50, 1000, 0)));
    assert_eq!(sgram.triplet(&lor), (Ratio { num: 2, den: 4 }, 2, 2));
}

use petalo::lorogram::axis::UniformAxis;
use petalo::lorogram::counts::Counts;
use petalo::lorogram::mapped::project;
use petalo::lorogram::{is_lor_in_range, Feature, MappedAxis};

#[test]
fn counters_count() {
    let mut counts = Counts::new(3);
    assert_eq!(counts.len(), 3);
    assert_eq!((counts.get(0), counts.get(1), counts.get(2)), (0, 0, 0));
    counts.add_one(2);
    counts.add_one(0);
    counts.add_one(2);
    assert_eq!((counts.get(0), counts.get(1), counts.get(2)), (1, 0, 2));
}

#[test]
fn lines_in_and_out_of_range() {
    let limit = 1 << 30;
    assert!(is_lor_in_range(&mk_lor(((limit, -limit, 0), (0, limit, -limit)))));
    assert!(!is_lor_in_range(&mk_lor(((limit + 1, 0, 0), (0, 0, 0)))));
    assert!(!is_lor_in_range(&mk_lor(((0, 0, 0), (0, -limit - 1, 0)))));
}

#[test]
fn mapped_axis_bins_its_feature() {
    let lor = mk_lor(((30, 40, -7), (30, 40, 10)));
    assert_eq!(project(Feature::ZOfMidpoint, &lor), 1);
    assert_eq!(project(Feature::DeltaZ, &lor), 17);
    assert_eq!(project(Feature::DistanceFromZAxis, &lor), 50);
    // Five bins of width 20 over [0, 100).
    let axis = MappedAxis::new(UniformAxis::with_step_size(5, 0, 20), Feature::DistanceFromZAxis);
    assert_eq!(axis.num_bins(), 7);
    assert_eq!(axis.index(&lor), Some(3));
    assert_eq!(
        axis.bin(3),
        Some(petalo::lorogram::axis::BinInterval::Bin {
            start: Ratio { num: 200, den: 5 },
            end: Ratio { num: 300, den: 5 },
        })
    );
    assert_eq!(axis_dz(5, 100).index(&lor), Some(1));
    assert_eq!(axis_z(4, -20, 20).index(&lor), Some(3));
    assert_eq!(axis_z(4, -20, 20).index(&mk_lor(((0, 0, -50), (0, 0, 0)))), Some(0));
    assert_eq!(axis_r(10, 40).index(&lor), Some(11));
}

#[test]
fn histogram_with_too_many_bins_is_refused() {
    let big = || axis_z(1 << 20, 0, 1 << 20);
    assert!(LorHistogram::new(vec![big()]).is_some());
    assert!(LorHistogram::new(vec![big(), big()]).is_none());
    // A histogram has one to four axes.
    assert!(LorHistogram::new(vec![]).is_none());
    let small = || axis_dz(2, 10);
    assert!(LorHistogram::new(vec![small(), small(), small(), small()]).is_some());
    assert!(LorHistogram::new(vec![small(), small(), small(), small(), small()]).is_none());
}

#[test]
fn three_and_four_dimensions() {
    // Lines that differ in one quantity only fall in different bins.
    let axes = || vec![axis_z(4, -100, 100), axis_dz(4, 200), axis_r(4, 200)];
    let mut h = LorHistogram::new(axes()).unwrap();
    let base = mk_lor(((60, -500, -10), (60, 500, 30)));
    let higher = mk_lor(((60, -500, 50), (60, 500, 90)));
    let steeper = mk_lor(((60, -500, -60), (60, 500, 80)));
    let farther = mk_lor(((160, -500, -10), (160, 500, 30)));
    for (lor, times) in [(&base, 1), (&higher, 2), (&steeper, 3), (&farther, 4)] {
        for _ in 0..times {
            h.fill(lor);
        }
    }
    assert_eq!(h.value(&base), 1);
    assert_eq!(h.value(&higher), 2);
    assert_eq!(h.value(&steeper), 3);
    assert_eq!(h.value(&farther), 4);
    // The same line, seen from the other end, falls in the same bin.
    assert_eq!(h.value(&mk_lor(((60, 500, 30), (60, -500, -10)))), 1);

    let mut four = LorHistogram::new(vec![axis_z(4, -100, 100), axis_dz(4, 200), axis_r(4, 200), axis_z(2, -100, 100)])
        .unwrap();
    four.fill(&base);
    four.fill(&farther);
    four.fill(&farther);
    assert_eq!(four.value(&base), 1);
    assert_eq!(four.value(&farther), 2);
    assert_eq!(four.value(&higher), 0);
}

#[test]
fn true_fill_raises_only_the_trues_of_its_bin() {
    let make = || LorHistogram::new(vec![axis_r(10, 1200)]).unwrap();
    let mut sgram = Scattergram::new(make);
    let near = mk_lor(((50, -1000, 0), (50, 1000, 0)));
    let far = mk_lor(((1000, -1000, 0), (1000, 1000, 0)));
    sgram.fill(Prompt::Scatter, &near);
    sgram.fill(Prompt::Scatter, &far);
    let (before_near, before_far) = (sgram.triplet(&near), sgram.triplet(&far));
    sgram.fill(Prompt::True, &near);
    let (after_near, after_far) = (sgram.triplet(&near), sgram.triplet(&far));
    assert_eq!((after_near.1, after_near.2), (before_near.1 + 1, before_near.2));
    assert_eq!((after_far.1, after_far.2), (before_far.1, before_far.2));
    assert_eq!(after_near.0, Ratio { num: 1, den: 2 });
}
