use ndhistogram::axis::{Axis, BinInterval};
use ndhistogram::{AxesTuple, Histogram, VecHistogram};
use petalo::lorogram::axis::{Cyclic, UniformAxis};

/// The wrap-around axis of the library as an axis of a histogram.
struct Wrap(Cyclic);

impl Axis for Wrap {
    type Coordinate = i64;
    type BinInterval = BinInterval<i64>;

    fn index(&self, coordinate: &i64) -> Option<usize> {
        self.0.index(*coordinate)
    }

    fn num_bins(&self) -> usize {
        self.0.num_bins()
    }

    fn bin(&self, _index: usize) -> Option<BinInterval<i64>> {
        None
    }
}

fn histogram_u8(axis: Cyclic) -> VecHistogram<AxesTuple<(Wrap,)>, u8> {
    VecHistogram::new(AxesTuple::from((Wrap(axis),)))
}

#[test]
fn indices() {
    let n = 7;
    // Edges 23.4 and 97.3, in tenths.
    let axis = Cyclic::new(n, 234, 973);
    let indices = axis.indices();
    assert_eq!(indices, (0..n).collect::<Vec<_>>());
}

#[test]
fn wrap_float_fill() {
    let mut hist = histogram_u8(Cyclic::new(4, 0, 360));
    hist.fill(&45);
    hist.fill(&(45 + 360));
    hist.fill(&(45 - 360));
    assert_eq!(hist.value(&45), Some(&3));
    assert_eq!(hist.value_at_index(0), Some(&3));
}

#[test]
fn wrap_int_fill() {
    let bins_per_day = 24;
    let hours_per_bin = 1;
    let start_at_zero = 0;
    let mut hist: VecHistogram<AxesTuple<(Wrap,)>, f64> = VecHistogram::new(AxesTuple::from((
        Wrap(Cyclic::with_step_size(bins_per_day, start_at_zero, hours_per_bin)),
    )));
    hist.fill(&40); // The 40th hour of the week ...
    assert_eq!(hist.value(&16), Some(&1.0)); // ... is at 4 pm.
}

#[test]
fn wrap_float_value() {
    let mut hist = histogram_u8(Cyclic::new(4, 0, 360));
    hist.fill(&45);
    assert_eq!(hist.value(&45), Some(&1));
    assert_eq!(hist.value(&(45 + 360)), Some(&1));
    assert_eq!(hist.value(&(45 - 360)), Some(&1));
}

/// Ten bins over [0, 1), with coordinates in hundredths.
#[test]
fn cyclic_index_table() {
    let axis = Cyclic::new(10, 0, 100);
    let table: Vec<(i64, usize)> = vec![
        (0, 0),
        (9, 0),
        (10, 1),
        (19, 1),
        (20, 2),
        (1000, 0),
        (2033, 3),
        (5099, 9),
        (-10, 9),
        (-19, 8),
        (-20, 8),
        (-90, 1),
        (-95, 0),
        (-1000, 0),
        (-1005, 9),
        (-1010, 9),
    ];
    for (coordinate, expected) in table {
        assert_eq!(axis.index(coordinate), Some(expected), "coordinate {}", coordinate);
    }
}

#[test]
fn cyclic_edges() {
    let axis = Cyclic::new(4, 360, 0);
    assert_eq!(axis.low(), 0);
    assert_eq!(axis.high(), 360);
    assert_eq!(axis.num_bins(), 4);
    let stepped = Cyclic::with_step_size(24, 0, 1);
    assert_eq!(stepped.low(), 0);
    assert_eq!(stepped.high(), 24);
}

/// Bins that are not a whole number of units wide: 3 bins over [0, 10).
#[test]
fn uniform_axis_fractional_bins() {
    let axis = UniformAxis::new(3, 0, 10);
    assert_eq!(axis.num_bins(), 5);
    let expected = [1, 1, 1, 1, 2, 2, 2, 3, 3, 3];
    for (x, bin) in expected.iter().enumerate() {
        assert_eq!(axis.index(x as i64), Some(*bin), "coordinate {}", x);
    }
    assert_eq!(axis.index(-1), Some(0));
    assert_eq!(axis.index(10), Some(4));
    assert_eq!(axis.index(1_000_000), Some(4));
}

#[test]
fn uniform_axis_with_step_size() {
    let axis = UniformAxis::with_step_size(5, -10, 4);
    assert_eq!(axis.low(), -10);
    assert_eq!(axis.high(), 10);
    assert_eq!(axis.index(-11), Some(0));
    assert_eq!(axis.index(-10), Some(1));
    assert_eq!(axis.index(-7), Some(1));
    assert_eq!(axis.index(-6), Some(2));
    assert_eq!(axis.index(9), Some(5));
    assert_eq!(axis.index(10), Some(6));
}

use petalo::lorogram::{mk_lor, CyclicLorogram, LorAxC, Lorogram};

const HALF_TURN: i64 = 1 << 30;

/// The direction of a line in the transverse plane, with half a turn divided
/// into `HALF_TURN` units.
fn phi(lor: &petalo::LOR) -> i64 {
    let dx = (lor.p2.x - lor.p1.x) as f64;
    let dy = (lor.p2.y - lor.p1.y) as f64;
    (dy.atan2(dx) / std::f64::consts::PI * HALF_TURN as f64) as i64
}

#[test]
fn uniform() {
    let nbins = 10;
    let axis = LorAxC::new(Cyclic::new(nbins, 0, HALF_TURN), phi);
    assert_eq!(axis.num_bins(), nbins);
    let mut h = CyclicLorogram::new(axis);
    // Lengths in tenths of a millimetre.
    let x = 1500;
    let y = 2345;
    let (dummy1, dummy2, dummy3, dummy4) = (1111, 2222, 3333, 4444);
    let (a, b) = (30, 40); // scaling factors
    Lorogram::fill(&mut h, &mk_lor(((a * x, a * y, dummy1), (-a * x, -a * y, dummy2))));
    let n = Lorogram::value(&h, &mk_lor(((b * x, b * y, dummy3), (-b * x, -b * y, dummy4))));
    assert_eq!(n, 1);
}

#[test]
fn opposite_directions_share_a_bin() {
    let axis = LorAxC::new(Cyclic::new(10, 0, HALF_TURN), phi);
    let there = mk_lor(((0, 0, 0), (300, 400, 0)));
    let back = mk_lor(((300, 400, 0), (0, 0, 0)));
    assert_eq!(axis.index(&there), axis.index(&back));
    assert_eq!(axis.index(&there), Some(2));
    assert_eq!(axis.bin(10), None);
    // Whole periods make no difference.
    let cyclic = Cyclic::new(7, -50, 90);
    for x in -300..300 {
        for k in -3..=3 {
            assert_eq!(cyclic.index(x), cyclic.index(x + k * 140));
        }
    }
    // A direction histogram in a scattergram.
    let mut sgram = petalo::lorogram::Scattergram::new(|| CyclicLorogram::new(LorAxC::new(Cyclic::new(4, 0, HALF_TURN), phi)));
    sgram.fill(petalo::lorogram::Prompt::Scatter, &there);
    sgram.fill(petalo::lorogram::Prompt::True, &back);
    assert_eq!(sgram.triplet(&there), (petalo::Ratio { num: 1, den: 2 }, 1, 1));
}

use petalo::lorogram::axis::BinInterval as Interval;
use petalo::Ratio;

#[test]
fn bin() {
    // Four bins over [0, 1), with coordinates in hundredths.
    let axis = Cyclic::new(4, 0, 100);
    let edge = |num: i128| Ratio { num, den: 4 };
    assert_eq!(axis.bin(0), Some(Interval::Bin { start: edge(0), end: edge(100) }));
    assert_eq!(axis.bin(1), Some(Interval::Bin { start: edge(100), end: edge(200) }));
    assert_eq!(axis.bin(2), Some(Interval::Bin { start: edge(200), end: edge(300) }));
    assert_eq!(axis.bin(3), Some(Interval::Bin { start: edge(300), end: edge(400) }));
    // The axis has exactly four bins.
    assert_eq!(axis.bin(4), None);
    assert_eq!(axis.bin(5), None);
    assert_eq!(axis.bin(usize::MAX), None);
}

#[test]
fn uniform_axis_bins() {
    // Three bins over [-5, 5): edges at -5, -5/3, 5/3 and 5.
    let axis = UniformAxis::new(3, -5, 5);
    let edge = |num: i128| Ratio { num, den: 3 };
    assert_eq!(axis.bin(0), Some(Interval::Underflow { end: Ratio { num: -5, den: 1 } }));
    assert_eq!(axis.bin(1), Some(Interval::Bin { start: edge(-15), end: edge(-5) }));
    assert_eq!(axis.bin(2), Some(Interval::Bin { start: edge(-5), end: edge(5) }));
    assert_eq!(axis.bin(3), Some(Interval::Bin { start: edge(5), end: edge(15) }));
    assert_eq!(axis.bin(4), Some(Interval::Overflow { start: Ratio { num: 5, den: 1 } }));
    assert_eq!(axis.bin(5), None);
    // Every coordinate lies between the edges of its bin.
    for x in -5..5i64 {
        let index = axis.index(x).unwrap();
        match axis.bin(index) {
            Some(Interval::Bin { start, end }) => {
                assert!(start.num <= x as i128 * start.den);
                assert!((x as i128) * end.den < end.num);
            }
            other => panic!("no bin for {}: {:?}", x, other),
        }
    }
}
