use petalo::weights::{traverse, VoxelBox};
use petalo::Point;

/// A small generator of repeatable pseudo-random numbers.
struct Lcg(u64);

impl Lcg {
    fn next(&mut self) -> u64 {
        self.0 = self.0.wrapping_mul(6364136223846793005).wrapping_add(1442695040888963407);
        self.0 >> 33
    }

    /// A number in `[low, high)`.
    fn between(&mut self, low: i64, high: i64) -> i64 {
        low + (self.next() % (high - low) as u64) as i64
    }
}

/// A line between two points on a ring of detectors around a box, as a
/// scanner would see it; lengths in micrometres.
fn random_case(rng: &mut Lcg) -> (Point, Point, VoxelBox) {
    let r = rng.between(200_000, 300_000) as f64;
    let theta1 = rng.between(0, 1_000_000) as f64 / 1_000_000.0 * std::f64::consts::TAU;
    let theta2 = theta1 + rng.between(100_000, 900_000) as f64 / 1_000_000.0 * std::f64::consts::TAU;
    let p1 = Point::new((r * theta1.cos()) as i64, (r * theta1.sin()) as i64, rng.between(-200_000, 200_000));
    let p2 = Point::new((r * theta2.cos()) as i64, (r * theta2.sin()) as i64, rng.between(-200_000, 200_000));
    let vbox = VoxelBox::new(
        (rng.between(100_000, 150_000), rng.between(100_000, 150_000), rng.between(100_000, 190_000)),
        (rng.between(5, 50) as usize, rng.between(5, 50) as usize, rng.between(5, 90) as usize),
    );
    (p1, p2, vbox)
}

#[test]
fn sum_of_weights_equals_length_through_box() {
    let mut rng = Lcg(2021);
    let mut hit = 0;
    for _ in 0..300 {
        let (p1, p2, vbox) = random_case(&mut rng);
        let summed: u128 = traverse(p1, p2, &vbox).iter().map(|(_, chord)| *chord).sum();
        let ticks = vbox.ticks_per_lor(&p1, &p2) as i128;
        let in_one_go = match (vbox.entry(&p1, &p2), vbox.entry(&p2, &p1)) {
            (Some(a), Some(b)) => {
                hit += 1;
                ticks - a.num - b.num
            }
            _ => 0,
        };
        assert_eq!(summed as i128, in_one_go);
    }
    assert!(hit > 100);
}

/// The walk in floating point: steps from boundary to boundary along the
/// line, as the exact walk does in whole ticks.
fn float_walk(p1: Point, p2: Point, vbox: &VoxelBox) -> Vec<((usize, usize, usize), f64)> {
    let a = [p1.x as f64, p1.y as f64, p1.z as f64];
    let b = [p2.x as f64, p2.y as f64, p2.z as f64];
    let hw = [vbox.half_width.x as f64, vbox.half_width.y as f64, vbox.half_width.z as f64];
    let n = [vbox.n.x, vbox.n.y, vbox.n.z];
    let length = (0..3).map(|k| (b[k] - a[k]).powi(2)).sum::<f64>().sqrt();
    // Entry and exit, as fractions of the way from p1 to p2.
    let (mut t_in, mut t_out) = (0.0f64, f64::INFINITY);
    for k in 0..3 {
        let d = b[k] - a[k];
        if d == 0.0 {
            if a[k] <= -hw[k] || a[k] >= hw[k] {
                return vec![];
            }
        } else {
            let (near, far) = ((-hw[k] - a[k]) / d, (hw[k] - a[k]) / d);
            t_in = t_in.max(near.min(far));
            t_out = t_out.min(near.max(far));
        }
    }
    if t_in >= t_out || t_in >= 1.0 {
        return vec![];
    }
    let mut found = vec![];
    let mut t = t_in;
    while t < t_out - 1e-12 {
        // The next boundary crossing after t, on any axis.
        let mut next = t_out;
        for k in 0..3 {
            let d = b[k] - a[k];
            if d != 0.0 {
                let size = 2.0 * hw[k] / n[k] as f64;
                let u = (a[k] + t * d + hw[k]) / size;
                let boundary = if d > 0.0 { (u + 1e-9).floor() + 1.0 } else { (u - 1e-9).ceil() - 1.0 };
                let crossing = (boundary * size - hw[k] - a[k]) / d;
                if crossing > t + 1e-13 {
                    next = next.min(crossing);
                }
            }
        }
        let mid = (t + next) / 2.0;
        let voxel = |k: usize| {
            let size = 2.0 * hw[k] / n[k] as f64;
            ((a[k] + mid * (b[k] - a[k]) + hw[k]) / size).floor() as usize
        };
        found.push(((voxel(0), voxel(1), voxel(2)), (next - t) * length));
        t = next;
    }
    found
}

#[test]
fn exact_walk_agrees_with_floating_point() {
    let mut rng = Lcg(7);
    let mut voxels = 0;
    for _ in 0..200 {
        let (p1, p2, vbox) = random_case(&mut rng);
        let ticks = vbox.ticks_per_lor(&p1, &p2) as f64;
        let (dx, dy, dz) = ((p2.x - p1.x) as f64, (p2.y - p1.y) as f64, (p2.z - p1.z) as f64);
        let length = (dx * dx + dy * dy + dz * dz).sqrt();
        let exact = traverse(p1, p2, &vbox);
        let float = float_walk(p1, p2, &vbox);
        assert_eq!(exact.len(), float.len());
        for ((index, chord), (voxel, weight)) in exact.iter().zip(float.iter()) {
            assert_eq!((index.x, index.y, index.z), *voxel);
            let exact_length = *chord as f64 / ticks * length;
            assert!((exact_length - weight).abs() < 1e-3, "{} != {}", exact_length, weight);
            voxels += 1;
        }
    }
    assert!(voxels > 1000);
}
