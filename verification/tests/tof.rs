use std::collections::HashMap;

use petalo::weights::tof::{mid_chords, MidChords};
use petalo::weights::{traverse, VoxelBox};
use petalo::Point;

/// Speed of light in mm per ps.
const C: f64 = 0.299_792_458;

fn gauss(sigma: f64, x: f64) -> f64 {
    let root_two_pi = (2.0 * std::f64::consts::PI).sqrt();
    (-0.5 * (x / sigma) * (x / sigma)).exp() / (sigma * root_two_pi)
}

/// Weights of the voxels crossed, with lengths in mm and times in ps.
fn tof_weights(
    p1: Point,
    t1: i64,
    p2: Point,
    t2: i64,
    vbox: &VoxelBox,
    sigma: f64,
) -> HashMap<(usize, usize, usize), f64> {
    let mut chords = MidChords::new(p1, p2, vbox).unwrap();
    let ticks = vbox.ticks_per_lor(&p1, &p2) as f64;
    let (dx, dy, dz) = ((p2.x - p1.x) as f64, (p2.y - p1.y) as f64, (p2.z - p1.z) as f64);
    let length = (dx * dx + dy * dy + dz * dz).sqrt();
    let centre_to_peak = 0.5 * C * (t1 - t2) as f64;
    let mut weights = HashMap::new();
    while let Some(hit) = chords.next() {
        let weight = hit.chord as f64 / ticks * length;
        let midpoint = hit.to_centre as f64 / (2.0 * ticks) * length + centre_to_peak;
        weights.insert((hit.index.x, hit.index.y, hit.index.z), weight * gauss(sigma, midpoint));
    }
    weights
}

#[test]
fn tof_peak_at_centre() {
    // A highly symmetric system for easy testing of features
    let (t1, t2) = (10, 10);
    let p1 = Point::new(-100, 0, 0);
    let p2 = Point::new(100, 0, 0);
    let vbox = VoxelBox::new((30, 30, 30), (5, 5, 5));
    let sigma = 10.0;

    let active_voxels = tof_weights(p1, t1, p2, t2, &vbox, sigma);

    // Gaussian centred on origin is symmetric about origin
    assert_eq!(active_voxels.get(&(0, 2, 2)), active_voxels.get(&(4, 2, 2)));
    assert_eq!(active_voxels.get(&(1, 2, 2)), active_voxels.get(&(3, 2, 2)));

    // Highest probability in the centre
    assert!(active_voxels.get(&(0, 2, 2)) < active_voxels.get(&(1, 2, 2)));
    assert!(active_voxels.get(&(1, 2, 2)) < active_voxels.get(&(2, 2, 2)));
}

#[test]
fn mid_chords_follow_the_walk() {
    let p1 = Point::new(-100, 0, 0);
    let p2 = Point::new(100, 0, 0);
    let vbox = VoxelBox::new((30, 30, 30), (5, 5, 5));
    let ticks = vbox.ticks_per_lor(&p1, &p2) as i128;
    // 5 voxels over 200 units of length.
    assert_eq!(ticks, 1000);
    let hits = traverse(p1, p2, &vbox);
    let mut chords = MidChords::new(p1, p2, &vbox).unwrap();
    let mut seen = vec![];
    while let Some(hit) = chords.next() {
        seen.push(hit);
    }
    assert_eq!(seen.len(), hits.len());
    for (hit, (index, chord)) in seen.iter().zip(hits.iter()) {
        assert_eq!(hit.index, *index);
        assert_eq!(hit.chord, *chord);
    }
    // The box spans ticks 350 to 650; each chord is 60 ticks. Distances to
    // the centre at tick 500 are in half ticks.
    let to_centre: Vec<i128> = seen.iter().map(|hit| hit.to_centre).collect();
    assert_eq!(to_centre, vec![240, 120, 0, -120, -240]);
}

#[test]
fn no_mid_chords_for_a_line_that_misses() {
    let vbox = VoxelBox::new((30, 30, 30), (5, 5, 5));
    assert!(MidChords::new(Point::new(-100, 40, 0), Point::new(100, 40, 0), &vbox).is_none());
}

#[test]
fn collected_mid_chords_match_the_tracker() {
    let p1 = Point::new(-2000, -1370, 410);
    let p2 = Point::new(1900, 1760, -980);
    let vbox = VoxelBox::new((1200, 900, 1500), (7, 5, 11));
    let all = mid_chords(p1, p2, &vbox);
    let mut chords = MidChords::new(p1, p2, &vbox).unwrap();
    let ticks = vbox.ticks_per_lor(&p1, &p2) as i128;
    let mut position = vbox.entry(&p1, &p2).unwrap().num;
    for found in &all {
        assert_eq!(chords.next(), Some(*found));
        assert_eq!(found.to_centre, ticks - 2 * position - found.chord as i128);
        position += found.chord as i128;
    }
    assert_eq!(chords.next(), None);
    assert!(mid_chords(Point::new(-100, 40, 0), Point::new(100, 40, 0), &VoxelBox::new((30, 30, 30), (5, 5, 5))).is_empty());
}
