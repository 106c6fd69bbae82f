use petalo::weights::{traverse, VoxelBox, WeightsAlongLOR};
use petalo::{Index, Point, Ratio};

/// Walks the line and checks the voxels crossed and the total length inside
/// the box. All lengths are in tenths of a millimetre.
fn check(
    p1: (i64, i64),
    p2: (i64, i64),
    size: (i64, i64),
    n: (usize, usize),
    length: f64,
    expected_voxels: Vec<(usize, usize)>,
) {
    let p1 = Point::new(p1.0, p1.1, 0);
    let p2 = Point::new(p2.0, p2.1, 0);
    let vbox = VoxelBox::new((size.0, size.1, 0), (n.0, n.1, 1));
    assert!(vbox.is_valid());

    let mut walk = WeightsAlongLOR::new(p1, p2, &vbox);
    let mut hits: Vec<(Index, u128)> = vec![];
    while walk.is_in_grid() {
        match walk.next() {
            Some(hit) => hits.push(hit),
            None => break,
        }
    }
    assert_eq!(hits, traverse(p1, p2, &vbox));

    let ticks = vbox.ticks_per_lor(&p1, &p2) as f64;
    let dx = (p2.x - p1.x) as f64;
    let dy = (p2.y - p1.y) as f64;
    let lor_length = (dx * dx + dy * dy).sqrt();
    let total: u128 = hits.iter().map(|(_, chord)| *chord).sum();
    let total_length = total as f64 / ticks * lor_length;
    assert!((total_length - length).abs() < 1e-4, "{} != {}", total_length, length);

    let voxels: Vec<(usize, usize)> = hits.into_iter().map(|(i, _)| (i.x, i.y)).collect();
    assert_eq!(voxels, expected_voxels);
}

#[test]
fn hand_picked_diagonal() {
    check((-300, -300), (300, 300), (50, 50), (3, 3), 141.42135, vec![(0, 0), (1, 1), (2, 2)]);
}

#[test]
fn hand_picked_diagonal_flip_x() {
    check((300, -300), (-300, 300), (50, 50), (3, 3), 141.42135, vec![(2, 0), (1, 1), (0, 2)]);
}

#[test]
fn hand_picked_diagonal_flip_y() {
    check((-300, 300), (300, -300), (50, 50), (3, 3), 141.42135, vec![(0, 2), (1, 1), (2, 0)]);
}

#[test]
fn hand_picked_diagonal_reversed() {
    check((300, 300), (-300, -300), (50, 50), (3, 3), 141.42135, vec![(2, 2), (1, 1), (0, 0)]);
}

#[test]
fn hand_picked_asymmetric_3_by_2() {
    check(
        (-300, -300),
        (300, 300),
        (50, 50),
        (3, 2),
        141.42135,
        vec![(0, 0), (1, 0), (1, 1), (2, 1)],
    );
}

#[test]
fn hand_picked_asymmetric_2_by_3() {
    check(
        (-300, -300),
        (300, 300),
        (50, 50),
        (2, 3),
        141.42135,
        vec![(0, 0), (0, 1), (1, 1), (1, 2)],
    );
}

#[test]
fn hand_picked_vertical_off_centre() {
    check((54, -200), (54, 100), (55, 45), (9, 4), 90.0, vec![(8, 0), (8, 1), (8, 2), (8, 3)]);
}

#[test]
fn hand_picked_horizontal_off_centre() {
    check((-150, -40), (150, -40), (40, 50), (4, 3), 80.0, vec![(0, 0), (1, 0), (2, 0), (3, 0)]);
}

fn walk_all(p1: Point, p2: Point, vbox: &VoxelBox) -> Vec<(Index, u128)> {
    traverse(p1, p2, vbox)
}

#[test]
fn line_that_misses_yields_nothing() {
    let vbox = VoxelBox::new((50, 50, 50), (5, 5, 5));
    // Passes beside the box.
    let (p1, p2) = (Point::new(-300, 60, 0), Point::new(300, 60, 0));
    assert_eq!(vbox.entry(&p1, &p2), None);
    assert!(walk_all(p1, p2, &vbox).is_empty());
    // Stops before the box.
    let (p1, p2) = (Point::new(-300, 0, 0), Point::new(-100, 0, 0));
    assert_eq!(vbox.entry(&p1, &p2), None);
    assert!(walk_all(p1, p2, &vbox).is_empty());
    assert!(matches!(WeightsAlongLOR::new(p1, p2, &vbox), WeightsAlongLOR::Outside));
}

#[test]
fn zero_length_line_misses() {
    let vbox = VoxelBox::new((50, 50, 50), (5, 5, 5));
    let p = Point::new(1, 2, 3);
    assert_eq!(vbox.entry(&p, &p), None);
    assert!(walk_all(p, p, &vbox).is_empty());
}

#[test]
fn tangent_line_misses() {
    let vbox = VoxelBox::new((50, 50, 50), (5, 5, 5));
    // Within the plane of a face.
    let (p1, p2) = (Point::new(-300, 50, 0), Point::new(300, 50, 0));
    assert_eq!(vbox.entry(&p1, &p2), None);
    // Through one corner only.
    let (p1, p2) = (Point::new(-100, 0, 0), Point::new(0, 100, 0));
    assert_eq!(vbox.entry(&p1, &p2), None);
    assert!(walk_all(p1, p2, &vbox).is_empty());
}

#[test]
fn entry_is_an_exact_fraction() {
    let vbox = VoxelBox::new((50, 50, 0), (3, 3, 1));
    let (p1, p2) = (Point::new(-300, -300, 0), Point::new(300, 300, 0));
    // Ticks: (3 * 600) * (3 * 600) * 1.
    assert_eq!(vbox.ticks_per_lor(&p1, &p2), 3_240_000);
    // The line enters the box at (-50, -50), 250 / 600 of the way.
    let entry = vbox.entry(&p1, &p2).unwrap();
    assert_eq!(entry, Ratio { num: 1_350_000, den: 3_240_000 });
    // A line that starts inside the box enters at its first end point.
    let entry = vbox.entry(&Point::new(0, 0, 0), &p2).unwrap();
    assert_eq!(entry.num, 0);
}

#[test]
fn voxel_centre_is_an_exact_fraction() {
    let vbox = VoxelBox::new((50, 50, 50), (3, 5, 1));
    let centre = vbox.voxel_centre(Index::new(0, 4, 0));
    // -half_width + (i + 1/2) * 2 * half_width / n
    assert_eq!(centre.x, Ratio { num: -100, den: 3 });
    assert_eq!(centre.y, Ratio { num: 200, den: 5 });
    assert_eq!(centre.z, Ratio { num: 0, den: 1 });
    // The middle voxel of three lies at the origin, and every centre lies
    // inside the box.
    assert_eq!(vbox.voxel_centre(Index::new(1, 2, 0)).x.num, 0);
    assert_eq!(vbox.voxel_centre(Index::new(2, 0, 0)).x, Ratio { num: 100, den: 3 });
    assert_eq!(vbox.voxel_centre(Index::new(2, 0, 0)).y, Ratio { num: -200, den: 5 });
    let only = VoxelBox::new((5, 5, 5), (1, 1, 1)).voxel_centre(Index::new(0, 0, 0));
    assert_eq!((only.x.num, only.y.num, only.z.num), (0, 0, 0));
    assert_eq!(vbox.voxel_size.x, Ratio { num: 100, den: 3 });
}

#[test]
fn box_validity() {
    assert!(VoxelBox::new((50, 50, 0), (3, 3, 1)).is_valid());
    assert!(!VoxelBox::new((50, 50, 50), (3, 0, 1)).is_valid());
    assert!(!VoxelBox::new((50, -1, 50), (3, 3, 1)).is_valid());
    assert!(!VoxelBox::new((50, 50, 50), (3, 3, 2049)).is_valid());
}

/// A line in three dimensions through a grid of unequal voxels.
fn oblique() -> (Point, Point, VoxelBox) {
    (Point::new(-2000, -1370, 410), Point::new(1900, 1760, -980), VoxelBox::new((1200, 900, 1500), (7, 5, 11)))
}

#[test]
fn chords_add_up_to_the_stretch_inside_the_box() {
    let (p1, p2, vbox) = oblique();
    let hits = walk_all(p1, p2, &vbox);
    assert!(hits.len() > 5);
    let total: u128 = hits.iter().map(|(_, chord)| *chord).sum();
    // Both end points lie outside the box, so the line leaves the box where
    // the reversed line enters it.
    let ticks = vbox.ticks_per_lor(&p1, &p2) as i128;
    let entry = vbox.entry(&p1, &p2).unwrap();
    let back = vbox.entry(&p2, &p1).unwrap();
    assert_eq!(entry.den, ticks);
    assert_eq!(back.den, ticks);
    assert_eq!(total as i128, ticks - back.num - entry.num);
}

#[test]
fn indices_stay_in_the_grid() {
    let (p1, p2, vbox) = oblique();
    for (i, chord) in walk_all(p1, p2, &vbox) {
        assert!(i.x < 7 && i.y < 5 && i.z < 11);
        assert!(chord > 0);
    }
}

#[test]
fn consecutive_voxels_are_neighbours() {
    let (p1, p2, vbox) = oblique();
    let hits = walk_all(p1, p2, &vbox);
    for pair in hits.windows(2) {
        let (a, b) = (pair[0].0, pair[1].0);
        let d = [a.x.abs_diff(b.x), a.y.abs_diff(b.y), a.z.abs_diff(b.z)];
        assert!(d.iter().all(|step| *step <= 1));
        assert_eq!(d.iter().sum::<usize>(), 1);
    }
    // Through the corners of the voxels, two indices change at once.
    let vbox = VoxelBox::new((50, 50, 0), (3, 3, 1));
    let hits = walk_all(Point::new(-300, -300, 0), Point::new(300, 300, 0), &vbox);
    for pair in hits.windows(2) {
        let (a, b) = (pair[0].0, pair[1].0);
        assert_eq!((a.x.abs_diff(b.x), a.y.abs_diff(b.y), a.z.abs_diff(b.z)), (1, 1, 0));
    }
}

#[test]
fn reversed_line_yields_the_reverse() {
    let (p1, p2, vbox) = oblique();
    let mut forward = walk_all(p1, p2, &vbox);
    let backward = walk_all(p2, p1, &vbox);
    forward.reverse();
    assert_eq!(forward, backward);
}

#[test]
fn mirrored_line_yields_the_mirror_image() {
    let (p1, p2, vbox) = oblique();
    let hits = walk_all(p1, p2, &vbox);
    let mirrored = walk_all(Point::new(-p1.x, p1.y, -p1.z), Point::new(-p2.x, p2.y, -p2.z), &vbox);
    let expected: Vec<(Index, u128)> =
        hits.iter().map(|(i, chord)| (Index::new(6 - i.x, i.y, 10 - i.z), *chord)).collect();
    assert_eq!(mirrored, expected);
    // A line with no extent along the mirrored axis.
    let vbox = VoxelBox::new((55, 45, 0), (9, 4, 1));
    let hits = walk_all(Point::new(54, -200, 0), Point::new(54, 100, 0), &vbox);
    let mirrored = walk_all(Point::new(-54, -200, 0), Point::new(-54, 100, 0), &vbox);
    let expected: Vec<(Index, u128)> =
        hits.iter().map(|(i, chord)| (Index::new(8 - i.x, i.y, i.z), *chord)).collect();
    assert_eq!(mirrored, expected);
}

#[test]
fn walk_stops_where_the_line_leaves_through_an_edge() {
    // The line y = x + 50 leaves the box through the edge at (0, 50), where
    // it also crosses the boundary between the two voxels.
    let vbox = VoxelBox::new((50, 50, 0), (2, 1, 1));
    let (p1, p2) = (Point::new(-100, -50, 0), Point::new(100, 150, 0));
    let hits = walk_all(p1, p2, &vbox);
    assert_eq!(hits.len(), 1);
    assert_eq!(hits[0].0, Index::new(0, 0, 0));
    // Chord from (-50, 0) to (0, 50): a quarter of the line.
    assert_eq!(hits[0].1 * 4, vbox.ticks_per_lor(&p1, &p2));
    let mut walk = WeightsAlongLOR::new(p1, p2, &vbox);
    assert!(walk.is_in_grid());
    assert!(walk.next().is_some());
    assert!(!walk.is_in_grid());
}

#[test]
fn line_that_starts_inside_the_box() {
    let vbox = VoxelBox::new((50, 50, 50), (2, 2, 2));
    let hits = walk_all(Point::new(-10, 10, 10), Point::new(300, 10, 10), &vbox);
    let voxels: Vec<(usize, usize, usize)> = hits.iter().map(|(i, _)| (i.x, i.y, i.z)).collect();
    assert_eq!(voxels, vec![(0, 1, 1), (1, 1, 1)]);
    // Chords of 10 and 50 out of 310.
    assert_eq!(hits[0].1 * 5, hits[1].1);
}

#[test]
fn every_chord_lies_in_its_voxel() {
    let (p1, p2, vbox) = oblique();
    let ticks = vbox.ticks_per_lor(&p1, &p2) as f64;
    let entry = vbox.entry(&p1, &p2).unwrap();
    let mut position = entry.num as u128;
    for (index, chord) in walk_all(p1, p2, &vbox) {
        // The point in the middle of the chord.
        let t = (position as f64 + chord as f64 / 2.0) / ticks;
        let at = |a: i64, b: i64| a as f64 + t * (b - a) as f64;
        let voxel = |x: f64, hw: i64, n: usize| ((x + hw as f64) * n as f64 / (2 * hw) as f64).floor();
        assert_eq!(voxel(at(p1.x, p2.x), 1200, 7), index.x as f64);
        assert_eq!(voxel(at(p1.y, p2.y), 900, 5), index.y as f64);
        assert_eq!(voxel(at(p1.z, p2.z), 1500, 11), index.z as f64);
        position += chord;
    }
}

#[test]
fn walk_knows_when_it_is_over() {
    let vbox = VoxelBox::new((50, 50, 0), (3, 3, 1));
    let mut walk = WeightsAlongLOR::new(Point::new(-300, -300, 0), Point::new(300, 300, 0), &vbox);
    let mut items = 0;
    while walk.is_walking() {
        assert!(walk.next().is_some());
        items += 1;
    }
    assert_eq!(items, 3);
    assert_eq!(walk.next(), None);
    assert!(matches!(walk, WeightsAlongLOR::Outside));
}
