use petalo::io::hdf5::{select_lors, used_percent, Args, BoundPair, Charge, Hdf5Lor};
use petalo::{Point, Ratio};

fn row(e1: i64, e2: i64, q1: i64, q2: i64) -> Hdf5Lor {
    Hdf5Lor { dt: 7, x1: 1, y1: 2, z1: 3, x2: 4, y2: 5, z2: 6, q1, q2, E1: e1, E2: e2 }
}

fn args(ecut: BoundPair, qcut: BoundPair) -> Args {
    Args {
        input_file: "lors".into(),
        dataset: "reco_info/lors".into(),
        event_range: Some(0..4),
        use_true: false,
        legacy_input_format: false,
        ecut,
        qcut,
    }
}

#[test]
fn bounds_are_inclusive() {
    let bounds = BoundPair { low: Some(10), high: Some(20) };
    assert!(!bounds.contains(9));
    assert!(bounds.contains(10));
    assert!(bounds.contains(20));
    assert!(!bounds.contains(21));
    assert!(BoundPair::unbounded().contains(i64::MIN));
    assert!(BoundPair { low: Some(3), high: None }.contains(i64::MAX));
    assert!(!BoundPair { low: None, high: Some(3) }.contains(4));
}

#[test]
fn cuts_apply_to_both_detections() {
    let args = args(BoundPair { low: Some(400), high: Some(600) }, BoundPair { low: Some(5), high: None });
    let table = vec![
        row(500, 500, 5, 9),
        row(399, 500, 5, 9),
        row(500, 601, 5, 9),
        row(500, 500, 4, 9),
        row(500, 500, 9, 4),
        row(400, 600, 6, 6),
    ];
    let (kept, rejected) = select_lors(&args, &table);
    assert_eq!(kept.len(), 2);
    assert_eq!(rejected, 4);
    assert_eq!(kept[0].p1, Point::new(1, 2, 3));
    assert_eq!(kept[0].p2, Point::new(4, 5, 6));
    assert_eq!(kept[0].dt, 7);
    assert_eq!(kept[0].additive_correction, Ratio { num: 1, den: 1 });
    assert_eq!(used_percent(kept.len(), rejected), Some(33));
}

#[test]
fn no_cut_keeps_every_row() {
    let args = args(BoundPair::unbounded(), BoundPair::unbounded());
    let table = vec![row(1, 2, 3, 4), row(5, 6, 7, 8)];
    let (kept, rejected) = select_lors(&args, &table);
    assert_eq!((kept.len(), rejected), (2, 0));
    assert_eq!(used_percent(2, 0), Some(100));
    assert_eq!(used_percent(0, 5), Some(0));
    assert_eq!(used_percent(0, 0), None);
}

#[test]
fn charge_record() {
    let charge = Charge { event_id: 1, sensor_id: 2, charge: 3 };
    assert_eq!(charge, charge.clone());
}

#[test]
fn a_row_is_accepted_within_both_cuts() {
    let args = args(BoundPair { low: Some(1), high: Some(2) }, BoundPair { low: None, high: Some(0) });
    assert!(args.accepts(&row(1, 2, 0, -5)));
    assert!(!args.accepts(&row(1, 3, 0, 0)));
    assert!(!args.accepts(&row(1, 2, 1, 0)));
}

#[test]
fn rows_become_lines() {
    let lor = petalo::LOR::from(row(1, 2, 3, 4));
    assert_eq!(lor.p1, Point::new(1, 2, 3));
    assert_eq!(lor.p2, Point::new(4, 5, 6));
    assert_eq!(lor.dt, 7);
    assert_eq!(lor.additive_correction, Ratio::one());
    assert_eq!(Ratio::zero(), Ratio { num: 0, den: 1 });
}
