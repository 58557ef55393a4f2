use geotool::query::{
    adjust_to_first_point, adjust_to_last_point, apply_point_before, plan_batches, plan_fits,
    point_before_lookup, range_is_open, Batch, BeforeLookup, PointsQuery, POINTS_BATCH_SECONDS,
};

fn q(time_from: i32, time_to: i32, lbs: bool, rbs: bool, ipb: bool) -> PointsQuery {
    PointsQuery { time_from, time_to, lbs, rbs, ipb }
}

#[test]
fn no_points_streams_nothing() {
    assert_eq!(adjust_to_first_point(q(10, 20, false, false, false), None), None);
    assert_eq!(adjust_to_last_point(q(10, 20, false, false, false), None), None);
}

#[test]
fn range_moves_to_first_point() {
    let r = adjust_to_first_point(q(10, 100, true, false, true), Some(50)).unwrap();
    assert_eq!(r, q(50, 100, false, false, false));
    // a first point before the range leaves it alone
    let r = adjust_to_first_point(q(10, 100, true, false, true), Some(5)).unwrap();
    assert_eq!(r, q(10, 100, true, false, true));
    // a first point at the start settles the point before
    let r = adjust_to_first_point(q(10, 100, true, true, true), Some(10)).unwrap();
    assert_eq!(r, q(10, 100, false, true, false));
}

#[test]
fn open_range_extends_to_last_point() {
    let r = adjust_to_last_point(q(10, 0, false, true, false), Some(500)).unwrap();
    assert_eq!(r, q(10, 500, false, false, false));
    let r = adjust_to_last_point(q(10, 1000, false, true, false), Some(500)).unwrap();
    assert_eq!(r, q(10, 500, false, false, false));
    let r = adjust_to_last_point(q(10, 100, false, true, false), Some(500)).unwrap();
    assert_eq!(r, q(10, 100, false, true, false));
}

#[test]
fn empty_ranges_are_closed() {
    assert!(!range_is_open(&q(20, 10, false, false, false)));
    assert!(!range_is_open(&q(10, 10, true, false, false)));
    assert!(range_is_open(&q(10, 10, false, false, false)));
    assert!(range_is_open(&q(10, 10, true, false, true)));
    assert!(range_is_open(&q(10, 11, true, true, false)));
}

#[test]
fn point_before_lookup_follows_flags() {
    assert_eq!(point_before_lookup(&q(1, 2, true, false, false)), BeforeLookup::Skip);
    assert_eq!(point_before_lookup(&q(1, 2, true, false, true)), BeforeLookup::AtOrBefore);
    assert_eq!(point_before_lookup(&q(1, 2, false, false, true)), BeforeLookup::StrictlyBefore);
}

#[test]
fn point_before_starts_range() {
    assert_eq!(apply_point_before(q(100, 200, true, false, true), Some(40)), q(40, 200, false, false, false));
    assert_eq!(apply_point_before(q(100, 200, true, false, true), None), q(100, 200, true, false, false));
}

#[test]
fn short_range_is_one_batch() {
    let b = plan_batches(&q(0, 100, true, true, false));
    assert_eq!(b, vec![Batch { time_from: 0, time_to: 100, left_strict: true, right_strict: true }]);
}

#[test]
fn long_range_is_cut_in_batches() {
    let to = 2 * POINTS_BATCH_SECONDS + 5;
    let b = plan_batches(&q(0, to, false, true, false));
    assert_eq!(
        b,
        vec![
            Batch { time_from: 0, time_to: 90000, left_strict: false, right_strict: false },
            Batch { time_from: 90000, time_to: 180000, left_strict: true, right_strict: false },
            Batch { time_from: 180000, time_to: 180005, left_strict: true, right_strict: true },
        ]
    );
    // every time of the range lies in exactly one batch
    for t in 0..=to {
        let n = b
            .iter()
            .filter(|x| {
                (if x.left_strict { t > x.time_from } else { t >= x.time_from })
                    && (if x.right_strict { t < x.time_to } else { t <= x.time_to })
            })
            .count();
        let inside = t >= 0 && t < to;
        assert_eq!(n, if inside { 1 } else { 0 }, "time {}", t);
    }
}

#[test]
fn exact_multiple_gives_full_batches() {
    let b = plan_batches(&q(0, 180000, false, false, false));
    assert_eq!(b.len(), 2);
    assert_eq!(b[1], Batch { time_from: 90000, time_to: 180000, left_strict: true, right_strict: false });
}

#[test]
fn plan_fits_checks_overflow() {
    assert!(plan_fits(&q(0, 100, false, false, false)));
    assert!(!plan_fits(&q(i32::MAX - 10, i32::MAX, false, false, false)));
}
