use geotool::cycles::{
    analysis_window, batch_fix_allowed, created_cycle_id, cycle_durations, cycles_after,
    fix_well_data_plan, interpolation, is_empty_plot, is_last_cycle, millis_to_seconds, new_cycle_times,
    recompute_from, timeline_marks, timeline_probes, timeline_reference, timeline_sections,
    BatchFixError, CreationError, CycleFourierCategory, CycleInfo, CycleStatus, CycleTimes,
    Interpolation, NewCycleError, Span,
};
use geotool::tags::{PointValueSize, Tag};

fn cycle(id: i16, t1: i32, t2: i32, t3: i32) -> CycleInfo {
    CycleInfo { id, status: CycleStatus::Uncommitted, t1, t2, t3 }
}

#[test]
fn last_cycle() {
    assert!(is_last_cycle(Some(cycle(4, 0, 1, 2)), 4));
    assert!(!is_last_cycle(Some(cycle(4, 0, 1, 2)), 3));
    assert!(!is_last_cycle(None, 1));
    assert_ne!(CycleFourierCategory::BHP, CycleFourierCategory::WHP);
}

#[test]
fn milliseconds_round_to_seconds() {
    assert_eq!(millis_to_seconds(0), 0);
    assert_eq!(millis_to_seconds(1499), 1);
    assert_eq!(millis_to_seconds(1500), 2);
    assert_eq!(millis_to_seconds(1_700_000_000_499), 1_700_000_000);
    assert_eq!(millis_to_seconds(i64::MAX), i32::MAX);
    for ms in [1i64, 499, 500, 999, 1000, 123_456_789, 2_147_483_647_499, 2_147_483_647_500] {
        let f = ((ms as f64) / 1000.0).round() as i32;
        assert_eq!(millis_to_seconds(ms), f, "ms {}", ms);
    }
}

#[test]
fn new_cycle_must_follow_the_last() {
    let last = cycle(3, 100, 200, 300);
    assert_eq!(new_cycle_times(Some(last), 300_000, 400_400, 500_600),
        Ok(CycleTimes { t1: 300, t2: 400, t3: 501 }));
    assert_eq!(new_cycle_times(Some(last), 301_000, 400_000, 500_000),
        Err(NewCycleError::Discontinuity));
    assert_eq!(new_cycle_times(None, 1_000, 2_000, 3_000), Ok(CycleTimes { t1: 1, t2: 2, t3: 3 }));
}

#[test]
fn created_cycle_is_confirmed() {
    assert_eq!(created_cycle_id(Some(cycle(7, 300, 400, 500)), 300), Ok(7));
    assert_eq!(created_cycle_id(Some(cycle(7, 200, 400, 500)), 300), Err(CreationError::OtherCycle));
    assert_eq!(created_cycle_id(None, 300), Err(CreationError::NoCycle));
}

#[test]
fn durations_as_text() {
    let d = cycle_durations(&cycle(1, 1000, 4661, 364661));
    assert_eq!(d.injection, "01:01:01");
    assert_eq!(d.shutin, "100:00:00");
    assert_eq!(d.cycle, "101:01:01");
    let d = cycle_durations(&cycle(1, 100, 39, 100));
    assert_eq!(d.injection, "-00:01:01");
    assert_eq!(d.shutin, "00:01:01");
    assert_eq!(d.cycle, "00:00:00");
}

#[test]
fn timeline_reference_and_marks() {
    assert_eq!(timeline_reference(Some(cycle(2, 1, 2, 3)), Some(0)), 3);
    assert_eq!(timeline_reference(None, Some(77)), 77);
    assert_eq!(timeline_reference(None, None), 0);
    let m = timeline_marks(1000);
    assert_eq!(m.line1, 1_000_000);
    assert_eq!(m.line2, 1_000_000 + 7_200_000);
    assert_eq!(m.line3, 1_000_000 + 28_800_000);
    assert_eq!(m.view_from, 1_000_000 - 86_400_000);
    assert_eq!(m.view_to, 1_000_000 + 172_800_000);
    assert_eq!(timeline_probes(100_000), (100_000 - 43_200, 100_000 + 561_600));
}

#[test]
fn timeline_sections_tile_the_series() {
    let s = timeline_sections(10, 100, Some(30), Some(60));
    assert_eq!(s.left, Some(Span { from: 10, to: 30 }));
    assert_eq!(s.middle, Span { from: 30, to: 60 });
    assert_eq!(s.right, Some(Span { from: 60, to: 100 }));
    for t in 10..=100 {
        let n = s.left.map_or(0, |x| (x.from <= t && t < x.to) as i32)
            + (s.middle.from <= t && t <= s.middle.to) as i32
            + s.right.map_or(0, |x| (x.from < t && t <= x.to) as i32);
        assert_eq!(n, 1, "time {}", t);
    }
    let s = timeline_sections(10, 100, None, None);
    assert_eq!(s.left, None);
    assert_eq!(s.middle, Span { from: 10, to: 100 });
    assert_eq!(s.right, None);
}

#[test]
fn analysis_windows() {
    assert_eq!(analysis_window(10_000), (9_100, 11_200));
}

#[test]
fn batch_corrections() {
    assert_eq!(batch_fix_allowed(2), Err(BatchFixError::TooFewPoints));
    assert_eq!(batch_fix_allowed(3), Ok(()));
    assert_eq!(cycles_after(4, 7), vec![4, 5, 6, 7]);
    assert_eq!(cycles_after(4, 4), vec![4]);
}

#[test]
fn well_data_reset_plan() {
    let customs = vec![
        Tag { id: 9, value_size: PointValueSize::F64 },
        Tag { id: 11, value_size: PointValueSize::F32 },
    ];
    let plan = fix_well_data_plan(&vec![6, 1, 9, 10, 11, 0], &customs);
    assert_eq!(
        plan,
        vec![
            Tag { id: 6, value_size: PointValueSize::F64 },
            Tag { id: 1, value_size: PointValueSize::F32 },
            Tag { id: 9, value_size: PointValueSize::F64 },
            Tag { id: 11, value_size: PointValueSize::F32 },
            Tag { id: 0, value_size: PointValueSize::F32 },
        ]
    );
    assert_eq!(recompute_from(1000), 999);
}

#[test]
fn interpolation_cases() {
    assert_eq!(interpolation(10, Some(10), Some(10)), Interpolation::Before);
    assert_eq!(interpolation(10, Some(5), Some(10)), Interpolation::After);
    assert_eq!(interpolation(10, Some(5), Some(15)), Interpolation::Between);
    assert_eq!(interpolation(10, Some(5), None), Interpolation::Before);
    assert_eq!(interpolation(10, None, Some(15)), Interpolation::After);
    assert_eq!(interpolation(10, None, None), Interpolation::Nothing);
}

#[test]
fn empty_plot_when_either_series_is_empty() {
    assert!(is_empty_plot(0, 5));
    assert!(is_empty_plot(3, 0));
    assert!(is_empty_plot(0, 0));
    assert!(!is_empty_plot(1, 1));
}
