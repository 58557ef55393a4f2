use geotool::computer::{
    compute_plan, compute_steps, computable_time_to, optimised_from_time, rate_durations,
    reduce_seed, reduce_window, reducing_needed, tags_to_reduce, volume_computed_here,
    volume_start, volume_times, well_modes, ComputePlan, ReduceSeed, VolumeStart, Well,
};
use geotool::tags::{PointValueSize, Tag, WellModes};
use geotool::units::{ComputationMode, PresentationUnits};

use ComputationMode::{Client, Off, Server};

fn m(bhp: ComputationMode, rate: ComputationMode, vtot: ComputationMode) -> WellModes {
    WellModes { bhp, bht: Off, whp: Off, rate, rho: Off, vtot, ii: Off }
}

#[test]
fn well_modes_are_read() {
    let w = Well {
        id: "w1".to_string(),
        uuid: 2,
        name: "Well 1".to_string(),
        company: "acme".to_string(),
        units: PresentationUnits::EU,
        bhp_mode: Client,
        bht_mode: Off,
        whp_mode: Client,
        rate_mode: Client,
        rho_mode: Server,
        vtot_mode: Server,
        ii_mode: Off,
        computer_needed: true,
        computed_to: 0,
    };
    let md = well_modes(&w);
    assert_eq!(md.rho, Server);
    assert_eq!(md.bht, Off);
    assert!(volume_computed_here(md.vtot));
    assert!(!volume_computed_here(md.bhp));
}

#[test]
fn computable_time_is_earliest_client_last_point() {
    let modes = m(Client, Client, Server);
    let last = vec![Some(500), None, None, Some(300), None, Some(100), None];
    assert_eq!(computable_time_to(&modes, &last), 300);
    // an empty client tag stops everything
    let last = vec![Some(500), None, None, None, None, None, None];
    assert_eq!(computable_time_to(&modes, &last), 0);
    // no client tag at all
    assert_eq!(computable_time_to(&m(Off, Off, Off), &vec![Some(9); 7]), 0);
    // a last time of zero counts as nothing: the next tag's time is taken
    let all = WellModes { bhp: Client, bht: Client, whp: Client, rate: Off, rho: Off, vtot: Off, ii: Off };
    let last = vec![Some(5), Some(0), Some(7), None, None, None, None];
    assert_eq!(computable_time_to(&all, &last), 7);
}

#[test]
fn start_of_computation() {
    let modes = m(Client, Client, Server);
    let first = vec![Some(50), None, None, Some(80), None, None, None];
    assert_eq!(optimised_from_time(1000, &modes, &first), 1000);
    assert_eq!(optimised_from_time(0, &modes, &first), 80);
    assert_eq!(optimised_from_time(0, &modes, &vec![None; 7]), 0);
}

#[test]
fn hourly_steps() {
    assert_eq!(compute_steps(1000, 9000), vec![4600, 8200, 9000]);
    assert_eq!(compute_steps(1000, 4600), vec![4600]);
    assert_eq!(compute_steps(1000, 1500), vec![1500]);
    // a start at or after the end still gives one step, to the end
    assert_eq!(compute_steps(5000, 100), vec![100]);
    assert_eq!(compute_steps(i32::MAX - 10, i32::MAX), vec![i32::MAX]);
}

#[test]
fn plans() {
    assert!(matches!(compute_plan(500, 400, 10), ComputePlan::Settle));
    assert!(matches!(compute_plan(500, 500, 10), ComputePlan::Settle));
    assert!(matches!(compute_plan(0, 400, 0), ComputePlan::Wait));
    match compute_plan(100, 8000, 100) {
        ComputePlan::Steps(v) => assert_eq!(v, vec![3700, 7300, 8000]),
        _ => panic!("expected steps"),
    }
}

#[test]
fn volume_points_every_thirty_seconds() {
    assert_eq!(volume_times(100, 190), vec![130, 160, 190]);
    assert_eq!(volume_times(100, 189), vec![130, 160]);
    assert_eq!(volume_times(100, 129), Vec::<i32>::new());
    assert_eq!(volume_times(100, 50), Vec::<i32>::new());
    assert_eq!(volume_times(i32::MAX - 40, i32::MAX), vec![i32::MAX - 10]);
}

#[test]
fn rate_point_durations() {
    assert_eq!(rate_durations(100, &vec![90]), vec![30]);
    assert_eq!(rate_durations(100, &vec![90, 110, 125]), vec![10, 15, 5]);
    assert_eq!(rate_durations(100, &vec![105, 112]), vec![12, 18]);
    for times in [vec![95], vec![80, 101], vec![99, 100, 101, 129, 130]] {
        let d = rate_durations(100, &times);
        assert_eq!(d.iter().sum::<i32>(), 30);
    }
}

#[test]
fn volume_start_points() {
    assert_eq!(volume_start(Some(50), Some(10)), VolumeStart::Continue(50));
    assert_eq!(volume_start(None, Some(10)), VolumeStart::Seed(10));
    assert_eq!(volume_start(None, None), VolumeStart::NoData);
}

#[test]
fn reduction_decisions() {
    assert!(!reducing_needed(None, Some(5)));
    assert!(reducing_needed(Some(10), Some(5)));
    assert!(!reducing_needed(Some(10), Some(10)));
    assert!(reducing_needed(Some(10), None));
    assert_eq!(reduce_window(Some(100), Some(500), 400), Some((100, 400)));
    assert_eq!(reduce_window(Some(100), Some(300), 400), Some((100, 300)));
    assert_eq!(reduce_window(Some(400), Some(300), 400), None);
    assert_eq!(reduce_window(None, Some(300), 400), None);
    assert_eq!(reduce_seed(true, false), ReduceSeed::Ready);
    assert_eq!(reduce_seed(false, true), ReduceSeed::CopyFirst);
    assert_eq!(reduce_seed(false, false), ReduceSeed::Stop);
}

#[test]
fn reducer_visits_builtins_then_customs() {
    let customs = vec![Tag { id: 9, value_size: PointValueSize::F64 }];
    let t = tags_to_reduce(&customs);
    assert_eq!(t.len(), 8);
    assert_eq!(t[5], Tag { id: 6, value_size: PointValueSize::F64 });
    assert_eq!(t[7], Tag { id: 9, value_size: PointValueSize::F64 });
}

#[test]
fn computable_time_never_runs_ahead() {
    let all = WellModes { bhp: Client, bht: Client, whp: Client, rate: Client, rho: Off, vtot: Server, ii: Client };
    let last = vec![Some(900), Some(700), Some(800), Some(750), None, None, Some(990)];
    let r = computable_time_to(&all, &last);
    assert_eq!(r, 700);
    for (k, t) in last.iter().enumerate() {
        if k != 4 && k != 5 {
            assert!(r <= t.unwrap());
        }
    }
}
