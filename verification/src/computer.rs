use vstd::prelude::*;
use crate::units::{ComputationMode, PresentationUnits};
use crate::tags::{WellModes, Tag, spec_builtin_tags, builtin_tags};

verus! {

/// A monitored well, as far as the server's computations read it.
#[derive(Clone, Debug)]
pub struct Well {
    pub id: String,
    pub uuid: i16,
    pub name: String,
    pub company: String,
    pub units: PresentationUnits,
    pub bhp_mode: ComputationMode,
    pub bht_mode: ComputationMode,
    pub whp_mode: ComputationMode,
    pub rate_mode: ComputationMode,
    pub rho_mode: ComputationMode,
    pub vtot_mode: ComputationMode,
    pub ii_mode: ComputationMode,
    pub computer_needed: bool,
    pub computed_to: i32,
}

/// Seconds covered by one step of the well computer.
pub const COMPUTATION_STEP_SECONDS: i32 = 3600;

/// Seconds between two computed total-volume points.
pub const VOLUME_STEP_SECONDS: i32 = 30;

pub open spec fn modes_of(w: Well) -> WellModes {
    WellModes {
        bhp: w.bhp_mode,
        bht: w.bht_mode,
        whp: w.whp_mode,
        rate: w.rate_mode,
        rho: w.rho_mode,
        vtot: w.vtot_mode,
        ii: w.ii_mode,
    }
}

/// The computation modes of a well.
pub fn well_modes(w: &Well) -> (r: WellModes)
    ensures
        r == modes_of(*w),
{
    WellModes {
        bhp: w.bhp_mode,
        bht: w.bht_mode,
        whp: w.whp_mode,
        rate: w.rate_mode,
        rho: w.rho_mode,
        vtot: w.vtot_mode,
        ii: w.ii_mode,
    }
}

/// The mode of built-in tag `k` (1 to 7).
pub open spec fn tag_mode(m: WellModes, k: int) -> ComputationMode {
    if k == 1 {
        m.bhp
    } else if k == 2 {
        m.bht
    } else if k == 3 {
        m.whp
    } else if k == 4 {
        m.rate
    } else if k == 5 {
        m.rho
    } else if k == 6 {
        m.vtot
    } else {
        m.ii
    }
}

fn tag_mode_exec(m: &WellModes, k: usize) -> (r: ComputationMode)
    requires
        1 <= k <= 7,
    ensures
        r == tag_mode(*m, k as int),
{
    if k == 1 {
        m.bhp
    } else if k == 2 {
        m.bht
    } else if k == 3 {
        m.whp
    } else if k == 4 {
        m.rate
    } else if k == 5 {
        m.rho
    } else if k == 6 {
        m.vtot
    } else {
        m.ii
    }
}

// ---------------------------------------------------------------------------
// how far the data can be computed

/// The time up to which the client has sent every quantity it provides,
/// looking at tags 1 to `n`: `None` when one of them has no point yet;
/// otherwise the earliest last time, zero while nothing has counted (a last
/// time of zero counts as nothing).
pub open spec fn computable_upto(m: WellModes, last: Seq<Option<i32>>, n: int) -> Option<int>
    decreases n,
{
    if n <= 0 {
        Some(0)
    } else {
        match computable_upto(m, last, n - 1) {
            None => None,
            Some(acc) => if tag_mode(m, n) != ComputationMode::Client {
                Some(acc)
            } else {
                match last[n - 1] {
                    None => None,
                    Some(t) => if acc == 0 {
                        Some(t as int)
                    } else if t < acc {
                        Some(t as int)
                    } else {
                        Some(acc)
                    },
                }
            },
        }
    }
}

pub open spec fn spec_computable_time_to(m: WellModes, last: Seq<Option<i32>>) -> int {
    match computable_upto(m, last, 7) {
        Some(t) => t,
        None => 0,
    }
}

/// The time up to which the well's data can be computed: the earliest of the
/// last times of the tags that the client provides, or zero when one of them
/// is still empty. `last[k]` is the time of the last point of tag `k + 1`.
pub fn computable_time_to(modes: &WellModes, last: &Vec<Option<i32>>) -> (r: i32)
    requires
        last@.len() == 7,
    ensures
        r == spec_computable_time_to(*modes, last@),
{
    let mut acc: i32 = 0;
    let mut k: usize = 1;
    while k <= 7
        invariant
            1 <= k <= 8,
            last@.len() == 7,
            computable_upto(*modes, last@, k - 1) == Some(acc as int),
        decreases 8 - k,
    {
        if tag_mode_exec(modes, k) == ComputationMode::Client {
            match last[k - 1] {
                None => {
                    proof {
                        lemma_none_stays(*modes, last@, k as int, 7);
                    }
                    return 0;
                },
                Some(t) => {
                    if acc == 0 || t < acc {
                        acc = t;
                    }
                },
            }
        }
        k = k + 1;
    }
    acc
}

proof fn lemma_none_stays(m: WellModes, last: Seq<Option<i32>>, k: int, n: int)
    requires
        1 <= k <= n,
        computable_upto(m, last, k) is None,
    ensures
        computable_upto(m, last, n) is None,
    decreases n - k,
{
    if n > k {
        lemma_none_stays(m, last, k, n - 1);
    }
}

/// The latest of the first times of the tags that the client provides,
/// looking at tags 1 to `n`, and zero when none has a point.
pub open spec fn latest_first(m: WellModes, first: Seq<Option<i32>>, n: int) -> int
    decreases n,
{
    if n <= 0 {
        0
    } else {
        let acc = latest_first(m, first, n - 1);
        if tag_mode(m, n) == ComputationMode::Client {
            match first[n - 1] {
                Some(t) => if t > acc {
                    t as int
                } else {
                    acc
                },
                None => acc,
            }
        } else {
            acc
        }
    }
}

pub open spec fn spec_optimised_from_time(computed_to: i32, m: WellModes, first: Seq<Option<i32>>) -> int {
    if computed_to > 0 {
        computed_to as int
    } else {
        latest_first(m, first, 7)
    }
}

/// Where the computation of a well starts: where it stopped last time, or,
/// for a well never computed, at the latest first point of the tags that
/// the client provides. `first[k]` is the time of the first point of tag
/// `k + 1`.
pub fn optimised_from_time(computed_to: i32, modes: &WellModes, first: &Vec<Option<i32>>) -> (r: i32)
    requires
        first@.len() == 7,
    ensures
        r == spec_optimised_from_time(computed_to, *modes, first@),
{
    if computed_to > 0 {
        return computed_to;
    }
    let mut acc: i32 = 0;
    let mut k: usize = 1;
    while k <= 7
        invariant
            1 <= k <= 8,
            first@.len() == 7,
            latest_first(*modes, first@, k - 1) == acc as int,
        decreases 8 - k,
    {
        if tag_mode_exec(modes, k) == ComputationMode::Client {
            match first[k - 1] {
                Some(t) => {
                    if t > acc {
                        acc = t;
                    }
                },
                None => {},
            }
        }
        k = k + 1;
    }
    acc
}

/// The first times of the seven built-in tags (bhp, bht, whp, rate, rho,
/// vtot, ii, in that order) as far as the client provides the tag: `None`
/// for a tag that the client does not provide or that has no point.
pub open spec fn client_first_times(m: WellModes, first: Seq<Option<i32>>) -> Seq<Option<i32>> {
    seq![
        if m.bhp == ComputationMode::Client { first[0] } else { None },
        if m.bht == ComputationMode::Client { first[1] } else { None },
        if m.whp == ComputationMode::Client { first[2] } else { None },
        if m.rate == ComputationMode::Client { first[3] } else { None },
        if m.rho == ComputationMode::Client { first[4] } else { None },
        if m.vtot == ComputationMode::Client { first[5] } else { None },
        if m.ii == ComputationMode::Client { first[6] } else { None },
    ]
}

proof fn lemma_latest_first_bounds(m: WellModes, first: Seq<Option<i32>>, n: int)
    requires
        0 <= n <= 7,
        first.len() == 7,
    ensures
        latest_first(m, first, n) >= 0,
        forall|k: int|
            1 <= k <= n && tag_mode(m, k) == ComputationMode::Client && (#[trigger] first[k - 1]) is Some
                ==> latest_first(m, first, n) >= first[k - 1]->0,
        latest_first(m, first, n) == 0 || exists|k: int|
            1 <= k <= n && tag_mode(m, k) == ComputationMode::Client && #[trigger] first[k - 1] == Some(
                latest_first(m, first, n) as i32,
            ),
    decreases n,
{
    if n > 0 {
        lemma_latest_first_bounds(m, first, n - 1);
        let acc = latest_first(m, first, n - 1);
        if latest_first(m, first, n) != acc {
            assert(first[n - 1] == Some(latest_first(m, first, n) as i32));
        } else if acc != 0 {
            let k = choose|k: int|
                1 <= k <= n - 1 && tag_mode(m, k) == ComputationMode::Client && #[trigger] first[k - 1]
                    == Some(acc as i32);
            assert(first[k - 1] == Some(latest_first(m, first, n) as i32));
        }
    }
}

/// A well that was computed before resumes where it stopped. A well never
/// computed starts at the latest of the first times of the tags that its
/// client provides: no earlier than any of them, so every client quantity
/// has data from the start, and at one of them, or at zero when none of
/// them has a point.
pub proof fn computation_starts_when_client_data_does(computed_to: i32, m: WellModes, first: Seq<Option<i32>>)
    requires
        first.len() == 7,
    ensures
        computed_to > 0 ==> spec_optimised_from_time(computed_to, m, first) == computed_to,
        computed_to <= 0 ==> spec_optimised_from_time(computed_to, m, first) >= 0,
        computed_to <= 0 ==> forall|i: int|
            0 <= i < 7 && (#[trigger] client_first_times(m, first)[i]) is Some ==> spec_optimised_from_time(
                computed_to,
                m,
                first,
            ) >= client_first_times(m, first)[i]->0,
        computed_to <= 0 ==> (spec_optimised_from_time(computed_to, m, first) == 0 || exists|i: int|
            0 <= i < 7 && #[trigger] client_first_times(m, first)[i] == Some(
                spec_optimised_from_time(computed_to, m, first) as i32,
            )),
{
    lemma_latest_first_bounds(m, first, 7);
    let c = client_first_times(m, first);
    assert forall|k: int| 1 <= k <= 7 implies #[trigger] c[k - 1] == (if tag_mode(m, k)
        == ComputationMode::Client {
        first[k - 1]
    } else {
        None
    }) by {}
    if computed_to <= 0 {
        let r = latest_first(m, first, 7);
        assert forall|i: int| 0 <= i < 7 && (#[trigger] c[i]) is Some implies r >= c[i]->0 by {
            assert(c[(i + 1) - 1] == c[i]);
        }
        if r != 0 {
            let k = choose|k: int|
                1 <= k <= 7 && tag_mode(m, k) == ComputationMode::Client && #[trigger] first[k - 1]
                    == Some(r as i32);
            assert(c[k - 1] == Some(r as i32));
        }
    }
}

// ---------------------------------------------------------------------------
// the steps of one computation run

/// What the computer does with a well that asks for computation.
#[derive(Clone, Debug)]
pub enum ComputePlan {
    /// nothing new to compute: clear the well's request
    Settle,
    /// no start time is known yet: leave the well as it is
    Wait,
    /// compute, update and reduce up to each of these times in turn, one
    /// transaction each; the request is cleared with the last one
    Steps(Vec<i32>),
}

pub open spec fn step_count(from: int, to: int) -> int {
    if from + COMPUTATION_STEP_SECONDS >= to {
        1
    } else {
        (to - from - 1) / (COMPUTATION_STEP_SECONDS as int) + 1
    }
}

pub open spec fn step_end(from: int, to: int, i: int) -> int {
    if from + (i + 1) * COMPUTATION_STEP_SECONDS >= to {
        to
    } else {
        from + (i + 1) * COMPUTATION_STEP_SECONDS
    }
}

pub open spec fn spec_steps(from: int, to: int) -> Seq<i32> {
    Seq::new(step_count(from, to) as nat, |i: int| step_end(from, to, i) as i32)
}

proof fn lemma_step_count(from: int, to: int)
    requires
        from < to || from + COMPUTATION_STEP_SECONDS >= to,
    ensures
        step_count(from, to) >= 1,
        from + step_count(from, to) * COMPUTATION_STEP_SECONDS >= to,
        step_count(from, to) == 1 || from + (step_count(from, to) - 1) * COMPUTATION_STEP_SECONDS
            < to,
{
    if from + COMPUTATION_STEP_SECONDS < to {
        let k = (to - from - 1) / 3600int;
        assert(k * 3600 <= to - from - 1 < k * 3600 + 3600);
    }
}

/// The ends of the steps of a run from `from_time` to `computable_to`: one
/// every hour after `from_time`, the last one cut to `computable_to`.
pub fn compute_steps(from_time: i32, computable_to: i32) -> (r: Vec<i32>)
    ensures
        r@ == spec_steps(from_time as int, computable_to as int),
{
    proof {
        lemma_step_count(from_time as int, computable_to as int);
    }
    let ghost n = step_count(from_time as int, computable_to as int);
    let mut v: Vec<i32> = Vec::new();
    let mut from: i64 = from_time as i64;
    let to: i64 = computable_to as i64;
    let mut done = false;
    while !done
        invariant
            n == step_count(from_time as int, computable_to as int),
            n >= 1,
            from_time + n * COMPUTATION_STEP_SECONDS >= computable_to,
            n == 1 || from_time + (n - 1) * COMPUTATION_STEP_SECONDS < computable_to,
            to == computable_to,
            v@.len() <= n,
            from == from_time + v@.len() * COMPUTATION_STEP_SECONDS,
            done ==> v@.len() == n,
            !done ==> v@.len() < n,
            forall|j: int| 0 <= j < v@.len() ==> v@[j] == step_end(from_time as int, computable_to as int, j) as i32,
        decreases n - v@.len(),
    {
        let ghost i = v@.len() as int;
        proof {
            if i < n - 1 {
                assert(from_time + (i + 1) * COMPUTATION_STEP_SECONDS <= from_time + (n - 1)
                    * COMPUTATION_STEP_SECONDS) by (nonlinear_arith)
                    requires
                        i + 1 <= n - 1,
                ;
            }
        }
        let mut end: i64 = from + 3600;
        if end >= to {
            end = to;
            done = true;
        }
        assert(done <==> i == n - 1);
        v.push(end as i32);
        from = from + 3600;
    }
    assert(v@ =~= spec_steps(from_time as int, computable_to as int));
    v
}

/// What to do with a well that asks for computation, given how far it was
/// computed, how far it can be computed and where a new run would start.
pub fn compute_plan(computed_to: i32, computable_to: i32, from_time: i32) -> (r: ComputePlan)
    ensures
        computable_to <= computed_to ==> r is Settle,
        computable_to > computed_to && from_time <= 0 ==> r is Wait,
        computable_to > computed_to && from_time > 0 ==> (r matches ComputePlan::Steps(v) && v@
            == spec_steps(from_time as int, computable_to as int)),
{
    if computable_to > computed_to {
        if from_time > 0 {
            ComputePlan::Steps(compute_steps(from_time, computable_to))
        } else {
            ComputePlan::Wait
        }
    } else {
        ComputePlan::Settle
    }
}

// ---------------------------------------------------------------------------
// total volume

/// The times of the total-volume points computed after the last one, at
/// `last_time`, up to `end_to`: every thirty seconds, none later than `end_to`.
pub open spec fn spec_volume_times(last_time: int, end_to: int) -> Seq<i32> {
    let n = if end_to < last_time + VOLUME_STEP_SECONDS {
        0
    } else {
        (end_to - last_time) / (VOLUME_STEP_SECONDS as int)
    };
    Seq::new(n as nat, |i: int| (last_time + (i + 1) * VOLUME_STEP_SECONDS) as i32)
}

/// The times at which the total volume is computed in one step.
pub fn volume_times(last_time: i32, end_to: i32) -> (r: Vec<i32>)
    ensures
        r@ == spec_volume_times(last_time as int, end_to as int),
{
    let ghost n: int = if end_to < last_time + VOLUME_STEP_SECONDS {
        0
    } else {
        (end_to - last_time) / (VOLUME_STEP_SECONDS as int)
    };
    let mut v: Vec<i32> = Vec::new();
    let mut t: i64 = last_time as i64;
    let end: i64 = end_to as i64;
    loop
        invariant
            end == end_to,
            t == last_time + v@.len() * VOLUME_STEP_SECONDS,
            v@.len() <= n,
            t <= end || v@.len() == 0,
            forall|j: int| 0 <= j < v@.len() ==> v@[j] == (last_time + (j + 1) * VOLUME_STEP_SECONDS) as i32,
            n == (if end_to < last_time + VOLUME_STEP_SECONDS { 0 } else { (end_to - last_time) / (VOLUME_STEP_SECONDS as int) }),
        ensures
            v@.len() == n,
            forall|j: int| 0 <= j < v@.len() ==> v@[j] == (last_time + (j + 1) * VOLUME_STEP_SECONDS) as i32,
        decreases end - t + 30,
    {
        let next: i64 = t + 30;
        if next > end {
            proof {
                let k = v@.len() as int;
                assert(last_time + (k + 1) * 30 > end_to);
                if n > k {
                    assert((end_to - last_time) / 30 >= k + 1);
                    assert(((end_to - last_time) / 30) * 30 <= end_to - last_time) by (nonlinear_arith)
                        requires end_to - last_time >= 0;
                    assert((k + 1) * 30 <= ((end_to - last_time) / 30) * 30) by (nonlinear_arith)
                        requires (end_to - last_time) / 30 >= k + 1;
                }
            }
            break;
        }
        proof {
            let k = v@.len() as int;
            assert(last_time + (k + 1) * 30 <= end_to);
            assert(k + 1 <= (end_to - last_time) / 30) by (nonlinear_arith)
                requires (k + 1) * 30 <= end_to - last_time, k >= 0;
        }
        v.push(next as i32);
        t = next;
    }
    assert(v@ =~= spec_volume_times(last_time as int, end_to as int));
    v
}

/// How long each rate point counts in a volume step that starts at `start`
/// and lasts thirty seconds: a point counts until the next one, the first
/// from the start of the step, the last until its end; a lone point counts
/// for the whole step.
pub open spec fn spec_rate_durations(start: int, times: Seq<i32>) -> Seq<int> {
    let n = times.len() as int;
    Seq::new(
        times.len(),
        |i: int|
            if n == 1 {
                VOLUME_STEP_SECONDS as int
            } else if i == n - 1 {
                start + VOLUME_STEP_SECONDS - times[i]
            } else if i == 0 {
                times[1] - start
            } else {
                times[i + 1] - times[i]
            },
    )
}

pub open spec fn within_step(start: int, times: Seq<i32>) -> bool {
    forall|i: int| 1 <= i < times.len() ==> start <= #[trigger] times[i] <= start + VOLUME_STEP_SECONDS
}

/// The durations, in seconds, for which the rate points of one volume step
/// count. `times` are the times of the step's rate points in order, the first
/// of which may lie before the step (the last point before it).
pub fn rate_durations(start: i32, times: &Vec<i32>) -> (r: Vec<i32>)
    requires
        start <= i32::MAX - VOLUME_STEP_SECONDS,
        within_step(start as int, times@),
    ensures
        r@.map_values(|d: i32| d as int) == spec_rate_durations(start as int, times@),
{
    let n = times.len();
    let end: i32 = start + VOLUME_STEP_SECONDS;
    let mut r: Vec<i32> = Vec::new();
    let mut i: usize = 0;
    while i < n
        invariant
            n == times@.len(),
            end == start + VOLUME_STEP_SECONDS,
            within_step(start as int, times@),
            i <= n,
            r@.len() == i,
            forall|j: int| 0 <= j < i ==> r@[j] as int == spec_rate_durations(start as int, times@)[j],
        decreases n - i,
    {
        let d: i32 = if n == 1 {
            VOLUME_STEP_SECONDS
        } else if i == n - 1 {
            end - times[i]
        } else if i == 0 {
            times[1] - start
        } else {
            times[i + 1] - times[i]
        };
        r.push(d);
        i = i + 1;
    }
    assert(r@.map_values(|d: i32| d as int) =~= spec_rate_durations(start as int, times@));
    r
}

pub open spec fn sum_ints(s: Seq<int>) -> int
    decreases s.len(),
{
    if s.len() == 0 {
        0
    } else {
        sum_ints(s.drop_last()) + s.last()
    }
}

proof fn lemma_telescope(start: int, times: Seq<i32>, k: int)
    requires
        times.len() >= 2,
        1 <= k <= times.len() - 1,
    ensures
        sum_ints(spec_rate_durations(start, times).subrange(0, k)) == times[k] - start,
    decreases k,
{
    let d = spec_rate_durations(start, times);
    if k == 1 {
        assert(d.subrange(0, 1).drop_last() =~= Seq::<int>::empty());
        assert(d.subrange(0, 1).last() == d[0]);
        assert(d[0] == times[1] - start);
        assert(sum_ints(Seq::<int>::empty()) == 0);
        assert(sum_ints(d.subrange(0, 1)) == sum_ints(d.subrange(0, 1).drop_last()) + d.subrange(
            0,
            1,
        ).last());
    } else {
        lemma_telescope(start, times, k - 1);
        assert(d.subrange(0, k).drop_last() =~= d.subrange(0, k - 1));
        assert(d.subrange(0, k).last() == d[k - 1]);
        assert(d[k - 1] == times[k] - times[k - 1]);
        assert(sum_ints(d.subrange(0, k)) == sum_ints(d.subrange(0, k).drop_last()) + d.subrange(
            0,
            k,
        ).last());
    }
}

/// The durations of the rate points of a step add up to the step's thirty
/// seconds, whatever the number of points: the volume computed covers each
/// step exactly once.
pub proof fn rate_durations_cover_step(start: int, times: Seq<i32>)
    requires
        times.len() >= 1,
    ensures
        sum_ints(spec_rate_durations(start, times)) == VOLUME_STEP_SECONDS,
{
    let d = spec_rate_durations(start, times);
    let n = times.len() as int;
    if n == 1 {
        assert(d.drop_last() =~= Seq::<int>::empty());
        assert(d.last() == d[0]);
        assert(sum_ints(Seq::<int>::empty()) == 0);
        assert(sum_ints(d) == sum_ints(d.drop_last()) + d.last());
    } else {
        lemma_telescope(start, times, n - 1);
        assert(d.drop_last() =~= d.subrange(0, n - 1));
        assert(d.last() == d[n - 1]);
        assert(sum_ints(d) == sum_ints(d.drop_last()) + d.last());
    }
}

/// The steps of a run end one hour apart, the last at `computable_to`: the
/// run stops exactly where the data can be computed to.
pub proof fn steps_reach_computable_time(from_time: i32, computable_to: i32)
    requires
        from_time < computable_to,
    ensures
        spec_steps(from_time as int, computable_to as int).len() >= 1,
        spec_steps(from_time as int, computable_to as int).last() == computable_to,
        forall|i: int|
            0 <= i < spec_steps(from_time as int, computable_to as int).len() - 1 ==> #[trigger] spec_steps(
                from_time as int,
                computable_to as int,
            )[i] == from_time + (i + 1) * COMPUTATION_STEP_SECONDS && spec_steps(
                from_time as int,
                computable_to as int,
            )[i] < computable_to,
{
    lemma_step_count(from_time as int, computable_to as int);
    let n = step_count(from_time as int, computable_to as int);
    assert forall|i: int| 0 <= i < n - 1 implies #[trigger] step_end(
        from_time as int,
        computable_to as int,
        i,
    ) == from_time + (i + 1) * COMPUTATION_STEP_SECONDS && from_time + (i + 1)
        * COMPUTATION_STEP_SECONDS < computable_to by {
        assert(from_time + (i + 1) * COMPUTATION_STEP_SECONDS <= from_time + (n - 1)
            * COMPUTATION_STEP_SECONDS) by (nonlinear_arith)
            requires
                i + 1 <= n - 1,
        ;
    }
}

/// Where the total volume of a well continues from.
#[derive(PartialEq, Eq, Structural, Clone, Copy, Debug)]
pub enum VolumeStart {
    /// from the last computed volume point, at this time
    Continue(i32),
    /// from a zero volume, stored first, at the first rate point's time
    Seed(i32),
    /// no rate has been recorded yet: nothing to compute
    NoData,
}

/// The start of the volume computation: the last volume point, or else a
/// zero volume at the first rate point.
pub fn volume_start(last_volume: Option<i32>, first_rate: Option<i32>) -> (r: VolumeStart)
    ensures
        r == match last_volume {
            Some(t) => VolumeStart::Continue(t),
            None => match first_rate {
                Some(t) => VolumeStart::Seed(t),
                None => VolumeStart::NoData,
            },
        },
{
    match last_volume {
        Some(t) => VolumeStart::Continue(t),
        None => match first_rate {
            Some(t) => VolumeStart::Seed(t),
            None => VolumeStart::NoData,
        },
    }
}

/// The server computes the total volume only for wells that leave it to
/// the server.
pub fn volume_computed_here(mode: ComputationMode) -> (r: bool)
    ensures
        r == (mode == ComputationMode::Server),
{
    mode == ComputationMode::Server
}

proof fn lemma_computable_is_min(m: WellModes, last: Seq<Option<i32>>, n: int)
    requires
        0 <= n <= 7,
        last.len() == 7,
        forall|k: int|
            1 <= k <= 7 && tag_mode(m, k) == ComputationMode::Client ==> (#[trigger] last[k - 1] matches Some(
                t,
            ) && t > 0),
    ensures
        computable_upto(m, last, n) matches Some(r) && r >= 0 && (forall|k: int|
            1 <= k <= n && tag_mode(m, k) == ComputationMode::Client ==> r <= #[trigger] last[k
                - 1]->0) && (r == 0 || exists|k: int|
            1 <= k <= n && tag_mode(m, k) == ComputationMode::Client && r == #[trigger] last[k
                - 1]->0) && (r == 0 <==> forall|k: int|
            1 <= k <= n ==> #[trigger] tag_mode(m, k) != ComputationMode::Client),
    decreases n,
{
    if n > 0 {
        lemma_computable_is_min(m, last, n - 1);
        if tag_mode(m, n) == ComputationMode::Client {
            assert(last[n - 1] matches Some(t) && t > 0);
        }
    }
}

/// When every tag the client provides has points at positive times, the
/// computable time is the earliest of their last times: the computation
/// never runs ahead of a client quantity. It is zero exactly when the client
/// provides nothing.
pub proof fn computable_time_is_earliest(m: WellModes, last: Seq<Option<i32>>)
    requires
        last.len() == 7,
        forall|k: int|
            1 <= k <= 7 && tag_mode(m, k) == ComputationMode::Client ==> (#[trigger] last[k - 1] matches Some(
                t,
            ) && t > 0),
    ensures
        forall|k: int|
            1 <= k <= 7 && tag_mode(m, k) == ComputationMode::Client ==> spec_computable_time_to(
                m,
                last,
            ) <= #[trigger] last[k - 1]->0,
        spec_computable_time_to(m, last) == 0 || exists|k: int|
            1 <= k <= 7 && tag_mode(m, k) == ComputationMode::Client && spec_computable_time_to(
                m,
                last,
            ) == #[trigger] last[k - 1]->0,
{
    lemma_computable_is_min(m, last, 7);
}

// ---------------------------------------------------------------------------
// data reduction

/// Whether a tag's reduced copy lags behind it: the tag has points and its
/// last one is later than the last reduced point (none counting as zero).
pub fn reducing_needed(last_time: Option<i32>, last_reduced_time: Option<i32>) -> (r: bool)
    ensures
        r == match last_time {
            None => false,
            Some(t) => match last_reduced_time {
                Some(u) => u < t,
                None => 0 < t,
            },
        },
{
    match last_time {
        None => false,
        Some(t) => {
            let u: i32 = match last_reduced_time {
                Some(u) => u,
                None => 0,
            };
            u < t
        },
    }
}

/// The range `(from, to]` of a tag that is reduced anew: from the reduced
/// point five back from the end, to the tag's last point but not beyond the
/// step's end; `None` when there is nothing to reduce.
pub fn reduce_window(recent_reduced: Option<i32>, last_time: Option<i32>, end_to: i32) -> (r: Option<(i32, i32)>)
    ensures
        match (recent_reduced, last_time) {
            (Some(a), Some(t)) => {
                let b = if t > end_to { end_to } else { t };
                if a >= b { r is None } else { r == Some((a, b)) }
            },
            _ => r is None,
        },
{
    match (recent_reduced, last_time) {
        (Some(a), Some(t)) => {
            let b = if t > end_to {
                end_to
            } else {
                t
            };
            if a >= b {
                None
            } else {
                Some((a, b))
            }
        },
        _ => None,
    }
}

/// What to do before reducing a tag anew.
#[derive(PartialEq, Eq, Structural, Clone, Copy, Debug)]
pub enum ReduceSeed {
    /// the reduced copy has points: go on
    Ready,
    /// the reduced copy is empty: store the tag's first point in it first
    CopyFirst,
    /// the tag itself is empty: stop
    Stop,
}

/// The reduced copy of a tag always starts with the tag's first point.
pub fn reduce_seed(reduced_has_points: bool, tag_has_points: bool) -> (r: ReduceSeed)
    ensures
        r == (if reduced_has_points {
            ReduceSeed::Ready
        } else if tag_has_points {
            ReduceSeed::CopyFirst
        } else {
            ReduceSeed::Stop
        }),
{
    if reduced_has_points {
        ReduceSeed::Ready
    } else if tag_has_points {
        ReduceSeed::CopyFirst
    } else {
        ReduceSeed::Stop
    }
}

/// The tags that the reducer visits for a well: the built-in ones in order,
/// then the well's custom tags.
pub fn tags_to_reduce(customs: &Vec<Tag>) -> (r: Vec<Tag>)
    ensures
        r@ == spec_builtin_tags() + customs@,
{
    let mut v = builtin_tags();
    let mut i: usize = 0;
    while i < customs.len()
        invariant
            i <= customs@.len(),
            v@ == spec_builtin_tags() + customs@.subrange(0, i as int),
        decreases customs@.len() - i,
    {
        v.push(customs[i]);
        i = i + 1;
        assert(v@ =~= spec_builtin_tags() + customs@.subrange(0, i as int));
    }
    assert(customs@.subrange(0, customs@.len() as int) =~= customs@);
    v
}

} // verus!
