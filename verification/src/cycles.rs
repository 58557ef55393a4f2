use vstd::prelude::*;
use hhmmss::Hhmmss;
use crate::decimal::spec_decimal_chars;
use crate::tags::{Tag, PointValueSize};

verus! {

/// The review state of an injection cycle.
#[derive(PartialEq, Eq, Structural, Clone, Copy, Debug)]
pub enum CycleStatus {
    Uncommitted,
    BadData,
    Committed,
}

/// Which pressure a Fourier analysis of a cycle looks at.
#[derive(PartialEq, Eq, Structural, Clone, Copy, Debug)]
pub enum CycleFourierCategory {
    BHP,
    WHP,
}

/// An injection cycle: injection from `t1` to `t2`, shut-in until `t3`.
#[derive(PartialEq, Eq, Structural, Clone, Copy, Debug)]
pub struct CycleInfo {
    pub id: i16,
    pub status: CycleStatus,
    pub t1: i32,
    pub t2: i32,
    pub t3: i32,
}

/// Whether cycle `cycle_id` is the well's last one; `last` is the well's
/// cycle with the largest id, if it has any.
pub fn is_last_cycle(last: Option<CycleInfo>, cycle_id: i16) -> (r: bool)
    ensures
        r == match last {
            Some(c) => c.id == cycle_id,
            None => false,
        },
{
    match last {
        Some(c) => c.id == cycle_id,
        None => false,
    }
}

// ---------------------------------------------------------------------------
// times sent by the pages, in milliseconds

pub open spec fn spec_millis_to_seconds(ms: int) -> int {
    let s = (ms + 500) / 1000;
    if s > i32::MAX {
        i32::MAX as int
    } else {
        s
    }
}

/// A time sent by a page in milliseconds, rounded to the nearest second,
/// halves up, and held to the largest `i32`.
pub fn millis_to_seconds(ms: i64) -> (r: i32)
    requires
        ms >= 0,
    ensures
        r == spec_millis_to_seconds(ms as int),
{
    let s: i64 = ms / 1000 + if ms % 1000 >= 500 {
        1
    } else {
        0
    };
    assert(s == (ms + 500) / 1000);
    if s > i32::MAX as i64 {
        i32::MAX
    } else {
        s as i32
    }
}

/// Why a new cycle is refused.
#[derive(PartialEq, Eq, Structural, Clone, Copy, Debug)]
pub enum NewCycleError {
    /// the new cycle does not start where the last one ended
    Discontinuity,
}

/// The times of a new cycle, in seconds.
#[derive(PartialEq, Eq, Structural, Clone, Copy, Debug)]
pub struct CycleTimes {
    pub t1: i32,
    pub t2: i32,
    pub t3: i32,
}

pub open spec fn spec_new_cycle_times(last: Option<CycleInfo>, t1_ms: i64, t2_ms: i64, t3_ms: i64) -> Result<
    CycleTimes,
    NewCycleError,
> {
    match last {
        Some(c) if c.t3 * 1000 != t1_ms => Err(NewCycleError::Discontinuity),
        _ => Ok(
            CycleTimes {
                t1: spec_millis_to_seconds(t1_ms as int) as i32,
                t2: spec_millis_to_seconds(t2_ms as int) as i32,
                t3: spec_millis_to_seconds(t3_ms as int) as i32,
            },
        ),
    }
}

/// The times of a new cycle from the page's milliseconds: refused unless it
/// starts exactly where the well's last cycle, if any, ended.
pub fn new_cycle_times(last: Option<CycleInfo>, t1_ms: i64, t2_ms: i64, t3_ms: i64) -> (r: Result<CycleTimes, NewCycleError>)
    requires
        t1_ms >= 1,
        t2_ms >= 1,
        t3_ms >= 1,
    ensures
        r == spec_new_cycle_times(last, t1_ms, t2_ms, t3_ms),
{
    match last {
        Some(c) => {
            if (c.t3 as i64) * 1000 != t1_ms {
                return Err(NewCycleError::Discontinuity);
            }
        },
        None => {},
    }
    Ok(
        CycleTimes {
            t1: millis_to_seconds(t1_ms),
            t2: millis_to_seconds(t2_ms),
            t3: millis_to_seconds(t3_ms),
        },
    )
}

/// Why the creation of a cycle could not be confirmed.
#[derive(PartialEq, Eq, Structural, Clone, Copy, Debug)]
pub enum CreationError {
    /// the well's last cycle is not the one just inserted
    OtherCycle,
    /// the well has no cycle at all
    NoCycle,
}

/// The id of a cycle just inserted with start `t1`: the well's last cycle
/// must be the one starting at `t1`.
pub fn created_cycle_id(last: Option<CycleInfo>, t1: i32) -> (r: Result<i16, CreationError>)
    ensures
        match last {
            Some(c) => if c.t1 == t1 {
                r == Ok::<i16, CreationError>(c.id)
            } else {
                r == Err::<i16, CreationError>(CreationError::OtherCycle)
            },
            None => r == Err::<i16, CreationError>(CreationError::NoCycle),
        },
{
    match last {
        Some(c) => if c.t1 == t1 {
            Ok(c.id)
        } else {
            Err(CreationError::OtherCycle)
        },
        None => Err(CreationError::NoCycle),
    }
}

/// Cycles follow each other without gap or overlap: a new cycle is accepted
/// after the last one exactly when it starts where that one ended, and then
/// its start in seconds is that end.
pub proof fn cycles_are_contiguous(last: CycleInfo, t1_ms: i64, t2_ms: i64, t3_ms: i64)
    requires
        t1_ms >= 1,
        t2_ms >= 1,
        t3_ms >= 1,
    ensures
        spec_new_cycle_times(Some(last), t1_ms, t2_ms, t3_ms) is Ok <==> last.t3 * 1000 == t1_ms,
        spec_new_cycle_times(Some(last), t1_ms, t2_ms, t3_ms) matches Ok(t) ==> t.t1 == last.t3,
{
}

// ---------------------------------------------------------------------------
// durations

pub open spec fn two_digits(n: nat) -> Seq<char> {
    if n < 10 {
        seq!['0'] + spec_decimal_chars(n)
    } else {
        spec_decimal_chars(n)
    }
}

/// `H:MM:SS` as `hhmmss` writes a number of seconds: a minus sign for a
/// negative one, then hours, minutes and seconds of its magnitude, each with
/// at least two digits.
pub open spec fn spec_hhmmss(s: int) -> Seq<char> {
    let a: nat = if s < 0 {
        (-s) as nat
    } else {
        s as nat
    };
    let sign: Seq<char> = if s < 0 {
        seq!['-']
    } else {
        seq![]
    };
    sign + two_digits(a / 3600) + seq![':'] + two_digits((a % 3600) / 60) + seq![':'] + two_digits(
        a % 60,
    )
}

/// `hhmmss` on `std::time::Duration::new(seconds, 0)`: the crate reads the
/// whole seconds as an `i64` and writes them as `HH:MM:SS`, as
/// [`spec_hhmmss`] states.
#[verifier::external_body]
fn duration_text(seconds: u64) -> (r: String)
    requires
        seconds as i64 != i64::MIN,
    ensures
        r@ == spec_hhmmss((seconds as i64) as int),
{
    std::time::Duration::new(seconds, 0).hhmmss()
}

/// The text of the span from `a` to `b` as the cycle page shows it.
fn span_text(a: i32, b: i32) -> (r: String)
    requires
        i32::MIN <= b - a <= i32::MAX,
    ensures
        r@ == spec_hhmmss(b - a),
{
    let d: i32 = b - a;
    let secs: u64 = d as u64;
    assert((secs as i64) == d as i64) by (bit_vector)
        requires
            secs == d as u64,
    ;
    duration_text(secs)
}

/// The injection, shut-in and whole-cycle durations of a cycle, as texts.
#[derive(Clone, Debug)]
pub struct CycleDurations {
    pub injection: String,
    pub shutin: String,
    pub cycle: String,
}

pub fn cycle_durations(c: &CycleInfo) -> (r: CycleDurations)
    requires
        i32::MIN <= c.t2 - c.t1 <= i32::MAX,
        i32::MIN <= c.t3 - c.t2 <= i32::MAX,
        i32::MIN <= c.t3 - c.t1 <= i32::MAX,
    ensures
        r.injection@ == spec_hhmmss(c.t2 - c.t1),
        r.shutin@ == spec_hhmmss(c.t3 - c.t2),
        r.cycle@ == spec_hhmmss(c.t3 - c.t1),
{
    CycleDurations {
        injection: span_text(c.t1, c.t2),
        shutin: span_text(c.t2, c.t3),
        cycle: span_text(c.t1, c.t3),
    }
}

// ---------------------------------------------------------------------------
// the cycles timeline

/// Where the timeline of a well is centred: the end of its last cycle, or the
/// first reduced bottom-hole pressure point, or zero.
pub fn timeline_reference(last: Option<CycleInfo>, first_reduced_bhp: Option<i32>) -> (r: i32)
    ensures
        r == match last {
            Some(c) => c.t3,
            None => match first_reduced_bhp {
                Some(t) => t,
                None => 0,
            },
        },
{
    match last {
        Some(c) => c.t3,
        None => match first_reduced_bhp {
            Some(t) => t,
            None => 0,
        },
    }
}

/// The timeline is drawn empty when either the bottom-hole pressure or the
/// rate series has no points.
pub fn is_empty_plot(bhp_points: usize, rate_points: usize) -> (r: bool)
    ensures
        r == (bhp_points == 0 || rate_points == 0),
{
    bhp_points == 0 || rate_points == 0
}

/// The marks of the timeline, in milliseconds.
#[derive(PartialEq, Eq, Structural, Clone, Copy, Debug)]
pub struct TimelineMarks {
    /// the reference time
    pub line1: i64,
    /// two hours later
    pub line2: i64,
    /// eight hours later
    pub line3: i64,
    /// the initial view: from a day before the reference
    pub view_from: i64,
    /// to two days after it
    pub view_to: i64,
}

pub fn timeline_marks(reference: i32) -> (r: TimelineMarks)
    ensures
        r.line1 == reference * 1000,
        r.line2 == reference * 1000 + 2 * 3600000,
        r.line3 == reference * 1000 + 8 * 3600000,
        r.view_from == reference * 1000 - 86400000,
        r.view_to == reference * 1000 + 2 * 86400000,
{
    let line1: i64 = (reference as i64) * 1000;
    let hour: i64 = 3600000;
    let day: i64 = 86400000;
    TimelineMarks {
        line1,
        line2: line1 + 2 * hour,
        line3: line1 + 8 * hour,
        view_from: line1 - day,
        view_to: line1 + 2 * day,
    }
}

/// Around the reference the timeline shows the raw series, from twelve hours
/// before to six and a half days after; these are the times whose nearest
/// reduced points bound that stretch.
pub fn timeline_probes(reference: i32) -> (r: (i32, i32))
    requires
        i32::MIN + 43200 <= reference <= i32::MAX - 561600,
    ensures
        r.0 == reference - 43200,
        r.1 == reference + 561600,
{
    (reference - 43200, reference + 561600)
}

/// A stretch of time, from `from` to `to`.
#[derive(PartialEq, Eq, Structural, Clone, Copy, Debug)]
pub struct Span {
    pub from: i32,
    pub to: i32,
}

/// The stretches of a timeline: reduced points before the raw stretch (if
/// it does not start at the first point), the raw stretch, reduced points
/// after it (if it does not end at the last point).
#[derive(PartialEq, Eq, Structural, Clone, Copy, Debug)]
pub struct TimelineSections {
    /// reduced points in `[start, a)`
    pub left: Option<Span>,
    /// raw points in `[a, b]`
    pub middle: Span,
    /// reduced points in `(b, end]`
    pub right: Option<Span>,
}

/// The stretches for a reduced series from `start` to `end`, where
/// `before` is the reduced point at or before the first probe and `after`
/// the one at or after the second, when they exist.
pub fn timeline_sections(start: i32, end: i32, before: Option<i32>, after: Option<i32>) -> (r: TimelineSections)
    ensures
        ({
            let a = match before {
                Some(t) => t,
                None => start,
            };
            let b = match after {
                Some(t) => t,
                None => end,
            };
            &&& r.middle == Span { from: a, to: b }
            &&& r.left == (if a != start {
                Some(Span { from: start, to: a })
            } else {
                None
            })
            &&& r.right == (if b != end {
                Some(Span { from: b, to: end })
            } else {
                None
            })
        }),
{
    let a = match before {
        Some(t) => t,
        None => start,
    };
    let b = match after {
        Some(t) => t,
        None => end,
    };
    TimelineSections {
        left: if a != start {
            Some(Span { from: start, to: a })
        } else {
            None
        },
        middle: Span { from: a, to: b },
        right: if b != end {
            Some(Span { from: b, to: end })
        } else {
            None
        },
    }
}

pub open spec fn in_sections(s: TimelineSections, t: int) -> int {
    (if s.left matches Some(x) && x.from <= t < x.to {
        1int
    } else {
        0int
    }) + (if s.middle.from <= t <= s.middle.to {
        1int
    } else {
        0int
    }) + (if s.right matches Some(x) && x.from < t <= x.to {
        1int
    } else {
        0int
    })
}

/// When the probes fall inside the series, the stretches cover it from its
/// first to its last point with every time in exactly one of them.
pub proof fn timeline_sections_tile(s: TimelineSections, start: i32, end: i32, before: Option<i32>, after: Option<i32>, t: int)
    requires
        ({
            let a = match before {
                Some(x) => x,
                None => start,
            };
            let b = match after {
                Some(x) => x,
                None => end,
            };
            &&& start <= a <= b <= end
            &&& s.middle == Span { from: a, to: b }
            &&& s.left == (if a != start {
                Some(Span { from: start, to: a })
            } else {
                None
            })
            &&& s.right == (if b != end {
                Some(Span { from: b, to: end })
            } else {
                None
            })
        }),
        start <= t <= end,
    ensures
        in_sections(s, t) == 1,
{
}

/// The stretch that an analysis page shows around an instant of a cycle:
/// fifteen minutes before it to twenty minutes after.
pub fn analysis_window(anchor: i32) -> (r: (i32, i32))
    requires
        i32::MIN + 900 <= anchor <= i32::MAX - 1200,
    ensures
        r.0 == anchor - 900,
        r.1 == anchor + 1200,
{
    (anchor - 900, anchor + 1200)
}

// ---------------------------------------------------------------------------
// corrections

/// Why a batch volume cannot be corrected.
#[derive(PartialEq, Eq, Structural, Clone, Copy, Debug)]
pub enum BatchFixError {
    /// the injection holds fewer than three volume points
    TooFewPoints,
}

/// A batch volume is spread over the volume points of the injection only
/// when there are more than two of them.
pub fn batch_fix_allowed(n_points: usize) -> (r: Result<(), BatchFixError>)
    ensures
        r is Ok <==> n_points > 2,
{
    if n_points > 2 {
        Ok(())
    } else {
        Err(BatchFixError::TooFewPoints)
    }
}

/// The cycles whose volumes move with a corrected batch: the cycle itself
/// and every later one, up to the well's last.
pub fn cycles_after(from_id: i16, last_id: i16) -> (r: Vec<i16>)
    requires
        from_id <= last_id,
    ensures
        r@.len() == last_id - from_id + 1,
        forall|i: int| 0 <= i < r@.len() ==> #[trigger] r@[i] == from_id + i,
{
    let mut v: Vec<i16> = Vec::new();
    let mut id: i16 = from_id;
    loop
        invariant_except_break
            from_id <= id <= last_id,
            v@.len() == id - from_id,
            forall|i: int| 0 <= i < v@.len() ==> #[trigger] v@[i] == from_id + i,
        ensures
            v@.len() == last_id - from_id + 1,
            forall|i: int| 0 <= i < v@.len() ==> #[trigger] v@[i] == from_id + i,
        decreases last_id - id,
    {
        v.push(id);
        if id == last_id {
            break;
        }
        id = id + 1;
    }
    v
}

/// The tag whose points (and reduced points) are dropped from a cycle on
/// when the client asks to resend the tag `id`: total volume, another
/// built-in tag, or the custom tag of that id if the well has one.
pub open spec fn dropped_tag(id: i16, customs: Seq<Tag>) -> Option<Tag> {
    if id == 6 {
        Some(Tag { id, value_size: PointValueSize::F64 })
    } else if id <= 7 {
        Some(Tag { id, value_size: PointValueSize::F32 })
    } else {
        match first_custom(id, customs, 0) {
            Some(j) => Some(Tag { id, value_size: customs[j].value_size }),
            None => None,
        }
    }
}

/// The first index from `j` on of a custom tag with this id.
pub open spec fn first_custom(id: i16, customs: Seq<Tag>, j: int) -> Option<int>
    decreases customs.len() - j,
{
    if j < 0 || j >= customs.len() {
        None
    } else if customs[j].id == id {
        Some(j)
    } else {
        first_custom(id, customs, j + 1)
    }
}

pub open spec fn dropped_tags(ids: Seq<i16>, customs: Seq<Tag>, n: int) -> Seq<Tag>
    decreases n,
{
    if n <= 0 {
        seq![]
    } else {
        match dropped_tag(ids[n - 1], customs) {
            Some(t) => dropped_tags(ids, customs, n - 1).push(t),
            None => dropped_tags(ids, customs, n - 1),
        }
    }
}

fn find_custom(id: i16, customs: &Vec<Tag>) -> (r: Option<usize>)
    ensures
        match r {
            Some(j) => j < customs@.len() && first_custom(id, customs@, 0) == Some(j as int),
            None => first_custom(id, customs@, 0) is None,
        },
{
    let mut j: usize = 0;
    while j < customs.len()
        invariant
            j <= customs@.len(),
            first_custom(id, customs@, 0) == first_custom(id, customs@, j as int),
        decreases customs@.len() - j,
    {
        if customs[j].id == id {
            return Some(j);
        }
        j = j + 1;
    }
    None
}

/// The tags to clear when a cycle's well data is sent again: one entry per
/// requested id that names a tag, in the order requested.
pub fn fix_well_data_plan(ids: &Vec<i16>, customs: &Vec<Tag>) -> (r: Vec<Tag>)
    ensures
        r@ == dropped_tags(ids@, customs@, ids@.len() as int),
{
    let mut v: Vec<Tag> = Vec::new();
    let mut i: usize = 0;
    while i < ids.len()
        invariant
            i <= ids@.len(),
            v@ == dropped_tags(ids@, customs@, i as int),
        decreases ids@.len() - i,
    {
        let id = ids[i];
        if id == 6 {
            v.push(Tag { id, value_size: PointValueSize::F64 });
        } else if id <= 7 {
            v.push(Tag { id, value_size: PointValueSize::F32 });
        } else {
            match find_custom(id, customs) {
                Some(j) => {
                    v.push(Tag { id, value_size: customs[j].value_size });
                },
                None => {},
            }
        }
        i = i + 1;
    }
    v
}

proof fn lemma_first_custom(id: i16, customs: Seq<Tag>, j: int)
    requires
        0 <= j,
    ensures
        first_custom(id, customs, j) matches Some(x) ==> j <= x < customs.len() && customs[x].id == id,
        (exists|k: int| j <= k < customs.len() && (#[trigger] customs[k]).id == id) ==> first_custom(
            id,
            customs,
            j,
        ) is Some,
    decreases customs.len() - j,
{
    if j < customs.len() && customs[j].id != id {
        lemma_first_custom(id, customs, j + 1);
        if exists|k: int| j <= k < customs.len() && (#[trigger] customs[k]).id == id {
            let k = choose|k: int| j <= k < customs.len() && (#[trigger] customs[k]).id == id;
            assert(j + 1 <= k);
        }
    }
}

proof fn lemma_dropped_tags(ids: Seq<i16>, customs: Seq<Tag>, n: int)
    requires
        0 <= n <= ids.len(),
    ensures
        forall|i: int|
            0 <= i < dropped_tags(ids, customs, n).len() ==> {
                let t = #[trigger] dropped_tags(ids, customs, n)[i];
                &&& exists|j: int| 0 <= j < n && ids[j] == t.id
                &&& t.id == 6 ==> t.value_size == PointValueSize::F64
                &&& t.id <= 7 && t.id != 6 ==> t.value_size == PointValueSize::F32
                &&& t.id > 7 ==> exists|k: int|
                    0 <= k < customs.len() && (#[trigger] customs[k]).id == t.id && customs[k].value_size
                        == t.value_size
            },
        forall|j: int|
            0 <= j < n && (ids[j] <= 7 || exists|k: int| 0 <= k < customs.len() && (#[trigger] customs[k]).id == ids[j])
                ==> exists|i: int| 0 <= i < dropped_tags(ids, customs, n).len() && (#[trigger] dropped_tags(ids, customs, n)[i]).id == #[trigger] ids[j],
    decreases n,
{
    if n > 0 {
        lemma_dropped_tags(ids, customs, n - 1);
        lemma_first_custom(ids[n - 1], customs, 0);
        let prev = dropped_tags(ids, customs, n - 1);
        let cur = dropped_tags(ids, customs, n);
        assert forall|i: int| 0 <= i < cur.len() implies {
            let t = #[trigger] cur[i];
            &&& exists|j: int| 0 <= j < n && ids[j] == t.id
            &&& t.id == 6 ==> t.value_size == PointValueSize::F64
            &&& t.id <= 7 && t.id != 6 ==> t.value_size == PointValueSize::F32
            &&& t.id > 7 ==> exists|k: int|
                0 <= k < customs.len() && (#[trigger] customs[k]).id == t.id && customs[k].value_size
                    == t.value_size
        } by {
            if i < prev.len() {
                assert(cur[i] == prev[i]);
            } else {
                assert(ids[n - 1] == cur[i].id);
                if cur[i].id > 7 {
                    let x = first_custom(ids[n - 1], customs, 0)->0;
                    assert(customs[x].id == cur[i].id);
                }
            }
        }
        assert forall|j: int|
            0 <= j < n && (ids[j] <= 7 || exists|k: int| 0 <= k < customs.len() && (#[trigger] customs[k]).id == ids[j])
            implies exists|i: int| 0 <= i < cur.len() && (#[trigger] cur[i]).id == #[trigger] ids[j] by {
            if j < n - 1 {
                let i = choose|i: int| 0 <= i < prev.len() && (#[trigger] prev[i]).id == ids[j];
                assert(cur[i] == prev[i]);
            } else {
                assert(cur[prev.len() as int].id == ids[j]);
            }
        }
    }
}

/// Every tag in a fix plan was requested and is cleared in the table where
/// its points are stored: total volume (6) in double precision, the other
/// built-in ids in single precision, a custom tag at its own value size.
/// Every requested built-in id, and every requested id of a custom tag, is
/// in the plan; an id that names no tag is not.
pub proof fn fix_plan_clears_stored_width(ids: Seq<i16>, customs: Seq<Tag>)
    ensures
        forall|i: int|
            0 <= i < dropped_tags(ids, customs, ids.len() as int).len() ==> {
                let t = #[trigger] dropped_tags(ids, customs, ids.len() as int)[i];
                &&& exists|j: int| 0 <= j < ids.len() && ids[j] == t.id
                &&& t.id == 6 ==> t.value_size == PointValueSize::F64
                &&& t.id <= 7 && t.id != 6 ==> t.value_size == PointValueSize::F32
                &&& t.id > 7 ==> exists|k: int|
                    0 <= k < customs.len() && (#[trigger] customs[k]).id == t.id && customs[k].value_size
                        == t.value_size
            },
        forall|j: int|
            0 <= j < ids.len() && (ids[j] <= 7 || exists|k: int| 0 <= k < customs.len() && (#[trigger] customs[k]).id == ids[j])
                ==> exists|i: int|
                0 <= i < dropped_tags(ids, customs, ids.len() as int).len() && (#[trigger] dropped_tags(
                    ids,
                    customs,
                    ids.len() as int,
                )[i]).id == #[trigger] ids[j],
{
    lemma_dropped_tags(ids, customs, ids.len() as int);
}

/// Where the computer resumes after the data of a cycle was dropped: just
/// before the cycle's start.
pub fn recompute_from(t1: i32) -> (r: i32)
    requires
        t1 > i32::MIN,
    ensures
        r == t1 - 1,
{
    t1 - 1
}

/// How the value of a series at a time is obtained from the points next to it.
#[derive(PartialEq, Eq, Structural, Clone, Copy, Debug)]
pub enum Interpolation {
    /// the value of the point at or before the time
    Before,
    /// the value of the point at or after the time
    After,
    /// the straight line between the two points
    Between,
    /// the series has no point: no value
    Nothing,
}

/// Which points give the value at `time`, from the times of the last point
/// at or before it and of the first point at or after it.
pub fn interpolation(time: i32, before: Option<i32>, after: Option<i32>) -> (r: Interpolation)
    ensures
        r == match before {
            Some(b) => if b == time {
                Interpolation::Before
            } else {
                match after {
                    Some(a) => if a == time {
                        Interpolation::After
                    } else {
                        Interpolation::Between
                    },
                    None => Interpolation::Before,
                }
            },
            None => match after {
                Some(_) => Interpolation::After,
                None => Interpolation::Nothing,
            },
        },
{
    match before {
        Some(b) => if b == time {
            Interpolation::Before
        } else {
            match after {
                Some(a) => if a == time {
                    Interpolation::After
                } else {
                    Interpolation::Between
                },
                None => Interpolation::Before,
            }
        },
        None => match after {
            Some(_) => Interpolation::After,
            None => Interpolation::Nothing,
        },
    }
}

} // verus!
