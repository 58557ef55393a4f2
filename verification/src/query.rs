use vstd::prelude::*;

verus! {

/// Width, in seconds, of one batch of streamed points.
pub const POINTS_BATCH_SECONDS: i32 = 90000;

/// A request for the points of one tag: the time range `[time_from, time_to]`,
/// whether each bound is strict (`lbs` left, `rbs` right), and whether the
/// last point before the range is to be included (`ipb`). A `time_to` of zero
/// asks for everything up to the last stored point.
#[derive(PartialEq, Eq, Structural, Clone, Copy, Debug)]
pub struct PointsQuery {
    pub time_from: i32,
    pub time_to: i32,
    pub lbs: bool,
    pub rbs: bool,
    pub ipb: bool,
}

/// One batch of a streamed answer: the points with times between
/// `time_from` and `time_to`, each bound strict or not.
#[derive(PartialEq, Eq, Structural, Clone, Copy, Debug)]
pub struct Batch {
    pub time_from: i32,
    pub time_to: i32,
    pub left_strict: bool,
    pub right_strict: bool,
}

/// Which stored point before the range has to be looked up, if any.
#[derive(PartialEq, Eq, Structural, Clone, Copy, Debug)]
pub enum BeforeLookup {
    Skip,
    /// the last point at or before `time_from`
    AtOrBefore,
    /// the last point strictly before `time_from`
    StrictlyBefore,
}

// ---------------------------------------------------------------------------
// specifications

pub open spec fn above_left(q: PointsQuery, t: int) -> bool {
    if q.lbs {
        t > q.time_from
    } else {
        t >= q.time_from
    }
}

/// `t` lies in the range that the query names, a zero `time_to` leaving the
/// range open to the right.
pub open spec fn requested(q: PointsQuery, t: int) -> bool {
    &&& above_left(q, t)
    &&& (q.time_to == 0 || (if q.rbs {
        t < q.time_to
    } else {
        t <= q.time_to
    }))
}

/// `t` lies in the query's range, `time_to` read literally.
pub open spec fn in_bounds(q: PointsQuery, t: int) -> bool {
    &&& above_left(q, t)
    &&& (if q.rbs {
        t < q.time_to
    } else {
        t <= q.time_to
    })
}

pub open spec fn in_batch(b: Batch, t: int) -> bool {
    &&& (if b.left_strict {
        t > b.time_from
    } else {
        t >= b.time_from
    })
    &&& (if b.right_strict {
        t < b.time_to
    } else {
        t <= b.time_to
    })
}

/// The stored times that a query selects from the stored times `s`: those in
/// its range and, when `ipb` is set, the last one to the left of the range.
pub open spec fn selected(q: PointsQuery, s: Set<int>, t: int) -> bool {
    &&& s.contains(t)
    &&& (requested(q, t) || (q.ipb && !above_left(q, t) && (forall|u: int|
        #![trigger s.contains(u)]
        s.contains(u) && !above_left(q, u) ==> u <= t)))
}

pub open spec fn spec_adjust_to_first(q: PointsQuery, first: Option<i32>) -> Option<PointsQuery> {
    match first {
        None => None,
        Some(ft) => if ft > q.time_from {
            Some(PointsQuery { time_from: ft, lbs: false, ipb: false, ..q })
        } else if ft == q.time_from && q.ipb {
            Some(PointsQuery { lbs: false, ipb: false, ..q })
        } else {
            Some(q)
        },
    }
}

pub open spec fn spec_adjust_to_last(q: PointsQuery, last: Option<i32>) -> Option<PointsQuery> {
    match last {
        None => None,
        Some(lt) => if (lt < q.time_to && q.time_to != 0) || q.time_to == 0 {
            Some(PointsQuery { time_to: lt, rbs: false, ..q })
        } else {
            Some(q)
        },
    }
}

pub open spec fn spec_range_open(q: PointsQuery) -> bool {
    !(q.time_from > q.time_to || (q.time_from == q.time_to && !q.ipb && (q.lbs || q.rbs)))
}

pub open spec fn spec_before_lookup(q: PointsQuery) -> BeforeLookup {
    if !q.ipb {
        BeforeLookup::Skip
    } else if q.lbs {
        BeforeLookup::AtOrBefore
    } else {
        BeforeLookup::StrictlyBefore
    }
}

pub open spec fn spec_apply_point_before(q: PointsQuery, before: Option<i32>) -> PointsQuery {
    match before {
        Some(bt) => PointsQuery { time_from: bt, lbs: false, ipb: false, ..q },
        None => PointsQuery { ipb: false, ..q },
    }
}

/// Number of batches into which `[time_from, time_to]` is cut.
pub open spec fn batch_count(q: PointsQuery) -> int {
    if q.time_to - q.time_from <= POINTS_BATCH_SECONDS {
        1
    } else {
        (q.time_to - q.time_from - 1) / (POINTS_BATCH_SECONDS as int) + 1
    }
}

pub open spec fn batch_at(q: PointsQuery, i: int) -> Batch {
    let n = batch_count(q);
    Batch {
        time_from: (q.time_from + i * POINTS_BATCH_SECONDS) as i32,
        time_to: if i == n - 1 {
            q.time_to
        } else {
            (q.time_from + (i + 1) * POINTS_BATCH_SECONDS) as i32
        },
        left_strict: if i == 0 {
            q.lbs
        } else {
            true
        },
        right_strict: if i == n - 1 {
            q.rbs
        } else {
            false
        },
    }
}

pub open spec fn spec_batches(q: PointsQuery) -> Seq<Batch> {
    Seq::new(batch_count(q) as nat, |i: int| batch_at(q, i))
}

/// The planner's arithmetic stays within `i32`: the last start it computes,
/// one batch past the last batch, is representable.
pub open spec fn batches_fit(q: PointsQuery) -> bool {
    q.time_from + batch_count(q) * POINTS_BATCH_SECONDS <= i32::MAX
}

// ---------------------------------------------------------------------------
// the steps, in the order in which a points request runs them

/// First step: move the range to the first stored point. `None` when the tag
/// has no points (nothing is streamed).
pub fn adjust_to_first_point(q: PointsQuery, first: Option<i32>) -> (r: Option<PointsQuery>)
    ensures
        r == spec_adjust_to_first(q, first),
{
    match first {
        None => None,
        Some(ft) => {
            let mut q = q;
            if ft > q.time_from {
                q.time_from = ft;
                q.lbs = false;
                q.ipb = false;
            } else if ft == q.time_from {
                if q.lbs && q.ipb {
                    q.lbs = false;
                    q.ipb = false;
                } else if !q.lbs && q.ipb {
                    q.ipb = false;
                }
            }
            Some(q)
        },
    }
}

/// Second step: clip the range to the last stored point, or extend an open
/// range up to it. `None` when the tag has no points.
pub fn adjust_to_last_point(q: PointsQuery, last: Option<i32>) -> (r: Option<PointsQuery>)
    ensures
        r == spec_adjust_to_last(q, last),
{
    match last {
        None => None,
        Some(lt) => {
            let mut q = q;
            if lt < q.time_to && q.time_to != 0 {
                q.time_to = lt;
                q.rbs = false;
            } else if q.time_to == 0 {
                q.time_to = lt;
                q.rbs = false;
            }
            Some(q)
        },
    }
}

/// Third step: whether anything can be streamed for the adjusted range.
pub fn range_is_open(q: &PointsQuery) -> (r: bool)
    ensures
        r == spec_range_open(*q),
{
    if q.time_from > q.time_to {
        false
    } else if q.time_from == q.time_to {
        !(!q.ipb && (q.lbs || q.rbs))
    } else {
        true
    }
}

/// Fourth step: which lookup of a point before the range is needed.
pub fn point_before_lookup(q: &PointsQuery) -> (r: BeforeLookup)
    ensures
        r == spec_before_lookup(*q),
{
    if !q.ipb {
        BeforeLookup::Skip
    } else if q.lbs {
        BeforeLookup::AtOrBefore
    } else {
        BeforeLookup::StrictlyBefore
    }
}

/// Fifth step: start the range at the point found before it, if any; the
/// request for a point before is then settled.
pub fn apply_point_before(q: PointsQuery, before: Option<i32>) -> (r: PointsQuery)
    ensures
        r == spec_apply_point_before(q, before),
{
    let mut q = q;
    match before {
        Some(bt) => {
            q.time_from = bt;
            q.lbs = false;
            q.ipb = false;
        },
        None => {
            q.ipb = false;
        },
    }
    q
}

proof fn lemma_batch_count(q: PointsQuery)
    requires
        q.time_from <= q.time_to,
    ensures
        batch_count(q) >= 1,
        q.time_from + batch_count(q) * POINTS_BATCH_SECONDS >= q.time_to,
        q.time_from + (batch_count(q) - 1) * POINTS_BATCH_SECONDS < q.time_to || batch_count(q)
            == 1,
{
    let d = q.time_to - q.time_from;
    if d > POINTS_BATCH_SECONDS {
        let k = (d - 1) / 90000int;
        assert(k * 90000 <= d - 1 < k * 90000 + 90000);
    }
}

/// Last step: cut the adjusted range into the batches in which the points
/// are streamed, each at most a batch width long.
pub fn plan_batches(q: &PointsQuery) -> (r: Vec<Batch>)
    requires
        q.time_from <= q.time_to,
        batches_fit(*q),
    ensures
        r@ == spec_batches(*q),
{
    proof {
        lemma_batch_count(*q);
    }
    let ghost n = batch_count(*q);
    let mut v: Vec<Batch> = Vec::new();
    let mut from: i32 = q.time_from;
    let mut first_done = false;
    let mut brk = false;
    while !brk
        invariant
            n == batch_count(*q),
            n >= 1,
            q.time_from + n * POINTS_BATCH_SECONDS >= q.time_to,
            q.time_from + (n - 1) * POINTS_BATCH_SECONDS < q.time_to || n == 1,
            batches_fit(*q),
            q.time_from <= q.time_to,
            v.len() <= n,
            from == q.time_from + v.len() * POINTS_BATCH_SECONDS,
            first_done == (v.len() > 0),
            brk ==> v.len() == n,
            !brk ==> v.len() < n,
            forall|j: int| 0 <= j < v.len() ==> v@[j] == batch_at(*q, j),
        decreases n - v.len(),
    {
        let ghost i = v.len() as int;
        assert(from + POINTS_BATCH_SECONDS <= q.time_from + n * POINTS_BATCH_SECONDS) by {
            assert(i + 1 <= n);
        }
        let mut to: i32 = from + POINTS_BATCH_SECONDS;
        if to >= q.time_to {
            brk = true;
            to = q.time_to;
        }
        proof {
            if i < n - 1 {
                assert(q.time_from + (i + 1) * POINTS_BATCH_SECONDS <= q.time_from + (n - 1)
                    * POINTS_BATCH_SECONDS);
            }
        }
        assert(brk <==> i == n - 1);
        let b = if brk && !first_done {
            Batch { time_from: from, time_to: to, left_strict: q.lbs, right_strict: q.rbs }
        } else if !first_done {
            Batch { time_from: from, time_to: to, left_strict: q.lbs, right_strict: false }
        } else if brk {
            Batch { time_from: from, time_to: to, left_strict: true, right_strict: q.rbs }
        } else {
            Batch { time_from: from, time_to: to, left_strict: true, right_strict: false }
        };
        assert(b == batch_at(*q, i));
        v.push(b);
        first_done = true;
        from = from + POINTS_BATCH_SECONDS;
    }
    assert(v@ =~= spec_batches(*q));
    v
}

/// Whether the planner's arithmetic fits in `i32` for the adjusted range
/// (see [`batches_fit`]); checked before [`plan_batches`] is called.
pub fn plan_fits(q: &PointsQuery) -> (r: bool)
    requires
        q.time_from <= q.time_to,
    ensures
        r == batches_fit(*q),
{
    let d: i64 = q.time_to as i64 - q.time_from as i64;
    let n: i64 = if d <= 90000 {
        1
    } else {
        (d - 1) / 90000 + 1
    };
    assert(n == batch_count(*q));
    assert(n <= 50000) by {
        assert(d <= 0x1_0000_0000);
    }
    q.time_from as i64 + n * 90000 <= i32::MAX as i64
}

/// The batches of a range cover it exactly once: a time lies in the range if
/// and only if it lies in some batch, and it never lies in two.
pub proof fn batches_partition_range(q: PointsQuery, t: int)
    requires
        q.time_from <= q.time_to,
        batches_fit(q),
    ensures
        in_bounds(q, t) <==> exists|i: int|
            0 <= i < spec_batches(q).len() && #[trigger] in_batch(spec_batches(q)[i], t),
        forall|i: int, j: int|
            0 <= i < spec_batches(q).len() && 0 <= j < spec_batches(q).len() && in_batch(
                #[trigger] spec_batches(q)[i],
                t,
            ) && in_batch(#[trigger] spec_batches(q)[j], t) ==> i == j,
{
    lemma_batch_count(q);
    let n = batch_count(q);
    let bs = spec_batches(q);
    let b = POINTS_BATCH_SECONDS as int;
    let f = q.time_from as int;
    if in_bounds(q, t) {
        let i: int = if n == 1 || t <= f + b {
            0
        } else {
            (t - f - 1) / b
        };
        if !(n == 1 || t <= f + b) {
            assert(i * b <= t - f - 1 < i * b + b);
            assert((q.time_to - f - 1) / b == n - 1);
            assert(i <= n - 1) by {
                assert(t - f - 1 <= q.time_to - f - 1);
            }
            if i < n - 1 {
                assert(f + (i + 1) * b <= f + (n - 1) * b);
            }
        }
        assert(in_batch(bs[i], t));
    }
    assert forall|i: int| 0 <= i < n && #[trigger] in_batch(bs[i], t) implies in_bounds(q, t) by {
        if i < n - 1 {
            assert(f + (i + 1) * b <= f + (n - 1) * b);
        }
        if i > 0 {
            assert(f + i * b >= f + b);
        }
    }
    assert forall|i: int, j: int|
        0 <= i < n && 0 <= j < n && in_batch(#[trigger] bs[i], t) && in_batch(
            #[trigger] bs[j],
            t,
        ) implies i == j by {
        if i < j {
            assert(f + (i + 1) * b <= f + j * b);
        } else if j < i {
            assert(f + (j + 1) * b <= f + i * b);
        }
    }
}

/// `s` holds the stored times of a tag, `first` the least and `last` the
/// greatest of them.
pub open spec fn stored_extent(s: Set<int>, first: i32, last: i32) -> bool {
    &&& s.contains(first as int)
    &&& s.contains(last as int)
    &&& forall|u: int| #![trigger s.contains(u)] s.contains(u) ==> first <= u <= last
}

/// `before` is the answer that the store gives to the lookup of the last
/// point to the left of the range of `q`.
pub open spec fn answers_point_before(q: PointsQuery, s: Set<int>, before: Option<i32>) -> bool {
    match before {
        None => forall|u: int| #![trigger s.contains(u)] s.contains(u) ==> above_left(q, u),
        Some(bt) => {
            &&& s.contains(bt as int)
            &&& !above_left(q, bt as int)
            &&& forall|u: int|
                #![trigger s.contains(u)]
                s.contains(u) && !above_left(q, u) ==> u <= bt
        },
    }
}

/// The query after its first two steps, the range fitted to the stored points.
pub open spec fn fitted(q: PointsQuery, first: i32, last: i32) -> PointsQuery {
    spec_adjust_to_last(spec_adjust_to_first(q, Some(first)).unwrap(), Some(last)).unwrap()
}

/// The query whose range is cut into batches, once the point before is settled.
pub open spec fn settled(q: PointsQuery, first: i32, last: i32, before: Option<i32>) -> PointsQuery {
    let q2 = fitted(q, first, last);
    if spec_before_lookup(q2) == BeforeLookup::Skip {
        q2
    } else {
        spec_apply_point_before(q2, before)
    }
}

/// The batches that a points request streams, given the store's answers.
pub open spec fn streamed_batches(q: PointsQuery, first: i32, last: i32, before: Option<i32>) -> Seq<
    Batch,
> {
    if spec_range_open(fitted(q, first, last)) {
        spec_batches(settled(q, first, last, before))
    } else {
        Seq::empty()
    }
}

/// A points request streams exactly the stored points that it selects: those
/// in the requested range and, when asked, the last one left of the range.
/// Left out: a request that asks for the point before a range that lies wholly
/// beyond the last stored point, for which no batch is streamed at all; and a
/// request for the point before an empty range `(a, a)` when a point is stored
/// at `a`, for which that point is not streamed.
pub proof fn points_request_streams_selection(
    q: PointsQuery,
    s: Set<int>,
    first: i32,
    last: i32,
    before: Option<i32>,
    t: int,
)
    requires
        stored_extent(s, first, last),
        spec_before_lookup(fitted(q, first, last)) != BeforeLookup::Skip ==> answers_point_before(
            fitted(q, first, last),
            s,
            before,
        ),
        spec_range_open(fitted(q, first, last)) || !q.ipb || forall|u: int|
            #![trigger s.contains(u)]
            s.contains(u) ==> above_left(q, u),
        spec_range_open(fitted(q, first, last)) ==> batches_fit(settled(q, first, last, before)),
        !(fitted(q, first, last).ipb && fitted(q, first, last).rbs && fitted(q, first, last).time_from
            == fitted(q, first, last).time_to && before == Some(fitted(q, first, last).time_from)),
        s.contains(t),
    ensures
        spec_range_open(fitted(q, first, last)) ==> settled(q, first, last, before).time_from
            <= settled(q, first, last, before).time_to,
        (exists|i: int|
            0 <= i < streamed_batches(q, first, last, before).len() && #[trigger] in_batch(
                streamed_batches(q, first, last, before)[i],
                t,
            )) <==> selected(q, s, t),
{
    let q2 = fitted(q, first, last);
    let q3 = settled(q, first, last, before);
    if spec_range_open(q2) {
        assert(q3.time_from <= q3.time_to) by {
            if spec_before_lookup(q2) != BeforeLookup::Skip {
                if let Some(bt) = before {
                    assert(bt <= q2.time_from);
                }
            }
        }
        batches_partition_range(q3, t);
        assert(streamed_batches(q, first, last, before) == spec_batches(q3));
        assert(in_bounds(q3, t) <==> selected(q, s, t));
    } else {
        assert(!selected(q, s, t));
    }
}

} // verus!
