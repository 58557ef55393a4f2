use vstd::prelude::*;
use vstd::utf8::is_continuation_byte;
use vstd::string::StringSliceAdditionalSpecFns;
use crate::decimal::{spec_decimal_i16, decimal_i16, lemma_decimal_i16_shape};

verus! {

/// Why a cycle page could not be switched.
#[derive(PartialEq, Eq, Structural, Clone, Copy, Debug)]
pub enum NavError {
    BadUrl,
    LastAnalysis,
    FirstAnalysis,
    LastCycle,
    FirstCycle,
}

impl NavError {
    /// The text that the service answers with.
    pub fn message(&self) -> (r: &'static str)
        ensures
            *self == NavError::BadUrl ==> r@ == "Bad url"@,
            *self == NavError::LastAnalysis ==> r@ == "Last analysis already"@,
            *self == NavError::FirstAnalysis ==> r@ == "First analysis already"@,
            *self == NavError::LastCycle ==> r@ == "Last cycle already"@,
            *self == NavError::FirstCycle ==> r@ == "First cycle already"@,
    {
        match self {
            NavError::BadUrl => "Bad url",
            NavError::LastAnalysis => "Last analysis already",
            NavError::FirstAnalysis => "First analysis already",
            NavError::LastCycle => "Last cycle already",
            NavError::FirstCycle => "First cycle already",
        }
    }
}

/// The bytes of `"/cycles/"`.
pub open spec fn cycles_marker() -> Seq<u8> {
    seq![47u8, 99u8, 121u8, 99u8, 108u8, 101u8, 115u8, 47u8]
}

/// The page suffixes of a cycle's analyses, in the order in which they are
/// visited (1 to 11); the cycle's info page has no suffix.
pub open spec fn analysis_page(k: int) -> Seq<u8> {
        if k == 1 {
            seq![47u8, 108u8, 97u8, 115u8, 116u8, 45u8, 114u8, 97u8, 116u8, 101u8, 45u8, 98u8, 104u8, 112u8]
        } else if k == 2 {
            seq![47u8, 108u8, 97u8, 115u8, 116u8, 45u8, 114u8, 97u8, 116u8, 101u8, 45u8, 119u8, 104u8, 112u8]
        } else if k == 3 {
            seq![47u8, 104u8, 111u8, 114u8, 110u8, 101u8, 114u8, 45u8, 98u8, 104u8, 112u8]
        } else if k == 4 {
            seq![47u8, 104u8, 111u8, 114u8, 110u8, 101u8, 114u8, 45u8, 119u8, 104u8, 112u8]
        } else if k == 5 {
            seq![47u8, 104u8, 111u8, 114u8, 110u8, 101u8, 114u8, 45u8, 98u8, 104u8, 116u8]
        } else if k == 6 {
            seq![47u8, 102u8, 111u8, 117u8, 114u8, 105u8, 101u8, 114u8, 45u8, 98u8, 104u8, 112u8]
        } else if k == 7 {
            seq![47u8, 102u8, 111u8, 117u8, 114u8, 105u8, 101u8, 114u8, 45u8, 119u8, 104u8, 112u8]
        } else if k == 8 {
            seq![47u8, 115u8, 116u8, 105u8, 102u8, 102u8, 110u8, 101u8, 115u8, 115u8, 45u8, 116u8, 105u8, 109u8, 101u8, 115u8, 104u8, 105u8, 102u8, 116u8]
        } else if k == 9 {
            seq![47u8, 115u8, 116u8, 105u8, 102u8, 102u8, 110u8, 101u8, 115u8, 115u8]
        } else if k == 10 {
            seq![47u8, 104u8, 97u8, 108u8, 108u8]
        } else if k == 11 {
            seq![47u8, 102u8, 108u8, 111u8, 119u8, 45u8, 114u8, 101u8, 103u8, 105u8, 109u8, 101u8, 115u8]
        } else {
            seq![]
        }
}

/// Position (1 to 11) of an analysis suffix, 0 for any other text.
pub open spec fn page_index(end: Seq<u8>) -> int {
    if end == analysis_page(1) {
        1
    } else if end == analysis_page(2) {
        2
    } else if end == analysis_page(3) {
        3
    } else if end == analysis_page(4) {
        4
    } else if end == analysis_page(5) {
        5
    } else if end == analysis_page(6) {
        6
    } else if end == analysis_page(7) {
        7
    } else if end == analysis_page(8) {
        8
    } else if end == analysis_page(9) {
        9
    } else if end == analysis_page(10) {
        10
    } else if end == analysis_page(11) {
        11
    } else {
        0
    }
}

pub open spec fn occurs_at(h: Seq<u8>, n: Seq<u8>, i: int) -> bool {
    0 <= i && i + n.len() <= h.len() && h.subrange(i, i + n.len()) == n
}

/// First position at or after `i` where `n` occurs in `h`.
pub open spec fn find_from(h: Seq<u8>, n: Seq<u8>, i: int) -> Option<int>
    decreases h.len() + 1 - i,
{
    if i < 0 || i + n.len() > h.len() {
        None
    } else if occurs_at(h, n, i) {
        Some(i)
    } else {
        find_from(h, n, i + 1)
    }
}

pub open spec fn ends_with(h: Seq<u8>, suffix: Seq<u8>) -> bool {
    suffix.len() <= h.len() && h.subrange(h.len() - suffix.len(), h.len() as int) == suffix
}

/// The url suffix of a cycle's info page, `"/cycles/<id>"`.
pub open spec fn cycle_info_end(id: i16) -> Seq<u8> {
    cycles_marker() + spec_decimal_i16(id as int)
}

/// Where a cycle url is cut into the part that names the cycle and the part
/// that names the page: after the first `"/cycles/"` and as many bytes as
/// the cycle id has digits.
pub open spec fn cycle_split(url: Seq<u8>, id: i16) -> Option<int> {
    match find_from(url, cycles_marker(), 0) {
        Some(i) => Some(i + 8 + spec_decimal_i16(id as int).len()),
        None => None,
    }
}

/// Cutting `url` there does not fall inside a multi-byte character.
pub open spec fn cut_on_char_boundary(url: Seq<u8>, id: i16) -> bool {
    match cycle_split(url, id) {
        Some(k) => k >= url.len() || !is_continuation_byte(url[k]),
        None => true,
    }
}

pub open spec fn spec_next_analysis(url: Seq<u8>, id: i16) -> Result<Seq<u8>, NavError> {
    match cycle_split(url, id) {
        None => Err(NavError::BadUrl),
        Some(k) => if k > url.len() {
            Err(NavError::BadUrl)
        } else {
            let base = url.subrange(0, k);
            let j = page_index(url.subrange(k, url.len() as int));
            if ends_with(url, cycle_info_end(id)) {
                Ok(base + analysis_page(1))
            } else if 1 <= j <= 10 {
                Ok(base + analysis_page(j + 1))
            } else {
                Err(NavError::LastAnalysis)
            }
        },
    }
}

pub open spec fn spec_previous_analysis(url: Seq<u8>, id: i16) -> Result<Seq<u8>, NavError> {
    match cycle_split(url, id) {
        None => Err(NavError::BadUrl),
        Some(k) => if k > url.len() {
            Err(NavError::BadUrl)
        } else {
            let base = url.subrange(0, k);
            let j = page_index(url.subrange(k, url.len() as int));
            if 2 <= j <= 11 {
                Ok(base + analysis_page(j - 1))
            } else if j == 1 {
                Ok(base)
            } else if ends_with(url, cycle_info_end(id)) {
                Err(NavError::FirstAnalysis)
            } else {
                Err(NavError::BadUrl)
            }
        },
    }
}

/// `url` with the cycle id after its first `"/cycles/"` replaced by `new_id`.
pub open spec fn with_cycle_id(url: Seq<u8>, id: i16, new_id: int) -> Result<Seq<u8>, NavError> {
    match find_from(url, cycles_marker(), 0) {
        None => Err(NavError::BadUrl),
        Some(i) => {
            let k2 = i + 8 + spec_decimal_i16(id as int).len();
            if k2 > url.len() {
                Err(NavError::BadUrl)
            } else {
                Ok(url.subrange(0, i + 8) + spec_decimal_i16(new_id) + url.subrange(k2, url.len() as int))
            }
        },
    }
}

pub open spec fn spec_next_cycle(url: Seq<u8>, id: i16, is_last: bool) -> Result<Seq<u8>, NavError> {
    if is_last {
        Err(NavError::LastCycle)
    } else {
        with_cycle_id(url, id, id + 1)
    }
}

pub open spec fn spec_previous_cycle(url: Seq<u8>, id: i16) -> Result<Seq<u8>, NavError> {
    if id == 1 {
        Err(NavError::FirstCycle)
    } else {
        with_cycle_id(url, id, id - 1)
    }
}

// ---------------------------------------------------------------------------

proof fn lemma_find_from_sound(h: Seq<u8>, n: Seq<u8>, i: int)
    ensures
        find_from(h, n, i) matches Some(k) ==> occurs_at(h, n, k) && i <= k && forall|j: int|
            i <= j < k ==> !#[trigger] occurs_at(h, n, j),
        find_from(h, n, i) is None && i >= 0 ==> forall|j: int| i <= j ==> !#[trigger] occurs_at(h, n, j),
    decreases h.len() + 1 - i,
{
    if i < 0 || i + n.len() > h.len() {
    } else if occurs_at(h, n, i) {
    } else {
        lemma_find_from_sound(h, n, i + 1);
    }
}

fn marker_bytes() -> (r: Vec<u8>)
    ensures
        r@ == cycles_marker(),
{
    let v: Vec<u8> = vec![47u8, 99u8, 121u8, 99u8, 108u8, 101u8, 115u8, 47u8];
    assert(v@ =~= cycles_marker());
    v
}

fn page_bytes(k: usize) -> (r: Vec<u8>)
    requires
        1 <= k <= 11,
    ensures
        r@ == analysis_page(k as int),
{
    let v: Vec<u8> = {
        if k == 1 {
            vec![47u8, 108u8, 97u8, 115u8, 116u8, 45u8, 114u8, 97u8, 116u8, 101u8, 45u8, 98u8, 104u8, 112u8]
        } else if k == 2 {
            vec![47u8, 108u8, 97u8, 115u8, 116u8, 45u8, 114u8, 97u8, 116u8, 101u8, 45u8, 119u8, 104u8, 112u8]
        } else if k == 3 {
            vec![47u8, 104u8, 111u8, 114u8, 110u8, 101u8, 114u8, 45u8, 98u8, 104u8, 112u8]
        } else if k == 4 {
            vec![47u8, 104u8, 111u8, 114u8, 110u8, 101u8, 114u8, 45u8, 119u8, 104u8, 112u8]
        } else if k == 5 {
            vec![47u8, 104u8, 111u8, 114u8, 110u8, 101u8, 114u8, 45u8, 98u8, 104u8, 116u8]
        } else if k == 6 {
            vec![47u8, 102u8, 111u8, 117u8, 114u8, 105u8, 101u8, 114u8, 45u8, 98u8, 104u8, 112u8]
        } else if k == 7 {
            vec![47u8, 102u8, 111u8, 117u8, 114u8, 105u8, 101u8, 114u8, 45u8, 119u8, 104u8, 112u8]
        } else if k == 8 {
            vec![47u8, 115u8, 116u8, 105u8, 102u8, 102u8, 110u8, 101u8, 115u8, 115u8, 45u8, 116u8, 105u8, 109u8, 101u8, 115u8, 104u8, 105u8, 102u8, 116u8]
        } else if k == 9 {
            vec![47u8, 115u8, 116u8, 105u8, 102u8, 102u8, 110u8, 101u8, 115u8, 115u8]
        } else if k == 10 {
            vec![47u8, 104u8, 97u8, 108u8, 108u8]
        } else if k == 11 {
            vec![47u8, 102u8, 108u8, 111u8, 119u8, 45u8, 114u8, 101u8, 103u8, 105u8, 109u8, 101u8, 115u8]
        } else {
            vec![]
        }
    };
    assert(v@ =~= analysis_page(k as int));
    v
}

fn occurs_at_exec(h: &[u8], n: &[u8], i: usize) -> (r: bool)
    ensures
        r == occurs_at(h@, n@, i as int),
{
    if i > h.len() || n.len() > h.len() - i {
        return false;
    }
    let hl = h.len();
    let mut j: usize = 0;
    while j < n.len()
        invariant
            hl == h@.len(),
            i + n@.len() <= h@.len(),
            j <= n@.len(),
            h@.subrange(i as int, i + j) =~= n@.subrange(0, j as int),
        decreases n@.len() - j,
    {
        assert(i + j < hl);
        let idx = i + j;
        if h[idx] != n[j] {
            assert(h@.subrange(i as int, i + n@.len())[j as int] != n@[j as int]);
            return false;
        }
        j = j + 1;
    }
    assert(h@.subrange(i as int, i + n@.len()) =~= n@);
    true
}

fn find_exec(h: &[u8], n: &[u8]) -> (r: Option<usize>)
    ensures
        match r {
            Some(i) => find_from(h@, n@, 0) == Some(i as int),
            None => find_from(h@, n@, 0) is None,
        },
{
    if n.len() == 0 {
        assert(h@.subrange(0, 0) =~= n@);
        assert(occurs_at(h@, n@, 0));
        return Some(0);
    }
    if n.len() > h.len() {
        return None;
    }
    let mut i: usize = 0;
    while i <= h.len() - n.len()
        invariant
            0 < n@.len() <= h@.len(),
            i <= h@.len() - n@.len() + 1,
            find_from(h@, n@, 0) == find_from(h@, n@, i as int),
        decreases h@.len() + 1 - i,
    {
        if occurs_at_exec(h, n, i) {
            return Some(i);
        }
        i = i + 1;
    }
    None
}

fn ends_with_exec(h: &[u8], s: &[u8]) -> (r: bool)
    ensures
        r == ends_with(h@, s@),
{
    if s.len() > h.len() {
        return false;
    }
    let r = occurs_at_exec(h, s, h.len() - s.len());
    r
}

fn page_index_exec(url: &[u8], k: usize) -> (r: usize)
    requires
        k <= url@.len(),
    ensures
        r == page_index(url@.subrange(k as int, url@.len() as int)),
{
    let ghost end = url@.subrange(k as int, url@.len() as int);
    let mut j: usize = 1;
    while j <= 11
        invariant
            1 <= j <= 12,
            k <= url@.len(),
            end == url@.subrange(k as int, url@.len() as int),
            forall|m: int| 1 <= m < j ==> end != analysis_page(m),
        decreases 12 - j,
    {
        let p = page_bytes(j);
        if p.len() == url.len() - k && occurs_at_exec(url, p.as_slice(), k) {
            assert(end =~= analysis_page(j as int));
            return j;
        }
        proof {
            if end == analysis_page(j as int) {
                assert(url@.subrange(k as int, k + p@.len()) =~= end);
            }
        }
        j = j + 1;
    }
    0
}

fn push_range(out: &mut Vec<u8>, src: &[u8], from: usize, to: usize)
    requires
        from <= to <= src@.len(),
    ensures
        final(out)@ == old(out)@ + src@.subrange(from as int, to as int),
{
    let mut i = from;
    while i < to
        invariant
            from <= i <= to <= src@.len(),
            out@ == old(out)@ + src@.subrange(from as int, i as int),
        decreases to - i,
    {
        out.push(src[i]);
        i = i + 1;
        assert(out@ =~= old(out)@ + src@.subrange(from as int, i as int));
    }
}

/// Where `url` is cut for the cycle `id` (see `cycle_split`); the caller checks
/// that the cut is on a character boundary before switching pages.
pub fn cycle_url_split_point(url: &str, id: i16) -> (r: Option<usize>)
    ensures
        match r {
            Some(k) => cycle_split(url.spec_bytes(), id) == Some(k as int),
            None => cycle_split(url.spec_bytes(), id) is None || cycle_split(url.spec_bytes(), id).unwrap() > usize::MAX,
        },
{
    let bytes = url.as_bytes();
    let marker = marker_bytes();
    match find_exec(bytes, marker.as_slice()) {
        None => None,
        Some(i) => {
            let digits = decimal_i16(id);
            if i > usize::MAX - 8 || digits.len() > usize::MAX - 8 - i {
                None
            } else {
                Some(i + 8 + digits.len())
            }
        },
    }
}

/// Whether the cut of `url` for the cycle `id` falls between characters (see
/// [`cut_on_char_boundary`]); the switching functions need it.
pub fn cut_on_char_boundary_exec(url: &str, id: i16) -> (r: bool)
    ensures
        r == cut_on_char_boundary(url.spec_bytes(), id),
{
    let bytes = url.as_bytes();
    let n = bytes.len();
    assert(n == url.spec_bytes().len());
    match cycle_url_split_point(url, id) {
        None => true,
        Some(k) => {
            if k >= n {
                true
            } else {
                let b = bytes[k];
                !(0x80 <= b && b <= 0xbf)
            }
        },
    }
}

/// The url of the analysis page after the one that `url` shows, for the cycle
/// `id` (its info page comes first, flow regimes last).
pub fn next_analysis(url: &str, id: i16) -> (r: Result<Vec<u8>, NavError>)
    requires
        cut_on_char_boundary(url.spec_bytes(), id),
    ensures
        match r {
            Ok(v) => spec_next_analysis(url.spec_bytes(), id) == Ok::<Seq<u8>, NavError>(v@),
            Err(e) => spec_next_analysis(url.spec_bytes(), id) == Err::<Seq<u8>, NavError>(e),
        },
{
    let bytes = url.as_bytes();
    let bl = bytes.len();
    let split = cycle_url_split_point(url, id);
    let k = match split {
        None => {
            assert(bl == bytes@.len());
            return Err(NavError::BadUrl);
        },
        Some(k) => k,
    };
    if k > bytes.len() {
        return Err(NavError::BadUrl);
    }
    let mut info_end = marker_bytes();
    let mut digits = decimal_i16(id);
    info_end.append(&mut digits);
    assert(info_end@ == cycle_info_end(id));
    let mut out: Vec<u8> = Vec::new();
    push_range(&mut out, bytes, 0, k);
    if ends_with_exec(bytes, info_end.as_slice()) {
        let mut p = page_bytes(1);
        out.append(&mut p);
        return Ok(out);
    }
    let j = page_index_exec(bytes, k);
    if 1 <= j && j <= 10 {
        let mut p = page_bytes(j + 1);
        out.append(&mut p);
        Ok(out)
    } else {
        Err(NavError::LastAnalysis)
    }
}

/// The url of the analysis page before the one that `url` shows, for the
/// cycle `id`.
pub fn previous_analysis(url: &str, id: i16) -> (r: Result<Vec<u8>, NavError>)
    requires
        cut_on_char_boundary(url.spec_bytes(), id),
    ensures
        match r {
            Ok(v) => spec_previous_analysis(url.spec_bytes(), id) == Ok::<Seq<u8>, NavError>(v@),
            Err(e) => spec_previous_analysis(url.spec_bytes(), id) == Err::<Seq<u8>, NavError>(e),
        },
{
    let bytes = url.as_bytes();
    let bl = bytes.len();
    let split = cycle_url_split_point(url, id);
    let k = match split {
        None => {
            assert(bl == bytes@.len());
            return Err(NavError::BadUrl);
        },
        Some(k) => k,
    };
    if k > bytes.len() {
        return Err(NavError::BadUrl);
    }
    let mut out: Vec<u8> = Vec::new();
    push_range(&mut out, bytes, 0, k);
    let j = page_index_exec(bytes, k);
    if 2 <= j && j <= 11 {
        let mut p = page_bytes(j - 1);
        out.append(&mut p);
        return Ok(out);
    }
    if j == 1 {
        assert(out@ =~= bytes@.subrange(0, k as int));
        return Ok(out);
    }
    let mut info_end = marker_bytes();
    let mut digits = decimal_i16(id);
    info_end.append(&mut digits);
    if ends_with_exec(bytes, info_end.as_slice()) {
        Err(NavError::FirstAnalysis)
    } else {
        Err(NavError::BadUrl)
    }
}

fn replace_cycle_id(url: &str, id: i16, new_id: i16) -> (r: Result<Vec<u8>, NavError>)
    requires
        cut_on_char_boundary(url.spec_bytes(), id),
    ensures
        match r {
            Ok(v) => with_cycle_id(url.spec_bytes(), id, new_id as int) == Ok::<Seq<u8>, NavError>(v@),
            Err(e) => with_cycle_id(url.spec_bytes(), id, new_id as int) == Err::<Seq<u8>, NavError>(e),
        },
{
    let bytes = url.as_bytes();
    let marker = marker_bytes();
    let i = match find_exec(bytes, marker.as_slice()) {
        None => {
            return Err(NavError::BadUrl);
        },
        Some(i) => i,
    };
    let digits = decimal_i16(id);
    proof {
        lemma_find_from_sound(bytes@, marker@, 0);
    }
    if digits.len() > bytes.len() - i - 8 {
        return Err(NavError::BadUrl);
    }
    let k2 = i + 8 + digits.len();
    let mut out: Vec<u8> = Vec::new();
    push_range(&mut out, bytes, 0, i + 8);
    let mut new_digits = decimal_i16(new_id);
    out.append(&mut new_digits);
    push_range(&mut out, bytes, k2, bytes.len());
    Ok(out)
}

/// The url of the same page for the next cycle; refused for the last cycle.
pub fn next_cycle(url: &str, id: i16, is_last: bool) -> (r: Result<Vec<u8>, NavError>)
    requires
        !is_last ==> cut_on_char_boundary(url.spec_bytes(), id),
        is_last || id < i16::MAX,
    ensures
        match r {
            Ok(v) => spec_next_cycle(url.spec_bytes(), id, is_last) == Ok::<Seq<u8>, NavError>(v@),
            Err(e) => spec_next_cycle(url.spec_bytes(), id, is_last) == Err::<Seq<u8>, NavError>(e),
        },
{
    if is_last {
        return Err(NavError::LastCycle);
    }
    replace_cycle_id(url, id, id + 1)
}

/// The url of the same page for the previous cycle; refused for cycle 1.
pub fn previous_cycle(url: &str, id: i16) -> (r: Result<Vec<u8>, NavError>)
    requires
        id != 1 ==> cut_on_char_boundary(url.spec_bytes(), id),
        id > i16::MIN,
    ensures
        match r {
            Ok(v) => spec_previous_cycle(url.spec_bytes(), id) == Ok::<Seq<u8>, NavError>(v@),
            Err(e) => spec_previous_cycle(url.spec_bytes(), id) == Err::<Seq<u8>, NavError>(e),
        },
{
    if id == 1 {
        return Err(NavError::FirstCycle);
    }
    replace_cycle_id(url, id, id - 1)
}

// ---------------------------------------------------------------------------
// laws

/// The cycle id that follows the first `"/cycles/"` of `url` is `id`.
pub open spec fn names_cycle(url: Seq<u8>, id: i16) -> bool {
    match find_from(url, cycles_marker(), 0) {
        Some(i) => {
            &&& i + 8 + spec_decimal_i16(id as int).len() <= url.len()
            &&& url.subrange(i + 8, i + 8 + spec_decimal_i16(id as int).len()) == spec_decimal_i16(
                id as int,
            )
        },
        None => false,
    }
}

/// The page part of a cycle url names the info page or an analysis page.
pub open spec fn names_cycle_page(url: Seq<u8>, id: i16) -> bool {
    match cycle_split(url, id) {
        Some(k) => k == url.len() || (k < url.len() && 1 <= page_index(
            url.subrange(k, url.len() as int),
        ) <= 11),
        None => false,
    }
}

proof fn lemma_find_prefix_stable(h1: Seq<u8>, h2: Seq<u8>, n: Seq<u8>, p: int, x: int)
    requires
        0 <= x,
        find_from(h1, n, x) matches Some(i) && i + n.len() <= p,
        p <= h1.len(),
        p <= h2.len(),
        h1.subrange(0, p) == h2.subrange(0, p),
    ensures
        find_from(h2, n, x) == find_from(h1, n, x),
    decreases h1.len() + 1 - x,
{
    lemma_find_from_sound(h1, n, x);
    assert(x + n.len() <= p);
    assert(h1.subrange(x, x + n.len()) =~= h2.subrange(x, x + n.len())) by {
        assert forall|m: int| 0 <= m < n.len() implies #[trigger] h1.subrange(x, x + n.len())[m]
            == h2.subrange(x, x + n.len())[m] by {
            assert(h1.subrange(x, x + n.len())[m] == h1[x + m]);
            assert(h2.subrange(x, x + n.len())[m] == h2[x + m]);
            assert(h1.subrange(0, p)[x + m] == h1[x + m]);
            assert(h2.subrange(0, p)[x + m] == h2[x + m]);
            assert(h1.subrange(0, p)[x + m] == h2.subrange(0, p)[x + m]);
        }
    }
    if !occurs_at(h1, n, x) {
        lemma_find_prefix_stable(h1, h2, n, p, x + 1);
    }
}

proof fn lemma_pages()
    ensures
        forall|j: int| 1 <= j <= 11 ==> #[trigger] page_index(analysis_page(j)) == j,
        forall|j: int|
            #![trigger analysis_page(j)]
            1 <= j <= 11 ==> analysis_page(j).len() > 1 && 97 <= analysis_page(j).last() <= 122,
{
    assert forall|j: int| 1 <= j <= 11 implies #[trigger] page_index(analysis_page(j)) == j by {
        if j == 1 {
        } else if j == 2 {
            assert(analysis_page(2) != analysis_page(1));
        } else if j == 3 {
            assert(analysis_page(3) != analysis_page(1));
            assert(analysis_page(3) != analysis_page(2));
        } else if j == 4 {
            assert(analysis_page(4)[8] != analysis_page(3)[8]);
        } else if j == 5 {
            assert(analysis_page(5)[10] != analysis_page(3)[10]);
            assert(analysis_page(5)[8] != analysis_page(4)[8]);
        } else if j == 6 {
            assert(analysis_page(6).len() != analysis_page(3).len());
        } else if j == 7 {
            assert(analysis_page(7)[9] != analysis_page(6)[9]);
        } else if j == 9 {
            assert(analysis_page(9).len() != analysis_page(8).len());
        } else if j == 10 {
            assert(analysis_page(10)[2] != analysis_page(5)[2]);
        } else if j == 11 {
            assert(analysis_page(11)[2] != analysis_page(6)[2]);
        }
    }
}

proof fn lemma_page_not_info(url: Seq<u8>, id: i16, k: int, j: int)
    requires
        0 <= k <= url.len(),
        1 <= j <= 11,
        url.subrange(k, url.len() as int) == analysis_page(j),
    ensures
        !ends_with(url, cycle_info_end(id)),
{
    lemma_pages();
    lemma_decimal_i16_shape(id as int);
    let e = cycle_info_end(id);
    assert(analysis_page(j).len() > 1);
    assert(url.last() == analysis_page(j).last()) by {
        assert(url.subrange(k, url.len() as int)[url.len() - k - 1] == url.last());
    }
    if ends_with(url, e) {
        assert(e.last() == spec_decimal_i16(id as int).last());
        assert(url.subrange(url.len() - e.len(), url.len() as int)[e.len() - 1] == url.last());
    }
}

proof fn lemma_split_of_rebuilt(url: Seq<u8>, id: i16, k: int, tail: Seq<u8>)
    requires
        cycle_split(url, id) == Some(k),
        k <= url.len(),
    ensures
        cycle_split(url.subrange(0, k) + tail, id) == Some(k),
        (url.subrange(0, k) + tail).subrange(0, k) == url.subrange(0, k),
        (url.subrange(0, k) + tail).subrange(k, k + tail.len()) == tail,
{
    let v = url.subrange(0, k) + tail;
    let i = find_from(url, cycles_marker(), 0).unwrap();
    lemma_find_from_sound(url, cycles_marker(), 0);
    assert(v.subrange(0, k) =~= url.subrange(0, k));
    assert(v.subrange(k, k + tail.len()) =~= tail);
    lemma_find_prefix_stable(url, v, cycles_marker(), k, 0);
}

/// Moving to the next analysis page and back returns to the page one started
/// from, for a url that names a cycle's info page or one of its analysis pages.
pub proof fn next_then_previous_analysis(url: Seq<u8>, id: i16)
    requires
        spec_next_analysis(url, id) is Ok,
        names_cycle_page(url, id),
    ensures
        spec_previous_analysis(spec_next_analysis(url, id).unwrap(), id) == Ok::<Seq<u8>, NavError>(url),
{
    lemma_pages();
    lemma_find_from_sound(url, cycles_marker(), 0);
    let k = cycle_split(url, id).unwrap();
    let base = url.subrange(0, k);
    let end = url.subrange(k, url.len() as int);
    let v = spec_next_analysis(url, id).unwrap();
    if k < url.len() {
        lemma_page_not_info(url, id, k, page_index(end));
        let j = page_index(end);
        assert(end == analysis_page(j));
        lemma_split_of_rebuilt(url, id, k, analysis_page(j + 1));
        assert(v.subrange(k, v.len() as int) =~= analysis_page(j + 1));
        assert(base + analysis_page(j) =~= url);
    } else {
        lemma_split_of_rebuilt(url, id, k, analysis_page(1));
        assert(v.subrange(k, v.len() as int) =~= analysis_page(1));
        assert(base =~= url);
    }
}

/// Moving to the previous analysis page and forward again returns to the page
/// one started from, when the url names the cycle `id`.
pub proof fn previous_then_next_analysis(url: Seq<u8>, id: i16)
    requires
        spec_previous_analysis(url, id) is Ok,
        names_cycle(url, id),
    ensures
        spec_next_analysis(spec_previous_analysis(url, id).unwrap(), id) == Ok::<Seq<u8>, NavError>(url),
{
    lemma_pages();
    lemma_decimal_i16_shape(id as int);
    let k = cycle_split(url, id).unwrap();
    let i = find_from(url, cycles_marker(), 0).unwrap();
    lemma_find_from_sound(url, cycles_marker(), 0);
    let base = url.subrange(0, k);
    let end = url.subrange(k, url.len() as int);
    let j = page_index(end);
    let v = spec_previous_analysis(url, id).unwrap();
    assert(end == analysis_page(j));
    assert(base + analysis_page(j) =~= url);
    if j >= 2 {
        lemma_split_of_rebuilt(url, id, k, analysis_page(j - 1));
        assert(v.subrange(k, v.len() as int) =~= analysis_page(j - 1));
        lemma_page_not_info(v, id, k, j - 1);
    } else {
        lemma_split_of_rebuilt(url, id, k, seq![]);
        assert(v =~= base);
        let e = cycle_info_end(id);
        let d = spec_decimal_i16(id as int);
        assert(base.subrange(base.len() - e.len(), base.len() as int) =~= e) by {
            assert(url.subrange(i, i + 8) == cycles_marker());
            assert forall|m: int| 0 <= m < e.len() implies #[trigger] base.subrange(
                base.len() - e.len(),
                base.len() as int,
            )[m] == e[m] by {
                if m < 8 {
                    assert(url.subrange(i, i + 8)[m] == url[i + m]);
                } else {
                    assert(url.subrange(i + 8, i + 8 + d.len())[m - 8] == url[i + m]);
                }
            }
        }
        assert(v.subrange(k, v.len() as int) =~= seq![]);
    }
}

/// Stepping to the next cycle and back to the previous one returns the url one
/// started from, when it names the cycle `id`.
pub proof fn next_then_previous_cycle(url: Seq<u8>, id: i16)
    requires
        spec_next_cycle(url, id, false) is Ok,
        names_cycle(url, id),
        id < i16::MAX,
        id != 0,
    ensures
        spec_previous_cycle(spec_next_cycle(url, id, false).unwrap(), (id + 1) as i16)
            == Ok::<Seq<u8>, NavError>(url),
{
    let i = find_from(url, cycles_marker(), 0).unwrap();
    lemma_find_from_sound(url, cycles_marker(), 0);
    let d = spec_decimal_i16(id as int);
    let d1 = spec_decimal_i16(id + 1);
    let k2 = i + 8 + d.len();
    let v = spec_next_cycle(url, id, false).unwrap();
    assert(v == url.subrange(0, i + 8) + d1 + url.subrange(k2, url.len() as int));
    assert(v.subrange(0, i + 8) =~= url.subrange(0, i + 8));
    lemma_find_prefix_stable(url, v, cycles_marker(), i + 8, 0);
    let k2v = i + 8 + d1.len();
    assert(v.subrange(k2v, v.len() as int) =~= url.subrange(k2, url.len() as int));
    assert(url.subrange(0, i + 8) + d + url.subrange(k2, url.len() as int) =~= url) by {
        assert(url.subrange(i + 8, k2) == d);
    }
}

/// Stepping to the previous cycle and on to the next one returns the url one
/// started from, when it names the cycle `id`.
pub proof fn previous_then_next_cycle(url: Seq<u8>, id: i16)
    requires
        spec_previous_cycle(url, id) is Ok,
        names_cycle(url, id),
        id > i16::MIN,
    ensures
        spec_next_cycle(spec_previous_cycle(url, id).unwrap(), (id - 1) as i16, false)
            == Ok::<Seq<u8>, NavError>(url),
{
    let i = find_from(url, cycles_marker(), 0).unwrap();
    lemma_find_from_sound(url, cycles_marker(), 0);
    let d = spec_decimal_i16(id as int);
    let d1 = spec_decimal_i16(id - 1);
    let k2 = i + 8 + d.len();
    let v = spec_previous_cycle(url, id).unwrap();
    assert(v == url.subrange(0, i + 8) + d1 + url.subrange(k2, url.len() as int));
    assert(v.subrange(0, i + 8) =~= url.subrange(0, i + 8));
    lemma_find_prefix_stable(url, v, cycles_marker(), i + 8, 0);
    let k2v = i + 8 + d1.len();
    assert(v.subrange(k2v, v.len() as int) =~= url.subrange(k2, url.len() as int));
    assert(url.subrange(0, i + 8) + d + url.subrange(k2, url.len() as int) =~= url) by {
        assert(url.subrange(i + 8, k2) == d);
    }
}

} // verus!
