use vstd::prelude::*;
use crate::units::{ComputationMode, Quantity};

verus! {

/// The storage width of a tag's values.
#[derive(PartialEq, Eq, Structural, Clone, Copy, Debug)]
pub enum PointValueSize {
    F32,
    F64,
}

/// A series of a well: built-in tags have ids 1 to 7 (bhp, bht, whp, rate,
/// density, total volume, injectivity), custom tags larger ids; the reduced
/// copy of a series is stored under the negated id.
#[derive(PartialEq, Eq, Structural, Clone, Copy, Debug)]
pub struct Tag {
    pub id: i16,
    pub value_size: PointValueSize,
}

/// A tag known to hold single-precision values.
#[derive(PartialEq, Eq, Structural, Clone, Copy, Debug)]
pub struct TagF32 {
    pub id: i16,
}

/// A tag known to hold double-precision values.
#[derive(PartialEq, Eq, Structural, Clone, Copy, Debug)]
pub struct TagF64 {
    pub id: i16,
}

/// A tag defined by the client for one well.
#[derive(Clone, Debug)]
pub struct CustomTag {
    pub well: i16,
    pub id: i16,
    pub value_size: PointValueSize,
    pub units_text: String,
    pub name: String,
    pub description: String,
}

/// The id of the only built-in tag with double-precision values (total volume).
pub const VOLUME_TAG: i16 = 6;

/// The largest id of a built-in tag.
pub const LAST_BUILTIN_TAG: i16 = 7;

pub open spec fn abs_id(id: i16) -> int {
    if id < 0 {
        -id
    } else {
        id as int
    }
}

pub open spec fn builtin_size(k: int) -> PointValueSize {
    if k == 6 {
        PointValueSize::F64
    } else {
        PointValueSize::F32
    }
}

/// The built-in tags in the order in which the reducer visits them.
pub open spec fn spec_builtin_tags() -> Seq<Tag> {
    Seq::new(7, |i: int| Tag { id: (i + 1) as i16, value_size: builtin_size(i + 1) })
}

/// The built-in tags, ids 1 to 7, with their value sizes.
pub fn builtin_tags() -> (r: Vec<Tag>)
    ensures
        r@ == spec_builtin_tags(),
{
    let mut v: Vec<Tag> = Vec::new();
    let mut k: i16 = 1;
    while k <= LAST_BUILTIN_TAG
        invariant
            1 <= k <= 8,
            v@.len() == k - 1,
            forall|j: int| 0 <= j < v@.len() ==> v@[j] == spec_builtin_tags()[j],
        decreases 8 - k,
    {
        let size = if k == VOLUME_TAG {
            PointValueSize::F64
        } else {
            PointValueSize::F32
        };
        v.push(Tag { id: k, value_size: size });
        k = k + 1;
    }
    assert(v@ =~= spec_builtin_tags());
    v
}

// ---------------------------------------------------------------------------
// resolving the tag of a url

/// How a tag id of a url is resolved.
#[derive(PartialEq, Eq, Structural, Clone, Copy, Debug)]
pub enum TagLookup {
    /// a built-in tag or its reduced copy
    Builtin,
    /// id zero, or -32768 (whose magnitude is no `i16`), names no tag
    Invalid,
    /// a custom tag, to be looked up by this (positive) id
    Custom(i16),
}

pub open spec fn spec_tag_lookup(id: i16) -> TagLookup {
    if -7 <= id <= 7 && id != 0 {
        TagLookup::Builtin
    } else if id == 0 || id == i16::MIN {
        TagLookup::Invalid
    } else {
        TagLookup::Custom(abs_id(id) as i16)
    }
}

/// Where the tag `id` of a url is to be found.
pub fn tag_lookup(id: i16) -> (r: TagLookup)
    ensures
        r == spec_tag_lookup(id),
{
    if -7 <= id && id <= 7 && id != 0 {
        TagLookup::Builtin
    } else if id == 0 || id == i16::MIN {
        TagLookup::Invalid
    } else if id < 0 {
        TagLookup::Custom(-id)
    } else {
        TagLookup::Custom(id)
    }
}

pub open spec fn spec_resolve_tag_f32(id: i16, custom: Option<PointValueSize>) -> Option<TagF32> {
    match spec_tag_lookup(id) {
        TagLookup::Builtin => if abs_id(id) == 6 {
            None
        } else {
            Some(TagF32 { id })
        },
        TagLookup::Invalid => None,
        TagLookup::Custom(_) => if custom == Some(PointValueSize::F32) {
            Some(TagF32 { id })
        } else {
            None
        },
    }
}

pub open spec fn spec_resolve_tag_f64(id: i16, custom: Option<PointValueSize>) -> Option<TagF64> {
    match spec_tag_lookup(id) {
        TagLookup::Builtin => if abs_id(id) == 6 {
            Some(TagF64 { id })
        } else {
            None
        },
        TagLookup::Invalid => None,
        TagLookup::Custom(_) => if custom == Some(PointValueSize::F64) {
            Some(TagF64 { id })
        } else {
            None
        },
    }
}

/// The single-precision tag named by `id` in a url; `custom` is the value
/// size of the custom tag found under `|id|`, when `id` names one.
pub fn resolve_tag_f32(id: i16, custom: Option<PointValueSize>) -> (r: Option<TagF32>)
    ensures
        r == spec_resolve_tag_f32(id, custom),
{
    match tag_lookup(id) {
        TagLookup::Builtin => if id == 6 || id == -6 {
            None
        } else {
            Some(TagF32 { id })
        },
        TagLookup::Invalid => None,
        TagLookup::Custom(_) => match custom {
            Some(PointValueSize::F32) => Some(TagF32 { id }),
            _ => None,
        },
    }
}

/// The double-precision tag named by `id` in a url; `custom` as for
/// [`resolve_tag_f32`].
pub fn resolve_tag_f64(id: i16, custom: Option<PointValueSize>) -> (r: Option<TagF64>)
    ensures
        r == spec_resolve_tag_f64(id, custom),
{
    match tag_lookup(id) {
        TagLookup::Builtin => if id == 6 || id == -6 {
            Some(TagF64 { id })
        } else {
            None
        },
        TagLookup::Invalid => None,
        TagLookup::Custom(_) => match custom {
            Some(PointValueSize::F64) => Some(TagF64 { id }),
            _ => None,
        },
    }
}

// ---------------------------------------------------------------------------
// unit conversion of a tag's values

pub open spec fn spec_f32_tag_quantity(id: i16) -> Quantity {
    let k = abs_id(id);
    if k > 7 {
        Quantity::Unconverted
    } else if k == 1 || k == 3 {
        Quantity::Pressure
    } else if k == 2 {
        Quantity::Unconverted
    } else if k == 4 {
        Quantity::Rate
    } else if k == 5 {
        Quantity::Density
    } else {
        Quantity::Injectivity
    }
}

/// What the values of a single-precision tag measure, for unit conversion:
/// temperature and custom tags are kept as they are.
pub fn f32_tag_quantity(id: i16) -> (r: Quantity)
    requires
        id != i16::MIN,
        id != 0,
        abs_id(id) != 6,
    ensures
        r == spec_f32_tag_quantity(id),
{
    let k: i16 = if id < 0 {
        -id
    } else {
        id
    };
    if k > 7 {
        Quantity::Unconverted
    } else if k == 1 || k == 3 {
        Quantity::Pressure
    } else if k == 2 {
        Quantity::Unconverted
    } else if k == 4 {
        Quantity::Rate
    } else if k == 5 {
        Quantity::Density
    } else {
        Quantity::Injectivity
    }
}

/// What the values of a double-precision tag measure: total volume, or a
/// custom tag's own unit.
pub fn f64_tag_quantity(id: i16) -> (r: Quantity)
    requires
        id != i16::MIN,
        abs_id(id) == 6 || abs_id(id) > 7,
    ensures
        abs_id(id) == 6 ==> r == Quantity::Volume,
        abs_id(id) > 7 ==> r == Quantity::Unconverted,
{
    if id == 6 || id == -6 {
        Quantity::Volume
    } else {
        Quantity::Unconverted
    }
}

// ---------------------------------------------------------------------------
// appending client points

/// The well quantity that a built-in tag records.
#[derive(PartialEq, Eq, Structural, Clone, Copy, Debug)]
pub enum WellQuantity {
    Bhp,
    Bht,
    Whp,
    Rate,
    Density,
    Volume,
    Injectivity,
}

/// The computation modes of a well's seven quantities.
#[derive(PartialEq, Eq, Structural, Clone, Copy, Debug)]
pub struct WellModes {
    pub bhp: ComputationMode,
    pub bht: ComputationMode,
    pub whp: ComputationMode,
    pub rate: ComputationMode,
    pub rho: ComputationMode,
    pub vtot: ComputationMode,
    pub ii: ComputationMode,
}

pub open spec fn mode_of(m: WellModes, q: WellQuantity) -> ComputationMode {
    match q {
        WellQuantity::Bhp => m.bhp,
        WellQuantity::Bht => m.bht,
        WellQuantity::Whp => m.whp,
        WellQuantity::Rate => m.rate,
        WellQuantity::Density => m.rho,
        WellQuantity::Volume => m.vtot,
        WellQuantity::Injectivity => m.ii,
    }
}

/// Which appended values are kept, beside being finite and normal.
#[derive(PartialEq, Eq, Structural, Clone, Copy, Debug)]
pub enum ValueRule {
    Positive,
    NonNegative,
    AnyFinite,
}

/// How the points appended to one tag are checked and stored.
#[derive(PartialEq, Eq, Structural, Clone, Copy, Debug)]
pub struct AppendRule {
    pub value_rule: ValueRule,
    /// the quantity whose units the client's values are converted from
    pub quantity: Quantity,
}

/// Why points cannot be appended: the well does not take the quantity
/// from its client.
#[derive(PartialEq, Eq, Structural, Clone, Copy, Debug)]
pub struct NotClientData {
    pub quantity: WellQuantity,
}

impl NotClientData {
    /// The name under which the refusal message names the tag.
    pub fn tag_label(&self) -> (r: &'static str)
        ensures
            self.quantity == WellQuantity::Bhp ==> r@ == "bhp"@,
            self.quantity == WellQuantity::Bht ==> r@ == "bht"@,
            self.quantity == WellQuantity::Whp ==> r@ == "whp"@,
            self.quantity == WellQuantity::Rate ==> r@ == "rate"@,
            self.quantity == WellQuantity::Density ==> r@ == "density"@,
            self.quantity == WellQuantity::Volume ==> r@ == "TotalVolume"@,
            self.quantity == WellQuantity::Injectivity ==> r@ == "injectivity"@,
    {
        match self.quantity {
            WellQuantity::Bhp => "bhp",
            WellQuantity::Bht => "bht",
            WellQuantity::Whp => "whp",
            WellQuantity::Rate => "rate",
            WellQuantity::Density => "density",
            WellQuantity::Volume => "TotalVolume",
            WellQuantity::Injectivity => "injectivity",
        }
    }
}

pub open spec fn builtin_quantity(k: int) -> WellQuantity {
    if k == 1 {
        WellQuantity::Bhp
    } else if k == 2 {
        WellQuantity::Bht
    } else if k == 3 {
        WellQuantity::Whp
    } else if k == 4 {
        WellQuantity::Rate
    } else if k == 5 {
        WellQuantity::Density
    } else if k == 6 {
        WellQuantity::Volume
    } else {
        WellQuantity::Injectivity
    }
}

pub open spec fn builtin_rule(k: int) -> AppendRule {
    if k == 1 {
        AppendRule { value_rule: ValueRule::Positive, quantity: Quantity::Pressure }
    } else if k == 2 {
        AppendRule { value_rule: ValueRule::Positive, quantity: Quantity::Unconverted }
    } else if k == 3 {
        AppendRule { value_rule: ValueRule::NonNegative, quantity: Quantity::Pressure }
    } else if k == 4 {
        AppendRule { value_rule: ValueRule::NonNegative, quantity: Quantity::Rate }
    } else if k == 5 {
        AppendRule { value_rule: ValueRule::Positive, quantity: Quantity::Density }
    } else if k == 6 {
        AppendRule { value_rule: ValueRule::NonNegative, quantity: Quantity::Volume }
    } else {
        AppendRule { value_rule: ValueRule::Positive, quantity: Quantity::Injectivity }
    }
}

pub open spec fn spec_append_rule(tag_id: i16, modes: WellModes) -> Result<AppendRule, NotClientData> {
    if 1 <= tag_id <= 7 {
        if mode_of(modes, builtin_quantity(tag_id as int)) != ComputationMode::Client {
            Err(NotClientData { quantity: builtin_quantity(tag_id as int) })
        } else {
            Ok(builtin_rule(tag_id as int))
        }
    } else {
        Ok(AppendRule { value_rule: ValueRule::AnyFinite, quantity: Quantity::Unconverted })
    }
}

/// How points appended to the tag `tag_id` of a well with `modes` are
/// checked: a built-in quantity is accepted only when the client provides
/// it; custom tags take any finite value, stored as sent.
pub fn append_rule(tag_id: i16, modes: &WellModes) -> (r: Result<AppendRule, NotClientData>)
    ensures
        r == spec_append_rule(tag_id, *modes),
{
    if 1 <= tag_id && tag_id <= 7 {
        let (q, mode, rule) = if tag_id == 1 {
            (WellQuantity::Bhp, modes.bhp, AppendRule { value_rule: ValueRule::Positive, quantity: Quantity::Pressure })
        } else if tag_id == 2 {
            (WellQuantity::Bht, modes.bht, AppendRule { value_rule: ValueRule::Positive, quantity: Quantity::Unconverted })
        } else if tag_id == 3 {
            (WellQuantity::Whp, modes.whp, AppendRule { value_rule: ValueRule::NonNegative, quantity: Quantity::Pressure })
        } else if tag_id == 4 {
            (WellQuantity::Rate, modes.rate, AppendRule { value_rule: ValueRule::NonNegative, quantity: Quantity::Rate })
        } else if tag_id == 5 {
            (WellQuantity::Density, modes.rho, AppendRule { value_rule: ValueRule::Positive, quantity: Quantity::Density })
        } else if tag_id == 6 {
            (WellQuantity::Volume, modes.vtot, AppendRule { value_rule: ValueRule::NonNegative, quantity: Quantity::Volume })
        } else {
            (WellQuantity::Injectivity, modes.ii, AppendRule { value_rule: ValueRule::Positive, quantity: Quantity::Injectivity })
        };
        if mode != ComputationMode::Client {
            Err(NotClientData { quantity: q })
        } else {
            Ok(rule)
        }
    } else {
        Ok(AppendRule { value_rule: ValueRule::AnyFinite, quantity: Quantity::Unconverted })
    }
}

/// The indices of the appended points that are kept, and the time of the
/// last one kept, after looking at the first `n` points: a point is kept
/// when its value passes the tag's rule and its time is later than that of
/// the last point stored or kept.
pub open spec fn kept_after(last: int, times: Seq<i32>, valid: Seq<bool>, n: int) -> (Seq<int>, int)
    decreases n,
{
    if n <= 0 {
        (seq![], last)
    } else {
        let (s, l) = kept_after(last, times, valid, n - 1);
        if valid[n - 1] && times[n - 1] > l {
            (s.push(n - 1), times[n - 1] as int)
        } else {
            (s, l)
        }
    }
}

pub open spec fn spec_kept(last: Option<i32>, times: Seq<i32>, valid: Seq<bool>) -> Seq<int> {
    let l: int = match last {
        Some(t) => t as int,
        None => 0,
    };
    kept_after(l, times, valid, times.len() as int).0
}

/// Which of the appended points are stored: `times` are the points' times in
/// the order sent, `valid` whether each value passes the tag's rule, and
/// `last` the time of the tag's last stored point, if any.
pub fn kept_points(last: Option<i32>, times: &Vec<i32>, valid: &Vec<bool>) -> (r: Vec<usize>)
    requires
        times@.len() == valid@.len(),
    ensures
        r@.map_values(|i: usize| i as int) == spec_kept(last, times@, valid@),
{
    let mut l: i32 = match last {
        Some(t) => t,
        None => 0,
    };
    let ghost l0: int = l as int;
    let mut r: Vec<usize> = Vec::new();
    let mut i: usize = 0;
    while i < times.len()
        invariant
            times@.len() == valid@.len(),
            i <= times@.len(),
            kept_after(l0, times@, valid@, i as int) == (r@.map_values(|k: usize| k as int), l as int),
        decreases times@.len() - i,
    {
        if valid[i] && times[i] > l {
            r.push(i);
            l = times[i];
        }
        i = i + 1;
        proof {
            assert(r@.map_values(|k: usize| k as int) =~= kept_after(l0, times@, valid@, i as int).0);
        }
    }
    r
}

proof fn lemma_kept_increasing(last: int, times: Seq<i32>, valid: Seq<bool>, n: int)
    requires
        0 <= n <= times.len(),
        n <= valid.len(),
    ensures
        ({
            let (s, l) = kept_after(last, times, valid, n);
            &&& l >= last
            &&& forall|j: int| 0 <= j < s.len() ==> 0 <= #[trigger] s[j] < n && times[s[j]] > last
                && times[s[j]] <= l
            &&& forall|a: int, b: int| 0 <= a < b < s.len() ==> s[a] < s[b] && times[#[trigger] s[a]]
                < times[#[trigger] s[b]]
            &&& s.len() > 0 ==> l == times[s.last()]
        }),
    decreases n,
{
    if n > 0 {
        lemma_kept_increasing(last, times, valid, n - 1);
    }
}

/// Appending keeps a tag's series in strictly increasing time order: the
/// kept points come in the order sent, each later than the one before and
/// than the last point already stored.
pub proof fn appended_times_increase(last: Option<i32>, times: Seq<i32>, valid: Seq<bool>)
    requires
        times.len() == valid.len(),
    ensures
        forall|j: int|
            0 <= j < spec_kept(last, times, valid).len() ==> times[#[trigger] spec_kept(
                last,
                times,
                valid,
            )[j]] > match last {
                Some(t) => t as int,
                None => 0,
            },
        forall|a: int, b: int|
            0 <= a < b < spec_kept(last, times, valid).len() ==> spec_kept(last, times, valid)[a]
                < spec_kept(last, times, valid)[b] && times[#[trigger] spec_kept(last, times, valid)[a]]
                < times[#[trigger] spec_kept(last, times, valid)[b]],
{
    let l: int = match last {
        Some(t) => t as int,
        None => 0,
    };
    lemma_kept_increasing(l, times, valid, times.len() as int);
}

/// A tag and its reduced copy (`id` and `-id`) measure the same quantity:
/// bhp and whp (1, 3) are pressures, 4 a rate, 5 a density, 7 an
/// injectivity; bht (2) and custom tags are shown as stored.
pub proof fn tag_quantity_by_magnitude(id: i16)
    requires
        id != i16::MIN,
        id != 0,
        abs_id(id) != 6,
    ensures
        spec_f32_tag_quantity(id) == spec_f32_tag_quantity((-id) as i16),
        abs_id(id) == 1 || abs_id(id) == 3 ==> spec_f32_tag_quantity(id) == Quantity::Pressure,
        abs_id(id) == 2 ==> spec_f32_tag_quantity(id) == Quantity::Unconverted,
        abs_id(id) == 4 ==> spec_f32_tag_quantity(id) == Quantity::Rate,
        abs_id(id) == 5 ==> spec_f32_tag_quantity(id) == Quantity::Density,
        abs_id(id) == 7 ==> spec_f32_tag_quantity(id) == Quantity::Injectivity,
        abs_id(id) > 7 ==> spec_f32_tag_quantity(id) == Quantity::Unconverted,
{
}

/// Points appended to a tag are converted from the client's units by the
/// quantity that the tag records, the same by which its points are shown:
/// pressure for bhp and whp, rate, density, total volume and injectivity;
/// bht and custom tags are stored as sent.
pub proof fn appended_points_convert_as_shown(tag_id: i16, modes: WellModes)
    ensures
        spec_append_rule(tag_id, modes) matches Ok(r) ==> (1 <= tag_id <= 7 && tag_id != 6 ==> r.quantity
            == spec_f32_tag_quantity(tag_id)),
        spec_append_rule(tag_id, modes) matches Ok(r) ==> (tag_id == 1 || tag_id == 3 ==> r.quantity
            == Quantity::Pressure),
        spec_append_rule(tag_id, modes) matches Ok(r) ==> (tag_id == 2 ==> r.quantity == Quantity::Unconverted),
        spec_append_rule(tag_id, modes) matches Ok(r) ==> (tag_id == 4 ==> r.quantity == Quantity::Rate),
        spec_append_rule(tag_id, modes) matches Ok(r) ==> (tag_id == 5 ==> r.quantity == Quantity::Density),
        spec_append_rule(tag_id, modes) matches Ok(r) ==> (tag_id == 6 ==> r.quantity == Quantity::Volume),
        spec_append_rule(tag_id, modes) matches Ok(r) ==> (tag_id == 7 ==> r.quantity == Quantity::Injectivity),
        spec_append_rule(tag_id, modes) matches Ok(r) ==> (!(1 <= tag_id <= 7) ==> r.quantity
            == Quantity::Unconverted),
{
}

/// Points are appended to a built-in tag exactly when the well takes that
/// tag's quantity from its client (bhp, bht, whp, rate, rho, vtot, ii for
/// ids 1 to 7); custom tags always take client points.
pub proof fn append_needs_client_mode(tag_id: i16, modes: WellModes)
    ensures
        tag_id == 1 ==> (spec_append_rule(tag_id, modes) is Ok <==> modes.bhp == ComputationMode::Client),
        tag_id == 2 ==> (spec_append_rule(tag_id, modes) is Ok <==> modes.bht == ComputationMode::Client),
        tag_id == 3 ==> (spec_append_rule(tag_id, modes) is Ok <==> modes.whp == ComputationMode::Client),
        tag_id == 4 ==> (spec_append_rule(tag_id, modes) is Ok <==> modes.rate == ComputationMode::Client),
        tag_id == 5 ==> (spec_append_rule(tag_id, modes) is Ok <==> modes.rho == ComputationMode::Client),
        tag_id == 6 ==> (spec_append_rule(tag_id, modes) is Ok <==> modes.vtot == ComputationMode::Client),
        tag_id == 7 ==> (spec_append_rule(tag_id, modes) is Ok <==> modes.ii == ComputationMode::Client),
        !(1 <= tag_id <= 7) ==> spec_append_rule(tag_id, modes) is Ok,
{
}

/// A tag resolves as single precision or as double precision, never as
/// both; a built-in tag always resolves as one of them.
pub proof fn tag_width_is_unique(id: i16, custom: Option<PointValueSize>)
    ensures
        !(spec_resolve_tag_f32(id, custom) is Some && spec_resolve_tag_f64(id, custom) is Some),
        spec_tag_lookup(id) is Builtin ==> (spec_resolve_tag_f32(id, custom) is Some
            || spec_resolve_tag_f64(id, custom) is Some),
{
}

} // verus!
