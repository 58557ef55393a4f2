use vstd::prelude::*;
use regex::Regex;
use crate::units::{PresentationUnits, ComputationMode};
use crate::users::{User, can_web_read, can_api_read, api_rank, web_rank};
use crate::users::{ApiAccess, WebAccess};
use crate::decimal::{spec_decimal_chars, decimal_string};

verus! {

// ---------------------------------------------------------------------------
// unit labels

/// The unit names shown beside a well's values.
#[derive(Clone, Copy, Debug)]
pub struct TextUnits {
    pub pressure: &'static str,
    pub temperature: &'static str,
    pub rate: &'static str,
    pub density: &'static str,
    pub volume: &'static str,
    pub injectivity: &'static str,
}

/// The unit names of a unit system.
pub fn get_text_units(units: &PresentationUnits) -> (r: TextUnits)
    ensures
        *units == PresentationUnits::US ==> r.pressure@ == "psi"@ && r.temperature@ == "degC"@
            && r.rate@ == "bpm"@ && r.density@ == "ppg"@ && r.volume@ == "bbl"@ && r.injectivity@
            == "bpd/psi"@,
        *units == PresentationUnits::EU ==> r.pressure@ == "bar"@ && r.temperature@ == "degC"@
            && r.rate@ == "m3/h"@ && r.density@ == "sg"@ && r.volume@ == "m3"@ && r.injectivity@
            == "(m3/h)/bar"@,
{
    match units {
        PresentationUnits::US => TextUnits {
            pressure: "psi",
            temperature: "degC",
            rate: "bpm",
            density: "ppg",
            volume: "bbl",
            injectivity: "bpd/psi",
        },
        PresentationUnits::EU => TextUnits {
            pressure: "bar",
            temperature: "degC",
            rate: "m3/h",
            density: "sg",
            volume: "m3",
            injectivity: "(m3/h)/bar",
        },
    }
}

/// The axis titles of a well's charts.
#[derive(Clone, Copy, Debug)]
pub struct TextTitles {
    pub bhp: &'static str,
    pub bht: &'static str,
    pub whp: &'static str,
    pub rate: &'static str,
    pub density: &'static str,
    pub volume: &'static str,
    pub injectivity: &'static str,
}

/// The chart titles of a unit system.
pub fn get_text_titles(units: &PresentationUnits) -> (r: TextTitles)
    ensures
        *units == PresentationUnits::US ==> r.bhp@ == "Bottom-hole pressure, psi"@ && r.bht@
            == "Bottom-hole temperature, C"@ && r.whp@ == "Well-head pressure, psi"@ && r.rate@
            == "Injection rate, bpm"@ && r.density@ == "Fluid density, ppg"@ && r.volume@
            == "Injected volume, bbl"@ && r.injectivity@ == "Injectivity, bpd/psi"@,
        *units == PresentationUnits::EU ==> r.bhp@ == "Bottom-hole pressure, bar"@ && r.bht@
            == "Bottom-hole temperature, C"@ && r.whp@ == "Well-head pressure, bar"@ && r.rate@
            == "Injection rate, m3/h"@ && r.density@ == "Fluid density, sg"@ && r.volume@
            == "Injected volume, m3"@ && r.injectivity@ == "Injectivity, (m3/h)/bar"@,
{
    match units {
        PresentationUnits::US => TextTitles {
            bhp: "Bottom-hole pressure, psi",
            bht: "Bottom-hole temperature, C",
            whp: "Well-head pressure, psi",
            rate: "Injection rate, bpm",
            density: "Fluid density, ppg",
            volume: "Injected volume, bbl",
            injectivity: "Injectivity, bpd/psi",
        },
        PresentationUnits::EU => TextTitles {
            bhp: "Bottom-hole pressure, bar",
            bht: "Bottom-hole temperature, C",
            whp: "Well-head pressure, bar",
            rate: "Injection rate, m3/h",
            density: "Fluid density, sg",
            volume: "Injected volume, m3",
            injectivity: "Injectivity, (m3/h)/bar",
        },
    }
}

// ---------------------------------------------------------------------------
// redirects of requests without a permitted user

fn text(s: &str) -> (r: String)
    ensures
        r@ == s@,
{
    String::from_str(s)
}

/// The login page.
pub fn companies_page_redirect() -> (r: String)
    ensures
        r@ == "/login"@,
{
    text("/login")
}

/// The login page.
pub fn index_page_redirect2() -> (r: String)
    ensures
        r@ == "/login"@,
{
    text("/login")
}

/// The companies page.
pub fn index_page_redirect1() -> (r: String)
    ensures
        r@ == "/companies"@,
{
    text("/companies")
}

/// Where the root url leads: to the companies for a user who may read the
/// web pages, else to the login page.
pub fn index_redirect(user: &Option<User>) -> (r: String)
    ensures
        match user {
            Some(u) => web_rank(u.web_access) >= web_rank(WebAccess::Readonly) ==> r@
                == "/companies"@,
            None => true,
        },
        match user {
            Some(u) => web_rank(u.web_access) >= web_rank(WebAccess::Readonly),
            None => false,
        } || r@ == "/login"@,
{
    match user {
        Some(u) => if can_web_read(u) {
            index_page_redirect1()
        } else {
            index_page_redirect2()
        },
        None => index_page_redirect2(),
    }
}

/// The login page, leading back to `"/companies/" + companyid + tail`.
fn company_login_url(companyid: &str, tail: &str) -> (r: String)
    ensures
        r@ == "/login/companies/"@ + companyid@ + tail@,
{
    let mut s = text("/login/companies/");
    s.append(companyid);
    s.append(tail);
    s
}

/// The login page, leading back to
/// `"/companies/" + companyid + "/wells/" + wellid + tail`.
fn well_login_url(companyid: &str, wellid: &str, tail: &str) -> (r: String)
    ensures
        r@ == "/login/companies/"@ + companyid@ + "/wells/"@ + wellid@ + tail@,
{
    let mut s = company_login_url(companyid, "/wells/");
    s.append(wellid);
    s.append(tail);
    s
}

/// The login page, leading back to the page `page` of cycle `cycleid`.
fn cycle_login_url(companyid: &str, wellid: &str, cycleid: u16, page: &str) -> (r: String)
    ensures
        r@ == "/login/companies/"@ + companyid@ + "/wells/"@ + wellid@ + "/cycles/"@
            + spec_decimal_chars(cycleid as nat) + page@,
{
    let mut s = well_login_url(companyid, wellid, "/cycles/");
    let id = decimal_string(cycleid as u32);
    s.append(id.as_str());
    s.append(page);
    s
}

pub fn new_company_page_redirect() -> (r: String)
    ensures
        r@ == "/login/companies/new"@,
{
    text("/login/companies/new")
}

pub fn edit_company_page_redirect(companyid: &str) -> (r: String)
    ensures
        r@ == "/login/companies/"@ + companyid@ + "/edit"@,
{
    company_login_url(companyid, "/edit")
}

pub fn wells_page_redirect(companyid: &str) -> (r: String)
    ensures
        r@ == "/login/companies/"@ + companyid@ + "/wells"@,
{
    company_login_url(companyid, "/wells")
}

pub fn new_well_page_redirect(companyid: &str) -> (r: String)
    ensures
        r@ == "/login/companies/"@ + companyid@ + "/wells/new"@,
{
    company_login_url(companyid, "/wells/new")
}

pub fn edit_well_page_redirect(companyid: &str, wellid: &str) -> (r: String)
    ensures
        r@ == "/login/companies/"@ + companyid@ + "/wells/"@ + wellid@ + "/edit"@,
{
    well_login_url(companyid, wellid, "/edit")
}

pub fn tags_page_redirect(companyid: &str, wellid: &str) -> (r: String)
    ensures
        r@ == "/login/companies/"@ + companyid@ + "/wells/"@ + wellid@ + "/tags"@,
{
    well_login_url(companyid, wellid, "/tags")
}

pub fn new_tag_page_redirect(companyid: &str, wellid: &str) -> (r: String)
    ensures
        r@ == "/login/companies/"@ + companyid@ + "/wells/"@ + wellid@ + "/tags/new"@,
{
    well_login_url(companyid, wellid, "/tags/new")
}

pub fn edit_tag_page_redirect(companyid: &str, wellid: &str, tagid: &str) -> (r: String)
    ensures
        r@ == "/login/companies/"@ + companyid@ + "/wells/"@ + wellid@ + "/tags/"@ + tagid@
            + "/edit"@,
{
    let mut s = well_login_url(companyid, wellid, "/tags/");
    s.append(tagid);
    s.append("/edit");
    s
}

pub fn users_page_redirect(companyid: &str) -> (r: String)
    ensures
        r@ == "/login/companies/"@ + companyid@ + "/users"@,
{
    company_login_url(companyid, "/users")
}

pub fn new_user_page_redirect(companyid: &str) -> (r: String)
    ensures
        r@ == "/login/companies/"@ + companyid@ + "/users/new"@,
{
    company_login_url(companyid, "/users/new")
}

pub fn edit_password_page_redirect(companyid: &str, xuserid: &str) -> (r: String)
    ensures
        r@ == "/login/companies/"@ + companyid@ + "/users/"@ + xuserid@ + "/edit-password"@,
{
    let mut s = company_login_url(companyid, "/users/");
    s.append(xuserid);
    s.append("/edit-password");
    s
}

pub fn edit_user_page_redirect(companyid: &str, xuserid: &str) -> (r: String)
    ensures
        r@ == "/login/companies/"@ + companyid@ + "/users/"@ + xuserid@ + "/edit"@,
{
    let mut s = company_login_url(companyid, "/users/");
    s.append(xuserid);
    s.append("/edit");
    s
}

pub fn cycles_page_redirect(companyid: &str, wellid: &str) -> (r: String)
    ensures
        r@ == "/login/companies/"@ + companyid@ + "/wells/"@ + wellid@ + "/cycles"@,
{
    well_login_url(companyid, wellid, "/cycles")
}

pub fn cycle_info_page_redirect(companyid: &str, wellid: &str, cycleid: u16) -> (r: String)
    ensures
        r@ == "/login/companies/"@ + companyid@ + "/wells/"@ + wellid@ + "/cycles/"@
            + spec_decimal_chars(cycleid as nat) + ""@,
{
    cycle_login_url(companyid, wellid, cycleid, "")
}

pub fn cycle_last_rate_bhp_page_redirect(companyid: &str, wellid: &str, cycleid: u16) -> (r: String)
    ensures
        r@ == "/login/companies/"@ + companyid@ + "/wells/"@ + wellid@ + "/cycles/"@
            + spec_decimal_chars(cycleid as nat) + "/last-rate-bhp"@,
{
    cycle_login_url(companyid, wellid, cycleid, "/last-rate-bhp")
}

pub fn cycle_last_rate_whp_page_redirect(companyid: &str, wellid: &str, cycleid: u16) -> (r: String)
    ensures
        r@ == "/login/companies/"@ + companyid@ + "/wells/"@ + wellid@ + "/cycles/"@
            + spec_decimal_chars(cycleid as nat) + "/last-rate-whp"@,
{
    cycle_login_url(companyid, wellid, cycleid, "/last-rate-whp")
}

pub fn cycle_horner_bhp_page_redirect(companyid: &str, wellid: &str, cycleid: u16) -> (r: String)
    ensures
        r@ == "/login/companies/"@ + companyid@ + "/wells/"@ + wellid@ + "/cycles/"@
            + spec_decimal_chars(cycleid as nat) + "/horner-bhp"@,
{
    cycle_login_url(companyid, wellid, cycleid, "/horner-bhp")
}

pub fn cycle_horner_whp_page_redirect(companyid: &str, wellid: &str, cycleid: u16) -> (r: String)
    ensures
        r@ == "/login/companies/"@ + companyid@ + "/wells/"@ + wellid@ + "/cycles/"@
            + spec_decimal_chars(cycleid as nat) + "/horner-whp"@,
{
    cycle_login_url(companyid, wellid, cycleid, "/horner-whp")
}

pub fn cycle_horner_bht_page_redirect(companyid: &str, wellid: &str, cycleid: u16) -> (r: String)
    ensures
        r@ == "/login/companies/"@ + companyid@ + "/wells/"@ + wellid@ + "/cycles/"@
            + spec_decimal_chars(cycleid as nat) + "/horner-bht"@,
{
    cycle_login_url(companyid, wellid, cycleid, "/horner-bht")
}

pub fn cycle_fourier_bhp_page_redirect(companyid: &str, wellid: &str, cycleid: u16) -> (r: String)
    ensures
        r@ == "/login/companies/"@ + companyid@ + "/wells/"@ + wellid@ + "/cycles/"@
            + spec_decimal_chars(cycleid as nat) + "/fourier-bhp"@,
{
    cycle_login_url(companyid, wellid, cycleid, "/fourier-bhp")
}

pub fn cycle_fourier_whp_page_redirect(companyid: &str, wellid: &str, cycleid: u16) -> (r: String)
    ensures
        r@ == "/login/companies/"@ + companyid@ + "/wells/"@ + wellid@ + "/cycles/"@
            + spec_decimal_chars(cycleid as nat) + "/fourier-whp"@,
{
    cycle_login_url(companyid, wellid, cycleid, "/fourier-whp")
}

pub fn cycle_stiffness_timeshift_page_redirect(companyid: &str, wellid: &str, cycleid: u16) -> (r:
    String)
    ensures
        r@ == "/login/companies/"@ + companyid@ + "/wells/"@ + wellid@ + "/cycles/"@
            + spec_decimal_chars(cycleid as nat) + "/stiffness-timeshift"@,
{
    cycle_login_url(companyid, wellid, cycleid, "/stiffness-timeshift")
}

pub fn cycle_stiffness_page_redirect(companyid: &str, wellid: &str, cycleid: u16) -> (r: String)
    ensures
        r@ == "/login/companies/"@ + companyid@ + "/wells/"@ + wellid@ + "/cycles/"@
            + spec_decimal_chars(cycleid as nat) + "/stiffness"@,
{
    cycle_login_url(companyid, wellid, cycleid, "/stiffness")
}

pub fn cycle_hall_page_redirect(companyid: &str, wellid: &str, cycleid: u16) -> (r: String)
    ensures
        r@ == "/login/companies/"@ + companyid@ + "/wells/"@ + wellid@ + "/cycles/"@
            + spec_decimal_chars(cycleid as nat) + "/hall"@,
{
    cycle_login_url(companyid, wellid, cycleid, "/hall")
}

pub fn cycle_flow_regimes_page_redirect(companyid: &str, wellid: &str, cycleid: u16) -> (r: String)
    ensures
        r@ == "/login/companies/"@ + companyid@ + "/wells/"@ + wellid@ + "/cycles/"@
            + spec_decimal_chars(cycleid as nat) + "/flow-regimes"@,
{
    cycle_login_url(companyid, wellid, cycleid, "/flow-regimes")
}

pub fn cycle_fix_batch_volume_page_redirect(companyid: &str, wellid: &str, cycleid: u16) -> (r:
    String)
    ensures
        r@ == "/login/companies/"@ + companyid@ + "/wells/"@ + wellid@ + "/cycles/"@
            + spec_decimal_chars(cycleid as nat) + "/fix-batch-volume"@,
{
    cycle_login_url(companyid, wellid, cycleid, "/fix-batch-volume")
}

pub fn cycle_fix_well_data_page_redirect(companyid: &str, wellid: &str, cycleid: u16) -> (r: String)
    ensures
        r@ == "/login/companies/"@ + companyid@ + "/wells/"@ + wellid@ + "/cycles/"@
            + spec_decimal_chars(cycleid as nat) + "/fix-well-data"@,
{
    cycle_login_url(companyid, wellid, cycleid, "/fix-well-data")
}

// ---------------------------------------------------------------------------
// small answers

/// The answer to the API's ping.
#[derive(PartialEq, Eq, Structural, Clone, Copy, Debug)]
pub enum PingAnswer {
    /// the user may read through the API
    Accepted,
    /// the request goes on to the next route (not found)
    Forward,
}

/// The API's ping answers `Accepted` to any user who may read through the API.
pub fn api_ping(user: &User) -> (r: PingAnswer)
    ensures
        r == (if api_rank(user.api_access) >= api_rank(ApiAccess::Readonly) {
            PingAnswer::Accepted
        } else {
            PingAnswer::Forward
        }),
{
    if can_api_read(user) {
        PingAnswer::Accepted
    } else {
        PingAnswer::Forward
    }
}

/// How long ago a user was last active, as the user list says it;
/// `last_active` and `now` are in seconds since the epoch.
pub fn tera_last_active(last_active: u64, now: u64) -> (r: &'static str)
    requires
        last_active <= now,
    ensures
        last_active == 0 ==> r@ == "Never"@,
        last_active != 0 && now - last_active < 3 * 86400 ==> r@ == "Recently"@,
        last_active != 0 && 3 * 86400 <= now - last_active < 7 * 86400 ==> r@ == "Within a week"@,
        last_active != 0 && 7 * 86400 <= now - last_active < 30 * 86400 ==> r@
            == "Within a month"@,
        last_active != 0 && 30 * 86400 <= now - last_active ==> r@ == "F64 time ago"@,
{
    let elapsed = now - last_active;
    let day: u64 = 86400;
    if last_active == 0 {
        "Never"
    } else if elapsed < 3 * day {
        "Recently"
    } else if elapsed < 7 * day {
        "Within a week"
    } else if elapsed < 30 * day {
        "Within a month"
    } else {
        "F64 time ago"
    }
}

// ---------------------------------------------------------------------------
// form checks

/// Why the computation modes of a well form are refused.
#[derive(PartialEq, Eq, Structural, Clone, Copy, Debug)]
pub enum ModesError {
    BhpNeedsClientWhp,
    BhpNeedsSensorsHeight,
    VtotNeedsClientRate,
    RhoNeedsSensorsHeight,
    RhoNeedsInputs,
    IiNeedsInputs,
}

impl ModesError {
    /// The message shown to the form's user.
    pub fn message(&self) -> (r: &'static str)
        ensures
            *self == ModesError::BhpNeedsClientWhp ==> r@
                == "If bhp is computed on Server, then whp must be provided by Client."@,
            *self == ModesError::BhpNeedsSensorsHeight ==> r@
                == "If bhp is computed on Server, then vertical distance between pressure sensors must be set."@,
            *self == ModesError::VtotNeedsClientRate ==> r@
                == "If rate is not provided by Client, then vtot can not be computed on Server."@,
            *self == ModesError::RhoNeedsSensorsHeight ==> r@
                == "If rho is computed on Server, then vertical distance between pressure sensors must be set."@,
            *self == ModesError::RhoNeedsInputs ==> r@
                == "If rho is computed on Server, then bhp,whp,rate must be enabled."@,
            *self == ModesError::IiNeedsInputs ==> r@
                == "If injectivity is computed on Server, then bhp, rate must be enabled."@,
    {
        match self {
            ModesError::BhpNeedsClientWhp => "If bhp is computed on Server, then whp must be provided by Client.",
            ModesError::BhpNeedsSensorsHeight => "If bhp is computed on Server, then vertical distance between pressure sensors must be set.",
            ModesError::VtotNeedsClientRate => "If rate is not provided by Client, then vtot can not be computed on Server.",
            ModesError::RhoNeedsSensorsHeight => "If rho is computed on Server, then vertical distance between pressure sensors must be set.",
            ModesError::RhoNeedsInputs => "If rho is computed on Server, then bhp,whp,rate must be enabled.",
            ModesError::IiNeedsInputs => "If injectivity is computed on Server, then bhp, rate must be enabled.",
        }
    }
}

pub open spec fn spec_validate_modes(
    bhp: ComputationMode,
    whp: ComputationMode,
    rate: ComputationMode,
    rho: ComputationMode,
    vtot: ComputationMode,
    ii: ComputationMode,
    has_sensors_height: bool,
) -> Result<(), ModesError> {
    if bhp == ComputationMode::Server && whp != ComputationMode::Client {
        Err(ModesError::BhpNeedsClientWhp)
    } else if bhp == ComputationMode::Server && !has_sensors_height {
        Err(ModesError::BhpNeedsSensorsHeight)
    } else if rate != ComputationMode::Client && vtot == ComputationMode::Server {
        Err(ModesError::VtotNeedsClientRate)
    } else if rho == ComputationMode::Server && !has_sensors_height {
        Err(ModesError::RhoNeedsSensorsHeight)
    } else if rho == ComputationMode::Server && (bhp == ComputationMode::Off || whp
        == ComputationMode::Off || rate == ComputationMode::Off) {
        Err(ModesError::RhoNeedsInputs)
    } else if ii == ComputationMode::Server && (bhp == ComputationMode::Off || rate
        == ComputationMode::Off) {
        Err(ModesError::IiNeedsInputs)
    } else {
        Ok(())
    }
}

/// Whether a well's computation modes are consistent: what the server
/// computes must have its inputs. `has_sensors_height` tells whether the
/// vertical distance between the pressure sensors is set; the bht mode
/// constrains nothing.
pub fn validate_computation_modes(
    bhp: ComputationMode,
    bht: ComputationMode,
    whp: ComputationMode,
    rate: ComputationMode,
    rho: ComputationMode,
    vtot: ComputationMode,
    ii: ComputationMode,
    has_sensors_height: bool,
) -> (r: Result<(), ModesError>)
    ensures
        r == spec_validate_modes(bhp, whp, rate, rho, vtot, ii, has_sensors_height),
{
    if bhp == ComputationMode::Server {
        if whp != ComputationMode::Client {
            return Err(ModesError::BhpNeedsClientWhp);
        } else if !has_sensors_height {
            return Err(ModesError::BhpNeedsSensorsHeight);
        }
    }
    if rate != ComputationMode::Client && vtot == ComputationMode::Server {
        return Err(ModesError::VtotNeedsClientRate);
    }
    if rho == ComputationMode::Server {
        if !has_sensors_height {
            return Err(ModesError::RhoNeedsSensorsHeight);
        } else if bhp == ComputationMode::Off || whp == ComputationMode::Off || rate
            == ComputationMode::Off {
            return Err(ModesError::RhoNeedsInputs);
        }
    }
    if ii == ComputationMode::Server {
        if bhp == ComputationMode::Off || rate == ComputationMode::Off {
            return Err(ModesError::IiNeedsInputs);
        }
    }
    Ok(())
}

/// Every set of modes that passes the check lets the server compute only
/// quantities whose inputs the well records.
pub proof fn accepted_modes_have_inputs(
    bhp: ComputationMode,
    whp: ComputationMode,
    rate: ComputationMode,
    rho: ComputationMode,
    vtot: ComputationMode,
    ii: ComputationMode,
    has_sensors_height: bool,
)
    requires
        spec_validate_modes(bhp, whp, rate, rho, vtot, ii, has_sensors_height) is Ok,
    ensures
        bhp == ComputationMode::Server ==> whp == ComputationMode::Client && has_sensors_height,
        vtot == ComputationMode::Server ==> rate == ComputationMode::Client,
        rho == ComputationMode::Server ==> has_sensors_height && bhp != ComputationMode::Off && whp
            != ComputationMode::Off && rate != ComputationMode::Off,
        ii == ComputationMode::Server ==> bhp != ComputationMode::Off && rate != ComputationMode::Off,
{
}

/// The check refuses a set of modes only where a quantity computed on the
/// server lacks its inputs: whenever bhp on the server has whp from the
/// client and the sensors height, vtot on the server has the rate from the
/// client, rho on the server has the sensors height and bhp, whp and rate
/// enabled, and ii on the server has bhp and rate enabled, the modes are
/// accepted, whatever the client provides.
pub proof fn modes_with_inputs_are_accepted(
    bhp: ComputationMode,
    whp: ComputationMode,
    rate: ComputationMode,
    rho: ComputationMode,
    vtot: ComputationMode,
    ii: ComputationMode,
    has_sensors_height: bool,
)
    requires
        bhp == ComputationMode::Server ==> whp == ComputationMode::Client && has_sensors_height,
        vtot == ComputationMode::Server ==> rate == ComputationMode::Client,
        rho == ComputationMode::Server ==> has_sensors_height && bhp != ComputationMode::Off && whp
            != ComputationMode::Off && rate != ComputationMode::Off,
        ii == ComputationMode::Server ==> bhp != ComputationMode::Off && rate != ComputationMode::Off,
    ensures
        spec_validate_modes(bhp, whp, rate, rho, vtot, ii, has_sensors_height) is Ok,
{
}

/// What `regex` answers for `Regex::new(pattern)` and then `is_match(text)`:
/// `None` when the pattern does not compile. A function of the two texts.
pub uninterp spec fn regex_is_match(pattern: Seq<char>, text: Seq<char>) -> Option<bool>;

/// `Regex::new(pattern)`, then `is_match(text)` on the compiled expression.
/// `is_match` is documented to answer whether the expression matches
/// anywhere in the text; for the unanchored [`url_field_pattern`] that is
/// whether two lower-case ASCII letters or digits stand next to each other.
#[verifier::external_body]
fn regex_match(pattern: &str, text: &str) -> (r: Option<bool>)
    ensures
        r == regex_is_match(pattern@, text@),
        pattern@ == url_field_pattern() ==> r == Some(has_url_run(text@)),
{
    match Regex::new(pattern) {
        Ok(re) => Some(re.is_match(text)),
        Err(_) => None,
    }
}

/// An id field of a form that cannot serve in a url.
#[derive(PartialEq, Eq, Structural, Clone, Copy, Debug)]
pub struct InvalidUrlField;

/// The pattern that an id used in urls must contain.
pub open spec fn url_field_pattern() -> Seq<char> {
    "[a-z0-9]{2,32}"@
}

/// A lower-case ASCII letter or a digit.
pub open spec fn is_url_char(c: char) -> bool {
    ('a' <= c && c <= 'z') || ('0' <= c && c <= '9')
}

/// The text holds two letters or digits of [`is_url_char`] in a row.
pub open spec fn has_url_run(text: Seq<char>) -> bool {
    exists|i: int| 0 <= i && i + 1 < text.len() && #[trigger] is_url_char(text[i]) && is_url_char(text[i + 1])
}

/// The verdict on an id field, from what the pattern search answered.
pub fn url_field_verdict(matched: Option<bool>) -> (r: Result<(), InvalidUrlField>)
    ensures
        r is Ok <==> matched == Some(true),
{
    match matched {
        Some(true) => Ok(()),
        _ => Err(InvalidUrlField),
    }
}

/// An id of a company, well or user must contain two to thirty-two lower-case
/// letters or digits in a row.
pub fn validate_form_url_field(url: &str) -> (r: Result<(), InvalidUrlField>)
    ensures
        r is Ok <==> has_url_run(url@),
{
    let matched = regex_match("[a-z0-9]{2,32}", url);
    url_field_verdict(matched)
}

} // verus!
