use geotool::pages::{
    api_ping, companies_page_redirect, cycle_fix_batch_volume_page_redirect,
    cycle_fix_well_data_page_redirect, cycle_flow_regimes_page_redirect,
    cycle_fourier_bhp_page_redirect, cycle_fourier_whp_page_redirect, cycle_hall_page_redirect,
    cycle_horner_bht_page_redirect, cycle_horner_bhp_page_redirect,
    cycle_horner_whp_page_redirect, cycle_info_page_redirect, cycle_last_rate_bhp_page_redirect,
    cycle_last_rate_whp_page_redirect, cycle_stiffness_page_redirect,
    cycle_stiffness_timeshift_page_redirect, cycles_page_redirect, edit_company_page_redirect,
    edit_password_page_redirect, edit_tag_page_redirect, edit_user_page_redirect,
    edit_well_page_redirect, get_text_titles, get_text_units, index_page_redirect1,
    index_page_redirect2, index_redirect, new_company_page_redirect, new_tag_page_redirect,
    new_user_page_redirect, new_well_page_redirect, tags_page_redirect, tera_last_active,
    url_field_verdict, users_page_redirect, validate_computation_modes, validate_form_url_field,
    wells_page_redirect, InvalidUrlField, ModesError, PingAnswer,
};
use geotool::units::{ComputationMode, PresentationUnits};
use geotool::users::{ApiAccess, User, UserCategory, WebAccess};

use ComputationMode::{Client, Off, Server};

fn user(web: WebAccess, api: ApiAccess) -> User {
    User {
        id: "ann".to_string(),
        uuid: 1,
        category: UserCategory::User,
        company: "acme".to_string(),
        first_name: "Ann".to_string(),
        last_name: "Lee".to_string(),
        email: "ann@example.com".to_string(),
        last_active: 0,
        web_access: web,
        api_access: api,
    }
}

#[test]
fn unit_texts() {
    let us = get_text_units(&PresentationUnits::US);
    assert_eq!((us.pressure, us.temperature, us.rate, us.density, us.volume, us.injectivity),
        ("psi", "degC", "bpm", "ppg", "bbl", "bpd/psi"));
    let eu = get_text_units(&PresentationUnits::EU);
    assert_eq!((eu.pressure, eu.rate, eu.density, eu.volume, eu.injectivity),
        ("bar", "m3/h", "sg", "m3", "(m3/h)/bar"));
    let t = get_text_titles(&PresentationUnits::US);
    assert_eq!(t.bhp, "Bottom-hole pressure, psi");
    assert_eq!(t.injectivity, "Injectivity, bpd/psi");
    let t = get_text_titles(&PresentationUnits::EU);
    assert_eq!(t.whp, "Well-head pressure, bar");
    assert_eq!(t.bht, "Bottom-hole temperature, C");
    assert_eq!(t.volume, "Injected volume, m3");
}

#[test]
fn login_redirects() {
    assert_eq!(companies_page_redirect(), "/login");
    assert_eq!(index_page_redirect1(), "/companies");
    assert_eq!(index_page_redirect2(), "/login");
    assert_eq!(new_company_page_redirect(), "/login/companies/new");
    assert_eq!(edit_company_page_redirect("acme"), "/login/companies/acme/edit");
    assert_eq!(wells_page_redirect("acme"), "/login/companies/acme/wells");
    assert_eq!(new_well_page_redirect("acme"), "/login/companies/acme/wells/new");
    assert_eq!(edit_well_page_redirect("acme", "w1"), "/login/companies/acme/wells/w1/edit");
    assert_eq!(tags_page_redirect("acme", "w1"), "/login/companies/acme/wells/w1/tags");
    assert_eq!(new_tag_page_redirect("acme", "w1"), "/login/companies/acme/wells/w1/tags/new");
    assert_eq!(edit_tag_page_redirect("acme", "w1", "12"), "/login/companies/acme/wells/w1/tags/12/edit");
    assert_eq!(users_page_redirect("acme"), "/login/companies/acme/users");
    assert_eq!(new_user_page_redirect("acme"), "/login/companies/acme/users/new");
    assert_eq!(edit_password_page_redirect("acme", "ann"), "/login/companies/acme/users/ann/edit-password");
    assert_eq!(edit_user_page_redirect("acme", "ann"), "/login/companies/acme/users/ann/edit");
    assert_eq!(cycles_page_redirect("acme", "w1"), "/login/companies/acme/wells/w1/cycles");
}

#[test]
fn cycle_page_redirects() {
    let p = "/login/companies/acme/wells/w1/cycles/305";
    assert_eq!(cycle_info_page_redirect("acme", "w1", 305), p);
    assert_eq!(cycle_last_rate_bhp_page_redirect("acme", "w1", 305), format!("{}/last-rate-bhp", p));
    assert_eq!(cycle_last_rate_whp_page_redirect("acme", "w1", 305), format!("{}/last-rate-whp", p));
    assert_eq!(cycle_horner_bhp_page_redirect("acme", "w1", 305), format!("{}/horner-bhp", p));
    assert_eq!(cycle_horner_whp_page_redirect("acme", "w1", 305), format!("{}/horner-whp", p));
    assert_eq!(cycle_horner_bht_page_redirect("acme", "w1", 305), format!("{}/horner-bht", p));
    assert_eq!(cycle_fourier_bhp_page_redirect("acme", "w1", 305), format!("{}/fourier-bhp", p));
    assert_eq!(cycle_fourier_whp_page_redirect("acme", "w1", 305), format!("{}/fourier-whp", p));
    assert_eq!(cycle_stiffness_timeshift_page_redirect("acme", "w1", 305), format!("{}/stiffness-timeshift", p));
    assert_eq!(cycle_stiffness_page_redirect("acme", "w1", 305), format!("{}/stiffness", p));
    assert_eq!(cycle_hall_page_redirect("acme", "w1", 305), format!("{}/hall", p));
    assert_eq!(cycle_flow_regimes_page_redirect("acme", "w1", 305), format!("{}/flow-regimes", p));
    assert_eq!(cycle_fix_batch_volume_page_redirect("acme", "w1", 305), format!("{}/fix-batch-volume", p));
    assert_eq!(cycle_fix_well_data_page_redirect("acme", "w1", 0), "/login/companies/acme/wells/w1/cycles/0/fix-well-data");
}

#[test]
fn root_redirect_and_ping() {
    assert_eq!(index_redirect(&None), "/login");
    assert_eq!(index_redirect(&Some(user(WebAccess::Readonly, ApiAccess::Blocked))), "/companies");
    assert_eq!(index_redirect(&Some(user(WebAccess::Blocked, ApiAccess::Full))), "/login");
    assert_eq!(api_ping(&user(WebAccess::Blocked, ApiAccess::Readonly)), PingAnswer::Accepted);
    assert_eq!(api_ping(&user(WebAccess::Full, ApiAccess::Blocked)), PingAnswer::Forward);
}

#[test]
fn last_active_labels() {
    let day = 86_400u64;
    let now = 1_700_000_000u64;
    assert_eq!(tera_last_active(0, now), "Never");
    assert_eq!(tera_last_active(now - 2 * day, now), "Recently");
    assert_eq!(tera_last_active(now - 3 * day, now), "Within a week");
    assert_eq!(tera_last_active(now - 7 * day, now), "Within a month");
    assert_eq!(tera_last_active(now - 30 * day, now), "F64 time ago");
}

#[test]
fn computation_modes_rules() {
    assert_eq!(validate_computation_modes(Client, Off, Client, Client, Off, Server, Off, false), Ok(()));
    assert_eq!(validate_computation_modes(Server, Off, Off, Client, Off, Off, Off, true),
        Err(ModesError::BhpNeedsClientWhp));
    assert_eq!(validate_computation_modes(Server, Off, Client, Client, Off, Off, Off, false),
        Err(ModesError::BhpNeedsSensorsHeight));
    assert_eq!(validate_computation_modes(Client, Off, Client, Off, Off, Server, Off, false),
        Err(ModesError::VtotNeedsClientRate));
    assert_eq!(validate_computation_modes(Client, Off, Client, Client, Server, Off, Off, false),
        Err(ModesError::RhoNeedsSensorsHeight));
    assert_eq!(validate_computation_modes(Client, Off, Off, Client, Server, Off, Off, true),
        Err(ModesError::RhoNeedsInputs));
    assert_eq!(validate_computation_modes(Off, Off, Off, Client, Off, Off, Server, true),
        Err(ModesError::IiNeedsInputs));
    assert_eq!(ModesError::IiNeedsInputs.message(),
        "If injectivity is computed on Server, then bhp, rate must be enabled.");
    assert_eq!(ModesError::BhpNeedsSensorsHeight.message(),
        "If bhp is computed on Server, then vertical distance between pressure sensors must be set.");
}

#[test]
fn url_fields() {
    assert_eq!(validate_form_url_field("acme"), Ok(()));
    assert_eq!(validate_form_url_field("w1"), Ok(()));
    assert_eq!(validate_form_url_field("A-B-C"), Err(InvalidUrlField));
    assert_eq!(validate_form_url_field("x"), Err(InvalidUrlField));
    // the pattern is searched, not anchored
    assert_eq!(validate_form_url_field("Big ab Name"), Ok(()));
    assert_eq!(validate_form_url_field("ab"), Ok(()));
    assert_eq!(validate_form_url_field("a-b_c"), Err(InvalidUrlField));
    assert_eq!(validate_form_url_field("AB"), Err(InvalidUrlField));
    assert_eq!(validate_form_url_field(""), Err(InvalidUrlField));
    assert_eq!(url_field_verdict(Some(true)), Ok(()));
    assert_eq!(url_field_verdict(Some(false)), Err(InvalidUrlField));
    assert_eq!(url_field_verdict(None), Err(InvalidUrlField));
}
