use geotool::decimal::{decimal_i16, decimal_string, decimal_u32};
use geotool::navigation::{
    cycle_url_split_point, next_analysis, next_cycle, previous_analysis, previous_cycle, NavError,
};

fn s(v: Vec<u8>) -> String {
    String::from_utf8(v).unwrap()
}

const BASE: &str = "/companies/acme/wells/w1/cycles/12";

#[test]
fn decimal_texts() {
    assert_eq!(decimal_u32(0), b"0".to_vec());
    assert_eq!(decimal_u32(4096), b"4096".to_vec());
    assert_eq!(decimal_i16(-305), b"-305".to_vec());
    assert_eq!(decimal_i16(i16::MIN), b"-32768".to_vec());
    assert_eq!(decimal_string(65535), "65535");
}

#[test]
fn split_point_after_cycle_id() {
    assert_eq!(cycle_url_split_point(BASE, 12), Some(BASE.len()));
    assert_eq!(cycle_url_split_point("/companies/acme", 12), None);
}

#[test]
fn next_analysis_walks_the_pages() {
    let pages = [
        "", "/last-rate-bhp", "/last-rate-whp", "/horner-bhp", "/horner-whp", "/horner-bht",
        "/fourier-bhp", "/fourier-whp", "/stiffness-timeshift", "/stiffness", "/hall",
        "/flow-regimes",
    ];
    for i in 0..pages.len() - 1 {
        let url = format!("{}{}", BASE, pages[i]);
        let next = s(next_analysis(&url, 12).unwrap());
        assert_eq!(next, format!("{}{}", BASE, pages[i + 1]));
        // and back again
        let back = s(previous_analysis(&next, 12).unwrap());
        assert_eq!(back, url);
    }
}

#[test]
fn last_and_first_analysis_are_refused() {
    let url = format!("{}/flow-regimes", BASE);
    assert_eq!(next_analysis(&url, 12), Err(NavError::LastAnalysis));
    assert_eq!(previous_analysis(BASE, 12), Err(NavError::FirstAnalysis));
    assert_eq!(NavError::LastAnalysis.message(), "Last analysis already");
    assert_eq!(NavError::FirstAnalysis.message(), "First analysis already");
}

#[test]
fn unknown_page_is_refused() {
    let url = format!("{}/unknown", BASE);
    assert_eq!(next_analysis(&url, 12), Err(NavError::LastAnalysis));
    assert_eq!(previous_analysis(&url, 12), Err(NavError::BadUrl));
}

#[test]
fn bad_urls_are_refused() {
    assert_eq!(next_analysis("/companies/acme", 12), Err(NavError::BadUrl));
    assert_eq!(previous_analysis("/cycles/1", 123), Err(NavError::BadUrl));
    assert_eq!(next_cycle("/nowhere", 3, false), Err(NavError::BadUrl));
    assert_eq!(NavError::BadUrl.message(), "Bad url");
}

#[test]
fn cycles_step_and_step_back() {
    let url = format!("{}/horner-bhp", BASE);
    let next = s(next_cycle(&url, 12, false).unwrap());
    assert_eq!(next, "/companies/acme/wells/w1/cycles/13/horner-bhp");
    let back = s(previous_cycle(&next, 13).unwrap());
    assert_eq!(back, url);
    let prev = s(previous_cycle("/companies/acme/wells/w1/cycles/10", 10).unwrap());
    assert_eq!(prev, "/companies/acme/wells/w1/cycles/9");
}

#[test]
fn first_and_last_cycle_are_refused() {
    assert_eq!(next_cycle(BASE, 12, true), Err(NavError::LastCycle));
    assert_eq!(previous_cycle("/companies/a/wells/b/cycles/1", 1), Err(NavError::FirstCycle));
    assert_eq!(NavError::LastCycle.message(), "Last cycle already");
    assert_eq!(NavError::FirstCycle.message(), "First cycle already");
}
