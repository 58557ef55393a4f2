//! Decision and bookkeeping logic of the geotool well-monitoring service:
//! presentation units, access rules, tag classification, time-series range
//! planning, computation scheduling and the page-navigation helpers.

pub mod units;
pub mod query;
pub mod decimal;
pub mod navigation;
pub mod users;
pub mod login;
pub mod tags;
pub mod computer;
pub mod cycles;
pub mod pages;
