//! Foreground application context.
//!
//! The daemon snapshots the frontmost application's name and window title
//! once per utterance, at the moment recording stops. Querying the OS needs
//! a shell call on hosts that offer one; that call lives in the binary. The
//! library holds the portable fallbacks and the normalization rule: a failed
//! query degrades to `"Unknown"` for the application and `""` for the title,
//! never to an error.

use vstd::prelude::*;
use crate::Error;

verus! {

/// Portable query for the frontmost application's name. Hosts without an
/// automation facility report `"Unknown"`.
pub fn get_active_application() -> (r: Result<String, Error>)
    ensures
        r matches Ok(name) && name@ == "Unknown"@,
{
    Ok(String::from_str("Unknown"))
}

/// Portable query for the frontmost window's title. Hosts without an
/// automation facility report an empty title.
pub fn get_active_window_title() -> (r: Result<String, Error>)
    ensures
        r matches Ok(title) && title@ == ""@,
{
    Ok(String::from_str(""))
}

/// Snapshot of the foreground application context, portable form.
pub fn get_application_context() -> (r: (String, String))
    ensures
        r.0@ == "Unknown"@,
        r.1@ == ""@,
{
    let app_name = match get_active_application() {
        Ok(name) => name,
        Err(_) => String::from_str("Unknown"),
    };
    let window_title = match get_active_window_title() {
        Ok(title) => title,
        Err(_) => String::from_str(""),
    };
    (app_name, window_title)
}

/// Normalize the outcome of an OS context query: a failed application query
/// degrades to `"Unknown"`, a failed title query to `""`.
pub fn normalize_context(app: Option<String>, title: Option<String>) -> (r: (String, String))
    ensures
        app matches Some(a) ==> r.0@ == a@,
        app is None ==> r.0@ == "Unknown"@,
        title matches Some(t) ==> r.1@ == t@,
        title is None ==> r.1@ == ""@,
{
    let app_name = match app {
        Some(a) => a,
        None => String::from_str("Unknown"),
    };
    let window_title = match title {
        Some(t) => t,
        None => String::from_str(""),
    };
    (app_name, window_title)
}

} // verus!
