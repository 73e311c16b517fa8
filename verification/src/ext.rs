//! Calls into outside crates that the library's logic needs: the wall clock,
//! fresh report tokens, and what the host reports about itself. Each wrapper
//! states only what holds of every outcome; the verified logic takes the
//! returned values as arguments.

use vstd::prelude::*;

verus! {

/// Relies on chrono's Utc::now and DateTime::timestamp_millis: the current
/// wall-clock time as milliseconds since the Unix epoch. Nothing is promised
/// of the value; every caller's contract holds whatever comes back.
#[verifier::external_body]
pub fn now_unix_millis() -> i64 {
    chrono::Utc::now().timestamp_millis()
}

/// Relies on uuid's Uuid::new_v4 and its hyphenated Display form: a random
/// version-4 identifier rendered as 36 characters. The value is random, so
/// nothing beyond its length is promised.
#[verifier::external_body]
pub fn fresh_report_token() -> (t: String)
    ensures
        t@.len() == 36,
{
    uuid::Uuid::new_v4().to_string()
}

/// Relies on sys_info::os_type: the operating system type, such as "Linux",
/// where the host reports one. The value depends on the machine, so nothing is
/// promised of it.
#[verifier::external_body]
pub fn os_type() -> Option<String> {
    match sys_info::os_type() {
        Ok(t) => Some(t),
        Err(_) => None,
    }
}

/// Relies on sys_info::os_release: the operating system release, where the
/// host reports one. The value depends on the machine, so nothing is promised
/// of it.
#[verifier::external_body]
pub fn os_release() -> Option<String> {
    match sys_info::os_release() {
        Ok(r) => Some(r),
        Err(_) => None,
    }
}

/// Relies on sys_info::hostname: this machine's hostname, where the host
/// reports one. The value depends on the machine, so nothing is promised of
/// it.
#[verifier::external_body]
pub fn host_name() -> Option<String> {
    match sys_info::hostname() {
        Ok(h) => Some(h),
        Err(_) => None,
    }
}

} // verus!
