//! Reading the clock.
use vstd::prelude::*;

verus! {

/// Relies on `chrono::Utc::now` and `DateTime::timestamp_millis`: the current
/// time in milliseconds since the Unix epoch. Nothing is promised of its value.
#[verifier::external_body]
pub(crate) fn now_millis() -> (r: i64) {
    chrono::Utc::now().timestamp_millis()
}

/// Relies on `chrono::Local::now` and `DateTime::to_rfc3339`: the local time
/// now, as RFC 3339 text. Nothing is promised of its value.
#[verifier::external_body]
pub(crate) fn local_now_rfc3339() -> (r: String) {
    chrono::Local::now().to_rfc3339()
}

/// Relies on `chrono::Local::now` and `DateTime::format`: the local time now,
/// as `YYYY-MM-DD hh:mm:ss`. Nothing is promised of its value.
#[verifier::external_body]
pub(crate) fn local_now_display() -> (r: String) {
    chrono::Local::now().format("%Y-%m-%d %H:%M:%S").to_string()
}

} // verus!
