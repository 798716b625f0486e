//! The clock. Every text here depends on the moment of the call or on the
//! machine's time zone, so nothing is promised of it; the functions that use
//! a time text are stated for every text. Whether a given moment has a text
//! at all depends on the moment alone, and that is stated.

use vstd::prelude::*;

verus! {

/// Calls `chrono::Local::now` and formats the moment as `%Y%m%d_%H%M%S`.
/// Trusted; nothing is claimed of the text.
#[verifier::external_body]
pub(crate) fn local_stamp() -> String {
    chrono::Local::now().format("%Y%m%d_%H%M%S").to_string()
}

/// Calls `chrono::Local::now` and formats the moment as
/// `%Y-%m-%d %H:%M:%S`. Trusted; nothing is claimed of the text.
#[verifier::external_body]
pub(crate) fn local_now_text() -> String {
    chrono::Local::now().format("%Y-%m-%d %H:%M:%S").to_string()
}

/// Calls `chrono::Utc::now` and formats the moment as
/// `%Y-%m-%d %H:%M:%S%.3f UTC`. Trusted; nothing is claimed of the text.
#[verifier::external_body]
pub(crate) fn utc_now_text() -> String {
    chrono::Utc::now().format("%Y-%m-%d %H:%M:%S%.3f UTC").to_string()
}

/// The name for whether chrono can represent the moment that lies `seconds`
/// seconds and `nanoseconds` nanoseconds after the epoch: whether
/// `chrono::DateTime::from_timestamp` yields a moment for the two numbers.
/// It depends on the two numbers alone, not on the clock or the time zone.
pub uninterp spec fn representable_moment(seconds: i64, nanoseconds: u32) -> bool;

/// Calls `chrono::DateTime::from_timestamp` on a moment given in seconds and
/// nanoseconds since the epoch, and formats it in the local time zone as
/// `%Y-%m-%d %H:%M:%S`. Trusted: there is a text exactly when chrono can
/// represent the moment; nothing is claimed of the text itself.
#[verifier::external_body]
pub(crate) fn local_time_text(seconds: i64, nanoseconds: u32) -> (r: Option<String>)
    ensures
        r is Some <==> representable_moment(seconds, nanoseconds),
{
    match chrono::DateTime::from_timestamp(seconds, nanoseconds) {
        Some(t) => Some(t.with_timezone(&chrono::Local).format("%Y-%m-%d %H:%M:%S").to_string()),
        None => None,
    }
}

} // verus!
