//! The current time, as `chrono` reads it from the system clock.

use vstd::prelude::*;

verus! {

/// `chrono::Utc::now().timestamp_millis()`: milliseconds since the Unix epoch.
/// Nothing is claimed of the number: it is whatever the system clock says.
/// (chrono stops the program where the clock stands before the epoch.)
#[verifier::external_body]
pub(crate) fn now_millis() -> i64 {
    chrono::Utc::now().timestamp_millis()
}

/// `chrono::Utc::now().to_rfc3339()`: the current time as RFC 3339 text.
/// Nothing is claimed of the text: it is whatever the system clock says.
#[verifier::external_body]
pub(crate) fn now_rfc3339() -> String {
    chrono::Utc::now().to_rfc3339()
}

} // verus!
