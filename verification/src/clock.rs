//! The wall clock.

use vstd::prelude::*;

verus! {

/// The current time in UTC as an RFC 3339 string, from `chrono::Utc::now`
/// and `DateTime::to_rfc3339`. Nothing is claimed of the text: it depends on
/// when the call is made. `Utc::now` panics where the system clock stands
/// before 1970.
#[verifier::external_body]
pub(crate) fn now_rfc3339() -> (now: String) {
    chrono::Utc::now().to_rfc3339()
}

} // verus!
