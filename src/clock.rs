//! The wall clock, read as text.

use vstd::prelude::*;

verus! {

/// Relies on chrono's `From<SystemTime> for DateTime<Utc>`, applied to
/// `SystemTime::now()` and rendered with its `Debug` format (for example
/// `2024-05-01T12:00:00.123456789Z`). The conversion also takes instants
/// before 1970. Nothing is known of the instant returned.
#[verifier::external_body]
pub(crate) fn utc_now_text() -> (r: String) {
    format!("{:?}", chrono::DateTime::<chrono::Utc>::from(std::time::SystemTime::now()))
}

} // verus!
