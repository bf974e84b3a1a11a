//! The wall clock.

use vstd::prelude::*;

verus! {

/// The current time in UTC as an RFC 3339 text, such as
/// `2024-01-01T00:00:00.123456789+00:00`.
///
/// Reads `std::time::SystemTime::now`, turns it into a `chrono::DateTime<Utc>`
/// by chrono's `From<SystemTime>`, which also takes a time before 1970, and
/// writes it with `DateTime::to_rfc3339`. The contract claims nothing of the
/// text: it depends on the machine's clock.
#[verifier::external_body]
pub fn now_iso() -> (r: String) {
    chrono::DateTime::<chrono::Utc>::from(std::time::SystemTime::now()).to_rfc3339()
}

} // verus!
