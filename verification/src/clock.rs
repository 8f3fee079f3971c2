//! The wall clock, as the library's operations consume it: an RFC 3339
//! timestamp string. Nothing can be promised of the current time, so
//! callers that need a pinned contract take the timestamp as an
//! argument instead.

use vstd::prelude::*;

verus! {

/// Relies on chrono's `DateTime::from_timestamp` and `to_rfc3339`: the
/// current UTC time, rendered as an RFC 3339 string. The system clock
/// is read as a duration since the Unix epoch; a clock set before 1970
/// (or outside chrono's range) yields the epoch itself rather than a
/// panic.
#[verifier::external_body]
pub fn now_rfc3339() -> String {
    let since_epoch = std::time::SystemTime::now()
        .duration_since(std::time::UNIX_EPOCH)
        .unwrap_or_default();
    chrono::DateTime::<chrono::Utc>::from_timestamp(
        since_epoch.as_secs() as i64,
        since_epoch.subsec_nanos(),
    )
        .unwrap_or_default()
        .to_rfc3339()
}

} // verus!
