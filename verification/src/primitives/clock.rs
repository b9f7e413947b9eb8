//! Points in time.

use vstd::prelude::*;

verus! {

#[verifier::external_type_specification]
#[verifier::external_body]
pub struct ExSystemTime(std::time::SystemTime);

/// A point in time, in nanoseconds since the Unix epoch.
#[derive(Debug, Clone, Copy, PartialEq, Eq, Structural)]
pub struct UtcTime {
    pub unix_nanos: i128,
}

/// A span of time, in nanoseconds.
pub type Nanos = u128;

/// `OffsetDateTime::now_utc`: the time, of which nothing can be said.
#[verifier::external_body]
pub(crate) fn now_utc() -> UtcTime {
    UtcTime { unix_nanos: time::OffsetDateTime::now_utc().unix_timestamp_nanos() }
}

/// `SystemTime::now`: the time, of which nothing can be said.
#[verifier::external_body]
pub(crate) fn system_time() -> std::time::SystemTime {
    std::time::SystemTime::now()
}

/// `SystemTime::duration_since` the Unix epoch, in whole seconds; `None` before the epoch. Nothing
/// can be said of the number.
#[verifier::external_body]
pub(crate) fn unix_seconds(time: std::time::SystemTime) -> Option<u64> {
    time.duration_since(std::time::UNIX_EPOCH).ok().map(|elapsed| elapsed.as_secs())
}

} // verus!
