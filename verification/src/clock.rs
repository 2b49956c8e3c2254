//! Wall-clock time stamps for history entries and mutations.
use vstd::prelude::*;
use std::time::SystemTime;

verus! {

/// `std::time::SystemTime`, carried opaquely.
#[verifier::external_type_specification]
#[verifier::external_body]
pub struct ExSystemTime(SystemTime);

/// `SystemTime` is `Copy`; its `clone` returns the same instant.
pub assume_specification [<SystemTime as Clone>::clone](t: &SystemTime) -> (r: SystemTime)
    ensures
        r == *t,
;

/// The current time (`SystemTime::now`). Nothing is promised of the
/// result: it depends on the machine's clock.
#[verifier::external_body]
pub(crate) fn now() -> SystemTime {
    SystemTime::now()
}

/// Whole seconds from the Unix epoch to `t`, or 0 when `t` lies before
/// the epoch (`duration_since(UNIX_EPOCH).unwrap_or_default().as_secs()`).
/// Nothing is promised of the result: the time stamp is opaque here.
#[verifier::external_body]
pub(crate) fn secs_since_epoch(t: &SystemTime) -> u64 {
    t.duration_since(SystemTime::UNIX_EPOCH).unwrap_or_default().as_secs()
}

}
