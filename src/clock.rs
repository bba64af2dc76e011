//! The current time, read through chrono.

use vstd::prelude::*;
use crate::document::Timestamp;

verus! {

/// Relies on chrono's `From<SystemTime> for DateTime<Utc>` and
/// `DateTime::timestamp`: the system clock's current UTC time in whole seconds
/// since the Unix epoch. The value depends on the machine's clock, so nothing
/// is promised of it; a clock set before 1970 gives a negative value.
#[verifier::external_body]
pub(crate) fn now() -> (r: Timestamp) {
    Timestamp { secs: chrono::DateTime::<chrono::Utc>::from(std::time::SystemTime::now()).timestamp() }
}

} // verus!
