//! The system clock.

use vstd::prelude::*;

use crate::entry::Timestamp;

verus! {

/// Reads the current instant with `chrono::Local::now` and hands it out as
/// seconds and nanoseconds since the Unix epoch, taken from the result with
/// `DateTime::timestamp` and `DateTime::timestamp_subsec_nanos`.
///
/// Nothing is claimed of the instant: two readings may differ in any way.
#[verifier::external_body]
pub(crate) fn current_time() -> Timestamp {
    let now = chrono::Local::now();
    Timestamp { seconds: now.timestamp(), nanoseconds: now.timestamp_subsec_nanos() }
}

} // verus!
