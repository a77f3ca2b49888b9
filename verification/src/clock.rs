//! The time of day.

use vstd::prelude::*;

verus! {

/// Calls `chrono::Utc::now` and takes its `timestamp`: the seconds since
/// the epoch at the moment of the call. Nothing is known of the number.
#[verifier::external_body]
pub(crate) fn utc_timestamp() -> (now: i64) {
    chrono::Utc::now().timestamp()
}

} // verus!
