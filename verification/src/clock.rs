use vstd::prelude::*;

verus! {

/// Relies on chrono's `Utc::now`, reduced to epoch milliseconds via
/// `DateTime::timestamp_millis`. The value is the machine's wall clock at the
/// moment of the call; nothing is assumed about it.
#[verifier::external_body]
pub(crate) fn now_millis() -> i64 {
    chrono::Utc::now().timestamp_millis()
}

} // verus!
