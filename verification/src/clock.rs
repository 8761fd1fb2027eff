use vstd::prelude::*;

verus! {

/// The wall-clock time in milliseconds since the Unix epoch, read through
/// `chrono::Utc::now` and `DateTime::timestamp_millis`.
/// Nothing is promised of the reading: it depends on the machine's clock.
#[verifier::external_body]
pub(crate) fn now_millis() -> u64 {
    chrono::Utc::now().timestamp_millis() as u64
}

/// The wall-clock time in whole seconds since the Unix epoch, read through
/// `chrono::Utc::now` and `DateTime::timestamp`.
/// Nothing is promised of the reading: it depends on the machine's clock.
#[verifier::external_body]
pub(crate) fn now_secs() -> u64 {
    chrono::Utc::now().timestamp() as u64
}

} // verus!
