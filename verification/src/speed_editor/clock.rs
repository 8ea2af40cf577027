use vstd::prelude::*;

verus! {

/// The time now, in milliseconds since the start of 1970 (UTC); a time before
/// that is a negative number.
///
/// Reads the system clock with `std::time::SystemTime::now`, turns it into a
/// `chrono::DateTime<chrono::Utc>` with chrono's `From<SystemTime>`, and
/// takes `chrono::DateTime::timestamp_millis` of it. Nothing is promised of
/// the number: two calls may give any two times. The conversion takes a
/// clock that stands before 1970 as well as one that stands after it, as far
/// as the years that a `DateTime` can hold.
#[verifier::external_body]
pub(crate) fn now_millis() -> i64 {
    chrono::DateTime::<chrono::Utc>::from(std::time::SystemTime::now()).timestamp_millis()
}

} // verus!
