use vstd::prelude::*;

verus! {

/// Relies on uuid::Uuid::new_v4 for fresh identifiers; the value is carried
/// as the UUID's 128-bit integer. The draw is random, so nothing is promised
/// of the result.
#[verifier::external_body]
pub(crate) fn fresh_id() -> u128 {
    uuid::Uuid::new_v4().as_u128()
}

/// Relies on chrono::Utc::now for timestamps, taken as non-leap milliseconds
/// since the epoch. The clock is outside the library, so nothing is promised
/// of the result.
#[verifier::external_body]
pub(crate) fn now_millis() -> i64 {
    chrono::Utc::now().timestamp_millis()
}

/// What chrono renders for an in-range millisecond timestamp, and None where
/// chrono rejects the value; the result depends on the milliseconds alone.
pub uninterp spec fn rfc3339_of(ms: int) -> Option<Seq<char>>;

/// Relies on chrono::DateTime::from_timestamp_millis, which returns None
/// exactly on an out-of-range number of milliseconds, and on
/// chrono::DateTime::to_rfc3339 for the textual form.
#[verifier::external_body]
pub(crate) fn rfc3339_millis(ms: i64) -> (r: Option<String>)
    ensures
        r is Some <==> rfc3339_of(ms as int) is Some,
        r is Some ==> r->0@ == rfc3339_of(ms as int)->0,
{
    chrono::DateTime::<chrono::Utc>::from_timestamp_millis(ms).map(|dt| dt.to_rfc3339())
}

}
