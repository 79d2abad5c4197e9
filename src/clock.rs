use vstd::prelude::*;

verus! {

/// Relies on chrono's `Utc::now` and `DateTime::timestamp_millis`: the wall-clock time in
/// milliseconds since the Unix epoch. Nothing is promised of the value; the clock may even go
/// back.
#[verifier::external_body]
pub(crate) fn now_millis() -> (r: i64) {
    chrono::Utc::now().timestamp_millis()
}

/// A timestamp moved forward to `now`, never back.
pub open spec fn advanced(t: i64, now: i64) -> i64 {
    if now > t {
        now
    } else {
        t
    }
}

pub fn advance(t: i64, now: i64) -> (r: i64)
    ensures
        r == advanced(t, now),
        r >= t,
{
    if now > t {
        now
    } else {
        t
    }
}

} // verus!
