//! The time that snapshots are stamped with.
use vstd::prelude::*;

verus! {

/// `std::time::SystemTime`, carried and not looked into.
#[verifier::external_type_specification]
#[verifier::external_body]
pub struct ExSystemTime(std::time::SystemTime);

/// `std::time::SystemTimeError`, carried and not looked into.
#[verifier::external_type_specification]
#[verifier::external_body]
pub struct ExSystemTimeError(std::time::SystemTimeError);

/// `std::time::SystemTime::now` reads the clock; nothing is claimed of it.
pub assume_specification[ std::time::SystemTime::now ]() -> std::time::SystemTime
;

/// `std::time::Duration::as_micros` gives the whole microseconds of a span;
/// nothing is claimed of their number.
pub assume_specification[ std::time::Duration::as_micros ](span: &std::time::Duration) -> u128
;

/// `std::time::SystemTime::duration_since` the epoch gives the span since then,
/// or an error for a time before it; nothing is claimed of either.
#[verifier::external_body]
fn since_epoch(time: std::time::SystemTime) -> (span: Result<
    std::time::Duration,
    std::time::SystemTimeError,
>) {
    time.duration_since(std::time::UNIX_EPOCH)
}

/// A count of microseconds since the epoch as a stamp: held at the largest
/// stamp, and zero for a time before the epoch.
pub open spec fn stamped(micros: Option<u128>) -> i64 {
    match micros {
        None => 0,
        Some(n) => if n <= i64::MAX {
            n as i64
        } else {
            i64::MAX
        },
    }
}

/// Turns a count of microseconds since the epoch into a stamp.
pub fn stamp(micros: Option<u128>) -> (t: i64)
    ensures
        t == stamped(micros),
        0 <= t,
{
    match micros {
        None => 0,
        Some(n) => {
            if n <= i64::MAX as u128 {
                n as i64
            } else {
                i64::MAX
            }
        },
    }
}

/// The current time in microseconds since the epoch. Which time it is depends
/// on the clock; a clock before the epoch stamps zero.
pub fn now_micros() -> (t: i64)
    ensures
        0 <= t,
{
    match since_epoch(std::time::SystemTime::now()) {
        Ok(span) => stamp(Some(span.as_micros())),
        Err(_) => stamp(None),
    }
}

/// A stamp is the time in microseconds, the largest there is where it is later,
/// and zero where the time is before the epoch; later times have no earlier
/// stamps.
pub proof fn stamps_keep_time(a: u128, b: u128)
    requires
        a <= b,
    ensures
        a <= 0x7fff_ffff_ffff_ffff ==> stamped(Some(a)) == a,
        a > 0x7fff_ffff_ffff_ffff ==> stamped(Some(a)) == 0x7fff_ffff_ffff_ffff,
        stamped(None) == 0,
        0 <= stamped(Some(a)) <= stamped(Some(b)),
{
}

} // verus!
