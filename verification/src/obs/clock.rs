//! Wall-clock time.

use vstd::prelude::*;

verus! {

/// `SystemTime::elapsed` on `std::time::UNIX_EPOCH`, in nanoseconds; `None`
/// where the clock stands before 1970. Nothing is claimed of the value.
#[verifier::external_body]
fn since_epoch() -> (r: Option<u128>) {
    match std::time::UNIX_EPOCH.elapsed() {
        Ok(d) => Some(d.as_nanos()),
        Err(_) => None,
    }
}

/// A reading as a record's time stamp: zero where there is none.
pub fn stamp(reading: Option<u128>) -> (ts: u128)
    ensures
        ts == stamp_of(reading),
{
    match reading {
        Some(n) => n,
        None => 0,
    }
}

/// A reading in 64 bits: its low half, zero where there is none.
pub fn unix_ns(reading: Option<u128>) -> (ns: u64)
    ensures
        ns == low_ns(reading),
        reading matches Some(n) && n <= u64::MAX ==> ns == reading->0,
{
    match reading {
        Some(n) => #[verifier::truncate] (n as u64),
        None => 0,
    }
}

/// Unix nanoseconds now, in 64 bits: what [`unix_ns`] makes of a reading of
/// the clock. Which reading it is depends on the time alone.
pub fn now_unix_ns() -> u64 {
    let reading = since_epoch();
    unix_ns(reading)
}

/// The time stamp of a record made now.
pub fn now_stamp() -> u128 {
    stamp(since_epoch())
}

/// A reading as a time stamp.
pub open spec fn stamp_of(reading: Option<u128>) -> u128 {
    match reading {
        Some(n) => n,
        None => 0,
    }
}

/// A reading in 64 bits.
pub open spec fn low_ns(reading: Option<u128>) -> u64 {
    match reading {
        Some(n) => n as u64,
        None => 0,
    }
}

/// A reading is stamped as it is, and in 64 bits where it fits; a clock
/// before 1970 reads as zero.
pub proof fn law_readings_are_kept(n: u128)
    ensures
        stamp_of(Some(n)) == n,
        stamp_of(None) == 0,
        n <= u64::MAX ==> low_ns(Some(n)) == n,
        low_ns(None) == 0,
{
}

} // verus!
