//! The wall clock.

use vstd::prelude::*;

verus! {

/// `SystemTime::elapsed` on the Unix epoch: the seconds since the epoch and the nanoseconds
/// beyond them, or nothing where the clock stands before the epoch. A `Duration` holds less
/// than a second's nanoseconds beside its seconds; nothing else is claimed of the time.
#[verifier::external_body]
fn since_epoch() -> (reading: Option<(u64, u32)>)
    ensures
        is_reading(reading),
{
    match std::time::UNIX_EPOCH.elapsed() {
        Ok(elapsed) => Some((elapsed.as_secs(), elapsed.subsec_nanos())),
        Err(_) => None,
    }
}

/// Whether the clock can read so: with less than a second's nanoseconds beside the seconds.
pub open spec fn is_reading(reading: Option<(u64, u32)>) -> bool {
    reading matches Some(r) ==> r.1 < 1_000_000_000
}

/// The whole milliseconds in a reading of seconds and nanoseconds; 0 without a reading.
pub open spec fn reading_millis(reading: Option<(u64, u32)>) -> nat {
    match reading {
        Some(r) => (r.0 * 1000 + r.1 as int / 1_000_000) as nat,
        None => 0,
    }
}

/// Counts the whole milliseconds in a reading of the clock.
pub fn millis_of(reading: Option<(u64, u32)>) -> (millis: u128)
    ensures
        millis == reading_millis(reading),
{
    match reading {
        Some((secs, nanos)) => secs as u128 * 1000 + (nanos / 1_000_000) as u128,
        None => 0,
    }
}

/// The milliseconds since the Unix epoch; 0 where the clock stands before it.
pub fn current_millis() -> (millis: u128)
    ensures
        exists|reading: Option<(u64, u32)>|
            is_reading(reading) && millis == #[trigger] reading_millis(reading),
{
    let reading = since_epoch();
    millis_of(reading)
}

/// A reading of the clock has as many milliseconds as there are whole ones in its seconds and
/// nanoseconds; without a reading there are none.
pub proof fn law_milliseconds_are_whole(secs: u64, nanos: u32)
    ensures
        ({
            let millis = reading_millis(Some((secs, nanos)));
            millis * 1_000_000 <= secs * 1_000_000_000 + nanos < (millis + 1) * 1_000_000
        }),
        reading_millis(None) == 0,
        is_reading(Some((secs, nanos))) <==> nanos < 1_000_000_000,
{
}

} // verus!
