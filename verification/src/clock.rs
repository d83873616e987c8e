//! The wall clock, read as a time of day in a fixed offset from UTC.

use crate::time_of_day::{valid_hms, TimeOfDay};
use vstd::prelude::*;

verus! {

/// Seconds east of UTC of the zone in which the clock is read: UTC+9.
pub const CLOCK_OFFSET_SECONDS: i32 = 32_400;

/// Reads the system clock through chrono: `Utc::now()`, moved into the fixed
/// offset `offset_seconds` east of UTC with `DateTime::with_timezone`, of which
/// `DateTime::time` keeps the time of day; `Timelike::hour`, `minute` and
/// `second` give its fields.
///
/// Trusted, not proved: the three fields lie in the ranges that chrono
/// documents for them (hour 0 to 23, minute and second 0 to 59; a leap second
/// still reads as second 59). Nothing is claimed about which time comes back.
/// `FixedOffset::east_opt` takes offsets strictly between -86400 and 86400
/// only, hence the precondition. `Utc::now` itself gives up on a system clock
/// set before 1970.
#[verifier::external_body]
fn read_clock(offset_seconds: i32) -> (hms: (u32, u32, u32))
    requires
        -86_400 < offset_seconds < 86_400,
    ensures
        valid_hms(hms.0 as int, hms.1 as int, hms.2 as int),
{
    let zone = chrono::FixedOffset::east_opt(offset_seconds).unwrap();
    let now = chrono::Utc::now().with_timezone(&zone).time();
    (
        chrono::Timelike::hour(&now),
        chrono::Timelike::minute(&now),
        chrono::Timelike::second(&now),
    )
}

/// The current time of day in UTC+9, sampled afresh on every call.
pub fn now() -> (t: TimeOfDay)
    ensures
        t.wf(),
{
    let hms = read_clock(CLOCK_OFFSET_SECONDS);
    TimeOfDay { hour: hms.0, minute: hms.1, second: hms.2 }
}

} // verus!
