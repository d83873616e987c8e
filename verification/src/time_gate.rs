//! The time gate: playback goes on while the time of day is before the
//! deadline.

use crate::clock;
use crate::config::MyConfig;
use crate::time_of_day::TimeOfDay;
use vstd::prelude::*;

verus! {

/// Whether playback should go on at the time `now`: it should exactly while
/// `now` is strictly before `deadline`. Both are times of the same day; a
/// deadline that has passed since yesterday is not told from one that is
/// still to come.
pub fn should_continue(deadline: &TimeOfDay, now: &TimeOfDay) -> (r: bool)
    requires
        deadline.wf(),
        now.wf(),
    ensures
        r == now.precedes(*deadline),
{
    now.is_before(deadline)
}

/// Whether the clock, read now in UTC+9, shows a time before `end_time`.
/// Whatever valid time the clock shows, the answer is that of
/// `should_continue` for it.
pub fn comp_end_time(end_time: TimeOfDay) -> (r: bool)
    requires
        end_time.wf(),
    ensures
        exists|now: TimeOfDay| now.wf() && r == #[trigger] now.precedes(end_time),
{
    let now = clock::now();
    let r = should_continue(&end_time, &now);
    assert(r == now.precedes(end_time));
    r
}

/// Whether the clock, read now in UTC+9, shows a time before the end time of
/// the configuration.
pub fn comp_time(cfg: &MyConfig) -> (r: bool)
    requires
        cfg.has_valid_end_time(),
    ensures
        exists|now: TimeOfDay|
            now.wf() && r == #[trigger] now.precedes(
                TimeOfDay {
                    hour: cfg.end_time[0],
                    minute: cfg.end_time[1],
                    second: cfg.end_time[2],
                },
            ),
{
    comp_end_time(
        TimeOfDay { hour: cfg.end_time[0], minute: cfg.end_time[1], second: cfg.end_time[2] },
    )
}

} // verus!
