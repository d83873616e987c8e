//! The time at which playback ends, as given on the command line: either a
//! time of day such as `12:30`, or a duration from now such as `1h2m3s`.

use crate::clock;
use crate::decimal::{parse_u32, parse_u32_spec};
use crate::text::chars_of;
use crate::time_of_day::{valid_hms, TimeOfDay};
use vstd::pervasive::unreached;
use vstd::prelude::*;

verus! {

/// The three numbers of an `[hour, minute, second]` triple.
pub open spec fn triple(t: [u32; 3]) -> (int, int, int) {
    (t[0] as int, t[1] as int, t[2] as int)
}

/// The three numbers of a triple that may be missing.
pub open spec fn triple_of(t: Option<[u32; 3]>) -> Option<(int, int, int)> {
    match t {
        Some(t) => Some(triple(t)),
        None => None,
    }
}

/// Where `c` first occurs in `text`.
pub fn find_char(text: &Vec<char>, c: char) -> (r: Option<usize>)
    ensures
        match r {
            Some(i) => text@.index_of_first(c) == Some(i as int),
            None => text@.index_of_first(c) is None,
        },
{
    let mut i: usize = 0;
    while i < text.len()
        invariant
            i <= text.len(),
            forall|j: int| 0 <= j < i ==> text@[j] != c,
        decreases text.len() - i,
    {
        if text[i] == c {
            proof {
                text@.index_of_first_ensures(c);
            }
            return Some(i);
        }
        i = i + 1;
    }
    proof {
        text@.index_of_first_ensures(c);
    }
    None
}

/// What `text` says as an end time: the numeral before the first `:` is the
/// hour, below 24, and the numeral after it is the minute, below 60; the
/// second is 0. Any other text says nothing.
pub open spec fn end_time_spec(text: Seq<char>) -> Option<(int, int, int)> {
    match text.index_of_first(':') {
        Some(colon) => match (
            parse_u32_spec(text.subrange(0, colon)),
            parse_u32_spec(text.subrange(colon + 1, text.len() as int)),
        ) {
            (Some(hour), Some(minute)) => if hour < 24 && minute < 60 {
                Some((hour as int, minute as int, 0int))
            } else {
                None
            },
            _ => None,
        },
        None => None,
    }
}

/// Reads an end time such as `12:30`, or nothing where the text is not one.
pub fn try_parse_end_time(end_time: &str) -> (r: Option<[u32; 3]>)
    ensures
        triple_of(r) == end_time_spec(end_time@),
{
    let text = chars_of(end_time);
    proof {
        text@.index_of_first_ensures(':');
    }
    match find_char(&text, ':') {
        Some(colon) => {
            let hour = parse_u32(&text, 0, colon);
            let minute = parse_u32(&text, colon + 1, text.len());
            match (hour, minute) {
                (Some(hour), Some(minute)) => {
                    if hour < 24 && minute < 60 {
                        Some([hour, minute, 0])
                    } else {
                        None
                    }
                },
                _ => None,
            }
        },
        None => None,
    }
}

/// Reads an end time such as `12:30` as `[12, 30, 0]`.
pub fn parse_end_time(end_time: String) -> (r: [u32; 3])
    requires
        end_time_spec(end_time@) is Some,
    ensures
        Some(triple(r)) == end_time_spec(end_time@),
        valid_hms(r[0] as int, r[1] as int, r[2] as int),
{
    match try_parse_end_time(end_time.as_str()) {
        Some(time) => time,
        None => unreached(),
    }
}

/// What carrying whole minutes and hours upwards leaves of a triple: the
/// seconds above 59 go to the minutes as minutes and to the hours as hours,
/// the minutes above 59 go to the hours, and the hours wrap at 24. A minute
/// that only the carried seconds complete does not reach the hours.
pub open spec fn mod_time_spec(hour: int, minute: int, second: int) -> (int, int, int) {
    ((hour + minute / 60 + second / 3600) % 24, (minute + second / 60) % 60, second % 60)
}

/// The sums that `mod_time_spec` forms from the triple fit in a `u32`.
pub open spec fn mod_time_fits(hour: int, minute: int, second: int) -> bool {
    &&& hour + minute / 60 + second / 3600 <= u32::MAX
    &&& minute + second / 60 <= u32::MAX
}

/// Brings a triple such as `[12, 70, 0]` back onto the clock as `[13, 10, 0]`.
pub fn mod_time(time: [u32; 3]) -> (r: [u32; 3])
    requires
        mod_time_fits(time[0] as int, time[1] as int, time[2] as int),
    ensures
        triple(r) == mod_time_spec(time[0] as int, time[1] as int, time[2] as int),
        valid_hms(r[0] as int, r[1] as int, r[2] as int),
{
    [
        (time[0] + time[1] / 60 + time[2] / 3600) % 24,
        (time[1] + time[2] / 60) % 60,
        time[2] % 60,
    ]
}

/// `mod_time_spec` keeps the time of day that the triple's seconds add up to,
/// modulo one day, whenever the minutes left after their own carry and the
/// minutes carried from the seconds stay below one hour together.
pub proof fn lemma_mod_time_keeps_seconds(hour: int, minute: int, second: int)
    requires
        0 <= hour,
        0 <= minute,
        0 <= second,
        minute % 60 + (second / 60) % 60 < 60,
    ensures
        ({
            let r = mod_time_spec(hour, minute, second);
            r.0 * 3600 + r.1 * 60 + r.2 == (hour * 3600 + minute * 60 + second) % 86_400
        }),
{
    let r = mod_time_spec(hour, minute, second);
    let mq = minute / 60;
    let mr = minute % 60;
    let sq = second / 3600;
    let sm = (second / 60) % 60;
    let sr = second % 60;
    assert(second / 60 == sq * 60 + sm) by {
        assert(second / 60 / 60 == second / 3600) by (nonlinear_arith)
            requires
                0 <= second,
        ;
    }
    assert(r.1 == mr + sm) by {
        assert((mq * 60 + mr + sq * 60 + sm) % 60 == mr + sm) by (nonlinear_arith)
            requires
                0 <= mr + sm < 60,
        ;
    }
    let hq = (hour + mq + sq) / 24;
    let total = hour * 3600 + minute * 60 + second;
    assert(total == hq * 86_400 + (r.0 * 3600 + r.1 * 60 + r.2));
    assert(0 <= r.0 * 3600 + r.1 * 60 + r.2 < 86_400);
    assert(total % 86_400 == r.0 * 3600 + r.1 * 60 + r.2) by (nonlinear_arith)
        requires
            total == hq * 86_400 + (r.0 * 3600 + r.1 * 60 + r.2),
            0 <= r.0 * 3600 + r.1 * 60 + r.2 < 86_400,
    ;
}

/// The three numerals of a duration such as `1h2m3s`. The hours are the
/// numeral before the first `h`, the minutes the numeral between that `h` (or
/// the start) and the first `m`, the seconds the numeral between that `m` (or,
/// without one, the `h`, or the start) and the first `s`. A part whose letter
/// is missing counts 0, and what follows the last letter is not read. The
/// text says nothing where a numeral is malformed or a letter stands before
/// the place where its numeral should begin.
pub open spec fn duration_fields(text: Seq<char>) -> Option<(u32, u32, u32)> {
    let h_at = text.index_of_first('h');
    let m_at = text.index_of_first('m');
    let s_at = text.index_of_first('s');
    let h_end: int = match h_at {
        Some(i) => i + 1,
        None => 0,
    };
    let m_end: int = match m_at {
        Some(i) => i + 1,
        None => h_end,
    };
    let hours = match h_at {
        Some(i) => parse_u32_spec(text.subrange(0, i)),
        None => Some(0u32),
    };
    let minutes = match m_at {
        Some(i) => if h_end <= i {
            parse_u32_spec(text.subrange(h_end, i))
        } else {
            None
        },
        None => Some(0u32),
    };
    let seconds = match s_at {
        Some(i) => if m_end <= i {
            parse_u32_spec(text.subrange(m_end, i))
        } else {
            None
        },
        None => Some(0u32),
    };
    match (hours, minutes, seconds) {
        (Some(h), Some(m), Some(s)) => Some((h, m, s)),
        _ => None,
    }
}

/// What `text` says as a duration, brought onto the clock: its three numerals
/// carried as `mod_time_spec` does, where the sums fit in a `u32`.
pub open spec fn duration_diff_spec(text: Seq<char>) -> Option<(int, int, int)> {
    match duration_fields(text) {
        Some((h, m, s)) => if mod_time_fits(h as int, m as int, s as int) {
            Some(mod_time_spec(h as int, m as int, s as int))
        } else {
            None
        },
        None => None,
    }
}

/// Reads a duration such as `1h2m3s`, or nothing where the text is not one.
pub fn try_parse_duration_diff(duration: &str) -> (r: Option<[u32; 3]>)
    ensures
        triple_of(r) == duration_diff_spec(duration@),
        r matches Some(t) ==> valid_hms(t[0] as int, t[1] as int, t[2] as int),
{
    let text = chars_of(duration);
    proof {
        text@.index_of_first_ensures('h');
        text@.index_of_first_ensures('m');
        text@.index_of_first_ensures('s');
    }
    let mut h_point: usize = 0;
    let mut m_point: usize = 0;
    let mut h: u32 = 0;
    let mut m: u32 = 0;
    let mut s: u32 = 0;
    match find_char(&text, 'h') {
        Some(at) => {
            match parse_u32(&text, 0, at) {
                Some(n) => {
                    h = n;
                },
                None => {
                    return None;
                },
            }
            h_point = at + 1;
        },
        None => {},
    }
    match find_char(&text, 'm') {
        Some(at) => {
            if h_point > at {
                return None;
            }
            match parse_u32(&text, h_point, at) {
                Some(n) => {
                    m = n;
                },
                None => {
                    return None;
                },
            }
            m_point = at + 1;
        },
        None => {
            m_point = h_point;
        },
    }
    match find_char(&text, 's') {
        Some(at) => {
            if m_point > at {
                return None;
            }
            match parse_u32(&text, m_point, at) {
                Some(n) => {
                    s = n;
                },
                None => {
                    return None;
                },
            }
        },
        None => {},
    }
    assert(duration_fields(duration@) == Some((h, m, s)));
    let hour_sum: u64 = h as u64 + (m / 60) as u64 + (s / 3600) as u64;
    let minute_sum: u64 = m as u64 + (s / 60) as u64;
    if hour_sum > u32::MAX as u64 || minute_sum > u32::MAX as u64 {
        return None;
    }
    Some(mod_time([h, m, s]))
}

/// Reads a duration such as `1h2m30s` as `[1, 2, 30]`; each part may be left
/// out, so `1h30m` reads as `[1, 30, 0]`.
pub fn parse_duration_diff(duration: String) -> (r: [u32; 3])
    requires
        duration_diff_spec(duration@) is Some,
    ensures
        Some(triple(r)) == duration_diff_spec(duration@),
        valid_hms(r[0] as int, r[1] as int, r[2] as int),
{
    match try_parse_duration_diff(duration.as_str()) {
        Some(time) => time,
        None => unreached(),
    }
}

/// The end time that lies `diff` after `now`: the two added field by field
/// and carried as `mod_time_spec` does.
pub open spec fn end_time_after_spec(diff: (int, int, int), now: TimeOfDay) -> (int, int, int) {
    mod_time_spec(diff.0 + now.hour, diff.1 + now.minute, diff.2 + now.second)
}

/// Adds a duration that is already on the clock to the time `now`.
pub fn end_time_after(diff: [u32; 3], now: TimeOfDay) -> (r: [u32; 3])
    requires
        valid_hms(diff[0] as int, diff[1] as int, diff[2] as int),
        now.wf(),
    ensures
        triple(r) == end_time_after_spec(triple(diff), now),
        valid_hms(r[0] as int, r[1] as int, r[2] as int),
{
    mod_time([diff[0] + now.hour, diff[1] + now.minute, diff[2] + now.second])
}

/// Reads a duration such as `1h2m3s` and adds it to the current time of day
/// in UTC+9. The result is `end_time_after_spec` of the duration and of
/// whatever valid time the clock showed.
pub fn parse_duration(duration: String) -> (r: [u32; 3])
    requires
        duration_diff_spec(duration@) is Some,
    ensures
        exists|now: TimeOfDay|
            now.wf() && triple(r) == #[trigger] end_time_after_spec(
                duration_diff_spec(duration@)->0,
                now,
            ),
        valid_hms(r[0] as int, r[1] as int, r[2] as int),
{
    let diff = parse_duration_diff(duration);
    let now = clock::now();
    let r = end_time_after(diff, now);
    assert(triple(r) == end_time_after_spec(duration_diff_spec(duration@)->0, now));
    r
}

/// Reads a duration and adds it to the current time of day in UTC+9, or gives
/// nothing where the text is not a duration.
pub fn try_parse_duration(duration: &str) -> (r: Option<[u32; 3]>)
    ensures
        r is Some <==> duration_diff_spec(duration@) is Some,
        r matches Some(t) ==> valid_hms(t[0] as int, t[1] as int, t[2] as int) && exists|
            now: TimeOfDay,
        |
            now.wf() && triple(t) == #[trigger] end_time_after_spec(
                duration_diff_spec(duration@)->0,
                now,
            ),
{
    match try_parse_duration_diff(duration) {
        Some(diff) => {
            let now = clock::now();
            let t = end_time_after(diff, now);
            assert(triple(t) == end_time_after_spec(duration_diff_spec(duration@)->0, now));
            Some(t)
        },
        None => None,
    }
}

} // verus!
