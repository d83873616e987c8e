//! Times of day to the second, as the cutoff and the clock are compared.

use vstd::prelude::*;

verus! {

/// Why a configured time was turned down.
#[derive(Clone, Copy, Debug, PartialEq, Eq, Structural)]
pub enum ConfigError {
    /// The hour is 24 or more.
    HourOutOfRange,
    /// The minute is 60 or more.
    MinuteOutOfRange,
    /// The second is 60 or more.
    SecondOutOfRange,
}

/// An hour, minute and second on a 24-hour clock.
#[derive(Clone, Copy, Debug, PartialEq, Eq, Structural)]
pub struct TimeOfDay {
    pub hour: u32,
    pub minute: u32,
    pub second: u32,
}

/// Whether `hour:minute:second` names a time on a 24-hour clock.
pub open spec fn valid_hms(hour: int, minute: int, second: int) -> bool {
    &&& 0 <= hour < 24
    &&& 0 <= minute < 60
    &&& 0 <= second < 60
}

impl TimeOfDay {
    /// The fields are within the ranges of a 24-hour clock.
    pub open spec fn wf(self) -> bool {
        valid_hms(self.hour as int, self.minute as int, self.second as int)
    }

    /// Seconds elapsed since midnight.
    pub open spec fn seconds_from_midnight(self) -> int {
        self.hour * 3600 + self.minute * 60 + self.second
    }

    /// `self` comes strictly earlier in the day than `other`.
    pub open spec fn precedes(self, other: TimeOfDay) -> bool {
        self.seconds_from_midnight() < other.seconds_from_midnight()
    }

    /// Builds a time of day, turning down the first field that is out of
    /// range, hour before minute before second.
    pub fn from_hms(hour: u32, minute: u32, second: u32) -> (r: Result<TimeOfDay, ConfigError>)
        ensures
            r is Ok <==> valid_hms(hour as int, minute as int, second as int),
            r matches Ok(t) ==> t == (TimeOfDay { hour, minute, second }) && t.wf(),
            r == Err::<TimeOfDay, ConfigError>(ConfigError::HourOutOfRange) <==> hour >= 24,
            r == Err::<TimeOfDay, ConfigError>(ConfigError::MinuteOutOfRange) <==> hour < 24
                && minute >= 60,
            r == Err::<TimeOfDay, ConfigError>(ConfigError::SecondOutOfRange) <==> hour < 24
                && minute < 60 && second >= 60,
    {
        if hour >= 24 {
            Err(ConfigError::HourOutOfRange)
        } else if minute >= 60 {
            Err(ConfigError::MinuteOutOfRange)
        } else if second >= 60 {
            Err(ConfigError::SecondOutOfRange)
        } else {
            Ok(TimeOfDay { hour, minute, second })
        }
    }

    /// Builds a time of day from an `[hour, minute, second]` triple.
    pub fn from_triple(triple: [u32; 3]) -> (r: Result<TimeOfDay, ConfigError>)
        ensures
            r is Ok <==> valid_hms(triple[0] as int, triple[1] as int, triple[2] as int),
            r matches Ok(t) ==> t == (TimeOfDay {
                hour: triple[0],
                minute: triple[1],
                second: triple[2],
            }) && t.wf(),
            r == Err::<TimeOfDay, ConfigError>(ConfigError::HourOutOfRange) <==> triple[0] >= 24,
            r == Err::<TimeOfDay, ConfigError>(ConfigError::MinuteOutOfRange) <==> triple[0] < 24
                && triple[1] >= 60,
            r == Err::<TimeOfDay, ConfigError>(ConfigError::SecondOutOfRange) <==> triple[0] < 24
                && triple[1] < 60 && triple[2] >= 60,
    {
        TimeOfDay::from_hms(triple[0], triple[1], triple[2])
    }

    /// The time as an `[hour, minute, second]` triple.
    pub fn to_triple(&self) -> (r: [u32; 3])
        ensures
            r[0] == self.hour,
            r[1] == self.minute,
            r[2] == self.second,
    {
        [self.hour, self.minute, self.second]
    }

    /// Whether `self` comes strictly earlier in the day than `other`.
    pub fn is_before(&self, other: &TimeOfDay) -> (r: bool)
        requires
            self.wf(),
            other.wf(),
        ensures
            r == self.precedes(*other),
    {
        if self.hour != other.hour {
            self.hour < other.hour
        } else if self.minute != other.minute {
            self.minute < other.minute
        } else {
            self.second < other.second
        }
    }
}

/// Two valid times of day compare by their seconds since midnight exactly as
/// they compare field by field, hour first, then minute, then second.
pub proof fn lemma_precedes_is_fieldwise(a: TimeOfDay, b: TimeOfDay)
    requires
        a.wf(),
        b.wf(),
    ensures
        a.precedes(b) <==> (a.hour < b.hour || (a.hour == b.hour && (a.minute < b.minute || (
        a.minute == b.minute && a.second < b.second)))),
        !a.precedes(a),
        a.precedes(b) ==> !b.precedes(a),
        a.seconds_from_midnight() == b.seconds_from_midnight() <==> a == b,
{
}

} // verus!
