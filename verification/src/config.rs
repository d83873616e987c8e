//! The configuration that the player runs with.

use crate::time_of_day::{valid_hms, ConfigError, TimeOfDay};
use vstd::prelude::*;
use vstd::string::StringExecFns;

verus! {

/// The address of the backend feed up to the deployment's id.
pub const FEED_URL_HEAD: &'static str = "https://script.google.com/macros/s/";

/// The address of the backend feed after the deployment's id.
pub const FEED_URL_TAIL: &'static str = "/exec";

/// The settings of the player.
#[derive(Debug, PartialEq, Eq)]
pub struct MyConfig {
    /// The id of the backend's deployment.
    pub api_key: String,
    /// The time of day at which playback ends, as `[hour, minute, second]`
    /// on a 24-hour clock.
    pub end_time: [u32; 3],
}

impl Default for MyConfig {
    /// No deployment id, and playback until 13:05:00.
    fn default() -> (cfg: MyConfig)
        ensures
            cfg.api_key@ == Seq::<char>::empty(),
            cfg.end_time[0] == 13,
            cfg.end_time[1] == 5,
            cfg.end_time[2] == 0,
            cfg.has_valid_end_time(),
    {
        MyConfig { api_key: String::new(), end_time: [13, 5, 0] }
    }
}

impl MyConfig {
    /// The end time names a time on a 24-hour clock.
    pub open spec fn has_valid_end_time(&self) -> bool {
        valid_hms(self.end_time[0] as int, self.end_time[1] as int, self.end_time[2] as int)
    }

    /// The time of day at which playback ends, or the field of the configured
    /// end time that is out of range.
    pub fn deadline(&self) -> (r: Result<TimeOfDay, ConfigError>)
        ensures
            r is Ok <==> self.has_valid_end_time(),
            r matches Ok(t) ==> t.wf() && t.hour == self.end_time[0] && t.minute
                == self.end_time[1] && t.second == self.end_time[2],
            r == Err::<TimeOfDay, ConfigError>(ConfigError::HourOutOfRange) <==> self.end_time[0]
                >= 24,
            r == Err::<TimeOfDay, ConfigError>(ConfigError::MinuteOutOfRange) <==> self.end_time[0]
                < 24 && self.end_time[1] >= 60,
            r == Err::<TimeOfDay, ConfigError>(ConfigError::SecondOutOfRange) <==> self.end_time[0]
                < 24 && self.end_time[1] < 60 && self.end_time[2] >= 60,
    {
        TimeOfDay::from_triple(self.end_time)
    }

    /// The address of the backend feed for this configuration's deployment.
    pub fn feed_url(&self) -> (url: String)
        ensures
            url@ == FEED_URL_HEAD@ + self.api_key@ + FEED_URL_TAIL@,
    {
        let mut url = String::from_str(FEED_URL_HEAD);
        url.append(self.api_key.as_str());
        url.append(FEED_URL_TAIL);
        url
    }
}

} // verus!
