//! Request queue and playback-selection engine of a personal music-queue
//! player.
//!
//! The crate holds the rules of the player: the store of song requests, the
//! way a feed is merged into it, the choice of what plays next, the playback
//! cycle and the time-of-day cutoff. Reading the network, the disk and running
//! the media player are left to the caller, who hands plain values in and
//! takes plain values back.

pub mod clock;
pub mod config;
pub mod decimal;
pub mod end_time;
pub mod orchestrator;
pub mod player;
pub mod queue;
pub mod request;
pub mod resolver;
pub mod selection;
pub mod store;
pub mod sync;
pub mod text;
pub mod time_gate;
pub mod time_of_day;
