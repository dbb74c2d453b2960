//! A state-diffing watch engine for a feed of active game modes.
//!
//! Each watch cycle compares the modes that the feed reports now with the
//! modes that were recorded by the cycle before, records the new set, and
//! hands every room the newly appeared modes that it asked to hear about.

pub mod arcade_state;
pub mod arcade_watcher;
pub mod discord;
pub mod game_diff;
pub mod game_mode;
pub mod mode_set;
pub mod owatapi;
pub mod report;
pub mod stupids3;
pub mod today;
pub mod watcher_config;

pub use arcade_state::{ArcadeState, MemoryState, S3State};
pub use arcade_watcher::{WatchError, Watcher};
pub use game_diff::GameDiff;
pub use game_mode::{GameImage, GameMode};
pub use mode_set::ModeSet;
pub use today::{Arcade, TodayResponse};
pub use watcher_config::{ConfigError, DynamicConfig, ModeEntry, RoomConfig, WatcherConfig};
