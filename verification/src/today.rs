//! What the feed answers when it is asked for today's game modes.

use vstd::prelude::*;
use crate::game_mode::GameMode;

verus! {

/// The game modes of one day.
#[derive(Debug)]
pub struct Arcade {
    pub is_today: bool,
    /// The moment at which the feed drew up the list, as the feed wrote it.
    pub created_at: String,
    pub modes: Vec<GameMode>,
}

/// The answer of the feed: the list, whether the feed calls the request a
/// success, and the feed's message where it does not.
#[derive(Debug)]
pub struct TodayResponse {
    pub data: Arcade,
    pub success: bool,
    pub message: Option<String>,
}

} // verus!
