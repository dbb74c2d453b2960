//! What a room is shown about a game mode, and what becomes of a round of
//! deliveries.
//!
//! Sending is the caller's business. This module says what is to be sent,
//! and decides after each attempt whether the round goes on.

use vstd::prelude::*;
use vstd::string::StringExecFns;
use crate::game_mode::GameMode;
use crate::owatapi::OWTODAY_URL;

verus! {

/// One labelled value of a message.
#[derive(Debug)]
pub struct MessageField {
    pub name: String,
    pub value: String,
    pub inline: bool,
}

/// The message that announces a game mode.
#[derive(Debug)]
pub struct GameModeMessage {
    pub title: String,
    pub url: String,
    /// Red, green and blue of the stripe beside the message.
    pub colour: (u8, u8, u8),
    pub fields: Vec<MessageField>,
    pub image: Option<String>,
}

/// The message that announces `gm`: its name as the title, linked to the
/// page of today's modes, a green stripe, the player-count label in one
/// inline field named `Players`, and its picture where it has one.
pub fn gamemode_message(gm: &GameMode) -> (message: GameModeMessage)
    ensures
        message.title@ == gm.name@,
        message.url@ == OWTODAY_URL@,
        message.colour == (0x07u8, 0x85u8, 0x3eu8),
        message.fields@.len() == 1,
        message.fields@[0].name@ == "Players"@,
        message.fields@[0].value@ == gm.players@,
        message.fields@[0].inline,
        match gm.image {
            Some(img) => message.image matches Some(url) && url@ == img.url@,
            None => message.image is None,
        },
{
    let mut fields: Vec<MessageField> = Vec::new();
    fields.push(
        MessageField { name: String::from_str("Players"), value: gm.players.clone(), inline: true },
    );
    GameModeMessage {
        title: gm.name.clone(),
        url: String::from_str(OWTODAY_URL),
        colour: (0x07, 0x85, 0x3e),
        fields,
        image: match &gm.image {
            Some(img) => Some(img.url.clone()),
            None => None,
        },
    }
}

/// What a round of deliveries does after a failed delivery.
#[derive(Debug, Clone, Copy, PartialEq, Eq, Structural)]
pub enum DeliveryPolicy {
    /// The round ends at the first failure.
    AbortOnFirst,
    /// The round goes on and the failures are collected.
    ContinueAndCollect,
}

/// A delivery that failed: the room, the mode, and what went wrong.
#[derive(Debug)]
pub struct DeliveryError {
    pub room: u64,
    pub mode: GameMode,
    pub cause: String,
}

/// The account of a round of deliveries.
#[derive(Debug)]
pub struct DeliveryLog {
    policy: DeliveryPolicy,
    failures: Vec<DeliveryError>,
}

impl DeliveryLog {
    /// The policy of the round.
    pub closed spec fn policy(&self) -> DeliveryPolicy {
        self.policy
    }

    /// The failed deliveries so far, in the order in which they failed.
    pub closed spec fn failures(&self) -> Seq<DeliveryError> {
        self.failures@
    }

    /// Whether the round may go on: always under `ContinueAndCollect`, and
    /// under `AbortOnFirst` as long as nothing has failed.
    pub open spec fn open(&self) -> bool {
        self.policy() == DeliveryPolicy::ContinueAndCollect || self.failures().len() == 0
    }

    /// The account of a round in which nothing has been delivered yet.
    pub fn new(policy: DeliveryPolicy) -> (log: DeliveryLog)
        ensures
            log.policy() == policy,
            log.failures() == Seq::<DeliveryError>::empty(),
            log.open(),
    {
        DeliveryLog { policy, failures: Vec::new() }
    }

    /// Whether the round may go on.
    pub fn is_open(&self) -> (open: bool)
        ensures
            open == self.open(),
    {
        match self.policy {
            DeliveryPolicy::ContinueAndCollect => true,
            DeliveryPolicy::AbortOnFirst => self.failures.len() == 0,
        }
    }

    /// Takes note of what came of delivering `mode` to `room`, and says
    /// whether the round goes on. A success changes nothing; a failure is
    /// added to the failures.
    pub fn record(&mut self, room: u64, mode: &GameMode, outcome: Result<(), String>) -> (go_on:
        bool)
        ensures
            final(self).policy() == old(self).policy(),
            go_on == final(self).open(),
            match outcome {
                Ok(_) => final(self).failures() == old(self).failures(),
                Err(cause) => final(self).failures() == old(self).failures().push(
                    DeliveryError { room, mode: *mode, cause },
                ),
            },
    {
        match outcome {
            Ok(_) => {},
            Err(cause) => {
                self.failures.push(DeliveryError { room, mode: mode.clone(), cause });
            },
        }
        self.is_open()
    }

    /// The end of the round: success where nothing failed, the failures
    /// otherwise.
    pub fn finish(self) -> (end: Result<(), Vec<DeliveryError>>)
        ensures
            match end {
                Ok(_) => self.failures().len() == 0,
                Err(failures) => failures@ == self.failures() && failures@.len() > 0,
            },
    {
        if self.failures.len() == 0 {
            Ok(())
        } else {
            Err(self.failures)
        }
    }
}

} // verus!
