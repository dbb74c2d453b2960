//! Which room wants to hear about which game modes.
//!
//! The configuration is checked when it is built: a room that is listed twice
//! or a mode without a name or a player-count label is refused then, never
//! during a watch cycle.

use vstd::prelude::*;
use crate::game_mode::{GameImage, GameMode};
use crate::mode_set::{ids_of, ModeId};

verus! {

/// A game mode as the configuration text gives it, before it is known to
/// have the two fields that make up its identity.
#[derive(Debug)]
pub struct ModeEntry {
    pub name: Option<String>,
    pub players: Option<String>,
    pub image: Option<GameImage>,
    pub description: Option<String>,
    pub label: Option<String>,
}

impl ModeEntry {
    /// The entry names a mode: it has a name and a player-count label.
    pub open spec fn is_complete(&self) -> bool {
        self.name is Some && self.players is Some
    }

    /// The mode that a complete entry names.
    pub open spec fn mode(&self) -> GameMode {
        GameMode {
            name: self.name->0,
            players: self.players->0,
            image: self.image,
            description: self.description,
            label: self.label,
        }
    }

    /// The mode that the entry names, or nothing where the name or the
    /// player-count label is missing.
    pub fn to_mode(&self) -> (mode: Option<GameMode>)
        ensures
            mode is Some <==> self.is_complete(),
            mode matches Some(m) ==> m == self.mode(),
    {
        match (&self.name, &self.players) {
            (Some(name), Some(players)) => Some(
                GameMode {
                    name: name.clone(),
                    players: players.clone(),
                    image: match &self.image {
                        Some(img) => Some(img.clone()),
                        None => None,
                    },
                    description: match &self.description {
                        Some(text) => Some(text.clone()),
                        None => None,
                    },
                    label: match &self.label {
                        Some(text) => Some(text.clone()),
                        None => None,
                    },
                },
            ),
            _ => None,
        }
    }
}

/// Why a configuration was refused.
#[derive(Debug, Clone, Copy, PartialEq, Eq, Structural)]
pub enum ConfigError {
    /// The room is listed more than once.
    DuplicateRoom { room: u64 },
    /// The entry at position `index` of the room's list lacks a name or a
    /// player-count label.
    MalformedMode { room: u64, index: usize },
}

/// The modes that one room wants to hear about.
#[derive(Debug)]
pub struct RoomConfig {
    gamemodes: Vec<GameMode>,
}

impl RoomConfig {
    /// The modes of the room, in the order of the configuration.
    pub closed spec fn modes(&self) -> Seq<GameMode> {
        self.gamemodes@
    }

    /// The configuration of a room that wants to hear about `gamemodes`.
    pub fn new(gamemodes: Vec<GameMode>) -> (room: RoomConfig)
        ensures
            room.modes() == gamemodes@,
    {
        RoomConfig { gamemodes }
    }

    /// The modes of the room.
    pub fn gamemodes(&self) -> (modes: &Vec<GameMode>)
        ensures
            modes@ == self.modes(),
    {
        &self.gamemodes
    }
}

/// The modes named by a list of complete entries, in order.
pub open spec fn modes_of(entries: Seq<ModeEntry>) -> Seq<GameMode> {
    Seq::new(entries.len(), |i: int| entries[i].mode())
}

/// The position of the first entry of `entries` that names no mode, or the
/// length of `entries` where every entry names one.
pub open spec fn first_incomplete(entries: Seq<ModeEntry>) -> int
    decreases entries.len(),
{
    if entries.len() == 0 {
        0
    } else if !entries[0].is_complete() {
        0
    } else {
        1 + first_incomplete(entries.drop_first())
    }
}

/// `first_incomplete` is the least position of an incomplete entry.
pub proof fn lemma_first_incomplete(entries: Seq<ModeEntry>)
    ensures
        0 <= first_incomplete(entries) <= entries.len(),
        forall|i: int| 0 <= i < first_incomplete(entries) ==> (#[trigger] entries[i]).is_complete(),
        first_incomplete(entries) < entries.len() ==> !entries[first_incomplete(
            entries,
        )].is_complete(),
    decreases entries.len(),
{
    if entries.len() > 0 && entries[0].is_complete() {
        let rest = entries.drop_first();
        lemma_first_incomplete(rest);
        assert forall|i: int| 0 <= i < first_incomplete(entries) implies (#[trigger] entries[i]).is_complete() by {
            if i > 0 {
                assert(rest[i - 1].is_complete());
            }
        }
    }
}

/// Turns the entries of one room into modes. Fails at the first entry that
/// names no mode, with its position.
pub fn complete_modes(entries: &Vec<ModeEntry>) -> (modes: Result<Vec<GameMode>, usize>)
    ensures
        match modes {
            Ok(list) => first_incomplete(entries@) == entries@.len() && list@ == modes_of(
                entries@,
            ),
            Err(index) => index < entries@.len() && index == first_incomplete(entries@),
        },
{
    let ghost all = entries@;
    let mut modes: Vec<GameMode> = Vec::new();
    let mut index: usize = 0;
    proof {
        lemma_first_incomplete(all);
    }
    while index < entries.len()
        invariant
            all == entries@,
            index <= all.len(),
            modes@ == modes_of(all.take(index as int)),
            forall|k: int| 0 <= k < index ==> (#[trigger] all[k]).is_complete(),
            0 <= first_incomplete(all) <= all.len(),
            forall|i: int| 0 <= i < first_incomplete(all) ==> (#[trigger] all[i]).is_complete(),
            first_incomplete(all) < all.len() ==> !all[first_incomplete(all)].is_complete(),
        decreases all.len() - index,
    {
        match entries[index].to_mode() {
            Some(mode) => {
                modes.push(mode);
                assert(modes@ =~= modes_of(all.take(index + 1)));
            },
            None => {
                assert(first_incomplete(all) == index) by {
                    if first_incomplete(all) > index {
                        assert(all[index as int].is_complete());
                    }
                }
                return Err(index);
            },
        }
        index += 1;
    }
    assert(all.take(all.len() as int) =~= all);
    assert(first_incomplete(all) == all.len()) by {
        if first_incomplete(all) < all.len() {
            assert(all[first_incomplete(all)].is_complete());
        }
    }
    Ok(modes)
}

/// No room occurs twice in `rooms`.
pub open spec fn rooms_distinct<V>(rooms: Seq<(u64, V)>) -> bool {
    forall|i: int, j: int| 0 <= i < j < rooms.len() ==> (#[trigger] rooms[i]).0 != (#[trigger] rooms[j]).0
}

/// `room` occurs in `rooms`.
pub open spec fn has_room<V>(rooms: Seq<(u64, V)>, room: u64) -> bool {
    exists|i: int| 0 <= i < rooms.len() && (#[trigger] rooms[i]).0 == room
}

/// A position at which `room` occurs in `rooms`.
pub open spec fn position_of<V>(rooms: Seq<(u64, V)>, room: u64) -> int {
    choose|i: int| 0 <= i < rooms.len() && (#[trigger] rooms[i]).0 == room
}

/// In a list without a repeated room, a room stands at one position only.
pub proof fn lemma_position_of<V>(rooms: Seq<(u64, V)>, k: int)
    requires
        rooms_distinct(rooms),
        0 <= k < rooms.len(),
    ensures
        has_room(rooms, rooms[k].0),
        position_of(rooms, rooms[k].0) == k,
{
    let room = rooms[k].0;
    let p = position_of(rooms, room);
    assert(rooms[k].0 == room);
    if p < k {
        assert(rooms[p].0 != rooms[k].0);
    }
    if k < p {
        assert(rooms[k].0 != rooms[p].0);
    }
}

/// What is wrong with the entry at position `i` of a configuration, seen
/// after the entries before it: its room was listed before, or one of its
/// modes lacks a name or a player-count label (the first such is reported).
pub open spec fn fault_at(entries: Seq<(u64, Vec<ModeEntry>)>, i: int) -> Option<ConfigError> {
    let room = entries[i].0;
    let list = entries[i].1@;
    if has_room(entries.take(i), room) {
        Some(ConfigError::DuplicateRoom { room })
    } else if first_incomplete(list) < list.len() {
        Some(ConfigError::MalformedMode { room, index: first_incomplete(list) as usize })
    } else {
        None
    }
}

/// The rooms that a faultless list of entries configures, in order.
pub open spec fn rooms_of(entries: Seq<(u64, Vec<ModeEntry>)>) -> Seq<(u64, Seq<GameMode>)> {
    Seq::new(entries.len(), |i: int| (entries[i].0, modes_of(entries[i].1@)))
}

/// For every room the modes that it wants to hear about.
#[derive(Debug)]
pub struct WatcherConfig {
    rooms: Vec<(u64, RoomConfig)>,
}

impl WatcherConfig {
    /// The rooms with their modes, in the order of the configuration.
    pub closed spec fn rooms(&self) -> Seq<(u64, Seq<GameMode>)> {
        Seq::new(self.rooms@.len(), |i: int| (self.rooms@[i].0, self.rooms@[i].1.modes()))
    }

    /// The invariant of the type: no room is configured twice.
    pub open spec fn wf(&self) -> bool {
        rooms_distinct(self.rooms())
    }

    /// Whether `room` is configured.
    pub open spec fn has(&self, room: u64) -> bool {
        has_room(self.rooms(), room)
    }

    /// The identities of the modes that a configured room wants to hear about.
    pub open spec fn interest(&self, room: u64) -> Set<ModeId> {
        ids_of(self.rooms()[position_of(self.rooms(), room)].1)
    }

    /// The configuration without any room.
    pub fn new() -> (config: WatcherConfig)
        ensures
            config.wf(),
            config.rooms() == Seq::<(u64, Seq<GameMode>)>::empty(),
    {
        let config = WatcherConfig { rooms: Vec::new() };
        assert(config.rooms() =~= Seq::<(u64, Seq<GameMode>)>::empty());
        config
    }

    /// Whether `room` is configured.
    pub fn contains_room(&self, room: u64) -> (found: bool)
        ensures
            found == self.has(room),
    {
        let mut i: usize = 0;
        while i < self.rooms.len()
            invariant
                i <= self.rooms@.len(),
                forall|k: int| 0 <= k < i ==> (#[trigger] self.rooms()[k]).0 != room,
            decreases self.rooms@.len() - i,
        {
            if self.rooms[i].0 == room {
                assert(self.rooms()[i as int].0 == room);
                return true;
            }
            i += 1;
        }
        false
    }

    /// Configures one more room. A room that is configured already is
    /// refused, and the configuration stays as it was.
    pub fn insert(&mut self, room: u64, wanted: RoomConfig) -> (done: Result<(), ConfigError>)
        requires
            old(self).wf(),
        ensures
            final(self).wf(),
            match done {
                Ok(_) => !old(self).has(room) && final(self).rooms() == old(self).rooms().push(
                    (room, wanted.modes()),
                ),
                Err(e) => old(self).has(room) && e == (ConfigError::DuplicateRoom { room })
                    && final(self).rooms() == old(self).rooms(),
            },
    {
        if self.contains_room(room) {
            Err(ConfigError::DuplicateRoom { room })
        } else {
            let ghost before = self.rooms();
            self.rooms.push((room, wanted));
            assert(self.rooms() =~= before.push((room, wanted.modes())));
            Ok(())
        }
    }

    /// The configuration that `entries` describes.
    ///
    /// The entries are taken in order. The first one whose room was listed
    /// before, or that holds a mode without a name or a player-count label,
    /// decides the error; with no such entry there is a configuration, and it
    /// holds the rooms and modes of `entries` in their order.
    pub fn from_entries(entries: &Vec<(u64, Vec<ModeEntry>)>) -> (config: Result<
        WatcherConfig,
        ConfigError,
    >)
        ensures
            match config {
                Ok(c) => c.wf() && c.rooms() == rooms_of(entries@) && forall|i: int|
                    0 <= i < entries@.len() ==> fault_at(entries@, i) is None,
                Err(e) => exists|i: int|
                    0 <= i < entries@.len() && #[trigger] fault_at(entries@, i) == Some(e)
                        && forall|j: int| 0 <= j < i ==> fault_at(entries@, j) is None,
            },
    {
        let mut config = WatcherConfig::new();
        let mut i: usize = 0;
        while i < entries.len()
            invariant
                i <= entries@.len(),
                config.wf(),
                config.rooms() == rooms_of(entries@.take(i as int)),
                forall|j: int| 0 <= j < i ==> fault_at(entries@, j) is None,
            decreases entries@.len() - i,
        {
            let room = entries[i].0;
            let ghost seen = entries@.take(i as int);
            proof {
                if has_room(seen, room) {
                    let k = choose|k: int| 0 <= k < seen.len() && (#[trigger] seen[k]).0 == room;
                    assert(config.rooms()[k].0 == room);
                }
                if config.has(room) {
                    let k = choose|k: int|
                        0 <= k < config.rooms().len() && (#[trigger] config.rooms()[k]).0 == room;
                    assert(seen[k].0 == room);
                }
            }
            if config.contains_room(room) {
                assert(fault_at(entries@, i as int) == Some(ConfigError::DuplicateRoom { room }));
                return Err(ConfigError::DuplicateRoom { room });
            }
            match complete_modes(&entries[i].1) {
                Ok(modes) => {
                    let done = config.insert(room, RoomConfig::new(modes));
                    assert(done is Ok);
                    assert(config.rooms() =~= rooms_of(entries@.take(i + 1)));
                },
                Err(index) => {
                    assert(fault_at(entries@, i as int) == Some(
                        ConfigError::MalformedMode { room, index },
                    ));
                    return Err(ConfigError::MalformedMode { room, index });
                },
            }
            i += 1;
        }
        assert(entries@.take(entries@.len() as int) =~= entries@);
        Ok(config)
    }

    /// The rooms with their modes, in the order of the configuration.
    pub fn walk_rooms(&self) -> (walk: Vec<(u64, &Vec<GameMode>)>)
        ensures
            walk@.len() == self.rooms().len(),
            forall|i: int|
                0 <= i < walk@.len() ==> (#[trigger] walk@[i]).0 == self.rooms()[i].0 && walk@[i].1@
                    == self.rooms()[i].1,
    {
        let mut walk: Vec<(u64, &Vec<GameMode>)> = Vec::new();
        let mut i: usize = 0;
        while i < self.rooms.len()
            invariant
                i <= self.rooms@.len(),
                walk@.len() == i,
                forall|k: int|
                    0 <= k < i ==> (#[trigger] walk@[k]).0 == self.rooms()[k].0 && walk@[k].1@
                        == self.rooms()[k].1,
            decreases self.rooms@.len() - i,
        {
            walk.push((self.rooms[i].0, self.rooms[i].1.gamemodes()));
            i += 1;
        }
        walk
    }
}

/// The part of the bot's settings that is kept in the object store.
#[derive(Debug)]
pub struct DynamicConfig {
    pub watcher: WatcherConfig,
}

} // verus!
