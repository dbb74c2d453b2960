//! One watch cycle: take the answer of the feed, compare it with the record,
//! renew the record, and pick for every room the new modes that it asked for.

use std::collections::HashMap;
use vstd::prelude::*;
use crate::arcade_state::ArcadeState;
use crate::game_diff::{added_between, GameDiff};
use crate::game_mode::GameMode;
use crate::mode_set::{ids_of, known_to, ModeId, ModeSet};
use crate::stupids3::StupidS3Error;
use crate::today::TodayResponse;
use crate::watcher_config::{
    has_room, lemma_position_of, position_of, rooms_distinct, WatcherConfig,
};

verus! {

broadcast use vstd::std_specs::hash::group_hash_axioms;

/// Why a watch cycle was given up.
#[derive(Debug)]
pub enum WatchError {
    /// The feed could not be reached or its answer could not be read.
    Fetch(String),
    /// The feed answered that the request failed, with this message.
    Upstream(Option<String>),
    /// The record of the last observation could not be read.
    StateRead(StupidS3Error),
    /// The record could not be renewed.
    StateWrite(StupidS3Error),
}

/// The watcher of a feed: the rooms with the modes that each wants to hear
/// about, and the record of the last observation.
pub struct Watcher<T> {
    inner: Vec<(u64, ModeSet)>,
    state: T,
}

impl<T: ArcadeState> Watcher<T> {
    /// The rooms, each with the identities of the modes that it wants to
    /// hear about.
    pub closed spec fn rooms(&self) -> Seq<(u64, Set<ModeId>)> {
        Seq::new(self.inner@.len(), |i: int| (self.inner@[i].0, self.inner@[i].1@))
    }

    /// The record of the last observation.
    pub closed spec fn state(&self) -> T {
        self.state
    }

    /// The invariant of the type: no room occurs twice.
    pub closed spec fn wf(&self) -> bool {
        &&& rooms_distinct(self.rooms())
        &&& forall|i: int| 0 <= i < self.inner@.len() ==> (#[trigger] self.inner@[i]).1.wf()
    }

    /// Whether `room` is watched for.
    pub open spec fn has(&self, room: u64) -> bool {
        has_room(self.rooms(), room)
    }

    /// The identities of the modes that a room wants to hear about.
    pub open spec fn interest(&self, room: u64) -> Set<ModeId> {
        self.rooms()[position_of(self.rooms(), room)].1
    }

    /// `batch` is what the rooms are to be told when the modes of `added`
    /// have appeared: a room is in it exactly when it wants to hear about at
    /// least one of them, and it is then told the modes of `added` that it
    /// wants to hear about, each once, with the records and in the order of
    /// `added`.
    pub open spec fn is_batch_for(&self, batch: Map<u64, ModeSet>, added: Seq<GameMode>) -> bool {
        &&& forall|room: u64| #[trigger]
            batch.contains_key(room) <==> self.has(room) && ids_of(added).intersect(
                self.interest(room),
            ) != Set::<ModeId>::empty()
        &&& forall|room: u64| #[trigger]
            batch.contains_key(room) ==> {
                &&& batch[room].wf()
                &&& batch[room]@ == ids_of(added).intersect(self.interest(room))
                &&& batch[room].elems() == added.filter(known_to(self.interest(room)))
            }
    }

    /// `batch` is what the rooms are to be told when `current` is observed
    /// after some earlier observation.
    pub open spec fn answers(&self, batch: Map<u64, ModeSet>, current: Seq<GameMode>) -> bool {
        exists|previous: Seq<GameMode>| #[trigger]
            self.is_batch_for(batch, added_between(previous, current))
    }

    /// The watcher of the rooms of `watcher_cfg`, with `state` as its record.
    pub fn new(state: T, watcher_cfg: &WatcherConfig) -> (watcher: Watcher<T>)
        requires
            watcher_cfg.wf(),
        ensures
            watcher.wf(),
            watcher.state() == state,
            watcher.rooms() == watcher_cfg.rooms().map_values(
                |r: (u64, Seq<GameMode>)| (r.0, ids_of(r.1)),
            ),
            forall|room: u64| watcher.has(room) == watcher_cfg.has(room),
            forall|room: u64|
                watcher_cfg.has(room) ==> watcher.interest(room) == watcher_cfg.interest(room),
    {
        let walk = watcher_cfg.walk_rooms();
        let ghost wanted = watcher_cfg.rooms().map_values(
            |r: (u64, Seq<GameMode>)| (r.0, ids_of(r.1)),
        );
        let mut inner: Vec<(u64, ModeSet)> = Vec::new();
        let mut i: usize = 0;
        while i < walk.len()
            invariant
                i <= walk@.len(),
                walk@.len() == watcher_cfg.rooms().len(),
                forall|k: int|
                    0 <= k < walk@.len() ==> (#[trigger] walk@[k]).0 == watcher_cfg.rooms()[k].0
                        && walk@[k].1@ == watcher_cfg.rooms()[k].1,
                inner@.len() == i,
                forall|k: int|
                    0 <= k < i ==> (#[trigger] inner@[k]).0 == watcher_cfg.rooms()[k].0
                        && inner@[k].1@ == ids_of(watcher_cfg.rooms()[k].1) && inner@[k].1.wf(),
            decreases walk@.len() - i,
        {
            let room = walk[i].0;
            let interested = ModeSet::from_modes(walk[i].1);
            inner.push((room, interested));
            i += 1;
        }
        let watcher = Watcher { inner, state };
        proof {
            assert(watcher.rooms() =~= wanted);
            let cfg = watcher_cfg.rooms();
            let mine = watcher.rooms();
            assert forall|a: int, b: int| 0 <= a < b < mine.len() implies (#[trigger] mine[a]).0
                != (#[trigger] mine[b]).0 by {
                assert(cfg[a].0 != cfg[b].0);
            }
            assert forall|room: u64| watcher.has(room) == watcher_cfg.has(room) by {
                if has_room(mine, room) {
                    let k = choose|k: int| 0 <= k < mine.len() && (#[trigger] mine[k]).0 == room;
                    assert(cfg[k].0 == room);
                }
                if has_room(cfg, room) {
                    let k = choose|k: int| 0 <= k < cfg.len() && (#[trigger] cfg[k]).0 == room;
                    assert(mine[k].0 == room);
                }
            }
            assert forall|room: u64| watcher_cfg.has(room) implies watcher.interest(room)
                == watcher_cfg.interest(room) by {
                let k = position_of(cfg, room);
                assert(mine[k].0 == room);
                lemma_position_of(mine, k);
            }
        }
        watcher
    }

    /// The modes that `room` wants to hear about, or nothing where the room
    /// is not watched for.
    pub fn interest_of(&self, room: u64) -> (wanted: Option<&ModeSet>)
        requires
            self.wf(),
        ensures
            wanted is Some <==> self.has(room),
            wanted matches Some(set) ==> set.wf() && set@ == self.interest(room),
    {
        let mut i: usize = 0;
        while i < self.inner.len()
            invariant
                i <= self.inner@.len(),
                self.wf(),
                forall|k: int| 0 <= k < i ==> (#[trigger] self.rooms()[k]).0 != room,
            decreases self.inner@.len() - i,
        {
            if self.inner[i].0 == room {
                proof {
                    lemma_position_of(self.rooms(), i as int);
                }
                return Some(&self.inner[i].1);
            }
            i += 1;
        }
        None
    }

    /// The record of the last observation.
    pub fn state_ref(&self) -> (state: &T)
        ensures
            *state == self.state(),
    {
        &self.state
    }

    /// What the rooms are to be told about the modes that `diff` reports as
    /// added. The removed modes are told to nobody.
    pub fn notifications(&self, diff: &GameDiff) -> (batch: HashMap<u64, ModeSet>)
        requires
            self.wf(),
            diff.wf(),
        ensures
            self.is_batch_for(batch@, diff.added.elems()),
    {
        let mut batch: HashMap<u64, ModeSet> = HashMap::new();
        let mut i: usize = 0;
        let ghost rooms = self.rooms();
        let ghost added = diff.added;
        while i < self.inner.len()
            invariant
                i <= self.inner@.len(),
                self.wf(),
                added.wf(),
                added == diff.added,
                rooms == self.rooms(),
                forall|room: u64| #[trigger]
                    batch@.contains_key(room) <==> has_room(rooms.take(i as int), room) && ids_of(
                        added.elems(),
                    ).intersect(self.interest(room)) != Set::<ModeId>::empty(),
                forall|room: u64| #[trigger]
                    batch@.contains_key(room) ==> {
                        &&& batch@[room].wf()
                        &&& batch@[room]@ == ids_of(added.elems()).intersect(self.interest(room))
                        &&& batch@[room].elems() == added.elems().filter(
                            known_to(self.interest(room)),
                        )
                    },
            decreases self.inner@.len() - i,
        {
            let room = self.inner[i].0;
            let watched_added = diff.added.intersection(&self.inner[i].1);
            let ghost seen = rooms.take(i as int);
            let ghost next = rooms.take(i + 1);
            proof {
                lemma_position_of(rooms, i as int);
                assert(self.interest(room) == self.inner@[i as int].1@);
                assert(next =~= seen.push(rooms[i as int]));
                assert forall|r: u64| has_room(next, r) <==> has_room(seen, r) || r == room by {
                    if has_room(next, r) {
                        let k = choose|k: int| 0 <= k < next.len() && (#[trigger] next[k]).0 == r;
                        if k < i {
                            assert(seen[k].0 == r);
                        }
                    }
                    if has_room(seen, r) {
                        let k = choose|k: int| 0 <= k < seen.len() && (#[trigger] seen[k]).0 == r;
                        assert(next[k].0 == r);
                    }
                    if r == room {
                        assert(next[i as int].0 == r);
                    }
                }
                if has_room(seen, room) {
                    let k = choose|k: int| 0 <= k < seen.len() && (#[trigger] seen[k]).0 == room;
                    assert(rooms[k].0 != rooms[i as int].0);
                }
            }
            if !watched_added.is_empty() {
                batch.insert(room, watched_added);
            }
            i += 1;
        }
        proof {
            assert(rooms.take(self.inner@.len() as int) =~= rooms);
        }
        batch
    }

    /// Runs one watch cycle on what came of asking the feed.
    ///
    /// A failed request and an answer that reports failure end the cycle
    /// before the record is touched. Otherwise the record is read, then
    /// renewed with the modes of the answer, also where nothing has changed,
    /// and only then are the rooms given their new modes: a cycle that could
    /// not read or could not renew the record tells nobody anything.
    ///
    /// Where the record is known, the cycle succeeds, the rooms are told
    /// what has appeared since the record, and the record then holds the
    /// modes of the answer.
    pub fn update(&mut self, fetched: Result<TodayResponse, String>) -> (told: Result<
        HashMap<u64, ModeSet>,
        WatchError,
    >)
        requires
            old(self).wf(),
        ensures
            final(self).wf(),
            final(self).rooms() == old(self).rooms(),
            match fetched {
                Err(why) => told == Err::<HashMap<u64, ModeSet>, WatchError>(WatchError::Fetch(why))
                    && final(self).state() == old(self).state(),
                Ok(response) => if !response.success {
                    told == Err::<HashMap<u64, ModeSet>, WatchError>(
                        WatchError::Upstream(response.message),
                    ) && final(self).state() == old(self).state()
                } else {
                    &&& match told {
                        Ok(batch) => final(self).answers(batch@, response.data.modes@),
                        Err(WatchError::StateRead(_)) => final(self).state() == old(self).state(),
                        Err(WatchError::StateWrite(_)) => true,
                        Err(_) => false,
                    }
                    &&& old(self).state().known() matches Some(previous) ==> {
                        &&& told matches Ok(batch) && final(self).is_batch_for(
                            batch@,
                            added_between(previous, response.data.modes@),
                        )
                        &&& final(self).state().known() == Some(response.data.modes@)
                    }
                },
            },
    {
        let response = match fetched {
            Ok(response) => response,
            Err(why) => {
                return Err(WatchError::Fetch(why));
            },
        };
        if !response.success {
            return Err(WatchError::Upstream(response.message));
        }
        let current = &response.data.modes;
        let diff = match self.state.mode_diff(current) {
            Ok(diff) => diff,
            Err(e) => {
                return Err(WatchError::StateRead(e));
            },
        };
        match self.state.set_modes(current) {
            Ok(_) => {},
            Err(e) => {
                return Err(WatchError::StateWrite(e));
            },
        }
        let batch = self.notifications(&diff);
        proof {
            let previous = choose|previous: Seq<GameMode>| diff.is_between(previous, current@);
            assert(self.is_batch_for(batch@, added_between(previous, current@)));
        }
        Ok(batch)
    }
}

} // verus!
