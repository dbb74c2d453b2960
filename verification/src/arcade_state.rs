//! The record of what was seen last time.
//!
//! A state is read once and written once per watch cycle. That nothing has
//! been recorded yet is an ordinary answer, the empty list; every other failure
//! to read or to write is an error that the cycle must not survive.

use vstd::prelude::*;
use crate::game_diff::GameDiff;
use crate::game_mode::GameMode;
use crate::mode_set::ids_of;
use crate::stupids3::StupidS3Error;

verus! {

/// A place that remembers the modes of the last observation.
///
/// A record that lives outside the program may fail to answer and may change
/// between two reads, so nothing is promised of it. A record that the value
/// keeps to itself is `known`: it reads as what was written last, and a write
/// into it succeeds.
pub trait ArcadeState {
    /// What a read is sure to return, where anything is sure. Nothing is,
    /// unless the implementation says otherwise.
    open spec fn known(&self) -> Option<Seq<GameMode>> {
        None
    }

    /// The modes that were recorded last, or the empty list where nothing
    /// has been recorded yet.
    fn previous_modes(&self) -> (previous: Result<Vec<GameMode>, StupidS3Error>)
        ensures
            self.known() matches Some(list) ==> previous matches Ok(modes) && modes@ == list,
    ;

    /// Records `modes` in place of whatever was recorded before.
    fn set_modes(&mut self, modes: &Vec<GameMode>) -> (done: Result<(), StupidS3Error>)
        ensures
            old(self).known() is Some ==> done is Ok && final(self).known() == Some(modes@),
    ;

    /// The difference between the recorded modes and `modes`. Nothing is
    /// written. Whatever the record held, a difference that comes back is the
    /// difference between some earlier observation and `modes`; where the
    /// record is known, the difference comes back and is the one between the
    /// record and `modes`.
    fn mode_diff(&self, modes: &Vec<GameMode>) -> (diff: Result<GameDiff, StupidS3Error>)
        ensures
            diff matches Ok(d) ==> d.leads_to(modes@),
            self.known() matches Some(list) ==> diff matches Ok(d) && d.is_between(list, modes@),
    {
        match self.previous_modes() {
            Ok(previous) => {
                let d = GameDiff::of_observations(&previous, modes);
                assert(d.is_between(previous@, modes@));
                Ok(d)
            },
            Err(e) => Err(e),
        }
    }
}

/// The place of the record in the object store.
#[derive(Debug)]
pub struct S3State {
    pub bucket: String,
    pub keyname: String,
}

impl S3State {
    /// The recorded modes, given what came of reading and decoding the
    /// object that holds them.
    ///
    /// A decoded list is the answer. That the store has no such object means
    /// that nothing has been recorded yet, and the answer is the empty list.
    /// Every other error is handed on unchanged.
    pub fn previous_from(read: Result<Vec<GameMode>, StupidS3Error>) -> (previous: Result<
        Vec<GameMode>,
        StupidS3Error,
    >)
        ensures
            match read {
                Ok(modes) => previous == Ok::<Vec<GameMode>, StupidS3Error>(modes),
                Err(StupidS3Error::NoSuchKey { .. }) => previous matches Ok(modes) && modes@
                    == Seq::<GameMode>::empty(),
                Err(e) => previous == Err::<Vec<GameMode>, StupidS3Error>(e),
            },
    {
        match read {
            Ok(modes) => Ok(modes),
            Err(StupidS3Error::NoSuchKey { .. }) => Ok(Vec::new()),
            Err(e) => Err(e),
        }
    }
}

/// A record that lives in memory and never fails.
#[derive(Debug)]
pub struct MemoryState {
    recorded: Vec<GameMode>,
}

impl MemoryState {
    /// The list that the record holds: the one written last, or the empty
    /// list where nothing has been written.
    pub closed spec fn recorded(&self) -> Seq<GameMode> {
        self.recorded@
    }

    /// A record into which nothing has been written.
    pub fn new() -> (state: MemoryState)
        ensures
            state.recorded() == Seq::<GameMode>::empty(),
    {
        MemoryState { recorded: Vec::new() }
    }

    /// A record that holds `modes`.
    pub fn holding(modes: Vec<GameMode>) -> (state: MemoryState)
        ensures
            state.recorded() == modes@,
    {
        MemoryState { recorded: modes }
    }
}

impl ArcadeState for MemoryState {
    open spec fn known(&self) -> Option<Seq<GameMode>> {
        Some(self.recorded())
    }

    fn previous_modes(&self) -> (previous: Result<Vec<GameMode>, StupidS3Error>) {
        Ok(copy_of(&self.recorded))
    }

    fn set_modes(&mut self, modes: &Vec<GameMode>) -> (done: Result<(), StupidS3Error>) {
        self.recorded = copy_of(modes);
        Ok(())
    }
}

/// A copy of a list of modes, record by record.
pub fn copy_of(modes: &Vec<GameMode>) -> (copy: Vec<GameMode>)
    ensures
        copy@ == modes@,
{
    let mut copy: Vec<GameMode> = Vec::new();
    let mut i: usize = 0;
    while i < modes.len()
        invariant
            i <= modes@.len(),
            copy@ == modes@.take(i as int),
        decreases modes@.len() - i,
    {
        copy.push(modes[i].clone());
        assert(modes@.take(i as int).push(modes@[i as int]) =~= modes@.take(i + 1));
        i += 1;
    }
    assert(modes@.take(modes@.len() as int) =~= modes@);
    copy
}

/// Of a known record, a read that follows a write at once returns what was
/// written: the same records, and so the same set of modes.
///
/// `after` stands for the record as the write left it, and `read` for what
/// the read of it returned.
pub proof fn lemma_commit_then_previous<T: ArcadeState>(
    after: T,
    written: Seq<GameMode>,
    read: Seq<GameMode>,
)
    requires
        after.known() == Some(written),
        after.known() matches Some(list) ==> read == list,
    ensures
        read == written,
        ids_of(read) == ids_of(written),
{
}

} // verus!
