//! The difference between the modes seen last time and the modes seen now.

use vstd::prelude::*;
use crate::game_mode::GameMode;
use crate::mode_set::{
    distinct, first_of_each, ids_of, lemma_first_of_each, lemma_ids_filter, unknown_to, ModeId,
    ModeSet,
};

verus! {

/// The modes that appeared and the modes that went away between two
/// observations.
#[derive(Debug)]
pub struct GameDiff {
    /// In the new observation and not in the one before.
    pub added: ModeSet,
    /// In the observation before and not in the new one.
    pub removed: ModeSet,
}

/// The records that appear when `current` is observed after `previous`: the
/// records of `current` whose identity `previous` lacks, each mode once, in
/// the order of `current`.
pub open spec fn added_between(previous: Seq<GameMode>, current: Seq<GameMode>) -> Seq<GameMode> {
    first_of_each(current).filter(unknown_to(ids_of(previous)))
}

/// The records that go away when `current` is observed after `previous`:
/// the records of `previous` whose identity `current` lacks, each mode once,
/// in the order of `previous`.
pub open spec fn removed_between(previous: Seq<GameMode>, current: Seq<GameMode>) -> Seq<
    GameMode,
> {
    first_of_each(previous).filter(unknown_to(ids_of(current)))
}

impl GameDiff {
    /// Both sets are well formed.
    pub open spec fn wf(&self) -> bool {
        self.added.wf() && self.removed.wf()
    }

    /// `self` is the difference between the earlier observation `previous`
    /// and the later observation `current`.
    pub open spec fn is_between(&self, previous: Seq<GameMode>, current: Seq<GameMode>) -> bool {
        &&& self.wf()
        &&& self.added.elems() == added_between(previous, current)
        &&& self.removed.elems() == removed_between(previous, current)
        &&& self.added@ == ids_of(current).difference(ids_of(previous))
        &&& self.removed@ == ids_of(previous).difference(ids_of(current))
    }

    /// `self` is the difference between some earlier observation and the
    /// later observation `current`.
    pub open spec fn leads_to(&self, current: Seq<GameMode>) -> bool {
        exists|previous: Seq<GameMode>| self.is_between(previous, current)
    }

    /// The difference between two sets of modes.
    ///
    /// A mode that is in both sets is in neither part of the difference, so
    /// the two parts never share a mode; equal sets differ by nothing; and
    /// against an empty `previous` every mode of `current` is added and none
    /// is removed.
    pub fn between(previous: &ModeSet, current: &ModeSet) -> (diff: GameDiff)
        requires
            previous.wf(),
            current.wf(),
        ensures
            diff.wf(),
            diff.added@ == current@.difference(previous@),
            diff.removed@ == previous@.difference(current@),
            diff.added.elems() == current.elems().filter(unknown_to(previous@)),
            diff.removed.elems() == previous.elems().filter(unknown_to(current@)),
            diff.added@.disjoint(diff.removed@),
            previous@ == current@ ==> diff.added@ == Set::<ModeId>::empty() && diff.removed@
                == Set::<ModeId>::empty(),
            previous@ == Set::<ModeId>::empty() ==> diff.added@ == current@ && diff.removed@
                == Set::<ModeId>::empty(),
    {
        let added = current.difference(previous);
        let removed = previous.difference(current);
        proof {
            lemma_difference_laws(previous@, current@);
        }
        GameDiff { added, removed }
    }

    /// The difference between two observations given as lists of records.
    /// Repeated records of one mode count once.
    pub fn of_observations(previous: &Vec<GameMode>, current: &Vec<GameMode>) -> (diff: GameDiff)
        ensures
            diff.is_between(previous@, current@),
    {
        let before = ModeSet::from_modes(previous);
        let now = ModeSet::from_modes(current);
        GameDiff::between(&before, &now)
    }

    /// Whether nothing appeared and nothing went away.
    pub fn is_empty(&self) -> (empty: bool)
        ensures
            empty == (self.added@ == Set::<ModeId>::empty() && self.removed@ == Set::<
                ModeId,
            >::empty()),
    {
        self.added.is_empty() && self.removed.is_empty()
    }
}

/// What appears and what goes away between two observations, as sets: the
/// added modes are those of `current` that `previous` lacks, the removed
/// modes those of `previous` that `current` lacks, and no mode is listed
/// twice in either.
pub proof fn lemma_between_is_set_difference(previous: Seq<GameMode>, current: Seq<GameMode>)
    ensures
        ids_of(added_between(previous, current)) == ids_of(current).difference(ids_of(previous)),
        ids_of(removed_between(previous, current)) == ids_of(previous).difference(
            ids_of(current),
        ),
        distinct(added_between(previous, current)),
        distinct(removed_between(previous, current)),
{
    lemma_first_of_each(current);
    lemma_first_of_each(previous);
    lemma_ids_filter(first_of_each(current), ids_of(previous));
    lemma_ids_filter(first_of_each(previous), ids_of(current));
}

/// No mode is both added and removed.
pub proof fn lemma_added_and_removed_are_disjoint(previous: Seq<GameMode>, current: Seq<GameMode>)
    ensures
        ids_of(added_between(previous, current)).disjoint(
            ids_of(removed_between(previous, current)),
        ),
{
    lemma_between_is_set_difference(previous, current);
}

/// Between two observations of the same set of modes nothing is added and
/// nothing is removed.
pub proof fn lemma_same_set_differs_by_nothing(previous: Seq<GameMode>, current: Seq<GameMode>)
    requires
        ids_of(previous) == ids_of(current),
    ensures
        added_between(previous, current) == Seq::<GameMode>::empty(),
        removed_between(previous, current) == Seq::<GameMode>::empty(),
        ids_of(added_between(previous, current)) == Set::<ModeId>::empty(),
        ids_of(removed_between(previous, current)) == Set::<ModeId>::empty(),
{
    lemma_between_is_set_difference(previous, current);
    lemma_empty_ids(added_between(previous, current));
    lemma_empty_ids(removed_between(previous, current));
    assert(ids_of(current).difference(ids_of(previous)) =~= Set::<ModeId>::empty());
    assert(ids_of(previous).difference(ids_of(current)) =~= Set::<ModeId>::empty());
}

/// After an observation of nothing, every mode of `current` is added, each
/// once and in the order of `current`, and nothing is removed.
pub proof fn lemma_after_nothing_all_is_added(current: Seq<GameMode>)
    ensures
        ids_of(added_between(Seq::empty(), current)) == ids_of(current),
        removed_between(Seq::empty(), current) == Seq::<GameMode>::empty(),
        ids_of(removed_between(Seq::empty(), current)) == Set::<ModeId>::empty(),
{
    let nothing = Seq::<GameMode>::empty();
    lemma_between_is_set_difference(nothing, current);
    assert(ids_of(nothing) =~= Set::<ModeId>::empty());
    assert(ids_of(current).difference(ids_of(nothing)) =~= ids_of(current));
    assert(ids_of(nothing).difference(ids_of(current)) =~= Set::<ModeId>::empty());
    lemma_empty_ids(removed_between(nothing, current));
}

/// A list of records has no identity exactly when it has no record.
pub proof fn lemma_empty_ids(s: Seq<GameMode>)
    ensures
        ids_of(s) == Set::<ModeId>::empty() <==> s == Seq::<GameMode>::empty(),
{
    if s.len() > 0 {
        assert(ids_of(s).contains(s[0].id()));
    } else {
        assert(s =~= Seq::<GameMode>::empty());
        assert(ids_of(s) =~= Set::<ModeId>::empty());
    }
}

/// The two parts of a difference never share a mode, equal sets differ by
/// nothing, and against the empty set everything is added and nothing is
/// removed.
pub proof fn lemma_difference_laws(previous: Set<ModeId>, current: Set<ModeId>)
    ensures
        current.difference(previous).disjoint(previous.difference(current)),
        previous == current ==> current.difference(previous) == Set::<ModeId>::empty()
            && previous.difference(current) == Set::<ModeId>::empty(),
        previous == Set::<ModeId>::empty() ==> current.difference(previous) == current
            && previous.difference(current) == Set::<ModeId>::empty(),
{
    if previous == current {
        assert(current.difference(previous) =~= Set::<ModeId>::empty());
        assert(previous.difference(current) =~= Set::<ModeId>::empty());
    }
    if previous == Set::<ModeId>::empty() {
        assert(current.difference(previous) =~= current);
        assert(previous.difference(current) =~= Set::<ModeId>::empty());
    }
}

} // verus!
