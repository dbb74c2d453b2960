//! A set of game modes, keyed by identity.

use vstd::prelude::*;
use crate::game_mode::GameMode;

verus! {

/// The identity of a game mode: its name and its player-count label.
pub type ModeId = (Seq<char>, Seq<char>);

/// The identities that occur among the records of `s`.
pub open spec fn ids_of(s: Seq<GameMode>) -> Set<ModeId> {
    Set::new(|id: ModeId| exists|i: int| 0 <= i < s.len() && (#[trigger] s[i]).id() == id)
}

/// No identity occurs twice among the records of `s`.
pub open spec fn distinct(s: Seq<GameMode>) -> bool {
    forall|i: int, j: int| 0 <= i < j < s.len() ==> (#[trigger] s[i]).id() != (#[trigger] s[j]).id()
}

/// The records of `s` without those whose identity occurred earlier in `s`:
/// of several records with one identity the first stays.
pub open spec fn first_of_each(s: Seq<GameMode>) -> Seq<GameMode>
    decreases s.len(),
{
    if s.len() == 0 {
        Seq::empty()
    } else {
        let before = first_of_each(s.drop_last());
        if ids_of(s.drop_last()).contains(s.last().id()) {
            before
        } else {
            before.push(s.last())
        }
    }
}

/// The test "the identity of this record is in `ids`".
pub open spec fn known_to(ids: Set<ModeId>) -> spec_fn(GameMode) -> bool {
    |m: GameMode| ids.contains(m.id())
}

/// The test "the identity of this record is not in `ids`".
pub open spec fn unknown_to(ids: Set<ModeId>) -> spec_fn(GameMode) -> bool {
    |m: GameMode| !ids.contains(m.id())
}

/// Taking one more record into a sequence adds its identity.
pub proof fn lemma_ids_push(s: Seq<GameMode>, m: GameMode)
    ensures
        ids_of(s.push(m)) == ids_of(s).insert(m.id()),
{
    let t = s.push(m);
    assert forall|id: ModeId| ids_of(t).contains(id) <==> ids_of(s).insert(m.id()).contains(
        id,
    ) by {
        if ids_of(t).contains(id) {
            let i = choose|i: int| 0 <= i < t.len() && (#[trigger] t[i]).id() == id;
            if i < s.len() {
                assert(s[i].id() == id);
            }
        }
        if ids_of(s).contains(id) {
            let i = choose|i: int| 0 <= i < s.len() && (#[trigger] s[i]).id() == id;
            assert(t[i].id() == id);
        }
        if id == m.id() {
            assert(t[s.len() as int].id() == id);
        }
    }
    assert(ids_of(t) =~= ids_of(s).insert(m.id()));
}

/// Dropping later repetitions keeps every identity and leaves none twice.
pub proof fn lemma_first_of_each(s: Seq<GameMode>)
    ensures
        ids_of(first_of_each(s)) == ids_of(s),
        distinct(first_of_each(s)),
        distinct(s) ==> first_of_each(s) == s,
    decreases s.len(),
{
    if s.len() == 0 {
        assert(ids_of(first_of_each(s)) =~= ids_of(s));
    } else {
        let init = s.drop_last();
        lemma_first_of_each(init);
        lemma_ids_push(init, s.last());
        assert(init.push(s.last()) =~= s);
        if ids_of(init).contains(s.last().id()) {
            assert(ids_of(s) =~= ids_of(init));
            let i = choose|i: int| 0 <= i < init.len() && (#[trigger] init[i]).id() == s.last().id();
            assert(s[i].id() == s[s.len() - 1].id());
        } else {
            lemma_ids_push(first_of_each(init), s.last());
            let out = first_of_each(init).push(s.last());
            assert forall|i: int, j: int| 0 <= i < j < out.len() implies (#[trigger] out[i]).id()
                != (#[trigger] out[j]).id() by {
                if j == out.len() - 1 {
                    assert(ids_of(first_of_each(init)).contains(first_of_each(init)[i].id()));
                }
            }
            if distinct(s) {
                assert forall|i: int, j: int| 0 <= i < j < init.len() implies (#[trigger] init[i]).id()
                    != (#[trigger] init[j]).id() by {
                    assert(s[i].id() != s[j].id());
                }
            }
        }
    }
}

/// One more record under a filter: it is appended where it passes the test.
pub proof fn lemma_filter_next(s: Seq<GameMode>, i: int, test: spec_fn(GameMode) -> bool)
    requires
        0 <= i < s.len(),
    ensures
        s.take(i + 1).filter(test) == if test(s[i]) {
            s.take(i).filter(test).push(s[i])
        } else {
            s.take(i).filter(test)
        },
{
    reveal(Seq::filter);
    assert(s.take(i + 1).drop_last() =~= s.take(i));
}

/// Filtering by membership in `ids` keeps exactly the identities that are in
/// `ids` (for `known_to`) or exactly those that are not (for `unknown_to`),
/// and repeats none that was not repeated before.
pub proof fn lemma_ids_filter(s: Seq<GameMode>, ids: Set<ModeId>)
    ensures
        ids_of(s.filter(known_to(ids))) == ids_of(s).intersect(ids),
        ids_of(s.filter(unknown_to(ids))) == ids_of(s).difference(ids),
        distinct(s) ==> distinct(s.filter(known_to(ids))) && distinct(s.filter(unknown_to(ids))),
    decreases s.len(),
{
    reveal(Seq::filter);
    if s.len() == 0 {
        assert(ids_of(s.filter(known_to(ids))) =~= ids_of(s).intersect(ids));
        assert(ids_of(s.filter(unknown_to(ids))) =~= ids_of(s).difference(ids));
    } else {
        let init = s.drop_last();
        let m = s.last();
        lemma_ids_filter(init, ids);
        lemma_ids_push(init, m);
        assert(init.push(m) =~= s);
        let inside = init.filter(known_to(ids));
        let outside = init.filter(unknown_to(ids));
        lemma_ids_push(inside, m);
        lemma_ids_push(outside, m);
        assert(ids_of(s.filter(known_to(ids))) =~= ids_of(s).intersect(ids));
        assert(ids_of(s.filter(unknown_to(ids))) =~= ids_of(s).difference(ids));
        if distinct(s) {
            assert forall|i: int, j: int| 0 <= i < j < init.len() implies (#[trigger] init[i]).id()
                != (#[trigger] init[j]).id() by {
                assert(s[i].id() != s[j].id());
            }
            assert(!ids_of(init).contains(m.id())) by {
                if ids_of(init).contains(m.id()) {
                    let k = choose|k: int| 0 <= k < init.len() && (#[trigger] init[k]).id() == m.id();
                    assert(s[k].id() != s[s.len() - 1].id());
                }
            }
            let kept_in = s.filter(known_to(ids));
            assert forall|i: int, j: int| 0 <= i < j < kept_in.len() implies (#[trigger] kept_in[i]).id()
                != (#[trigger] kept_in[j]).id() by {
                if j == inside.len() {
                    assert(ids_of(inside).contains(inside[i].id()));
                }
            }
            let kept_out = s.filter(unknown_to(ids));
            assert forall|i: int, j: int| 0 <= i < j < kept_out.len() implies (#[trigger] kept_out[i]).id()
                != (#[trigger] kept_out[j]).id() by {
                if j == outside.len() {
                    assert(ids_of(outside).contains(outside[i].id()));
                }
            }
        }
    }
}

/// A list without a repeated identity has as many identities as records.
pub proof fn lemma_ids_len(s: Seq<GameMode>)
    requires
        distinct(s),
    ensures
        ids_of(s).finite(),
        ids_of(s).len() == s.len(),
    decreases s.len(),
{
    if s.len() == 0 {
        assert(ids_of(s) =~= Set::<ModeId>::empty());
    } else {
        let init = s.drop_last();
        let m = s.last();
        assert forall|i: int, j: int| 0 <= i < j < init.len() implies (#[trigger] init[i]).id()
            != (#[trigger] init[j]).id() by {
            assert(s[i].id() != s[j].id());
        }
        lemma_ids_len(init);
        lemma_ids_push(init, m);
        assert(init.push(m) =~= s);
        assert(!ids_of(init).contains(m.id())) by {
            if ids_of(init).contains(m.id()) {
                let k = choose|k: int| 0 <= k < init.len() && (#[trigger] init[k]).id() == m.id();
                assert(s[k].id() != s[s.len() - 1].id());
            }
        }
    }
}

/// A finite set of game modes in which no identity occurs twice.
///
/// The set is seen through its identities (`@`); `elems` gives the records
/// themselves, with the fields that take no part in the identity.
#[derive(Debug)]
pub struct ModeSet {
    items: Vec<GameMode>,
}

impl View for ModeSet {
    type V = Set<ModeId>;

    open spec fn view(&self) -> Set<ModeId> {
        ids_of(self.elems())
    }
}

impl ModeSet {
    /// The records held, in the order in which they were taken in.
    pub closed spec fn elems(&self) -> Seq<GameMode> {
        self.items@
    }

    /// The invariant of the type: no identity occurs twice among the records.
    pub open spec fn wf(&self) -> bool {
        distinct(self.elems())
    }

    /// The set without any mode.
    pub fn new() -> (set: ModeSet)
        ensures
            set.wf(),
            set.elems() == Seq::<GameMode>::empty(),
            set@ == Set::<ModeId>::empty(),
    {
        let set = ModeSet { items: Vec::new() };
        assert(set@ =~= Set::<ModeId>::empty());
        set
    }

    /// The number of modes in the set.
    pub fn len(&self) -> (n: usize)
        ensures
            n == self.elems().len(),
            self.wf() ==> self@.finite() && n == self@.len(),
    {
        proof {
            if self.wf() {
                lemma_ids_len(self.items@);
            }
        }
        self.items.len()
    }

    /// Whether the set holds no mode.
    pub fn is_empty(&self) -> (empty: bool)
        ensures
            empty == (self.elems().len() == 0),
            empty == (self@ == Set::<ModeId>::empty()),
    {
        proof {
            if self.items@.len() == 0 {
                assert(self@ =~= Set::<ModeId>::empty());
            } else {
                assert(self@.contains(self.items@[0].id()));
            }
        }
        self.items.len() == 0
    }

    /// Whether a mode with the identity of `mode` is in the set.
    pub fn contains(&self, mode: &GameMode) -> (found: bool)
        ensures
            found == self@.contains(mode.id()),
    {
        let mut i: usize = 0;
        while i < self.items.len()
            invariant
                i <= self.items@.len(),
                forall|k: int| 0 <= k < i ==> (#[trigger] self.items@[k]).id() != mode.id(),
            decreases self.items@.len() - i,
        {
            if self.items[i].same_mode(mode) {
                return true;
            }
            i += 1;
        }
        false
    }

    /// The record at position `index` of `elems`.
    pub fn get(&self, index: usize) -> (found: Option<&GameMode>)
        ensures
            index < self.elems().len() ==> found == Some(&self.elems()[index as int]),
            index >= self.elems().len() ==> found is None,
    {
        if index < self.items.len() {
            Some(&self.items[index])
        } else {
            None
        }
    }

    /// Takes `mode` into the set unless a mode with its identity is there
    /// already; the record that was there first stays. Returns whether the
    /// set has grown.
    pub fn insert(&mut self, mode: GameMode) -> (grown: bool)
        requires
            old(self).wf(),
        ensures
            final(self).wf(),
            grown == !old(self)@.contains(mode.id()),
            final(self)@ == old(self)@.insert(mode.id()),
            final(self).elems() == if grown {
                old(self).elems().push(mode)
            } else {
                old(self).elems()
            },
    {
        if self.contains(&mode) {
            assert(self@.insert(mode.id()) =~= self@);
            false
        } else {
            proof {
                lemma_ids_push(self.items@, mode);
                let out = self.items@.push(mode);
                assert forall|i: int, j: int| 0 <= i < j < out.len() implies (#[trigger] out[i]).id()
                    != (#[trigger] out[j]).id() by {
                    if j == out.len() - 1 {
                        assert(ids_of(self.items@).contains(self.items@[i].id()));
                    }
                }
            }
            self.items.push(mode);
            true
        }
    }

    /// The set of the modes in `modes`. Where several records share an
    /// identity, the set holds the first of them.
    pub fn from_modes(modes: &Vec<GameMode>) -> (set: ModeSet)
        ensures
            set.wf(),
            set.elems() == first_of_each(modes@),
            set@ == ids_of(modes@),
    {
        let mut set = ModeSet::new();
        let mut i: usize = 0;
        while i < modes.len()
            invariant
                i <= modes@.len(),
                set.wf(),
                set.elems() == first_of_each(modes@.take(i as int)),
                set@ == ids_of(modes@.take(i as int)),
            decreases modes@.len() - i,
        {
            proof {
                let next = modes@.take(i + 1);
                assert(next.drop_last() =~= modes@.take(i as int));
                assert(next.last() == modes@[i as int]);
                lemma_ids_push(modes@.take(i as int), modes@[i as int]);
                assert(modes@.take(i as int).push(modes@[i as int]) =~= next);
            }
            set.insert(modes[i].clone());
            i += 1;
        }
        assert(modes@.take(modes@.len() as int) =~= modes@);
        set
    }

    /// A copy of the records, in the order of `elems`.
    pub fn to_vec(&self) -> (records: Vec<GameMode>)
        ensures
            records@ == self.elems(),
    {
        let mut records: Vec<GameMode> = Vec::new();
        let mut i: usize = 0;
        while i < self.items.len()
            invariant
                i <= self.items@.len(),
                records@ == self.items@.take(i as int),
            decreases self.items@.len() - i,
        {
            records.push(self.items[i].clone());
            assert(self.items@.take(i as int).push(self.items@[i as int]) =~= self.items@.take(
                i + 1,
            ));
            i += 1;
        }
        assert(self.items@.take(self.items@.len() as int) =~= self.items@);
        records
    }

    /// The records of `self` whose identity is in `other` (for `inside`) or
    /// is not in it (otherwise), in the order of `self`.
    fn select(&self, other: &ModeSet, inside: bool) -> (set: ModeSet)
        requires
            self.wf(),
        ensures
            set.wf(),
            set.elems() == self.elems().filter(
                if inside {
                    known_to(other@)
                } else {
                    unknown_to(other@)
                },
            ),
            forall|id: ModeId|
                set@.contains(id) <==> self@.contains(id) && other@.contains(id) == inside,
    {
        let ghost test = if inside {
            known_to(other@)
        } else {
            unknown_to(other@)
        };
        let mut set = ModeSet { items: Vec::new() };
        let mut i: usize = 0;
        proof {
            reveal(Seq::filter);
            assert(self.items@.take(0).filter(test) =~= Seq::<GameMode>::empty());
        }
        while i < self.items.len()
            invariant
                i <= self.items@.len(),
                self.wf(),
                set.wf(),
                test == if inside {
                    known_to(other@)
                } else {
                    unknown_to(other@)
                },
                set.items@ == self.items@.take(i as int).filter(test),
                forall|id: ModeId|
                    set@.contains(id) <==> ids_of(self.items@.take(i as int)).contains(id)
                        && other@.contains(id) == inside,
            decreases self.items@.len() - i,
        {
            let mode = &self.items[i];
            let ghost seen = self.items@.take(i as int);
            proof {
                lemma_filter_next(self.items@, i as int, test);
                lemma_ids_push(seen, *mode);
                assert(seen.push(*mode) =~= self.items@.take(i + 1));
                if ids_of(seen).contains(mode.id()) {
                    let k = choose|k: int| 0 <= k < seen.len() && (#[trigger] seen[k]).id() == mode.id();
                    assert(self.items@[k].id() == self.items@[i as int].id());
                }
            }
            if other.contains(mode) == inside {
                proof {
                    lemma_ids_push(set.items@, *mode);
                    let out = set.items@.push(*mode);
                    assert forall|a: int, b: int| 0 <= a < b < out.len() implies (#[trigger] out[a]).id()
                        != (#[trigger] out[b]).id() by {
                        if b == out.len() - 1 {
                            assert(set@.contains(set.items@[a].id()));
                        }
                    }
                }
                set.items.push(mode.clone());
            }
            i += 1;
        }
        assert(self.items@.take(self.items@.len() as int) =~= self.items@);
        set
    }

    /// The modes of `self` that are not in `other`, with the records and in
    /// the order of `self`.
    pub fn difference(&self, other: &ModeSet) -> (set: ModeSet)
        requires
            self.wf(),
        ensures
            set.wf(),
            set@ == self@.difference(other@),
            set.elems() == self.elems().filter(unknown_to(other@)),
    {
        let set = self.select(other, false);
        assert(set@ =~= self@.difference(other@));
        set
    }

    /// The modes of `self` that are in `other` too, with the records and in
    /// the order of `self`.
    pub fn intersection(&self, other: &ModeSet) -> (set: ModeSet)
        requires
            self.wf(),
        ensures
            set.wf(),
            set@ == self@.intersect(other@),
            set.elems() == self.elems().filter(known_to(other@)),
    {
        let set = self.select(other, true);
        assert(set@ =~= self@.intersect(other@));
        set
    }
}

} // verus!
