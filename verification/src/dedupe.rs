//! The memory of event identifiers that have been written.

use std::collections::VecDeque;
use vstd::hash_set::StringHashSet;
use vstd::prelude::*;

verus! {

/// The identifiers remembered last, at most `max_entries` of them.
pub struct DedupeCache {
    seen: StringHashSet,
    order: VecDeque<String>,
    max_entries: usize,
}

/// What a cache remembers: the identifiers from the oldest to the newest, and
/// how many it may hold.
#[verifier::ext_equal]
pub struct DedupeModel {
    pub order: Seq<Seq<char>>,
    pub max_entries: nat,
}

/// Remembers `id`: an identifier that is there already keeps its place, a new
/// one is the newest, and the oldest leaves where there are too many.
pub open spec fn remembered(m: DedupeModel, id: Seq<char>) -> DedupeModel {
    if id.len() == 0 || m.max_entries == 0 || m.order.contains(id) {
        m
    } else if m.order.len() < m.max_entries {
        DedupeModel { order: m.order.push(id), ..m }
    } else {
        DedupeModel { order: m.order.push(id).skip(1), ..m }
    }
}

/// Remembers each of `ids`, the first one first.
pub open spec fn remembered_all(m: DedupeModel, ids: Seq<Seq<char>>) -> DedupeModel
    decreases ids.len(),
{
    if ids.len() == 0 {
        m
    } else {
        remembered(remembered_all(m, ids.drop_last()), ids.last())
    }
}

proof fn lemma_push_members(s: Seq<Seq<char>>, id: Seq<char>)
    requires
        s.no_duplicates(),
        !s.contains(id),
    ensures
        s.push(id).no_duplicates(),
        forall|x: Seq<char>| s.push(id).contains(x) <==> (s.contains(x) || x == id),
{
    let p = s.push(id);
    assert(p[s.len() as int] == id);
    assert forall|x: Seq<char>| s.contains(x) implies p.contains(x) by {
        let i = choose|i: int| 0 <= i < s.len() && s[i] == x;
        assert(p[i] == x);
    }
}

proof fn lemma_skip_members(s: Seq<Seq<char>>)
    requires
        s.len() > 0,
        s.no_duplicates(),
    ensures
        s.skip(1).no_duplicates(),
        forall|x: Seq<char>| s.skip(1).contains(x) <==> (s.contains(x) && x != s[0]),
{
    let t = s.skip(1);
    assert forall|x: Seq<char>| s.contains(x) && x != s[0] implies t.contains(x) by {
        let i = choose|i: int| 0 <= i < s.len() && s[i] == x;
        assert(t[i - 1] == x);
    }
    assert forall|x: Seq<char>| t.contains(x) implies s.contains(x) && x != s[0] by {
        let i = choose|i: int| 0 <= i < t.len() && t[i] == x;
        assert(s[i + 1] == x);
    }
}

impl DedupeModel {
    /// No identifier twice, none empty, and no more than may be held.
    pub open spec fn well_formed(self) -> bool {
        &&& self.order.no_duplicates()
        &&& self.order.len() <= self.max_entries
        &&& forall|i: int| 0 <= i < self.order.len() ==> (#[trigger] self.order[i]).len() > 0
    }
}

impl View for DedupeCache {
    type V = DedupeModel;

    closed spec fn view(&self) -> DedupeModel {
        DedupeModel {
            order: self.order@.map_values(|s: String| s@),
            max_entries: self.max_entries as nat,
        }
    }
}

impl DedupeCache {
    /// The set and the queue hold the same identifiers, each once.
    #[verifier::type_invariant]
    spec fn consistent(self) -> bool {
        &&& self@.well_formed()
        &&& forall|id: Seq<char>| self.seen@.contains(id) <==> self@.order.contains(id)
        &&& self.seen@.len() == self@.order.len()
        &&& self.seen@.finite()
    }

    /// An empty cache.
    pub fn new(max_entries: usize) -> (cache: Self)
        ensures
            cache@ == (DedupeModel { order: Seq::empty(), max_entries: max_entries as nat }),
    {
        let seen = StringHashSet::new();
        let order: VecDeque<String> = VecDeque::new();
        assert(order@.map_values(|s: String| s@) == Seq::<Seq<char>>::empty());
        DedupeCache { seen, order, max_entries }
    }

    /// Whether `event_id` is remembered.
    pub fn contains(&self, event_id: &str) -> (r: bool)
        ensures
            self@.well_formed(),
            r == self@.order.contains(event_id@),
    {
        proof {
            use_type_invariant(self);
        }
        assert(event_id@.len() == 0 ==> !self@.order.contains(event_id@));
        !event_id.is_empty() && self.seen.contains(event_id)
    }

    /// Remembers `event_id` as the newest identifier, and forgets the oldest
    /// where there are too many. An empty identifier is not remembered.
    pub fn remember(&mut self, event_id: &str)
        ensures
            old(self)@.well_formed(),
            final(self)@.well_formed(),
            final(self)@ == remembered(old(self)@, event_id@),
    {
        proof {
            use_type_invariant(&*self);
        }
        assert(event_id@.len() == 0 ==> !self@.order.contains(event_id@));
        if event_id.is_empty() || self.max_entries == 0 || self.seen.contains(event_id) {
            return;
        }
        let ghost before = self@;
        let mut taken = DedupeCache::new(0);
        std::mem::swap(self, &mut taken);
        let DedupeCache { mut seen, mut order, max_entries } = taken;
        let ghost names = |s: String| s@;
        assert(order@.map_values(names) == before.order);
        let ghost pushed = before.order.push(event_id@);
        let ghost seen_before = seen@;
        seen.insert(event_id.to_owned());
        order.push_back(event_id.to_owned());
        assert(order@.map_values(names) == pushed);
        proof {
            lemma_push_members(before.order, event_id@);
        }
        while order.len() > max_entries
            invariant
                names == |s: String| s@,
                pushed.no_duplicates(),
                before.order.len() <= max_entries,
                max_entries > 0,
                pushed == before.order.push(event_id@),
                forall|id: Seq<char>| seen@.contains(id) <==> order@.map_values(names).contains(id),
                seen@.finite(),
                seen@.len() == order@.len(),
                order@.map_values(names) == pushed || order@.map_values(names) == pushed.skip(1),
                order@.map_values(names) == pushed || pushed.len() > max_entries,
            decreases order@.len(),
        {
            let ghost full = order@.map_values(names);
            match order.pop_front() {
                Some(oldest) => {
                    seen.remove(oldest.as_str());
                    proof {
                        assert(full[0] == oldest@);
                        assert(order@.map_values(names) == full.skip(1));
                        lemma_skip_members(full);
                    }
                },
                None => {},
            }
        }
        let ghost kept = order@.map_values(names);
        assert(kept.no_duplicates());
        *self = DedupeCache { seen, order, max_entries };
    }

    /// How many identifiers are remembered.
    pub fn len(&self) -> (r: usize)
        ensures
            self@.well_formed(),
            r == self@.order.len(),
    {
        proof {
            use_type_invariant(self);
        }
        self.seen.len()
    }

    /// How many identifiers may be remembered.
    pub fn capacity(&self) -> (r: usize)
        ensures
            r == self@.max_entries,
    {
        self.max_entries
    }
}

/// Remembering keeps the memory within its bound and free of repetitions, and
/// makes a new identifier known.
pub proof fn law_memory_is_bounded(m: DedupeModel, id: Seq<char>)
    requires
        m.well_formed(),
    ensures
        remembered(m, id).well_formed(),
        remembered(m, id).max_entries == m.max_entries,
        id.len() > 0 && m.max_entries > 0 ==> remembered(m, id).order.contains(id),
{
    if id.len() > 0 && m.max_entries > 0 && !m.order.contains(id) {
        let all = m.order.push(id);
        lemma_push_members(m.order, id);
        assert(all[all.len() - 1] == id);
        if m.order.len() == m.max_entries {
            lemma_skip_members(all);
            assert(all.skip(1)[all.len() - 2] == id);
        }
    }
}

/// Fewer than `n` identifiers are newer than `id`.
spec fn among_newest(m: DedupeModel, id: Seq<char>, n: nat) -> bool {
    exists|i: int| 0 <= i < m.order.len() && #[trigger] m.order[i] == id && m.order.len() - i <= n
}

proof fn lemma_still_among_newest(m: DedupeModel, id: Seq<char>, n: nat, other: Seq<char>)
    requires
        m.well_formed(),
        among_newest(m, id, n),
        n < m.max_entries,
    ensures
        among_newest(remembered(m, other), id, n + 1),
{
    let i = choose|i: int|
        0 <= i < m.order.len() && #[trigger] m.order[i] == id && m.order.len() - i <= n;
    let after = remembered(m, other);
    if other.len() == 0 || m.max_entries == 0 || m.order.contains(other) {
        assert(after.order[i] == id);
    } else if m.order.len() < m.max_entries {
        assert(after.order[i] == id);
    } else {
        assert(after.order[i - 1] == id);
    }
}

/// What of `ids` is among the newest, and what is not there at all.
proof fn lemma_newest_of_all(m: DedupeModel, ids: Seq<Seq<char>>, id: Seq<char>)
    requires
        m.well_formed(),
        !m.order.contains(id),
        id.len() > 0,
        ids.len() <= m.max_entries,
    ensures
        remembered_all(m, ids).well_formed(),
        remembered_all(m, ids).max_entries == m.max_entries,
        ids.contains(id) ==> among_newest(remembered_all(m, ids), id, ids.len()),
        !ids.contains(id) ==> !remembered_all(m, ids).order.contains(id),
    decreases ids.len(),
{
    if ids.len() > 0 {
        let earlier = ids.drop_last();
        let before = remembered_all(m, earlier);
        let last = ids.last();
        let after = remembered(before, last);
        lemma_newest_of_all(m, earlier, id);
        law_memory_is_bounded(before, last);
        if earlier.contains(id) {
            lemma_still_among_newest(before, id, earlier.len(), last);
            let i = choose|i: int| 0 <= i < earlier.len() && earlier[i] == id;
            assert(ids[i] == id);
        } else if last == id {
            assert(ids[ids.len() - 1] == id);
            assert(after.order[after.order.len() - 1] == id);
        } else {
            if ids.contains(id) {
                let i = choose|i: int| 0 <= i < ids.len() && ids[i] == id;
                assert(earlier[i] == id);
            }
            if after.order.contains(id) {
                let i = choose|i: int| 0 <= i < after.order.len() && after.order[i] == id;
                if after.order == before.order.push(last) {
                    assert(before.order[i] == id);
                } else if after.order == before.order.push(last).skip(1) {
                    assert(before.order[i + 1] == id);
                }
            }
        }
    }
}

/// An identifier that was not known before is known after it was remembered, as
/// long as no more were remembered since than the memory may hold.
pub proof fn law_remembered_is_known(m: DedupeModel, ids: Seq<Seq<char>>, id: Seq<char>)
    requires
        m.well_formed(),
        !m.order.contains(id),
        id.len() > 0,
        ids.contains(id),
        ids.len() <= m.max_entries,
    ensures
        remembered_all(m, ids).order.contains(id),
{
    lemma_newest_of_all(m, ids, id);
}

/// Nothing is known that was neither known before nor remembered.
pub proof fn law_nothing_else_is_known(m: DedupeModel, ids: Seq<Seq<char>>, id: Seq<char>)
    requires
        !m.order.contains(id),
        !ids.contains(id),
    ensures
        !remembered_all(m, ids).order.contains(id),
    decreases ids.len(),
{
    if ids.len() > 0 {
        let before = remembered_all(m, ids.drop_last());
        let after = remembered(before, ids.last());
        if ids.drop_last().contains(id) {
            let i = choose|i: int| 0 <= i < ids.drop_last().len() && ids.drop_last()[i] == id;
            assert(ids[i] == id);
        }
        assert(ids[ids.len() - 1] == ids.last());
        law_nothing_else_is_known(m, ids.drop_last(), id);
        if after.order.contains(id) {
            let i = choose|i: int| 0 <= i < after.order.len() && after.order[i] == id;
            if after.order == before.order.push(ids.last()) {
                assert(before.order[i] == id);
            } else if after.order == before.order.push(ids.last()).skip(1) {
                assert(before.order[i + 1] == id);
            }
        }
    }
}

/// Remembering an identifier changes nothing else: those known stay, in their
/// order, but for the oldest one where there is no room for the new one; one that
/// is known, an empty one, or a memory that may hold nothing changes nothing.
pub proof fn law_only_the_oldest_leaves(m: DedupeModel, id: Seq<char>)
    requires
        m.well_formed(),
    ensures
        ({
            let after = remembered(m, id);
            &&& id.len() == 0 || m.max_entries == 0 || m.order.contains(id) ==> after == m
            &&& id.len() > 0 && !m.order.contains(id) && m.order.len() < m.max_entries
                ==> after.order == m.order + seq![id]
            &&& id.len() > 0 && !m.order.contains(id) && 0 < m.max_entries == m.order.len()
                ==> seq![m.order[0]] + after.order == m.order + seq![id]
            &&& after.max_entries == m.max_entries
        }),
{
    if id.len() > 0 && !m.order.contains(id) && 0 < m.max_entries {
        assert(m.order.push(id) =~= m.order + seq![id]);
        let all = m.order.push(id);
        assert(seq![all[0]] + all.skip(1) =~= all);
    }
}

} // verus!
