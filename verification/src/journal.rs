//! The pending journal: every accepted event is recorded in it before it is
//! acknowledged, and recorded as done once it is written. After a restart the
//! records tell which events are still to be written.

use crate::dedupe::{remembered, remembered_all, DedupeCache, DedupeModel};
use crate::event::{EventModel, StatsEvent};
use crate::queue::{queued_models, QueuedEvent, QueuedModel};
use crate::text::{
    blank, decimal, is_blank, is_text_before, law_text_order, law_trim_takes_off_white_space,
    option_str, push_decimal, text_before, texts, white_space,
};
use std::collections::VecDeque;
use vstd::hash_map::StringHashMap;
use vstd::prelude::*;

verus! {

/// One record of the journal.
#[derive(Debug)]
pub enum PendingJournalRecord {
    /// An event was accepted.
    Pending {
        event_id: String,
        source_plugin: String,
        event: StatsEvent,
        batch_id: Option<u64>,
        ts_ms: u64,
    },
    /// An event was written.
    Done { event_id: String, ts_ms: u64 },
}

/// What a record says.
pub enum RecordModel {
    Pending {
        event_id: Seq<char>,
        source_plugin: Seq<char>,
        event: EventModel,
        batch_id: Option<u64>,
        ts_ms: u64,
    },
    Done { event_id: Seq<char>, ts_ms: u64 },
}

impl View for PendingJournalRecord {
    type V = RecordModel;

    open spec fn view(&self) -> RecordModel {
        match self {
            PendingJournalRecord::Pending {
                event_id,
                source_plugin,
                event,
                batch_id,
                ts_ms,
            } => RecordModel::Pending {
                event_id: event_id@,
                source_plugin: source_plugin@,
                event: event@,
                batch_id: *batch_id,
                ts_ms: *ts_ms,
            },
            PendingJournalRecord::Done { event_id, ts_ms } => RecordModel::Done {
                event_id: event_id@,
                ts_ms: *ts_ms,
            },
        }
    }
}

/// One line of the journal file.
#[derive(Debug)]
pub enum JournalLine {
    /// The line could not be read.
    Unreadable,
    /// The line holds nothing but white space.
    Blank,
    /// The line holds no record.
    Malformed,
    /// The line holds a record.
    Record(PendingJournalRecord),
}

/// What a line says.
pub enum LineModel {
    Unreadable,
    Blank,
    Malformed,
    Record(RecordModel),
}

impl View for JournalLine {
    type V = LineModel;

    open spec fn view(&self) -> LineModel {
        match self {
            JournalLine::Unreadable => LineModel::Unreadable,
            JournalLine::Blank => LineModel::Blank,
            JournalLine::Malformed => LineModel::Malformed,
            JournalLine::Record(record) => LineModel::Record(record@),
        }
    }
}

/// What a line of the journal file is, where `text` is what could be read of it
/// and `record` the record that the text holds.
pub fn journal_line(text: Option<&str>, record: Option<PendingJournalRecord>) -> (line: JournalLine)
    ensures
        line@ == match (option_str(text), option_record(record)) {
            (None, _) => LineModel::Unreadable,
            (Some(t), r) => if blank(t) {
                LineModel::Blank
            } else {
                match r {
                    None => LineModel::Malformed,
                    Some(m) => LineModel::Record(m),
                }
            },
        },
{
    match text {
        None => JournalLine::Unreadable,
        Some(t) => {
            if is_blank(t) {
                return JournalLine::Blank;
            }
            match record {
                None => JournalLine::Malformed,
                Some(r) => JournalLine::Record(r),
            }
        },
    }
}

/// What a sequence of lines says.
pub open spec fn line_models(lines: Seq<JournalLine>) -> Seq<LineModel> {
    lines.map_values(|line: JournalLine| line@)
}

/// An accepted event that the journal does not show as written.
#[derive(Debug)]
pub struct JournalPendingEvent {
    pub event_id: String,
    pub source_plugin: String,
    pub event: StatsEvent,
    pub batch_id: Option<u64>,
    pub ts_ms: u64,
}

/// What such an event says.
#[verifier::ext_equal]
pub struct PendingModel {
    pub event_id: Seq<char>,
    pub source_plugin: Seq<char>,
    pub event: EventModel,
    pub batch_id: Option<u64>,
    pub ts_ms: u64,
}

impl View for JournalPendingEvent {
    type V = PendingModel;

    open spec fn view(&self) -> PendingModel {
        PendingModel {
            event_id: self.event_id@,
            source_plugin: self.source_plugin@,
            event: self.event@,
            batch_id: self.batch_id,
            ts_ms: self.ts_ms,
        }
    }
}

/// What a sequence of such events says.
pub open spec fn pending_models(items: Seq<JournalPendingEvent>) -> Seq<PendingModel> {
    items.map_values(|item: JournalPendingEvent| item@)
}

/// What the journal tells after a restart.
#[derive(Debug)]
pub struct JournalReplayState {
    /// The events that are still to be written, the oldest first.
    pub pending: Vec<JournalPendingEvent>,
    /// The identifiers of the events written last.
    pub recent_done: Vec<String>,
    pub done_records: usize,
    pub bad_lines: usize,
}

/// What the lines of a journal amount to: the events to be written by their
/// identifiers, the identifiers done last, and how many done records and bad
/// lines there were.
#[verifier::ext_equal]
pub struct ReplayModel {
    pub pending: Map<Seq<char>, PendingModel>,
    pub recent_done: Seq<Seq<char>>,
    pub done_records: nat,
    pub bad_lines: nat,
}

/// At most the last `n` elements.
pub open spec fn last_of<T>(s: Seq<T>, n: nat) -> Seq<T> {
    if s.len() <= n {
        s
    } else {
        s.skip(s.len() - n)
    }
}

/// The journal is empty.
pub open spec fn nothing_replayed() -> ReplayModel {
    ReplayModel {
        pending: Map::empty(),
        recent_done: Seq::empty(),
        done_records: 0,
        bad_lines: 0,
    }
}

/// What one more line changes, where the last `capacity` done identifiers are
/// kept.
pub open spec fn replay_line(m: ReplayModel, line: LineModel, capacity: nat) -> ReplayModel {
    match line {
        LineModel::Unreadable => ReplayModel { bad_lines: m.bad_lines + 1, ..m },
        LineModel::Malformed => ReplayModel { bad_lines: m.bad_lines + 1, ..m },
        LineModel::Blank => m,
        LineModel::Record(RecordModel::Pending { event_id, source_plugin, event, batch_id, ts_ms })
        => ReplayModel {
            pending: m.pending.insert(
                event_id,
                PendingModel {
                    event_id,
                    source_plugin,
                    event: EventModel { event_id: Some(event_id), ..event },
                    batch_id,
                    ts_ms,
                },
            ),
            ..m
        },
        LineModel::Record(RecordModel::Done { event_id, ts_ms }) => ReplayModel {
            pending: m.pending.remove(event_id),
            recent_done: last_of(m.recent_done.push(event_id), capacity),
            done_records: m.done_records + 1,
            ..m
        },
    }
}

/// What the lines of a journal amount to.
pub open spec fn replayed(lines: Seq<LineModel>, capacity: nat) -> ReplayModel
    decreases lines.len(),
{
    if lines.len() == 0 {
        nothing_replayed()
    } else {
        replay_line(replayed(lines.drop_last(), capacity), lines.last(), capacity)
    }
}

/// The identifiers that a line marks as done: one or none.
pub open spec fn done_id(line: LineModel) -> Option<Seq<char>> {
    match line {
        LineModel::Record(RecordModel::Done { event_id, ts_ms }) => Some(event_id),
        _ => None,
    }
}

/// The identifiers that the lines mark as done, in their order.
pub open spec fn done_ids(lines: Seq<LineModel>) -> Seq<Seq<char>>
    decreases lines.len(),
{
    if lines.len() == 0 {
        Seq::empty()
    } else {
        match done_id(lines.last()) {
            Some(id) => done_ids(lines.drop_last()).push(id),
            None => done_ids(lines.drop_last()),
        }
    }
}

/// `a` was accepted before `b`; where both were accepted in the same
/// millisecond their identifiers decide.
pub open spec fn pending_before(a: PendingModel, b: PendingModel) -> bool {
    a.ts_ms < b.ts_ms || (a.ts_ms == b.ts_ms && text_before(a.event_id, b.event_id))
}

/// No element stands after one that should follow it.
pub open spec fn in_order(s: Seq<PendingModel>) -> bool {
    forall|i: int, j: int|
        0 <= i < j < s.len() ==> !pending_before(#[trigger] s[j], #[trigger] s[i])
}

/// `list` holds every entry of `entries` once, in the order of acceptance.
pub open spec fn lists_in_order(
    list: Seq<PendingModel>,
    entries: Map<Seq<char>, PendingModel>,
) -> bool {
    &&& forall|i: int, j: int|
        0 <= i < j < list.len() ==> pending_before(#[trigger] list[i], #[trigger] list[j])
    &&& forall|i: int|
        0 <= i < list.len() ==> entries.contains_key((#[trigger] list[i]).event_id)
            && entries[list[i].event_id] == list[i]
    &&& forall|id: Seq<char>| #[trigger] entries.contains_key(id) ==> list.contains(entries[id])
}

proof fn lemma_order(a: PendingModel, b: PendingModel, c: PendingModel)
    ensures
        !pending_before(a, a),
        pending_before(a, b) && pending_before(b, c) ==> pending_before(a, c),
        !pending_before(b, a) && !pending_before(c, b) ==> !pending_before(c, a),
        pending_before(a, b) ==> !pending_before(b, a),
        a.event_id != b.event_id ==> pending_before(a, b) || pending_before(b, a),
{
    law_text_order(a.event_id, b.event_id, c.event_id);
    law_text_order(a.event_id, b.event_id, a.event_id);
    law_text_order(c.event_id, b.event_id, a.event_id);
    law_text_order(b.event_id, a.event_id, b.event_id);
    law_text_order(c.event_id, a.event_id, b.event_id);
    law_text_order(b.event_id, c.event_id, a.event_id);
}

fn is_pending_before(a: &JournalPendingEvent, b: &JournalPendingEvent) -> (r: bool)
    ensures
        r == pending_before(a@, b@),
{
    a.ts_ms < b.ts_ms || (a.ts_ms == b.ts_ms && is_text_before(
        a.event_id.as_str(),
        b.event_id.as_str(),
    ))
}

proof fn lemma_models_push(s: Seq<JournalPendingEvent>, x: JournalPendingEvent)
    ensures
        pending_models(s.push(x)) == pending_models(s).push(x@),
{
    assert(pending_models(s.push(x)) =~= pending_models(s).push(x@));
}

/// Merges two ordered sequences.
fn merge(
    left: VecDeque<JournalPendingEvent>,
    right: VecDeque<JournalPendingEvent>,
) -> (r: VecDeque<JournalPendingEvent>)
    requires
        in_order(pending_models(left@)),
        in_order(pending_models(right@)),
    ensures
        in_order(pending_models(r@)),
        pending_models(r@).to_multiset() == pending_models(left@).to_multiset().add(
            pending_models(right@).to_multiset(),
        ),
{
    broadcast use vstd::seq_lib::group_to_multiset_ensures;

    let mut left = left;
    let mut right = right;
    let mut r: VecDeque<JournalPendingEvent> = VecDeque::new();
    let ghost all = pending_models(left@).to_multiset().add(pending_models(right@).to_multiset());
    assert(pending_models(r@) == Seq::<PendingModel>::empty());
    assert(pending_models(r@).to_multiset() =~= vstd::multiset::Multiset::empty());
    while left.len() > 0 || right.len() > 0
        invariant
            in_order(pending_models(left@)),
            in_order(pending_models(right@)),
            in_order(pending_models(r@)),
            forall|i: int, j: int|
                0 <= i < r@.len() && 0 <= j < left@.len() ==> !pending_before(
                    #[trigger] left@[j]@,
                    #[trigger] r@[i]@,
                ),
            forall|i: int, j: int|
                0 <= i < r@.len() && 0 <= j < right@.len() ==> !pending_before(
                    #[trigger] right@[j]@,
                    #[trigger] r@[i]@,
                ),
            pending_models(r@).to_multiset().add(
                pending_models(left@).to_multiset().add(pending_models(right@).to_multiset()),
            ) =~= all,
        decreases left@.len() + right@.len(),
    {
        broadcast use vstd::seq_lib::group_to_multiset_ensures;

        let take_left: bool = right.len() == 0 || (left.len() > 0 && !is_pending_before(
            &right[0],
            &left[0],
        ));
        let ghost l = pending_models(left@);
        let ghost q = pending_models(right@);
        let ghost done = pending_models(r@);
        if take_left {
            match left.pop_front() {
                Some(item) => {
                    proof {
                        assert(item@ == l[0]);
                        assert(pending_models(left@) == l.skip(1));
                        assert(l == seq![item@] + l.skip(1));
                        vstd::seq_lib::lemma_multiset_commutative(seq![item@], l.skip(1));
                        lemma_models_push(r@, item);
                        assert forall|j: int| 0 <= j < right@.len() implies !pending_before(
                            #[trigger] right@[j]@,
                            item@,
                        ) by {
                            assert(q[j] == right@[j]@);
                            if j > 0 {
                                assert(!pending_before(q[j], q[0]));
                            }
                            lemma_order(item@, q[0], q[j]);
                        }
                        assert forall|j: int| 0 <= j < left@.len() implies !pending_before(
                            #[trigger] left@[j]@,
                            item@,
                        ) by {
                            assert(l[j + 1] == left@[j]@);
                            assert(!pending_before(l[j + 1], l[0]));
                        }
                    }
                    r.push_back(item);
                    assert(pending_models(r@) == done.push(item@));
                },
                None => {},
            }
        } else {
            match right.pop_front() {
                Some(item) => {
                    proof {
                        assert(item@ == q[0]);
                        assert(pending_models(right@) == q.skip(1));
                        assert(q == seq![item@] + q.skip(1));
                        vstd::seq_lib::lemma_multiset_commutative(seq![item@], q.skip(1));
                        lemma_models_push(r@, item);
                        assert forall|j: int| 0 <= j < left@.len() implies !pending_before(
                            #[trigger] left@[j]@,
                            item@,
                        ) by {
                            assert(l[j] == left@[j]@);
                            if j > 0 {
                                assert(!pending_before(l[j], l[0]));
                            }
                            lemma_order(item@, l[0], l[j]);
                            lemma_order(item@, l[0], item@);
                        }
                        assert forall|j: int| 0 <= j < right@.len() implies !pending_before(
                            #[trigger] right@[j]@,
                            item@,
                        ) by {
                            assert(q[j + 1] == right@[j]@);
                            assert(!pending_before(q[j + 1], q[0]));
                        }
                    }
                    r.push_back(item);
                    assert(pending_models(r@) == done.push(item@));
                },
                None => {},
            }
        }
    }
    assert(pending_models(left@) == Seq::<PendingModel>::empty());
    assert(pending_models(right@) == Seq::<PendingModel>::empty());
    r
}

/// Puts events into the order of their acceptance.
fn sort_pending(items: VecDeque<JournalPendingEvent>) -> (r: VecDeque<JournalPendingEvent>)
    ensures
        in_order(pending_models(r@)),
        pending_models(r@).to_multiset() == pending_models(items@).to_multiset(),
    decreases items@.len(),
{
    let mut left = items;
    let n: usize = left.len();
    if n < 2 {
        return left;
    }
    let right = left.split_off(n / 2);
    proof {
        let l = pending_models(items@).take((n / 2) as int);
        let q = pending_models(items@).skip((n / 2) as int);
        assert(pending_models(left@) == l);
        assert(pending_models(right@) == q);
        assert(pending_models(items@) == l + q);
        vstd::seq_lib::lemma_multiset_commutative(l, q);
    }
    let left = sort_pending(left);
    let right = sort_pending(right);
    merge(left, right)
}

/// Pending events by identifier, each in a slot of its own.
struct PendingIndex {
    index: StringHashMap<usize>,
    slots: Vec<Option<JournalPendingEvent>>,
}

impl PendingIndex {
    /// The index finds exactly `entries`, and every filled slot is found.
    spec fn holds(self, entries: Map<Seq<char>, PendingModel>) -> bool {
        &&& forall|id: Seq<char>| #[trigger]
            self.index@.contains_key(id) <==> entries.contains_key(id)
        &&& forall|id: Seq<char>| #[trigger]
            self.index@.contains_key(id) ==> {
                let i = self.index@[id] as int;
                &&& 0 <= i < self.slots@.len()
                &&& self.slots@[i] is Some
                &&& self.slots@[i]->0@ == entries[id]
                &&& entries[id].event_id == id
            }
        &&& forall|i: int|
            0 <= i < self.slots@.len() && (#[trigger] self.slots@[i]) is Some ==> {
                let id = self.slots@[i]->0@.event_id;
                &&& self.index@.contains_key(id)
                &&& self.index@[id] == i
            }
    }

    fn new() -> (r: Self)
        ensures
            r.holds(Map::empty()),
    {
        PendingIndex { index: StringHashMap::new(), slots: Vec::new() }
    }

    fn insert(&mut self, item: JournalPendingEvent, entries: Ghost<Map<Seq<char>, PendingModel>>)
        requires
            old(self).holds(entries@),
        ensures
            final(self).holds(entries@.insert(item@.event_id, item@)),
    {
        let found: Option<usize> = match self.index.get(item.event_id.as_str()) {
            Some(i) => Some(*i),
            None => None,
        };
        match found {
            Some(i) => {
                self.slots.set(i, Some(item));
            },
            None => {
                let i: usize = self.slots.len();
                self.index.insert(item.event_id.clone(), i);
                self.slots.push(Some(item));
            },
        }
    }

    fn remove(&mut self, event_id: &str, entries: Ghost<Map<Seq<char>, PendingModel>>)
        requires
            old(self).holds(entries@),
        ensures
            final(self).holds(entries@.remove(event_id@)),
    {
        let found: Option<usize> = match self.index.get(event_id) {
            Some(i) => Some(*i),
            None => None,
        };
        match found {
            Some(i) => {
                self.slots.set(i, None);
                self.index.remove(event_id);
            },
            None => {},
        }
    }

    /// The filled slots.
    fn into_items(
        self,
        entries: Ghost<Map<Seq<char>, PendingModel>>,
    ) -> (items: VecDeque<JournalPendingEvent>)
        requires
            self.holds(entries@),
        ensures
            pending_models(items@).no_duplicates(),
            forall|i: int|
                0 <= i < items@.len() ==> entries@.contains_key((#[trigger] items@[i])@.event_id)
                    && entries@[items@[i]@.event_id] == items@[i]@,
            forall|id: Seq<char>| #[trigger]
                entries@.contains_key(id) ==> pending_models(items@).contains(entries@[id]),
    {
        let PendingIndex { index, slots } = self;
        let mut slots = slots;
        let mut items: VecDeque<JournalPendingEvent> = VecDeque::new();
        let ghost all = slots@;
        while slots.len() > 0
            invariant
                slots@.len() <= all.len(),
                slots@ == all.take(slots@.len() as int),
                all == self.slots@,
                self.holds(entries@),
                forall|i: int|
                    0 <= i < items@.len() ==> {
                        let id = (#[trigger] items@[i])@.event_id;
                        &&& entries@.contains_key(id)
                        &&& entries@[id] == items@[i]@
                        &&& self.index@[id] >= slots@.len()
                    },
                pending_models(items@).no_duplicates(),
                forall|k: int|
                    slots@.len() <= k < all.len() && (#[trigger] all[k]) is Some
                        ==> pending_models(items@).contains(all[k]->0@),
            decreases slots@.len(),
        {
            let ghost n = slots@.len() - 1;
            let ghost before = items@;
            match slots.pop() {
                Some(Some(item)) => {
                    proof {
                        assert(all[n] == Some(item));
                        lemma_models_push(before, item);
                        let m = pending_models(before);
                        assert forall|i: int| 0 <= i < m.len() implies #[trigger] m[i] != item@ by {
                            assert(m[i] == before[i]@);
                        }
                        assert forall|k: int| n <= k < all.len() && (#[trigger] all[k]) is Some
                            implies m.push(item@).contains(all[k]->0@) by {
                            if k == n {
                                assert(m.push(item@)[m.len() as int] == item@);
                            } else {
                                let i = choose|i: int| 0 <= i < m.len() && m[i] == all[k]->0@;
                                assert(m.push(item@)[i] == all[k]->0@);
                            }
                        }
                    }
                    items.push_back(item);
                    assert(pending_models(items@) == pending_models(before).push(item@));
                },
                Some(None) => {
                    assert(all[n] is None);
                },
                None => {},
            }
        }
        assert forall|id: Seq<char>| #[trigger] entries@.contains_key(id) implies pending_models(
            items@,
        ).contains(entries@[id]) by {
            assert(self.index@.contains_key(id));
            let i = self.index@[id] as int;
            assert(all[i] is Some);
        }
        items
    }
}

proof fn lemma_sorted_lists(
    sorted: Seq<PendingModel>,
    items: Seq<PendingModel>,
    entries: Map<Seq<char>, PendingModel>,
)
    requires
        in_order(sorted),
        sorted.to_multiset() == items.to_multiset(),
        items.no_duplicates(),
        forall|i: int|
            0 <= i < items.len() ==> entries.contains_key((#[trigger] items[i]).event_id)
                && entries[items[i].event_id] == items[i],
        forall|id: Seq<char>| #[trigger] entries.contains_key(id) ==> items.contains(entries[id]),
        forall|id: Seq<char>| #[trigger] entries.contains_key(id) ==> entries[id].event_id == id,
    ensures
        lists_in_order(sorted, entries),
{
    broadcast use vstd::seq_lib::group_to_multiset_ensures;

    items.lemma_multiset_has_no_duplicates();
    sorted.lemma_multiset_has_no_duplicates_conv();
    assert forall|i: int| 0 <= i < sorted.len() implies entries.contains_key(
        (#[trigger] sorted[i]).event_id,
    ) && entries[sorted[i].event_id] == sorted[i] by {
        assert(sorted.contains(sorted[i]));
        assert(sorted.to_multiset().count(sorted[i]) > 0);
        assert(items.contains(sorted[i]));
    }
    assert forall|id: Seq<char>| #[trigger] entries.contains_key(id) implies sorted.contains(
        entries[id],
    ) by {
        assert(items.contains(entries[id]));
        assert(items.to_multiset().count(entries[id]) > 0);
    }
    assert forall|i: int, j: int| 0 <= i < j < sorted.len() implies pending_before(
        #[trigger] sorted[i],
        #[trigger] sorted[j],
    ) by {
        assert(sorted[i] != sorted[j]);
        assert(sorted[i].event_id != sorted[j].event_id);
        lemma_order(sorted[i], sorted[j], sorted[i]);
    }
}

/// Reads a journal: which events are still to be written, in the order of their
/// acceptance, and which were written last. The written ones are remembered in
/// `dedupe`.
pub fn load_replay_state(
    lines: Vec<JournalLine>,
    dedupe: &mut DedupeCache,
) -> (state: JournalReplayState)
    ensures
        ({
            let m = replayed(line_models(lines@), old(dedupe)@.max_entries);
            &&& lists_in_order(pending_models(state.pending@), m.pending)
            &&& texts(state.recent_done@) == m.recent_done
            &&& state.done_records == m.done_records
            &&& state.bad_lines == m.bad_lines
        }),
        final(dedupe)@ == remembered_all(old(dedupe)@, done_ids(line_models(lines@))),
{
    let capacity: usize = dedupe.capacity();
    let ghost given = line_models(lines@);
    let ghost dedupe_before = dedupe@;
    let mut pending = PendingIndex::new();
    let mut recent_done: VecDeque<String> = VecDeque::new();
    let mut done_records: usize = 0;
    let mut bad_lines: usize = 0;
    let total: usize = lines.len();
    assert(texts(recent_done@) == Seq::<Seq<char>>::empty());
    for line in it: lines
        invariant
            it.seq() == lines@,
            total == lines@.len(),
            given == line_models(lines@),
            capacity == dedupe_before.max_entries,
            capacity == dedupe@.max_entries,
            ({
                let m = replayed(given.take(it.index() as int), capacity as nat);
                &&& pending.holds(m.pending)
                &&& texts(recent_done@) == m.recent_done
                &&& recent_done@.len() <= capacity
                &&& done_records == m.done_records
                &&& bad_lines == m.bad_lines
                &&& done_records + bad_lines <= it.index()
            }),
            dedupe@ == remembered_all(dedupe_before, done_ids(given.take(it.index() as int))),
    {
        let ghost n = it.index() as int;
        let ghost m = replayed(given.take(n), capacity as nat);
        proof {
            assert(given.take(n + 1).drop_last() == given.take(n));
            assert(given.take(n + 1).last() == line@);
        }
        match line {
            JournalLine::Unreadable => {
                bad_lines = bad_lines + 1;
            },
            JournalLine::Blank => {},
            JournalLine::Malformed => {
                bad_lines = bad_lines + 1;
            },
            JournalLine::Record(
                PendingJournalRecord::Pending { event_id, source_plugin, event, batch_id, ts_ms },
            ) => {
                let mut event = event;
                event.event_id = Some(event_id.clone());
                let item = JournalPendingEvent {
                    event_id,
                    source_plugin,
                    event,
                    batch_id,
                    ts_ms,
                };
                pending.insert(item, Ghost(m.pending));
            },
            JournalLine::Record(PendingJournalRecord::Done { event_id, ts_ms }) => {
                pending.remove(event_id.as_str(), Ghost(m.pending));
                dedupe.remember(event_id.as_str());
                let ghost ids = done_ids(given.take(n));
                assert(ids.push(event_id@).drop_last() == ids);
                if capacity > 0 {
                    let ghost kept = recent_done@;
                    let ghost name = event_id@;
                    recent_done.push_back(event_id);
                    assert(texts(recent_done@) == texts(kept).push(name));
                    if recent_done.len() > capacity {
                        let ghost pushed = recent_done@;
                        let _ = recent_done.pop_front();
                        assert(texts(recent_done@) == texts(pushed).skip(1));
                    }
                } else {
                    assert(texts(recent_done@) == last_of(m.recent_done.push(event_id@), 0));
                }
                done_records = done_records + 1;
            },
        }
    }
    assert(given.take(given.len() as int) == given);
    let ghost m = replayed(given, capacity as nat);
    let items = pending.into_items(Ghost(m.pending));
    let mut sorted = sort_pending(items);
    proof {
        assert forall|id: Seq<char>| #[trigger]
            m.pending.contains_key(id) implies m.pending[id].event_id == id by {
            assert(pending.index@.contains_key(id));
        }
        assert forall|i: int| 0 <= i < pending_models(items@).len() implies m.pending.contains_key(
            (#[trigger] pending_models(items@)[i]).event_id,
        ) && m.pending[pending_models(items@)[i].event_id] == pending_models(items@)[i] by {
            assert(pending_models(items@)[i] == items@[i]@);
        }
        lemma_sorted_lists(pending_models(sorted@), pending_models(items@), m.pending);
    }
    let mut list: Vec<JournalPendingEvent> = Vec::new();
    let ghost ordered = sorted@;
    while sorted.len() > 0
        invariant
            list@.len() <= ordered.len(),
            list@ == ordered.take(list@.len() as int),
            sorted@ == ordered.skip(list@.len() as int),
        decreases sorted@.len(),
    {
        let ghost k = list@.len() as int;
        match sorted.pop_front() {
            Some(item) => {
                assert(item == ordered[k]);
                list.push(item);
                assert(sorted@ == ordered.skip(k + 1));
            },
            None => {},
        }
    }
    assert(list@ == ordered);
    let mut done: Vec<String> = Vec::new();
    let ghost recent = recent_done@;
    while recent_done.len() > 0
        invariant
            done@.len() <= recent.len(),
            done@ == recent.take(done@.len() as int),
            recent_done@ == recent.skip(done@.len() as int),
        decreases recent_done@.len(),
    {
        let ghost k = done@.len() as int;
        match recent_done.pop_front() {
            Some(id) => {
                assert(id == recent[k]);
                done.push(id);
                assert(recent_done@ == recent.skip(k + 1));
            },
            None => {},
        }
    }
    assert(done@ == recent);
    JournalReplayState { pending: list, recent_done: done, done_records, bad_lines }
}

/// The record of an accepted event; nothing for one without an identifier.
pub open spec fn pending_record_of(item: QueuedModel, ts_ms: u64) -> Option<RecordModel> {
    match item.event_id {
        Some(event_id) => Some(
            RecordModel::Pending {
                event_id,
                source_plugin: item.source_plugin,
                event: item.event,
                batch_id: item.batch_id,
                ts_ms,
            },
        ),
        None => None,
    }
}

/// What an optional record says.
pub open spec fn option_record(record: Option<PendingJournalRecord>) -> Option<RecordModel> {
    match record {
        Some(r) => Some(r@),
        None => None,
    }
}

/// The record that goes into the journal before an accepted event is queued.
pub fn append_pending(item: &QueuedEvent, ts_ms: u64) -> (record: Option<PendingJournalRecord>)
    ensures
        option_record(record) == pending_record_of(item@, ts_ms),
{
    match &item.event_id {
        Some(event_id) => Some(
            PendingJournalRecord::Pending {
                event_id: event_id.clone(),
                source_plugin: item.source_plugin.clone(),
                event: item.event.clone(),
                batch_id: item.batch_id,
                ts_ms,
            },
        ),
        None => None,
    }
}

/// The records of accepted events, in their order and each at its own time; none
/// for those without an identifier.
pub open spec fn pending_records_of(items: Seq<QueuedModel>, times: Seq<u64>) -> Seq<RecordModel>
    decreases items.len(),
{
    if items.len() == 0 {
        Seq::empty()
    } else {
        let earlier = pending_records_of(items.drop_last(), times.drop_last());
        match pending_record_of(items.last(), times.last()) {
            Some(record) => earlier.push(record),
            None => earlier,
        }
    }
}

/// The records that go into the journal before the accepted events of a batch
/// are queued.
pub fn pending_records(items: &Vec<QueuedEvent>, times: &Vec<u64>) -> (records: Vec<
    PendingJournalRecord,
>)
    requires
        times.len() == items.len(),
    ensures
        record_models(records@) == pending_records_of(queued_models(items@), times@),
{
    let ghost models = queued_models(items@);
    let mut records: Vec<PendingJournalRecord> = Vec::new();
    assert(record_models(records@) =~= pending_records_of(models.take(0), times@.take(0)));
    for i in 0..items.len()
        invariant
            models == queued_models(items@),
            times@.len() == items@.len(),
            record_models(records@) == pending_records_of(
                models.take(i as int),
                times@.take(i as int),
            ),
    {
        let ghost before = records@;
        proof {
            let next = models.take(i + 1);
            assert(next.drop_last() =~= models.take(i as int));
            assert(next.last() == items@[i as int]@);
            let next_times = times@.take(i + 1);
            assert(next_times.drop_last() =~= times@.take(i as int));
            assert(next_times.last() == times@[i as int]);
        }
        if let Some(record) = append_pending(&items[i], times[i]) {
            records.push(record);
            assert(record_models(records@) =~= record_models(before).push(record@));
        }
    }
    assert(models.take(models.len() as int) =~= models);
    assert(times@.take(times@.len() as int) =~= times@);
    records
}

/// The record of a written event; nothing for one without an identifier.
pub open spec fn done_record_of(item: QueuedModel, ts_ms: u64) -> Option<RecordModel> {
    match item.event_id {
        Some(event_id) => Some(RecordModel::Done { event_id, ts_ms }),
        None => None,
    }
}

/// The record that goes into the journal once an event is written.
pub fn append_done(item: &QueuedEvent, ts_ms: u64) -> (record: Option<PendingJournalRecord>)
    ensures
        option_record(record) == done_record_of(item@, ts_ms),
{
    match &item.event_id {
        Some(event_id) => Some(
            PendingJournalRecord::Done { event_id: event_id.clone(), ts_ms },
        ),
        None => None,
    }
}

/// The records of written events, in their order and each at its own time; none
/// for those without an identifier.
pub open spec fn done_records_of(items: Seq<QueuedModel>, times: Seq<u64>) -> Seq<RecordModel>
    decreases items.len(),
{
    if items.len() == 0 {
        Seq::empty()
    } else {
        let earlier = done_records_of(items.drop_last(), times.drop_last());
        match done_record_of(items.last(), times.last()) {
            Some(record) => earlier.push(record),
            None => earlier,
        }
    }
}

/// The records that go into the journal once the events of a batch are written.
pub fn done_records(items: &Vec<QueuedEvent>, times: &Vec<u64>) -> (records: Vec<
    PendingJournalRecord,
>)
    requires
        times.len() == items.len(),
    ensures
        record_models(records@) == done_records_of(queued_models(items@), times@),
{
    let ghost models = queued_models(items@);
    let mut records: Vec<PendingJournalRecord> = Vec::new();
    assert(record_models(records@) =~= done_records_of(models.take(0), times@.take(0)));
    for i in 0..items.len()
        invariant
            models == queued_models(items@),
            times@.len() == items@.len(),
            record_models(records@) == done_records_of(
                models.take(i as int),
                times@.take(i as int),
            ),
    {
        let ghost before = records@;
        proof {
            let next = models.take(i + 1);
            assert(next.drop_last() =~= models.take(i as int));
            assert(next.last() == items@[i as int]@);
            let next_times = times@.take(i + 1);
            assert(next_times.drop_last() =~= times@.take(i as int));
            assert(next_times.last() == times@[i as int]);
        }
        if let Some(record) = append_done(&items[i], times[i]) {
            records.push(record);
            assert(record_models(records@) =~= record_models(before).push(record@));
        }
    }
    assert(models.take(models.len() as int) =~= models);
    assert(times@.take(times@.len() as int) =~= times@);
    records
}

/// The record of a pending event.
pub open spec fn pending_as_record(p: PendingModel) -> RecordModel {
    RecordModel::Pending {
        event_id: p.event_id,
        source_plugin: p.source_plugin,
        event: p.event,
        batch_id: p.batch_id,
        ts_ms: p.ts_ms,
    }
}

/// What a sequence of records says.
pub open spec fn record_models(records: Seq<PendingJournalRecord>) -> Seq<RecordModel> {
    records.map_values(|r: PendingJournalRecord| r@)
}

/// The record of an identifier that was done.
pub open spec fn done_as_record(event_id: Seq<char>, ts_ms: u64) -> RecordModel {
    RecordModel::Done { event_id, ts_ms }
}

/// A journal that says no more than needed: a record for each pending event,
/// then one for each identifier done last, each at its own time.
pub open spec fn compacted(
    pending: Seq<PendingModel>,
    recent_done: Seq<Seq<char>>,
    times: Seq<u64>,
) -> Seq<RecordModel> {
    pending.map_values(|p: PendingModel| pending_as_record(p)) + recent_done.map(
        |i: int, id: Seq<char>| done_as_record(id, times[i]),
    )
}

/// The records of the file that replaces the journal. `times` dates those of the
/// identifiers done last.
pub fn compact_records(state: &JournalReplayState, times: &Vec<u64>) -> (records: Vec<
    PendingJournalRecord,
>)
    requires
        times.len() == state.recent_done.len(),
    ensures
        record_models(records@) == compacted(
            pending_models(state.pending@),
            texts(state.recent_done@),
            times@,
        ),
{
    let mut records: Vec<PendingJournalRecord> = Vec::new();
    let ghost whole = compacted(
        pending_models(state.pending@),
        texts(state.recent_done@),
        times@,
    );
    for i in 0..state.pending.len()
        invariant
            whole == compacted(pending_models(state.pending@), texts(state.recent_done@), times@),
            records@.len() == i,
            forall|j: int| 0 <= j < i ==> (#[trigger] records@[j])@ == whole[j],
    {
        let pending = &state.pending[i];
        records.push(
            PendingJournalRecord::Pending {
                event_id: pending.event_id.clone(),
                source_plugin: pending.source_plugin.clone(),
                event: pending.event.clone(),
                batch_id: pending.batch_id,
                ts_ms: pending.ts_ms,
            },
        );
    }
    for i in 0..state.recent_done.len()
        invariant
            whole == compacted(pending_models(state.pending@), texts(state.recent_done@), times@),
            times@.len() == state.recent_done@.len(),
            records@.len() == state.pending@.len() + i,
            forall|j: int| 0 <= j < records@.len() ==> (#[trigger] records@[j])@ == whole[j],
    {
        records.push(
            PendingJournalRecord::Done {
                event_id: state.recent_done[i].clone(),
                ts_ms: times[i],
            },
        );
    }
    assert(record_models(records@) =~= whole);
    records
}

/// The name of the file that a compaction writes before it replaces the
/// journal.
pub fn compact_path(path: &str, now_ms: u64) -> (r: String)
    ensures
        r@ == path@ + ".compact."@ + decimal(now_ms as nat),
{
    let mut r: String = path.to_owned();
    r.append(".compact.");
    push_decimal(&mut r, now_ms);
    r
}

/// Whether the journal has grown to the size from which on it is compacted. A
/// size of zero switches that off.
pub fn compaction_due(minimum_bytes: u64, journal_bytes: u64) -> (r: bool)
    ensures
        r == (minimum_bytes != 0 && journal_bytes >= minimum_bytes),
{
    minimum_bytes != 0 && journal_bytes >= minimum_bytes
}

/// The lines that records make.
pub open spec fn as_lines(records: Seq<RecordModel>) -> Seq<LineModel> {
    records.map_values(|r: RecordModel| LineModel::Record(r))
}

/// A line records `id` as pending.
pub open spec fn makes_pending(line: LineModel, id: Seq<char>) -> bool {
    line matches LineModel::Record(r) && r is Pending && r->Pending_event_id == id
}

/// A line records `id` as done.
pub open spec fn makes_done(line: LineModel, id: Seq<char>) -> bool {
    line matches LineModel::Record(r) && r is Done && r->Done_event_id == id
}

/// Line `i` records `id` as pending, and no later line records it as done.
pub open spec fn unfinished_since(lines: Seq<LineModel>, id: Seq<char>, i: int) -> bool {
    &&& 0 <= i < lines.len()
    &&& makes_pending(lines[i], id)
    &&& forall|j: int| i < j < lines.len() ==> !makes_done(#[trigger] lines[j], id)
}

/// After a restart an event is pending exactly when the journal records it as
/// accepted and does not record it as written after that.
pub proof fn law_pending_is_unfinished(lines: Seq<LineModel>, capacity: nat, id: Seq<char>)
    ensures
        replayed(lines, capacity).pending.contains_key(id) <==> exists|i: int|
            unfinished_since(lines, id, i),
    decreases lines.len(),
{
    if lines.len() > 0 {
        let n = lines.len() - 1;
        let before = lines.drop_last();
        law_pending_is_unfinished(before, capacity, id);
        let m = replayed(before, capacity);
        if makes_pending(lines[n], id) {
            assert(unfinished_since(lines, id, n));
        } else if makes_done(lines[n], id) {
            assert forall|i: int| !unfinished_since(lines, id, i) by {
                if 0 <= i < n {
                    assert(makes_done(lines[n], id));
                }
            }
        } else {
            if m.pending.contains_key(id) {
                let i = choose|i: int| unfinished_since(before, id, i);
                assert(unfinished_since(lines, id, i)) by {
                    assert forall|j: int| i < j < lines.len() implies !makes_done(
                        #[trigger] lines[j],
                        id,
                    ) by {
                        if j < n {
                            assert(lines[j] == before[j]);
                        }
                    }
                }
            }
            if exists|i: int| unfinished_since(lines, id, i) {
                let i = choose|i: int| unfinished_since(lines, id, i);
                assert(unfinished_since(before, id, i)) by {
                    assert forall|j: int| i < j < before.len() implies !makes_done(
                        #[trigger] before[j],
                        id,
                    ) by {
                        assert(lines[j] == before[j]);
                    }
                }
            }
        }
    }
}

/// A pending event is kept under its own identifier, which it also carries
/// inside, and no more identifiers are kept as done than allowed.
pub proof fn law_replay_is_consistent(lines: Seq<LineModel>, capacity: nat)
    ensures
        ({
            let m = replayed(lines, capacity);
            &&& forall|id: Seq<char>| #[trigger]
                m.pending.contains_key(id) ==> m.pending[id].event_id == id
                    && m.pending[id].event.event_id == Some(id)
            &&& m.recent_done.len() <= capacity
            &&& m.done_records == done_ids(lines).len()
            &&& m.done_records + m.bad_lines <= lines.len()
        }),
    decreases lines.len(),
{
    if lines.len() > 0 {
        law_replay_is_consistent(lines.drop_last(), capacity);
    }
}

/// The identifiers kept as done are those recorded last.
pub proof fn law_recent_done_is_the_end(lines: Seq<LineModel>, capacity: nat)
    ensures
        replayed(lines, capacity).recent_done == last_of(done_ids(lines), capacity),
    decreases lines.len(),
{
    if lines.len() > 0 {
        law_recent_done_is_the_end(lines.drop_last(), capacity);
        match done_id(lines.last()) {
            Some(id) => {
                let ids = done_ids(lines.drop_last());
                assert(last_of(last_of(ids, capacity).push(id), capacity) == last_of(
                    ids.push(id),
                    capacity,
                ));
            },
            None => {},
        }
    }
}

/// `entries` but for those whose identifiers are in `done`.
pub open spec fn without_done(
    entries: Map<Seq<char>, PendingModel>,
    done: Seq<Seq<char>>,
) -> Map<Seq<char>, PendingModel> {
    Map::new(
        |id: Seq<char>| entries.contains_key(id) && !done.contains(id),
        |id: Seq<char>| entries[id],
    )
}

proof fn lemma_replay_pending_part(
    pending: Seq<PendingModel>,
    recent_done: Seq<Seq<char>>,
    times: Seq<u64>,
    entries: Map<Seq<char>, PendingModel>,
    capacity: nat,
    k: int,
)
    requires
        lists_in_order(pending, entries),
        forall|id: Seq<char>| #[trigger]
            entries.contains_key(id) ==> entries[id].event_id == id && entries[id].event.event_id
                == Some(id),
        0 <= k <= pending.len(),
    ensures
        ({
            let m = replayed(as_lines(compacted(pending, recent_done, times)).take(k), capacity);
            &&& forall|id: Seq<char>| #[trigger]
                m.pending.contains_key(id) ==> entries.contains_key(id) && m.pending[id]
                    == entries[id]
            &&& forall|i: int| 0 <= i < k ==> m.pending.contains_key(
                (#[trigger] pending[i]).event_id,
            )
            &&& m.recent_done == Seq::<Seq<char>>::empty()
            &&& m.done_records == 0
            &&& m.bad_lines == 0
        }),
    decreases k,
{
    let records = compacted(pending, recent_done, times);
    let lines = as_lines(records);
    if k > 0 {
        lemma_replay_pending_part(pending, recent_done, times, entries, capacity, k - 1);
        assert(lines.take(k).drop_last() == lines.take(k - 1));
        assert(lines.take(k).last() == LineModel::Record(records[k - 1]));
        let p = pending[k - 1];
        assert(records[k - 1] == pending_as_record(p));
        assert(entries[p.event_id] == p);
        assert(EventModel { event_id: Some(p.event_id), ..p.event } == p.event);
    }
}

proof fn lemma_replay_done_part(
    pending: Seq<PendingModel>,
    recent_done: Seq<Seq<char>>,
    times: Seq<u64>,
    entries: Map<Seq<char>, PendingModel>,
    capacity: nat,
    k: int,
)
    requires
        lists_in_order(pending, entries),
        forall|id: Seq<char>| #[trigger]
            entries.contains_key(id) ==> entries[id].event_id == id && entries[id].event.event_id
                == Some(id),
        recent_done.len() <= capacity,
        0 <= k <= recent_done.len(),
    ensures
        replayed(
            as_lines(compacted(pending, recent_done, times)).take(pending.len() + k),
            capacity,
        ) == (ReplayModel {
            pending: without_done(entries, recent_done.take(k)),
            recent_done: recent_done.take(k),
            done_records: k as nat,
            bad_lines: 0,
        }),
    decreases k,
{
    let records = compacted(pending, recent_done, times);
    let lines = as_lines(records);
    let n = pending.len() + k;
    if k == 0 {
        lemma_replay_pending_part(
            pending,
            recent_done,
            times,
            entries,
            capacity,
            pending.len() as int,
        );
        let m = replayed(lines.take(n), capacity);
        assert forall|id: Seq<char>| #[trigger]
            entries.contains_key(id) implies m.pending.contains_key(id) by {
            let i = choose|i: int| 0 <= i < pending.len() && pending[i] == entries[id];
            assert(pending[i].event_id == id);
        }
        assert(recent_done.take(0) == Seq::<Seq<char>>::empty());
        assert(m.pending =~= without_done(entries, recent_done.take(0)));
    } else {
        lemma_replay_done_part(pending, recent_done, times, entries, capacity, k - 1);
        assert(lines.take(n).drop_last() == lines.take(n - 1));
        assert(lines.take(n).last() == LineModel::Record(records[n - 1]));
        let id = recent_done[k - 1];
        assert(records[n - 1] == done_as_record(id, times[k - 1]));
        let before = recent_done.take(k - 1);
        let now = recent_done.take(k);
        assert(before.push(id) == now);
        assert forall|other: Seq<char>| now.contains(other) <==> (before.contains(other) || other
            == id) by {
            if before.contains(other) {
                let i = choose|i: int| 0 <= i < before.len() && before[i] == other;
                assert(now[i] == other);
            }
            assert(now[k - 1] == id);
        }
        assert(without_done(entries, before).remove(id) =~= without_done(entries, now));
    }
}

/// A compacted journal tells the same after a restart as the journal that it
/// replaced: the same identifiers are kept as done, and the same events are
/// pending, in the same order, but for those that are kept as done, which were
/// accepted again after they were written.
pub proof fn law_compaction_keeps_what_matters(
    lines: Seq<LineModel>,
    capacity: nat,
    pending: Seq<PendingModel>,
    times: Seq<u64>,
)
    requires
        lists_in_order(pending, replayed(lines, capacity).pending),
    ensures
        ({
            let m = replayed(lines, capacity);
            let again = replayed(
                as_lines(compacted(pending, m.recent_done, times)),
                capacity,
            );
            &&& again.pending == without_done(m.pending, m.recent_done)
            &&& again.recent_done == m.recent_done
            &&& again.done_records == m.recent_done.len()
            &&& again.bad_lines == 0
            &&& (forall|i: int|
                0 <= i < m.recent_done.len() ==> !m.pending.contains_key(
                    #[trigger] m.recent_done[i],
                )) ==> again.pending == m.pending && lists_in_order(pending, again.pending)
        }),
{
    let m = replayed(lines, capacity);
    law_replay_is_consistent(lines, capacity);
    lemma_replay_done_part(
        pending,
        m.recent_done,
        times,
        m.pending,
        capacity,
        m.recent_done.len() as int,
    );
    let records = compacted(pending, m.recent_done, times);
    assert(as_lines(records).take(records.len() as int) == as_lines(records));
    assert(m.recent_done.take(m.recent_done.len() as int) == m.recent_done);
    if forall|i: int|
        0 <= i < m.recent_done.len() ==> !m.pending.contains_key(#[trigger] m.recent_done[i]) {
        assert(without_done(m.pending, m.recent_done) =~= m.pending);
    }
}

/// There is only one way to list entries, each under its own identifier, in the
/// order of acceptance.
pub proof fn law_order_is_unique(
    a: Seq<PendingModel>,
    b: Seq<PendingModel>,
    entries: Map<Seq<char>, PendingModel>,
)
    requires
        lists_in_order(a, entries),
        lists_in_order(b, entries),
        forall|id: Seq<char>| #[trigger] entries.contains_key(id) ==> entries[id].event_id == id,
    ensures
        a == b,
    decreases a.len(),
{
    if a.len() == 0 {
        if b.len() > 0 {
            assert(entries.contains_key(b[0].event_id));
            assert(a.contains(entries[b[0].event_id]));
        }
        assert(a == b);
    } else {
        let last = a.last();
        assert(entries.contains_key(last.event_id));
        assert(b.contains(last));
        let k = choose|k: int| 0 <= k < b.len() && b[k] == last;
        let end = b.last();
        assert(entries.contains_key(end.event_id));
        assert(a.contains(end));
        let i = choose|i: int| 0 <= i < a.len() && a[i] == end;
        lemma_order(end, last, end);
        if k < b.len() - 1 {
            assert(pending_before(b[k], b[b.len() - 1]));
            if i < a.len() - 1 {
                assert(pending_before(a[i], a[a.len() - 1]));
            }
            assert(false);
        }
        assert(end == last);
        let rest = entries.remove(last.event_id);
        lemma_drop_last_lists(a, entries);
        lemma_drop_last_lists(b, entries);
        law_order_is_unique(a.drop_last(), b.drop_last(), rest);
        assert(a == a.drop_last().push(last));
        assert(b == b.drop_last().push(last));
    }
}

proof fn lemma_drop_last_lists(a: Seq<PendingModel>, entries: Map<Seq<char>, PendingModel>)
    requires
        lists_in_order(a, entries),
        forall|id: Seq<char>| #[trigger] entries.contains_key(id) ==> entries[id].event_id == id,
        a.len() > 0,
    ensures
        lists_in_order(a.drop_last(), entries.remove(a.last().event_id)),
{
    let s = a.drop_last();
    let rest = entries.remove(a.last().event_id);
    assert(entries[a.last().event_id] == a.last());
    assert forall|i: int| 0 <= i < s.len() implies rest.contains_key((#[trigger] s[i]).event_id)
        && rest[s[i].event_id] == s[i] by {
        assert(s[i] == a[i]);
        assert(pending_before(a[i], a[a.len() - 1]));
        lemma_order(a[i], a[i], a[i]);
        assert(entries[a[i].event_id] == a[i]);
    }
    assert forall|id: Seq<char>| #[trigger] rest.contains_key(id) implies s.contains(rest[id]) by {
        assert(entries.contains_key(id));
        let i = choose|i: int| 0 <= i < a.len() && a[i] == entries[id];
        assert(entries[id].event_id == id);
        assert(s[i] == rest[id]);
    }
    assert forall|i: int, j: int| 0 <= i < j < s.len() implies pending_before(
        #[trigger] s[i],
        #[trigger] s[j],
    ) by {
        assert(s[i] == a[i] && s[j] == a[j]);
    }
}

proof fn lemma_fresh_memory(ids: Seq<Seq<char>>, capacity: nat)
    requires
        ids.no_duplicates(),
        forall|i: int| 0 <= i < ids.len() ==> (#[trigger] ids[i]).len() > 0,
    ensures
        remembered_all(DedupeModel { order: Seq::empty(), max_entries: capacity }, ids) == (
        DedupeModel { order: last_of(ids, capacity), max_entries: capacity }),
    decreases ids.len(),
{
    let fresh = DedupeModel { order: Seq::empty(), max_entries: capacity };
    if ids.len() == 0 {
        assert(last_of(ids, capacity) =~= Seq::empty());
    } else {
        let earlier = ids.drop_last();
        let id = ids[ids.len() - 1];
        assert forall|i: int| 0 <= i < earlier.len() implies (#[trigger] earlier[i]).len() > 0 by {
            assert(earlier[i] == ids[i]);
        }
        lemma_fresh_memory(earlier, capacity);
        let before = last_of(earlier, capacity);
        if before.contains(id) {
            let i = choose|i: int| 0 <= i < before.len() && before[i] == id;
            assert(ids[i + earlier.len() - before.len()] == id);
        }
        assert(remembered_all(fresh, ids).order =~= last_of(ids, capacity));
    }
}

/// After a restart the service knows as written what the journal keeps as done,
/// where no event was recorded as done twice.
pub proof fn law_restart_knows_what_was_done(lines: Seq<LineModel>, capacity: nat)
    requires
        done_ids(lines).no_duplicates(),
        forall|i: int| 0 <= i < done_ids(lines).len() ==> (#[trigger] done_ids(lines)[i]).len() > 0,
    ensures
        remembered_all(
            DedupeModel { order: Seq::empty(), max_entries: capacity },
            done_ids(lines),
        ).order == replayed(lines, capacity).recent_done,
{
    lemma_fresh_memory(done_ids(lines), capacity);
    law_recent_done_is_the_end(lines, capacity);
}

proof fn lemma_one_more_line(lines: Seq<LineModel>, records: Seq<RecordModel>, record: RecordModel)
    ensures
        (lines + as_lines(records.push(record))).len() > 0,
        (lines + as_lines(records.push(record))).drop_last() == lines + as_lines(records),
        (lines + as_lines(records.push(record))).last() == LineModel::Record(record),
{
    let all = lines + as_lines(records.push(record));
    assert(as_lines(records.push(record)) =~= as_lines(records).push(LineModel::Record(record)));
    assert(all.drop_last() =~= lines + as_lines(records));
}

/// Once a batch is journalled, every event of it that has an identifier is
/// pending after a restart, whatever the journal held before.
pub proof fn law_journalled_batch_is_pending(
    lines: Seq<LineModel>,
    items: Seq<QueuedModel>,
    times: Seq<u64>,
    capacity: nat,
    i: int,
)
    requires
        0 <= i < items.len(),
        items[i].event_id is Some,
        times.len() == items.len(),
    ensures
        replayed(
            lines + as_lines(pending_records_of(items, times)),
            capacity,
        ).pending.contains_key(items[i].event_id->0),
    decreases items.len(),
{
    let earlier = items.drop_last();
    match pending_record_of(items.last(), times.last()) {
        Some(record) => {
            lemma_one_more_line(
                lines,
                pending_records_of(earlier, times.drop_last()),
                record,
            );
        },
        None => {},
    }
    if i < earlier.len() {
        law_journalled_batch_is_pending(lines, earlier, times.drop_last(), capacity, i);
    }
}

/// Once a batch is recorded as written, no event of it is pending after a
/// restart.
pub proof fn law_done_batch_is_not_pending(
    lines: Seq<LineModel>,
    items: Seq<QueuedModel>,
    times: Seq<u64>,
    capacity: nat,
    i: int,
)
    requires
        0 <= i < items.len(),
        items[i].event_id is Some,
        times.len() == items.len(),
    ensures
        !replayed(
            lines + as_lines(done_records_of(items, times)),
            capacity,
        ).pending.contains_key(items[i].event_id->0),
    decreases items.len(),
{
    let earlier = items.drop_last();
    match done_record_of(items.last(), times.last()) {
        Some(record) => {
            lemma_one_more_line(
                lines,
                done_records_of(earlier, times.drop_last()),
                record,
            );
        },
        None => {},
    }
    if i < earlier.len() {
        law_done_batch_is_not_pending(lines, earlier, times.drop_last(), capacity, i);
    }
}

/// The journal records of an event what was queued of it: its identifier, its
/// plugin, the event and its batch as they are, at the time of the record; and of a
/// written one its identifier. Of an event without an identifier it records
/// nothing.
pub proof fn law_records_say_what_was_queued(item: QueuedModel, at: u64)
    ensures
        item.event_id is None ==> pending_record_of(item, at) is None && done_record_of(
            item,
            at,
        ) is None,
        item.event_id matches Some(id) ==> {
            &&& pending_record_of(item, at) matches Some(
                RecordModel::Pending { event_id, source_plugin, event, batch_id, ts_ms },
            )
            &&& event_id == id
            &&& source_plugin == item.source_plugin
            &&& event == item.event
            &&& batch_id == item.batch_id
            &&& ts_ms == at
        },
        item.event_id matches Some(id) ==> {
            &&& done_record_of(item, at) matches Some(RecordModel::Done { event_id, ts_ms })
            &&& event_id == id
            &&& ts_ms == at
        },
{
}

proof fn lemma_zip_drop_last(items: Seq<QueuedModel>, times: Seq<u64>)
    requires
        items.len() > 0,
        times.len() == items.len(),
    ensures
        items.zip_with(times).len() == items.len(),
        items.zip_with(times).drop_last() == items.drop_last().zip_with(times.drop_last()),
        items.zip_with(times).last() == (items.last(), times.last()),
{
    assert(items.zip_with(times).drop_last() =~= items.drop_last().zip_with(times.drop_last()));
}

/// A batch is journalled with one record for each of its events that have an
/// identifier, in their order and each at its own time.
pub proof fn law_each_event_is_journalled_once(items: Seq<QueuedModel>, times: Seq<u64>)
    requires
        times.len() == items.len(),
    ensures
        ({
            let named = items.zip_with(times).filter(
                |p: (QueuedModel, u64)| p.0.event_id is Some,
            );
            let records = pending_records_of(items, times);
            &&& records.len() == named.len()
            &&& forall|k: int|
                0 <= k < records.len() ==> {
                    &&& (#[trigger] records[k]) matches RecordModel::Pending {
                        event_id,
                        source_plugin,
                        event,
                        batch_id,
                        ts_ms,
                    }
                    &&& named[k].0.event_id == Some(event_id)
                    &&& source_plugin == named[k].0.source_plugin
                    &&& event == named[k].0.event
                    &&& batch_id == named[k].0.batch_id
                    &&& ts_ms == named[k].1
                }
        }),
    decreases items.len(),
{
    reveal(Seq::filter);
    if items.len() > 0 {
        lemma_zip_drop_last(items, times);
        law_each_event_is_journalled_once(items.drop_last(), times.drop_last());
    }
}

/// A written batch is journalled with one record for each of its events that have
/// an identifier, in their order and each at its own time.
pub proof fn law_each_event_is_journalled_as_done_once(items: Seq<QueuedModel>, times: Seq<u64>)
    requires
        times.len() == items.len(),
    ensures
        ({
            let named = items.zip_with(times).filter(
                |p: (QueuedModel, u64)| p.0.event_id is Some,
            );
            let records = done_records_of(items, times);
            &&& records.len() == named.len()
            &&& forall|k: int|
                0 <= k < records.len() ==> {
                    &&& (#[trigger] records[k]) matches RecordModel::Done { event_id, ts_ms }
                    &&& named[k].0.event_id == Some(event_id)
                    &&& ts_ms == named[k].1
                }
        }),
    decreases items.len(),
{
    reveal(Seq::filter);
    if items.len() > 0 {
        lemma_zip_drop_last(items, times);
        law_each_event_is_journalled_as_done_once(items.drop_last(), times.drop_last());
    }
}

/// The last record of an identifier decides: after a restart its event is pending
/// where that record says so, with what that record says, and is not where it says
/// that the event was written.
pub proof fn law_last_record_decides(
    lines: Seq<LineModel>,
    capacity: nat,
    id: Seq<char>,
    i: int,
)
    requires
        0 <= i < lines.len(),
        forall|j: int|
            i < j < lines.len() ==> {
                &&& (#[trigger] lines[j]) matches LineModel::Record(
                    RecordModel::Pending { event_id, .. },
                ) ==> event_id != id
                &&& lines[j] matches LineModel::Record(RecordModel::Done { event_id, .. })
                    ==> event_id != id
            },
    ensures
        lines[i] matches LineModel::Record(
            RecordModel::Pending { event_id, source_plugin, event, batch_id, ts_ms },
        ) ==> event_id == id ==> {
            let m = replayed(lines, capacity).pending;
            &&& m.contains_key(id)
            &&& m[id].event_id == id
            &&& m[id].source_plugin == source_plugin
            &&& m[id].event == (EventModel { event_id: Some(id), ..event })
            &&& m[id].batch_id == batch_id
            &&& m[id].ts_ms == ts_ms
        },
        lines[i] matches LineModel::Record(RecordModel::Done { event_id, .. }) ==> event_id == id
            ==> !replayed(lines, capacity).pending.contains_key(id),
    decreases lines.len(),
{
    let before = lines.drop_last();
    if i < before.len() {
        assert(lines[lines.len() - 1] == lines.last());
        assert forall|j: int| i < j < before.len() implies {
            &&& (#[trigger] before[j]) matches LineModel::Record(
                RecordModel::Pending { event_id, .. },
            ) ==> event_id != id
            &&& before[j] matches LineModel::Record(RecordModel::Done { event_id, .. })
                ==> event_id != id
        } by {
            assert(before[j] == lines[j]);
        }
        law_last_record_decides(before, capacity, id, i);
    }
}

/// An identifier of which the journal says nothing is not pending.
pub proof fn law_unrecorded_is_not_pending(lines: Seq<LineModel>, capacity: nat, id: Seq<char>)
    requires
        forall|j: int|
            0 <= j < lines.len() ==> {
                (#[trigger] lines[j]) matches LineModel::Record(
                    RecordModel::Pending { event_id, .. },
                ) ==> event_id != id
            },
    ensures
        !replayed(lines, capacity).pending.contains_key(id),
    decreases lines.len(),
{
    if lines.len() > 0 {
        let before = lines.drop_last();
        assert(lines[lines.len() - 1] == lines.last());
        assert forall|j: int| 0 <= j < before.len() implies {
            (#[trigger] before[j]) matches LineModel::Record(RecordModel::Pending { event_id, .. })
                ==> event_id != id
        } by {
            assert(before[j] == lines[j]);
        }
        law_unrecorded_is_not_pending(before, capacity, id);
    }
}

proof fn lemma_done_ids(lines: Seq<LineModel>)
    ensures
        ({
            let done = lines.filter(|l: LineModel| l is Record && l->Record_0 is Done);
            &&& done_ids(lines).len() == done.len()
            &&& forall|k: int|
                0 <= k < done.len() ==> #[trigger] done_ids(lines)[k]
                    == done[k]->Record_0->Done_event_id
        }),
    decreases lines.len(),
{
    reveal(Seq::filter);
    if lines.len() > 0 {
        lemma_done_ids(lines.drop_last());
    }
}

/// After a restart as many lines are counted as bad as could not be read or hold no
/// record, and as many events as done as the journal records. The identifiers of
/// these are known in their order, as many of the last as may be.
pub proof fn law_lines_are_counted(lines: Seq<LineModel>, capacity: nat)
    ensures
        ({
            let m = replayed(lines, capacity);
            let done = lines.filter(|l: LineModel| l is Record && l->Record_0 is Done);
            let n = if done.len() <= capacity {
                done.len()
            } else {
                capacity
            };
            &&& m.bad_lines == lines.filter(|l: LineModel| l is Unreadable || l is Malformed).len()
            &&& m.done_records == done.len()
            &&& m.recent_done.len() == n
            &&& forall|k: int|
                0 <= k < n ==> #[trigger] m.recent_done[k] == done[done.len() - n
                    + k]->Record_0->Done_event_id
            &&& done_ids(lines).len() == done.len()
            &&& forall|k: int|
                0 <= k < done.len() ==> #[trigger] done_ids(lines)[k]
                    == done[k]->Record_0->Done_event_id
        }),
{
    lemma_done_ids(lines);
    law_recent_done_is_the_end(lines, capacity);
    law_replay_is_consistent(lines, capacity);
    lemma_bad_lines(lines, capacity);
}

proof fn lemma_bad_lines(lines: Seq<LineModel>, capacity: nat)
    ensures
        replayed(lines, capacity).bad_lines == lines.filter(
            |l: LineModel| l is Unreadable || l is Malformed,
        ).len(),
    decreases lines.len(),
{
    reveal(Seq::filter);
    if lines.len() > 0 {
        lemma_bad_lines(lines.drop_last(), capacity);
    }
}

/// Pending events are listed by the time of their records, and those of one time by
/// their identifiers; each entry stands in the list once, as it is.
pub proof fn law_pending_events_are_listed_by_time(
    list: Seq<PendingModel>,
    entries: Map<Seq<char>, PendingModel>,
    i: int,
    j: int,
    id: Seq<char>,
)
    requires
        lists_in_order(list, entries),
    ensures
        0 <= i < j < list.len() ==> {
            &&& list[i].ts_ms <= list[j].ts_ms
            &&& list[i].ts_ms == list[j].ts_ms ==> text_before(list[i].event_id, list[j].event_id)
            &&& list[i] != list[j]
        },
        0 <= i < list.len() ==> entries.contains_key(list[i].event_id)
            && entries[list[i].event_id] == list[i],
        entries.contains_key(id) ==> list.contains(entries[id]),
{
    if 0 <= i < j < list.len() {
        assert(pending_before(list[i], list[j]));
        lemma_order(list[i], list[j], list[i]);
    }
}

/// A compacted journal holds first a record for each pending event, with what is
/// known of it, then one for each identifier that was done, in their orders.
pub proof fn law_compacted_journal(
    pending: Seq<PendingModel>,
    recent_done: Seq<Seq<char>>,
    times: Seq<u64>,
    k: int,
)
    requires
        times.len() == recent_done.len(),
        0 <= k < pending.len() + recent_done.len(),
    ensures
        compacted(pending, recent_done, times).len() == pending.len() + recent_done.len(),
        k < pending.len() ==> {
            &&& compacted(pending, recent_done, times)[k] matches RecordModel::Pending {
                event_id,
                source_plugin,
                event,
                batch_id,
                ts_ms,
            }
            &&& event_id == pending[k].event_id
            &&& source_plugin == pending[k].source_plugin
            &&& event == pending[k].event
            &&& batch_id == pending[k].batch_id
            &&& ts_ms == pending[k].ts_ms
        },
        k >= pending.len() ==> {
            &&& compacted(pending, recent_done, times)[k] matches RecordModel::Done {
                event_id,
                ts_ms,
            }
            &&& event_id == recent_done[k - pending.len()]
            &&& ts_ms == times[k - pending.len()]
        },
{
}

/// The view of a record holds each of its fields as it is.
pub proof fn law_record_view(record: PendingJournalRecord)
    ensures
        record matches PendingJournalRecord::Pending {
            event_id,
            source_plugin,
            event,
            batch_id,
            ts_ms,
        } ==> {
            &&& record@ is Pending
            &&& record@->Pending_event_id == event_id@
            &&& record@->source_plugin == source_plugin@
            &&& record@->event == event@
            &&& record@->batch_id == batch_id
            &&& record@->Pending_ts_ms == ts_ms
        },
        record matches PendingJournalRecord::Done { event_id, ts_ms } ==> {
            &&& record@ is Done
            &&& record@->Done_event_id == event_id@
            &&& record@->Done_ts_ms == ts_ms
        },
        option_record(Some(record)) == Some(record@),
        option_record(None) is None,
{
}

/// The views of lines, of records and of pending events hold what these hold, one
/// for one.
pub proof fn law_journal_views(
    line: JournalLine,
    item: JournalPendingEvent,
    lines: Seq<JournalLine>,
    records: Seq<PendingJournalRecord>,
    items: Seq<JournalPendingEvent>,
    k: int,
)
    ensures
        line is Unreadable ==> line@ is Unreadable,
        line is Blank ==> line@ is Blank,
        line is Malformed ==> line@ is Malformed,
        line matches JournalLine::Record(r) ==> line@ == LineModel::Record(r@),
        item@.event_id == item.event_id@,
        item@.source_plugin == item.source_plugin@,
        item@.event == item.event@,
        item@.batch_id == item.batch_id,
        item@.ts_ms == item.ts_ms,
        line_models(lines).len() == lines.len(),
        0 <= k < lines.len() ==> line_models(lines)[k] == lines[k]@,
        record_models(records).len() == records.len(),
        0 <= k < records.len() ==> record_models(records)[k] == records[k]@,
        pending_models(items).len() == items.len(),
        0 <= k < items.len() ==> pending_models(items)[k] == items[k]@,
{
}

/// What [`append_pending`] and [`append_done`] record of a queued event: its own
/// identifier, and of an accepted one also its plugin, its batch and the event, as
/// they are, at the time that is given; nothing where it has no identifier.
pub proof fn law_appended_records_hold_their_event(
    item: QueuedEvent,
    at: u64,
    pending: Option<PendingJournalRecord>,
    done: Option<PendingJournalRecord>,
)
    requires
        call_ensures(append_pending, (&item, at), pending),
        call_ensures(append_done, (&item, at), done),
    ensures
        item.event_id is None ==> pending is None && done is None,
        item.event_id matches Some(id) ==> {
            &&& pending matches Some(
                PendingJournalRecord::Pending { event_id, source_plugin, event, batch_id, ts_ms },
            )
            &&& event_id@ == id@
            &&& source_plugin@ == item.source_plugin@
            &&& event@ == item.event@
            &&& batch_id == item.batch_id
            &&& ts_ms == at
        },
        item.event_id matches Some(id) ==> {
            &&& done matches Some(PendingJournalRecord::Done { event_id, ts_ms })
            &&& event_id@ == id@
            &&& ts_ms == at
        },
{
}

/// What [`journal_line`] takes a line for: blank where it holds nothing but white
/// space, and else what it holds.
pub proof fn law_lines_are_told_apart(
    text: Option<&str>,
    record: Option<PendingJournalRecord>,
    line: JournalLine,
)
    requires
        call_ensures(journal_line, (text, record), line),
    ensures
        text is None <==> line is Unreadable,
        text matches Some(t) ==> {
            let empty = forall|i: int| 0 <= i < t@.len() ==> white_space(#[trigger] t@[i]);
            &&& empty ==> line is Blank
            &&& !empty && record is None ==> line is Malformed
            &&& !empty ==> (record matches Some(r) ==> (line matches JournalLine::Record(held)
                && held@ == r@))
        },
{
    if let Some(t) = text {
        law_trim_takes_off_white_space(t@);
    }
}

/// [`compaction_due`] says when a journal is compacted: from the given size on,
/// and never where that is zero. The file that [`compact_path`] names stands beside
/// the journal, under a name of its own.
pub proof fn law_when_and_where_a_journal_is_compacted(
    minimum: u64,
    size: u64,
    due: bool,
    path: &str,
    now_ms: u64,
    file: String,
)
    requires
        call_ensures(compaction_due, (minimum, size), due),
        call_ensures(compact_path, (path, now_ms), file),
    ensures
        minimum == 0 ==> !due,
        minimum > 0 ==> (due <==> size >= minimum),
        file@ == path@ + ".compact."@ + decimal(now_ms as nat),
{
}

} // verus!
