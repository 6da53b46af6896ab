//! The queue of events between the connections and the database writer.

use crate::config::Config;
use crate::event::{EventModel, StatsEvent};
use crate::text::{limit, option_text};
use std::collections::VecDeque;
use vstd::prelude::*;

verus! {

/// An accepted event on its way to the database.
#[derive(Debug)]
pub struct QueuedEvent {
    pub source_plugin: String,
    pub event: StatsEvent,
    pub event_id: Option<String>,
    pub batch_id: Option<u64>,
    pub enqueued_at_ms: u64,
    /// The ticket of the batch whose sender waits for this event.
    pub completion: Option<u64>,
}

/// What a queued event says.
#[verifier::ext_equal]
pub struct QueuedModel {
    pub source_plugin: Seq<char>,
    pub event: EventModel,
    pub event_id: Option<Seq<char>>,
    pub batch_id: Option<u64>,
    pub enqueued_at_ms: u64,
    pub completion: Option<u64>,
}

impl View for QueuedEvent {
    type V = QueuedModel;

    open spec fn view(&self) -> QueuedModel {
        QueuedModel {
            source_plugin: self.source_plugin@,
            event: self.event@,
            event_id: option_text(self.event_id),
            batch_id: self.batch_id,
            enqueued_at_ms: self.enqueued_at_ms,
            completion: self.completion,
        }
    }
}

/// What a sequence of queued events says.
pub open spec fn queued_models(items: Seq<QueuedEvent>) -> Seq<QueuedModel> {
    items.map_values(|item: QueuedEvent| item@)
}

/// The queue, and how many events it has dropped.
#[derive(Debug)]
pub struct QueueState {
    pub events: VecDeque<QueuedEvent>,
    pub dropped: u64,
}

/// What a queue holds, from its front to its back.
#[verifier::ext_equal]
pub struct QueueModel {
    pub events: Seq<QueuedModel>,
    pub dropped: u64,
}

impl View for QueueState {
    type V = QueueModel;

    open spec fn view(&self) -> QueueModel {
        QueueModel { events: queued_models(self.events@), dropped: self.dropped }
    }
}

impl QueueState {
    /// An empty queue.
    pub fn new() -> (queue: Self)
        ensures
            queue@ == (QueueModel { events: Seq::empty(), dropped: 0 }),
    {
        let queue = QueueState { events: VecDeque::new(), dropped: 0 };
        assert(queue@.events == Seq::<QueuedModel>::empty());
        queue
    }
}

/// How many events wait.
pub fn queue_depth(queue: &QueueState) -> (r: usize)
    ensures
        r == queue@.events.len(),
{
    queue.events.len()
}

/// How many events wait, and how many were dropped.
pub fn queue_depth_and_dropped(queue: &QueueState) -> (r: (usize, u64))
    ensures
        r.0 == queue@.events.len(),
        r.1 == queue@.dropped,
{
    (queue.events.len(), queue.dropped)
}

/// How many events the writer takes at once from a queue of `len` events.
pub open spec fn batch_len(len: nat, max_rows: nat) -> nat {
    let rows = if max_rows == 0 {
        1
    } else {
        max_rows
    };
    if len < rows {
        len
    } else {
        rows
    }
}

/// Takes events from the front of the queue, at most `max_rows` and at least
/// one where there is one.
pub fn take_batch(queue: &mut QueueState, max_rows: usize) -> (batch: Vec<QueuedEvent>)
    ensures
        ({
            let n = batch_len(old(queue)@.events.len(), max_rows as nat) as int;
            &&& queued_models(batch@) == old(queue)@.events.take(n)
            &&& final(queue)@ == (QueueModel {
                events: old(queue)@.events.skip(n),
                dropped: old(queue)@.dropped,
            })
        }),
{
    let rows: usize = if max_rows == 0 {
        1
    } else {
        max_rows
    };
    let count: usize = if queue.events.len() < rows {
        queue.events.len()
    } else {
        rows
    };
    let ghost before = queue.events@;
    let mut batch: Vec<QueuedEvent> = Vec::new();
    while batch.len() < count
        invariant
            count <= before.len(),
            batch@.len() <= count,
            batch@ == before.take(batch@.len() as int),
            queue.events@ == before.skip(batch@.len() as int),
            queue.dropped == old(queue).dropped,
        decreases count - batch@.len(),
    {
        let ghost n = batch@.len() as int;
        match queue.events.pop_front() {
            Some(item) => {
                assert(item == before[n]);
                batch.push(item);
                assert(before.skip(n).skip(1) == before.skip(n + 1));
                assert(queue.events@ == before.skip(n + 1));
            },
            None => {
                assert(false);
            },
        }
    }
    assert(queued_models(batch@) == queued_models(before).take(count as int));
    assert(queued_models(queue.events@) == queued_models(before).skip(count as int));
    batch
}

/// How many waiting events have to leave for a batch of `returned` events to
/// come back.
pub open spec fn overflow_of(waiting: nat, returned: nat, queue_limit: nat) -> nat {
    if waiting + returned > queue_limit {
        (waiting + returned - queue_limit) as nat
    } else {
        0
    }
}

/// The queue after a batch that was not written has come back to its front. The
/// events at the back leave where there is not enough room.
pub open spec fn requeued(q: QueueModel, batch: Seq<QueuedModel>, queue_limit: nat) -> QueueModel {
    QueueModel {
        events: batch + limit(q.events, (queue_limit - batch.len()) as nat),
        dropped: (q.dropped + overflow_of(q.events.len(), batch.len(), queue_limit)) as u64,
    }
}

/// Puts a batch that was not written back to the front of the queue.
pub fn requeue_front(queue: &mut QueueState, config: &Config, batch: Vec<QueuedEvent>)
    requires
        batch@.len() <= config.queue_limit,
        old(queue)@.dropped + overflow_of(
            old(queue)@.events.len(),
            batch@.len(),
            config.queue_limit as nat,
        ) <= u64::MAX,
    ensures
        final(queue)@ == requeued(
            old(queue)@,
            queued_models(batch@),
            config.queue_limit as nat,
        ),
{
    let mut batch = batch;
    let room: usize = config.queue_limit - batch.len();
    let ghost before = queue.events@;
    let ghost returned = batch@;
    let ghost dropped_before = queue.dropped;
    while queue.events.len() > room
        invariant
            queue.events@.len() <= before.len(),
            queue.events@ == before.take(queue.events@.len() as int),
            queue.events@.len() >= room || queue.events@.len() == before.len(),
            queue.dropped == dropped_before + (before.len() - queue.events@.len()),
            before.len() > room ==> dropped_before + (before.len() - room) <= u64::MAX,
        decreases queue.events@.len(),
    {
        let ghost n = queue.events@.len();
        let _ = queue.events.pop_back();
        assert(queue.events@ == before.take(n - 1));
        queue.dropped = queue.dropped + 1;
    }
    let ghost kept = queue.events@;
    assert(kept == limit(before, room as nat));
    while batch.len() > 0
        invariant
            batch@.len() <= returned.len(),
            batch@ == returned.take(batch@.len() as int),
            queue.events@ == returned.skip(batch@.len() as int) + kept,
            queue.dropped == dropped_before + (before.len() - kept.len()),
        decreases batch@.len(),
    {
        let ghost n = batch@.len() as int;
        match batch.pop() {
            Some(item) => {
                assert(item == returned[n - 1]);
                queue.events.push_front(item);
                assert(returned.skip(n - 1) == seq![item] + returned.skip(n));
                assert(queue.events@ == returned.skip(n - 1) + kept);
            },
            None => {},
        }
    }
    assert(returned.skip(0) == returned);
    assert(queued_models(returned + kept) == queued_models(returned) + queued_models(kept));
    assert(queued_models(kept) == limit(queued_models(before), room as nat));
}

/// A batch that the writer takes and gives back leaves the queue as it was,
/// where it was no longer than allowed: nothing is lost and the order stays.
pub proof fn law_failed_write_keeps_queue(q: QueueModel, max_rows: nat, queue_limit: nat)
    requires
        q.events.len() <= queue_limit,
    ensures
        ({
            let n = batch_len(q.events.len(), max_rows) as int;
            let taken = q.events.take(n);
            let rest = QueueModel { events: q.events.skip(n), dropped: q.dropped };
            requeued(rest, taken, queue_limit) == q
        }),
{
    let n = batch_len(q.events.len(), max_rows) as int;
    let taken = q.events.take(n);
    let rest = q.events.skip(n);
    assert(taken + rest == q.events);
    assert(limit(rest, (queue_limit - taken.len()) as nat) == rest);
}

/// A batch that comes back never makes the queue longer than allowed, always
/// stands at its front as a whole, and what leaves is counted.
pub proof fn law_requeue_is_bounded(q: QueueModel, batch: Seq<QueuedModel>, queue_limit: nat)
    requires
        batch.len() <= queue_limit,
        q.dropped + overflow_of(q.events.len(), batch.len(), queue_limit) <= u64::MAX,
    ensures
        ({
            let after = requeued(q, batch, queue_limit);
            &&& after.events.len() <= queue_limit
            &&& after.events.take(batch.len() as int) == batch
            &&& after.events.len() + after.dropped == q.events.len() + batch.len() + q.dropped
        }),
{
    let after = requeued(q, batch, queue_limit);
    assert(after.events.take(batch.len() as int) == batch);
}

/// The view of a queued event holds each of its fields as it is, and that of the
/// queue each of its events in its place.
pub proof fn law_queue_views(item: QueuedEvent, queue: QueueState, items: Seq<QueuedEvent>, i: int)
    requires
        0 <= i < items.len(),
    ensures
        item@.source_plugin == item.source_plugin@,
        item@.event == item.event@,
        item.event_id matches Some(id) ==> item@.event_id == Some(id@),
        item.event_id is None ==> item@.event_id is None,
        item@.batch_id == item.batch_id,
        item@.enqueued_at_ms == item.enqueued_at_ms,
        item@.completion == item.completion,
        queued_models(items).len() == items.len(),
        queued_models(items)[i] == items[i]@,
        queue@.events == queued_models(queue.events@),
        queue@.dropped == queue.dropped,
{
}

/// The writer takes all that waits, but no more than it may at once, and at least
/// one where one waits.
pub proof fn law_batches_are_as_long_as_allowed(len: nat, max_rows: nat)
    ensures
        batch_len(len, max_rows) <= len,
        batch_len(len, max_rows) <= max_rows || batch_len(len, max_rows) == 1,
        batch_len(len, max_rows) == len || batch_len(len, max_rows) >= max_rows,
        len > 0 ==> batch_len(len, max_rows) > 0,
{
}

/// Behind a batch that comes back stand the oldest of the events that waited, as
/// many as there is room for, in their order; and where there is room for all of
/// them none is dropped.
pub proof fn law_oldest_events_stay(q: QueueModel, batch: Seq<QueuedModel>, queue_limit: nat)
    requires
        batch.len() <= queue_limit,
        q.dropped + overflow_of(q.events.len(), batch.len(), queue_limit) <= u64::MAX,
    ensures
        ({
            let after = requeued(q, batch, queue_limit);
            let kept = after.events.skip(batch.len() as int);
            &&& kept == q.events.take(kept.len() as int)
            &&& kept.len() == q.events.len() || after.events.len() == queue_limit
            &&& q.events.len() + batch.len() <= queue_limit ==> after.dropped == q.dropped
                && after.events == batch + q.events
        }),
{
    let after = requeued(q, batch, queue_limit);
    let room = (queue_limit - batch.len()) as nat;
    assert(after.events.skip(batch.len() as int) =~= limit(q.events, room));
    if q.events.len() <= room {
        assert(q.events.take(q.events.len() as int) =~= q.events);
    }
}

/// What [`take_batch`] takes are the oldest events, as they are and in their order,
/// as many as are allowed and wait; the others stay, and none is dropped.
pub proof fn law_taken_events_are_the_oldest(max_rows: usize)
    ensures
        forall|queue: &mut QueueState, batch: Vec<QueuedEvent>|
            #[trigger] call_ensures(take_batch, (queue, max_rows), batch) ==> {
                &&& (*queue)@.events == queued_models(batch@) + final(queue)@.events
                &&& batch@.len() <= max_rows || batch@.len() == 1
                &&& final(queue)@.events.len() > 0 ==> batch@.len() >= max_rows && batch@.len() > 0
                &&& final(queue).dropped == (*queue).dropped
            },
{
    assert forall|queue: &mut QueueState, batch: Vec<QueuedEvent>|
        #[trigger] call_ensures(take_batch, (queue, max_rows), batch) implies {
        &&& (*queue)@.events == queued_models(batch@) + final(queue)@.events
        &&& batch@.len() <= max_rows || batch@.len() == 1
        &&& final(queue)@.events.len() > 0 ==> batch@.len() >= max_rows && batch@.len() > 0
        &&& final(queue).dropped == (*queue).dropped
    } by {
        let n = batch_len((*queue)@.events.len(), max_rows as nat) as int;
        assert((*queue)@.events.take(n) + (*queue)@.events.skip(n) =~= (*queue)@.events);
        assert(queued_models(batch@).len() == batch@.len());
    }
}

} // verus!
