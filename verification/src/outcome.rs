//! What follows from the writing of a batch.

use crate::completion::{ticket_finished, Completions, CompletionsModel};
use crate::database::{empty_cache, WriterCache};
use crate::dedupe::{law_remembered_is_known, remembered_all, DedupeCache, DedupeModel};
use crate::event::EventModel;
use crate::ingest::{intake, law_written_events_stay_out, BatchModel, IntakeTimes};
use crate::queue::{queued_models, QueuedEvent, QueuedModel};
use crate::stats::{
    count, counted, law_counters_count, ServiceStats, PENDING_JOURNAL_COMPACT_CHECK_EVERY,
};
use vstd::prelude::*;

verus! {

/// How the writing of a batch ended.
#[derive(Clone, Copy, Debug, PartialEq, Eq, Structural)]
pub enum WriteOutcome {
    /// There was no connection to the database.
    NoConnection,
    /// The transaction failed.
    Failed,
    /// The transaction was committed.
    Written,
}

/// What becomes of a batch.
#[derive(Debug)]
pub struct BatchEnd {
    /// How many of its events were written.
    pub rows: usize,
    /// The events that go back to the queue.
    pub failed: Vec<QueuedEvent>,
    /// Whether the size of the journal is to be checked.
    pub check_journal: bool,
}

/// The identifiers of `items`, of those that have one.
pub open spec fn written_ids(items: Seq<QueuedModel>) -> Seq<Seq<char>>
    decreases items.len(),
{
    if items.len() == 0 {
        Seq::empty()
    } else {
        let earlier = written_ids(items.drop_last());
        match items.last().event_id {
            Some(id) => earlier.push(id),
            None => earlier,
        }
    }
}

/// The open batches after the events of `items` were written, in their order.
pub open spec fn written_finished(m: CompletionsModel, items: Seq<QueuedModel>) -> CompletionsModel
    decreases items.len(),
{
    if items.len() == 0 {
        m
    } else {
        let earlier = written_finished(m, items.drop_last());
        match items.last().completion {
            Some(ticket) => ticket_finished(earlier, ticket, true),
            None => earlier,
        }
    }
}

/// How many of `items` belong to the batch `ticket`.
pub open spec fn events_of(items: Seq<QueuedModel>, ticket: u64) -> nat
    decreases items.len(),
{
    if items.len() == 0 {
        0
    } else {
        events_of(items.drop_last(), ticket) + if items.last().completion == Some(ticket) {
            1nat
        } else {
            0nat
        }
    }
}

/// The size of the journal is checked after `rows` more events.
pub open spec fn check_due(since_check: u64, rows: nat) -> bool {
    rows > 0 && since_check + rows >= PENDING_JOURNAL_COMPACT_CHECK_EVERY
}

/// The counters after the events of `items` were written.
pub open spec fn written_counted(stats: ServiceStats, items: Seq<QueuedModel>) -> ServiceStats {
    ServiceStats {
        executed_events: counted(stats.executed_events, items.len()),
        journal_events_since_compaction_check: if check_due(
            stats.journal_events_since_compaction_check,
            written_ids(items).len(),
        ) {
            0
        } else {
            (stats.journal_events_since_compaction_check + written_ids(items).len()) as u64
        },
        ..stats
    }
}

/// Counts written events, remembers their identifiers and tells their senders.
/// Says whether the size of the journal is to be checked.
pub fn finish_written_events(
    items: &Vec<QueuedEvent>,
    dedupe: &mut DedupeCache,
    completions: &mut Completions,
    stats: &mut ServiceStats,
) -> (check_journal: bool)
    requires
        old(stats).journal_events_since_compaction_check + written_ids(
            queued_models(items@),
        ).len() <= u64::MAX,
        can_count_all(old(completions)@, queued_models(items@)),
    ensures
        final(dedupe)@ == remembered_all(old(dedupe)@, written_ids(queued_models(items@))),
        final(completions)@ == written_finished(old(completions)@, queued_models(items@)),
        *final(stats) == written_counted(*old(stats), queued_models(items@)),
        check_journal == check_due(
            old(stats).journal_events_since_compaction_check,
            written_ids(queued_models(items@)).len(),
        ),
{
    let ghost models = queued_models(items@);
    let mut journal_rows: u64 = 0;
    let mut i: usize = 0;
    while i < items.len()
        invariant
            i <= items.len(),
            models == queued_models(items@),
            journal_rows == written_ids(models.take(i as int)).len(),
            journal_rows <= i,
            can_count_all(old(completions)@, models),
            dedupe@ == remembered_all(old(dedupe)@, written_ids(models.take(i as int))),
            completions@ == written_finished(old(completions)@, models.take(i as int)),
        decreases items.len() - i,
    {
        proof {
            let next = models.take(i + 1);
            assert(next.drop_last() =~= models.take(i as int));
            assert(next.last() == items@[i as int]@);
        }
        let item = &items[i];
        if let Some(event_id) = &item.event_id {
            dedupe.remember(event_id);
            assert(written_ids(models.take(i + 1)).drop_last() =~= written_ids(
                models.take(i as int),
            ));
            journal_rows = journal_rows + 1;
        }
        if let Some(ticket) = item.completion {
            proof {
                lemma_same_tickets(old(completions)@, models.take(i as int));
                if old(completions)@.batches.contains_key(ticket) {
                    lemma_can_count_next(old(completions)@, models, i as int, ticket);
                }
            }
            completions.finish(ticket, true);
        }
        i += 1;
    }
    proof {
        assert(models.take(i as int) =~= models);
    }
    stats.executed_events = count(stats.executed_events, items.len());
    if journal_rows == 0 {
        return false;
    }
    let completed: u64 = stats.journal_events_since_compaction_check + journal_rows;
    if completed < PENDING_JOURNAL_COMPACT_CHECK_EVERY {
        stats.journal_events_since_compaction_check = completed;
        return false;
    }
    stats.journal_events_since_compaction_check = 0;
    true
}

/// Counts a compaction of the journal.
pub fn journal_compacted(stats: &mut ServiceStats)
    ensures
        *final(stats) == (ServiceStats {
            journal_compactions: counted(old(stats).journal_compactions, 1),
            ..*old(stats)
        }),
{
    stats.journal_compactions = count(stats.journal_compactions, 1);
}

/// Ends the writing of `batch`. What was not written goes back to the queue as
/// it was and counts as so many errors; a failed transaction has the cache
/// forget what it learnt.
pub fn write_batch(
    outcome: WriteOutcome,
    batch: Vec<QueuedEvent>,
    cache: &mut WriterCache,
    dedupe: &mut DedupeCache,
    completions: &mut Completions,
    stats: &mut ServiceStats,
) -> (end: BatchEnd)
    requires
        outcome == WriteOutcome::Written ==> old(stats).journal_events_since_compaction_check
            + written_ids(queued_models(batch@)).len() <= u64::MAX,
        outcome == WriteOutcome::Written ==> can_count_all(
            old(completions)@,
            queued_models(batch@),
        ),
    ensures
        match outcome {
            WriteOutcome::Written => {
                &&& end.rows == batch.len()
                &&& queued_models(end.failed@) == Seq::<QueuedModel>::empty()
                &&& end.check_journal == check_due(
                    old(stats).journal_events_since_compaction_check,
                    written_ids(queued_models(batch@)).len(),
                )
                &&& final(cache)@ == old(cache)@
                &&& final(dedupe)@ == remembered_all(
                    old(dedupe)@,
                    written_ids(queued_models(batch@)),
                )
                &&& final(completions)@ == written_finished(
                    old(completions)@,
                    queued_models(batch@),
                )
                &&& *final(stats) == written_counted(*old(stats), queued_models(batch@))
            },
            _ => {
                &&& end.rows == 0
                &&& queued_models(end.failed@) == queued_models(batch@)
                &&& !end.check_journal
                &&& final(cache)@ == if outcome == WriteOutcome::Failed {
                    empty_cache()
                } else {
                    old(cache)@
                }
                &&& final(dedupe)@ == old(dedupe)@
                &&& final(completions)@ == old(completions)@
                &&& *final(stats) == (ServiceStats {
                    db_errors: counted(old(stats).db_errors, batch.len() as nat),
                    ..*old(stats)
                })
            },
        },
{
    match outcome {
        WriteOutcome::Written => {
            let check_journal = finish_written_events(&batch, dedupe, completions, stats);
            let failed: Vec<QueuedEvent> = Vec::new();
            assert(queued_models(failed@) =~= Seq::empty());
            BatchEnd { rows: batch.len(), failed, check_journal }
        },
        WriteOutcome::NoConnection => {
            stats.db_errors = count(stats.db_errors, batch.len());
            BatchEnd { rows: 0, failed: batch, check_journal: false }
        },
        WriteOutcome::Failed => {
            cache.clear();
            stats.db_errors = count(stats.db_errors, batch.len());
            BatchEnd { rows: 0, failed: batch, check_journal: false }
        },
    }
}

/// How many seconds the writer waits before it tries again.
pub const RETRY_SECONDS: u64 = 2;

/// How many seconds the writer waits after a batch. Nothing where all of it was
/// written; otherwise what was not goes back to the queue before the wait.
pub fn retry_delay(end: &BatchEnd) -> (seconds: Option<u64>)
    ensures
        seconds == if end.failed@.len() > 0 {
            Some(2u64)
        } else {
            None
        },
{
    if end.failed.len() > 0 {
        Some(RETRY_SECONDS)
    } else {
        None
    }
}

/// How long the event of `items` that has waited longest has waited, each at its
/// time in `times`; zero where there is none.
pub open spec fn oldest_age(items: Seq<QueuedModel>, times: Seq<u64>) -> nat
    decreases items.len(),
{
    if items.len() == 0 {
        0
    } else {
        let rest = oldest_age(items.drop_last(), times.drop_last());
        let age = if times.last() >= items.last().enqueued_at_ms {
            (times.last() - items.last().enqueued_at_ms) as nat
        } else {
            0
        };
        if age > rest {
            age
        } else {
            rest
        }
    }
}

/// How long the event of `items` that has waited longest has waited, each at its
/// time in `times`.
pub fn oldest_age_ms(items: &Vec<QueuedEvent>, times: &Vec<u64>) -> (r: u64)
    requires
        times.len() == items.len(),
    ensures
        r == oldest_age(queued_models(items@), times@),
{
    let ghost models = queued_models(items@);
    let mut oldest: u64 = 0;
    let mut i: usize = 0;
    while i < items.len()
        invariant
            i <= items.len(),
            times@.len() == items@.len(),
            models == queued_models(items@),
            oldest == oldest_age(models.take(i as int), times@.take(i as int)),
        decreases items.len() - i,
    {
        proof {
            let next = models.take(i + 1);
            let next_times = times@.take(i + 1);
            assert(next.drop_last() =~= models.take(i as int));
            assert(next.last() == items@[i as int]@);
            assert(next_times.drop_last() =~= times@.take(i as int));
            assert(next_times.last() == times@[i as int]);
        }
        let age: u64 = times[i].saturating_sub(items[i].enqueued_at_ms);
        if age > oldest {
            oldest = age;
        }
        i += 1;
    }
    assert(models.take(i as int) =~= models);
    assert(times@.take(i as int) =~= times@);
    oldest
}

/// The number of events since the last check stays below the number that brings
/// the next one.
pub proof fn law_journal_check_comes_in_time(stats: ServiceStats, items: Seq<QueuedModel>)
    requires
        stats.journal_events_since_compaction_check < PENDING_JOURNAL_COMPACT_CHECK_EVERY,
    ensures
        written_counted(stats, items).journal_events_since_compaction_check
            < PENDING_JOURNAL_COMPACT_CHECK_EVERY,
        !check_due(stats.journal_events_since_compaction_check, written_ids(items).len()) ==>
            written_counted(stats, items).journal_events_since_compaction_check
            == stats.journal_events_since_compaction_check + written_ids(items).len(),
{
}

/// What was written is known from then on: an event of a written batch, not known
/// before, is not taken in again, as long as the memory may hold the batch.
pub proof fn law_written_events_are_known(m: DedupeModel, items: Seq<QueuedModel>, i: int)
    requires
        m.well_formed(),
        0 <= i < items.len(),
        items[i].event_id is Some,
        items[i].event_id->0.len() > 0,
        !m.order.contains(items[i].event_id->0),
        written_ids(items).len() <= m.max_entries,
    ensures
        remembered_all(m, written_ids(items)).order.contains(items[i].event_id->0),
{
    lemma_id_is_written(items, i);
    law_remembered_is_known(m, written_ids(items), items[i].event_id->0);
}

/// An event that was written is not queued again under the same identifier,
/// whatever is sent, as long as the memory may hold the batch that it was
/// written with.
pub proof fn law_written_event_is_not_queued_again(
    m: DedupeModel,
    items: Seq<QueuedModel>,
    i: int,
    events: Seq<EventModel>,
    batch: BatchModel,
    times: Seq<IntakeTimes>,
)
    requires
        m.well_formed(),
        0 <= i < items.len(),
        items[i].event_id is Some,
        items[i].event_id->0.len() > 0,
        !m.order.contains(items[i].event_id->0),
        written_ids(items).len() <= m.max_entries,
        times.len() == events.len(),
    ensures
        ({
            let written = remembered_all(m, written_ids(items)).order;
            forall|j: int|
                0 <= j < intake(events, batch, written, times).len() ==> (#[trigger] intake(
                    events,
                    batch,
                    written,
                    times,
                )[j]).event_id != items[i].event_id
        }),
{
    law_written_events_are_known(m, items, i);
    law_written_events_stay_out(
        events,
        batch,
        remembered_all(m, written_ids(items)).order,
        times,
    );
}

proof fn lemma_id_is_written(items: Seq<QueuedModel>, i: int)
    requires
        0 <= i < items.len(),
        items[i].event_id is Some,
    ensures
        written_ids(items).contains(items[i].event_id->0),
    decreases items.len(),
{
    let ids = written_ids(items);
    if i == items.len() - 1 {
        assert(ids[ids.len() - 1] == items[i].event_id->0);
    } else {
        let earlier = written_ids(items.drop_last());
        lemma_id_is_written(items.drop_last(), i);
        let j = choose|j: int| 0 <= j < earlier.len() && earlier[j] == items[i].event_id->0;
        assert(ids[j] == items[i].event_id->0);
    }
}

/// A sender is told of as many executed events as were written of its batch, and
/// waits exactly as long as one of them is not written.
pub proof fn law_sender_learns_what_was_written(
    m: CompletionsModel,
    items: Seq<QueuedModel>,
    ticket: u64,
)
    requires
        m.batches.contains_key(ticket),
        m.batches[ticket].executed + events_of(items, ticket) <= usize::MAX,
    ensures
        written_finished(m, items).batches.contains_key(ticket),
        ({
            let before = m.batches[ticket];
            let after = written_finished(m, items).batches[ticket];
            &&& after.executed == before.executed + events_of(items, ticket)
            &&& after.remaining == if before.remaining >= events_of(items, ticket) {
                before.remaining - events_of(items, ticket)
            } else {
                0
            }
            &&& after.db_errors == before.db_errors
        }),
    decreases items.len(),
{
    if items.len() > 0 {
        law_sender_learns_what_was_written(m, items.drop_last(), ticket);
    }
}

/// No sender comes to wait because an event was written.
proof fn lemma_same_tickets(m: CompletionsModel, items: Seq<QueuedModel>)
    ensures
        written_finished(m, items).batches.dom() == m.batches.dom(),
    decreases items.len(),
{
    if items.len() > 0 {
        lemma_same_tickets(m, items.drop_last());
        assert(written_finished(m, items).batches.dom() =~= m.batches.dom());
    }
}

/// More items are no fewer events of a batch.
proof fn lemma_events_of_part(items: Seq<QueuedModel>, n: int, ticket: u64)
    requires
        0 <= n <= items.len(),
    ensures
        events_of(items.take(n), ticket) <= events_of(items, ticket),
    decreases items.len(),
{
    if n == items.len() {
        assert(items.take(n) =~= items);
    } else {
        lemma_events_of_part(items.drop_last(), n, ticket);
        assert(items.drop_last().take(n) =~= items.take(n));
    }
}

/// What is waited for of `items` can be counted.
pub open spec fn can_count_all(m: CompletionsModel, items: Seq<QueuedModel>) -> bool {
    forall|ticket: u64| #[trigger]
        m.batches.contains_key(ticket) ==> m.batches[ticket].executed + events_of(items, ticket)
            <= usize::MAX
}

/// The next of `items` can be counted after those before it.
proof fn lemma_can_count_next(m: CompletionsModel, items: Seq<QueuedModel>, n: int, ticket: u64)
    requires
        0 <= n < items.len(),
        items[n].completion == Some(ticket),
        can_count_all(m, items),
        m.batches.contains_key(ticket),
    ensures
        written_finished(m, items.take(n)).batches.contains_key(ticket),
        written_finished(m, items.take(n)).batches[ticket].can_count(true),
{
    lemma_events_of_part(items, n, ticket);
    lemma_events_of_part(items, n + 1, ticket);
    assert(items.take(n + 1).drop_last() =~= items.take(n));
    assert(items.take(n + 1).last() == items[n]);
    law_sender_learns_what_was_written(m, items.take(n), ticket);
}

/// What is remembered of a written batch are the identifiers of its events, as they
/// are and in their order.
pub proof fn law_written_identifiers(items: Seq<QueuedModel>)
    ensures
        ({
            let named = items.filter(|i: QueuedModel| i.event_id is Some);
            &&& written_ids(items).len() == named.len()
            &&& forall|k: int|
                0 <= k < named.len() ==> named[k].event_id == Some(
                    #[trigger] written_ids(items)[k],
                )
        }),
    decreases items.len(),
{
    reveal(Seq::filter);
    if items.len() > 0 {
        law_written_identifiers(items.drop_last());
    }
}

/// Every event of a written batch counts as executed. Those with an identifier
/// count towards the next check of the journal, which comes with the one thousand
/// and twenty-fourth and starts the count again. No other counter changes.
pub proof fn law_written_events_are_counted(stats: ServiceStats, items: Seq<QueuedModel>)
    requires
        stats.executed_events + items.len() <= u64::MAX,
        stats.journal_events_since_compaction_check + items.len() <= u64::MAX,
    ensures
        ({
            let named = items.filter(|i: QueuedModel| i.event_id is Some).len();
            let since = stats.journal_events_since_compaction_check;
            let after = written_counted(stats, items);
            &&& after.executed_events == stats.executed_events + items.len()
            &&& named > 0 && since + named >= 1024 ==> check_due(since, named)
                && after.journal_events_since_compaction_check == 0
            &&& named == 0 || since + named < 1024 ==> !check_due(since, named)
                && after.journal_events_since_compaction_check == since + named
            &&& named == written_ids(items).len()
            &&& after.accepted_events == stats.accepted_events
            &&& after.db_errors == stats.db_errors
            &&& after.parse_errors == stats.parse_errors
            &&& after.dropped_events == stats.dropped_events
            &&& after.journal_pending_startup == stats.journal_pending_startup
            &&& after.journal_replayed_startup == stats.journal_replayed_startup
            &&& after.journal_done_records_startup == stats.journal_done_records_startup
            &&& after.journal_bad_lines_startup == stats.journal_bad_lines_startup
            &&& after.journal_compactions == stats.journal_compactions
        }),
{
    law_written_identifiers(items);
    items.lemma_filter_len(|i: QueuedModel| i.event_id is Some);
    law_counters_count(stats.executed_events, items.len());
}

/// The events of a batch are those of its ticket.
pub proof fn law_events_of_a_ticket(items: Seq<QueuedModel>, ticket: u64)
    ensures
        events_of(items, ticket) == items.filter(
            |i: QueuedModel| i.completion == Some(ticket),
        ).len(),
    decreases items.len(),
{
    reveal(Seq::filter);
    if items.len() > 0 {
        law_events_of_a_ticket(items.drop_last(), ticket);
    }
}

/// A batch of which nothing was written stays as it was, and no batch appears or
/// goes because events were written.
pub proof fn law_other_batches_stay(m: CompletionsModel, items: Seq<QueuedModel>, ticket: u64)
    ensures
        written_finished(m, items).batches.contains_key(ticket) <==> m.batches.contains_key(ticket),
        (forall|i: int|
            0 <= i < items.len() ==> (#[trigger] items[i]).completion != Some(ticket))
            && m.batches.contains_key(ticket) ==> written_finished(m, items).batches[ticket]
            == m.batches[ticket],
    decreases items.len(),
{
    if items.len() > 0 {
        let before = items.drop_last();
        assert(items[items.len() - 1] == items.last());
        assert(forall|i: int| 0 <= i < before.len() ==> #[trigger] before[i] == items[i]);
        law_other_batches_stay(m, before, ticket);
    }
}

/// The age of a batch is that of an event of it, and no event of it is older. An
/// event that was queued later than its time has no age.
pub proof fn law_oldest_event_decides(items: Seq<QueuedModel>, times: Seq<u64>)
    requires
        times.len() == items.len(),
    ensures
        forall|i: int|
            0 <= i < items.len() ==> times[i] - (#[trigger] items[i]).enqueued_at_ms <= oldest_age(
                items,
                times,
            ),
        oldest_age(items, times) == 0 || exists|i: int|
            0 <= i < items.len() && oldest_age(items, times) == times[i] - (
            #[trigger] items[i]).enqueued_at_ms,
    decreases items.len(),
{
    if items.len() > 0 {
        let n = items.len() - 1;
        let before = items.drop_last();
        let past = times.drop_last();
        law_oldest_event_decides(before, past);
        assert(forall|i: int|
            0 <= i < n ==> (#[trigger] items[i]) == before[i] && times[i] == past[i]);
        if oldest_age(items, times) != 0 {
            if oldest_age(items, times) == oldest_age(before, past) {
                let i = choose|i: int|
                    0 <= i < before.len() && oldest_age(before, past) == past[i] - (
                    #[trigger] before[i]).enqueued_at_ms;
                assert(items[i] == before[i]);
            } else {
                assert(oldest_age(items, times) == times[n] - items[n].enqueued_at_ms);
            }
        }
    }
}

/// What [`write_batch`] leaves of a batch: nothing where it was written, and else
/// all of it, as it is and in its order, with as many errors counted; a failed
/// transaction has the cache know nothing. [`retry_delay`] has the writer wait two
/// seconds where anything is left, and not at all where nothing is.
pub proof fn law_batches_are_written_or_left(
    outcome: WriteOutcome,
    batch: Vec<QueuedEvent>,
    seconds: Option<u64>,
)
    ensures
        forall|
            cache: &mut WriterCache,
            dedupe: &mut DedupeCache,
            completions: &mut Completions,
            stats: &mut ServiceStats,
            end: BatchEnd,
        |
            #[trigger] call_ensures(
                write_batch,
                (outcome, batch, cache, dedupe, completions, stats),
                end,
            ) ==> {
                &&& outcome is Written ==> {
                    &&& end.rows == batch@.len()
                    &&& end.failed@.len() == 0
                    &&& final(cache)@ == (*cache)@
                    &&& final(stats).db_errors == stats.db_errors
                }
                &&& !(outcome is Written) ==> {
                    &&& end.rows == 0
                    &&& queued_models(end.failed@) == queued_models(batch@)
                    &&& !end.check_journal
                    &&& final(dedupe)@ == (*dedupe)@
                    &&& final(completions)@ == (*completions)@
                    &&& final(stats).executed_events == stats.executed_events
                    &&& stats.db_errors + batch@.len() <= u64::MAX ==> final(stats).db_errors
                        == stats.db_errors + batch@.len()
                }
                &&& outcome is NoConnection ==> final(cache)@ == (*cache)@
                &&& outcome is Failed ==> final(cache)@.servers.dom() == Set::<Seq<char>>::empty()
                    && final(cache)@.sessions.dom() == Set::<(u64, Seq<char>)>::empty()
            },
        forall|end: BatchEnd|
            #[trigger] call_ensures(retry_delay, (&end,), seconds) ==> {
                &&& end.failed@.len() > 0 ==> seconds == Some(2u64)
                &&& end.failed@.len() == 0 ==> seconds is None
            },
{
    assert forall|
        cache: &mut WriterCache,
        dedupe: &mut DedupeCache,
        completions: &mut Completions,
        stats: &mut ServiceStats,
        end: BatchEnd,
    |
        #[trigger] call_ensures(
            write_batch,
            (outcome, batch, cache, dedupe, completions, stats),
            end,
        ) && outcome is Written implies end.failed@.len() == 0 by {
        assert(queued_models(end.failed@).len() == end.failed@.len());
    }
}

} // verus!
