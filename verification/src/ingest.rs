//! How a batch of events is taken in: each event is completed and named, known
//! ones are left out, and the rest is admitted to the queue as a whole or not
//! at all.

use crate::clock::{now_ms_u64, now_unix_i64, shown_millis, shown_signed};
use crate::completion::{BatchCompletion, Completions, CompletionsModel};
use crate::config::Config;
use crate::dedupe::DedupeCache;
use crate::event::{
    law_normalize_twice, law_numbers_are_kept, law_rates_are_kept, law_texts_are_kept,
    normalize_event_at, normalized, EventModel, StatsEvent,
};
use crate::queue::{queued_models, QueueModel, QueueState, QueuedEvent, QueuedModel};
use crate::stats::{count, counted, ServiceStats};
use crate::text::{
    blank, decimal, identifier_char, identifier_text, is_blank,
    law_event_id_keeps_identifier_characters, law_event_id_shape, law_event_ids_are_kept,
    law_identifier_characters, law_identifier_follows_its_text, law_identifier_shape,
    law_identifiers_are_kept, law_legacy_table_names_its_plugin, law_trim_takes_off_white_space,
    legacy_source, legacy_source_name, lemma_signed_decimal_is_identifier_text,
    normalize_identifier, normalized_identifier, option_text, push_decimal, push_signed,
    sanitize_event_id, sanitized_id, signed_decimal, white_space,
};
use vstd::prelude::*;

verus! {

/// What a batch says of all its events.
#[verifier::ext_equal]
pub struct BatchModel {
    pub batch_id: Option<u64>,
    pub table: Option<Seq<char>>,
    pub server_id: Seq<char>,
    pub server_name: Seq<char>,
}

/// What the clock showed while one event was taken in: when it was normalised,
/// named and queued.
#[derive(Clone, Copy, Debug, PartialEq, Eq, Structural)]
pub struct IntakeTimes {
    pub now: i64,
    pub id_ms: u64,
    pub queued_ms: u64,
}

/// An event with what its batch and its connection say of it.
pub open spec fn filled_in(e: EventModel, batch: BatchModel) -> EventModel {
    let table = if e.table.len() > 0 {
        e.table
    } else {
        match batch.table {
            Some(t) => t,
            None => Seq::empty(),
        }
    };
    EventModel {
        server_id: normalized_identifier(
            if blank(e.server_id) {
                batch.server_id
            } else {
                e.server_id
            },
            128,
            "unknown"@,
        ),
        server_name: if blank(e.server_name) {
            batch.server_name
        } else {
            e.server_name
        },
        source_plugin: normalized_identifier(
            if blank(e.source_plugin) {
                legacy_source(table)
            } else {
                e.source_plugin
            },
            64,
            "unknown"@,
        ),
        ..e
    }
}

/// An event with what the batch and the connection add to it, in normal form.
pub open spec fn completed_event(e: EventModel, batch: BatchModel, now: i64) -> EventModel {
    normalized(filled_in(e, batch), now)
}

/// The identifier of an event whose sender gave it none.
pub open spec fn generated_id(host_port: i32, ms: u64, position: nat) -> Seq<char> {
    "rust-"@ + signed_decimal(host_port as int) + "-"@ + decimal(ms as nat) + "-"@ + decimal(
        position,
    )
}

/// The identifier of an event: what its sender gave, or one of the service's
/// own.
pub open spec fn event_identifier(e: EventModel, ms: u64, position: nat) -> Seq<char> {
    match sanitized_id(e.event_id) {
        Some(id) => id,
        None => generated_id(e.host_port, ms, position),
    }
}

/// What is queued for an event that comes after `position` accepted ones.
pub open spec fn intake_item(
    e: EventModel,
    batch: BatchModel,
    times: IntakeTimes,
    position: nat,
) -> QueuedModel {
    let completed = completed_event(e, batch, times.now);
    let id = event_identifier(e, times.id_ms, position);
    QueuedModel {
        source_plugin: completed.source_plugin,
        event: EventModel { event_id: Some(id), ..completed },
        event_id: Some(id),
        batch_id: batch.batch_id,
        enqueued_at_ms: times.queued_ms,
        completion: None,
    }
}

/// What is queued for the events of a batch: an item for each, in their order,
/// but for those whose identifier is in `written`.
pub open spec fn intake(
    events: Seq<EventModel>,
    batch: BatchModel,
    written: Seq<Seq<char>>,
    times: Seq<IntakeTimes>,
) -> Seq<QueuedModel>
    decreases events.len(),
{
    if events.len() == 0 {
        Seq::empty()
    } else {
        let before = intake(events.drop_last(), batch, written, times.drop_last());
        let item = intake_item(events.last(), batch, times.last(), before.len());
        if written.contains(item.event_id->0) {
            before
        } else {
            before.push(item)
        }
    }
}

/// What a sequence of events says.
pub open spec fn event_models(events: Seq<StatsEvent>) -> Seq<EventModel> {
    events.map_values(|e: StatsEvent| e@)
}

/// Completes and names one event.
pub fn prepare_event(
    event: StatsEvent,
    batch_id: Option<u64>,
    batch_table: &Option<String>,
    connection_server_id: &str,
    connection_server_name: &str,
    times: IntakeTimes,
    position: usize,
) -> (item: QueuedEvent)
    ensures
        item@ == intake_item(
            event@,
            BatchModel {
                batch_id,
                table: option_text(*batch_table),
                server_id: connection_server_id@,
                server_name: connection_server_name@,
            },
            times,
            position as nat,
        ),
{
    let mut event = event;
    let ghost given = event@;
    let table: String = if event.table.as_str().is_empty() {
        match batch_table {
            Some(t) => t.clone(),
            None => String::new(),
        }
    } else {
        event.table.clone()
    };
    event.server_id = if is_blank(event.server_id.as_str()) {
        normalize_identifier(connection_server_id, 128, "unknown")
    } else {
        normalize_identifier(event.server_id.as_str(), 128, "unknown")
    };
    if is_blank(event.server_name.as_str()) {
        event.server_name = connection_server_name.to_owned();
    }
    event.source_plugin = if is_blank(event.source_plugin.as_str()) {
        normalize_identifier(legacy_source_name(table.as_str()), 64, "unknown")
    } else {
        normalize_identifier(event.source_plugin.as_str(), 64, "unknown")
    };
    normalize_event_at(&mut event, times.now);
    let given_id = match &event.event_id {
        Some(id) => sanitize_event_id(Some(id.as_str())),
        None => sanitize_event_id(None),
    };
    let event_id: String = match given_id {
        Some(id) => id,
        None => {
            let mut id = String::new();
            id.append("rust-");
            push_signed(&mut id, event.host_port as i64);
            id.append("-");
            push_decimal(&mut id, times.id_ms);
            id.append("-");
            push_decimal(&mut id, position as u64);
            assert(id@ == generated_id(given.host_port, times.id_ms, position as nat));
            id
        },
    };
    assert(event_id@ == event_identifier(given, times.id_ms, position as nat));
    event.event_id = Some(event_id.clone());
    QueuedEvent {
        source_plugin: event.source_plugin.clone(),
        event,
        event_id: Some(event_id),
        batch_id,
        enqueued_at_ms: times.queued_ms,
        completion: None,
    }
}

/// Completes and names the events of a batch and leaves out those that have
/// been written before, which are counted as dropped. `times` says what the
/// clock showed for each of them.
pub fn prepare_events_at(
    batch_id: Option<u64>,
    batch_table: Option<String>,
    events: Vec<StatsEvent>,
    connection_server_id: &str,
    connection_server_name: &str,
    dedupe: &DedupeCache,
    times: &Vec<IntakeTimes>,
    stats: &mut ServiceStats,
) -> (items: Vec<QueuedEvent>)
    requires
        times.len() == events.len(),
    ensures
        items@.len() <= events@.len(),
        queued_models(items@) == intake(
            event_models(events@),
            BatchModel {
                batch_id,
                table: option_text(batch_table),
                server_id: connection_server_id@,
                server_name: connection_server_name@,
            },
            dedupe@.order,
            times@,
        ),
        *final(stats) == (ServiceStats {
            dropped_events: counted(
                old(stats).dropped_events,
                (events@.len() - items@.len()) as nat,
            ),
            ..*old(stats)
        }),
{
    let ghost batch = BatchModel {
        batch_id,
        table: option_text(batch_table),
        server_id: connection_server_id@,
        server_name: connection_server_name@,
    };
    let ghost given = event_models(events@);
    let ghost stats_before = *stats;
    let mut items: Vec<QueuedEvent> = Vec::new();
    let mut position: usize = 0;
    for event in it: events
        invariant
            it.seq() == events@,
            given == event_models(events@),
            times@.len() == events@.len(),
            batch == (BatchModel {
                batch_id,
                table: option_text(batch_table),
                server_id: connection_server_id@,
                server_name: connection_server_name@,
            }),
            position == it.index(),
            items@.len() <= it.index(),
            queued_models(items@) == intake(
                given.take(it.index() as int),
                batch,
                dedupe@.order,
                times@.take(it.index() as int),
            ),
            *stats == (ServiceStats {
                dropped_events: counted(
                    stats_before.dropped_events,
                    (it.index() - items@.len()) as nat,
                ),
                ..stats_before
            }),
    {
        let ghost n = it.index() as int;
        let ghost taken_before = items@;
        assert(position < times.len());
        let item = prepare_event(
            event,
            batch_id,
            &batch_table,
            connection_server_id,
            connection_server_name,
            times[position],
            items.len(),
        );
        proof {
            assert(given.take(n + 1).drop_last() == given.take(n));
            assert(given.take(n + 1).last() == event@);
            assert(times@.take(n + 1).drop_last() == times@.take(n));
            assert(times@.take(n + 1).last() == times@[n]);
        }
        let known: bool = match &item.event_id {
            Some(id) => dedupe.contains(id.as_str()),
            None => false,
        };
        if known {
            stats.dropped_events = count(stats.dropped_events, 1);
        } else {
            items.push(item);
            assert(queued_models(items@) == queued_models(taken_before).push(item@));
        }
        position = position + 1;
    }
    assert(given.take(given.len() as int) == given);
    assert(times@.take(times@.len() as int) == times@);
    items
}

/// All of `times` are what the clock showed.
pub open spec fn times_shown(times: Seq<IntakeTimes>) -> bool {
    forall|i: int|
        0 <= i < times.len() ==> {
            &&& shown_signed((#[trigger] times[i]).now)
            &&& shown_millis(times[i].id_ms)
            &&& shown_millis(times[i].queued_ms)
        }
}

/// What the clock shows now, once for each of `n` events.
fn intake_times(n: usize) -> (times: Vec<IntakeTimes>)
    ensures
        times@.len() == n,
        times_shown(times@),
{
    let mut times: Vec<IntakeTimes> = Vec::new();
    for i in 0..n
        invariant
            times@.len() == i,
            times_shown(times@),
    {
        times.push(
            IntakeTimes { now: now_unix_i64(), id_ms: now_ms_u64(), queued_ms: now_ms_u64() },
        );
    }
    times
}

/// Completes and names the events of a batch at the time that the clock shows
/// and leaves out those that have been written before, which are counted as
/// dropped.
pub fn prepare_events(
    batch_id: Option<u64>,
    batch_table: Option<String>,
    events: Vec<StatsEvent>,
    connection_server_id: &str,
    connection_server_name: &str,
    dedupe: &DedupeCache,
    stats: &mut ServiceStats,
) -> (items: Vec<QueuedEvent>)
    ensures
        items@.len() <= events@.len(),
        exists|times: Seq<IntakeTimes>|
            times.len() == events@.len() && times_shown(times) && queued_models(items@)
                == #[trigger] intake(
                event_models(events@),
                BatchModel {
                    batch_id,
                    table: option_text(batch_table),
                    server_id: connection_server_id@,
                    server_name: connection_server_name@,
                },
                dedupe@.order,
                times,
            ),
        *final(stats) == (ServiceStats {
            dropped_events: counted(
                old(stats).dropped_events,
                (events@.len() - items@.len()) as nat,
            ),
            ..*old(stats)
        }),
{
    let times = intake_times(events.len());
    prepare_events_at(
        batch_id,
        batch_table,
        events,
        connection_server_id,
        connection_server_name,
        dedupe,
        &times,
        stats,
    )
}

/// Why a batch was not taken in.
#[derive(Debug)]
pub struct EnqueueError {
    pub message: &'static str,
    pub queued: usize,
    pub incoming: usize,
    pub limit: usize,
}

/// What became of a batch that was taken in: how many of its events were
/// accepted, and the ticket to wait with where there are any.
#[derive(Clone, Copy, Debug, PartialEq, Eq, Structural)]
pub struct EnqueueResult {
    pub accepted: usize,
    pub completion: Option<u64>,
}

/// A batch fits into the queue as a whole. An empty one always does, and a
/// limit that no length can pass lets everything in.
pub open spec fn admitted(queued: nat, accepted: nat, queue_limit: nat) -> bool {
    accepted == 0 || queued + accepted <= queue_limit || queue_limit >= usize::MAX
}

/// The counters after the `n` events of a refused batch were dropped.
pub open spec fn batch_dropped(stats: ServiceStats, n: nat) -> ServiceStats {
    ServiceStats { dropped_events: counted(stats.dropped_events, n), ..stats }
}

/// Whether the queue has room for all of `items`. The journal is written where
/// it has.
pub fn admit_events(
    queue: &QueueState,
    config: &Config,
    items: &Vec<QueuedEvent>,
    stats: &mut ServiceStats,
) -> (r: Result<(), EnqueueError>)
    ensures
        r is Ok <==> admitted(
            queue@.events.len(),
            items@.len(),
            config.queue_limit as nat,
        ),
        r is Ok ==> *final(stats) == *old(stats),
        r matches Err(e) ==> {
            &&& e.message@ == "queue full"@
            &&& e.queued == queue@.events.len()
            &&& e.incoming == items@.len()
            &&& e.limit == config.queue_limit
            &&& *final(stats) == batch_dropped(*old(stats), items@.len())
        },
{
    let accepted: usize = items.len();
    let queued: usize = queue.events.len();
    if accepted > 0 && queued.saturating_add(accepted) > config.queue_limit {
        stats.dropped_events = count(stats.dropped_events, accepted);
        return Err(
            EnqueueError {
                message: "queue full",
                queued,
                incoming: accepted,
                limit: config.queue_limit,
            },
        );
    }
    Ok(())
}

/// The items of a batch with the ticket that its sender waits with.
pub open spec fn ticketed(items: Seq<QueuedModel>, ticket: Option<u64>) -> Seq<QueuedModel> {
    items.map_values(|item: QueuedModel| QueuedModel { completion: ticket, ..item })
}

/// Takes a batch that was admitted into the queue, once it is known whether
/// every one of its items went into the journal. Where one did not, nothing is
/// queued.
pub fn enqueue_events(
    queue: &mut QueueState,
    config: &Config,
    items: Vec<QueuedEvent>,
    journalled: bool,
    completions: &mut Completions,
    stats: &mut ServiceStats,
) -> (r: Result<EnqueueResult, EnqueueError>)
    requires
        admitted(old(queue)@.events.len(), items@.len(), config.queue_limit as nat),
        journalled && items.len() > 0 ==> old(completions)@.next_ticket < u64::MAX,
    ensures
        r is Ok <==> journalled || items@.len() == 0,
        r matches Err(e) ==> {
            &&& e.message@ == "journal write failed"@
            &&& e.queued == old(queue)@.events.len()
            &&& e.incoming == items@.len()
            &&& e.limit == config.queue_limit
            &&& final(queue)@ == old(queue)@
            &&& final(completions)@ == old(completions)@
            &&& *final(stats) == batch_dropped(*old(stats), items@.len())
        },
        r matches Ok(result) ==> {
            let ticket = old(completions)@.next_ticket;
            &&& result.accepted == items@.len()
            &&& result.completion == if items@.len() > 0 {
                Some(ticket)
            } else {
                None
            }
            &&& final(queue)@ == (QueueModel {
                events: old(queue)@.events + ticketed(queued_models(items@), result.completion),
                ..old(queue)@
            })
            &&& final(completions)@ == if items@.len() > 0 {
                CompletionsModel {
                    batches: old(completions)@.batches.insert(
                        ticket,
                        BatchCompletion {
                            remaining: items@.len() as usize,
                            executed: 0,
                            db_errors: 0,
                        },
                    ),
                    next_ticket: (ticket + 1) as u64,
                }
            } else {
                old(completions)@
            }
            &&& *final(stats) == (ServiceStats {
                accepted_events: counted(old(stats).accepted_events, items@.len()),
                ..*old(stats)
            })
        },
{
    let accepted: usize = items.len();
    let queued: usize = queue.events.len();
    if accepted > 0 && !journalled {
        stats.dropped_events = count(stats.dropped_events, accepted);
        return Err(
            EnqueueError {
                message: "journal write failed",
                queued,
                incoming: accepted,
                limit: config.queue_limit,
            },
        );
    }
    let completion: Option<u64> = if accepted > 0 {
        Some(completions.open(accepted))
    } else {
        None
    };
    let ghost given = queued_models(items@);
    let ghost waiting = queue@.events;
    for item in it: items
        invariant
            it.seq() == items@,
            given == queued_models(items@),
            queue.dropped == old(queue).dropped,
            queue@.events == waiting + ticketed(given.take(it.index() as int), completion),
    {
        let ghost n = it.index() as int;
        let ghost before = queue.events@;
        let item = QueuedEvent { completion, ..item };
        queue.events.push_back(item);
        proof {
            assert(queued_models(queue.events@) == queued_models(before).push(item@));
            assert(given.take(n + 1) == given.take(n).push(given[n]));
            assert(ticketed(given.take(n + 1), completion) == ticketed(
                given.take(n),
                completion,
            ).push(item@));
        }
    }
    assert(given.take(given.len() as int) == given);
    if accepted > 0 {
        stats.accepted_events = count(stats.accepted_events, accepted);
    }
    Ok(EnqueueResult { accepted, completion })
}

proof fn lemma_unknown()
    ensures
        identifier_text("unknown"@),
        "unknown"@.len() == 7,
{
    reveal_strlit("unknown");
}

proof fn lemma_generated_id(host_port: i32, ms: u64, position: nat)
    ensures
        identifier_text(generated_id(host_port, ms, position)),
        generated_id(host_port, ms, position).len() > 0,
{
    reveal_strlit("rust-");
    reveal_strlit("-");
    lemma_signed_decimal_is_identifier_text(host_port as int);
    lemma_signed_decimal_is_identifier_text(ms as int);
    lemma_signed_decimal_is_identifier_text(position as int);
}

/// Whatever a sender sends, what is queued for it has an identifier, which its
/// event carries too, a server and a plugin, all three made of identifier
/// characters, and an event in normal form.
pub proof fn law_queued_items_are_well_formed(
    e: EventModel,
    batch: BatchModel,
    times: IntakeTimes,
    position: nat,
)
    ensures
        ({
            let item = intake_item(e, batch, times, position);
            &&& item.event_id matches Some(id) && id.len() > 0 && identifier_text(id)
            &&& item.event.event_id == item.event_id
            &&& item.source_plugin == item.event.source_plugin
            &&& 1 <= item.event.source_plugin.len() <= 64
            &&& identifier_text(item.event.source_plugin)
            &&& 1 <= item.event.server_id.len() <= 128
            &&& identifier_text(item.event.server_id)
            &&& item.event.occurred_at > 0 ==> forall|later: i64| #[trigger]
                normalized(item.event, later) == item.event
        }),
{
    let item = intake_item(e, batch, times, position);
    lemma_unknown();
    lemma_generated_id(e.host_port, times.id_ms, position);
    law_event_id_shape(e.event_id);
    let server = if blank(e.server_id) {
        batch.server_id
    } else {
        e.server_id
    };
    law_identifier_shape(server, 128, "unknown"@);
    let table = if e.table.len() > 0 {
        e.table
    } else {
        match batch.table {
            Some(t) => t,
            None => Seq::empty(),
        }
    };
    let plugin = if blank(e.source_plugin) {
        legacy_source(table)
    } else {
        e.source_plugin
    };
    law_identifier_shape(plugin, 64, "unknown"@);
    let completed = completed_event(e, batch, times.now);
    if completed.occurred_at > 0 {
        assert forall|later: i64| #[trigger] normalized(item.event, later) == item.event by {
            let given = filled_in(e, batch);
            assert(completed == normalized(given, times.now));
            law_normalize_twice(given, times.now, later);
            assert(normalized(completed, later) == completed);
            assert(normalized(item.event, later) == EventModel {
                event_id: item.event.event_id,
                ..normalized(completed, later)
            });
        }
    }
}

/// No event is queued whose identifier is known as written.
pub proof fn law_written_events_stay_out(
    events: Seq<EventModel>,
    batch: BatchModel,
    written: Seq<Seq<char>>,
    times: Seq<IntakeTimes>,
)
    requires
        times.len() == events.len(),
    ensures
        forall|i: int|
            0 <= i < intake(events, batch, written, times).len() ==> {
                let item = #[trigger] intake(events, batch, written, times)[i];
                item.event_id is Some && !written.contains(item.event_id->0)
            },
    decreases events.len(),
{
    if events.len() > 0 {
        law_written_events_stay_out(events.drop_last(), batch, written, times.drop_last());
    }
}

/// Every event is queued unless its identifier is known as written.
pub proof fn law_other_events_go_in(
    events: Seq<EventModel>,
    batch: BatchModel,
    written: Seq<Seq<char>>,
    times: Seq<IntakeTimes>,
    i: int,
)
    requires
        times.len() == events.len(),
        0 <= i < events.len(),
    ensures
        ({
            let position = intake(events.take(i), batch, written, times.take(i)).len();
            let item = intake_item(events[i], batch, times[i], position);
            let queued = intake(events, batch, written, times);
            ||| written.contains(item.event_id->0)
            ||| position < queued.len() && queued[position as int] == item
        }),
    decreases events.len(),
{
    let n = events.len() - 1;
    let before = intake(events.drop_last(), batch, written, times.drop_last());
    if i == n {
        assert(events.take(i) == events.drop_last());
        assert(times.take(i) == times.drop_last());
    } else {
        law_other_events_go_in(events.drop_last(), batch, written, times.drop_last(), i);
        assert(events.drop_last().take(i) == events.take(i));
        assert(times.drop_last().take(i) == times.take(i));
    }
}

/// A batch that is admitted never makes the queue longer than allowed.
pub proof fn law_admission_is_bounded(queued: nat, accepted: nat, queue_limit: nat)
    requires
        queued <= queue_limit < usize::MAX,
        admitted(queued, accepted, queue_limit),
    ensures
        queued + accepted <= queue_limit,
{
}

/// What is queued for an event says what its sender said: each text within its
/// limit as it was sent, and of a longer one the beginning.
pub proof fn law_sent_texts_are_queued(
    e: EventModel,
    batch: BatchModel,
    times: IntakeTimes,
    position: nat,
)
    ensures
        ({
            let queued = intake_item(e, batch, times, position).event;
            &&& e.map_name.len() <= 128 ==> queued.map_name == e.map_name
            &&& e.map_name.len() > 128 ==> queued.map_name == e.map_name.take(128)
            &&& e.gamemode.len() <= 64 ==> queued.gamemode == e.gamemode
            &&& e.gamemode.len() > 64 ==> queued.gamemode == e.gamemode.take(64)
            &&& e.message.len() <= 512 ==> queued.message == e.message
            &&& e.message.len() > 512 ==> queued.message == e.message.take(512)
            &&& e.end_reason.len() <= 32 ==> queued.end_reason == e.end_reason
            &&& e.end_reason.len() > 32 ==> queued.end_reason == e.end_reason.take(32)
            &&& 1 <= e.map_session_id.len() <= 128 ==> queued.map_session_id == e.map_session_id
            &&& e.map_session_id.len() > 128 ==> queued.map_session_id == e.map_session_id.take(
                128,
            )
            &&& 1 <= e.event_name.len() <= 64 ==> queued.event_name == e.event_name
            &&& e.event_name.len() > 64 ==> queued.event_name == e.event_name.take(64)
            &&& e.record_type == "event"@ || e.record_type == "session_start"@ || e.record_type
                == "session_end"@ || e.record_type == "tick_sample"@ ==> queued.record_type
                == e.record_type
            &&& e.record_type != "session_start"@ && e.record_type != "session_end"@
                && e.record_type != "tick_sample"@ ==> queued.record_type == "event"@
            &&& e.event_name.len() == 0 ==> queued.event_name == "event"@
            &&& queued.table.len() == 0
        }),
{
    law_texts_are_kept(filled_in(e, batch), times.now);
}

/// What is queued for an event says what its sender said: each number that is valid
/// as it was sent, and zero for each that is not.
pub proof fn law_sent_numbers_are_queued(
    e: EventModel,
    batch: BatchModel,
    times: IntakeTimes,
    position: nat,
)
    ensures
        ({
            let queued = intake_item(e, batch, times, position).event;
            &&& e.occurred_at > 0 ==> queued.occurred_at == e.occurred_at
            &&& e.occurred_at <= 0 ==> queued.occurred_at == times.now
            &&& queued.host_port == e.host_port
            &&& 0 <= e.weekday <= 6 ==> queued.weekday == e.weekday
            &&& e.weekday < 0 || e.weekday > 6 ==> queued.weekday == 0
            &&& 0 <= e.hour_of_day <= 23 ==> queued.hour_of_day == e.hour_of_day
            &&& e.hour_of_day < 0 || e.hour_of_day > 23 ==> queued.hour_of_day == 0
            &&& e.server_tick >= 0 ==> queued.server_tick == e.server_tick
            &&& e.server_tick < 0 ==> queued.server_tick == 0
            &&& queued.session_started_at == e.session_started_at
            &&& queued.session_ended_at == e.session_ended_at
            &&& queued.session_sample_count == e.session_sample_count
        }),
{
    law_numbers_are_kept(filled_in(e, batch), times.now);
}

/// What is queued for an event says what its sender said: each rate that is finite
/// and not negative as it was sent, bit for bit and in its own place, and zero for
/// each that is not.
pub proof fn law_sent_rates_are_queued(
    e: EventModel,
    batch: BatchModel,
    times: IntakeTimes,
    position: nat,
)
    ensures
        ({
            let queued = intake_item(e, batch, times, position).event;
            &&& e.tick_interval_seconds.bits < 0x7ff0_0000_0000_0000
                || e.tick_interval_seconds.bits == 0x8000_0000_0000_0000
                ==> queued.tick_interval_seconds == e.tick_interval_seconds
            &&& e.tick_interval_seconds.bits >= 0x7ff0_0000_0000_0000
                && e.tick_interval_seconds.bits != 0x8000_0000_0000_0000
                ==> queued.tick_interval_seconds.bits == 0
            &&& e.expected_tickrate.bits < 0x7ff0_0000_0000_0000
                || e.expected_tickrate.bits == 0x8000_0000_0000_0000
                ==> queued.expected_tickrate == e.expected_tickrate
            &&& e.expected_tickrate.bits >= 0x7ff0_0000_0000_0000
                && e.expected_tickrate.bits != 0x8000_0000_0000_0000
                ==> queued.expected_tickrate.bits == 0
            &&& e.observed_tickrate.bits < 0x7ff0_0000_0000_0000
                || e.observed_tickrate.bits == 0x8000_0000_0000_0000
                ==> queued.observed_tickrate == e.observed_tickrate
            &&& e.observed_tickrate.bits >= 0x7ff0_0000_0000_0000
                && e.observed_tickrate.bits != 0x8000_0000_0000_0000
                ==> queued.observed_tickrate.bits == 0
            &&& e.session_average_tickrate.bits < 0x7ff0_0000_0000_0000
                || e.session_average_tickrate.bits == 0x8000_0000_0000_0000
                ==> queued.session_average_tickrate == e.session_average_tickrate
            &&& e.session_average_tickrate.bits >= 0x7ff0_0000_0000_0000
                && e.session_average_tickrate.bits != 0x8000_0000_0000_0000
                ==> queued.session_average_tickrate.bits == 0
            &&& e.session_minimum_tickrate.bits < 0x7ff0_0000_0000_0000
                || e.session_minimum_tickrate.bits == 0x8000_0000_0000_0000
                ==> queued.session_minimum_tickrate == e.session_minimum_tickrate
            &&& e.session_minimum_tickrate.bits >= 0x7ff0_0000_0000_0000
                && e.session_minimum_tickrate.bits != 0x8000_0000_0000_0000
                ==> queued.session_minimum_tickrate.bits == 0
        }),
{
    law_rates_are_kept(filled_in(e, batch), times.now);
}

/// An event is that of the server that it names itself, and of its connection's
/// where it names none; the same holds of the name that the server shows.
pub proof fn law_server_of_an_event(
    e: EventModel,
    batch: BatchModel,
    times: IntakeTimes,
    position: nat,
)
    ensures
        ({
            let queued = intake_item(e, batch, times, position).event;
            &&& identifier_text(e.server_id) && 1 <= e.server_id.len() <= 128 ==> queued.server_id
                == e.server_id
            &&& e.server_id.len() == 0 && identifier_text(batch.server_id) && 1
                <= batch.server_id.len() <= 128 ==> queued.server_id == batch.server_id
            &&& (exists|i: int| 0 <= i < e.server_name.len() && !white_space(e.server_name[i]))
                && e.server_name.len() <= 255 ==> queued.server_name == e.server_name
            &&& (forall|i: int|
                0 <= i < e.server_name.len() ==> white_space(#[trigger] e.server_name[i]))
                && batch.server_name.len() <= 255 ==> queued.server_name == batch.server_name
            &&& (forall|i: int|
                0 <= i < e.server_name.len() ==> white_space(#[trigger] e.server_name[i]))
                && batch.server_name.len() > 255 ==> queued.server_name == batch.server_name.take(
                255,
            )
            &&& (exists|i: int| 0 <= i < e.server_name.len() && !white_space(e.server_name[i]))
                && e.server_name.len() > 255 ==> queued.server_name == e.server_name.take(255)
            &&& (exists|i: int| 0 <= i < e.server_id.len() && !white_space(e.server_id[i]))
                ==> queued.server_id == normalized_identifier(e.server_id, 128, "unknown"@)
            &&& (forall|i: int|
                0 <= i < e.server_id.len() ==> white_space(#[trigger] e.server_id[i]))
                ==> queued.server_id == normalized_identifier(batch.server_id, 128, "unknown"@)
        }),
{
    law_trim_takes_off_white_space(e.server_id);
    law_trim_takes_off_white_space(e.server_name);
    law_texts_are_kept(filled_in(e, batch), times.now);
    lemma_unknown();
    law_identifier_shape(e.server_id, 128, "unknown"@);
    law_identifier_shape(batch.server_id, 128, "unknown"@);
    if identifier_text(e.server_id) && 1 <= e.server_id.len() <= 128 {
        law_identifier_characters(e.server_id[0]);
        law_identifiers_are_kept(e.server_id, 128, "unknown"@);
    }
    if identifier_text(batch.server_id) && 1 <= batch.server_id.len() <= 128 {
        law_identifiers_are_kept(batch.server_id, 128, "unknown"@);
    }
}

/// An event is from the plugin that it names itself; where it names none, from the
/// plugin of its own table, and where it has none, from that of its batch's table.
/// What is queued names the plugin both with the event and beside it.
pub proof fn law_plugin_of_an_event(
    e: EventModel,
    batch: BatchModel,
    times: IntakeTimes,
    position: nat,
    plugin: Seq<char>,
)
    requires
        identifier_text(plugin),
        1 <= plugin.len() <= 64,
    ensures
        ({
            let item = intake_item(e, batch, times, position);
            let legacy = plugin + "_statistics_events"@;
            &&& item.event.source_plugin == item.source_plugin
            &&& e.source_plugin == plugin ==> item.source_plugin == plugin
            &&& e.source_plugin.len() == 0 && e.table == legacy ==> item.source_plugin == plugin
            &&& e.source_plugin.len() == 0 && e.table.len() == 0 && batch.table == Some(legacy)
                ==> item.source_plugin == plugin
            &&& e.source_plugin.len() == 0 && e.table.len() == 0 && batch.table is None
                ==> item.source_plugin == "unknown"@
            &&& (exists|i: int| 0 <= i < e.source_plugin.len() && !white_space(e.source_plugin[i]))
                ==> item.source_plugin == normalized_identifier(e.source_plugin, 64, "unknown"@)
            &&& (forall|i: int|
                0 <= i < e.source_plugin.len() ==> white_space(#[trigger] e.source_plugin[i])) ==> {
                &&& e.table.len() > 0 ==> item.source_plugin == normalized_identifier(
                    legacy_source(e.table),
                    64,
                    "unknown"@,
                )
                &&& batch.table matches Some(table) ==> e.table.len() == 0 ==> item.source_plugin
                    == normalized_identifier(legacy_source(table), 64, "unknown"@)
            }
        }),
{
    let legacy = plugin + "_statistics_events"@;
    law_trim_takes_off_white_space(e.source_plugin);
    law_identifier_characters(plugin[0]);
    law_identifiers_are_kept(plugin, 64, "unknown"@);
    law_legacy_table_names_its_plugin(plugin);
    law_texts_are_kept(filled_in(e, batch), times.now);
    law_identifier_shape(legacy_source(Seq::empty()), 64, "unknown"@);
    law_identifier_shape(legacy_source(e.table), 64, "unknown"@);
    if let Some(table) = batch.table {
        law_identifier_shape(legacy_source(table), 64, "unknown"@);
    }
    law_identifier_shape(e.source_plugin, 64, "unknown"@);
    lemma_unknown();
    reveal_strlit("_statistics_events");
    assert(legacy.len() > 0);
    assert(legacy_source(Seq::<char>::empty()) =~= Seq::empty());
    law_identifier_follows_its_text(Seq::empty(), 64, "unknown"@);
}

/// An event is queued under the identifier that its sender gave it, in the event
/// and beside it, with the batch that it came in and the time of its queueing; one
/// without a usable identifier gets one of the service's own, from its port, the
/// clock and its place in the batch.
pub proof fn law_identifier_of_an_event(
    e: EventModel,
    batch: BatchModel,
    times: IntakeTimes,
    position: nat,
    id: Seq<char>,
)
    requires
        identifier_text(id),
        1 <= id.len() <= 128,
    ensures
        ({
            let item = intake_item(e, batch, times, position);
            let own = "rust-"@ + signed_decimal(e.host_port as int) + "-"@ + decimal(
                times.id_ms as nat,
            ) + "-"@ + decimal(position);
            &&& item.event.event_id == item.event_id
            &&& e.event_id == Some(id) ==> item.event_id == Some(id)
            &&& e.event_id is None ==> item.event_id == Some(own)
            &&& e.event_id matches Some(given) ==> (forall|i: int|
                0 <= i < given.len() ==> !identifier_char(#[trigger] given[i])) ==> item.event_id
                == Some(own)
            &&& e.event_id matches Some(given) ==> {
                let kept = given.filter(|c: char| identifier_char(c));
                &&& 0 < kept.len() <= 128 ==> item.event_id == Some(kept)
                &&& kept.len() > 128 ==> item.event_id == Some(kept.take(128))
            }
            &&& item.batch_id == batch.batch_id
            &&& item.enqueued_at_ms == times.queued_ms
            &&& item.completion is None
        }),
{
    law_event_ids_are_kept(id);
    if let Some(given) = e.event_id {
        law_event_id_keeps_identifier_characters(given);
        if forall|i: int| 0 <= i < given.len() ==> !identifier_char(#[trigger] given[i]) {
            let keep = |c: char| identifier_char(c);
            if given.filter(keep).len() > 0 {
                given.lemma_filter_pred(keep, 0);
                given.lemma_filter_contains_rev(keep, given.filter(keep)[0]);
            }
        }
    }
}

/// A batch is admitted exactly where the queue stays within its limit with all of
/// it, or where there is nothing in it.
pub proof fn law_admission_is_exact(queued: nat, accepted: nat, queue_limit: nat)
    requires
        queue_limit < usize::MAX,
    ensures
        admitted(queued, accepted, queue_limit) <==> accepted == 0 || queued + accepted
            <= queue_limit,
{
}

/// A ticket changes nothing of an item but the ticket that it carries, and keeps
/// the items in their places.
pub proof fn law_tickets_change_nothing_else(
    items: Seq<QueuedModel>,
    ticket: Option<u64>,
    i: int,
)
    requires
        0 <= i < items.len(),
    ensures
        ticketed(items, ticket).len() == items.len(),
        ticketed(items, ticket)[i].completion == ticket,
        ticketed(items, ticket)[i].event == items[i].event,
        ticketed(items, ticket)[i].event_id == items[i].event_id,
        ticketed(items, ticket)[i].source_plugin == items[i].source_plugin,
        ticketed(items, ticket)[i].batch_id == items[i].batch_id,
        ticketed(items, ticket)[i].enqueued_at_ms == items[i].enqueued_at_ms,
{
}

/// A refused batch counts as dropped, each event once, and as nothing else.
pub proof fn law_refused_batches_are_counted(stats: ServiceStats, n: nat)
    requires
        stats.dropped_events + n <= u64::MAX,
    ensures
        ({
            let after = batch_dropped(stats, n);
            &&& after.dropped_events == stats.dropped_events + n
            &&& after == ServiceStats { dropped_events: after.dropped_events, ..stats }
        }),
{
}

/// The view of a list of events holds each of them in its place.
pub proof fn law_event_list_view(events: Seq<StatsEvent>, i: int)
    requires
        0 <= i < events.len(),
    ensures
        event_models(events).len() == events.len(),
        event_models(events)[i] == events[i]@,
{
}

/// The events of a batch are taken in one after the other: one more event adds one
/// item behind those before it, named by how many these are, or nothing where its
/// identifier is known as written; and no events make no items.
pub proof fn law_events_are_taken_in_one_by_one(
    events: Seq<EventModel>,
    batch: BatchModel,
    written: Seq<Seq<char>>,
    times: Seq<IntakeTimes>,
    e: EventModel,
    at: IntakeTimes,
)
    requires
        times.len() == events.len(),
    ensures
        ({
            let before = intake(events, batch, written, times);
            let after = intake(events.push(e), batch, written, times.push(at));
            let item = intake_item(e, batch, at, before.len());
            &&& events.len() == 0 ==> before.len() == 0
            &&& item.event_id matches Some(id) && {
                &&& written.contains(id) ==> after == before
                &&& !written.contains(id) ==> after == before + seq![item]
            }
        }),
{
    let before = intake(events, batch, written, times);
    let item = intake_item(e, batch, at, before.len());
    assert(events.push(e).drop_last() =~= events);
    assert(times.push(at).drop_last() =~= times);
    assert(before.push(item) =~= before + seq![item]);
}

/// What [`prepare_event`] makes of an event says what its sender said: the texts
/// within their limits, the numbers in their ranges and the valid rates as they
/// were sent, each in its own place.
pub proof fn law_prepared_events_say_what_was_sent(
    event: StatsEvent,
    batch_id: Option<u64>,
    batch_table: Option<String>,
    server_id: &str,
    server_name: &str,
    times: IntakeTimes,
    position: usize,
    item: QueuedEvent,
)
    requires
        call_ensures(
            prepare_event,
            (event, batch_id, &batch_table, server_id, server_name, times, position),
            item,
        ),
    ensures
        ({
            let queued = item.event;
            &&& event.map_name@.len() <= 128 ==> queued.map_name@ == event.map_name@
            &&& event.map_name@.len() > 128 ==> queued.map_name@ == event.map_name@.take(128)
            &&& event.gamemode@.len() <= 64 ==> queued.gamemode@ == event.gamemode@
            &&& event.gamemode@.len() > 64 ==> queued.gamemode@ == event.gamemode@.take(64)
            &&& event.message@.len() <= 512 ==> queued.message@ == event.message@
            &&& event.message@.len() > 512 ==> queued.message@ == event.message@.take(512)
            &&& event.end_reason@.len() <= 32 ==> queued.end_reason@ == event.end_reason@
            &&& event.end_reason@.len() > 32 ==> queued.end_reason@ == event.end_reason@.take(32)
            &&& 1 <= event.map_session_id@.len() <= 128
                ==> queued.map_session_id@ == event.map_session_id@
            &&& event.map_session_id@.len() > 128
                ==> queued.map_session_id@ == event.map_session_id@.take(128)
            &&& 1 <= event.event_name@.len() <= 64 ==> queued.event_name@ == event.event_name@
            &&& event.event_name@.len() > 64 ==> queued.event_name@ == event.event_name@.take(64)
            &&& event.event_name@.len() == 0 ==> queued.event_name@ == "event"@
            &&& event.record_type@ == "event"@ || event.record_type@ == "session_start"@
                || event.record_type@ == "session_end"@ || event.record_type@ == "tick_sample"@
                ==> queued.record_type@ == event.record_type@
            &&& event.record_type@ != "session_start"@ && event.record_type@ != "session_end"@
                && event.record_type@ != "tick_sample"@ ==> queued.record_type@ == "event"@
            &&& queued.table@.len() == 0
            &&& event.occurred_at > 0 ==> queued.occurred_at == event.occurred_at
            &&& event.occurred_at <= 0 ==> queued.occurred_at == times.now
            &&& queued.host_port == event.host_port
            &&& 0 <= event.weekday <= 6 ==> queued.weekday == event.weekday
            &&& event.weekday < 0 || event.weekday > 6 ==> queued.weekday == 0
            &&& 0 <= event.hour_of_day <= 23 ==> queued.hour_of_day == event.hour_of_day
            &&& event.hour_of_day < 0 || event.hour_of_day > 23 ==> queued.hour_of_day == 0
            &&& event.server_tick >= 0 ==> queued.server_tick == event.server_tick
            &&& event.server_tick < 0 ==> queued.server_tick == 0
            &&& queued.session_started_at == event.session_started_at
            &&& queued.session_ended_at == event.session_ended_at
            &&& queued.session_sample_count == event.session_sample_count
            &&& event.tick_interval_seconds.bits < 0x7ff0_0000_0000_0000
                || event.tick_interval_seconds.bits == 0x8000_0000_0000_0000
                ==> queued.tick_interval_seconds == event.tick_interval_seconds
            &&& event.tick_interval_seconds.bits >= 0x7ff0_0000_0000_0000
                && event.tick_interval_seconds.bits != 0x8000_0000_0000_0000
                ==> queued.tick_interval_seconds.bits == 0
            &&& event.expected_tickrate.bits < 0x7ff0_0000_0000_0000
                || event.expected_tickrate.bits == 0x8000_0000_0000_0000
                ==> queued.expected_tickrate == event.expected_tickrate
            &&& event.expected_tickrate.bits >= 0x7ff0_0000_0000_0000
                && event.expected_tickrate.bits != 0x8000_0000_0000_0000
                ==> queued.expected_tickrate.bits == 0
            &&& event.observed_tickrate.bits < 0x7ff0_0000_0000_0000
                || event.observed_tickrate.bits == 0x8000_0000_0000_0000
                ==> queued.observed_tickrate == event.observed_tickrate
            &&& event.observed_tickrate.bits >= 0x7ff0_0000_0000_0000
                && event.observed_tickrate.bits != 0x8000_0000_0000_0000
                ==> queued.observed_tickrate.bits == 0
            &&& event.session_average_tickrate.bits < 0x7ff0_0000_0000_0000
                || event.session_average_tickrate.bits == 0x8000_0000_0000_0000
                ==> queued.session_average_tickrate == event.session_average_tickrate
            &&& event.session_average_tickrate.bits >= 0x7ff0_0000_0000_0000
                && event.session_average_tickrate.bits != 0x8000_0000_0000_0000
                ==> queued.session_average_tickrate.bits == 0
            &&& event.session_minimum_tickrate.bits < 0x7ff0_0000_0000_0000
                || event.session_minimum_tickrate.bits == 0x8000_0000_0000_0000
                ==> queued.session_minimum_tickrate == event.session_minimum_tickrate
            &&& event.session_minimum_tickrate.bits >= 0x7ff0_0000_0000_0000
                && event.session_minimum_tickrate.bits != 0x8000_0000_0000_0000
                ==> queued.session_minimum_tickrate.bits == 0
            &&& item.batch_id == batch_id
            &&& item.enqueued_at_ms == times.queued_ms
            &&& item.completion is None
            &&& item.source_plugin@ == queued.source_plugin@
            &&& item.event_id matches Some(id) && (queued.event_id matches Some(own) && id@
                == own@)
        }),
{
    let batch = BatchModel {
        batch_id,
        table: option_text(batch_table),
        server_id: server_id@,
        server_name: server_name@,
    };
    law_sent_texts_are_queued(event@, batch, times, position as nat);
    law_sent_numbers_are_queued(event@, batch, times, position as nat);
    law_sent_rates_are_queued(event@, batch, times, position as nat);
}

/// [`admit_events`] lets a batch in exactly where the queue stays within its limit,
/// or where there is nothing in it; a refusal says how much waits, how much came and
/// what the limit is, and counts every event of the batch as dropped.
pub proof fn law_admission_says_what_it_found(
    queue: QueueState,
    config: Config,
    items: Vec<QueuedEvent>,
)
    requires
        config.queue_limit < usize::MAX,
    ensures
        forall|stats: &mut ServiceStats, r: Result<(), EnqueueError>|
            #[trigger] call_ensures(admit_events, (&queue, &config, &items, stats), r) ==> {
                &&& r is Ok <==> items@.len() == 0 || queue.events@.len() + items@.len()
                    <= config.queue_limit
                &&& r is Ok ==> *final(stats) == *stats
                &&& r matches Err(e) ==> {
                    &&& e.message@ == "queue full"@
                    &&& e.queued == queue.events@.len()
                    &&& e.incoming == items@.len()
                    &&& e.limit == config.queue_limit
                    &&& stats.dropped_events + items@.len() <= u64::MAX ==> *final(stats) == (
                    ServiceStats {
                        dropped_events: (stats.dropped_events + items@.len()) as u64,
                        ..*stats
                    })
                }
            },
{
}

/// [`enqueue_events`] queues a journalled batch as it is, behind what waits, and
/// counts each of its events as accepted; a batch that is not journalled changes
/// nothing of the queue and counts as dropped.
pub proof fn law_queued_batches_stand_behind(
    config: Config,
    items: Vec<QueuedEvent>,
    journalled: bool,
    i: int,
)
    ensures
        forall|
            queue: &mut QueueState,
            completions: &mut Completions,
            stats: &mut ServiceStats,
            r: Result<EnqueueResult, EnqueueError>,
        |
            #[trigger] call_ensures(
                enqueue_events,
                (queue, &config, items, journalled, completions, stats),
                r,
            ) ==> {
                let waiting = (*queue)@.events;
                let after = final(queue)@.events;
                &&& final(queue)@.dropped == (*queue)@.dropped
                &&& r is Err <==> !journalled && items@.len() > 0
                &&& r is Err ==> after == waiting && final(completions)@ == (*completions)@
                &&& r is Err && stats.dropped_events + items@.len() <= u64::MAX
                    ==> final(stats).dropped_events == stats.dropped_events + items@.len()
                &&& r matches Ok(done) ==> {
                    &&& done.accepted == items@.len()
                    &&& done.completion is Some <==> items@.len() > 0
                    &&& after.len() == waiting.len() + items@.len()
                    &&& 0 <= i < waiting.len() ==> after[i] == waiting[i]
                    &&& 0 <= i < items@.len() ==> {
                        let item = after[waiting.len() + i];
                        &&& item.event == items@[i].event@
                        &&& item.source_plugin == items@[i].source_plugin@
                        &&& item.event_id == option_text(items@[i].event_id)
                        &&& item.batch_id == items@[i].batch_id
                        &&& item.enqueued_at_ms == items@[i].enqueued_at_ms
                        &&& item.completion == done.completion
                    }
                    &&& stats.accepted_events + items@.len() <= u64::MAX
                        ==> final(stats).accepted_events == stats.accepted_events + items@.len()
                }
            },
{
}

} // verus!
