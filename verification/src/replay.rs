//! What happens to the events that the journal shows as pending after a
//! restart.

use crate::clock::{now_unix_i64, shown_signed};
use crate::config::Config;
use crate::dedupe::DedupeCache;
use crate::event::{
    law_numbers_are_kept, law_rates_are_kept, law_signed_decimal_is_short, law_texts_are_kept,
    normalize_event_at, normalized, or_text, EventModel, StatsEvent,
};
use crate::ingest::{intake_item, law_queued_items_are_well_formed, BatchModel, IntakeTimes};
use crate::journal::{
    pending_models, pending_record_of, replay_line, JournalPendingEvent, JournalReplayState,
    LineModel, PendingModel, ReplayModel,
};
use crate::queue::{queued_models, QueueState, QueuedEvent, QueuedModel};
use crate::stats::{count, counted, law_counters_count, ServiceStats};
use crate::text::{push_signed, signed_decimal};
use vstd::prelude::*;

verus! {

/// An event that could not be queued again, for the file of rejected records.
#[derive(Debug)]
pub struct DeadLetter {
    pub reason: &'static str,
    pub detail: &'static str,
    pub source_plugin: String,
    pub batch_id: Option<u64>,
    pub event_id: String,
    pub event: StatsEvent,
}

/// What such a letter says.
#[verifier::ext_equal]
pub struct DeadLetterModel {
    pub reason: Seq<char>,
    pub detail: Seq<char>,
    pub source_plugin: Seq<char>,
    pub batch_id: Option<u64>,
    pub event_id: Seq<char>,
    pub event: EventModel,
}

impl View for DeadLetter {
    type V = DeadLetterModel;

    open spec fn view(&self) -> DeadLetterModel {
        DeadLetterModel {
            reason: self.reason@,
            detail: self.detail@,
            source_plugin: self.source_plugin@,
            batch_id: self.batch_id,
            event_id: self.event_id@,
            event: self.event@,
        }
    }
}

/// What a sequence of letters says.
pub open spec fn letter_models(letters: Seq<DeadLetter>) -> Seq<DeadLetterModel> {
    letters.map_values(|l: DeadLetter| l@)
}

/// What came of a replay.
#[derive(Debug)]
pub struct ReplayOutcome {
    /// How many events were queued again.
    pub replayed: usize,
    /// The events for which the queue had no room.
    pub dead_letters: Vec<DeadLetter>,
}

/// A pending event in normal form. Old journals name neither the server nor,
/// inside the event, the plugin.
pub open spec fn restored_event(p: PendingModel, now: i64) -> EventModel {
    normalized(
        EventModel {
            server_id: or_text(
                p.event.server_id,
                "legacy:"@ + signed_decimal(p.event.host_port as int),
            ),
            source_plugin: or_text(p.event.source_plugin, p.source_plugin),
            ..p.event
        },
        now,
    )
}

/// What is queued for a pending event.
pub open spec fn restored_item(p: PendingModel, now: i64) -> QueuedModel {
    QueuedModel {
        source_plugin: p.source_plugin,
        event: restored_event(p, now),
        event_id: Some(p.event_id),
        batch_id: p.batch_id,
        enqueued_at_ms: p.ts_ms,
        completion: None,
    }
}

/// What is recorded of a pending event for which there is no room.
pub open spec fn rejected_item(p: PendingModel, now: i64) -> DeadLetterModel {
    DeadLetterModel {
        reason: "journal_replay_queue_full"@,
        detail: "queue full during startup replay"@,
        source_plugin: p.source_plugin,
        batch_id: p.batch_id,
        event_id: p.event_id,
        event: restored_event(p, now),
    }
}

/// The queue and the dead letters after pending events were queued again, each
/// at its time in `nows`: one whose identifier is in `written` is left out, and
/// one that finds the queue full becomes a dead letter.
pub open spec fn replay_into(
    pending: Seq<PendingModel>,
    nows: Seq<i64>,
    written: Seq<Seq<char>>,
    waiting: Seq<QueuedModel>,
    queue_limit: nat,
) -> (Seq<QueuedModel>, Seq<DeadLetterModel>)
    decreases pending.len(),
{
    if pending.len() == 0 {
        (waiting, Seq::empty())
    } else {
        let (queue, letters) = replay_into(
            pending.drop_last(),
            nows.drop_last(),
            written,
            waiting,
            queue_limit,
        );
        let p = pending.last();
        if written.contains(p.event_id) {
            (queue, letters)
        } else if queue.len() >= queue_limit {
            (queue, letters.push(rejected_item(p, nows.last())))
        } else {
            (queue.push(restored_item(p, nows.last())), letters)
        }
    }
}

/// Brings a pending event into the form in which it is queued.
fn restore(pending: JournalPendingEvent, now: i64) -> (r: JournalPendingEvent)
    ensures
        r@ == (PendingModel { event: restored_event(pending@, now), ..pending@ }),
{
    let mut pending = pending;
    let ghost given = pending@;
    if pending.event.server_id.as_str().is_empty() {
        let mut server = String::new();
        server.append("legacy:");
        push_signed(&mut server, pending.event.host_port as i64);
        assert(server@ == "legacy:"@ + signed_decimal(given.event.host_port as int));
        pending.event.server_id = server;
    }
    if pending.event.source_plugin.as_str().is_empty() {
        pending.event.source_plugin = pending.source_plugin.clone();
    }
    let mut event = pending.event;
    normalize_event_at(&mut event, now);
    JournalPendingEvent { event, ..pending }
}

/// The counters after a replay.
pub open spec fn replay_counted(
    stats: ServiceStats,
    replay: JournalReplayState,
    outcome: ReplayOutcome,
) -> ServiceStats {
    ServiceStats {
        journal_compactions: counted(stats.journal_compactions, 1),
        journal_pending_startup: replay.pending@.len() as u64,
        journal_done_records_startup: replay.done_records as u64,
        journal_bad_lines_startup: replay.bad_lines as u64,
        journal_replayed_startup: if replay.pending@.len() == 0 {
            stats.journal_replayed_startup
        } else {
            outcome.replayed as u64
        },
        dropped_events: counted(stats.dropped_events, outcome.dead_letters@.len()),
        ..stats
    }
}

/// Queues the events that the journal shows as pending, each at its time in
/// `nows`, and counts what the journal shows.
pub fn replay_pending_journal_at(
    queue: &mut QueueState,
    config: &Config,
    dedupe: &DedupeCache,
    replay: JournalReplayState,
    nows: &Vec<i64>,
    stats: &mut ServiceStats,
) -> (outcome: ReplayOutcome)
    requires
        nows.len() == replay.pending.len(),
    ensures
        outcome.replayed == final(queue)@.events.len() - old(queue)@.events.len(),
        final(queue)@.dropped == old(queue)@.dropped,
        (final(queue)@.events, letter_models(outcome.dead_letters@)) == replay_into(
            pending_models(replay.pending@),
            nows@,
            dedupe@.order,
            old(queue)@.events,
            config.queue_limit as nat,
        ),
        *final(stats) == replay_counted(*old(stats), replay, outcome),
{
    stats.journal_compactions = count(stats.journal_compactions, 1);
    stats.journal_pending_startup = replay.pending.len() as u64;
    stats.journal_done_records_startup = replay.done_records as u64;
    stats.journal_bad_lines_startup = replay.bad_lines as u64;
    let total: usize = replay.pending.len();
    let ghost given = pending_models(replay.pending@);
    let ghost waiting = queue@.events;
    let ghost counters = *stats;
    let mut letters: Vec<DeadLetter> = Vec::new();
    let mut replayed: usize = 0;
    let mut position: usize = 0;
    assert(letter_models(letters@) == Seq::<DeadLetterModel>::empty());
    let pending_events = replay.pending;
    for pending in it: pending_events
        invariant
            it.seq() == pending_events@,
            total == pending_events@.len(),
            total == nows@.len(),
            given == pending_models(pending_events@),
            queue.dropped == old(queue).dropped,
            position == it.index(),
            replayed <= it.index(),
            replayed == queue@.events.len() - waiting.len(),
            (queue@.events, letter_models(letters@)) == replay_into(
                given.take(it.index() as int),
                nows@.take(it.index() as int),
                dedupe@.order,
                waiting,
                config.queue_limit as nat,
            ),
            *stats == (ServiceStats {
                dropped_events: counted(counters.dropped_events, letters@.len()),
                ..counters
            }),
    {
        let ghost n = it.index() as int;
        let ghost before = queue.events@;
        let ghost letters_before = letters@;
        let ghost p = pending@;
        assert(position < nows.len());
        proof {
            assert(given.take(n + 1).drop_last() == given.take(n));
            assert(given.take(n + 1).last() == p);
            assert(nows@.take(n + 1).drop_last() == nows@.take(n));
            assert(nows@.take(n + 1).last() == nows@[n]);
        }
        if !dedupe.contains(pending.event_id.as_str()) {
            let restored = restore(pending, nows[position]);
            if queue.events.len() >= config.queue_limit {
                let letter = DeadLetter {
                    reason: "journal_replay_queue_full",
                    detail: "queue full during startup replay",
                    source_plugin: restored.source_plugin,
                    batch_id: restored.batch_id,
                    event_id: restored.event_id,
                    event: restored.event,
                };
                letters.push(letter);
                assert(letter_models(letters@) == letter_models(letters_before).push(letter@));
                stats.dropped_events = count(stats.dropped_events, 1);
            } else {
                let item = QueuedEvent {
                    source_plugin: restored.source_plugin,
                    event: restored.event,
                    event_id: Some(restored.event_id),
                    batch_id: restored.batch_id,
                    enqueued_at_ms: restored.ts_ms,
                    completion: None,
                };
                queue.events.push_back(item);
                assert(queued_models(queue.events@) == queued_models(before).push(item@));
                replayed = replayed + 1;
            }
        }
        position = position + 1;
    }
    assert(given.take(given.len() as int) == given);
    assert(nows@.take(nows@.len() as int) == nows@);
    if total > 0 {
        stats.journal_replayed_startup = replayed as u64;
    }
    ReplayOutcome { replayed, dead_letters: letters }
}

/// All of `nows` are what the clock showed.
pub open spec fn nows_shown(nows: Seq<i64>) -> bool {
    forall|i: int| 0 <= i < nows.len() ==> shown_signed(#[trigger] nows[i])
}

/// Queues the events that the journal shows as pending, at the time that the
/// clock shows, and counts what the journal shows.
pub fn replay_pending_journal(
    queue: &mut QueueState,
    config: &Config,
    dedupe: &DedupeCache,
    replay: JournalReplayState,
    stats: &mut ServiceStats,
) -> (outcome: ReplayOutcome)
    ensures
        outcome.replayed == final(queue)@.events.len() - old(queue)@.events.len(),
        final(queue)@.dropped == old(queue)@.dropped,
        exists|nows: Seq<i64>|
            nows.len() == replay.pending@.len() && nows_shown(nows) && (
                final(queue)@.events,
                letter_models(outcome.dead_letters@),
            ) == #[trigger] replay_into(
                pending_models(replay.pending@),
                nows,
                dedupe@.order,
                old(queue)@.events,
                config.queue_limit as nat,
            ),
        *final(stats) == replay_counted(*old(stats), replay, outcome),
{
    let mut nows: Vec<i64> = Vec::new();
    for i in 0..replay.pending.len()
        invariant
            nows@.len() == i,
            nows_shown(nows@),
    {
        nows.push(now_unix_i64());
    }
    replay_pending_journal_at(queue, config, dedupe, replay, &nows, stats)
}

/// An event that was accepted and journalled comes back after a restart as it
/// was queued: the same event under the same identifier, from the same plugin
/// and batch. It stands in the queue as of the time of its record, and no
/// sender waits for it. A clock that stands at or before the epoch gives an
/// event without a time none that lasts.
pub proof fn law_journal_gives_back_what_was_queued(
    e: EventModel,
    batch: BatchModel,
    times: IntakeTimes,
    position: nat,
    ticket: Option<u64>,
    ts_ms: u64,
    m: ReplayModel,
    capacity: nat,
    later: i64,
)
    requires
        e.occurred_at > 0 || times.now > 0,
    ensures
        ({
            let queued = QueuedModel {
                completion: ticket,
                ..intake_item(e, batch, times, position)
            };
            let id = queued.event_id->0;
            let record = pending_record_of(queued, ts_ms);
            let after = replay_line(m, LineModel::Record(record->0), capacity);
            &&& record is Some
            &&& after.pending.contains_key(id)
            &&& restored_item(after.pending[id], later) == (QueuedModel {
                enqueued_at_ms: ts_ms,
                completion: None,
                ..queued
            })
        }),
{
    let queued = QueuedModel { completion: ticket, ..intake_item(e, batch, times, position) };
    let id = queued.event_id->0;
    law_queued_items_are_well_formed(e, batch, times, position);
    let record = pending_record_of(queued, ts_ms);
    let after = replay_line(m, LineModel::Record(record->0), capacity);
    let p = after.pending[id];
    assert(p.event == queued.event);
    assert(normalized(queued.event, later) == queued.event);
    assert(EventModel {
        server_id: p.event.server_id,
        source_plugin: p.event.source_plugin,
        ..p.event
    } == p.event);
}

/// Every pending event is written already, queued again or a dead letter, and
/// what waited before stays in front.
pub proof fn law_replay_loses_nothing(
    pending: Seq<PendingModel>,
    nows: Seq<i64>,
    written: Seq<Seq<char>>,
    waiting: Seq<QueuedModel>,
    queue_limit: nat,
)
    requires
        nows.len() == pending.len(),
    ensures
        ({
            let (queue, letters) = replay_into(pending, nows, written, waiting, queue_limit);
            &&& waiting.len() <= queue.len()
            &&& queue.take(waiting.len() as int) == waiting
            &&& queue.len() <= queue_limit || queue == waiting
            &&& forall|i: int|
                0 <= i < pending.len() ==> {
                    ||| written.contains((#[trigger] pending[i]).event_id)
                    ||| queue.contains(restored_item(pending[i], nows[i]))
                    ||| letters.contains(rejected_item(pending[i], nows[i]))
                }
        }),
    decreases pending.len(),
{
    let (queue, letters) = replay_into(pending, nows, written, waiting, queue_limit);
    if pending.len() > 0 {
        let n = pending.len() - 1;
        let (q, l) = replay_into(
            pending.drop_last(),
            nows.drop_last(),
            written,
            waiting,
            queue_limit,
        );
        law_replay_loses_nothing(
            pending.drop_last(),
            nows.drop_last(),
            written,
            waiting,
            queue_limit,
        );
        let item = restored_item(pending[n], nows[n]);
        let letter = rejected_item(pending[n], nows[n]);
        if !written.contains(pending[n].event_id) {
            if q.len() >= queue_limit {
                assert(letters[l.len() as int] == letter);
            } else {
                assert(queue[q.len() as int] == item);
            }
        }
        assert(queue.take(waiting.len() as int) == q.take(waiting.len() as int));
        assert forall|i: int| 0 <= i < pending.len() implies {
            ||| written.contains((#[trigger] pending[i]).event_id)
            ||| queue.contains(restored_item(pending[i], nows[i]))
            ||| letters.contains(rejected_item(pending[i], nows[i]))
        } by {
            if i < n {
                assert(pending.drop_last()[i] == pending[i]);
                let x = restored_item(pending[i], nows[i]);
                let y = rejected_item(pending[i], nows[i]);
                if q.contains(x) {
                    let k = choose|k: int| 0 <= k < q.len() && q[k] == x;
                    assert(queue[k] == x);
                }
                if l.contains(y) {
                    let k = choose|k: int| 0 <= k < l.len() && l[k] == y;
                    assert(letters[k] == y);
                }
            }
        }
    } else {
        assert(queue.take(waiting.len() as int) == waiting);
    }
}

/// A pending event comes back with what the journal recorded of it: its plugin, its
/// identifier and its batch as they are, as of the time of its record, and with
/// nobody who waits for it. Where there is no room for it, the same is recorded of
/// it, with the reason.
pub proof fn law_journalled_events_come_back(p: PendingModel, now: i64)
    ensures
        restored_item(p, now).source_plugin == p.source_plugin,
        restored_item(p, now).event_id == Some(p.event_id),
        restored_item(p, now).batch_id == p.batch_id,
        restored_item(p, now).enqueued_at_ms == p.ts_ms,
        restored_item(p, now).completion is None,
        rejected_item(p, now).reason == "journal_replay_queue_full"@,
        rejected_item(p, now).detail == "queue full during startup replay"@,
        rejected_item(p, now).source_plugin == p.source_plugin,
        rejected_item(p, now).event_id == p.event_id,
        rejected_item(p, now).batch_id == p.batch_id,
        rejected_item(p, now).event == restored_item(p, now).event,
{
}

/// The texts of a pending event come back as they were recorded, within their
/// limits; one that names no server is that of a server of its port, and one that
/// names no plugin is from that of its record.
pub proof fn law_journalled_texts_come_back(p: PendingModel, now: i64)
    ensures
        ({
            let e = p.event;
            let r = restored_item(p, now).event;
            &&& r.event_id == e.event_id
            &&& 1 <= e.server_id.len() <= 128 ==> r.server_id == e.server_id
            &&& e.server_id.len() > 128 ==> r.server_id == e.server_id.take(128)
            &&& e.server_id.len() == 0 ==> r.server_id == "legacy:"@ + signed_decimal(
                e.host_port as int,
            )
            &&& e.server_name.len() <= 255 ==> r.server_name == e.server_name
            &&& e.server_name.len() > 255 ==> r.server_name == e.server_name.take(255)
            &&& 1 <= e.source_plugin.len() <= 64 ==> r.source_plugin == e.source_plugin
            &&& e.source_plugin.len() > 64 ==> r.source_plugin == e.source_plugin.take(64)
            &&& e.source_plugin.len() == 0 && p.source_plugin.len() <= 64 ==> r.source_plugin
                == p.source_plugin
            &&& e.source_plugin.len() == 0 && p.source_plugin.len() > 64 ==> r.source_plugin
                == p.source_plugin.take(64)
            &&& 1 <= e.map_session_id.len() <= 128 ==> r.map_session_id == e.map_session_id
            &&& e.map_session_id.len() > 128 ==> r.map_session_id == e.map_session_id.take(128)
            &&& e.map_name.len() <= 128 ==> r.map_name == e.map_name
            &&& e.map_name.len() > 128 ==> r.map_name == e.map_name.take(128)
            &&& e.gamemode.len() <= 64 ==> r.gamemode == e.gamemode
            &&& e.gamemode.len() > 64 ==> r.gamemode == e.gamemode.take(64)
            &&& e.message.len() <= 512 ==> r.message == e.message
            &&& e.message.len() > 512 ==> r.message == e.message.take(512)
            &&& e.end_reason.len() <= 32 ==> r.end_reason == e.end_reason
            &&& e.end_reason.len() > 32 ==> r.end_reason == e.end_reason.take(32)
            &&& 1 <= e.event_name.len() <= 64 ==> r.event_name == e.event_name
            &&& e.event_name.len() > 64 ==> r.event_name == e.event_name.take(64)
            &&& e.event_name.len() == 0 ==> r.event_name == "event"@
            &&& e.record_type == "event"@ || e.record_type == "session_start"@ || e.record_type
                == "session_end"@ || e.record_type == "tick_sample"@ ==> r.record_type
                == e.record_type
            &&& e.record_type != "session_start"@ && e.record_type != "session_end"@
                && e.record_type != "tick_sample"@ ==> r.record_type == "event"@
        }),
{
    let named = EventModel {
        server_id: or_text(
            p.event.server_id,
            "legacy:"@ + signed_decimal(p.event.host_port as int),
        ),
        source_plugin: or_text(p.event.source_plugin, p.source_plugin),
        ..p.event
    };
    law_texts_are_kept(named, now);
    lemma_port_fits(p.event.host_port);
}

/// The name that is made of a port is within the limit of a server's.
proof fn lemma_port_fits(port: i32)
    ensures
        ("legacy:"@ + signed_decimal(port as int)).len() <= 128,
{
    reveal_strlit("legacy:");
    law_signed_decimal_is_short(port as i64);
}

/// The numbers of a pending event that are valid come back as they were recorded;
/// only an event without a time gets that of the clock.
pub proof fn law_journalled_numbers_come_back(p: PendingModel, now: i64)
    ensures
        ({
            let e = p.event;
            let r = restored_item(p, now).event;
            &&& e.occurred_at > 0 ==> r.occurred_at == e.occurred_at
            &&& e.occurred_at <= 0 ==> r.occurred_at == now
            &&& r.host_port == e.host_port
            &&& 0 <= e.weekday <= 6 ==> r.weekday == e.weekday
            &&& e.weekday < 0 || e.weekday > 6 ==> r.weekday == 0
            &&& 0 <= e.hour_of_day <= 23 ==> r.hour_of_day == e.hour_of_day
            &&& e.hour_of_day < 0 || e.hour_of_day > 23 ==> r.hour_of_day == 0
            &&& e.server_tick >= 0 ==> r.server_tick == e.server_tick
            &&& e.server_tick < 0 ==> r.server_tick == 0
            &&& r.session_started_at == e.session_started_at
            &&& r.session_ended_at == e.session_ended_at
            &&& r.session_sample_count == e.session_sample_count
            &&& e.tick_interval_seconds.bits < 0x7ff0_0000_0000_0000
                || e.tick_interval_seconds.bits == 0x8000_0000_0000_0000
                ==> r.tick_interval_seconds == e.tick_interval_seconds
            &&& e.tick_interval_seconds.bits >= 0x7ff0_0000_0000_0000
                && e.tick_interval_seconds.bits != 0x8000_0000_0000_0000
                ==> r.tick_interval_seconds.bits == 0
            &&& e.expected_tickrate.bits < 0x7ff0_0000_0000_0000
                || e.expected_tickrate.bits == 0x8000_0000_0000_0000
                ==> r.expected_tickrate == e.expected_tickrate
            &&& e.expected_tickrate.bits >= 0x7ff0_0000_0000_0000
                && e.expected_tickrate.bits != 0x8000_0000_0000_0000
                ==> r.expected_tickrate.bits == 0
            &&& e.observed_tickrate.bits < 0x7ff0_0000_0000_0000
                || e.observed_tickrate.bits == 0x8000_0000_0000_0000
                ==> r.observed_tickrate == e.observed_tickrate
            &&& e.observed_tickrate.bits >= 0x7ff0_0000_0000_0000
                && e.observed_tickrate.bits != 0x8000_0000_0000_0000
                ==> r.observed_tickrate.bits == 0
            &&& e.session_average_tickrate.bits < 0x7ff0_0000_0000_0000
                || e.session_average_tickrate.bits == 0x8000_0000_0000_0000
                ==> r.session_average_tickrate == e.session_average_tickrate
            &&& e.session_average_tickrate.bits >= 0x7ff0_0000_0000_0000
                && e.session_average_tickrate.bits != 0x8000_0000_0000_0000
                ==> r.session_average_tickrate.bits == 0
            &&& e.session_minimum_tickrate.bits < 0x7ff0_0000_0000_0000
                || e.session_minimum_tickrate.bits == 0x8000_0000_0000_0000
                ==> r.session_minimum_tickrate == e.session_minimum_tickrate
            &&& e.session_minimum_tickrate.bits >= 0x7ff0_0000_0000_0000
                && e.session_minimum_tickrate.bits != 0x8000_0000_0000_0000
                ==> r.session_minimum_tickrate.bits == 0
        }),
{
    let named = EventModel {
        server_id: or_text(
            p.event.server_id,
            "legacy:"@ + signed_decimal(p.event.host_port as int),
        ),
        source_plugin: or_text(p.event.source_plugin, p.source_plugin),
        ..p.event
    };
    law_numbers_are_kept(named, now);
    law_rates_are_kept(named, now);
}

/// Of the pending events that are not written yet, the first are queued behind what
/// waits, one for one and in their order, as long as the queue is not full, and the
/// rest become dead letters; nothing else is queued or becomes one.
pub proof fn law_first_events_are_queued_again(
    pending: Seq<PendingModel>,
    nows: Seq<i64>,
    written: Seq<Seq<char>>,
    waiting: Seq<QueuedModel>,
    queue_limit: nat,
)
    requires
        nows.len() == pending.len(),
    ensures
        ({
            let (queue, letters) = replay_into(pending, nows, written, waiting, queue_limit);
            let left = pending.zip_with(nows).filter(
                |x: (PendingModel, i64)| !written.contains(x.0.event_id),
            );
            let room = if waiting.len() >= queue_limit {
                0
            } else {
                queue_limit - waiting.len()
            };
            let n = if left.len() <= room {
                left.len() as int
            } else {
                room as int
            };
            &&& queue.len() == waiting.len() + n
            &&& forall|k: int| 0 <= k < waiting.len() ==> #[trigger] queue[k] == waiting[k]
            &&& forall|k: int|
                waiting.len() <= k < queue.len() ==> #[trigger] queue[k] == restored_item(
                    left[k - waiting.len()].0,
                    left[k - waiting.len()].1,
                )
            &&& letters.len() == left.len() - n
            &&& forall|k: int|
                0 <= k < letters.len() ==> #[trigger] letters[k] == rejected_item(
                    left[n + k].0,
                    left[n + k].1,
                )
        }),
    decreases pending.len(),
{
    reveal(Seq::filter);
    if pending.len() > 0 {
        let before = pending.drop_last();
        let past = nows.drop_last();
        law_first_events_are_queued_again(before, past, written, waiting, queue_limit);
        let pairs = pending.zip_with(nows);
        assert(pairs.drop_last() =~= before.zip_with(past));
        assert(pairs.last() == (pending.last(), nows.last()));
    }
}

/// A replay counts as one compaction, and sets what the journal showed and how much
/// of it was queued again; each dead letter counts as a dropped event. No other
/// counter changes.
pub proof fn law_replay_is_counted(
    stats: ServiceStats,
    replay: JournalReplayState,
    outcome: ReplayOutcome,
)
    requires
        stats.dropped_events + outcome.dead_letters@.len() <= u64::MAX,
        stats.journal_compactions < u64::MAX,
        replay.pending@.len() <= u64::MAX,
    ensures
        ({
            let after = replay_counted(stats, replay, outcome);
            &&& after.journal_compactions == stats.journal_compactions + 1
            &&& after.journal_pending_startup == replay.pending@.len()
            &&& after.journal_done_records_startup == replay.done_records
            &&& after.journal_bad_lines_startup == replay.bad_lines
            &&& replay.pending@.len() > 0 ==> after.journal_replayed_startup == outcome.replayed
            &&& replay.pending@.len() == 0 ==> after.journal_replayed_startup
                == stats.journal_replayed_startup
            &&& after.dropped_events == stats.dropped_events + outcome.dead_letters@.len()
            &&& after.accepted_events == stats.accepted_events
            &&& after.executed_events == stats.executed_events
            &&& after.db_errors == stats.db_errors
            &&& after.parse_errors == stats.parse_errors
            &&& after.journal_events_since_compaction_check
                == stats.journal_events_since_compaction_check
        }),
{
    law_counters_count(stats.journal_compactions, 1);
    law_counters_count(stats.dropped_events, outcome.dead_letters@.len());
}

/// The views of dead letters hold each of their fields as it is, one for one.
pub proof fn law_dead_letter_views(letter: DeadLetter, letters: Seq<DeadLetter>, k: int)
    ensures
        letter@.reason == letter.reason@,
        letter@.detail == letter.detail@,
        letter@.source_plugin == letter.source_plugin@,
        letter@.batch_id == letter.batch_id,
        letter@.event_id == letter.event_id@,
        letter@.event == letter.event@,
        letter_models(letters).len() == letters.len(),
        0 <= k < letters.len() ==> letter_models(letters)[k] == letters[k]@,
{
}

} // verus!
