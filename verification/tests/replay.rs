use plugin_statistics::config::{Config, ConfigVars};
use plugin_statistics::dedupe::DedupeCache;
use plugin_statistics::event::StatsEvent;
use plugin_statistics::ingest::{prepare_event, IntakeTimes};
use plugin_statistics::journal::{
    append_pending, load_replay_state, JournalLine, JournalPendingEvent, JournalReplayState,
};
use plugin_statistics::queue::QueueState;
use plugin_statistics::replay::{replay_pending_journal, replay_pending_journal_at};
use plugin_statistics::stats::ServiceStats;

fn limited(queue_limit: &str) -> Config {
    Config::from_env(ConfigVars {
        bind: None,
        db_driver: None,
        db_host: None,
        db_port: None,
        db_name: None,
        db_user: None,
        db_pass: None,
        flush_interval_ms: None,
        max_batch_rows: None,
        queue_limit: Some(queue_limit.to_string()),
        require_localhost: None,
        max_frame_bytes: None,
        max_inbound_events: None,
        dedupe_events: None,
        pending_journal_compact_bytes: None,
        debug: None,
        auth_token: None,
    })
}

fn pending(id: &str) -> JournalPendingEvent {
    JournalPendingEvent {
        event_id: id.to_string(),
        source_plugin: "plugin".to_string(),
        event: StatsEvent {
            event_id: Some(id.to_string()),
            host_port: 27015,
            ..StatsEvent::default()
        },
        batch_id: Some(4),
        ts_ms: 99,
    }
}

fn state(pending: Vec<JournalPendingEvent>) -> JournalReplayState {
    JournalReplayState {
        pending,
        recent_done: Vec::new(),
        done_records: 6,
        bad_lines: 7,
    }
}

#[test]
fn pending_events_are_queued_again() {
    let mut dedupe = DedupeCache::new(10);
    dedupe.remember("b");
    let mut queue = QueueState::new();
    let mut stats = ServiceStats::new();
    let outcome = replay_pending_journal_at(
        &mut queue,
        &limited("2"),
        &dedupe,
        state(vec![pending("a"), pending("b"), pending("c"), pending("d")]),
        &vec![1, 2, 3, 4],
        &mut stats,
    );
    assert_eq!(outcome.replayed, 2);
    let ids: Vec<&str> = queue.events.iter().map(|i| i.event_id.as_deref().unwrap()).collect();
    assert_eq!(ids, ["a", "c"]);
    let first = &queue.events[0];
    assert_eq!(first.event.server_id, "legacy:27015");
    assert_eq!(first.event.source_plugin, "plugin");
    assert_eq!(first.source_plugin, "plugin");
    assert_eq!(first.event.occurred_at, 1);
    assert_eq!(first.batch_id, Some(4));
    assert_eq!(first.enqueued_at_ms, 99);
    assert_eq!(first.completion, None);
    assert_eq!(queue.events[1].event.occurred_at, 3);

    assert_eq!(outcome.dead_letters.len(), 1);
    let letter = &outcome.dead_letters[0];
    assert_eq!(letter.reason, "journal_replay_queue_full");
    assert_eq!(letter.detail, "queue full during startup replay");
    assert_eq!(letter.event_id, "d");
    assert_eq!(letter.batch_id, Some(4));
    assert_eq!(letter.source_plugin, "plugin");
    assert_eq!(letter.event.occurred_at, 4);
    assert_eq!(
        stats,
        ServiceStats {
            journal_compactions: 1,
            journal_pending_startup: 4,
            journal_done_records_startup: 6,
            journal_bad_lines_startup: 7,
            journal_replayed_startup: 2,
            dropped_events: 1,
            ..ServiceStats::new()
        }
    );
}

#[test]
fn an_empty_journal_changes_only_counters() {
    let mut queue = QueueState::new();
    let mut stats = ServiceStats::new();
    let dedupe = DedupeCache::new(10);
    let outcome =
        replay_pending_journal(&mut queue, &limited("2"), &dedupe, state(Vec::new()), &mut stats);
    assert_eq!(outcome.replayed, 0);
    assert!(queue.events.is_empty() && outcome.dead_letters.is_empty());
    assert_eq!(stats.journal_compactions, 1);
    assert_eq!(stats.journal_replayed_startup, 0);
}

#[test]
fn a_journalled_event_comes_back_as_it_was_queued() {
    let event = StatsEvent {
        message: "winner=2".to_string(),
        event_name: "round_win".to_string(),
        host_port: 27015,
        ..StatsEvent::default()
    };
    let times = IntakeTimes {
        now: 1_786_400_000,
        id_ms: 1_786_400_000_123,
        queued_ms: 1_786_400_000_124,
    };
    let table = Some("rounds_statistics_events".to_string());
    let item = prepare_event(event, Some(8), &table, "srv", "Server", times, 0);
    let record = append_pending(&item, 1_786_400_000_125).unwrap();
    let mut dedupe = DedupeCache::new(10);
    let replay = load_replay_state(vec![JournalLine::Record(record)], &mut dedupe);
    let mut queue = QueueState::new();
    let mut stats = ServiceStats::new();
    replay_pending_journal(&mut queue, &limited("2"), &dedupe, replay, &mut stats);
    let back = &queue.events[0];
    assert_eq!(format!("{:?}", back.event), format!("{:?}", item.event));
    assert_eq!(back.event_id, item.event_id);
    assert_eq!(back.source_plugin, item.source_plugin);
    assert_eq!(back.batch_id, item.batch_id);
    assert_eq!(back.enqueued_at_ms, 1_786_400_000_125);
}
