use plugin_statistics::completion::Completions;
use plugin_statistics::config::{Config, ConfigVars};
use plugin_statistics::dedupe::DedupeCache;
use plugin_statistics::event::StatsEvent;
use plugin_statistics::ingest::{
    admit_events, enqueue_events, prepare_event, prepare_events, prepare_events_at, EnqueueResult,
    IntakeTimes,
};
use plugin_statistics::queue::QueueState;
use plugin_statistics::stats::ServiceStats;

fn limited(queue_limit: &str) -> Config {
    Config::from_env(ConfigVars {
        bind: None,
        db_driver: None,
        db_host: None,
        db_port: None,
        db_name: None,
        db_user: None,
        db_pass: None,
        flush_interval_ms: None,
        max_batch_rows: None,
        queue_limit: Some(queue_limit.to_string()),
        require_localhost: None,
        max_frame_bytes: None,
        max_inbound_events: None,
        dedupe_events: None,
        pending_journal_compact_bytes: None,
        debug: None,
        auth_token: None,
    })
}

fn named(id: &str) -> StatsEvent {
    StatsEvent {
        event_id: Some(id.to_string()),
        occurred_at: 10,
        ..StatsEvent::default()
    }
}

const TIMES: IntakeTimes = IntakeTimes {
    now: 100,
    id_ms: 123_456,
    queued_ms: 123_457,
};

#[test]
fn an_event_is_completed_from_its_connection() {
    let event = StatsEvent {
        host_port: 27015,
        ..StatsEvent::default()
    };
    let table = Some("rounds_statistics_events".to_string());
    let item = prepare_event(event, Some(9), &table, "srv 1", "My Server", TIMES, 4);
    assert_eq!(item.event.server_id, "srv_1");
    assert_eq!(item.event.server_name, "My Server");
    assert_eq!(item.source_plugin, "rounds");
    assert_eq!(item.event.source_plugin, "rounds");
    assert_eq!(item.event.table, "");
    assert_eq!(item.event.occurred_at, 100);
    assert_eq!(item.event_id.as_deref(), Some("rust-27015-123456-4"));
    assert_eq!(item.event.event_id, item.event_id);
    assert_eq!(item.batch_id, Some(9));
    assert_eq!(item.enqueued_at_ms, 123_457);
    assert_eq!(item.completion, None);
}

#[test]
fn an_event_keeps_what_it_brings() {
    let event = StatsEvent {
        table: "own_statistics_events".to_string(),
        server_id: "a/b".to_string(),
        server_name: "Name".to_string(),
        event_id: Some(" x y ".to_string()),
        occurred_at: 7,
        ..StatsEvent::default()
    };
    let table = Some("other".to_string());
    let item = prepare_event(event, None, &table, "srv", "Srv", TIMES, 0);
    assert_eq!(item.event.server_id, "a_b");
    assert_eq!(item.event.server_name, "Name");
    assert_eq!(item.source_plugin, "own");
    assert_eq!(item.event_id.as_deref(), Some("xy"));
    assert_eq!(item.event.occurred_at, 7);

    let bare = prepare_event(StatsEvent::default(), None, &None, "", "", TIMES, 0);
    assert_eq!(bare.event.server_id, "unknown");
    assert_eq!(bare.source_plugin, "unknown");

    let plugin = StatsEvent {
        source_plugin: "my plugin".to_string(),
        ..StatsEvent::default()
    };
    let item = prepare_event(plugin, None, &table, "", "", TIMES, 0);
    assert_eq!(item.source_plugin, "my_plugin");
}

#[test]
fn written_events_are_left_out() {
    let mut dedupe = DedupeCache::new(10);
    dedupe.remember("b");
    let mut stats = ServiceStats::new();
    let events = vec![named("a"), named("b"), StatsEvent::default(), named("a")];
    let times = vec![TIMES, TIMES, TIMES, TIMES];
    let items = prepare_events_at(Some(1), None, events, "s", "S", &dedupe, &times, &mut stats);
    let ids: Vec<&str> = items.iter().map(|i| i.event_id.as_deref().unwrap()).collect();
    assert_eq!(ids, ["a", "rust-0-123456-1", "a"]);
    assert_eq!(stats.dropped_events, 1);
}

#[test]
fn the_clock_names_and_dates_events() {
    let dedupe = DedupeCache::new(10);
    let mut stats = ServiceStats::new();
    let events = vec![StatsEvent::default(), named("b")];
    let items = prepare_events(None, None, events, "s", "S", &dedupe, &mut stats);
    assert_eq!(items.len(), 2);
    assert!(items[0].event.occurred_at > 1_600_000_000);
    assert!(items[0].event_id.as_deref().unwrap().starts_with("rust-0-1"));
    assert!(items[0].event_id.as_deref().unwrap().ends_with("-0"));
    assert_eq!(items[1].event.occurred_at, 10);
    assert!(items[1].enqueued_at_ms > 1_600_000_000_000);
    assert_eq!(stats, ServiceStats::new());
}

#[test]
fn a_batch_is_taken_in_as_a_whole() {
    let config = limited("3");
    let dedupe = DedupeCache::new(10);
    let mut queue = QueueState::new();
    let mut completions = Completions::new();
    let mut stats = ServiceStats::new();

    let items = prepare_events(
        Some(1),
        None,
        vec![named("a"), named("b")],
        "s",
        "S",
        &dedupe,
        &mut stats,
    );
    assert!(admit_events(&queue, &config, &items, &mut stats).is_ok());
    let result =
        enqueue_events(&mut queue, &config, items, true, &mut completions, &mut stats).unwrap();
    assert_eq!(
        result,
        EnqueueResult {
            accepted: 2,
            completion: Some(0)
        }
    );
    assert_eq!(stats.accepted_events, 2);
    assert_eq!(queue.events.len(), 2);
    assert!(queue.events.iter().all(|item| item.completion == Some(0)));
    assert_eq!(completions.wait(0), None);

    let items = prepare_events(
        Some(2),
        None,
        vec![named("c"), named("d")],
        "s",
        "S",
        &dedupe,
        &mut stats,
    );
    let error = admit_events(&queue, &config, &items, &mut stats).unwrap_err();
    assert_eq!(error.message, "queue full");
    assert_eq!((error.queued, error.incoming, error.limit), (2, 2, 3));
    assert_eq!(stats.dropped_events, 2);
    assert_eq!(queue.events.len(), 2);
}

#[test]
fn an_unjournalled_batch_is_refused() {
    let config = limited("3");
    let dedupe = DedupeCache::new(10);
    let mut queue = QueueState::new();
    let mut completions = Completions::new();
    let mut stats = ServiceStats::new();
    let items = prepare_events(None, None, vec![named("a")], "s", "S", &dedupe, &mut stats);
    let error = enqueue_events(&mut queue, &config, items, false, &mut completions, &mut stats)
        .unwrap_err();
    assert_eq!(error.message, "journal write failed");
    assert_eq!((error.queued, error.incoming, error.limit), (0, 1, 3));
    assert_eq!(stats.dropped_events, 1);
    assert_eq!(stats.accepted_events, 0);
    assert!(queue.events.is_empty());
    assert_eq!(completions.next_ticket(), 0);
}

#[test]
fn an_empty_batch_is_always_taken_in() {
    let config = limited("1");
    let mut queue = QueueState::new();
    queue.events.push_back(prepare_event(named("x"), None, &None, "s", "S", TIMES, 0));
    let mut completions = Completions::new();
    let mut stats = ServiceStats::new();
    assert!(admit_events(&queue, &config, &Vec::new(), &mut stats).is_ok());
    let result = enqueue_events(
        &mut queue,
        &config,
        Vec::new(),
        true,
        &mut completions,
        &mut stats,
    )
    .unwrap();
    assert_eq!(
        result,
        EnqueueResult {
            accepted: 0,
            completion: None
        }
    );
    assert_eq!(stats, ServiceStats::new());
}
