use plugin_statistics::config::{Config, ConfigVars};
use plugin_statistics::event::StatsEvent;
use plugin_statistics::queue::{
    queue_depth, queue_depth_and_dropped, requeue_front, take_batch, QueueState, QueuedEvent,
};

fn item(id: &str) -> QueuedEvent {
    QueuedEvent {
        source_plugin: "plugin".to_string(),
        event: StatsEvent::default(),
        event_id: Some(id.to_string()),
        batch_id: None,
        enqueued_at_ms: 0,
        completion: None,
    }
}

fn ids<'a>(items: impl IntoIterator<Item = &'a QueuedEvent>) -> Vec<&'a str> {
    items
        .into_iter()
        .map(|item| item.event_id.as_deref().unwrap())
        .collect()
}

fn limited(queue_limit: &str) -> Config {
    Config::from_env(ConfigVars {
        bind: None,
        db_driver: None,
        db_host: None,
        db_port: None,
        db_name: None,
        db_user: None,
        db_pass: None,
        flush_interval_ms: None,
        max_batch_rows: None,
        queue_limit: Some(queue_limit.to_string()),
        require_localhost: None,
        max_frame_bytes: None,
        max_inbound_events: None,
        dedupe_events: None,
        pending_journal_compact_bytes: None,
        debug: None,
        auth_token: None,
    })
}

fn filled(names: &[&str]) -> QueueState {
    let mut queue = QueueState::new();
    for name in names {
        queue.events.push_back(item(name));
    }
    queue
}

#[test]
fn batches_come_from_the_front() {
    let mut queue = filled(&["a", "b", "c"]);
    assert_eq!(queue_depth(&queue), 3);
    assert_eq!(ids(&take_batch(&mut queue, 2)), ["a", "b"]);
    assert_eq!(ids(&queue.events), ["c"]);
    assert_eq!(ids(&take_batch(&mut queue, 2)), ["c"]);
    assert!(take_batch(&mut queue, 2).is_empty());
}

#[test]
fn a_batch_has_at_least_one_event() {
    let mut queue = filled(&["a", "b"]);
    assert_eq!(ids(&take_batch(&mut queue, 0)), ["a"]);
}

#[test]
fn a_failed_batch_returns_to_the_front() {
    let config = limited("4");
    let mut queue = filled(&["a", "b", "c"]);
    let batch = take_batch(&mut queue, 2);
    requeue_front(&mut queue, &config, batch);
    assert_eq!(ids(&queue.events), ["a", "b", "c"]);
    assert_eq!(queue_depth_and_dropped(&queue), (3, 0));
}

#[test]
fn the_newest_events_make_room() {
    let config = limited("4");
    let mut queue = filled(&["a", "b", "c"]);
    let batch = take_batch(&mut queue, 2);
    for name in ["d", "e", "f"] {
        queue.events.push_back(item(name));
    }
    requeue_front(&mut queue, &config, batch);
    assert_eq!(ids(&queue.events), ["a", "b", "c", "d"]);
    assert_eq!(queue_depth_and_dropped(&queue), (4, 2));
}
