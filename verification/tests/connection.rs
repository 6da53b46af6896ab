use plugin_statistics::completion::BatchCompletionSnapshot;
use plugin_statistics::config::{Config, ConfigVars, PeerIp};
use plugin_statistics::connection::{
    batch_acknowledged, batch_refused, handle_bad_message, handle_frame, handle_message,
    health_report, reject_peer, Connection, FrameAction, IncomingMessage, MessageAction, Response,
};
use plugin_statistics::dedupe::DedupeCache;
use plugin_statistics::event::StatsEvent;
use plugin_statistics::frame::FrameRead;
use plugin_statistics::ingest::{EnqueueError, EnqueueResult};
use plugin_statistics::queue::{QueueState, QueuedEvent};
use plugin_statistics::stats::ServiceStats;

fn config(auth_token: &str, max_inbound_events: &str) -> Config {
    Config::from_env(ConfigVars {
        bind: None,
        db_driver: None,
        db_host: None,
        db_port: None,
        db_name: None,
        db_user: None,
        db_pass: None,
        flush_interval_ms: None,
        max_batch_rows: None,
        queue_limit: None,
        require_localhost: None,
        max_frame_bytes: None,
        max_inbound_events: Some(max_inbound_events.to_string()),
        dedupe_events: None,
        pending_journal_compact_bytes: None,
        debug: None,
        auth_token: Some(auth_token.to_string()),
    })
}

fn hello(auth: Option<&str>) -> IncomingMessage {
    IncomingMessage::Hello {
        service: None,
        proto: None,
        server_id: Some(" my server ".to_string()),
        server_name: Some("n".repeat(300)),
        auth: auth.map(str::to_string),
        ts: None,
    }
}

fn batch(n: usize) -> IncomingMessage {
    IncomingMessage::StatsBatch {
        batch_id: Some(5),
        table: Some("t".to_string()),
        sent_at: Some(6),
        events: (0..n).map(|_| StatsEvent::default()).collect(),
    }
}

fn refused(response: &Response, batch: Option<u64>, text: &str, now: u64) -> bool {
    matches!(
        response,
        Response::Error { batch_id, message, ts }
            if *batch_id == batch && *message == text && *ts == now
    )
}

#[test]
fn only_this_machine_is_let_in() {
    let mut config = config("", "10");
    assert!(reject_peer(&config, PeerIp::V4([127, 0, 0, 1]), 3).is_none());
    let response = reject_peer(&config, PeerIp::V4([10, 0, 0, 1]), 3).unwrap();
    assert!(refused(&response, None, "only loopback clients are accepted", 3));
    config.require_localhost = false;
    assert!(reject_peer(&config, PeerIp::V4([10, 0, 0, 1]), 3).is_none());
}

#[test]
fn frames_are_read_refused_or_skipped() {
    let mut stats = ServiceStats::new();
    assert!(matches!(
        handle_frame(FrameRead::Eof, &Vec::new(), 1, &mut stats),
        FrameAction::Close
    ));
    assert!(matches!(
        handle_frame(FrameRead::Line, &Vec::new(), 1, &mut stats),
        FrameAction::Skip
    ));
    match handle_frame(FrameRead::Line, &"zażółć".as_bytes().to_vec(), 1, &mut stats) {
        FrameAction::Read(text) => assert_eq!(text, "zażółć"),
        other => panic!("{other:?}"),
    }
    assert_eq!(stats.parse_errors, 0);
    match handle_frame(FrameRead::TooLong, &Vec::new(), 1, &mut stats) {
        FrameAction::Reply(r) => assert!(refused(&r, None, "frame too large", 1)),
        other => panic!("{other:?}"),
    }
    assert_eq!(stats.parse_errors, 1);
    match handle_frame(FrameRead::Line, &vec![0xff], 2, &mut stats) {
        FrameAction::Reply(r) => assert!(refused(&r, None, "invalid utf8", 2)),
        other => panic!("{other:?}"),
    }
    assert_eq!(stats.parse_errors, 2);
    let r = handle_bad_message(4, &mut stats);
    assert!(refused(&r, None, "invalid json message", 4));
    assert_eq!(stats.parse_errors, 3);
}

#[test]
fn a_greeting_is_acknowledged() {
    let config = config("", "10");
    let mut client = Connection::new();
    let mut stats = ServiceStats::new();
    match handle_message(&mut client, &config, hello(None), 42, 43, &mut stats) {
        MessageAction::Reply(Response::HelloAck {
            service,
            proto,
            server_id,
            ts,
            server_time,
        }) => {
            assert_eq!(service, "unknown");
            assert_eq!(proto, 1);
            assert_eq!(server_id, "my_server");
            assert_eq!(ts, 42);
            assert_eq!(server_time, 43);
        }
        other => panic!("{other:?}"),
    }
    assert!(client.authenticated);
    assert_eq!(client.server_id, "my_server");
    assert_eq!(client.server_name, "n".repeat(255));
    assert_eq!(stats.parse_errors, 0);

    let full = IncomingMessage::Hello {
        service: Some("sm".to_string()),
        proto: Some(3),
        server_id: None,
        server_name: None,
        auth: None,
        ts: Some(9),
    };
    match handle_message(&mut client, &config, full, 43, 44, &mut stats) {
        MessageAction::Reply(Response::HelloAck {
            service,
            proto,
            server_id,
            ts,
            server_time,
        }) => {
            assert_eq!(service, "sm");
            assert_eq!(proto, 3);
            assert_eq!(server_id, "unknown");
            assert_eq!(ts, 9);
            assert_eq!(server_time, 44);
        }
        other => panic!("{other:?}"),
    }
    assert_eq!(client.server_name, "");
}

#[test]
fn a_wrong_token_closes_the_connection() {
    let config = config("token", "10");
    let mut client = Connection::new();
    let mut stats = ServiceStats::new();
    for auth in [None, Some("wrong")] {
        match handle_message(&mut client, &config, hello(auth), 1, 2, &mut stats) {
            MessageAction::ReplyAndClose(r) => assert!(refused(&r, None, "unauthorized", 1)),
            other => panic!("{other:?}"),
        }
        assert!(!client.authenticated);
    }
    assert_eq!(stats.parse_errors, 2);
    handle_message(&mut client, &config, hello(Some("token")), 1, 2, &mut stats);
    assert!(client.authenticated);
}

#[test]
fn strangers_are_refused() {
    let config = config("", "10");
    let mut client = Connection::new();
    let mut stats = ServiceStats::new();
    match handle_message(&mut client, &config, batch(1), 1, 2, &mut stats) {
        MessageAction::Reply(r) => assert!(refused(&r, Some(5), "hello required", 1)),
        other => panic!("{other:?}"),
    }
    assert_eq!(stats.parse_errors, 1);
    match handle_message(&mut client, &config, IncomingMessage::Health, 1, 2, &mut stats) {
        MessageAction::Reply(r) => assert!(refused(&r, None, "hello required", 1)),
        other => panic!("{other:?}"),
    }
    assert_eq!(stats.parse_errors, 1);
}

#[test]
fn batches_of_known_clients_are_taken_in() {
    let config = config("", "2");
    let mut client = Connection::new();
    let mut stats = ServiceStats::new();
    handle_message(&mut client, &config, hello(None), 1, 2, &mut stats);
    match handle_message(&mut client, &config, batch(2), 1, 2, &mut stats) {
        MessageAction::TakeIn {
            batch_id,
            table,
            sent_at,
            events,
        } => {
            assert_eq!(batch_id, Some(5));
            assert_eq!(table.as_deref(), Some("t"));
            assert_eq!(sent_at, Some(6));
            assert_eq!(events.len(), 2);
        }
        other => panic!("{other:?}"),
    }
    match handle_message(&mut client, &config, batch(3), 1, 2, &mut stats) {
        MessageAction::Reply(r) => assert!(refused(&r, Some(5), "too many events", 1)),
        other => panic!("{other:?}"),
    }
    assert_eq!(stats.parse_errors, 1);
    assert!(matches!(
        handle_message(&mut client, &config, IncomingMessage::Health, 1, 2, &mut stats),
        MessageAction::ReportHealth
    ));
}

#[test]
fn raw_statements_are_refused() {
    let config = config("", "2");
    let mut client = Connection::new();
    let mut stats = ServiceStats::new();
    for _ in 0..2 {
        let message = IncomingMessage::SqlBatch { batch_id: Some(8) };
        match handle_message(&mut client, &config, message, 1, 2, &mut stats) {
            MessageAction::Reply(r) => assert!(refused(
                &r,
                Some(8),
                "raw sql_batch is intentionally unsupported; send stats_batch events",
                1
            )),
            other => panic!("{other:?}"),
        }
        handle_message(&mut client, &config, hello(None), 1, 2, &mut stats);
    }
    assert_eq!(stats.parse_errors, 0);
}

#[test]
fn batches_are_answered() {
    let error = EnqueueError {
        message: "queue full",
        queued: 1,
        incoming: 2,
        limit: 3,
    };
    assert!(refused(&batch_refused(Some(1), &error, 9), Some(1), "queue full", 9));
    let result = EnqueueResult {
        accepted: 4,
        completion: Some(0),
    };
    let ended = Some(BatchCompletionSnapshot {
        executed: 3,
        db_errors: 1,
    });
    assert!(matches!(
        batch_acknowledged(Some(1), result, ended, 7, Some(11), 9),
        Response::Ack {
            batch_id: Some(1),
            accepted: 4,
            executed: 3,
            db_errors: 1,
            queue_depth: 7,
            sent_at: 11,
            ts: 9,
        }
    ));
    let nothing = EnqueueResult {
        accepted: 0,
        completion: None,
    };
    assert!(matches!(
        batch_acknowledged(None, nothing, None, 7, None, 9),
        Response::Ack {
            batch_id: None,
            accepted: 0,
            executed: 0,
            db_errors: 0,
            queue_depth: 7,
            sent_at: 0,
            ts: 9,
        }
    ));
}

#[test]
fn health_tells_the_counters() {
    let mut queue = QueueState::new();
    queue.dropped = 3;
    queue.events.push_back(QueuedEvent {
        source_plugin: String::new(),
        event: StatsEvent::default(),
        event_id: None,
        batch_id: None,
        enqueued_at_ms: 0,
        completion: None,
    });
    let mut dedupe = DedupeCache::new(10);
    dedupe.remember("a");
    dedupe.remember("b");
    let counters = ServiceStats {
        accepted_events: 1,
        executed_events: 2,
        parse_errors: 4,
        ..ServiceStats::new()
    };
    match health_report(&queue, &dedupe, &counters, 12) {
        Response::Health {
            queue_depth,
            queue_dropped,
            dedupe_events,
            stats,
            ts,
        } => {
            assert_eq!(queue_depth, 1);
            assert_eq!(queue_dropped, 3);
            assert_eq!(dedupe_events, 2);
            assert_eq!(stats, counters);
            assert_eq!(ts, 12);
        }
        other => panic!("{other:?}"),
    }
}
