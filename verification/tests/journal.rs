use plugin_statistics::dedupe::DedupeCache;
use plugin_statistics::event::StatsEvent;
use plugin_statistics::ingest::{prepare_event, IntakeTimes};
use plugin_statistics::journal::{
    append_done, append_pending, compact_path, compact_records, compaction_due, done_records,
    journal_line, load_replay_state, pending_records, JournalLine, JournalReplayState,
    PendingJournalRecord,
};
use plugin_statistics::queue::QueuedEvent;

fn pending(id: &str, ts_ms: u64) -> JournalLine {
    JournalLine::Record(PendingJournalRecord::Pending {
        event_id: id.to_string(),
        source_plugin: "plugin".to_string(),
        event: StatsEvent {
            event_id: Some("other".to_string()),
            message: format!("{id}@{ts_ms}"),
            ..StatsEvent::default()
        },
        batch_id: Some(ts_ms),
        ts_ms,
    })
}

fn done(id: &str) -> JournalLine {
    JournalLine::Record(PendingJournalRecord::Done {
        event_id: id.to_string(),
        ts_ms: 1,
    })
}

fn pending_ids(state: &JournalReplayState) -> Vec<&str> {
    state.pending.iter().map(|p| p.event_id.as_str()).collect()
}

#[test]
fn unfinished_events_come_back_in_order() {
    let mut dedupe = DedupeCache::new(10);
    let state = load_replay_state(
        vec![
            pending("c", 5),
            pending("a", 7),
            JournalLine::Blank,
            pending("b", 5),
            pending("d", 1),
            done("d"),
            JournalLine::Malformed,
            JournalLine::Unreadable,
            pending("e", 9),
            done("never"),
        ],
        &mut dedupe,
    );
    assert_eq!(pending_ids(&state), ["b", "c", "a", "e"]);
    assert_eq!(state.recent_done, ["d", "never"]);
    assert_eq!(state.done_records, 2);
    assert_eq!(state.bad_lines, 2);
    assert!(dedupe.contains("d") && dedupe.contains("never"));
    assert!(!dedupe.contains("a"));
    let first = &state.pending[0];
    assert_eq!(first.event.event_id.as_deref(), Some("b"));
    assert_eq!(first.event.message, "b@5");
    assert_eq!(first.source_plugin, "plugin");
    assert_eq!(first.batch_id, Some(5));
    assert_eq!(first.ts_ms, 5);
}

#[test]
fn a_later_record_replaces_an_earlier_one() {
    let mut dedupe = DedupeCache::new(10);
    let state = load_replay_state(
        vec![pending("a", 5), pending("b", 6), pending("a", 8)],
        &mut dedupe,
    );
    assert_eq!(pending_ids(&state), ["b", "a"]);
    assert_eq!(state.pending[1].event.message, "a@8");

    let state = load_replay_state(vec![done("x"), pending("x", 2)], &mut dedupe);
    assert_eq!(pending_ids(&state), ["x"]);
    assert_eq!(state.recent_done, ["x"]);
}

#[test]
fn many_events_are_sorted() {
    let mut dedupe = DedupeCache::new(10);
    let lines = (0..200).map(|n| pending(&format!("{n:03}"), (n * 37) % 50)).collect();
    let state = load_replay_state(lines, &mut dedupe);
    assert_eq!(state.pending.len(), 200);
    for pair in state.pending.windows(2) {
        assert!((pair[0].ts_ms, &pair[0].event_id) < (pair[1].ts_ms, &pair[1].event_id));
    }
}

#[test]
fn only_the_last_done_identifiers_are_kept() {
    let mut dedupe = DedupeCache::new(2);
    let state = load_replay_state(vec![done("a"), done("b"), done("c")], &mut dedupe);
    assert_eq!(state.recent_done, ["b", "c"]);
    assert_eq!(state.done_records, 3);
    assert!(!dedupe.contains("a"));
    assert!(dedupe.contains("b") && dedupe.contains("c"));

    let mut none = DedupeCache::new(0);
    let state = load_replay_state(vec![done("a")], &mut none);
    assert!(state.recent_done.is_empty());
    assert_eq!(state.done_records, 1);
}

#[test]
fn compaction_keeps_what_matters() {
    let mut dedupe = DedupeCache::new(2);
    let state = load_replay_state(
        vec![
            pending("a", 5),
            pending("b", 3),
            pending("c", 4),
            done("c"),
            done("x"),
            done("y"),
            JournalLine::Malformed,
        ],
        &mut dedupe,
    );
    let records = compact_records(&state, &vec![76, 77]);
    assert_eq!(records.len(), 4);
    assert!(matches!(
        &records[3],
        PendingJournalRecord::Done { event_id, ts_ms: 77 } if event_id == "y"
    ));
    let again = load_replay_state(
        records.into_iter().map(JournalLine::Record).collect(),
        &mut DedupeCache::new(2),
    );
    assert_eq!(format!("{:?}", again.pending), format!("{:?}", state.pending));
    assert_eq!(again.recent_done, state.recent_done);
    assert_eq!(again.recent_done, ["x", "y"]);
    assert_eq!(again.bad_lines, 0);
}

#[test]
fn an_item_leaves_two_records() {
    let event = StatsEvent {
        event_id: Some("id".to_string()),
        ..StatsEvent::default()
    };
    let times = IntakeTimes {
        now: 5,
        id_ms: 6,
        queued_ms: 7,
    };
    let item = prepare_event(event, Some(3), &None, "s", "S", times, 0);
    match append_pending(&item, 11) {
        Some(PendingJournalRecord::Pending {
            event_id,
            source_plugin,
            event,
            batch_id,
            ts_ms,
        }) => {
            assert_eq!(event_id, "id");
            assert_eq!(source_plugin, item.source_plugin);
            assert_eq!(format!("{event:?}"), format!("{:?}", item.event));
            assert_eq!(batch_id, Some(3));
            assert_eq!(ts_ms, 11);
        }
        other => panic!("{other:?}"),
    }
    match append_done(&item, 12) {
        Some(PendingJournalRecord::Done { event_id, ts_ms }) => {
            assert_eq!(event_id, "id");
            assert_eq!(ts_ms, 12);
        }
        other => panic!("{other:?}"),
    }
    let nameless = QueuedEvent {
        event_id: None,
        ..item
    };
    assert!(append_pending(&nameless, 1).is_none());
    assert!(append_done(&nameless, 1).is_none());
}

#[test]
fn compaction_waits_for_a_size() {
    assert!(!compaction_due(0, u64::MAX));
    assert!(!compaction_due(10, 9));
    assert!(compaction_due(10, 10));
    assert_eq!(compact_path("/tmp/j.log", 17), "/tmp/j.log.compact.17");
}

#[test]
fn compaction_settles_events_that_are_kept_as_done() {
    let mut dedupe = DedupeCache::new(2);
    let state = load_replay_state(
        vec![done("x"), pending("x", 2), pending("a", 3)],
        &mut dedupe,
    );
    assert_eq!(pending_ids(&state), ["x", "a"]);
    let again = load_replay_state(
        compact_records(&state, &vec![5])
            .into_iter()
            .map(JournalLine::Record)
            .collect(),
        &mut DedupeCache::new(2),
    );
    assert_eq!(pending_ids(&again), ["a"]);
    assert_eq!(again.recent_done, ["x"]);
}

#[test]
fn a_batch_leaves_its_records_in_order() {
    let times = IntakeTimes {
        now: 5,
        id_ms: 6,
        queued_ms: 7,
    };
    let item = |id: &str| {
        let event = StatsEvent {
            event_id: Some(id.to_string()),
            ..StatsEvent::default()
        };
        prepare_event(event, Some(3), &None, "s", "S", times, 0)
    };
    let nameless = QueuedEvent {
        event_id: None,
        ..item("x")
    };
    let items = vec![item("b"), nameless, item("a")];
    let pending = pending_records(&items, &vec![11, 12, 13]);
    assert_eq!(pending.len(), 2);
    for (record, (item, ts_ms)) in pending.iter().zip([(&items[0], 11), (&items[2], 13)]) {
        let expected = append_pending(item, ts_ms).unwrap();
        assert_eq!(format!("{record:?}"), format!("{expected:?}"));
    }
    let done = done_records(&items, &vec![21, 22, 23]);
    assert_eq!(done.len(), 2);
    for (record, (item, ts_ms)) in done.iter().zip([(&items[0], 21), (&items[2], 23)]) {
        let expected = append_done(item, ts_ms).unwrap();
        assert_eq!(format!("{record:?}"), format!("{expected:?}"));
    }

    let mut lines: Vec<JournalLine> = pending.into_iter().map(JournalLine::Record).collect();
    let state = load_replay_state(lines, &mut DedupeCache::new(10));
    assert_eq!(pending_ids(&state), ["b", "a"]);
    let same = pending_records(&items, &vec![11, 11, 11]);
    let state = load_replay_state(
        same.into_iter().map(JournalLine::Record).collect(),
        &mut DedupeCache::new(10),
    );
    assert_eq!(pending_ids(&state), ["a", "b"]);
    lines = pending_records(&items, &vec![11, 12, 13])
        .into_iter()
        .map(JournalLine::Record)
        .collect();
    lines.extend(done.into_iter().map(JournalLine::Record));
    let state = load_replay_state(lines, &mut DedupeCache::new(10));
    assert!(state.pending.is_empty());
    assert_eq!(state.recent_done, ["b", "a"]);
}

#[test]
fn a_line_is_unreadable_blank_malformed_or_a_record() {
    let record = || {
        Some(PendingJournalRecord::Done {
            event_id: "a".to_string(),
            ts_ms: 1,
        })
    };
    assert!(matches!(journal_line(None, None), JournalLine::Unreadable));
    assert!(matches!(journal_line(None, record()), JournalLine::Unreadable));
    assert!(matches!(journal_line(Some(""), None), JournalLine::Blank));
    assert!(matches!(journal_line(Some(" \t"), None), JournalLine::Blank));
    assert!(matches!(journal_line(Some("{"), None), JournalLine::Malformed));
    assert!(matches!(
        journal_line(Some("{}"), record()),
        JournalLine::Record(PendingJournalRecord::Done { event_id, ts_ms: 1 }) if event_id == "a"
    ));
}
