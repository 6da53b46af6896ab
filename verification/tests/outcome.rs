use plugin_statistics::completion::{BatchCompletionSnapshot, Completions};
use plugin_statistics::database::WriterCache;
use plugin_statistics::dedupe::DedupeCache;
use plugin_statistics::event::StatsEvent;
use plugin_statistics::outcome::{
    finish_written_events, journal_compacted, oldest_age_ms, retry_delay, write_batch, BatchEnd,
    WriteOutcome,
};
use plugin_statistics::queue::QueuedEvent;
use plugin_statistics::stats::ServiceStats;

fn item(id: Option<&str>, completion: Option<u64>, enqueued_at_ms: u64) -> QueuedEvent {
    QueuedEvent {
        source_plugin: "plugin".to_string(),
        event: StatsEvent::default(),
        event_id: id.map(str::to_string),
        batch_id: None,
        enqueued_at_ms,
        completion,
    }
}

#[test]
fn written_events_are_known_and_told() {
    let mut cache = WriterCache::new();
    cache.keep_server("srv", 1);
    let mut dedupe = DedupeCache::new(10);
    let mut completions = Completions::new();
    let ticket = completions.open(2);
    let mut stats = ServiceStats::new();
    let end = write_batch(
        WriteOutcome::Written,
        vec![
            item(Some("a"), Some(ticket), 0),
            item(None, None, 0),
            item(Some("b"), Some(ticket), 0),
        ],
        &mut cache,
        &mut dedupe,
        &mut completions,
        &mut stats,
    );
    assert_eq!(end.rows, 3);
    assert!(end.failed.is_empty());
    assert!(!end.check_journal);
    assert!(dedupe.contains("a") && dedupe.contains("b"));
    assert_eq!(dedupe.len(), 2);
    assert_eq!(
        completions.wait(ticket),
        Some(BatchCompletionSnapshot {
            executed: 2,
            db_errors: 0
        })
    );
    assert_eq!(
        stats,
        ServiceStats {
            executed_events: 3,
            journal_events_since_compaction_check: 2,
            ..ServiceStats::new()
        }
    );
    assert_eq!(cache.server("srv"), Some(1));
}

#[test]
fn failed_batches_go_back() {
    for (outcome, kept) in [
        (WriteOutcome::NoConnection, Some(1)),
        (WriteOutcome::Failed, None),
    ] {
        let mut cache = WriterCache::new();
        cache.keep_server("srv", 1);
        let mut dedupe = DedupeCache::new(10);
        let mut completions = Completions::new();
        let ticket = completions.open(1);
        let mut stats = ServiceStats::new();
        let end = write_batch(
            outcome,
            vec![item(Some("a"), Some(ticket), 0), item(Some("b"), None, 0)],
            &mut cache,
            &mut dedupe,
            &mut completions,
            &mut stats,
        );
        assert_eq!(end.rows, 0);
        let ids: Vec<_> = end.failed.iter().map(|i| i.event_id.as_deref()).collect();
        assert_eq!(ids, [Some("a"), Some("b")]);
        assert!(!end.check_journal);
        assert_eq!(stats.db_errors, 2);
        assert_eq!(stats.executed_events, 0);
        assert_eq!(dedupe.len(), 0);
        assert_eq!(completions.wait(ticket), None);
        assert_eq!(cache.server("srv"), kept);
    }
}

#[test]
fn the_journal_is_checked_from_time_to_time() {
    let mut dedupe = DedupeCache::new(10);
    let mut completions = Completions::new();
    let mut stats = ServiceStats::new();
    let batch: Vec<QueuedEvent> = (0..512).map(|n| item(Some(&format!("{n}")), None, 0)).collect();
    assert!(!finish_written_events(&batch, &mut dedupe, &mut completions, &mut stats));
    assert_eq!(stats.journal_events_since_compaction_check, 512);
    assert!(finish_written_events(&batch, &mut dedupe, &mut completions, &mut stats));
    assert_eq!(stats.journal_events_since_compaction_check, 0);

    stats.journal_events_since_compaction_check = 1023;
    let unnamed = vec![item(None, None, 0)];
    assert!(!finish_written_events(&unnamed, &mut dedupe, &mut completions, &mut stats));
    assert_eq!(stats.journal_events_since_compaction_check, 1023);
    let named = vec![item(Some("x"), None, 0)];
    assert!(finish_written_events(&named, &mut dedupe, &mut completions, &mut stats));
    assert_eq!(stats.executed_events, 1026);

    journal_compacted(&mut stats);
    assert_eq!(stats.journal_compactions, 1);
}

#[test]
fn the_oldest_event_is_found() {
    let items = vec![item(None, None, 70), item(None, None, 40), item(None, None, 200)];
    assert_eq!(oldest_age_ms(&items, &vec![100, 100, 100]), 60);
    assert_eq!(oldest_age_ms(&items, &vec![10, 10, 10]), 0);
    assert_eq!(oldest_age_ms(&Vec::new(), &Vec::new()), 0);
    assert_eq!(oldest_age_ms(&items, &vec![150, 50, 210]), 80);
}

#[test]
fn counters_start_again_at_zero() {
    let mut stats = ServiceStats::new();
    stats.journal_compactions = u64::MAX;
    journal_compacted(&mut stats);
    assert_eq!(stats.journal_compactions, 0);
}

#[test]
fn every_written_event_is_told_to_its_sender() {
    let mut dedupe = DedupeCache::new(10);
    let mut completions = Completions::new();
    let ticket = completions.open(1);
    let mut stats = ServiceStats::new();
    let batch = vec![item(Some("a"), Some(ticket), 0), item(Some("b"), Some(ticket), 0)];
    finish_written_events(&batch, &mut dedupe, &mut completions, &mut stats);
    assert_eq!(
        completions.wait(ticket),
        Some(BatchCompletionSnapshot {
            executed: 2,
            db_errors: 0
        })
    );
}

#[test]
fn the_writer_waits_after_a_failure() {
    let failed = BatchEnd {
        rows: 0,
        failed: vec![item(Some("a"), None, 0)],
        check_journal: false,
    };
    assert_eq!(retry_delay(&failed), Some(2));
    let written = BatchEnd {
        rows: 1,
        failed: Vec::new(),
        check_journal: false,
    };
    assert_eq!(retry_delay(&written), None);
}
