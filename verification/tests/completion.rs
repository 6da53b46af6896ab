use plugin_statistics::completion::{BatchCompletion, BatchCompletionSnapshot, Completions};

#[test]
fn a_batch_ends_with_its_last_event() {
    let mut batch = BatchCompletion::new(3);
    assert_eq!(batch.wait(), None);
    batch.finish(true);
    batch.finish(false);
    assert_eq!(batch.wait(), None);
    batch.finish(true);
    assert_eq!(
        batch.wait(),
        Some(BatchCompletionSnapshot {
            executed: 2,
            db_errors: 1
        })
    );
}

#[test]
fn an_empty_batch_has_ended() {
    assert_eq!(
        BatchCompletion::new(0).wait(),
        Some(BatchCompletionSnapshot {
            executed: 0,
            db_errors: 0
        })
    );
}

#[test]
fn tickets_keep_batches_apart() {
    let mut completions = Completions::new();
    assert_eq!(completions.next_ticket(), 0);
    let first = completions.open(2);
    let second = completions.open(1);
    assert_ne!(first, second);
    assert!(!completions.finish(first, true));
    assert_eq!(completions.wait(first), None);
    assert!(completions.finish(second, false));
    assert!(completions.finish(first, true));
    assert_eq!(
        completions.wait(first),
        Some(BatchCompletionSnapshot {
            executed: 2,
            db_errors: 0
        })
    );
    assert_eq!(
        completions.wait(second),
        Some(BatchCompletionSnapshot {
            executed: 0,
            db_errors: 1
        })
    );
    assert_eq!(completions.wait(first), None);
    assert!(!completions.finish(first, true));
    assert_eq!(completions.next_ticket(), 2);
}

#[test]
fn a_surplus_end_is_counted() {
    let mut batch = BatchCompletion::new(1);
    batch.finish(true);
    batch.finish(false);
    assert_eq!(
        batch.wait(),
        Some(BatchCompletionSnapshot {
            executed: 1,
            db_errors: 1
        })
    );

    let mut completions = Completions::new();
    let ticket = completions.open(1);
    assert!(completions.finish(ticket, true));
    assert!(completions.finish(ticket, true));
    assert_eq!(
        completions.batch(ticket),
        Some(BatchCompletion {
            remaining: 0,
            executed: 2,
            db_errors: 0
        })
    );
    assert_eq!(
        completions.wait(ticket),
        Some(BatchCompletionSnapshot {
            executed: 2,
            db_errors: 0
        })
    );
    assert_eq!(completions.batch(ticket), None);
}
