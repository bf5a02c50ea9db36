use basango::articles::DeliveryStatus;
use basango::outbox::{claim_selection, pending_selection, IntentRecord, IntentStatus, OutboxRecord};

const MINUTE: i128 = 60 * 1_000_000_000;

#[test]
fn a_new_row_is_pending_and_retryable() {
    let record = OutboxRecord::saved(None, 5);
    assert_eq!(record, OutboxRecord::fresh(5));
    assert_eq!(record.status, DeliveryStatus::Pending);
    assert_eq!(record.attempts, 0);
    assert!(record.retryable);
    assert_eq!(record.created_at, 5);
    assert_eq!(record.updated_at, 5);
}

#[test]
fn saving_a_forwarded_article_keeps_it_forwarded() {
    let forwarded = OutboxRecord::fresh(1).forwarded(2);
    assert_eq!(forwarded.status, DeliveryStatus::Forwarded);
    assert_eq!(forwarded.forwarded_at, Some(2));
    assert!(!forwarded.retryable);
    let saved = OutboxRecord::saved(Some(&forwarded), 3);
    assert_eq!(saved.status, DeliveryStatus::Forwarded);
    assert_eq!(saved.forwarded_at, Some(2));
    assert_eq!(saved.updated_at, 3);
    assert!(!saved.is_claimable(true, 100));
}

#[test]
fn saving_a_failed_article_makes_it_pending_again() {
    let failed = OutboxRecord::fresh(1).failed("HTTP 500", false, 2);
    assert_eq!(failed.status, DeliveryStatus::Failed);
    assert_eq!(failed.attempts, 1);
    assert_eq!(failed.last_error.as_deref(), Some("HTTP 500"));
    let saved = OutboxRecord::saved(Some(&failed), 3);
    assert_eq!(saved.status, DeliveryStatus::Pending);
    assert_eq!(saved.attempts, 1);
    assert!(saved.retryable);
    assert_eq!(saved.last_error, None);
    assert_eq!(saved.created_at, 1);
}

#[test]
fn saving_twice_only_moves_the_update_time() {
    let first = OutboxRecord::saved(None, 10);
    let second = OutboxRecord::saved(Some(&first), 20);
    let mut expected = first.clone();
    expected.updated_at = 20;
    assert_eq!(second, expected);
}

#[test]
fn permanent_failures_wait_for_retry_all() {
    let failed = OutboxRecord::fresh(1).failed("HTTP 422", false, 2);
    assert!(!failed.is_claimable(false, 100));
    assert!(failed.is_claimable(true, 100));
    let retryable = OutboxRecord::fresh(1).failed("HTTP 503", true, 2);
    assert!(retryable.is_claimable(false, 100));
}

#[test]
fn a_claim_excludes_others_until_it_expires() {
    let claimed = OutboxRecord::fresh(0).claimed("pusher-a", 10 * MINUTE);
    assert_eq!(claimed.claimed_by.as_deref(), Some("pusher-a"));
    // Another pusher 5 minutes later with a 15-minute lease: bound is before the claim.
    assert!(!claimed.is_claimable(false, 10 * MINUTE + 5 * MINUTE - 15 * MINUTE));
    // 20 minutes later, the claim has expired.
    assert!(claimed.is_claimable(false, 10 * MINUTE + 20 * MINUTE - 15 * MINUTE));
    let released = claimed.released();
    assert_eq!(released.claimed_at, None);
    assert_eq!(released.claimed_by, None);
    assert!(released.is_claimable(false, 0));
}

#[test]
fn claims_take_the_first_claimable_rows_in_order() {
    let records = vec![
        OutboxRecord::fresh(1).forwarded(2),
        OutboxRecord::fresh(2),
        OutboxRecord::fresh(3).failed("down", false, 4),
        OutboxRecord::fresh(4),
        OutboxRecord::fresh(5).failed("busy", true, 6),
    ];
    assert_eq!(claim_selection(&records, false, 0, 10), vec![1, 3, 4]);
    assert_eq!(claim_selection(&records, false, 0, 2), vec![1, 3]);
    assert_eq!(claim_selection(&records, true, 0, 10), vec![1, 2, 3, 4]);
    assert_eq!(claim_selection(&records, false, 0, 0), Vec::<usize>::new());
}

#[test]
fn a_run_owes_one_delivery_per_unforwarded_article() {
    let created = IntentRecord::after_save(None, DeliveryStatus::Pending, 7).unwrap();
    assert_eq!(created, IntentRecord { status: IntentStatus::Pending, created_at: 7, queued_at: None, completed_at: None });
    assert_eq!(IntentRecord::after_save(Some(created), DeliveryStatus::Failed, 9), Some(created));
    assert_eq!(IntentRecord::after_save(None, DeliveryStatus::Forwarded, 9), None);
}

#[test]
fn finished_intents_are_not_queued_again() {
    let pending = IntentRecord { status: IntentStatus::Pending, created_at: 1, queued_at: None, completed_at: None };
    let queued = pending.queued(2);
    assert_eq!(queued.queued_at, Some(2));
    let done = queued.completed(true, 3);
    assert_eq!(done.status, IntentStatus::Completed);
    assert_eq!(done.completed_at, Some(3));
    assert_eq!(done.queued(4), done);
    assert_eq!(pending.completed(false, 5).status, IntentStatus::Failed);
    assert_eq!(pending_selection(&vec![done, pending, queued, pending], 2), vec![1, 2]);
}

#[test]
fn intent_statuses_read_back() {
    for status in [IntentStatus::Pending, IntentStatus::Completed, IntentStatus::Failed] {
        assert_eq!(IntentStatus::parse(status.as_str()), Ok(status));
    }
    assert!(IntentStatus::parse("queued").is_err());
}
