use basango::progress::{QueuedArticleResult, RunTracker};
use basango::run_store::{
    metrics_from_values, open_run_fields, open_run_from_values, parse_metric, queued_update_from_values,
};

fn ids(values: &[&str]) -> Vec<String> {
    values.iter().map(|v| v.to_string()).collect()
}

fn article(persisted: usize, delivered: usize, expected: usize) -> QueuedArticleResult {
    QueuedArticleResult { persisted, delivered, delivery_expected: expected, failed: 0, skipped: 0 }
}

#[test]
fn a_run_completes_once_every_article_and_delivery_is_accounted() {
    let mut tracker = RunTracker::new("example", "2025-01-01T00:00:00Z");
    let metrics = tracker.record_discovery_batch("page:1", &ids(&["a", "b"])).unwrap().unwrap();
    assert_eq!(metrics.articles_discovered, 2);
    let update = tracker.finish_discovery().unwrap();
    assert!(!update.terminal);
    let update = tracker.record_article_result("a", article(1, 1, 0)).unwrap().unwrap();
    assert!(!update.terminal);
    let update = tracker.record_article_result("b", article(1, 0, 1)).unwrap().unwrap();
    assert!(!update.terminal);
    let update = tracker.record_delivery_result("d-b", 1, 0).unwrap().unwrap();
    assert!(update.terminal);
    assert_eq!(update.metrics.articles_processed, 2);
    assert_eq!(update.metrics.articles_persisted, 2);
    assert_eq!(update.metrics.articles_delivered, 2);
    assert!(!tracker.run_is_open());
}

#[test]
fn results_after_the_end_of_a_run_are_ignored() {
    let mut tracker = RunTracker::new("example", "2025-01-01T00:00:00Z");
    tracker.record_discovery_batch("page:1", &ids(&["a"])).unwrap();
    tracker.finish_discovery();
    let end = tracker.record_article_result("a", article(1, 1, 0)).unwrap().unwrap();
    assert!(end.terminal);
    assert_eq!(tracker.record_article_result("late", article(1, 1, 0)).unwrap(), None);
    assert_eq!(tracker.record_delivery_result("late", 1, 0).unwrap(), None);
    assert_eq!(tracker.finish_discovery(), None);
    assert_eq!(tracker.close(), None);
    assert_eq!(tracker.record_discovery_batch("page:2", &ids(&["z"])).unwrap(), None);
    assert_eq!(tracker.metrics().articles_discovered, 1);
}

#[test]
fn an_article_job_is_counted_once() {
    let mut tracker = RunTracker::new("example", "2025-01-01T00:00:00Z");
    tracker.record_discovery_batch("page:1", &ids(&["a", "b"])).unwrap();
    assert!(tracker.record_article_result("a", article(1, 0, 1)).unwrap().is_some());
    assert_eq!(tracker.record_article_result("a", article(1, 0, 1)).unwrap(), None);
    assert_eq!(tracker.metrics().articles_processed, 1);
    assert_eq!(tracker.metrics().articles_persisted, 1);
}

#[test]
fn a_delivery_job_is_counted_once() {
    let mut tracker = RunTracker::new("example", "2025-01-01T00:00:00Z");
    tracker.record_discovery_batch("page:1", &ids(&["a"])).unwrap();
    assert!(tracker.record_delivery_result("d", 0, 1).unwrap().is_some());
    assert_eq!(tracker.record_delivery_result("d", 0, 1).unwrap(), None);
    assert_eq!(tracker.metrics().articles_failed, 1);
}

#[test]
fn rediscovered_articles_are_not_counted_twice() {
    let mut tracker = RunTracker::new("example", "2025-01-01T00:00:00Z");
    tracker.record_discovery_batch("page:1", &ids(&["a", "b", "a"])).unwrap();
    let metrics = tracker.record_discovery_batch("page:2", &ids(&["b", "c"])).unwrap().unwrap();
    assert_eq!(metrics.articles_discovered, 3);
}

#[test]
fn closing_a_run_reports_its_metrics_once() {
    let mut tracker = RunTracker::new("example", "2025-01-01T00:00:00Z");
    tracker.record_discovery_batch("page:1", &ids(&["a", "b"])).unwrap();
    let metrics = tracker.close().unwrap();
    assert_eq!(metrics.articles_discovered, 2);
    assert_eq!(tracker.close(), None);
}

#[test]
fn a_tracker_reads_back_from_its_hash() {
    let mut tracker = RunTracker::new("example", "2025-01-01T00:00:00Z");
    tracker.record_discovery_batch("page:1", &ids(&["a", "b"])).unwrap();
    tracker.record_article_result("a", article(1, 0, 1)).unwrap();
    tracker.record_delivery_result("d-a", 1, 0).unwrap();
    let entries = tracker.hash_entries();
    let read = RunTracker::from_hash(&entries).unwrap().unwrap();
    assert_eq!(read, tracker);
}

#[test]
fn an_empty_hash_is_no_tracker_and_a_bad_counter_is_an_error() {
    assert_eq!(RunTracker::from_hash(&Vec::new()).unwrap(), None);
    let entries = vec![("discovered".to_string(), "many".to_string())];
    let error = RunTracker::from_hash(&entries).unwrap_err();
    assert_eq!(error.message(), "queue error: invalid queued run metric 'many' in Redis progress tracker");
}

#[test]
fn older_trackers_read_processed_articles_from_their_legacy_field() {
    let entries = vec![
        ("sourceId".to_string(), "example".to_string()),
        ("processed".to_string(), "4".to_string()),
    ];
    let read = RunTracker::from_hash(&entries).unwrap().unwrap();
    assert_eq!(read.article_processed, 4);
    assert_eq!(read.discovered, 0);
}

#[test]
fn metrics_are_read_from_six_values() {
    let metrics = metrics_from_values(&[5, 4, 3, -1, 2, 1]).unwrap();
    assert_eq!(metrics.articles_discovered, 5);
    assert_eq!(metrics.articles_skipped, 0);
    assert_eq!(metrics.articles_failed, 1);
    let error = metrics_from_values(&[1, 2]).unwrap_err();
    assert_eq!(error.message(), "queue error: expected 6 queued run metrics, received 2");
}

#[test]
fn updates_are_read_from_seven_values() {
    assert_eq!(queued_update_from_values(&[]).unwrap(), None);
    let update = queued_update_from_values(&[1, 1, 1, 0, 1, 0, 1]).unwrap().unwrap();
    assert!(update.terminal);
    assert!(queued_update_from_values(&[1, 2, 3]).is_err());
}

#[test]
fn metric_texts_must_be_counts() {
    assert_eq!(parse_metric("12").unwrap(), 12);
    assert_eq!(parse_metric("+7").unwrap(), 7);
    assert!(parse_metric("-1").is_err());
    assert!(parse_metric("").is_err());
}

#[test]
fn open_runs_are_read_from_their_tracker_fields() {
    assert_eq!(open_run_fields().len(), 12);
    let values: Vec<Option<String>> = vec![
        Some("example".into()),
        Some("2025-01-02T03:04:05Z".into()),
        Some("10".into()),
        None,
        Some("4".into()),
        Some("2".into()),
        Some("1".into()),
        Some("4".into()),
        None,
        Some("1".into()),
        Some("0".into()),
        Some("0".into()),
    ];
    let run = open_run_from_values("basango:telemetry:agent:run:run-1", "agent", &values).unwrap().unwrap();
    assert_eq!(run.run.run_id, "run-1");
    assert_eq!(run.run.agent_id, "agent");
    assert_eq!(run.run.started_at, 1_735_787_045_000_000_000);
    assert_eq!(run.articles_processed, 4);
    assert_eq!(run.deliveries_expected, 2);
    assert_eq!(run.metrics.articles_discovered, 10);
    assert_eq!(run.metrics.articles_skipped, 0);
}

#[test]
fn ended_or_unreadable_trackers_are_passed_over() {
    let mut values: Vec<Option<String>> = vec![None; 12];
    values[0] = Some("example".into());
    values[1] = Some("2025-01-02T03:04:05Z".into());
    values[11] = Some("1".into());
    assert_eq!(open_run_from_values("k:run:r", "a", &values).unwrap(), None);
    values[11] = None;
    values[1] = Some("yesterday".into());
    assert_eq!(open_run_from_values("k:run:r", "a", &values).unwrap(), None);
    values[1] = Some("2025-01-02T03:04:05Z".into());
    values[5] = Some("x".into());
    assert!(open_run_from_values("k:run:r", "a", &values).is_err());
    assert_eq!(open_run_from_values("k:run:r", "a", &vec![None; 3]).unwrap(), None);
}
