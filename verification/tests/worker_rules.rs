use basango::articles::{DeliveryResult, DeliveryStatus, OutboxUpdate};
use basango::queue::encode_agent_id;
use basango::CrawlError;
use basango::worker::{
    after_delivery, collect_failure, delivery_counts, delivery_plan, elapsed_millis, failed_article,
    final_attempt, job_kind, queued_duration_ms, saved_article, AfterDelivery, CrawlerJob, DeliveryPlan,
    RedisErrorWindow,
};

#[test]
fn job_names_select_the_job() {
    assert_eq!(job_kind("discover-source"), Ok(CrawlerJob::DiscoverSource));
    assert_eq!(job_kind("fetch-article"), Ok(CrawlerJob::FetchArticle));
    assert_eq!(job_kind("deliver-article"), Ok(CrawlerJob::DeliverArticle));
    assert_eq!(job_kind("other"), Err("unknown crawler job 'other'".to_string()));
}

#[test]
fn the_last_attempt_is_known() {
    assert!(final_attempt(2, Some(3)));
    assert!(!final_attempt(1, Some(3)));
    assert!(final_attempt(0, None));
    assert!(final_attempt(0, Some(0)));
}

#[test]
fn invalid_and_out_of_range_articles_are_skips() {
    let skipped = collect_failure(CrawlError::InvalidArticle("missing".into())).unwrap();
    assert_eq!(skipped.skipped, 1);
    let skipped = collect_failure(CrawlError::ArticleOutOfDateRange { url: "u".into() }).unwrap();
    assert_eq!(skipped.skipped, 1);
    assert!(collect_failure(CrawlError::HttpTransport("reset".into())).is_err());
    assert_eq!(failed_article().failed, 1);
}

#[test]
fn saved_articles_await_or_count_their_delivery() {
    let (result, enqueue) = saved_article(DeliveryStatus::Forwarded, false);
    assert_eq!((result.persisted, result.delivered, result.delivery_expected, enqueue), (1, 1, 0, false));
    let (result, enqueue) = saved_article(DeliveryStatus::Forwarded, true);
    assert_eq!((result.delivered, result.delivery_expected, enqueue), (0, 1, false));
    let (result, enqueue) = saved_article(DeliveryStatus::Pending, false);
    assert_eq!((result.delivery_expected, enqueue), (1, true));
}

#[test]
fn delivery_jobs_plan_from_the_outbox_record() {
    assert_eq!(delivery_plan(None, true), DeliveryPlan::Finish { succeeded: false });
    assert_eq!(delivery_plan(Some(DeliveryStatus::Forwarded), false), DeliveryPlan::Finish { succeeded: true });
    assert_eq!(delivery_plan(Some(DeliveryStatus::Failed), false), DeliveryPlan::FailWithoutEndpoint);
    assert_eq!(delivery_plan(Some(DeliveryStatus::Pending), true), DeliveryPlan::Deliver);
    assert_eq!(delivery_counts(true), (1, 0));
    assert_eq!(delivery_counts(false), (0, 1));
}

#[test]
fn failed_deliveries_retry_until_the_last_attempt() {
    let failed = || DeliveryResult::Failed { retryable: true, status: Some(503), message: "busy".into() };
    let (update, next) = after_delivery(failed(), false);
    assert_eq!(update, OutboxUpdate::MarkFailed { message: "busy".into(), retryable: true });
    assert_eq!(next, AfterDelivery::Retry { message: "busy".into() });
    let (_, next) = after_delivery(failed(), true);
    assert_eq!(next, AfterDelivery::Finish { succeeded: false });
    let (update, next) = after_delivery(DeliveryResult::Delivered { status: 201 }, false);
    assert_eq!(update, OutboxUpdate::MarkForwarded);
    assert_eq!(next, AfterDelivery::Finish { succeeded: true });
}

#[test]
fn four_connection_errors_within_a_minute_request_a_restart() {
    let mut window = RedisErrorWindow::new();
    assert_eq!(window.record(0, "e"), None);
    assert_eq!(window.record(10_000, "e"), None);
    assert_eq!(window.record(20_000, "e"), None);
    assert_eq!(
        window.record(30_000, "redis error: broken pipe").unwrap(),
        "BullMQ Redis connection remained unhealthy after 4 errors in 60 seconds: redis error: broken pipe"
    );
}

#[test]
fn errors_older_than_a_minute_are_forgotten() {
    let mut window = RedisErrorWindow::new();
    assert_eq!(window.record(0, "e"), None);
    assert_eq!(window.record(1_000, "e"), None);
    assert_eq!(window.record(2_000, "e"), None);
    assert_eq!(window.record(62_000, "e"), None);
    assert_eq!(window.occurred_at, vec![2_000, 62_000]);
}

#[test]
fn durations_are_whole_milliseconds_and_never_negative() {
    assert_eq!(queued_duration_ms(1_000_000_000, 3_500_999_999), 2_500);
    assert_eq!(queued_duration_ms(5, 1), 0);
    assert_eq!(elapsed_millis(12), 12);
    assert_eq!(elapsed_millis(u128::MAX), u64::MAX);
}

#[test]
fn agent_scopes_keep_agents_apart() {
    assert_eq!(encode_agent_id("pi_5f"), "pi_5f5f");
    assert_eq!(encode_agent_id("pi_"), "pi_5f");
    assert_ne!(encode_agent_id("pi_"), encode_agent_id("pi_5f"));
    assert_eq!(encode_agent_id("été"), "_c3_a9t_c3_a9");
    // Only the empty identifier, which is never accepted, shares a scope.
    assert_eq!(encode_agent_id(""), encode_agent_id("agent"));
}
