use basango::articles::{DeliveryResult, IngestStatus, OutboxStats, OutboxUpdate};
use basango::cli::{
    agent_id_from, parse_positive_usize, parse_update_direction, scheduled_sources, source_ids_from_list,
};
use basango::domain::{SourceId, UpdateDirection};
use basango::execution::{
    crawl_step, delivery_failure_message, estimated_items, sort_by_name, CrawlEvent, CrawlReport, CrawlStep,
    SourceSyncItem,
};
use basango::http::{
    choose_user_agent, max_attempts, parse_retry_after, retry_after_delay, retry_response, retry_transport_error,
    HttpResponse,
};
use basango::status::{status_lines, CrawlerStatus, OpenRunStatus, QueueSnapshot, RedisStatus};
use basango::CrawlError;

const SECOND: u128 = 1_000_000_000;

#[test]
fn retries_stop_at_the_last_attempt() {
    let attempts = max_attempts(2);
    assert_eq!(attempts, 3);
    assert!(retry_response(503, 0, attempts));
    assert!(retry_response(429, 1, attempts));
    assert!(!retry_response(503, 2, attempts));
    assert!(!retry_response(404, 0, attempts));
    assert!(retry_transport_error(1, attempts));
    assert!(!retry_transport_error(2, attempts));
}

#[test]
fn retry_after_reads_seconds_and_http_dates() {
    assert_eq!(parse_retry_after("12", 0), Some(12 * SECOND));
    // Sun, 06 Nov 1994 08:49:37 GMT is 784111777 seconds after the epoch.
    let date = 784_111_777u128 * SECOND;
    assert_eq!(parse_retry_after("Sun, 06 Nov 1994 08:49:37 GMT", date - 5 * SECOND), Some(5 * SECOND));
    assert_eq!(parse_retry_after("Sun, 06 Nov 1994 08:49:37 GMT", date + SECOND), Some(0));
    assert_eq!(parse_retry_after("soon", 0), None);
    assert_eq!(retry_after_delay(false, Some("12"), 0), None);
    assert_eq!(retry_after_delay(true, None, 0), None);
    assert_eq!(retry_after_delay(true, Some("3"), 0), Some(3 * SECOND));
}

#[test]
fn user_agents_rotate_among_browsers() {
    assert_eq!(choose_user_agent(false, "Basango/0.1"), "Basango/0.1");
    let rotated = choose_user_agent(true, "Basango/0.1");
    assert!(rotated.starts_with("Mozilla/5.0"));
}

#[test]
fn unsuccessful_responses_keep_the_start_of_their_body() {
    let ok = HttpResponse { status: 200, url: "https://example.com/".into(), body: b"fine".to_vec() };
    assert_eq!(ok.clone().require_success(), Ok(ok));
    let long = "x".repeat(2000);
    let failed = HttpResponse { status: 500, url: "https://example.com/a".into(), body: long.into_bytes() };
    match failed.require_success() {
        Err(CrawlError::HttpStatus { status, url, body }) => {
            assert_eq!(status, 500);
            assert_eq!(url, "https://example.com/a");
            assert_eq!(body.chars().count(), 1024);
        }
        other => panic!("unexpected {other:?}"),
    }
    let invalid = HttpResponse { status: 200, url: String::new(), body: vec![b'a', 0xff, b'b'] };
    assert_eq!(invalid.body_lossy(), "a\u{fffd}b");
}

#[test]
fn command_line_values_are_checked() {
    assert_eq!(parse_positive_usize("4"), Ok(4));
    assert_eq!(parse_positive_usize("0"), Err("value must be at least 1".to_string()));
    assert_eq!(parse_positive_usize("four"), Err("'four' is not a positive integer".to_string()));
    assert_eq!(parse_update_direction(" Backward "), Ok(UpdateDirection::Backward));
    assert_eq!(
        parse_update_direction("sideways"),
        Err("invalid range: invalid update direction 'sideways'; expected forward or backward".to_string())
    );
}

#[test]
fn scheduled_sources_fall_back_to_the_listed_ones() {
    let listed = source_ids_from_list(" radiookapi , ,actualite ");
    let names: Vec<&str> = listed.iter().map(|id| id.as_str()).collect();
    assert_eq!(names, vec!["radiookapi", "actualite"]);

    let requested = vec![SourceId::new("mediacongo").unwrap()];
    let chosen = scheduled_sources(requested, Some("a,b")).unwrap();
    assert_eq!(chosen.len(), 1);
    assert_eq!(chosen[0].as_str(), "mediacongo");

    let chosen = scheduled_sources(vec![], Some("a,b")).unwrap();
    assert_eq!(chosen.iter().map(|id| id.as_str()).collect::<Vec<_>>(), vec!["a", "b"]);
    assert_eq!(
        scheduled_sources(vec![], Some(" , ")).unwrap_err(),
        "pass --source-id or set BASANGO_CRAWLER_SOURCE_IDS"
    );
    assert!(scheduled_sources(vec![], None).is_err());
}

#[test]
fn the_agent_id_is_required() {
    assert_eq!(agent_id_from(Some("  pi-01 ")).unwrap(), "pi-01");
    assert!(matches!(agent_id_from(Some("   ")), Err(CrawlError::Configuration(_))));
    assert!(agent_id_from(None).is_err());
}

#[test]
fn crawl_reports_count_each_draft_once() {
    let mut report = CrawlReport::new();
    report.record_ingest(Some(IngestStatus::Forwarded));
    report.record_ingest(Some(IngestStatus::Persisted));
    report.record_ingest(Some(IngestStatus::DeliveryFailed));
    report.record_ingest(None);
    assert_eq!(report, CrawlReport { collected: 4, stored: 3, delivered: 1, failed: 2 });
    let metrics = report.metrics();
    assert_eq!(metrics.articles_discovered, 4);
    assert_eq!(metrics.articles_processed, 4);
    assert_eq!(metrics.articles_skipped, 0);
}

#[test]
fn delivery_passes_count_claimed_articles() {
    let mut report = CrawlReport::claimed(2);
    assert_eq!(report.record_delivery(DeliveryResult::Delivered { status: 200 }), OutboxUpdate::MarkForwarded);
    let update = report.record_delivery(DeliveryResult::Failed {
        retryable: true,
        status: Some(503),
        message: "busy".into(),
    });
    assert_eq!(update, OutboxUpdate::MarkFailed { message: "busy".into(), retryable: true });
    assert_eq!(delivery_failure_message(&report), Some("failed to deliver 1 article(s)".to_string()));
    assert_eq!(delivery_failure_message(&CrawlReport::claimed(3)), None);
}

#[test]
fn crawl_events_map_to_steps() {
    assert_eq!(crawl_step(CrawlEvent::Draft), CrawlStep::Ingest);
    assert_eq!(crawl_step(CrawlEvent::Exhausted), CrawlStep::Finish { interrupted: false });
    assert_eq!(crawl_step(CrawlEvent::ShutdownRequested), CrawlStep::Finish { interrupted: true });
    assert_eq!(crawl_step(CrawlEvent::ShutdownUnavailable), CrawlStep::StopListeningForShutdown);
}

fn item(name: &str) -> SourceSyncItem {
    SourceSyncItem { estimated_articles: None, kind: "html".into(), name: name.into(), url: "https://x.test".into() }
}

#[test]
fn registrations_are_sorted_by_name() {
    let sorted = sort_by_name(vec![item("okapi"), item("actualite"), item("mediacongo"), item("b")]);
    let names: Vec<&str> = sorted.iter().map(|i| i.name.as_str()).collect();
    assert_eq!(names, vec!["actualite", "b", "mediacongo", "okapi"]);

    let estimated = estimated_items(vec![(item("z"), Some(10)), (item("a"), None), (item("m"), Some(3))]);
    assert_eq!(estimated.len(), 2);
    assert_eq!(estimated[0].name, "m");
    assert_eq!(estimated[0].estimated_articles, Some(3));
    assert_eq!(estimated[1].name, "z");
    assert_eq!(estimated[1].estimated_articles, Some(10));
}

#[test]
fn status_lines_report_each_part() {
    let status = CrawlerStatus {
        agent_id: "pi-01".into(),
        sqlite_path: "data/crawler.db".into(),
        outbox: Ok(OutboxStats {
            total: 5,
            pending: 2,
            forwarded: 2,
            failed: 1,
            retryable_failed: 1,
            claimed: 0,
            delivery_intents_pending: 3,
            delivery_intents_failed: 0,
        }),
        redis: Ok(RedisStatus {
            queues: vec![QueueSnapshot {
                name: "pi-01-articles".into(),
                workers: 2,
                waiting: 4,
                active: 1,
                delayed: 0,
                prioritized: 0,
                completed: 7,
                failed: 0,
                waiting_children: 0,
                paused: 1,
            }],
            open_runs: vec![OpenRunStatus {
                run_id: "run-1".into(),
                source_id: "okapi".into(),
                started_at: 0,
                discovered: 10,
                processed: 4,
                deliveries_expected: 3,
                deliveries_processed: 1,
                persisted: 3,
                skipped: 1,
                delivered: 1,
                failed: 0,
            }],
        }),
    };
    assert_eq!(
        status_lines(&status),
        vec![
            "Crawler status",
            "  Agent:  pi-01",
            "",
            "SQLite",
            "  Path:   data/crawler.db",
            "  State:  available",
            "  Rows:   5 total | 2 pending | 2 forwarded | 1 failed | 0 claimed",
            "  Retryable failures: 1",
            "  Delivery intents: 3 pending | 0 failed",
            "",
            "Redis",
            "  State:  connected",
            "  pi-01-articles",
            "    workers 2 | waiting 5 | active 1 | delayed 0 | failed 0 | completed 7",
            "  Open runs: 1",
            "    okapi | run-1 | started 1970-01-01T00:00:00+00:00",
            "      discovered 10 | processed 4 | persisted 3 | delivered 1 | failed 0",
            "      delivery jobs 3 expected | 1 processed",
        ]
    );

    let down = CrawlerStatus {
        agent_id: "pi-01".into(),
        sqlite_path: "x.db".into(),
        outbox: Err("no such file".into()),
        redis: Err("connection refused".into()),
    };
    let lines = status_lines(&down);
    assert_eq!(lines[5], "  State:  unavailable (no such file)");
    assert_eq!(lines[8], "  State:  unavailable (connection refused)");
}
