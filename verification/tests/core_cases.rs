use basango::articles::{endpoint_url, is_retryable_status};
use basango::domain::{DateRange, PageRange, SourceId, UpdateDirection};
use basango::execution::{automatic_date_range, PublicationBounds};
use basango::http::{is_transient, parse_retry_after};
use basango::queue::{encode_agent_id, retention, scoped_queue_name, stable_job_id, JobRetentionPolicy};
use basango::sources::parse_published_at;
use basango::wordpress::{yoast_metadata, WordPressPost, YoastImage, YoastMetadata};
use basango::worker::is_redis_connection_error;
use chrono::TimeZone;

fn nanos(date: chrono::DateTime<chrono::Utc>) -> i128 {
    date.timestamp() as i128 * 1_000_000_000 + date.timestamp_subsec_nanos() as i128
}

#[test]
fn appends_endpoint_to_an_existing_base_path() {
    assert_eq!(
        endpoint_url("https://api.example.com/crawler", "ingest/articles").unwrap().as_str(),
        "https://api.example.com/crawler/ingest/articles"
    );
}

#[test]
fn retryable_statuses_match_transport_semantics() {
    assert!(is_retryable_status(503));
    assert!(!is_retryable_status(422));
}

#[test]
fn page_range_rejects_reversed_bounds() {
    assert!(PageRange::parse("5:2").is_err());
}

#[test]
fn timestamp_range_includes_the_whole_end_day() {
    let range = DateRange::parse("2025-01-01:2025-01-02").unwrap();
    let end_of_day = chrono::DateTime::parse_from_rfc3339("2025-01-02T23:59:59Z")
        .unwrap()
        .with_timezone(&chrono::Utc);
    assert!(range.contains(nanos(end_of_day)));
}

#[test]
fn source_id_is_trimmed_and_cannot_be_empty() {
    assert_eq!(SourceId::new(" example ").unwrap().as_str(), "example");
    assert!(SourceId::new("   ").is_err());
    // Decoding a JSON source identifier goes through `SourceId::new`.
    assert!(SourceId::new("").is_err());
}

#[test]
fn empty_publication_bounds_do_not_filter_a_first_crawl() {
    let bounds = PublicationBounds { earliest: None, latest: None };
    let now = chrono::Utc.with_ymd_and_hms(2026, 8, 24, 9, 0, 0).unwrap();
    assert_eq!(automatic_date_range(UpdateDirection::Forward, &bounds, nanos(now)).unwrap(), None);
}

#[test]
fn forward_publication_bounds_start_at_the_latest_article() {
    let earliest = chrono::Utc.with_ymd_and_hms(2026, 8, 1, 10, 0, 0).unwrap();
    let latest = chrono::Utc.with_ymd_and_hms(2026, 8, 22, 20, 36, 57).unwrap();
    let now = chrono::Utc.with_ymd_and_hms(2026, 8, 24, 9, 0, 0).unwrap();
    let bounds = PublicationBounds { earliest: Some(nanos(earliest)), latest: Some(nanos(latest)) };
    let range = automatic_date_range(UpdateDirection::Forward, &bounds, nanos(now)).unwrap().unwrap();
    assert_eq!(range.start, nanos(latest));
    assert_eq!(range.end, nanos(now));
}

#[test]
fn backward_publication_bounds_end_at_the_earliest_article() {
    let earliest = chrono::Utc.with_ymd_and_hms(2026, 8, 1, 10, 0, 0).unwrap();
    let latest = chrono::Utc.with_ymd_and_hms(2026, 8, 22, 20, 36, 57).unwrap();
    let now = chrono::Utc.with_ymd_and_hms(2026, 8, 24, 9, 0, 0).unwrap();
    let bounds = PublicationBounds { earliest: Some(nanos(earliest)), latest: Some(nanos(latest)) };
    let range = automatic_date_range(UpdateDirection::Backward, &bounds, nanos(now)).unwrap().unwrap();
    assert_eq!(range.start, nanos(chrono::DateTime::<chrono::Utc>::UNIX_EPOCH));
    assert_eq!(range.end, nanos(earliest));
}

#[test]
fn stable_ids_are_deterministic() {
    let value = ("example", "https://example.com/story");
    let bytes = serde_json::to_vec(&value).unwrap();
    assert_eq!(stable_job_id("article", &bytes), stable_job_id("article", &bytes));
}

#[test]
fn zero_retention_removes_jobs_immediately() {
    assert!(matches!(retention(0), JobRetentionPolicy::RemoveImmediately));
}

#[test]
fn queue_names_are_scoped_by_agent_id() {
    assert_eq!(
        scoped_queue_name(&encode_agent_id("basango-pi-01"), "articles"),
        "basango-pi-01-articles"
    );
    assert_eq!(encode_agent_id("pi:west_1"), "pi_3awest_5f1");
}

#[test]
fn classifies_transient_redis_connection_errors() {
    assert!(is_redis_connection_error("redis error: broken pipe"));
    assert!(is_redis_connection_error("Redis error: connection reset by peer"));
    assert!(!is_redis_connection_error("redis error: WRONGTYPE"));
    assert!(!is_redis_connection_error("HTTP request timed out"));
}

#[test]
fn retry_after_accepts_seconds() {
    let now = std::time::SystemTime::now()
        .duration_since(std::time::UNIX_EPOCH)
        .unwrap()
        .as_nanos();
    assert_eq!(parse_retry_after("12", now), Some(std::time::Duration::from_secs(12).as_nanos()));
}

#[test]
fn transient_statuses_are_explicit() {
    assert!(is_transient(reqwest::StatusCode::TOO_MANY_REQUESTS.as_u16()));
    assert!(!is_transient(reqwest::StatusCode::NOT_FOUND.as_u16()));
}

#[test]
fn extracts_yoast_metadata() {
    let link = "https://example.com/story";
    let post = WordPressPost {
        link: Some(link.to_owned()),
        yoast_head_json: Some(YoastMetadata {
            og_title: Some("Yoast title".into()),
            og_image: vec![YoastImage { url: Some("/cover.jpg".into()) }],
            ..YoastMetadata::default()
        }),
        ..WordPressPost::default()
    };
    let metadata = yoast_metadata(&post, link).unwrap();
    assert_eq!(metadata.title.as_deref(), Some("Yoast title"));
    assert_eq!(metadata.image.unwrap().as_str(), "https://example.com/cover.jpg");
}

#[test]
fn parses_wordpress_naive_datetime_as_utc() {
    let date = parse_published_at("2025-01-02T03:04:05", "yyyy-LL-dd'T'HH:mm:ss").unwrap();
    let seconds = date.div_euclid(1_000_000_000) as i64;
    let sub = date.rem_euclid(1_000_000_000) as u32;
    let utc = chrono::DateTime::from_timestamp(seconds, sub).unwrap();
    assert_eq!(utc.to_rfc3339(), "2025-01-02T03:04:05+00:00");
}
