use basango::articles::{
    delivery_result_for_status, ingest_outcome, ingest_step, ingestion_request, signals_endpoint,
    transport_failure, DeliveryResult, DeliveryStatus, IngestStatus, IngestStep, OutboxUpdate,
};
use basango::config::IngestionApiConfig;
use basango::domain::ArticleHash;

#[test]
fn an_ingestion_request_targets_the_articles_endpoint_with_two_headers() {
    let hash = ArticleHash::from_url("https://example.com/story");
    let request = ingestion_request("https://api.example.com/crawler/", "secret", &hash).unwrap();
    assert_eq!(request.url, "https://api.example.com/crawler/ingest/articles");
    assert_eq!(
        request.headers,
        vec![
            ("Authorization".to_string(), "secret".to_string()),
            ("Idempotency-Key".to_string(), hash.as_str().to_string()),
        ]
    );
}

#[test]
fn an_unusable_endpoint_fails_without_retry() {
    let hash = ArticleHash::from_url("https://example.com/story");
    let failure = ingestion_request("not a url", "secret", &hash).unwrap_err();
    assert_eq!(
        failure,
        DeliveryResult::Failed {
            retryable: false,
            status: None,
            message: "URL error: invalid base URL 'not a url'".to_string(),
        }
    );
}

#[test]
fn transport_failures_are_retried() {
    assert_eq!(
        transport_failure("connection refused".to_string()),
        DeliveryResult::Failed { retryable: true, status: None, message: "connection refused".to_string() }
    );
}

#[test]
fn signals_go_to_the_signals_endpoint_when_configured() {
    let config = IngestionApiConfig { endpoint: Some("https://api.example.com/v1".into()), token: "t".into() };
    assert_eq!(signals_endpoint(&config).unwrap(), "https://api.example.com/v1/ingest/signals");
    let none = IngestionApiConfig { endpoint: None, token: String::new() };
    assert_eq!(signals_endpoint(&none), None);
}

#[test]
fn http_answers_become_delivery_results() {
    assert_eq!(delivery_result_for_status(201, "ok"), DeliveryResult::Delivered { status: 201 });
    assert_eq!(
        delivery_result_for_status(503, "busy"),
        DeliveryResult::Failed {
            retryable: true,
            status: Some(503),
            message: "forwarding failed with HTTP 503: busy".to_string(),
        }
    );
    assert_eq!(
        delivery_result_for_status(422, "bad"),
        DeliveryResult::Failed {
            retryable: false,
            status: Some(422),
            message: "forwarding failed with HTTP 422: bad".to_string(),
        }
    );
}

#[test]
fn forwarded_articles_are_not_sent_again() {
    assert_eq!(ingest_step(DeliveryStatus::Forwarded, true), IngestStep::Finish(IngestStatus::AlreadyForwarded));
    assert_eq!(ingest_step(DeliveryStatus::Pending, false), IngestStep::Finish(IngestStatus::Persisted));
    assert_eq!(ingest_step(DeliveryStatus::Failed, true), IngestStep::Deliver);
}

#[test]
fn delivery_results_update_the_outbox() {
    assert_eq!(
        ingest_outcome(DeliveryResult::Delivered { status: 200 }),
        (IngestStatus::Forwarded, OutboxUpdate::MarkForwarded)
    );
    assert_eq!(
        ingest_outcome(DeliveryResult::Failed { retryable: true, status: None, message: "down".into() }),
        (IngestStatus::DeliveryFailed, OutboxUpdate::MarkFailed { message: "down".into(), retryable: true })
    );
}

#[test]
fn sanitizing_twice_changes_nothing() {
    let text = " \u{feff}Kinshasa\u{a0}news\n\n\nsecond\u{200b} line \r\n";
    let once = basango::articles::sanitize(text);
    assert_eq!(once, "Kinshasa news\nsecond line");
    assert_eq!(basango::articles::sanitize(&once), once);
    // A lone carriage return before a CRLF pair forms a new pair.
    let odd = basango::articles::sanitize("a\r\r\nb");
    assert_eq!(odd, "a\r\nb");
    assert_eq!(basango::articles::sanitize(&odd), "a\nb");
}

#[test]
fn normalized_categories_are_distinct_and_present() {
    let categories = vec!["Sport".to_string(), " sport ".to_string(), "\u{200b}".to_string(), "Politique".to_string()];
    assert_eq!(basango::articles::normalize_categories(&categories), vec!["Sport".to_string(), "Politique".to_string()]);
}
