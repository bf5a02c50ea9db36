use basango::articles::sanitize;
use basango::config::{edit_distance, QueueConfig};
use basango::domain::{DateRange, PageRange};
use basango::markup::{extract_text, is_bounded_selector, is_convertible, markdown};
use basango::progress::RunMetrics;
use basango::queue::JobQueue;
use basango::run_store::QueuedRunReconciliation;
use basango::status::RunReconciliation;
use basango::wordpress::{post_to_draft, RenderedField, WordPressPost};
use basango::worker::{discovery_failure, failed_run_metrics, DiscoveryFailure};
use basango::domain::SourceId;
use basango::CrawlError;

fn nested(depth: usize) -> String {
    let mut html = String::new();
    for _ in 0..depth {
        html.push_str("<div>");
    }
    html.push('x');
    for _ in 0..depth {
        html.push_str("</div>");
    }
    html
}

#[test]
fn deeply_nested_documents_are_not_converted() {
    assert!(is_convertible("<p>Body</p>"));
    assert!(markdown("<p>Body</p>").unwrap().contains("Body"));
    let deep = nested(5000);
    assert!(!is_convertible(&deep));
    assert_eq!(markdown(&deep), None);
}

#[test]
fn list_items_outside_lists_are_not_converted() {
    assert!(!is_convertible("<p></p><b><li></li></b>"));
    assert_eq!(markdown("<p></p><b><li></li></b>"), None);
    assert!(is_convertible("<ul><li>one</li><li><b>two</b></li></ul>"));
    assert!(markdown("<ul><li>one</li></ul>").unwrap().contains("one"));
    assert!(!is_convertible("<ul><li><table><tr><td><b><li>x</li></b></td></tr></table></li></ul>"));
    assert!(is_convertible("<table><tr><td><ol><li>x</li></ol></td></tr></table>"));
}

#[test]
fn deeply_nested_wordpress_content_is_an_invalid_article() {
    let post = WordPressPost {
        categories: vec![],
        content: RenderedField { rendered: nested(5000) },
        date: Some("2025-01-02T03:04:05".into()),
        excerpt: RenderedField { rendered: String::new() },
        link: Some("https://wp.example.com/story".into()),
        slug: Some("story".into()),
        title: RenderedField { rendered: "Title".into() },
        yoast_head_json: None,
    };
    let id = SourceId::new("wp").unwrap();
    assert_eq!(
        post_to_draft(&post, "yyyy-LL-dd", &id, vec![], None).unwrap_err(),
        CrawlError::InvalidArticle("WordPress article body cannot be converted to Markdown".into())
    );
}

#[test]
fn selectors_with_too_many_brackets_are_refused_unparsed() {
    assert!(is_bounded_selector("meta[property='og:title']"));
    assert!(is_bounded_selector(&"a[data-x]".repeat(40)));
    let deep = ":not(".repeat(10_000);
    assert!(!is_bounded_selector(&deep));
    assert_eq!(
        extract_text("<p>x</p>", &deep).unwrap_err(),
        CrawlError::InvalidSourceSelectors(format!("selector '{deep}' is invalid: it holds more than 32 opening parentheses"))
    );
}

#[test]
fn levenshtein_distances() {
    assert_eq!(edit_distance("kitten", "sitting"), 3);
    assert_eq!(edit_distance("sitting", "kitten"), 3);
    assert_eq!(edit_distance("sport", "sport"), 0);
    assert_eq!(edit_distance("", "abc"), 3);
    assert!(edit_distance("santé", "sante") > 0);
}

#[test]
fn sanitized_text_has_its_canonical_shape() {
    let text = "\u{feff} Hello\u{a0}world\r\n\r\n\n\u{200b}next \u{202f}";
    let clean = sanitize(text);
    assert_eq!(clean, "Hello world\nnext");
    assert_eq!(clean.trim(), clean);
    assert!(!clean.contains("\n\n"));
    assert_eq!(sanitize(&clean), clean);
}

#[test]
fn range_errors_keep_their_messages() {
    assert_eq!(PageRange::parse("3").unwrap_err(), CrawlError::InvalidRange("invalid page range '3'; expected start:end".into()));
    assert_eq!(PageRange::parse("x:3").unwrap_err(), CrawlError::InvalidRange("invalid start page 'x'".into()));
    assert_eq!(PageRange::parse("1:y").unwrap_err(), CrawlError::InvalidRange("invalid end page 'y'".into()));
    assert_eq!(PageRange::parse("5:2").unwrap_err(), CrawlError::InvalidRange("end page 2 is before start page 5".into()));
    assert_eq!(
        DateRange::parse("2025-01-01").unwrap_err(),
        CrawlError::InvalidRange("invalid date range '2025-01-01'; expected start:end".into())
    );
    assert_eq!(
        DateRange::parse("2025-13-01:2025-01-02").unwrap_err(),
        CrawlError::InvalidRange("invalid date '2025-13-01'; use YYYY-MM-DD".into())
    );
    assert_eq!(
        DateRange::parse("2025-01-02:2025-01-01").unwrap_err(),
        CrawlError::InvalidRange("end date must be on or after start date".into())
    );
}

#[test]
fn unknown_worker_queues_are_named() {
    let queue = JobQueue::new(QueueConfig::default(), "agent-1");
    let error = queue.worker_queues(&vec!["nope".to_string()]).unwrap_err();
    match error {
        CrawlError::Queue(message) => assert!(message.starts_with("unknown queue 'nope'; expected ")),
        other => panic!("unexpected {other:?}"),
    }
}

#[test]
fn failed_discovery_closes_the_run_only_on_the_last_attempt() {
    assert_eq!(discovery_failure(false), DiscoveryFailure::Retry);
    assert_eq!(discovery_failure(true), DiscoveryFailure::CloseRun);
    let held = RunMetrics { articles_discovered: 4, articles_processed: 2, ..RunMetrics::default() };
    assert_eq!(failed_run_metrics(Ok(Some(held))), held);
    assert_eq!(failed_run_metrics(Ok(None)), RunMetrics::default());
    assert_eq!(failed_run_metrics(Err(CrawlError::Queue("down".into()))), RunMetrics::default());
}

#[test]
fn page_range_text_parses_back() {
    for (start, end) in [(0u32, 0u32), (3, 17), (9, 10), (0, u32::MAX)] {
        let range = PageRange::new(start, end).unwrap();
        assert_eq!(PageRange::parse(&range.text()).unwrap(), range);
    }
}

#[test]
fn reconciliations_keep_every_counter() {
    let queued = QueuedRunReconciliation {
        run_id: "r".into(),
        source_id: Some("s".into()),
        discovery_complete: Some(true),
        terminal: false,
        discovered: 5,
        processed: Some(4),
        persisted: 3,
        skipped: None,
        failed: 1,
        deliveries_expected: Some(3),
        deliveries_processed: Some(2),
        delivered: 2,
    };
    let run = RunReconciliation::from(queued.clone());
    assert_eq!(run.run_id, queued.run_id);
    assert_eq!(run.processed, Some(4));
    assert_eq!(run.skipped, None);
    assert_eq!(run.delivered, 2);
}

#[test]
fn reset_reports_name_the_scoped_queues() {
    let queue = JobQueue::new(QueueConfig::default(), "agent-1");
    let report = queue.reset_report(3);
    assert_eq!(report.agent_id, "agent-1");
    assert_eq!(report.discovery_queue, queue.discovery_name);
    assert_eq!(report.articles_queue, queue.articles_name);
    assert_eq!(report.delivery_queue, queue.delivery_name);
    assert_eq!(report.progress_trackers_removed, 3);
}

#[test]
fn convertible_documents_convert_without_failing() {
    let samples = [
        "<ul><li><p>x</p></li><li></li></ul>",
        "<ol><b><li>é</li></b><li><a href='/x'>lien é</a></li></ol>",
        "<blockquote></blockquote><blockquote><p>é</p></blockquote>",
        "<b> </b><i>\n</i><strong>été</strong>",
        "<table><tr><th>a</th></tr><tr><td>b</td><td>c</td></tr></table>",
        "<pre><code class='language-rust'>fn x() {}</code></pre><li>in pre?</li>",
        "<a name='x'>anchor</a><a href='a b'>spaced</a>",
        "<h1>T</h1><h3>t</h3><hr><br><q>q</q>",
        "<menu><li>m</li></menu><details><summary>s</summary>d</details>",
    ];
    for html in samples {
        if let Some(md) = markdown(html) {
            assert!(md.len() <= 10_000);
        }
    }
}
