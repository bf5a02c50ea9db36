use basango::config::{CommonSourceConfig, HtmlSelectors, HtmlSourceConfig};
use basango::domain::{DateRange, SourceId};
use basango::markup::{collapse_spaces, consume_html, extract_attribute, extract_text, pick, text_from_html};
use basango::sources::{
    batch_id, date_decision, extract_link, html_endpoint_url, html_pagination, link_page, listing_entries,
    parse_article, parse_published_at, replace_text, DateDecision, DiscoveredUrls, HtmlCrawlTally,
};
use basango::CrawlError;

fn source(template: &str) -> HtmlSourceConfig {
    HtmlSourceConfig {
        common: CommonSourceConfig {
            date_format: "yyyy-LL-dd HH:mm".into(),
            id: SourceId::new("example").unwrap(),
            rate_limit: false,
            url: "https://news.example.com/".into(),
        },
        fetch_details: true,
        indexed_categories: vec![],
        pagination_template: template.into(),
        selectors: HtmlSelectors {
            body: "div.body".into(),
            categories: Some("a.tag".into()),
            date: "time".into(),
            link: "a.read".into(),
            list: "article".into(),
            title: "h1".into(),
            pagination: "ul.pagination > li a".into(),
        },
    }
}

#[test]
fn white_space_collapses_to_single_spaces() {
    assert_eq!(collapse_spaces("  a \n\t b  c "), "a b c");
    assert_eq!(collapse_spaces("   "), "");
    assert_eq!(text_from_html("<p>Hello <b>big</b>\n world</p>").unwrap(), "Hello big world");
    assert_eq!(text_from_html("<p>  </p>"), None);
}

#[test]
fn pick_takes_the_first_value_that_is_not_blank() {
    assert_eq!(pick(vec![None, Some("  ".into()), Some(" x ".into()), Some("y".into())]), Some("x".into()));
    assert_eq!(pick(vec![None, Some(" ".into())]), None);
}

#[test]
fn placeholders_are_replaced_everywhere() {
    assert_eq!(replace_text("a{p}b{p}", "{p}", "12"), "a12b12");
    assert_eq!(replace_text("none", "{p}", "1"), "none");
}

#[test]
fn listing_urls_fill_or_append_the_page() {
    let with_page = source("/news/page/{page}");
    assert_eq!(html_endpoint_url(&with_page, 3, None).unwrap(), "https://news.example.com/news/page/3");
    let category = source("/{category}/");
    assert_eq!(html_endpoint_url(&category, 2, Some("sport")).unwrap(), "https://news.example.com/sport/?page=2");
    assert_eq!(html_endpoint_url(&category, 0, Some("sport")).unwrap(), "https://news.example.com/sport/");
}

#[test]
fn pagination_reads_the_last_link() {
    let s = source("/news?page={page}");
    let html = r#"<ul class="pagination"><li><a href="?page=2">2</a></li><li><a href="/news/page/7">7</a></li></ul>"#;
    let range = html_pagination(&s, Some(html)).unwrap();
    assert_eq!((range.start, range.end), (0, 7));
    let range = html_pagination(&s, None).unwrap();
    assert_eq!((range.start, range.end), (0, 1));
    assert_eq!(link_page("https://news.example.com/", "/list?page=12"), 12);
    assert_eq!(link_page("https://news.example.com/", "/list"), 1);
}

#[test]
fn listing_entries_and_their_links() {
    let s = source("/news");
    let listing = r#"<html><body><article><a class="read" href="/a">A</a></article><article><span>no link</span></article></body></html>"#;
    let entries = listing_entries(&s, listing).unwrap();
    assert_eq!(entries.len(), 2);
    assert_eq!(extract_link(&s, &entries[0]).unwrap(), Some("https://news.example.com/a".to_string()));
    assert_eq!(extract_link(&s, &entries[1]).unwrap(), None);
}

#[test]
fn articles_are_read_from_their_pages() {
    let s = source("/news");
    let html = r#"<html><head><title>T</title><meta property="og:description" content="Summary"></head>
        <body><h1> Big   news </h1><time datetime="2025-01-02T03:04:05Z">Jan 2</time>
        <div class="body"><p>First</p></div><a class="tag">Sport</a><a class="tag">sport</a></body></html>"#;
    let draft = parse_article(&s, html, Some("https://news.example.com/a"), None).unwrap();
    assert_eq!(draft.title, "Big news");
    assert_eq!(draft.link, "https://news.example.com/a");
    assert_eq!(draft.published_at, 1_735_787_045_000_000_000);
    assert_eq!(draft.categories, vec!["sport".to_string()]);
    assert!(draft.body.contains("First"));
    assert_eq!(draft.metadata.unwrap().description.as_deref(), Some("Summary"));
}

#[test]
fn articles_without_title_or_date_are_invalid() {
    let s = source("/news");
    let error = parse_article(&s, "<html><body><p>x</p></body></html>", Some("https://e.com/a"), None).unwrap_err();
    assert_eq!(error, CrawlError::InvalidArticle("missing article title".into()));
    let error = parse_article(&s, "<html><body><h1>T</h1><time>soon</time></body></html>", Some("https://e.com/a"), None)
        .unwrap_err();
    assert_eq!(error, CrawlError::InvalidArticle("cannot parse article date 'soon'".into()));
}

#[test]
fn invalid_selectors_are_reported() {
    let error = extract_text("<p>x</p>", "p[").unwrap_err();
    assert!(matches!(error, CrawlError::InvalidSourceSelectors(_)));
    assert_eq!(extract_attribute("<a data-href='/x'>x</a>", "a").unwrap(), Some("/x".to_string()));
    assert_eq!(extract_text("<img alt=' Cover '>", "img").unwrap(), Some("Cover".to_string()));
}

#[test]
fn open_graph_metadata_falls_back_to_page_content() {
    let html = r#"<html><head><title> Page </title><link rel="canonical" href="/canonical"></head><body><img src="/i.png"></body></html>"#;
    let metadata = consume_html(html, "https://e.com/a").unwrap();
    assert_eq!(metadata.title.as_deref(), Some("Page"));
    assert_eq!(metadata.url.as_deref(), Some("https://e.com/canonical"));
    assert_eq!(metadata.image.as_deref(), Some("https://e.com/i.png"));
    assert_eq!(consume_html("   ", "https://e.com/a"), None);
}

#[test]
fn publication_dates_read_several_formats() {
    assert_eq!(parse_published_at("2025-01-02T03:04:05Z", "x"), Some(1_735_787_045_000_000_000));
    assert_eq!(parse_published_at("Thu, 02 Jan 2025 03:04:05 +0000", "x"), Some(1_735_787_045_000_000_000));
    assert_eq!(parse_published_at("02.01.2025", "dd.MM.yyyy"), Some(1_735_776_000_000_000_000));
    assert_eq!(parse_published_at("2025-01-02 03:04", "yyyy-LL-dd HH:mm"), Some(1_735_787_040_000_000_000));
    assert_eq!(parse_published_at("  ", "x"), None);
    assert_eq!(parse_published_at("someday", "x"), None);
}

#[test]
fn ranges_emit_skip_or_stop() {
    let range = DateRange::new(100, 200).unwrap();
    assert_eq!(date_decision(Some(range), 150), DateDecision::Emit);
    assert_eq!(date_decision(Some(range), 250), DateDecision::Skip);
    assert_eq!(date_decision(Some(range), 50), DateDecision::Stop);
    assert_eq!(date_decision(None, 50), DateDecision::Emit);
}

#[test]
fn discovery_queues_each_link_once() {
    let mut seen = DiscoveredUrls::new();
    let first = seen.take_new(&vec![Some("a".into()), None, Some("b".into()), Some("a".into())]);
    assert_eq!(first, vec!["a".to_string(), "b".to_string()]);
    let second = seen.take_new(&vec![Some("b".into()), Some("c".into())]);
    assert_eq!(second, vec!["c".to_string()]);
    assert_eq!(batch_id(7), "page:7");
}

#[test]
fn a_crawl_without_any_listing_fails() {
    let mut tally = HtmlCrawlTally::new();
    tally.listing_failed(CrawlError::HttpTransport("down".into()));
    tally.listing_failed(CrawlError::HttpTransport("later".into()));
    assert_eq!(tally.finish().unwrap_err(), CrawlError::HttpTransport("down".into()));
    let empty = HtmlCrawlTally::new().finish().unwrap_err();
    assert_eq!(empty, CrawlError::Configuration("HTML crawl did not fetch any listing pages".into()));
    let mut ok = HtmlCrawlTally::new();
    ok.listing_read(3);
    assert_eq!(ok.finish().unwrap().matched_entries, 3);
}
