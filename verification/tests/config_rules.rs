use basango::config::{
    CommonSourceConfig, CrawlerConfig, HtmlSelectors, HtmlSourceConfig, MetadataStrategy, SourceConfig,
    WordPressSourceConfig,
};
use basango::domain::SourceId;
use basango::CrawlError;

fn wordpress(id: &str) -> SourceConfig {
    SourceConfig::WordPress(WordPressSourceConfig {
        common: CommonSourceConfig {
            date_format: "yyyy-LL-dd HH:mm".into(),
            id: SourceId::new(id).unwrap(),
            rate_limit: false,
            url: "https://wp.example.com/".into(),
        },
        metadata_strategy: MetadataStrategy::Auto,
    })
}

fn html(id: &str, template: &str, categories: Vec<String>) -> SourceConfig {
    SourceConfig::Html(Box::new(HtmlSourceConfig {
        common: CommonSourceConfig {
            date_format: "yyyy-LL-dd HH:mm".into(),
            id: SourceId::new(id).unwrap(),
            rate_limit: false,
            url: "https://news.example.com/".into(),
        },
        fetch_details: false,
        indexed_categories: categories,
        pagination_template: template.into(),
        selectors: HtmlSelectors {
            body: "div.body".into(),
            categories: None,
            date: "time".into(),
            link: "a".into(),
            list: "article".into(),
            title: "h1".into(),
            pagination: "ul.pagination > li a".into(),
        },
    }))
}

fn config_with(sources: Vec<SourceConfig>) -> CrawlerConfig {
    let mut config = CrawlerConfig::default();
    config.sources = sources;
    config
}

fn configuration_message(result: Result<(), CrawlError>) -> String {
    match result {
        Err(CrawlError::Configuration(message)) => message,
        other => panic!("expected a configuration error, got {other:?}"),
    }
}

#[test]
fn a_default_configuration_with_one_source_is_valid() {
    let config = config_with(vec![wordpress("wp")]);
    assert!(config.schema_issues().is_empty());
    assert_eq!(config.validate(true), Ok(()));
}

#[test]
fn a_configuration_needs_at_least_one_source() {
    let config = CrawlerConfig::default();
    assert_eq!(config.schema_issues(), vec!["sources: Too small: expected array to have >= 1 items".to_string()]);
    assert_eq!(
        configuration_message(config.validate(true)),
        "schema validation failed:\n  - sources: Too small: expected array to have >= 1 items"
    );
}

#[test]
fn schema_issues_name_each_field_and_rule() {
    let mut config = config_with(vec![wordpress("wp"), html("news", "/page/{page}", vec![])]);
    config.queue.redis_url = "http://localhost:6379".into();
    config.http.timeout = 0;
    config.queue.prefix = "  ".into();
    config.ingestion.endpoint = Some("ftp://api.example.com".into());
    if let SourceConfig::Html(source) = &mut config.sources[1] {
        source.selectors.title = String::new();
        source.common.url = "news.example.com".into();
    }
    assert_eq!(
        config.schema_issues(),
        vec![
            "ingestion.endpoint: Invalid URL".to_string(),
            "http.timeout: Invalid number: must be positive".to_string(),
            "queue.prefix: Invalid value: must match pattern \\S".to_string(),
            "queue.redis_url: Invalid value: must match pattern ^rediss?://".to_string(),
            "sources.1.url: Invalid URL".to_string(),
            "sources.1.selectors.title: Too small: expected string to have >= 1 characters".to_string(),
        ]
    );
}

#[test]
fn backoff_values_must_be_positive() {
    let mut config = config_with(vec![wordpress("wp")]);
    config.http.backoff.initial = 0.0f64.to_bits();
    config.http.backoff.max = (-1.5f64).to_bits();
    config.http.backoff.multiplier = f64::NAN.to_bits();
    assert_eq!(
        config.schema_issues(),
        vec![
            "http.backoff.initial: Invalid number: must be positive".to_string(),
            "http.backoff.max: Invalid number: must be positive".to_string(),
        ]
    );
}

#[test]
fn rediss_urls_are_accepted() {
    let mut config = config_with(vec![wordpress("wp")]);
    config.queue.redis_url = "rediss://cache.example.com:6380/1".into();
    assert!(config.schema_issues().is_empty());
}

#[test]
fn semantic_rules_follow_the_schema() {
    let config = config_with(vec![wordpress("wp"), wordpress("wp")]);
    assert_eq!(configuration_message(config.validate(true)), "duplicate source id 'wp'");

    let config = config_with(vec![wordpress("wp")]);
    assert_eq!(
        configuration_message(config.validate(false)),
        "http.backoff.max must be greater than or equal to http.backoff.initial"
    );

    let mut config = config_with(vec![wordpress("wp")]);
    config.queue.queues.articles = "discovery".into();
    assert_eq!(
        configuration_message(config.validate(true)),
        "discovery, article, and delivery queue names must be distinct"
    );

    let mut config = config_with(vec![wordpress("wp")]);
    config.ingestion.endpoint = Some("https://api.example.com".into());
    assert_eq!(
        configuration_message(config.validate(true)),
        "ingestion.token is required when ingestion.endpoint is configured"
    );
}

#[test]
fn indexed_categories_must_match_the_template() {
    let config = config_with(vec![html("news", "/{category}/page/{page}", vec![])]);
    assert_eq!(
        configuration_message(config.validate(true)),
        "HTML source 'news' uses {category} but has no indexed_categories"
    );

    let config = config_with(vec![html("news", "/page/{page}", vec!["sport".into()])]);
    assert_eq!(
        configuration_message(config.validate(true)),
        "HTML source 'news' declares indexed_categories but its pagination_template has no {category}"
    );

    let config = config_with(vec![html("news", "/{category}/{page}", vec!["Sport".into(), "sport".into()])]);
    assert_eq!(
        configuration_message(config.validate(true)),
        "duplicate indexed category 'sport' for source 'news'"
    );

    let config = config_with(vec![html("news", "/{category}/{page}", vec![" sport".into()])]);
    assert_eq!(
        configuration_message(config.validate(true)),
        "indexed category ' sport' for source 'news' has surrounding whitespace"
    );
}

#[test]
fn selectors_with_too_many_brackets_fail_the_schema() {
    let mut config = config_with(vec![html("news", "/page/{page}", vec![])]);
    if let SourceConfig::Html(source) = &mut config.sources[0] {
        source.selectors.body = ":is(".repeat(40);
    }
    assert_eq!(
        config.schema_issues(),
        vec!["sources.0.selectors.body: Too deeply nested: expected at most 32 opening parentheses".to_string()]
    );
}
