use basango::config::MetadataStrategy;
use basango::domain::SourceId;
use basango::wordpress::{
    api_url, categories_url, header_number, linked_posts, map_categories, metadata_plan, page_url,
    pagination_url, post_to_draft, rest_metadata, sort_ids, wordpress_pages, RenderedField, WordPressPost,
};
use basango::CrawlError;

fn post() -> WordPressPost {
    WordPressPost {
        categories: vec![9, 2, 5],
        content: RenderedField { rendered: "<p>Body</p>".into() },
        date: Some("2025-01-02T03:04:05".into()),
        excerpt: RenderedField { rendered: "<p>Short</p>".into() },
        link: Some("https://wp.example.com/story".into()),
        slug: Some("story".into()),
        title: RenderedField { rendered: "<b>Title</b>".into() },
        yoast_head_json: None,
    }
}

#[test]
fn rest_addresses_keep_the_configured_subpath() {
    assert_eq!(api_url("https://wp.example.com/blog", "wp-json/wp/v2/posts").unwrap(), "https://wp.example.com/blog/wp-json/wp/v2/posts");
    assert_eq!(
        page_url("https://wp.example.com/", 3).unwrap(),
        "https://wp.example.com/wp-json/wp/v2/posts?_fields=date%2Cslug%2Clink%2Ctitle.rendered%2Ccontent.rendered%2Cexcerpt.rendered%2Ccategories%2Cyoast_head_json&orderby=date&order=desc&page=3&per_page=100"
    );
    assert_eq!(pagination_url("https://wp.example.com").unwrap(), "https://wp.example.com/wp-json/wp/v2/posts?_fields=id&per_page=100");
    assert_eq!(
        categories_url("https://wp.example.com").unwrap(),
        "https://wp.example.com/wp-json/wp/v2/categories?_fields=id%2Cslug%2Ccount&orderby=count&order=desc&per_page=100"
    );
}

#[test]
fn pages_come_from_the_total_header() {
    assert_eq!(header_number(Some("12")), Some(12));
    assert_eq!(header_number(Some("many")), None);
    let range = wordpress_pages(Some(0));
    assert_eq!((range.start, range.end), (1, 1));
    let range = wordpress_pages(Some(4));
    assert_eq!((range.start, range.end), (1, 4));
    let range = wordpress_pages(None);
    assert_eq!((range.start, range.end), (1, 1));
}

#[test]
fn categories_are_named_in_identifier_order() {
    assert_eq!(sort_ids(&vec![9, 2, 5, 2]), vec![2, 2, 5, 9]);
    let table = vec![(2, "politics".to_string()), (9, "sport".to_string()), (2, "news".to_string())];
    assert_eq!(map_categories(&vec![9, 2, 5], &table), vec!["news".to_string(), "sport".to_string()]);
}

#[test]
fn posts_become_drafts() {
    let id = SourceId::new("wp").unwrap();
    let draft = post_to_draft(&post(), "yyyy-LL-dd", &id, vec!["news".into()], None).unwrap();
    assert_eq!(draft.title, "Title");
    assert_eq!(draft.link, "https://wp.example.com/story");
    assert_eq!(draft.published_at, 1_735_787_045_000_000_000);
    assert!(draft.body.contains("Body"));
    let mut untitled = post();
    untitled.title = RenderedField { rendered: " ".into() };
    untitled.slug = None;
    assert_eq!(post_to_draft(&untitled, "x", &id, vec![], None).unwrap().title, "Untitled");
    let mut missing = post();
    missing.link = None;
    assert_eq!(
        post_to_draft(&missing, "x", &id, vec![], None).unwrap_err(),
        CrawlError::InvalidArticle("missing WordPress article link".into())
    );
    let mut undated = post();
    undated.date = Some("someday".into());
    assert_eq!(
        post_to_draft(&undated, "x", &id, vec![], None).unwrap_err(),
        CrawlError::InvalidArticle("cannot parse WordPress date 'someday'".into())
    );
}

#[test]
fn metadata_strategies_choose_their_source() {
    let p = post();
    let rest = rest_metadata(&p).unwrap();
    assert_eq!(rest.title.as_deref(), Some("Title"));
    assert_eq!(rest.description.as_deref(), Some("Short"));
    let (extracted, fetch) = metadata_plan(MetadataStrategy::Auto, &p, "https://wp.example.com/story");
    assert_eq!(extracted, Some(rest.clone()));
    assert!(!fetch);
    let (extracted, fetch) = metadata_plan(MetadataStrategy::Fetch, &p, "https://wp.example.com/story");
    assert_eq!(extracted, None);
    assert!(fetch);
    let (extracted, fetch) = metadata_plan(MetadataStrategy::NoMetadata, &p, "https://wp.example.com/story");
    assert_eq!((extracted, fetch), (None, false));
}

#[test]
fn only_linked_posts_are_discovered() {
    let mut unlinked = post();
    unlinked.link = None;
    assert_eq!(linked_posts(&vec![post(), unlinked, post()]), vec![0, 2]);
}
