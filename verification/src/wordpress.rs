//! The rules of WordPress REST sources: the API addresses, paging, how a
//! post becomes an article draft, and the metadata a post carries.

use vstd::prelude::*;

use crate::bindings::{
    joined_url, markdown_of, url_append_pair, url_join, url_path, url_path_of,
    url_set_path, url_with_pair_of, url_with_path_of,
};
use crate::config::MetadataStrategy;
use crate::domain::{
    metadata_view, some_metadata, ArticleDraft, ArticleMetadata, MetadataView, PageRange, SourceId,
};
use crate::error::{concat3, CrawlError};
use crate::markup::{absolute_of, absolute_url, fragment_text_of, markdown, markup_convertible, pick, pick_of, text_from_html};
use crate::sources::{
    draft_view, error_is, opt_str_view, parse_published_at, published_at_of, DraftView, ReadError,
};
use crate::text::{
    append_str, decimal_string, decimal_text, opt_view, owned, parse_u32, parse_unsigned, push_char,
    views,
};

verus! {

// --- Posts -------------------------------------------------------------------------

#[derive(Debug, Clone, Default, PartialEq, Eq)]
pub struct RenderedField {
    pub rendered: String,
}

#[derive(Debug, Clone, Default, PartialEq, Eq)]
pub struct YoastImage {
    pub url: Option<String>,
}

#[derive(Debug, Clone, Default, PartialEq, Eq)]
pub struct YoastMetadata {
    pub article_modified_time: Option<String>,
    pub article_published_time: Option<String>,
    pub author: Option<String>,
    pub description: Option<String>,
    pub og_description: Option<String>,
    pub og_image: Vec<YoastImage>,
    pub og_title: Option<String>,
    pub og_url: Option<String>,
    pub title: Option<String>,
}

/// The fields of a post the crawler asks the REST API for.
#[derive(Debug, Clone, Default, PartialEq, Eq)]
pub struct WordPressPost {
    pub categories: Vec<u64>,
    pub content: RenderedField,
    pub date: Option<String>,
    pub excerpt: RenderedField,
    pub link: Option<String>,
    pub slug: Option<String>,
    pub title: RenderedField,
    pub yoast_head_json: Option<YoastMetadata>,
}

/// The URL of the first Open Graph image that has one.
pub open spec fn first_image_url(images: Seq<YoastImage>) -> Option<Seq<char>>
    decreases images.len(),
{
    if images.len() == 0 {
        None
    } else {
        match images[0].url {
            Some(u) => Some(u@),
            None => first_image_url(images.drop_first()),
        }
    }
}

pub open spec fn resolved_against(link: Seq<char>, value: Option<Seq<char>>) -> Option<Seq<char>> {
    match value {
        Some(v) => absolute_of(link, v),
        None => None,
    }
}

/// The metadata Yoast SEO attaches to a post, field by field.
pub open spec fn yoast_fields(y: YoastMetadata, date: Option<String>, link: Seq<char>) -> MetadataView {
    MetadataView {
        author: pick_of(seq![opt_view(y.author)]),
        description: pick_of(seq![opt_view(y.og_description), opt_view(y.description)]),
        image: resolved_against(link, pick_of(seq![first_image_url(y.og_image@)])),
        published_at: pick_of(seq![opt_view(y.article_published_time), opt_view(date)]),
        title: pick_of(seq![opt_view(y.og_title), opt_view(y.title)]),
        updated_at: pick_of(seq![opt_view(y.article_modified_time)]),
        url: resolved_against(link, pick_of(seq![opt_view(y.og_url), Some(link)])),
    }
}

/// Yoast metadata of a post, when it has any.
pub open spec fn yoast_of(post: WordPressPost, link: Seq<char>) -> Option<MetadataView> {
    match post.yoast_head_json {
        None => None,
        Some(y) => some_metadata(yoast_fields(y, post.date, link)),
    }
}

/// Metadata read from the post's own REST fields, when any.
pub open spec fn rest_of(post: WordPressPost) -> Option<MetadataView> {
    some_metadata(
        MetadataView {
            title: fragment_text_of(post.title.rendered@),
            description: fragment_text_of(post.excerpt.rendered@),
            url: opt_view(post.link),
            published_at: opt_view(post.date),
            author: None,
            image: None,
            updated_at: None,
        },
    )
}

fn one(a: Option<String>) -> (r: Option<String>)
    ensures
        opt_view(r) == pick_of(seq![opt_view(a)]),
{
    let mut v: Vec<Option<String>> = Vec::new();
    v.push(a);
    let r = pick(v);
    assert(v@.map_values(|o: Option<String>| opt_view(o)) =~= seq![opt_view(a)]);
    r
}

fn two(a: Option<String>, b: Option<String>) -> (r: Option<String>)
    ensures
        opt_view(r) == pick_of(seq![opt_view(a), opt_view(b)]),
{
    let mut v: Vec<Option<String>> = Vec::new();
    v.push(a);
    v.push(b);
    let r = pick(v);
    assert(v@.map_values(|o: Option<String>| opt_view(o)) =~= seq![opt_view(a), opt_view(b)]);
    r
}

fn copy(o: &Option<String>) -> (r: Option<String>)
    ensures
        opt_view(r) == opt_view(*o),
{
    match o {
        Some(s) => Some(owned(s.as_str())),
        None => None,
    }
}

fn image_url(images: &Vec<YoastImage>) -> (r: Option<String>)
    ensures
        opt_view(r) == first_image_url(images@),
{
    let mut i: usize = 0;
    assert(images@.skip(0) =~= images@);
    while i < images.len()
        invariant
            i <= images.len(),
            first_image_url(images@) == first_image_url(images@.skip(i as int)),
        decreases images.len() - i,
    {
        assert(images@.skip(i as int)[0] == images@[i as int]);
        assert(images@.skip(i as int).drop_first() =~= images@.skip(i + 1));
        if images[i].url.is_some() {
            return copy(&images[i].url);
        }
        i = i + 1;
    }
    None
}

fn resolve_against(link: &str, value: Option<String>) -> (r: Option<String>)
    ensures
        opt_view(r) == resolved_against(link@, opt_view(value)),
{
    match value {
        Some(v) => absolute_url(link, v.as_str()),
        None => None,
    }
}

fn keep_nonempty(m: ArticleMetadata) -> (r: Option<ArticleMetadata>)
    ensures
        metadata_view(r) == some_metadata(m@),
{
    if m.is_empty() {
        None
    } else {
        Some(m)
    }
}

/// The Yoast SEO metadata of a post; relative links resolve against the
/// post's link.
pub fn yoast_metadata(post: &WordPressPost, link: &str) -> (r: Option<ArticleMetadata>)
    ensures
        metadata_view(r) == yoast_of(*post, link@),
{
    let y = match &post.yoast_head_json {
        Some(y) => y,
        None => {
            return None;
        },
    };
    let metadata = ArticleMetadata {
        author: one(copy(&y.author)),
        description: two(copy(&y.og_description), copy(&y.description)),
        image: resolve_against(link, one(image_url(&y.og_image))),
        published_at: two(copy(&y.article_published_time), copy(&post.date)),
        title: two(copy(&y.og_title), copy(&y.title)),
        updated_at: one(copy(&y.article_modified_time)),
        url: resolve_against(link, two(copy(&y.og_url), Some(owned(link)))),
    };
    keep_nonempty(metadata)
}

/// The metadata of a post's own REST fields.
pub fn rest_metadata(post: &WordPressPost) -> (r: Option<ArticleMetadata>)
    ensures
        metadata_view(r) == rest_of(*post),
{
    let metadata = ArticleMetadata {
        title: text_from_html(post.title.rendered.as_str()),
        description: text_from_html(post.excerpt.rendered.as_str()),
        url: copy(&post.link),
        published_at: copy(&post.date),
        author: None,
        image: None,
        updated_at: None,
    };
    keep_nonempty(metadata)
}

} // verus!

verus! {

// --- Metadata strategy -------------------------------------------------------------

/// The metadata a strategy reads from the post itself, and whether the
/// article page is to be fetched for its Open Graph metadata instead.
pub open spec fn metadata_plan_of(strategy: MetadataStrategy, post: WordPressPost, link: Seq<char>) -> (
    Option<MetadataView>,
    bool,
) {
    let extracted = match strategy {
        MetadataStrategy::NoMetadata | MetadataStrategy::Fetch => None,
        MetadataStrategy::Yoast => yoast_of(post, link),
        MetadataStrategy::Rest => rest_of(post),
        MetadataStrategy::Auto => match yoast_of(post, link) {
            Some(m) => Some(m),
            None => rest_of(post),
        },
    };
    let fetch = strategy == MetadataStrategy::Fetch || (strategy == MetadataStrategy::Auto
        && extracted is None);
    (extracted, fetch)
}

/// The automatic strategy prefers Yoast: whenever the post's Yoast
/// metadata has a field, it is what the automatic strategy extracts, and
/// nothing is fetched; only when Yoast gives nothing does it take the REST
/// fields, and it fetches the page when those give nothing either.
pub proof fn lemma_auto_prefers_yoast(post: WordPressPost, link: Seq<char>)
    ensures
        yoast_of(post, link) is Some ==> metadata_plan_of(MetadataStrategy::Auto, post, link)
            == metadata_plan_of(MetadataStrategy::Yoast, post, link),
        yoast_of(post, link) is None ==> metadata_plan_of(MetadataStrategy::Auto, post, link).0
            == metadata_plan_of(MetadataStrategy::Rest, post, link).0,
        metadata_plan_of(MetadataStrategy::Auto, post, link).1 <==> (yoast_of(post, link) is None
            && rest_of(post) is None),
{
}

/// What the strategy extracts, and whether to fetch the page's Open Graph
/// metadata (which then replaces it).
pub fn metadata_plan(strategy: MetadataStrategy, post: &WordPressPost, link: &str) -> (r: (
    Option<ArticleMetadata>,
    bool,
))
    ensures
        metadata_view(r.0) == metadata_plan_of(strategy, *post, link@).0,
        r.1 == metadata_plan_of(strategy, *post, link@).1,
{
    let extracted = match strategy {
        MetadataStrategy::NoMetadata | MetadataStrategy::Fetch => None,
        MetadataStrategy::Yoast => yoast_metadata(post, link),
        MetadataStrategy::Rest => rest_metadata(post),
        MetadataStrategy::Auto => match yoast_metadata(post, link) {
            Some(m) => Some(m),
            None => rest_metadata(post),
        },
    };
    let fetch = match strategy {
        MetadataStrategy::Fetch => true,
        MetadataStrategy::Auto => extracted.is_none(),
        _ => false,
    };
    (extracted, fetch)
}

// --- Drafts ------------------------------------------------------------------------

/// The link, title and publication instant of a post, or why it cannot
/// become an article.
pub open spec fn post_head_of(post: WordPressPost, date_format: Seq<char>) -> Result<
    (Seq<char>, Seq<char>, int),
    ReadError,
> {
    match post.link {
        None => Err(ReadError::Invalid("missing WordPress article link"@)),
        Some(link) => {
            let title = match fragment_text_of(post.title.rendered@) {
                Some(t) => t,
                None => match post.slug {
                    Some(s) => s@,
                    None => "Untitled"@,
                },
            };
            match post.date {
                None => Err(ReadError::Invalid("missing WordPress article date"@)),
                Some(raw) => match published_at_of(raw@, date_format) {
                    None => Err(ReadError::Invalid("cannot parse WordPress date '"@ + raw@ + "'"@)),
                    Some(t) => Ok((link@, title, t)),
                },
            }
        },
    }
}

/// Checks a post before its categories and metadata are looked up.
pub fn post_head(post: &WordPressPost, date_format: &str) -> (r: Result<(String, String, i128), CrawlError>)
    ensures
        r is Ok <==> post_head_of(*post, date_format@) is Ok,
        r matches Ok(h) ==> post_head_of(*post, date_format@) == Ok::<(Seq<char>, Seq<char>, int), ReadError>(
            (h.0@, h.1@, h.2 as int),
        ),
        r matches Err(e) ==> (post_head_of(*post, date_format@) matches Err(f) && error_is(e, f)),
{
    let link = match &post.link {
        Some(l) => owned(l.as_str()),
        None => {
            return Err(CrawlError::InvalidArticle(owned("missing WordPress article link")));
        },
    };
    let title = match text_from_html(post.title.rendered.as_str()) {
        Some(t) => t,
        None => match &post.slug {
            Some(s) => owned(s.as_str()),
            None => owned("Untitled"),
        },
    };
    let raw = match &post.date {
        Some(d) => d,
        None => {
            return Err(CrawlError::InvalidArticle(owned("missing WordPress article date")));
        },
    };
    match parse_published_at(raw.as_str(), date_format) {
        Some(t) => Ok((link, title, t)),
        None => Err(
            CrawlError::InvalidArticle(concat3("cannot parse WordPress date '", raw.as_str(), "'")),
        ),
    }
}

/// A post as an article draft, given the category names and metadata found
/// for it; the body is the post content as Markdown. Content the converter
/// cannot take (see `markup_convertible`) is refused as an invalid article.
pub fn post_to_draft(
    post: &WordPressPost,
    date_format: &str,
    source_id: &SourceId,
    categories: Vec<String>,
    metadata: Option<ArticleMetadata>,
) -> (r: Result<ArticleDraft, CrawlError>)
    ensures
        r is Ok <==> post_head_of(*post, date_format@) is Ok && markup_convertible(post.content.rendered@),
        r matches Ok(d) ==> ({
            let h = post_head_of(*post, date_format@)->Ok_0;
            &&& draft_view(d) == (DraftView {
                title: h.1,
                body: markdown_of(post.content.rendered@),
                link: h.0,
                categories: views(categories@),
                metadata: metadata_view(metadata),
                published_at: h.2,
            })
            &&& d.source_id@ == source_id@
        }),
        r matches Err(e) ==> (post_head_of(*post, date_format@) matches Err(f) && error_is(e, f)) || (
        post_head_of(*post, date_format@) is Ok && !markup_convertible(post.content.rendered@) && error_is(
            e,
            ReadError::Invalid("WordPress article body cannot be converted to Markdown"@),
        )),
{
    let (link, title, published_at) = post_head(post, date_format)?;
    let body = match markdown(post.content.rendered.as_str()) {
        Some(b) => b,
        None => {
            return Err(CrawlError::InvalidArticle(owned("WordPress article body cannot be converted to Markdown")));
        },
    };
    Ok(
        ArticleDraft {
            title,
            body,
            link,
            source_id: source_id.clone(),
            categories,
            metadata,
            published_at,
        },
    )
}

} // verus!

verus! {

// --- Categories --------------------------------------------------------------------

pub open spec fn ascending(s: Seq<u64>) -> bool {
    forall|i: int, j: int| 0 <= i <= j < s.len() ==> s[i] <= s[j]
}

/// The identifiers in ascending order.
pub fn sort_ids(ids: &Vec<u64>) -> (r: Vec<u64>)
    ensures
        ascending(r@),
        r@.to_multiset() == ids@.to_multiset(),
{
    let mut r: Vec<u64> = Vec::new();
    let mut i: usize = 0;
    assert(ids@.take(0) =~= r@);
    while i < ids.len()
        invariant
            i <= ids.len(),
            ascending(r@),
            r@.to_multiset() == ids@.take(i as int).to_multiset(),
        decreases ids.len() - i,
    {
        let x = ids[i];
        let mut k: usize = 0;
        while k < r.len() && r[k] <= x
            invariant
                k <= r.len(),
                forall|j: int| 0 <= j < k ==> r@[j] <= x,
            decreases r.len() - k,
        {
            k = k + 1;
        }
        let ghost before = r@;
        proof {
            vstd::seq_lib::to_multiset_insert(before, k as int, x);
            vstd::seq_lib::to_multiset_build(ids@.take(i as int), x);
            assert(ids@.take(i + 1) =~= ids@.take(i as int).push(x));
        }
        r.insert(k, x);
        assert(r@ == before.insert(k as int, x));
        assert forall|a: int, b: int| 0 <= a <= b < r@.len() implies r@[a] <= r@[b] by {
            if a < k && b > k {
                assert(r@[a] == before[a]);
                assert(r@[b] == before[b - 1]);
            } else if a < k && b == k {
                assert(r@[a] == before[a]);
            } else if a == k && b > k {
                assert(r@[b] == before[b - 1]);
                assert(k < before.len() ==> before[k as int] > x);
                assert(before[k as int] <= before[b - 1]);
            } else if a > k {
                assert(r@[a] == before[a - 1]);
                assert(r@[b] == before[b - 1]);
            } else if b < k {
                assert(r@[a] == before[a]);
                assert(r@[b] == before[b]);
            }
        }
        i = i + 1;
    }
    assert(ids@.take(ids.len() as int) =~= ids@);
    r
}

/// The slug a category table gives an identifier: the last entry for it.
pub open spec fn slug_of(table: Seq<(u64, Seq<char>)>, id: u64) -> Option<Seq<char>>
    decreases table.len(),
{
    if table.len() == 0 {
        None
    } else if table.last().0 == id {
        Some(table.last().1)
    } else {
        slug_of(table.drop_last(), id)
    }
}

/// The slugs of the identifiers the table knows, in the given order.
pub open spec fn slugs_of(table: Seq<(u64, Seq<char>)>, ids: Seq<u64>) -> Seq<Seq<char>>
    decreases ids.len(),
{
    if ids.len() == 0 {
        Seq::empty()
    } else {
        let rest = slugs_of(table, ids.drop_last());
        match slug_of(table, ids.last()) {
            Some(s) => rest.push(s),
            None => rest,
        }
    }
}

pub open spec fn table_view(table: Seq<(u64, String)>) -> Seq<(u64, Seq<char>)> {
    table.map_values(|e: (u64, String)| (e.0, e.1@))
}

fn slug_lookup(table: &Vec<(u64, String)>, id: u64) -> (r: Option<String>)
    ensures
        opt_view(r) == slug_of(table_view(table@), id),
{
    let ghost t = table_view(table@);
    let mut k: usize = table.len();
    assert(t.take(k as int) =~= t);
    while k > 0
        invariant
            k <= table.len(),
            t == table_view(table@),
            slug_of(t, id) == slug_of(t.take(k as int), id),
        decreases k,
    {
        assert(t.take(k as int).last() == (table@[k - 1].0, table@[k - 1].1@));
        assert(t.take(k as int).drop_last() =~= t.take(k - 1));
        if table[k - 1].0 == id {
            return Some(owned(table[k - 1].1.as_str()));
        }
        k = k - 1;
    }
    None
}

/// The slugs of a post's categories, in ascending order of identifier;
/// identifiers the table does not know are left out.
pub fn map_categories(ids: &Vec<u64>, table: &Vec<(u64, String)>) -> (r: Vec<String>)
    ensures
        exists|sorted: Seq<u64>|
            ascending(sorted) && sorted.to_multiset() == ids@.to_multiset() && views(r@)
                == slugs_of(table_view(table@), sorted),
{
    let sorted = sort_ids(ids);
    let mut r: Vec<String> = Vec::new();
    let mut i: usize = 0;
    while i < sorted.len()
        invariant
            i <= sorted.len(),
            views(r@) == slugs_of(table_view(table@), sorted@.take(i as int)),
        decreases sorted.len() - i,
    {
        assert(sorted@.take(i + 1).drop_last() =~= sorted@.take(i as int));
        assert(sorted@.take(i + 1).last() == sorted@[i as int]);
        match slug_lookup(table, sorted[i]) {
            Some(s) => {
                let ghost before = r@;
                r.push(s);
                assert(views(r@) =~= views(before).push(r@.last()@));
            },
            None => {},
        }
        i = i + 1;
    }
    assert(sorted@.take(sorted.len() as int) =~= sorted@);
    r
}

} // verus!

verus! {

// --- REST addresses ----------------------------------------------------------------

/// The source URL as a directory: its path gets a trailing `/` when it has
/// none, so that joining keeps a configured subpath.
pub open spec fn directory_base(base: Seq<char>) -> Option<Seq<char>> {
    match url_path_of(base) {
        None => None,
        Some(p) => if p.len() > 0 && p.last() == '/' {
            Some(base)
        } else {
            url_with_path_of(base, p.push('/'))
        },
    }
}

pub open spec fn api_url_of(base: Seq<char>, path: Seq<char>) -> Option<Seq<char>> {
    match directory_base(base) {
        Some(b) => joined_url(b, path),
        None => None,
    }
}

/// `path` below the source URL.
pub fn api_url(base: &str, path: &str) -> (r: Result<String, CrawlError>)
    ensures
        r is Ok <==> api_url_of(base@, path@) is Some,
        r matches Ok(u) ==> api_url_of(base@, path@) == Some(u@),
        r is Err ==> r->Err_0 is Url,
{
    let current = match url_path(base) {
        Some(p) => p,
        None => {
            return Err(CrawlError::Url(concat3("invalid source URL '", base, "'")));
        },
    };
    let v = crate::text::chars_of(current.as_str());
    let directory = if v.len() > 0 && v[v.len() - 1] == '/' {
        owned(base)
    } else {
        let mut with_slash = owned(current.as_str());
        push_char(&mut with_slash, '/');
        match url_set_path(base, with_slash.as_str()) {
            Some(u) => u,
            None => {
                return Err(CrawlError::Url(concat3("invalid source URL '", base, "'")));
            },
        }
    };
    match url_join(directory.as_str(), path) {
        Ok(u) => Ok(u),
        Err(m) => Err(CrawlError::Url(m)),
    }
}

/// The URL after appending each query pair in order.
pub open spec fn with_pairs_of(url: Seq<char>, pairs: Seq<(Seq<char>, Seq<char>)>) -> Option<Seq<char>>
    decreases pairs.len(),
{
    if pairs.len() == 0 {
        Some(url)
    } else {
        match with_pairs_of(url, pairs.drop_last()) {
            Some(u) => url_with_pair_of(u, pairs.last().0, pairs.last().1),
            None => None,
        }
    }
}

pub open spec fn pair_views(pairs: Seq<(&str, &str)>) -> Seq<(Seq<char>, Seq<char>)> {
    pairs.map_values(|p: (&str, &str)| (p.0@, p.1@))
}

fn with_pairs(url: &str, pairs: &Vec<(&str, &str)>) -> (r: Result<String, CrawlError>)
    ensures
        r is Ok <==> with_pairs_of(url@, pair_views(pairs@)) is Some,
        r matches Ok(u) ==> with_pairs_of(url@, pair_views(pairs@)) == Some(u@),
        r is Err ==> r->Err_0 is Url,
{
    let ghost all = pair_views(pairs@);
    let mut u = owned(url);
    let mut i: usize = 0;
    assert(all.take(0) =~= Seq::<(Seq<char>, Seq<char>)>::empty());
    while i < pairs.len()
        invariant
            i <= pairs.len(),
            all == pair_views(pairs@),
            with_pairs_of(url@, all.take(i as int)) == Some(u@),
        decreases pairs.len() - i,
    {
        assert(all.take(i + 1).drop_last() =~= all.take(i as int));
        assert(all.take(i + 1).last() == (pairs@[i as int].0@, pairs@[i as int].1@));
        let (key, value) = pairs[i];
        let next = url_append_pair(u.as_str(), key, value);
        match next {
            Some(n) => {
                u = n;
            },
            None => {
                proof {
                    assert(with_pairs_of(url@, all.take(i + 1)) is None);
                    lemma_pairs_fail(url@, all, i as int);
                }
                return Err(CrawlError::Url(concat3("invalid URL '", u.as_str(), "'")));
            },
        }
        i = i + 1;
    }
    assert(all.take(pairs.len() as int) =~= all);
    Ok(u)
}

/// Once appending a pair fails, appending more fails too.
proof fn lemma_pairs_fail(url: Seq<char>, pairs: Seq<(Seq<char>, Seq<char>)>, i: int)
    requires
        0 <= i < pairs.len(),
        with_pairs_of(url, pairs.take(i + 1)) is None,
    ensures
        with_pairs_of(url, pairs) is None,
    decreases pairs.len() - i,
{
    if i + 1 < pairs.len() {
        assert(pairs.take(i + 2).drop_last() =~= pairs.take(i + 1));
        lemma_pairs_fail(url, pairs, i + 1);
    } else {
        assert(pairs.take(i + 1) =~= pairs);
    }
}

/// The fields asked for each post.
pub open spec fn post_fields() -> Seq<char> {
    "date,slug,link,title.rendered,content.rendered,excerpt.rendered,categories,yoast_head_json"@
}

pub open spec fn page_pairs(page: u32) -> Seq<(Seq<char>, Seq<char>)> {
    seq![
        ("_fields"@, post_fields()),
        ("orderby"@, "date"@),
        ("order"@, "desc"@),
        ("page"@, decimal_text(page as nat)),
        ("per_page"@, "100"@),
    ]
}

pub open spec fn posts_url_of(base: Seq<char>, pairs: Seq<(Seq<char>, Seq<char>)>) -> Option<Seq<char>> {
    match api_url_of(base, "wp-json/wp/v2/posts"@) {
        Some(u) => with_pairs_of(u, pairs),
        None => None,
    }
}

/// The REST URL of a page of posts, newest first, a hundred per page.
pub fn page_url(base: &str, page: u32) -> (r: Result<String, CrawlError>)
    ensures
        r is Ok <==> posts_url_of(base@, page_pairs(page)) is Some,
        r matches Ok(u) ==> posts_url_of(base@, page_pairs(page)) == Some(u@),
        r is Err ==> r->Err_0 is Url,
{
    let url = api_url(base, "wp-json/wp/v2/posts")?;
    let page_text = decimal_string(page as u64);
    let mut pairs: Vec<(&str, &str)> = Vec::new();
    pairs.push(
        (
            "_fields",
            "date,slug,link,title.rendered,content.rendered,excerpt.rendered,categories,yoast_head_json",
        ),
    );
    pairs.push(("orderby", "date"));
    pairs.push(("order", "desc"));
    pairs.push(("page", page_text.as_str()));
    pairs.push(("per_page", "100"));
    assert(pair_views(pairs@) =~= page_pairs(page));
    with_pairs(url.as_str(), &pairs)
}

pub open spec fn count_pairs() -> Seq<(Seq<char>, Seq<char>)> {
    seq![("_fields"@, "id"@), ("per_page"@, "100"@)]
}

/// The REST URL asked for the number of pages of posts.
pub fn pagination_url(base: &str) -> (r: Result<String, CrawlError>)
    ensures
        r is Ok <==> posts_url_of(base@, count_pairs()) is Some,
        r matches Ok(u) ==> posts_url_of(base@, count_pairs()) == Some(u@),
        r is Err ==> r->Err_0 is Url,
{
    let url = api_url(base, "wp-json/wp/v2/posts")?;
    let mut pairs: Vec<(&str, &str)> = Vec::new();
    pairs.push(("_fields", "id"));
    pairs.push(("per_page", "100"));
    assert(pair_views(pairs@) =~= count_pairs());
    with_pairs(url.as_str(), &pairs)
}

pub open spec fn category_pairs() -> Seq<(Seq<char>, Seq<char>)> {
    seq![
        ("_fields"@, "id,slug,count"@),
        ("orderby"@, "count"@),
        ("order"@, "desc"@),
        ("per_page"@, "100"@),
    ]
}

pub open spec fn categories_url_of(base: Seq<char>) -> Option<Seq<char>> {
    match api_url_of(base, "wp-json/wp/v2/categories"@) {
        Some(u) => with_pairs_of(u, category_pairs()),
        None => None,
    }
}

/// The REST URL of the most used categories.
pub fn categories_url(base: &str) -> (r: Result<String, CrawlError>)
    ensures
        r is Ok <==> categories_url_of(base@) is Some,
        r matches Ok(u) ==> categories_url_of(base@) == Some(u@),
        r is Err ==> r->Err_0 is Url,
{
    let url = api_url(base, "wp-json/wp/v2/categories")?;
    let mut pairs: Vec<(&str, &str)> = Vec::new();
    pairs.push(("_fields", "id,slug,count"));
    pairs.push(("orderby", "count"));
    pairs.push(("order", "desc"));
    pairs.push(("per_page", "100"));
    assert(pair_views(pairs@) =~= category_pairs());
    with_pairs(url.as_str(), &pairs)
}

// --- Paging ------------------------------------------------------------------------

/// A numeric response header, when it is one.
pub fn header_number(value: Option<&str>) -> (r: Option<u32>)
    ensures
        r == (match value {
            Some(v) => match parse_unsigned(v@, u32::MAX as int) {
                Some(n) => Some(n as u32),
                None => None,
            },
            None => None,
        }),
{
    match value {
        Some(v) => parse_u32(v),
        None => None,
    }
}

/// Pages 1 to the total the API reports (at least 1; 1 when unreported).
pub fn wordpress_pages(total_pages: Option<u32>) -> (r: PageRange)
    ensures
        r.start == 1,
        r.end == (match total_pages {
            Some(n) => if n < 1 {
                1
            } else {
                n
            },
            None => 1,
        }),
{
    let pages = match total_pages {
        Some(n) => n,
        None => 1,
    };
    PageRange { start: 1, end: if pages < 1 { 1 } else { pages } }
}

/// The positions of the posts that have a link, in order: those are the
/// articles a discovery page queues.
pub fn linked_posts(posts: &Vec<WordPressPost>) -> (r: Vec<usize>)
    ensures
        forall|k: int| 0 <= k < r@.len() ==> r@[k] < posts@.len() && (#[trigger] posts@[r@[k] as int]).link
            is Some,
        forall|i: int| 0 <= i < posts@.len() && (#[trigger] posts@[i]).link is Some ==> r@.contains(i as usize),
        forall|a: int, b: int| 0 <= a < b < r@.len() ==> r@[a] < r@[b],
{
    let mut r: Vec<usize> = Vec::new();
    let mut i: usize = 0;
    while i < posts.len()
        invariant
            i <= posts.len(),
            forall|k: int| 0 <= k < r@.len() ==> #[trigger] r@[k] < i,
            forall|k: int| 0 <= k < r@.len() ==> (#[trigger] posts@[r@[k] as int]).link is Some,
            forall|j: int| 0 <= j < i && (#[trigger] posts@[j]).link is Some ==> r@.contains(j as usize),
            forall|a: int, b: int| 0 <= a < b < r@.len() ==> r@[a] < r@[b],
        decreases posts.len() - i,
    {
        if posts[i].link.is_some() {
            let ghost before = r@;
            r.push(i);
            assert forall|a: int, b: int| 0 <= a < b < r@.len() implies r@[a] < r@[b] by {
                if b == before.len() {
                    assert(r@[a] == before[a]);
                    assert(before[a] < i);
                } else {
                    assert(r@[a] == before[a]);
                    assert(r@[b] == before[b]);
                }
            }
            assert forall|j: int| 0 <= j <= i && (#[trigger] posts@[j]).link is Some implies r@.contains(
                j as usize,
            ) by {
                if j < i {
                    let k = choose|k: int| 0 <= k < before.len() && before[k] == j as usize;
                    assert(r@[k] == j as usize);
                } else {
                    assert(r@[before.len() as int] == i);
                }
            }
        }
        i = i + 1;
    }
    r
}

} // verus!
