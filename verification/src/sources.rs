//! The rules of the two source kinds: how listing pages are addressed and
//! paged, how an article is read from its HTML or from a WordPress post, and
//! which articles a requested publication range keeps.

use vstd::prelude::*;

use crate::bindings::{
    markdown_of, naive_date_of, naive_datetime_of, parse_naive_date, parse_naive_datetime, parse_rfc2822,
    parse_rfc3339, query_pairs_of, regex_capture_of, regex_first_capture, rfc2822_of, rfc3339_of,
    url_append_pair, url_query_pairs, url_with_pair_of,
};
use crate::config::HtmlSourceConfig;
use crate::domain::{
    day_start, instant_of, metadata_view, ArticleDraft, DateRange, MetadataView, PageRange,
};
use crate::error::{concat3, CrawlError};
use crate::markup::{
    absolute_of, markdown, markup_convertible, absolute_url, attr_href, consume_html, element_text, element_text_of,
    element_views, extract_attribute, extract_text, first_link, first_text, invalid_selector_message,
    join_strings, join_with, link_of, open_graph_of, select, selection, well_read, ElementView,
};
use crate::progress::new_ids;
use crate::text::{
    append_str, chars_of, contains_seq, contains_str, contains_string, decimal_string, decimal_text,
    is_blank,
    lowercase,
    occurs_at, occurs_at_exec, opt_view, owned, parse_u32, parse_unsigned, push_char, str_eq, trim,
    trimmed, unicode_lowercase, views,
};

verus! {

// --- Text replacement --------------------------------------------------------------

/// `s.replace(pattern, with)` for a non-empty pattern: every occurrence,
/// scanning from the left without overlap, is replaced.
pub open spec fn replace_all(s: Seq<char>, pattern: Seq<char>, with: Seq<char>) -> Seq<char>
    decreases s.len(),
{
    if pattern.len() == 0 || s.len() < pattern.len() {
        s
    } else if s.take(pattern.len() as int) == pattern {
        with + replace_all(s.skip(pattern.len() as int), pattern, with)
    } else {
        seq![s[0]] + replace_all(s.skip(1), pattern, with)
    }
}

pub fn replace_text(s: &str, pattern: &str, with: &str) -> (r: String)
    requires
        pattern@.len() > 0,
    ensures
        r@ == replace_all(s@, pattern@, with@),
{
    let v = chars_of(s);
    let p = chars_of(pattern);
    let w = chars_of(with);
    let mut out = String::new();
    let mut i: usize = 0;
    assert(v@.skip(0) =~= v@);
    assert(out@ + replace_all(v@, p@, w@) =~= replace_all(v@, p@, w@));
    while i < v.len()
        invariant
            i <= v.len(),
            v@ == s@,
            p@ == pattern@,
            w@ == with@,
            p@.len() > 0,
            replace_all(s@, pattern@, with@) == out@ + replace_all(v@.skip(i as int), p@, w@),
        decreases v.len() - i,
    {
        let ghost rest = v@.skip(i as int);
        if occurs_at_exec(&v, &p, i) {
            proof {
                assert(rest.take(p@.len() as int) =~= v@.subrange(i as int, i + p@.len()));
                assert(rest.skip(p@.len() as int) =~= v@.skip(i + p@.len()));
            }
            let mut k: usize = 0;
            let ghost before = out@;
            while k < w.len()
                invariant
                    k <= w.len(),
                    out@ == before + w@.take(k as int),
                decreases w.len() - k,
            {
                push_char(&mut out, w[k]);
                assert(w@.take(k + 1) =~= w@.take(k as int).push(w@[k as int]));
                k = k + 1;
            }
            assert(w@.take(w.len() as int) =~= w@);
            assert(out@ + replace_all(v@.skip(i + p.len()), p@, w@) =~= before + (w@
                + replace_all(rest.skip(p@.len() as int), p@, w@)));
            i = i + p.len();
        } else {
            proof {
                if rest.len() >= p@.len() {
                    assert(rest.take(p@.len() as int) =~= v@.subrange(i as int, i + p@.len()));
                }
                assert(rest.skip(1) =~= v@.skip(i + 1));
                assert(rest[0] == v@[i as int]);
            }
            let ghost before = out@;
            push_char(&mut out, v[i]);
            proof {
                if rest.len() < p@.len() {
                    assert(replace_all(rest, p@, w@) == rest);
                    lemma_replace_short(rest.skip(1), p@, w@);
                    assert(rest =~= seq![rest[0]] + rest.skip(1));
                }
                assert(out@ + replace_all(v@.skip(i + 1), p@, w@) =~= before + (seq![v@[i as int]]
                    + replace_all(rest.skip(1), p@, w@)));
            }
            i = i + 1;
        }
    }
    assert(v@.skip(v.len() as int) =~= Seq::<char>::empty());
    assert(out@ + Seq::<char>::empty() =~= out@);
    out
}

proof fn lemma_replace_short(s: Seq<char>, pattern: Seq<char>, with: Seq<char>)
    requires
        s.len() < pattern.len(),
    ensures
        replace_all(s, pattern, with) == s,
{
}

} // verus!

verus! {

// --- Publication dates -------------------------------------------------------------

/// The chrono format for a configured date-fns style format; other formats
/// are used as they are.
pub open spec fn chrono_format(configured: Seq<char>) -> Seq<char> {
    if configured == "dd.MM.yyyy"@ {
        "%d.%m.%Y"@
    } else if configured == "yyyy-LL-dd"@ {
        "%Y-%m-%d"@
    } else if configured == "yyyy-LL-dd HH:mm"@ {
        "%Y-%m-%d %H:%M"@
    } else if configured == "yyyy-LL-dd'T'HH:mm:ss"@ {
        "%Y-%m-%dT%H:%M:%S"@
    } else {
        configured
    }
}

pub open spec fn instant_opt(t: Option<(i64, u32)>) -> Option<int> {
    match t {
        Some((s, n)) => Some(instant_of(s as int, n as int)),
        None => None,
    }
}

/// The instant a published-at text denotes: RFC 3339, then RFC 2822, then
/// the configured format as a date-time or a date (at midnight), then a
/// date-time without zone, all read as UTC when no offset is given.
pub open spec fn published_at_of(raw: Seq<char>, configured: Seq<char>) -> Option<int> {
    let v = trim(raw);
    let f = chrono_format(configured);
    if v.len() == 0 {
        None
    } else if rfc3339_of(v) is Some {
        instant_opt(rfc3339_of(v))
    } else if rfc2822_of(v) is Some {
        instant_opt(rfc2822_of(v))
    } else if naive_datetime_of(v, f) is Some {
        instant_opt(naive_datetime_of(v, f))
    } else if naive_date_of(v, f) is Some {
        Some(day_start(naive_date_of(v, f).unwrap() as int))
    } else {
        instant_opt(naive_datetime_of(v, "%Y-%m-%dT%H:%M:%S"@))
    }
}

fn chrono_format_of(configured: &str) -> (r: &str)
    ensures
        r@ == chrono_format(configured@),
{
    if str_eq(configured, "dd.MM.yyyy") {
        "%d.%m.%Y"
    } else if str_eq(configured, "yyyy-LL-dd") {
        "%Y-%m-%d"
    } else if str_eq(configured, "yyyy-LL-dd HH:mm") {
        "%Y-%m-%d %H:%M"
    } else if str_eq(configured, "yyyy-LL-dd'T'HH:mm:ss") {
        "%Y-%m-%dT%H:%M:%S"
    } else {
        configured
    }
}

fn instant(t: (i64, u32)) -> (r: i128)
    ensures
        r == instant_of(t.0 as int, t.1 as int),
{
    (t.0 as i128) * 1_000_000_000 + (t.1 as i128)
}

/// Reads a publication date, in nanoseconds since the Unix epoch.
pub fn parse_published_at(raw: &str, configured_format: &str) -> (r: Option<i128>)
    ensures
        r matches Some(t) ==> published_at_of(raw@, configured_format@) == Some(t as int),
        r is None ==> published_at_of(raw@, configured_format@) is None,
{
    let value = trimmed(raw);
    let v = value.as_str();
    if v.is_empty() {
        return None;
    }
    if let Some(t) = parse_rfc3339(v) {
        return Some(instant(t));
    }
    if let Some(t) = parse_rfc2822(v) {
        return Some(instant(t));
    }
    let format = chrono_format_of(configured_format);
    if let Some(t) = parse_naive_datetime(v, format) {
        return Some(instant(t));
    }
    if let Some(days) = parse_naive_date(v, format) {
        return Some((days as i128) * 86_400 * 1_000_000_000);
    }
    match parse_naive_datetime(v, "%Y-%m-%dT%H:%M:%S") {
        Some(t) => Some(instant(t)),
        None => None,
    }
}

// --- Publication range -------------------------------------------------------------

/// What a listing does with an article given the requested range.
#[derive(Debug, Clone, Copy, PartialEq, Eq, Structural)]
pub enum DateDecision {
    /// Keep it.
    Emit,
    /// Outside the range but not older than it: pass over it.
    Skip,
    /// Older than the range: listings are newest-first, so stop.
    Stop,
}

pub open spec fn date_decision_of(range: Option<DateRange>, published_at: int) -> DateDecision {
    match range {
        None => DateDecision::Emit,
        Some(r) => if published_at < r.start {
            DateDecision::Stop
        } else if published_at > r.end {
            DateDecision::Skip
        } else {
            DateDecision::Emit
        },
    }
}

pub fn date_decision(range: Option<DateRange>, published_at: i128) -> (r: DateDecision)
    ensures
        r == date_decision_of(range, published_at as int),
{
    match range {
        None => DateDecision::Emit,
        Some(r) => {
            if r.is_older_than_range(published_at) {
                DateDecision::Stop
            } else if !r.contains(published_at) {
                DateDecision::Skip
            } else {
                DateDecision::Emit
            }
        },
    }
}

} // verus!

verus! {

// --- HTML listings -----------------------------------------------------------------

/// A pagination template with its placeholders filled: `{category}` by the
/// category (or nothing), then `{page}` by the page number when present.
pub open spec fn filled_template(template: Seq<char>, page: u32, category: Option<Seq<char>>) -> Seq<
    char,
> {
    let c = match category {
        Some(c) => c,
        None => Seq::empty(),
    };
    let t = replace_all(template, "{category}"@, c);
    if contains_seq(t, "{page}"@) {
        replace_all(t, "{page}"@, decimal_text(page as nat))
    } else {
        t
    }
}

/// The listing URL of a page: the filled template resolved against the
/// source URL, with a `page` query pair when the template has no `{page}`
/// placeholder and the page is not zero.
pub open spec fn html_endpoint_of(
    base: Seq<char>,
    template: Seq<char>,
    page: u32,
    category: Option<Seq<char>>,
) -> Option<Seq<char>> {
    match absolute_of(base, filled_template(template, page, category)) {
        None => None,
        Some(u) => if !contains_seq(template, "{page}"@) && page > 0 {
            url_with_pair_of(u, "page"@, decimal_text(page as nat))
        } else {
            Some(u)
        },
    }
}

/// With a template that has no `{page}` placeholder, page zero is the bare
/// listing URL and every later page is that URL with the query pair
/// `page={page}` appended: two pages differ in their `page` pair.
pub proof fn lemma_later_pages_carry_their_number(
    base: Seq<char>,
    template: Seq<char>,
    page: u32,
    category: Option<Seq<char>>,
)
    requires
        !contains_seq(template, "{page}"@),
    ensures
        page == 0 ==> html_endpoint_of(base, template, page, category) == absolute_of(
            base,
            filled_template(template, page, category),
        ),
        page > 0 ==> html_endpoint_of(base, template, page, category) == match absolute_of(
            base,
            filled_template(template, page, category),
        ) {
            Some(u) => url_with_pair_of(u, "page"@, decimal_text(page as nat)),
            None => None,
        },
{
}

pub open spec fn opt_str_view(o: Option<&str>) -> Option<Seq<char>> {
    match o {
        Some(s) => Some(s@),
        None => None,
    }
}

/// The listing URL of a page of an HTML source.
pub fn html_endpoint_url(source: &HtmlSourceConfig, page: u32, category: Option<&str>) -> (r: Result<
    String,
    CrawlError,
>)
    ensures
        r is Ok <==> html_endpoint_of(
            source.common.url@,
            source.pagination_template@,
            page,
            opt_str_view(category),
        ) is Some,
        r matches Ok(u) ==> html_endpoint_of(
            source.common.url@,
            source.pagination_template@,
            page,
            opt_str_view(category),
        ) == Some(u@),
        r matches Err(e) ==> e == CrawlError::Configuration(e->Configuration_0)
            && e->Configuration_0@ == "invalid pagination template '"@ + filled_template(
            source.pagination_template@,
            page,
            opt_str_view(category),
        ) + "'"@,
{
    let c = match category {
        Some(c) => c,
        None => "",
    };
    proof {
        reveal_strlit("{category}");
        reveal_strlit("");
        reveal_strlit("{page}");
    }
    let ghost cv: Seq<char> = match category {
        Some(x) => x@,
        None => Seq::empty(),
    };
    assert(c@ == cv);
    let mut template = replace_text(source.pagination_template.as_str(), "{category}", c);
    assert(template@ == replace_all(source.pagination_template@, "{category}"@, cv));
    let page_text = decimal_string(page as u64);
    assert(page_text@ == decimal_text(page as nat));
    if contains_str(template.as_str(), "{page}") {
        template = replace_text(template.as_str(), "{page}", page_text.as_str());
    }
    assert(template@ == filled_template(source.pagination_template@, page, opt_str_view(category)));
    let invalid = concat3("invalid pagination template '", template.as_str(), "'");
    let url = match absolute_url(source.common.url.as_str(), template.as_str()) {
        Some(u) => u,
        None => {
            return Err(CrawlError::Configuration(invalid));
        },
    };
    if !contains_str(source.pagination_template.as_str(), "{page}") && page > 0 {
        match url_append_pair(url.as_str(), "page", page_text.as_str()) {
            Some(u) => Ok(u),
            None => Err(CrawlError::Configuration(invalid)),
        }
    } else {
        Ok(url)
    }
}

/// The value of the first pair named `key`.
pub open spec fn first_value_for(pairs: Seq<(Seq<char>, Seq<char>)>, key: Seq<char>) -> Option<
    Seq<char>,
>
    decreases pairs.len(),
{
    if pairs.len() == 0 {
        None
    } else if pairs[0].0 == key {
        Some(pairs[0].1)
    } else {
        first_value_for(pairs.drop_first(), key)
    }
}

/// The pattern a pagination link carries its page number in.
pub open spec fn page_pattern() -> Seq<char> {
    "(?:page[=/]|[?&]page=)(\\d+)"@
}

pub open spec fn parsed_page(text: Option<Seq<char>>) -> Option<u32> {
    match text {
        Some(t) => match parse_unsigned(t, u32::MAX as int) {
            Some(n) => Some(n as u32),
            None => None,
        },
        None => None,
    }
}

/// The last page a pagination link points to: the `page` query value of the
/// resolved link, else the number the page pattern captures, else 1.
pub open spec fn link_page_of(base: Seq<char>, href: Seq<char>) -> u32 {
    let from_query = match absolute_of(base, href) {
        Some(u) => match query_pairs_of(u) {
            Some(pairs) => parsed_page(first_value_for(pairs, "page"@)),
            None => None,
        },
        None => None,
    };
    match from_query {
        Some(n) => n,
        None => match parsed_page(regex_capture_of(page_pattern(), href)) {
            Some(n) => n,
            None => 1,
        },
    }
}

/// The `href` of the last element that has one.
pub open spec fn last_href(elements: Seq<ElementView>) -> Option<Seq<char>>
    decreases elements.len(),
{
    if elements.len() == 0 {
        None
    } else {
        match attr_href(elements.last()) {
            Some(h) => Some(h),
            None => last_href(elements.drop_last()),
        }
    }
}

fn first_value_of(pairs: &Vec<(String, String)>, key: &str) -> (r: Option<String>)
    ensures
        opt_view(r) == first_value_for(pairs@.map_values(|p: (String, String)| (p.0@, p.1@)), key@),
{
    let ghost all = pairs@.map_values(|p: (String, String)| (p.0@, p.1@));
    let mut i: usize = 0;
    assert(all.skip(0) =~= all);
    while i < pairs.len()
        invariant
            i <= pairs.len(),
            all == pairs@.map_values(|p: (String, String)| (p.0@, p.1@)),
            first_value_for(all, key@) == first_value_for(all.skip(i as int), key@),
        decreases pairs.len() - i,
    {
        assert(all.skip(i as int)[0] == (pairs@[i as int].0@, pairs@[i as int].1@));
        assert(all.skip(i as int).drop_first() =~= all.skip(i + 1));
        if str_eq(pairs[i].0.as_str(), key) {
            return Some(owned(pairs[i].1.as_str()));
        }
        i = i + 1;
    }
    None
}

fn parse_page(text: Option<String>) -> (r: Option<u32>)
    ensures
        r == parsed_page(opt_view(text)),
{
    match text {
        Some(t) => parse_u32(t.as_str()),
        None => None,
    }
}

/// The page a pagination link points to.
pub fn link_page(base: &str, href: &str) -> (r: u32)
    ensures
        r == link_page_of(base@, href@),
{
    let from_query = match absolute_url(base, href) {
        Some(u) => match url_query_pairs(u.as_str()) {
            Some(pairs) => parse_page(first_value_of(&pairs, "page")),
            None => None,
        },
        None => None,
    };
    match from_query {
        Some(n) => n,
        None => match parse_page(regex_first_capture("(?:page[=/]|[?&]page=)(\\d+)", href)) {
            Some(n) => n,
            None => 1,
        },
    }
}

/// The pages of an HTML source when no range is requested, from its first
/// listing page (`None` when that page could not be fetched): pages 0 to the
/// page the last pagination link points to (at least 1).
pub open spec fn html_pages_of(base: Seq<char>, selector: Seq<char>, listing: Option<Seq<char>>) -> Result<
    (u32, u32),
    Seq<char>,
> {
    match listing {
        None => Ok((0, 1)),
        Some(html) => match selection(html, false, selector) {
            Err(m) => Err(m),
            Ok(es) => match last_href(es) {
                None => Ok((0, 1)),
                Some(href) => Ok(
                    (
                        0,
                        if link_page_of(base, href) < 1 {
                            1
                        } else {
                            link_page_of(base, href)
                        },
                    ),
                ),
            },
        },
    }
}

pub fn html_pagination(source: &HtmlSourceConfig, listing: Option<&str>) -> (r: Result<
    PageRange,
    CrawlError,
>)
    ensures
        r is Ok <==> html_pages_of(
            source.common.url@,
            source.selectors.pagination@,
            opt_str_view(listing),
        ) is Ok,
        r matches Ok(p) ==> html_pages_of(
            source.common.url@,
            source.selectors.pagination@,
            opt_str_view(listing),
        ) == Ok::<(u32, u32), Seq<char>>((p.start, p.end)),
        r matches Err(e) ==> html_pages_of(
            source.common.url@,
            source.selectors.pagination@,
            opt_str_view(listing),
        ) matches Err(m) && e is InvalidSourceSelectors && e->InvalidSourceSelectors_0@
            == invalid_selector_message(source.selectors.pagination@, m),
{
    let html = match listing {
        Some(h) => h,
        None => {
            return PageRange::new(0, 1);
        },
    };
    let elements = select(html, false, source.selectors.pagination.as_str())?;
    let ghost es = element_views(elements@);
    let mut k: usize = elements.len();
    assert(es.take(k as int) =~= es);
    while k > 0
        invariant
            k <= elements.len(),
            es == element_views(elements@),
            well_read(es),
            last_href(es) == last_href(es.take(k as int)),
        ensures
            k <= elements.len(),
            last_href(es) == last_href(es.take(k as int)),
            k > 0 ==> es[k - 1].attributes[4] is Some,
        decreases k,
    {
        proof {
            assert(es[k - 1].attributes.len() == 7);
            assert(es[k - 1] == elements@[k - 1]@);
        }
        if elements[k - 1].attributes[4].is_some() {
            break;
        }
        proof {
            assert(es.take(k as int).last() == es[k - 1]);
            assert(es.take(k as int).drop_last() =~= es.take(k - 1));
        }
        k = k - 1;
    }
    if k == 0 {
        proof {
            assert(es.take(0) =~= Seq::<ElementView>::empty());
        }
        return PageRange::new(0, 1);
    }
    proof {
        assert(es[k - 1].attributes.len() == 7);
        assert(es[k - 1] == elements@[k - 1]@);
        assert(es.take(k as int).last() == es[k - 1]);
    }
    let href = match &elements[k - 1].attributes[4] {
        Some(h) => h.as_str(),
        None => "",
    };
    let page = link_page(source.common.url.as_str(), href);
    PageRange::new(0, if page < 1 { 1 } else { page })
}

} // verus!

verus! {

// --- HTML articles -----------------------------------------------------------------

/// The serialized HTML of each matched listing entry.
pub open spec fn entry_htmls(elements: Seq<ElementView>) -> Seq<Seq<char>> {
    elements.map_values(|e: ElementView| e.html)
}

/// The listing entries the source's list selector matches.
pub fn listing_entries(source: &HtmlSourceConfig, listing: &str) -> (r: Result<Vec<String>, CrawlError>)
    ensures
        r is Ok <==> selection(listing@, false, source.selectors.list@) is Ok,
        r matches Ok(v) ==> views(v@) == entry_htmls(selection(listing@, false, source.selectors.list@)->Ok_0),
        r matches Err(e) ==> selection(listing@, false, source.selectors.list@) matches Err(m)
            && e is InvalidSourceSelectors && e->InvalidSourceSelectors_0@ == invalid_selector_message(
            source.selectors.list@,
            m,
        ),
{
    let elements = select(listing, false, source.selectors.list.as_str())?;
    let mut r: Vec<String> = Vec::new();
    let mut i: usize = 0;
    while i < elements.len()
        invariant
            i <= elements.len(),
            views(r@) == entry_htmls(element_views(elements@)).take(i as int),
        decreases elements.len() - i,
    {
        let ghost before = r@;
        r.push(owned(elements[i].html.as_str()));
        assert(views(r@) =~= views(before).push(elements@[i as int].html@));
        assert(entry_htmls(element_views(elements@)).take(i + 1) =~= entry_htmls(
            element_views(elements@),
        ).take(i as int).push(elements@[i as int].html@));
        i = i + 1;
    }
    assert(entry_htmls(element_views(elements@)).take(elements.len() as int) =~= entry_htmls(
        element_views(elements@),
    ));
    Ok(r)
}

pub open spec fn resolved_link(base: Seq<char>, value: Option<Seq<char>>) -> Option<Seq<char>> {
    match value {
        Some(v) => absolute_of(base, v),
        None => None,
    }
}

/// The link of a listing entry: the first element the link selector matches
/// in the entry's fragment, resolved against the source URL.
pub fn extract_link(source: &HtmlSourceConfig, entry: &str) -> (r: Result<Option<String>, CrawlError>)
    ensures
        r is Ok <==> selection(entry@, true, source.selectors.link@) is Ok,
        r matches Ok(l) ==> opt_view(l) == resolved_link(
            source.common.url@,
            first_link(selection(entry@, true, source.selectors.link@)->Ok_0),
        ),
        r matches Err(e) ==> selection(entry@, true, source.selectors.link@) matches Err(m)
            && e is InvalidSourceSelectors && e->InvalidSourceSelectors_0@ == invalid_selector_message(
            source.selectors.link@,
            m,
        ),
{
    let elements = select(entry, true, source.selectors.link.as_str())?;
    if elements.len() == 0 {
        return Ok(None);
    }
    proof {
        assert(element_views(elements@)[0] == elements@[0]@);
        assert(element_views(elements@)[0].attributes.len() == 7);
    }
    match link_of(&elements[0]) {
        Some(v) => Ok(absolute_url(source.common.url.as_str(), v.as_str())),
        None => Ok(None),
    }
}

/// The lower-cased texts of the elements that have one, in order.
pub open spec fn lowered_texts(elements: Seq<ElementView>) -> Seq<Seq<char>>
    decreases elements.len(),
{
    if elements.len() == 0 {
        Seq::empty()
    } else {
        let rest = lowered_texts(elements.drop_last());
        match element_text_of(elements.last()) {
            Some(t) => rest.push(unicode_lowercase(t)),
            None => rest,
        }
    }
}

/// The categories of an article page: without a categories selector, the
/// requested category lower-cased (if any); otherwise the distinct
/// lower-cased texts of the matched elements.
pub open spec fn categories_of(
    html: Seq<char>,
    selector: Option<Seq<char>>,
    fallback: Option<Seq<char>>,
) -> Result<Seq<Seq<char>>, Seq<char>> {
    match selector {
        None => Ok(
            match fallback {
                Some(c) => seq![unicode_lowercase(c)],
                None => Seq::empty(),
            },
        ),
        Some(sel) => match selection(html, false, sel) {
            Err(m) => Err(invalid_selector_message(sel, m)),
            Ok(es) => Ok(new_ids(Seq::empty(), lowered_texts(es))),
        },
    }
}

/// Without a categories selector, an article's categories are the requested
/// category lower-cased, as its only category; without a request there are
/// none. The page's content plays no part.
pub proof fn lemma_requested_category_is_the_category(html: Seq<char>, other: Seq<char>, requested: Option<Seq<char>>)
    ensures
        requested matches Some(c) ==> categories_of(html, None, requested) == Ok::<
            Seq<Seq<char>>,
            Seq<char>,
        >(seq![unicode_lowercase(c)]),
        requested is None ==> categories_of(html, None, requested) == Ok::<Seq<Seq<char>>, Seq<char>>(
            Seq::empty(),
        ),
        categories_of(html, None, requested) == categories_of(other, None, requested),
{
}

/// Keeps the first occurrence of each string.
pub fn distinct_strings(v: &Vec<String>) -> (r: Vec<String>)
    ensures
        views(r@) == new_ids(Seq::empty(), views(v@)),
{
    let mut r: Vec<String> = Vec::new();
    let mut i: usize = 0;
    while i < v.len()
        invariant
            i <= v.len(),
            views(r@) == new_ids(Seq::empty(), views(v@).take(i as int)),
        decreases v.len() - i,
    {
        assert(views(v@).take(i + 1).drop_last() =~= views(v@).take(i as int));
        assert(views(v@).take(i + 1).last() == v@[i as int]@);
        if !contains_string(&r, &v[i]) {
            let ghost before = r@;
            r.push(owned(v[i].as_str()));
            assert(views(r@) =~= views(before).push(v@[i as int]@));
        }
        i = i + 1;
    }
    assert(views(v@).take(v.len() as int) =~= views(v@));
    r
}

pub fn extract_categories(source: &HtmlSourceConfig, html: &str, fallback: Option<&str>) -> (r: Result<
    Vec<String>,
    CrawlError,
>)
    ensures
        r is Ok <==> categories_of(html@, opt_view(source.selectors.categories), opt_str_view(fallback)) is Ok,
        r matches Ok(v) ==> categories_of(
            html@,
            opt_view(source.selectors.categories),
            opt_str_view(fallback),
        ) == Ok::<Seq<Seq<char>>, Seq<char>>(views(v@)),
        r matches Err(e) ==> (categories_of(
            html@,
            opt_view(source.selectors.categories),
            opt_str_view(fallback),
        ) matches Err(m) && e == CrawlError::InvalidSourceSelectors(e->InvalidSourceSelectors_0)
            && e->InvalidSourceSelectors_0@ == m),
{
    let selector = match &source.selectors.categories {
        None => {
            let mut r: Vec<String> = Vec::new();
            match fallback {
                Some(c) => {
                    r.push(lowercase(c));
                },
                None => {},
            }
            proof {
                if fallback is Some {
                    assert(views(r@) =~= seq![unicode_lowercase(fallback->Some_0@)]);
                } else {
                    assert(views(r@) =~= Seq::<Seq<char>>::empty());
                }
            }
            return Ok(r);
        },
        Some(s) => s,
    };
    let elements = select(html, false, selector.as_str())?;
    let ghost es = element_views(elements@);
    let mut texts: Vec<String> = Vec::new();
    let mut i: usize = 0;
    while i < elements.len()
        invariant
            i <= elements.len(),
            es == element_views(elements@),
            views(texts@) == lowered_texts(es.take(i as int)),
        decreases elements.len() - i,
    {
        assert(es.take(i + 1).drop_last() =~= es.take(i as int));
        assert(es.take(i + 1).last() == elements@[i as int]@);
        match element_text(&elements[i]) {
            Some(t) => {
                let ghost before = texts@;
                texts.push(lowercase(t.as_str()));
                assert(views(texts@) =~= views(before).push(unicode_lowercase(t@)));
            },
            None => {},
        }
        i = i + 1;
    }
    assert(es.take(elements.len() as int) =~= es);
    Ok(distinct_strings(&texts))
}

} // verus!

verus! {

/// The parts of a draft a contract speaks of, as characters.
pub ghost struct DraftView {
    pub title: Seq<char>,
    pub body: Seq<char>,
    pub link: Seq<char>,
    pub categories: Seq<Seq<char>>,
    pub metadata: Option<MetadataView>,
    pub published_at: int,
}

pub open spec fn draft_view(d: ArticleDraft) -> DraftView {
    DraftView {
        title: d.title@,
        body: d.body@,
        link: d.link@,
        categories: views(d.categories@),
        metadata: metadata_view(d.metadata),
        published_at: d.published_at as int,
    }
}

/// Why an article could not be read: a selector that does not parse, or an
/// article that lacks what it needs; each with its message.
pub ghost enum ReadError {
    Selector(Seq<char>),
    Invalid(Seq<char>),
}

pub open spec fn error_is(e: CrawlError, f: ReadError) -> bool {
    match f {
        ReadError::Selector(m) => e is InvalidSourceSelectors && e->InvalidSourceSelectors_0@ == m,
        ReadError::Invalid(m) => e is InvalidArticle && e->InvalidArticle_0@ == m,
    }
}

/// The Markdown of each matched element that is not blank.
pub open spec fn body_parts(elements: Seq<ElementView>) -> Seq<Seq<char>>
    decreases elements.len(),
{
    if elements.len() == 0 {
        Seq::empty()
    } else {
        let rest = body_parts(elements.drop_last());
        let md = markdown_of(elements.last().html);
        if trim(md).len() > 0 {
            rest.push(md)
        } else {
            rest
        }
    }
}

/// Whether every matched element can be handed to the Markdown converter.
pub open spec fn all_convertible(elements: Seq<ElementView>) -> bool {
    forall|i: int| 0 <= i < elements.len() ==> markup_convertible(#[trigger] elements[i].html)
}

/// The message for an article body the Markdown converter cannot take.
pub open spec fn unconvertible_body() -> Seq<char> {
    "article body cannot be converted to Markdown"@
}

/// The body of an article page: the non-blank Markdown of the body
/// elements, one per line, or the whole page as Markdown when there is none.
/// A body (or page) the converter cannot take (see `markup_convertible`)
/// is refused.
pub open spec fn body_of(html: Seq<char>, selector: Seq<char>) -> Result<Seq<char>, ReadError> {
    match selection(html, false, selector) {
        Err(m) => Err(ReadError::Selector(invalid_selector_message(selector, m))),
        Ok(es) => if !all_convertible(es) {
            Err(ReadError::Invalid(unconvertible_body()))
        } else if body_parts(es).len() == 0 {
            if markup_convertible(html) {
                Ok(markdown_of(html))
            } else {
                Err(ReadError::Invalid(unconvertible_body()))
            }
        } else {
            Ok(join_with(body_parts(es), "\n"@))
        },
    }
}

/// The link of an article: the one it was found under, else the page's own
/// link resolved against the source URL.
pub open spec fn article_link_of(source: HtmlSourceConfig, html: Seq<char>, known: Option<Seq<char>>) -> Option<
    Seq<char>,
> {
    match known {
        Some(k) => Some(k),
        None => match selection(html, false, source.selectors.link@) {
            Ok(es) => resolved_link(source.common.url@, first_link(es)),
            Err(_) => None,
        },
    }
}

/// How an article page reads, step by step, as the crawler reads it.
pub open spec fn html_article_of(
    source: HtmlSourceConfig,
    html: Seq<char>,
    known: Option<Seq<char>>,
    category: Option<Seq<char>>,
) -> Result<DraftView, ReadError> {
    let sel = source.selectors;
    match selection(html, false, sel.title@) {
        Err(m) => Err(ReadError::Selector(invalid_selector_message(sel.title@, m))),
        Ok(tes) => match first_text(tes) {
            None => Err(ReadError::Invalid("missing article title"@)),
            Some(title) => match article_link_of(source, html, known) {
                None => Err(ReadError::Invalid("missing article link"@)),
                Some(link) => match selection(html, false, sel.date@) {
                    Err(m) => Err(ReadError::Selector(invalid_selector_message(sel.date@, m))),
                    Ok(des) => match first_text(des) {
                        None => Err(ReadError::Invalid("missing article date"@)),
                        Some(raw) => match published_at_of(raw, source.common.date_format@) {
                            None => Err(
                                ReadError::Invalid("cannot parse article date '"@ + raw + "'"@),
                            ),
                            Some(t) => match body_of(html, sel.body@) {
                                Err(f) => Err(f),
                                Ok(body) => match categories_of(html, opt_view(sel.categories), category) {
                                    Err(m) => Err(ReadError::Selector(m)),
                                    Ok(cats) => Ok(
                                        DraftView {
                                            title,
                                            body,
                                            link,
                                            categories: cats,
                                            metadata: open_graph_of(html, link),
                                            published_at: t,
                                        },
                                    ),
                                },
                            },
                        },
                    },
                },
            },
        },
    }
}

fn article_body(html: &str, selector: &str) -> (r: Result<String, CrawlError>)
    ensures
        r is Ok <==> body_of(html@, selector@) is Ok,
        r matches Ok(b) ==> body_of(html@, selector@) == Ok::<Seq<char>, ReadError>(b@),
        r matches Err(e) ==> (body_of(html@, selector@) matches Err(f) && error_is(e, f)),
{
    let elements = select(html, false, selector)?;
    let ghost es = element_views(elements@);
    let mut parts: Vec<String> = Vec::new();
    let mut i: usize = 0;
    while i < elements.len()
        invariant
            i <= elements.len(),
            es == element_views(elements@),
            views(parts@) == body_parts(es.take(i as int)),
            forall|k: int| 0 <= k < i ==> markup_convertible(#[trigger] es[k].html),
            selection(html@, false, selector@) == Ok::<Seq<ElementView>, Seq<char>>(es),
        decreases elements.len() - i,
    {
        assert(es.take(i + 1).drop_last() =~= es.take(i as int));
        assert(es.take(i + 1).last() == elements@[i as int]@);
        let md = match markdown(elements[i].html.as_str()) {
            Some(md) => md,
            None => {
                assert(es[i as int].html == elements@[i as int].html@);
                assert(!markup_convertible(es[i as int].html));
                assert(!all_convertible(es));
                return Err(invalid_article("article body cannot be converted to Markdown"));
            },
        };
        if !is_blank(md.as_str()) {
            let ghost before = parts@;
            parts.push(md);
            assert(views(parts@) =~= views(before).push(markdown_of(elements@[i as int].html@)));
        }
        i = i + 1;
    }
    assert(es.take(elements.len() as int) =~= es);
    assert(all_convertible(es));
    if parts.len() == 0 {
        match markdown(html) {
            Some(md) => Ok(md),
            None => Err(invalid_article("article body cannot be converted to Markdown")),
        }
    } else {
        assert(parts@.map_values(|t: String| t@) == views(parts@));
        Ok(join_strings(&parts, "\n"))
    }
}

fn invalid_article(message: &str) -> (e: CrawlError)
    ensures
        error_is(e, ReadError::Invalid(message@)),
{
    CrawlError::InvalidArticle(owned(message))
}

/// Reads an article from its page.
pub fn parse_article(
    source: &HtmlSourceConfig,
    html: &str,
    known_url: Option<&str>,
    category: Option<&str>,
) -> (r: Result<ArticleDraft, CrawlError>)
    ensures
        r is Ok <==> html_article_of(*source, html@, opt_str_view(known_url), opt_str_view(category)) is Ok,
        r matches Ok(d) ==> html_article_of(
            *source,
            html@,
            opt_str_view(known_url),
            opt_str_view(category),
        ) == Ok::<DraftView, ReadError>(draft_view(d)) && d.source_id@ == source.common.id@,
        r matches Err(e) ==> (html_article_of(
            *source,
            html@,
            opt_str_view(known_url),
            opt_str_view(category),
        ) matches Err(f) && error_is(e, f)),
{
    let title = match extract_text(html, source.selectors.title.as_str())? {
        Some(t) => t,
        None => {
            return Err(invalid_article("missing article title"));
        },
    };
    let link = match known_url {
        Some(k) => owned(k),
        None => {
            let found = match extract_attribute(html, source.selectors.link.as_str()) {
                Ok(Some(v)) => absolute_url(source.common.url.as_str(), v.as_str()),
                _ => None,
            };
            match found {
                Some(l) => l,
                None => {
                    return Err(invalid_article("missing article link"));
                },
            }
        },
    };
    let raw_date = match extract_text(html, source.selectors.date.as_str())? {
        Some(t) => t,
        None => {
            return Err(invalid_article("missing article date"));
        },
    };
    let published_at = match parse_published_at(raw_date.as_str(), source.common.date_format.as_str()) {
        Some(t) => t,
        None => {
            return Err(
                CrawlError::InvalidArticle(
                    concat3("cannot parse article date '", raw_date.as_str(), "'"),
                ),
            );
        },
    };
    let body = article_body(html, source.selectors.body.as_str())?;
    let categories = extract_categories(source, html, category)?;
    let metadata = consume_html(html, link.as_str());
    Ok(
        ArticleDraft {
            title,
            body,
            link,
            source_id: source.common.id.clone(),
            categories,
            metadata,
            published_at,
        },
    )
}

} // verus!

verus! {

// --- Crawling and discovery --------------------------------------------------------

/// Tallies of a direct HTML crawl, and the first listing fetch error.
#[derive(Debug)]
pub struct HtmlCrawlTally {
    pub successful_pages: usize,
    pub matched_entries: usize,
    pub emitted_articles: usize,
    pub filtered_articles: usize,
    pub detail_fetch_failures: usize,
    pub parse_failures: usize,
    pub missing_links: usize,
    pub first_fetch_error: Option<CrawlError>,
}

impl HtmlCrawlTally {
    pub fn new() -> (r: HtmlCrawlTally)
        ensures
            r.successful_pages == 0 && r.matched_entries == 0 && r.emitted_articles == 0
                && r.filtered_articles == 0 && r.detail_fetch_failures == 0 && r.parse_failures == 0
                && r.missing_links == 0 && r.first_fetch_error is None,
    {
        HtmlCrawlTally {
            successful_pages: 0,
            matched_entries: 0,
            emitted_articles: 0,
            filtered_articles: 0,
            detail_fetch_failures: 0,
            parse_failures: 0,
            missing_links: 0,
            first_fetch_error: None,
        }
    }

    /// A listing page could not be fetched; the first such error is kept.
    pub fn listing_failed(&mut self, error: CrawlError)
        ensures
            old(self).first_fetch_error is None ==> final(self).first_fetch_error == Some(error),
            old(self).first_fetch_error is Some ==> final(self).first_fetch_error == old(
                self,
            ).first_fetch_error,
            final(self).successful_pages == old(self).successful_pages,
    {
        if self.first_fetch_error.is_none() {
            self.first_fetch_error = Some(error);
        }
    }

    /// A listing page was fetched and its entries matched.
    pub fn listing_read(&mut self, entries: usize)
        requires
            old(self).successful_pages < usize::MAX,
            old(self).matched_entries + entries <= usize::MAX,
        ensures
            final(self).successful_pages == old(self).successful_pages + 1,
            final(self).matched_entries == old(self).matched_entries + entries,
            final(self).first_fetch_error == old(self).first_fetch_error,
    {
        self.successful_pages = self.successful_pages + 1;
        self.matched_entries = self.matched_entries + entries;
    }

    /// A listing entry had no link.
    pub fn count_missing_link(&mut self)
        requires
            old(self).missing_links < usize::MAX,
        ensures
            final(self).missing_links == old(self).missing_links + 1,
            final(self).successful_pages == old(self).successful_pages,
            final(self).first_fetch_error == old(self).first_fetch_error,
    {
        self.missing_links = self.missing_links + 1;
    }

    /// A detail page could not be fetched.
    pub fn count_detail_failure(&mut self)
        requires
            old(self).detail_fetch_failures < usize::MAX,
        ensures
            final(self).detail_fetch_failures == old(self).detail_fetch_failures + 1,
            final(self).successful_pages == old(self).successful_pages,
            final(self).first_fetch_error == old(self).first_fetch_error,
    {
        self.detail_fetch_failures = self.detail_fetch_failures + 1;
    }

    /// An article page could not be read.
    pub fn count_parse_failure(&mut self)
        requires
            old(self).parse_failures < usize::MAX,
        ensures
            final(self).parse_failures == old(self).parse_failures + 1,
            final(self).successful_pages == old(self).successful_pages,
            final(self).first_fetch_error == old(self).first_fetch_error,
    {
        self.parse_failures = self.parse_failures + 1;
    }

    /// An article fell outside the requested range.
    pub fn count_filtered(&mut self)
        requires
            old(self).filtered_articles < usize::MAX,
        ensures
            final(self).filtered_articles == old(self).filtered_articles + 1,
            final(self).successful_pages == old(self).successful_pages,
            final(self).first_fetch_error == old(self).first_fetch_error,
    {
        self.filtered_articles = self.filtered_articles + 1;
    }

    /// An article was handed on.
    pub fn count_emitted(&mut self)
        requires
            old(self).emitted_articles < usize::MAX,
        ensures
            final(self).emitted_articles == old(self).emitted_articles + 1,
            final(self).successful_pages == old(self).successful_pages,
            final(self).first_fetch_error == old(self).first_fetch_error,
    {
        self.emitted_articles = self.emitted_articles + 1;
    }

    /// The end of the crawl: it failed when no listing page was fetched,
    /// with the first fetch error, else a configuration error.
    pub fn finish(self) -> (r: Result<HtmlCrawlTally, CrawlError>)
        ensures
            self.successful_pages > 0 <==> r is Ok,
            r matches Ok(t) ==> t.successful_pages == self.successful_pages,
            self.successful_pages == 0 && self.first_fetch_error is Some ==> r == Err::<
                HtmlCrawlTally,
                CrawlError,
            >(self.first_fetch_error->Some_0),
            self.successful_pages == 0 && self.first_fetch_error is None ==> (r matches Err(e) && e
                is Configuration && e->Configuration_0@ == "HTML crawl did not fetch any listing pages"@),
    {
        if self.successful_pages == 0 {
            return Err(
                match self.first_fetch_error {
                    Some(e) => e,
                    None => CrawlError::Configuration(owned("HTML crawl did not fetch any listing pages")),
                },
            );
        }
        Ok(self)
    }
}

/// The identity of a discovery batch: `page:{page}`.
pub fn batch_id(page: u32) -> (r: String)
    ensures
        r@ == "page:"@ + decimal_text(page as nat),
{
    let mut r = owned("page:");
    let digits = decimal_string(page as u64);
    append_str(&mut r, digits.as_str());
    r
}

/// The links present among `links`, in order.
pub open spec fn present(links: Seq<Option<Seq<char>>>) -> Seq<Seq<char>>
    decreases links.len(),
{
    if links.len() == 0 {
        Seq::empty()
    } else {
        match links.last() {
            Some(l) => present(links.drop_last()).push(l),
            None => present(links.drop_last()),
        }
    }
}

/// The article URLs a discovery has queued so far.
#[derive(Debug)]
pub struct DiscoveredUrls {
    pub seen: Vec<String>,
}

impl DiscoveredUrls {
    pub fn new() -> (r: DiscoveredUrls)
        ensures
            r.seen@.len() == 0,
    {
        DiscoveredUrls { seen: Vec::new() }
    }

    /// The links of a page not discovered before, each once, in order; they
    /// count as discovered from now on.
    pub fn take_new(&mut self, links: &Vec<Option<String>>) -> (r: Vec<String>)
        ensures
            views(r@) == new_ids(views(old(self).seen@), present(links@.map_values(|o: Option<String>| opt_view(o)))),
            views(final(self).seen@) == views(old(self).seen@) + views(r@),
    {
        let ghost all = links@.map_values(|o: Option<String>| opt_view(o));
        let ghost start = views(self.seen@);
        let mut r: Vec<String> = Vec::new();
        let mut i: usize = 0;
        while i < links.len()
            invariant
                i <= links.len(),
                all == links@.map_values(|o: Option<String>| opt_view(o)),
                views(r@) == new_ids(start, present(all.take(i as int))),
                views(self.seen@) == start + views(r@),
            decreases links.len() - i,
        {
            assert(all.take(i + 1).drop_last() =~= all.take(i as int));
            assert(all.take(i + 1).last() == opt_view(links@[i as int]));
            match &links[i] {
                Some(l) => {
                    let ghost p = present(all.take(i as int));
                    assert(present(all.take(i + 1)) == p.push(l@));
                    assert(new_ids(start, p.push(l@)).len() >= 0);
                    assert(p.push(l@).drop_last() =~= p);
                    if !contains_string(&self.seen, l) {
                        proof {
                            assert(!start.contains(l@) && !views(r@).contains(l@)) by {
                                if start.contains(l@) {
                                    let k = choose|k: int| 0 <= k < start.len() && start[k] == l@;
                                    assert((start + views(r@))[k] == l@);
                                }
                                if views(r@).contains(l@) {
                                    let k = choose|k: int|
                                        0 <= k < views(r@).len() && views(r@)[k] == l@;
                                    assert((start + views(r@))[start.len() + k] == l@);
                                }
                            }
                        }
                        let ghost before = r@;
                        let ghost seen_before = self.seen@;
                        r.push(owned(l.as_str()));
                        self.seen.push(owned(l.as_str()));
                        assert(views(r@) =~= views(before).push(l@));
                        assert(views(self.seen@) =~= views(seen_before).push(l@));
                    } else {
                        proof {
                            let k = choose|k: int|
                                0 <= k < views(self.seen@).len() && views(self.seen@)[k] == l@;
                            if k < start.len() {
                                assert(start[k] == l@);
                            } else {
                                assert(views(r@)[k - start.len()] == l@);
                            }
                        }
                    }
                },
                None => {
                    assert(present(all.take(i + 1)) == present(all.take(i as int)));
                },
            }
            i = i + 1;
        }
        assert(all.take(links.len() as int) =~= all);
        r
    }
}

/// An article read for a queued job is kept only inside the requested range.
pub fn check_in_range(draft: ArticleDraft, range: Option<DateRange>, url: &str) -> (r: Result<
    ArticleDraft,
    CrawlError,
>)
    ensures
        r is Ok <==> (range matches Some(d) ==> d.spec_contains(draft.published_at as int)),
        r matches Ok(d) ==> d == draft,
        r matches Err(e) ==> (e matches CrawlError::ArticleOutOfDateRange { url: u } && u@ == url@),
{
    match range {
        Some(d) => {
            if !d.contains(draft.published_at) {
                return Err(CrawlError::ArticleOutOfDateRange { url: owned(url) });
            }
        },
        None => {},
    }
    Ok(draft)
}

} // verus!
