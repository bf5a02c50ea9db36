//! Calls into the `md5`, `chrono`, `url` and `httpdate` crates.
//!
//! Each function here makes one library call and converts its arguments and
//! result to plain values. Their contracts are believed, not proved: results
//! whose definition would take pages (MD5, date grammars, the WHATWG URL
//! standard) are given a name, and only the facts the libraries document are
//! stated beside the name.

use vstd::prelude::*;

use crate::markup::{element_views, markup_convertible, selector_bounded, views_walk, ElementView, HtmlElement};
use crate::text::{opt_view, str_views};
use rand::Rng;
use std::fmt::Write;
use vstd::utf8::{decode_utf8, valid_utf8};

verus! {

// --- md5 -------------------------------------------------------------------

/// The 16-byte MD5 digest of `data`, as `md5::compute` computes it.
pub uninterp spec fn md5_of(data: Seq<u8>) -> Seq<u8>;

/// `md5::compute`: the digest of the bytes, returned as its 16 raw bytes
/// (`Digest` converts into `[u8; 16]`).
#[verifier::external_body]
pub(crate) fn md5_digest(data: &[u8]) -> (r: Vec<u8>)
    ensures
        r@ == md5_of(data@),
        r@.len() == 16,
{
    let digest: [u8; 16] = md5::compute(data).into();
    digest.to_vec()
}

// --- chrono ----------------------------------------------------------------

/// What `DateTime::parse_from_rfc3339` yields for the text: the UTC
/// timestamp in whole seconds and the sub-second nanoseconds, or `None`.
pub uninterp spec fn rfc3339_of(s: Seq<char>) -> Option<(i64, u32)>;

/// What `DateTime::parse_from_rfc2822` yields, as for [`rfc3339_of`].
pub uninterp spec fn rfc2822_of(s: Seq<char>) -> Option<(i64, u32)>;

/// What `NaiveDateTime::parse_from_str(s, format)` yields, read as UTC.
pub uninterp spec fn naive_datetime_of(s: Seq<char>, format: Seq<char>) -> Option<(i64, u32)>;

/// What `NaiveDate::parse_from_str(s, format)` yields, as days since
/// 1970-01-01.
pub uninterp spec fn naive_date_of(s: Seq<char>, format: Seq<char>) -> Option<i32>;

/// `chrono::DateTime::parse_from_rfc3339`, converted with `timestamp` and
/// `timestamp_subsec_nanos`. chrono documents the nanoseconds as below
/// 2,000,000,000 (a leap second may exceed 999,999,999).
#[verifier::external_body]
pub(crate) fn parse_rfc3339(s: &str) -> (r: Option<(i64, u32)>)
    ensures
        r == rfc3339_of(s@),
        r matches Some(t) ==> t.1 < 2_000_000_000,
{
    chrono::DateTime::parse_from_rfc3339(s).ok().map(|d| (d.timestamp(), d.timestamp_subsec_nanos()))
}

/// `chrono::DateTime::parse_from_rfc2822`, converted as [`parse_rfc3339`].
#[verifier::external_body]
pub(crate) fn parse_rfc2822(s: &str) -> (r: Option<(i64, u32)>)
    ensures
        r == rfc2822_of(s@),
        r matches Some(t) ==> t.1 < 2_000_000_000,
{
    chrono::DateTime::parse_from_rfc2822(s).ok().map(|d| (d.timestamp(), d.timestamp_subsec_nanos()))
}

/// `chrono::NaiveDateTime::parse_from_str`, read as UTC (`and_utc`) and
/// converted as [`parse_rfc3339`].
#[verifier::external_body]
pub(crate) fn parse_naive_datetime(s: &str, format: &str) -> (r: Option<(i64, u32)>)
    ensures
        r == naive_datetime_of(s@, format@),
        r matches Some(t) ==> t.1 < 2_000_000_000,
{
    chrono::NaiveDateTime::parse_from_str(s, format).ok().map(
        |d| (d.and_utc().timestamp(), d.and_utc().timestamp_subsec_nanos()),
    )
}

/// `chrono::NaiveDate::parse_from_str`, converted with `to_epoch_days`.
#[verifier::external_body]
pub(crate) fn parse_naive_date(s: &str, format: &str) -> (r: Option<i32>)
    ensures
        r == naive_date_of(s@, format@),
{
    chrono::NaiveDate::parse_from_str(s, format).ok().map(|d| d.to_epoch_days())
}

// --- url -------------------------------------------------------------------

/// The serialization of `url::Url::parse(s)`, or `None` when it fails.
pub uninterp spec fn parsed_url(s: Seq<char>) -> Option<Seq<char>>;

/// The serialization of `Url::parse(base)?.join(reference)`.
pub uninterp spec fn joined_url(base: Seq<char>, reference: Seq<char>) -> Option<Seq<char>>;

/// `Url::parse(url)?.path()`.
pub uninterp spec fn url_path_of(url: Seq<char>) -> Option<Seq<char>>;

/// The serialization of the URL after `set_path(path)`.
pub uninterp spec fn url_with_path_of(url: Seq<char>, path: Seq<char>) -> Option<Seq<char>>;

/// The serialization after `query_pairs_mut().append_pair(key, value)`.
pub uninterp spec fn url_with_pair_of(url: Seq<char>, key: Seq<char>, value: Seq<char>) -> Option<
    Seq<char>,
>;

/// `url::Url::parse`, serialized back with `Url::as_str`; a failure gives
/// the parse error's display text, of which nothing is stated.
#[verifier::external_body]
pub(crate) fn url_parse(s: &str) -> (r: Result<String, String>)
    ensures
        r matches Ok(u) ==> parsed_url(s@) == Some(u@),
        r is Err ==> parsed_url(s@) is None,
{
    match url::Url::parse(s) {
        Ok(u) => Ok(String::from(u)),
        Err(e) => Err(e.to_string()),
    }
}

/// `Url::join` on the parsed base; a failure of either step gives the
/// parse error's display text, of which nothing is stated.
#[verifier::external_body]
pub(crate) fn url_join(base: &str, reference: &str) -> (r: Result<String, String>)
    ensures
        r matches Ok(u) ==> joined_url(base@, reference@) == Some(u@),
        r is Err ==> joined_url(base@, reference@) is None,
{
    let parsed = url::Url::parse(base).map_err(|e| e.to_string())?;
    parsed.join(reference).map(String::from).map_err(|e| e.to_string())
}

/// `Url::path` of the parsed URL.
#[verifier::external_body]
pub(crate) fn url_path(url: &str) -> (r: Option<String>)
    ensures
        r matches Some(p) ==> url_path_of(url@) == Some(p@),
        r is None ==> url_path_of(url@) is None,
{
    url::Url::parse(url).ok().map(|u| u.path().to_owned())
}

/// `Url::set_path` on the parsed URL, serialized back.
#[verifier::external_body]
pub(crate) fn url_set_path(url: &str, path: &str) -> (r: Option<String>)
    ensures
        r matches Some(u) ==> url_with_path_of(url@, path@) == Some(u@),
        r is None ==> url_with_path_of(url@, path@) is None,
{
    let mut parsed = url::Url::parse(url).ok()?;
    parsed.set_path(path);
    Some(String::from(parsed))
}

/// `Url::query_pairs_mut().append_pair` on the parsed URL, serialized back.
#[verifier::external_body]
pub(crate) fn url_append_pair(url: &str, key: &str, value: &str) -> (r: Option<String>)
    ensures
        r matches Some(u) ==> url_with_pair_of(url@, key@, value@) == Some(u@),
        r is None ==> url_with_pair_of(url@, key@, value@) is None,
{
    let mut parsed = url::Url::parse(url).ok()?;
    parsed.query_pairs_mut().append_pair(key, value);
    Some(String::from(parsed))
}

// --- httpdate --------------------------------------------------------------

/// What `httpdate::parse_http_date` yields, as whole seconds since the Unix
/// epoch.
pub uninterp spec fn http_date_of(s: Seq<char>) -> Option<u64>;

/// `httpdate::parse_http_date`, converted with `duration_since(UNIX_EPOCH)`.
/// HTTP dates carry whole seconds and are not earlier than 1970, so the
/// conversion drops nothing.
#[verifier::external_body]
pub(crate) fn parse_http_date(s: &str) -> (r: Option<u64>)
    ensures
        r == http_date_of(s@),
{
    let time = httpdate::parse_http_date(s).ok()?;
    time.duration_since(std::time::UNIX_EPOCH).ok().map(|d| d.as_secs())
}

} // verus!

verus! {

// --- scraper -----------------------------------------------------------------

/// What scraper yields for a CSS selector over a document (or, with
/// `fragment`, an HTML fragment): each matched element in document order,
/// with its tag name, the values of the named attributes, its text nodes and
/// its serialized HTML; or the selector's parse error as displayed.
pub uninterp spec fn css_selection(
    document: Seq<char>,
    fragment: bool,
    selector: Seq<char>,
    names: Seq<Seq<char>>,
) -> Result<Seq<ElementView>, Seq<char>>;

/// The characters of a selection's elements, or of its error.
pub open spec fn selection_view(r: Result<Vec<HtmlElement>, String>) -> Result<Seq<ElementView>, Seq<char>> {
    match r {
        Ok(v) => Ok(element_views(v@)),
        Err(m) => Err(m@),
    }
}

/// `scraper::Selector::parse`, then `Html::parse_document` (or
/// `parse_fragment`) and `select`; each element is read with
/// `Element::name`, `Element::attr` for each of `names`, `ElementRef::text`
/// and `ElementRef::html`. The result is the named selection, and every
/// element carries one attribute value (or `None`) per name. The selector
/// parser recurses once per nested functional pseudo-class, so only
/// selectors with a bounded number of opening parentheses are parsed.
#[verifier::external_body]
pub(crate) fn select_elements(
    document: &str,
    fragment: bool,
    selector: &str,
    names: &[&str],
) -> (r: Result<Vec<HtmlElement>, String>)
    requires
        selector_bounded(selector@),
    ensures
        selection_view(r) == css_selection(document@, fragment, selector@, str_views(names@)),
        r matches Ok(v) ==> forall|i: int|
            0 <= i < v@.len() ==> (#[trigger] v@[i]).attributes@.len() == names@.len(),
{
    let selector = scraper::Selector::parse(selector).map_err(|e| e.to_string())?;
    let html = if fragment {
        scraper::Html::parse_fragment(document)
    } else {
        scraper::Html::parse_document(document)
    };
    Ok(html.select(&selector).map(|e| HtmlElement {
        name: e.value().name().to_owned(),
        attributes: names.iter().map(|n| e.value().attr(n).map(str::to_owned)).collect(),
        texts: e.text().map(str::to_owned).collect(),
        html: e.html(),
    }).collect())
}

/// The text nodes of an HTML fragment's root element, in document order.
pub uninterp spec fn fragment_texts_of(fragment: Seq<char>) -> Seq<Seq<char>>;

/// `Html::parse_fragment(fragment).root_element().text()`.
#[verifier::external_body]
pub(crate) fn fragment_texts(fragment: &str) -> (r: Vec<String>)
    ensures
        r@.map_values(|t: String| t@) == fragment_texts_of(fragment@),
{
    scraper::Html::parse_fragment(fragment).root_element().text().map(str::to_owned).collect()
}

/// The depth-first walk over the document tree that
/// `scraper::Html::parse_document` builds for the text: `(true, name)` where
/// the walk enters a node (`name` is the element's local name, empty for
/// other nodes), `(false, "")` where it leaves one.
pub uninterp spec fn tree_walk_of(html: Seq<char>) -> Seq<(bool, Seq<char>)>;

/// `Html::parse_document(html)`, then ego-tree's `traverse` of its tree,
/// each edge read as whether it opens a node and, for an element, its
/// `Element::name`. The walk is iterative.
#[verifier::external_body]
pub(crate) fn document_tree_walk(html: &str) -> (r: Vec<(bool, String)>)
    ensures
        views_walk(r@) == tree_walk_of(html@),
{
    let document = scraper::Html::parse_document(html);
    document.tree.root().traverse().map(|edge| match edge {
        ego_tree::iter::Edge::Open(node) => (true, node.value().as_element().map_or(String::new(), |e| e.name().to_owned())),
        ego_tree::iter::Edge::Close(_) => (false, String::new()),
    }).collect()
}

// --- html2md -----------------------------------------------------------------

/// The Markdown `html2md::parse_html` renders for an HTML text.
pub uninterp spec fn markdown_of(html: Seq<char>) -> Seq<char>;

/// `html2md::parse_html`. It walks the document tree recursively, one call
/// per nesting level, and its list-item handler cuts text from the start of
/// the output when an item stands outside any list, after which an
/// enclosing bold or link handler slices past the end. So it is only called
/// on documents whose tree (as scraper builds it with the same HTML5 tree
/// construction) nests at most `MAX_MARKUP_DEPTH` deep and holds no list
/// item outside a list.
#[verifier::external_body]
pub(crate) fn html_to_markdown(html: &str) -> (r: String)
    requires
        markup_convertible(html@),
    ensures
        r@ == markdown_of(html@),
{
    html2md::parse_html(html)
}

// --- regex -------------------------------------------------------------------

/// The text of the first capture group of the leftmost match of `pattern`
/// in `haystack`; `None` when the pattern is invalid, nothing matches, or the
/// group did not take part in the match.
pub uninterp spec fn regex_capture_of(pattern: Seq<char>, haystack: Seq<char>) -> Option<Seq<char>>;

/// `Regex::new(pattern)`, `captures(haystack)` and `get(1)`.
#[verifier::external_body]
pub(crate) fn regex_first_capture(pattern: &str, haystack: &str) -> (r: Option<String>)
    ensures
        opt_view(r) == regex_capture_of(pattern@, haystack@),
{
    let pattern = regex::Regex::new(pattern).ok()?;
    pattern.captures(haystack)?.get(1).map(|m| m.as_str().to_owned())
}

// --- url (query) -------------------------------------------------------------

/// The decoded query pairs of a parsed URL, in order; `None` when the text
/// is not a URL.
pub uninterp spec fn query_pairs_of(url: Seq<char>) -> Option<Seq<(Seq<char>, Seq<char>)>>;

/// `Url::parse(url)` and `query_pairs()`, each pair owned.
#[verifier::external_body]
pub(crate) fn url_query_pairs(url: &str) -> (r: Option<Vec<(String, String)>>)
    ensures
        r matches Some(v) ==> query_pairs_of(url@) == Some(v@.map_values(|p: (String, String)| (p.0@, p.1@))),
        r is None ==> query_pairs_of(url@) is None,
{
    let parsed = url::Url::parse(url).ok()?;
    Some(parsed.query_pairs().map(|(k, v)| (k.into_owned(), v.into_owned())).collect())
}

// --- rand --------------------------------------------------------------------

/// `rand::rng().random_range(0..bound)`: some index below `bound`, chosen at
/// random, so nothing more is stated of it.
#[verifier::external_body]
pub(crate) fn random_below(bound: usize) -> (r: usize)
    requires
        bound > 0,
    ensures
        r < bound,
{
    rand::rng().random_range(0..bound)
}

} // verus!

verus! {

// --- std: lossy UTF-8 decoding -----------------------------------------------

/// What `String::from_utf8_lossy` yields for the bytes.
pub uninterp spec fn lossy_text_of(bytes: Seq<u8>) -> Seq<char>;

/// `String::from_utf8_lossy(bytes).into_owned()`: std documents that valid
/// UTF-8 is decoded as it is, and invalid sequences become U+FFFD.
#[verifier::external_body]
pub(crate) fn utf8_lossy(bytes: &[u8]) -> (r: String)
    ensures
        r@ == lossy_text_of(bytes@),
        valid_utf8(bytes@) ==> r@ == decode_utf8(bytes@),
{
    String::from_utf8_lossy(bytes).into_owned()
}

} // verus!

verus! {

// --- chrono (formatting) -----------------------------------------------------

/// The RFC 3339 text of the UTC instant, or `None` when chrono cannot
/// represent it.
pub uninterp spec fn rfc3339_text_of(seconds: i64, nanos: u32) -> Option<Seq<char>>;

/// The text chrono's `format(pattern)` gives for the UTC instant, or `None`
/// when the instant cannot be represented or the pattern is not one chrono
/// accepts.
pub uninterp spec fn formatted_utc_of(seconds: i64, nanos: u32, pattern: Seq<char>) -> Option<Seq<char>>;

/// `DateTime::<Utc>::from_timestamp(seconds, nanos)`, then `format(pattern)`
/// written into a string; a formatting error (an invalid pattern) gives
/// `None`.
#[verifier::external_body]
pub(crate) fn format_utc(seconds: i64, nanos: u32, pattern: &str) -> (r: Option<String>)
    ensures
        opt_view(r) == formatted_utc_of(seconds, nanos, pattern@),
{
    let date = chrono::DateTime::from_timestamp(seconds, nanos)?;
    let mut text = String::new();
    write!(text, "{}", date.format(pattern)).ok()?;
    Some(text)
}

/// `DateTime::<Utc>::from_timestamp(seconds, nanos)` and `to_rfc3339`.
#[verifier::external_body]
pub(crate) fn format_rfc3339(seconds: i64, nanos: u32) -> (r: Option<String>)
    ensures
        opt_view(r) == rfc3339_text_of(seconds, nanos),
{
    chrono::DateTime::from_timestamp(seconds, nanos).map(|d| d.to_rfc3339())
}

} // verus!
