//! Domain types: the vocabulary of the crawler.
//!
//! URLs are carried as their serialized text and instants as nanoseconds
//! since the Unix epoch (UTC), so the rules over them can be stated exactly.

use vstd::prelude::*;

use crate::bindings::{format_utc, formatted_utc_of, md5_digest, md5_of, naive_date_of, parse_naive_date};
use crate::error::{concat3, CrawlError};
use crate::text::{
    ascii_lowercase, ascii_lowercase_of, is_digit, chars_of, decimal_string, decimal_text, hex_lower,
    hex_string, is_hex_digit, opt_view, owned, parse_u32, parse_unsigned, split_once, split_once_char,
    string_from_chars, trim, trimmed, lemma_decimal_text_parses, lemma_decimal_text_reads_back,
    lemma_index_of,
};
use vstd::utf8::encode_utf8;

verus! {

pub const NANOS_PER_SECOND: i128 = 1_000_000_000;

pub const SECONDS_PER_DAY: i128 = 86_400;

/// The instant `seconds` + `nanos` after the Unix epoch, in nanoseconds.
pub open spec fn instant_of(seconds: int, nanos: int) -> int {
    seconds * 1_000_000_000 + nanos
}

// --- Source identity -------------------------------------------------------

/// A validated source identifier: trimmed and never empty.
#[derive(Debug, PartialEq, Eq, Hash)]
pub struct SourceId(String);

impl View for SourceId {
    type V = Seq<char>;

    closed spec fn view(&self) -> Seq<char> {
        self.0@
    }
}

impl Clone for SourceId {
    fn clone(&self) -> (r: Self)
        ensures
            r@ == self@,
    {
        SourceId(self.0.clone())
    }
}

impl SourceId {
    /// Trims the value; an identifier that is empty once trimmed is refused.
    pub fn new(value: &str) -> (r: Result<SourceId, CrawlError>)
        ensures
            trim(value@).len() > 0 <==> r is Ok,
            r matches Ok(id) ==> id@ == trim(value@),
            r matches Err(e) ==> e == CrawlError::Configuration(e->Configuration_0) && e->Configuration_0@
                == "source id cannot be empty"@,
    {
        let normalized = trimmed(value);
        if normalized.as_str().is_empty() {
            return Err(
                CrawlError::Configuration(owned("source id cannot be empty")),
            );
        }
        Ok(SourceId(normalized))
    }

    pub fn as_str(&self) -> (r: &str)
        ensures
            r@ == self@,
    {
        self.0.as_str()
    }
}

// --- Article identity --------------------------------------------------------

/// The identity of an article URL: 32 lower-case hexadecimal characters.
#[derive(Debug, PartialEq, Eq, Hash)]
pub struct ArticleHash(String);

impl View for ArticleHash {
    type V = Seq<char>;

    closed spec fn view(&self) -> Seq<char> {
        self.0@
    }
}

impl Clone for ArticleHash {
    fn clone(&self) -> (r: Self)
        ensures
            r@ == self@,
    {
        ArticleHash(self.0.clone())
    }
}

/// The hash of a URL's text: the lower-case hex MD5 of its UTF-8 bytes.
pub open spec fn url_hash(url: Seq<char>) -> Seq<char> {
    hex_lower(md5_of(encode_utf8(url)))
}

pub open spec fn is_article_hash(value: Seq<char>) -> bool {
    value.len() == 32 && forall|i: int| 0 <= i < value.len() ==> is_hex_digit(#[trigger] value[i])
}

impl ArticleHash {
    pub fn from_url(url: &str) -> (r: ArticleHash)
        ensures
            r@ == url_hash(url@),
    {
        let digest = md5_digest(url.as_bytes());
        ArticleHash(hex_string(&digest))
    }

    /// Accepts 32 hexadecimal digits and stores them lower-cased.
    pub fn new(value: &str) -> (r: Result<ArticleHash, CrawlError>)
        ensures
            r is Ok <==> is_article_hash(value@),
            r matches Ok(h) ==> h@ == ascii_lowercase(value@),
            r matches Err(e) ==> e == CrawlError::InvalidArticle(e->InvalidArticle_0)
                && e->InvalidArticle_0@ == "invalid article hash '"@ + value@ + "'"@,
    {
        let v = chars_of(value);
        let mut ok = v.len() == 32;
        let mut i: usize = 0;
        while ok && i < v.len()
            invariant
                i <= v.len(),
                ok ==> v.len() == 32,
                ok ==> forall|j: int| 0 <= j < i ==> is_hex_digit(#[trigger] v@[j]),
                !ok ==> !is_article_hash(v@),
            decreases v.len() - i,
        {
            let c = v[i];
            if !(('0' <= c && c <= '9') || ('a' <= c && c <= 'f') || ('A' <= c && c <= 'F')) {
                ok = false;
            }
            i = i + 1;
        }
        if !ok {
            return Err(CrawlError::InvalidArticle(concat3("invalid article hash '", value, "'")));
        }
        let lower = ascii_lowercase_of(&v);
        Ok(ArticleHash(string_from_chars(&lower)))
    }

    pub fn as_str(&self) -> (r: &str)
        ensures
            r@ == self@,
    {
        self.0.as_str()
    }
}

// --- Articles ----------------------------------------------------------------

/// Optional metadata discovered from Open Graph or WordPress fields.
#[derive(Debug, Clone, Default, PartialEq, Eq)]
pub struct ArticleMetadata {
    pub url: Option<String>,
    pub title: Option<String>,
    pub author: Option<String>,
    pub description: Option<String>,
    pub image: Option<String>,
    pub published_at: Option<String>,
    pub updated_at: Option<String>,
}

/// The characters of each metadata field.
pub ghost struct MetadataView {
    pub url: Option<Seq<char>>,
    pub title: Option<Seq<char>>,
    pub author: Option<Seq<char>>,
    pub description: Option<Seq<char>>,
    pub image: Option<Seq<char>>,
    pub published_at: Option<Seq<char>>,
    pub updated_at: Option<Seq<char>>,
}

impl View for ArticleMetadata {
    type V = MetadataView;

    open spec fn view(&self) -> MetadataView {
        MetadataView {
            url: opt_view(self.url),
            title: opt_view(self.title),
            author: opt_view(self.author),
            description: opt_view(self.description),
            image: opt_view(self.image),
            published_at: opt_view(self.published_at),
            updated_at: opt_view(self.updated_at),
        }
    }
}

/// Metadata with at least one field, or `None`.
pub open spec fn some_metadata(m: MetadataView) -> Option<MetadataView> {
    if m.url is None && m.title is None && m.author is None && m.description is None && m.image is None
        && m.published_at is None && m.updated_at is None {
        None
    } else {
        Some(m)
    }
}

pub open spec fn metadata_view(o: Option<ArticleMetadata>) -> Option<MetadataView> {
    match o {
        Some(m) => Some(m@),
        None => None,
    }
}

impl ArticleMetadata {
    pub open spec fn spec_is_empty(&self) -> bool {
        &&& self.url is None
        &&& self.title is None
        &&& self.author is None
        &&& self.description is None
        &&& self.image is None
        &&& self.published_at is None
        &&& self.updated_at is None
    }

    /// Empty metadata is represented as `None` by callers.
    pub fn is_empty(&self) -> (r: bool)
        ensures
            r == self.spec_is_empty(),
    {
        self.url.is_none() && self.title.is_none() && self.author.is_none()
            && self.description.is_none() && self.image.is_none() && self.published_at.is_none()
            && self.updated_at.is_none()
    }
}

/// A source crawler's output before normalization and hashing.
#[derive(Debug, PartialEq, Eq)]
pub struct ArticleDraft {
    pub title: String,
    pub body: String,
    pub link: String,
    pub source_id: SourceId,
    pub categories: Vec<String>,
    pub metadata: Option<ArticleMetadata>,
    pub published_at: i128,
}

/// The validated representation persisted in the outbox and sent to the API.
#[derive(Debug, PartialEq, Eq)]
pub struct Article {
    pub hash: ArticleHash,
    pub title: String,
    pub body: String,
    pub link: String,
    pub source_id: SourceId,
    pub categories: Vec<String>,
    pub metadata: Option<ArticleMetadata>,
    pub published_at: i128,
}

// --- Instants ------------------------------------------------------------------

/// The whole seconds (rounded down) of an instant in nanoseconds and the
/// nanoseconds past them, when the seconds fit 64 bits.
pub open spec fn instant_parts(t: int) -> Option<(i64, u32)> {
    let s = t / NANOS_PER_SECOND as int;
    let n = t % NANOS_PER_SECOND as int;
    if i64::MIN <= s && s <= i64::MAX {
        Some((s as i64, n as u32))
    } else {
        None
    }
}

pub fn instant_parts_of(t: i128) -> (r: Option<(i64, u32)>)
    ensures
        r == instant_parts(t as int),
{
    let b: i128 = 1_000_000_000;
    if t < -9_223_372_036_854_775_808i128 * 1_000_000_000 || t >= 9_223_372_036_854_775_808i128
        * 1_000_000_000 {
        proof {
            let sx = t as int / 1_000_000_000;
            let nx = t as int % 1_000_000_000;
            vstd::arithmetic::div_mod::lemma_fundamental_div_mod(t as int, 1_000_000_000);
            assert(!(i64::MIN <= sx && sx <= i64::MAX)) by (nonlinear_arith)
                requires
                    t < -9_223_372_036_854_775_808 * 1_000_000_000 || t >= 9_223_372_036_854_775_808
                        * 1_000_000_000,
                    t == sx * 1_000_000_000 + nx,
                    0 <= nx < 1_000_000_000,
            ;
        }
        return None;
    }
    let (s, n) = if t >= 0 {
        (t / b, t % b)
    } else {
        let u = -t;
        let q = (u + b - 1) / b;
        (-q, t + q * b)
    };
    proof {
        if t >= 0 {
            assert(t == s * 1_000_000_000 + n && 0 <= n < 1_000_000_000) by (nonlinear_arith)
                requires
                    t >= 0,
                    s == t / 1_000_000_000,
                    n == t % 1_000_000_000,
            ;
        } else {
            assert(t == s * 1_000_000_000 + n && 0 <= n < 1_000_000_000) by (nonlinear_arith)
                requires
                    t < 0,
                    s == -((-t + 1_000_000_000 - 1) / 1_000_000_000),
                    n == t - s * 1_000_000_000,
            ;
        }
        vstd::arithmetic::div_mod::lemma_fundamental_div_mod_converse(
            t as int,
            1_000_000_000,
            s as int,
            n as int,
        );
    }
    if s < -9_223_372_036_854_775_808i128 || s > 9_223_372_036_854_775_807i128 {
        return None;
    }
    Some((s as i64, n as u32))
}

/// The calendar day (`YYYY-MM-DD`, UTC) of an instant; empty when chrono
/// cannot represent it.
pub open spec fn day_text(t: int) -> Seq<char> {
    match instant_parts(t) {
        Some((s, _)) => match formatted_utc_of(s, 0, "%Y-%m-%d"@) {
            Some(x) => x,
            None => Seq::empty(),
        },
        None => Seq::empty(),
    }
}

fn day_string(t: i128) -> (r: String)
    ensures
        r@ == day_text(t as int),
{
    match instant_parts_of(t) {
        Some((s, _)) => match format_utc(s, 0, "%Y-%m-%d") {
            Some(x) => x,
            None => String::new(),
        },
        None => String::new(),
    }
}

// --- Ranges and crawl options --------------------------------------------------

/// Inclusive page boundaries; page zero is valid for HTML sources.
#[derive(Debug, Clone, Copy, PartialEq, Eq, Structural)]
pub struct PageRange {
    pub start: u32,
    pub end: u32,
}

/// The message for a range without a `:`.
pub open spec fn range_syntax_error(kind: Seq<char>, spec: Seq<char>) -> Seq<char> {
    "invalid "@ + kind + " range '"@ + spec + "'; expected start:end"@
}

/// `spec` split at its first `:` into a start and an end text.
pub fn split_range(spec: &str, kind: &str) -> (r: Result<(String, String), CrawlError>)
    ensures
        r is Ok <==> split_once(spec@, ':') is Some,
        r matches Ok(p) ==> split_once(spec@, ':') == Some((p.0@, p.1@)),
        r matches Err(e) ==> e == CrawlError::InvalidRange(e->InvalidRange_0)
            && e->InvalidRange_0@ == range_syntax_error(kind@, spec@),
{
    match split_once_char(spec, ':') {
        Some(parts) => Ok(parts),
        None => {
            let mut message = concat3("invalid ", kind, " range '");
            let tail = concat3(spec, "'; expected start:end", "");
            crate::text::append_str(&mut message, tail.as_str());
            proof {
                reveal_strlit("");
            }
            assert(message@ =~= "invalid "@ + kind@ + " range '"@ + spec@
                + "'; expected start:end"@);
            Err(CrawlError::InvalidRange(message))
        },
    }
}

/// What `PageRange::parse` accepts: `start:end`, two unsigned 32-bit numbers
/// with `start <= end`.
pub open spec fn page_range_of(spec: Seq<char>) -> Option<(int, int)> {
    match split_once(spec, ':') {
        Some((a, b)) => match (parse_unsigned(a, u32::MAX as int), parse_unsigned(
            b,
            u32::MAX as int,
        )) {
            (Some(start), Some(end)) => if start <= end {
                Some((start, end))
            } else {
                None
            },
            _ => None,
        },
        None => None,
    }
}

/// How `PageRange::parse` reads `spec`: the bounds, or the message of the
/// first problem found.
pub open spec fn page_range_parse(spec: Seq<char>) -> Result<(int, int), Seq<char>> {
    match split_once(spec, ':') {
        None => Err(range_syntax_error("page"@, spec)),
        Some((a, b)) => match parse_unsigned(a, u32::MAX as int) {
            None => Err("invalid start page '"@ + a + "'"@),
            Some(start) => match parse_unsigned(b, u32::MAX as int) {
                None => Err("invalid end page '"@ + b + "'"@),
                Some(end) => if start <= end {
                    Ok((start, end))
                } else {
                    Err(
                        "end page "@ + decimal_text(end as nat) + " is before start page "@
                            + decimal_text(start as nat),
                    )
                },
            },
        },
    }
}

/// Parsing the text of a page range gives the range back.
pub proof fn lemma_page_range_text_round_trip(start: u32, end: u32)
    requires
        start <= end,
    ensures
        page_range_of(decimal_text(start as nat) + ":"@ + decimal_text(end as nat)) == Some(
            (start as int, end as int),
        ),
        page_range_parse(decimal_text(start as nat) + ":"@ + decimal_text(end as nat)) == Ok::<
            (int, int),
            Seq<char>,
        >((start as int, end as int)),
{
    let a = decimal_text(start as nat);
    let b = decimal_text(end as nat);
    let s = a + ":"@ + b;
    reveal_strlit(":");
    lemma_decimal_text_reads_back(start as nat);
    assert forall|j: int| 0 <= j < a.len() implies s[j] != ':' by {
        assert(s[j] == a[j]);
        assert(is_digit(a[j]));
    }
    assert(s[a.len() as int] == ':');
    lemma_index_of(s, ':', a.len() as int);
    assert(s.take(a.len() as int) =~= a);
    assert(s.skip(a.len() as int + 1) =~= b);
    lemma_decimal_text_parses(start as nat, u32::MAX as int);
    lemma_decimal_text_parses(end as nat, u32::MAX as int);
}

impl PageRange {
    /// `start:end`, as the range is written on the command line.
    pub fn text(&self) -> (r: String)
        ensures
            r@ == decimal_text(self.start as nat) + ":"@ + decimal_text(self.end as nat),
    {
        let s = decimal_string(self.start as u64);
        let e = decimal_string(self.end as u64);
        concat3(s.as_str(), ":", e.as_str())
    }

    pub fn new(start: u32, end: u32) -> (r: Result<PageRange, CrawlError>)
        ensures
            r is Ok <==> start <= end,
            r matches Ok(p) ==> p.start == start && p.end == end,
            r matches Err(e) ==> e == CrawlError::InvalidRange(e->InvalidRange_0)
                && e->InvalidRange_0@ == "end page "@ + decimal_text(end as nat)
                + " is before start page "@ + decimal_text(start as nat),
    {
        if end < start {
            let e = decimal_string(end as u64);
            let s = decimal_string(start as u64);
            let mut message = concat3("end page ", e.as_str(), " is before start page ");
            crate::text::append_str(&mut message, s.as_str());
            return Err(CrawlError::InvalidRange(message));
        }
        Ok(PageRange { start, end })
    }

    /// Parses the CLI representation `start:end`.
    pub fn parse(spec: &str) -> (r: Result<PageRange, CrawlError>)
        ensures
            r is Ok <==> page_range_of(spec@) is Some,
            r matches Ok(p) ==> page_range_of(spec@) == Some((p.start as int, p.end as int)),
            r matches Err(e) ==> e is InvalidRange && page_range_parse(spec@) == Err::<(int, int), Seq<char>>(
                e->InvalidRange_0@,
            ),
    {
        let (start, end) = split_range(spec, "page")?;
        let start_value = match parse_u32(start.as_str()) {
            Some(v) => v,
            None => {
                return Err(
                    CrawlError::InvalidRange(concat3("invalid start page '", start.as_str(), "'")),
                );
            },
        };
        let end_value = match parse_u32(end.as_str()) {
            Some(v) => v,
            None => {
                return Err(
                    CrawlError::InvalidRange(concat3("invalid end page '", end.as_str(), "'")),
                );
            },
        };
        PageRange::new(start_value, end_value)
    }
}

/// Inclusive UTC time boundaries, in nanoseconds since the Unix epoch.
#[derive(Debug, Clone, Copy, PartialEq, Eq, Structural)]
pub struct DateRange {
    pub start: i128,
    pub end: i128,
}

pub open spec fn day_start(days: int) -> int {
    days * 86_400 * 1_000_000_000
}

pub open spec fn day_end(days: int) -> int {
    day_start(days) + 86_399 * 1_000_000_000 + 999_999_999
}

/// What `DateRange::parse` accepts: `YYYY-MM-DD:YYYY-MM-DD` with the first
/// day not after the second; it spans from the first day's midnight to the
/// last nanosecond of the second day.
pub open spec fn date_range_of(spec: Seq<char>) -> Option<(int, int)> {
    match split_once(spec, ':') {
        Some((a, b)) => match (naive_date_of(a, "%Y-%m-%d"@), naive_date_of(b, "%Y-%m-%d"@)) {
            (Some(s), Some(e)) => if day_start(s as int) <= day_end(e as int) {
                Some((day_start(s as int), day_end(e as int)))
            } else {
                None
            },
            _ => None,
        },
        None => None,
    }
}

/// How `DateRange::parse` reads `spec`: the span, or the message of the
/// first problem found.
pub open spec fn date_range_parse(spec: Seq<char>) -> Result<(int, int), Seq<char>> {
    match split_once(spec, ':') {
        None => Err(range_syntax_error("date"@, spec)),
        Some((a, b)) => match naive_date_of(a, "%Y-%m-%d"@) {
            None => Err(date_error(a)),
            Some(s) => match naive_date_of(b, "%Y-%m-%d"@) {
                None => Err(date_error(b)),
                Some(e) => if day_start(s as int) <= day_end(e as int) {
                    Ok((day_start(s as int), day_end(e as int)))
                } else {
                    Err("end date must be on or after start date"@)
                },
            },
        },
    }
}

/// The message for a day that is not `YYYY-MM-DD`.
pub open spec fn date_error(value: Seq<char>) -> Seq<char> {
    "invalid date '"@ + value + "'; use YYYY-MM-DD"@
}

impl DateRange {
    /// The first and last days, `YYYY-MM-DD:YYYY-MM-DD`, as the range is
    /// written on the command line.
    pub fn text(&self) -> (r: String)
        ensures
            r@ == day_text(self.start as int) + ":"@ + day_text(self.end as int),
    {
        let s = day_string(self.start);
        let e = day_string(self.end);
        concat3(s.as_str(), ":", e.as_str())
    }

    pub fn new(start: i128, end: i128) -> (r: Result<DateRange, CrawlError>)
        ensures
            r is Ok <==> start <= end,
            r matches Ok(d) ==> d.start == start && d.end == end,
            r matches Err(e) ==> e == CrawlError::InvalidRange(e->InvalidRange_0)
                && e->InvalidRange_0@ == "end date must be on or after start date"@,
    {
        if end < start {
            return Err(
                CrawlError::InvalidRange(
                    owned("end date must be on or after start date"),
                ),
            );
        }
        Ok(DateRange { start, end })
    }

    /// Parses `YYYY-MM-DD:YYYY-MM-DD`; the end day is expanded to its last
    /// nanosecond.
    pub fn parse(spec: &str) -> (r: Result<DateRange, CrawlError>)
        ensures
            r is Ok <==> date_range_of(spec@) is Some,
            r matches Ok(d) ==> date_range_of(spec@) == Some((d.start as int, d.end as int)),
            r matches Err(e) ==> e is InvalidRange && date_range_parse(spec@) == Err::<(int, int), Seq<char>>(
                e->InvalidRange_0@,
            ),
    {
        let (start, end) = split_range(spec, "date")?;
        let start_days = parse_date(start.as_str())?;
        let end_days = parse_date(end.as_str())?;
        let first: i128 = (start_days as i128) * SECONDS_PER_DAY * NANOS_PER_SECOND;
        let last: i128 = (end_days as i128) * SECONDS_PER_DAY * NANOS_PER_SECOND + 86_399
            * NANOS_PER_SECOND + 999_999_999;
        DateRange::new(first, last)
    }

    pub open spec fn spec_contains(&self, timestamp: int) -> bool {
        self.start <= timestamp && timestamp <= self.end
    }

    pub fn contains(&self, timestamp: i128) -> (r: bool)
        ensures
            r == self.spec_contains(timestamp as int),
    {
        self.start <= timestamp && timestamp <= self.end
    }

    /// Listings are newest-first: once an article is older than `start`,
    /// crawling can stop.
    pub fn is_older_than_range(&self, timestamp: i128) -> (r: bool)
        ensures
            r == (timestamp < self.start),
    {
        timestamp < self.start
    }
}

/// Days since the epoch of a `YYYY-MM-DD` date, via chrono.
fn parse_date(value: &str) -> (r: Result<i32, CrawlError>)
    ensures
        r is Ok <==> naive_date_of(value@, "%Y-%m-%d"@) is Some,
        r matches Ok(d) ==> naive_date_of(value@, "%Y-%m-%d"@) == Some(d),
        r matches Err(e) ==> e is InvalidRange && e->InvalidRange_0@ == date_error(value@),
{
    match parse_naive_date(value, "%Y-%m-%d") {
        Some(days) => Ok(days),
        None => Err(CrawlError::InvalidRange(concat3("invalid date '", value, "'; use YYYY-MM-DD"))),
    }
}

/// Crawling direction used when the backend supplies an update boundary.
#[derive(Debug, Clone, Copy, Default, PartialEq, Eq, Structural)]
pub enum UpdateDirection {
    Backward,
    #[default]
    Forward,
}

impl UpdateDirection {
    /// Accepts `backward` or `forward`, ignoring ASCII case and surrounding
    /// white space.
    pub fn parse(value: &str) -> (r: Result<UpdateDirection, CrawlError>)
        ensures
            ascii_lowercase(trim(value@)) == "backward"@ <==> r == Ok::<UpdateDirection, CrawlError>(
                UpdateDirection::Backward,
            ),
            ascii_lowercase(trim(value@)) == "forward"@ <==> r == Ok::<UpdateDirection, CrawlError>(
                UpdateDirection::Forward,
            ),
            r matches Err(e) ==> e == CrawlError::InvalidRange(e->InvalidRange_0)
                && e->InvalidRange_0@ == "invalid update direction '"@ + value@
                + "'; expected forward or backward"@,
    {
        let t = trimmed(value);
        let v = chars_of(t.as_str());
        let lower = ascii_lowercase_of(&v);
        let text = string_from_chars(&lower);
        proof {
            reveal_strlit("backward");
            reveal_strlit("forward");
        }
        assert("backward"@.len() != "forward"@.len());
        if crate::text::str_eq(text.as_str(), "backward") {
            Ok(UpdateDirection::Backward)
        } else if crate::text::str_eq(text.as_str(), "forward") {
            Ok(UpdateDirection::Forward)
        } else {
            Err(
                CrawlError::InvalidRange(
                    concat3("invalid update direction '", value, "'; expected forward or backward"),
                ),
            )
        }
    }
}

/// One request to crawl a configured source.
#[derive(Debug, PartialEq, Eq)]
pub struct CrawlRequest {
    pub source_id: SourceId,
    pub page_range: Option<PageRange>,
    pub date_range: Option<DateRange>,
    pub category: Option<String>,
    pub direction: Option<UpdateDirection>,
}

// --- Delivery vocabulary -------------------------------------------------------

/// Durable state of an article's delivery to the ingestion API.
#[derive(Debug, Clone, Copy, PartialEq, Eq, Structural)]
pub enum DeliveryState {
    Pending,
    Forwarded,
    Failed,
}

#[derive(Debug, Clone, Copy, PartialEq, Eq, Structural)]
pub enum RetryDecision {
    Retry,
    Stop,
}

#[derive(Debug, PartialEq, Eq)]
#[allow(inconsistent_fields)]
pub enum DeliveryOutcome {
    Delivered { status: u16 },
    Failed { decision: RetryDecision, status: Option<u16>, message: String },
}

} // verus!
