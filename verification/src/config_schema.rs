//! The structural schema of a crawler configuration, checked on the typed
//! value: non-blank names and selectors, HTTP(S) and Redis URLs, positive
//! timeouts and counts, at least one source. Selectors are also held to
//! the parenthesis bound under which they are parsed.
//!
//! Each issue reads `path: message`, with the path's segments joined by `.`
//! and the messages worded as the schema library words them. Issues come in
//! the order of the configuration's fields.

use vstd::prelude::*;

use crate::config::{CrawlerConfig, HtmlSelectors, SourceConfig};
use crate::markup::{is_bounded_selector, selector_bounded};
use crate::text::{
    append_str, chars_of, decimal_string, decimal_text, is_white_space, owned, views, white_space,
};

verus! {

// --- Single-value rules ---------------------------------------------------------

/// Whether some character of `s` is not white space (the pattern `\S`).
pub open spec fn has_visible_char(s: Seq<char>) -> bool {
    exists|i: int| 0 <= i < s.len() && !is_white_space(#[trigger] s[i])
}

pub open spec fn starts_with(s: Seq<char>, prefix: Seq<char>) -> bool {
    prefix.len() <= s.len() && s.subrange(0, prefix.len() as int) == prefix
}

/// A name or selector: at least one character, one of them visible.
pub open spec fn non_blank_issue(s: Seq<char>) -> Option<Seq<char>> {
    if s.len() == 0 {
        Some("Too small: expected string to have >= 1 characters"@)
    } else if !has_visible_char(s) {
        Some("Invalid value: must match pattern \\S"@)
    } else {
        None
    }
}

/// A URL must use the `http://` or `https://` scheme.
pub open spec fn url_issue(s: Seq<char>) -> Option<Seq<char>> {
    if starts_with(s, "http://"@) || starts_with(s, "https://"@) {
        None
    } else {
        Some("Invalid URL"@)
    }
}

/// A Redis URL must match `^rediss?://`.
pub open spec fn redis_url_issue(s: Seq<char>) -> Option<Seq<char>> {
    if starts_with(s, "redis://"@) || starts_with(s, "rediss://"@) {
        None
    } else {
        Some("Invalid value: must match pattern ^rediss?://"@)
    }
}

pub open spec fn positive_issue(n: int) -> Option<Seq<char>> {
    if n > 0 {
        None
    } else {
        Some("Invalid number: must be positive"@)
    }
}

/// An IEEE-754 double, given by its bits, that is finite and not greater than
/// zero (zero, negative zero, or a finite negative number). Infinities and
/// NaN have no JSON form, so the schema never sees them.
pub open spec fn finite_non_positive(bits: u64) -> bool {
    bits == 0 || (bits >= 0x8000_0000_0000_0000u64 && bits - 0x8000_0000_0000_0000u64
        < 0x7ff0_0000_0000_0000u64)
}

pub open spec fn float_positive_issue(bits: u64) -> Option<Seq<char>> {
    if finite_non_positive(bits) {
        Some("Invalid number: must be positive"@)
    } else {
        None
    }
}

/// The issue at `path`, if there is one, as a list of zero or one lines.
pub open spec fn at(path: Seq<char>, issue: Option<Seq<char>>) -> Seq<Seq<char>> {
    match issue {
        Some(m) => seq![path + ": "@ + m],
        None => Seq::empty(),
    }
}

// --- The configuration ----------------------------------------------------------

pub open spec fn source_path(index: nat, field: Seq<char>) -> Seq<char> {
    "sources."@ + decimal_text(index) + "."@ + field
}

/// The issue of an optional name or selector, absent when it is unset.
pub open spec fn optional_non_blank(path: Seq<char>, value: Option<String>) -> Seq<Seq<char>> {
    match value {
        Some(v) => at(path, non_blank_issue(v@)),
        None => Seq::empty(),
    }
}

/// A selector: not blank, and holding at most `MAX_SELECTOR_PARENS`
/// opening parentheses.
pub open spec fn selector_issue(s: Seq<char>) -> Option<Seq<char>> {
    match non_blank_issue(s) {
        Some(m) => Some(m),
        None => if selector_bounded(s) {
            None
        } else {
            Some("Too deeply nested: expected at most 32 opening parentheses"@)
        },
    }
}

/// The issue of an optional selector, absent when it is unset.
pub open spec fn optional_selector(path: Seq<char>, value: Option<String>) -> Seq<Seq<char>> {
    match value {
        Some(v) => at(path, selector_issue(v@)),
        None => Seq::empty(),
    }
}

pub open spec fn selector_path(index: nat, name: Seq<char>) -> Seq<char> {
    source_path(index, "selectors."@ + name)
}

pub open spec fn selector_issues(index: nat, s: HtmlSelectors) -> Seq<Seq<char>> {
    let p = |f: Seq<char>| selector_path(index, f);
    at(p("body"@), selector_issue(s.body@)) + optional_selector(p("categories"@), s.categories)
        + at(p("date"@), selector_issue(s.date@)) + at(p("link"@), selector_issue(s.link@))
        + at(p("list"@), selector_issue(s.list@)) + at(p("title"@), selector_issue(s.title@))
        + at(p("pagination"@), selector_issue(s.pagination@))
}

/// The issues of the source at position `index`.
pub open spec fn source_issues(index: nat, source: SourceConfig) -> Seq<Seq<char>> {
    let common = source.spec_common();
    let base = at(source_path(index, "id"@), non_blank_issue(common.id@)) + at(
        source_path(index, "url"@),
        url_issue(common.url@),
    ) + at(source_path(index, "date_format"@), non_blank_issue(common.date_format@));
    match source {
        SourceConfig::Html(h) => base + at(
            source_path(index, "pagination_template"@),
            non_blank_issue(h.pagination_template@),
        ) + selector_issues(index, h.selectors),
        SourceConfig::WordPress(_) => base,
    }
}

pub open spec fn all_source_issues(sources: Seq<SourceConfig>) -> Seq<Seq<char>>
    decreases sources.len(),
{
    if sources.len() == 0 {
        Seq::empty()
    } else {
        all_source_issues(sources.drop_last()) + source_issues(
            (sources.len() - 1) as nat,
            sources.last(),
        )
    }
}

/// The issues of everything but the individual sources.
pub open spec fn settings_issues(c: CrawlerConfig) -> Seq<Seq<char>> {
    (match c.ingestion.endpoint {
        Some(e) => at("ingestion.endpoint"@, url_issue(e@)),
        None => Seq::empty(),
    }) + at("http.backoff.initial"@, float_positive_issue(c.http.backoff.initial)) + at(
        "http.backoff.max"@,
        float_positive_issue(c.http.backoff.max),
    ) + at("http.backoff.multiplier"@, float_positive_issue(c.http.backoff.multiplier)) + at(
        "http.timeout"@,
        positive_issue(c.http.timeout as int),
    ) + at("http.user_agent"@, non_blank_issue(c.http.user_agent@)) + at(
        "queue.prefix"@,
        non_blank_issue(c.queue.prefix@),
    ) + at("queue.queues.discovery"@, non_blank_issue(c.queue.queues.discovery@)) + at(
        "queue.queues.articles"@,
        non_blank_issue(c.queue.queues.articles@),
    ) + at("queue.queues.delivery"@, non_blank_issue(c.queue.queues.delivery@)) + at(
        "queue.redis_url"@,
        redis_url_issue(c.queue.redis_url@),
    ) + at("runtime.worker_concurrency"@, positive_issue(c.runtime.worker_concurrency as int))
        + (if c.sources.len() == 0 {
        seq!["sources: Too small: expected array to have >= 1 items"@]
    } else {
        Seq::empty()
    })
}

/// Every schema issue of a configuration, in field order.
pub open spec fn config_issues(c: CrawlerConfig) -> Seq<Seq<char>> {
    settings_issues(c) + all_source_issues(c.sources@)
}

/// The error text for a non-empty list of issues: a heading, then one
/// indented line per issue.
pub open spec fn schema_failure_text(issues: Seq<Seq<char>>) -> Seq<char>
    decreases issues.len(),
{
    if issues.len() == 0 {
        "schema validation failed:"@
    } else {
        schema_failure_text(issues.drop_last()) + "\n  - "@ + issues.last()
    }
}

// --- Checks -------------------------------------------------------------------

fn visible_char(s: &str) -> (r: bool)
    ensures
        r == has_visible_char(s@),
{
    let v = chars_of(s);
    let mut i: usize = 0;
    while i < v.len()
        invariant
            i <= v.len(),
            v@ == s@,
            forall|j: int| 0 <= j < i ==> is_white_space(#[trigger] s@[j]),
        decreases v.len() - i,
    {
        if !white_space(v[i]) {
            return true;
        }
        i = i + 1;
    }
    false
}

fn has_prefix(s: &str, prefix: &str) -> (r: bool)
    ensures
        r == starts_with(s@, prefix@),
{
    let v = chars_of(s);
    let p = chars_of(prefix);
    if p.len() > v.len() {
        return false;
    }
    let mut i: usize = 0;
    while i < p.len()
        invariant
            i <= p.len() <= v.len(),
            v@ == s@,
            p@ == prefix@,
            forall|j: int| 0 <= j < i ==> s@[j] == prefix@[j],
        decreases p.len() - i,
    {
        if v[i] != p[i] {
            assert(s@.subrange(0, prefix@.len() as int)[i as int] != prefix@[i as int]);
            return false;
        }
        i = i + 1;
    }
    assert(s@.subrange(0, prefix@.len() as int) =~= prefix@);
    true
}

fn check_non_blank(s: &str) -> (r: Option<&'static str>)
    ensures
        r is None <==> non_blank_issue(s@) is None,
        r matches Some(m) ==> non_blank_issue(s@) == Some(m@),
{
    let v = chars_of(s);
    if v.len() == 0 {
        Some("Too small: expected string to have >= 1 characters")
    } else if !visible_char(s) {
        Some("Invalid value: must match pattern \\S")
    } else {
        None
    }
}

fn check_selector(s: &str) -> (r: Option<&'static str>)
    ensures
        r is None <==> selector_issue(s@) is None,
        r matches Some(m) ==> selector_issue(s@) == Some(m@),
{
    match check_non_blank(s) {
        Some(m) => Some(m),
        None => if is_bounded_selector(s) {
            None
        } else {
            Some("Too deeply nested: expected at most 32 opening parentheses")
        },
    }
}

fn check_url(s: &str) -> (r: Option<&'static str>)
    ensures
        r is None <==> url_issue(s@) is None,
        r matches Some(m) ==> url_issue(s@) == Some(m@),
{
    if has_prefix(s, "http://") || has_prefix(s, "https://") {
        None
    } else {
        Some("Invalid URL")
    }
}

fn check_redis_url(s: &str) -> (r: Option<&'static str>)
    ensures
        r is None <==> redis_url_issue(s@) is None,
        r matches Some(m) ==> redis_url_issue(s@) == Some(m@),
{
    if has_prefix(s, "redis://") || has_prefix(s, "rediss://") {
        None
    } else {
        Some("Invalid value: must match pattern ^rediss?://")
    }
}

fn check_positive(n: u64) -> (r: Option<&'static str>)
    ensures
        r is None <==> positive_issue(n as int) is None,
        r matches Some(m) ==> positive_issue(n as int) == Some(m@),
{
    if n > 0 {
        None
    } else {
        Some("Invalid number: must be positive")
    }
}

fn check_float_positive(bits: u64) -> (r: Option<&'static str>)
    ensures
        r is None <==> float_positive_issue(bits) is None,
        r matches Some(m) ==> float_positive_issue(bits) == Some(m@),
{
    if bits == 0 || (bits >= 0x8000_0000_0000_0000u64 && bits - 0x8000_0000_0000_0000u64
        < 0x7ff0_0000_0000_0000u64) {
        Some("Invalid number: must be positive")
    } else {
        None
    }
}

/// Appends `path: message` when there is an issue.
fn record(issues: &mut Vec<String>, path: &str, found: Option<&str>, Ghost(spec): Ghost<Option<Seq<char>>>)
    requires
        found is None <==> spec is None,
        found matches Some(m) ==> spec == Some(m@),
    ensures
        views(final(issues)@) == views(old(issues)@) + at(path@, spec),
{
    match found {
        Some(m) => {
            let mut line = String::new();
            append_str(&mut line, path);
            append_str(&mut line, ": ");
            append_str(&mut line, m);
            let ghost before = issues@;
            issues.push(line);
            assert(views(issues@) =~= views(before) + at(path@, spec));
        },
        None => {
            assert(views(issues@) =~= views(issues@) + at(path@, spec));
        },
    }
}

/// `sources.<index>.<field>`.
fn source_field_path(index: usize, field: &str) -> (r: String)
    ensures
        r@ == source_path(index as nat, field@),
{
    let mut p = String::new();
    append_str(&mut p, "sources.");
    let n = decimal_string(index as u64);
    append_str(&mut p, n.as_str());
    append_str(&mut p, ".");
    append_str(&mut p, field);
    assert(p@ =~= source_path(index as nat, field@));
    p
}

fn record_field(
    issues: &mut Vec<String>,
    index: usize,
    field: &str,
    found: Option<&str>,
    Ghost(spec): Ghost<Option<Seq<char>>>,
)
    requires
        found is None <==> spec is None,
        found matches Some(m) ==> spec == Some(m@),
    ensures
        views(final(issues)@) == views(old(issues)@) + at(source_path(index as nat, field@), spec),
{
    let path = source_field_path(index, field);
    record(issues, path.as_str(), found, Ghost(spec));
}

fn record_selector(
    issues: &mut Vec<String>,
    index: usize,
    name: &str,
    value: &str,
)
    ensures
        views(final(issues)@) == views(old(issues)@) + at(
            selector_path(index as nat, name@),
            selector_issue(value@),
        ),
{
    let mut field = owned("selectors.");
    append_str(&mut field, name);
    record_field(issues, index, field.as_str(), check_selector(value), Ghost(selector_issue(value@)));
}

#[verifier::rlimit(60)]
fn record_selectors(issues: &mut Vec<String>, index: usize, s: &HtmlSelectors)
    ensures
        views(final(issues)@) == views(old(issues)@) + selector_issues(index as nat, *s),
{
    let ghost start = views(issues@);
    record_selector(issues, index, "body", s.body.as_str());
    let ghost after_body = views(issues@);
    match &s.categories {
        Some(c) => {
            record_selector(issues, index, "categories", c.as_str());
        },
        None => {},
    }
    assert(views(issues@) =~= after_body + optional_selector(
        selector_path(index as nat, "categories"@),
        s.categories,
    ));
    record_selector(issues, index, "date", s.date.as_str());
    record_selector(issues, index, "link", s.link.as_str());
    record_selector(issues, index, "list", s.list.as_str());
    record_selector(issues, index, "title", s.title.as_str());
    record_selector(issues, index, "pagination", s.pagination.as_str());
    assert(views(issues@) =~= start + selector_issues(index as nat, *s));
}

#[verifier::rlimit(60)]
fn record_source(issues: &mut Vec<String>, index: usize, source: &SourceConfig)
    ensures
        views(final(issues)@) == views(old(issues)@) + source_issues(index as nat, *source),
{
    let ghost start = views(issues@);
    let common = source.common();
    record_field(issues, index, "id", check_non_blank(common.id.as_str()), Ghost(non_blank_issue(common.id@)));
    record_field(issues, index, "url", check_url(common.url.as_str()), Ghost(url_issue(common.url@)));
    record_field(
        issues,
        index,
        "date_format",
        check_non_blank(common.date_format.as_str()),
        Ghost(non_blank_issue(common.date_format@)),
    );
    let ghost base = views(issues@);
    match source {
        SourceConfig::Html(h) => {
            record_field(
                issues,
                index,
                "pagination_template",
                check_non_blank(h.pagination_template.as_str()),
                Ghost(non_blank_issue(h.pagination_template@)),
            );
            record_selectors(issues, index, &h.selectors);
        },
        SourceConfig::WordPress(_) => {},
    }
    assert(views(issues@) =~= start + source_issues(index as nat, *source));
}

impl CrawlerConfig {
    /// Every schema issue of the configuration, as `path: message` lines in
    /// field order; empty when the configuration is well formed.
    pub fn schema_issues(&self) -> (r: Vec<String>)
        ensures
            views(r@) == config_issues(*self),
    {
        let mut issues: Vec<String> = Vec::new();
        match &self.ingestion.endpoint {
            Some(e) => {
                record(&mut issues, "ingestion.endpoint", check_url(e.as_str()), Ghost(url_issue(e@)));
            },
            None => {},
        }
        let b = self.http.backoff;
        record(&mut issues, "http.backoff.initial", check_float_positive(b.initial), Ghost(float_positive_issue(b.initial)));
        record(&mut issues, "http.backoff.max", check_float_positive(b.max), Ghost(float_positive_issue(b.max)));
        record(
            &mut issues,
            "http.backoff.multiplier",
            check_float_positive(b.multiplier),
            Ghost(float_positive_issue(b.multiplier)),
        );
        record(&mut issues, "http.timeout", check_positive(self.http.timeout), Ghost(positive_issue(self.http.timeout as int)));
        record(
            &mut issues,
            "http.user_agent",
            check_non_blank(self.http.user_agent.as_str()),
            Ghost(non_blank_issue(self.http.user_agent@)),
        );
        let q = &self.queue;
        record(&mut issues, "queue.prefix", check_non_blank(q.prefix.as_str()), Ghost(non_blank_issue(q.prefix@)));
        record(
            &mut issues,
            "queue.queues.discovery",
            check_non_blank(q.queues.discovery.as_str()),
            Ghost(non_blank_issue(q.queues.discovery@)),
        );
        record(
            &mut issues,
            "queue.queues.articles",
            check_non_blank(q.queues.articles.as_str()),
            Ghost(non_blank_issue(q.queues.articles@)),
        );
        record(
            &mut issues,
            "queue.queues.delivery",
            check_non_blank(q.queues.delivery.as_str()),
            Ghost(non_blank_issue(q.queues.delivery@)),
        );
        record(&mut issues, "queue.redis_url", check_redis_url(q.redis_url.as_str()), Ghost(redis_url_issue(q.redis_url@)));
        let workers = self.runtime.worker_concurrency as u64;
        record(
            &mut issues,
            "runtime.worker_concurrency",
            check_positive(workers),
            Ghost(positive_issue(self.runtime.worker_concurrency as int)),
        );
        if self.sources.len() == 0 {
            issues.push(owned("sources: Too small: expected array to have >= 1 items"));
        }
        assert(views(issues@) =~= settings_issues(*self));
        let ghost settings = views(issues@);
        let mut i: usize = 0;
        while i < self.sources.len()
            invariant
                i <= self.sources.len(),
                settings == settings_issues(*self),
                views(issues@) == settings + all_source_issues(self.sources@.take(i as int)),
            decreases self.sources.len() - i,
        {
            record_source(&mut issues, i, &self.sources[i]);
            proof {
                let next = self.sources@.take(i + 1);
                assert(next.drop_last() =~= self.sources@.take(i as int));
                assert(next.last() == self.sources@[i as int]);
            }
            i = i + 1;
        }
        assert(self.sources@.take(self.sources.len() as int) =~= self.sources@);
        issues
    }
}

/// The error text for a list of issues.
pub fn schema_failure(issues: &Vec<String>) -> (r: String)
    ensures
        r@ == schema_failure_text(views(issues@)),
{
    let mut text = String::new();
    append_str(&mut text, "schema validation failed:");
    let mut i: usize = 0;
    while i < issues.len()
        invariant
            i <= issues.len(),
            text@ == schema_failure_text(views(issues@).take(i as int)),
        decreases issues.len() - i,
    {
        append_str(&mut text, "\n  - ");
        append_str(&mut text, issues[i].as_str());
        proof {
            let next = views(issues@).take(i + 1);
            assert(next.drop_last() =~= views(issues@).take(i as int));
        }
        i = i + 1;
    }
    assert(views(issues@).take(issues.len() as int) =~= views(issues@));
    text
}

} // verus!
