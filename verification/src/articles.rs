//! Article ingestion rules: validation and canonicalization at the article
//! boundary, the delivery vocabulary of the outbox, and the decisions the
//! ingestion pipeline takes around a network delivery.

use vstd::prelude::*;

use crate::config::IngestionApiConfig;
use crate::bindings::{url_path, url_path_of, url_set_path, url_with_path_of};
use crate::domain::{url_hash, Article, ArticleDraft, ArticleHash, ArticleMetadata};
use crate::error::{concat3, CrawlError};
use crate::text::{
    append_str, chars_of, is_white_space, lowercase, owned, push_char, str_eq, strip_leading, strip_trailing,
    trim_end, trim_start,
    contains_string, string_from_chars, trim, trim_bounds, trim_end_matches, trim_start_matches, unicode_lowercase,
    views,
};

verus! {

// --- Sanitizing text -----------------------------------------------------------

/// Zero-width characters that are dropped from article text.
pub open spec fn is_invisible(c: char) -> bool {
    c == '\u{200b}' || c == '\u{200c}' || c == '\u{200d}' || c == '\u{feff}'
}

/// Non-breaking spaces become ordinary spaces.
pub open spec fn plain_space(c: char) -> char {
    if c == '\u{a0}' || c == '\u{202f}' {
        ' '
    } else {
        c
    }
}

/// Spaces made plain and invisible characters removed.
pub open spec fn clean_chars(s: Seq<char>) -> Seq<char>
    decreases s.len(),
{
    if s.len() == 0 {
        s
    } else if is_invisible(s.last()) {
        clean_chars(s.drop_last())
    } else {
        clean_chars(s.drop_last()).push(plain_space(s.last()))
    }
}

/// Every `\r\n` replaced by `\n`.
pub open spec fn crlf_to_lf(s: Seq<char>) -> Seq<char>
    decreases s.len(),
{
    if s.len() >= 2 && s[s.len() - 2] == '\r' && s.last() == '\n' {
        crlf_to_lf(s.subrange(0, s.len() - 2)).push('\n')
    } else if s.len() > 0 {
        crlf_to_lf(s.drop_last()).push(s.last())
    } else {
        s
    }
}

/// Runs of consecutive newlines reduced to one.
pub open spec fn collapse_newlines(s: Seq<char>) -> Seq<char>
    decreases s.len(),
{
    if s.len() == 0 {
        s
    } else if s.last() == '\n' && s.len() >= 2 && s[s.len() - 2] == '\n' {
        collapse_newlines(s.drop_last())
    } else {
        collapse_newlines(s.drop_last()).push(s.last())
    }
}

/// Canonical article text: plain spaces, no zero-width characters, `\n` line
/// ends without blank-line runs, and no surrounding white space.
pub open spec fn sanitized(s: Seq<char>) -> Seq<char> {
    trim(collapse_newlines(crlf_to_lf(clean_chars(s))))
}

fn clean_vec(v: &Vec<char>) -> (r: Vec<char>)
    ensures
        r@ == clean_chars(v@),
{
    let mut r: Vec<char> = Vec::new();
    let mut i: usize = 0;
    while i < v.len()
        invariant
            i <= v.len(),
            r@ == clean_chars(v@.take(i as int)),
        decreases v.len() - i,
    {
        let c = v[i];
        assert(v@.take(i + 1).drop_last() =~= v@.take(i as int));
        if !(c == '\u{200b}' || c == '\u{200c}' || c == '\u{200d}' || c == '\u{feff}') {
            if c == '\u{a0}' || c == '\u{202f}' {
                r.push(' ');
            } else {
                r.push(c);
            }
        }
        i = i + 1;
    }
    assert(v@.take(v.len() as int) =~= v@);
    r
}

fn crlf_vec(v: &Vec<char>) -> (r: Vec<char>)
    ensures
        r@ == crlf_to_lf(v@),
{
    let mut r: Vec<char> = Vec::new();
    let mut i: usize = 0;
    while i < v.len()
        invariant
            i <= v.len(),
            r@ == crlf_to_lf(v@.take(i as int)),
            i > 0 && v@[i - 1] == '\r' ==> !(i < v.len() && v@[i as int] == '\n'),
        decreases v.len() - i,
    {
        if v[i] == '\r' && i + 1 < v.len() && v[i + 1] == '\n' {
            assert(v@.take(i + 2).subrange(0, i as int) =~= v@.take(i as int));
            r.push('\n');
            i = i + 2;
        } else {
            assert(v@.take(i + 1).drop_last() =~= v@.take(i as int));
            r.push(v[i]);
            i = i + 1;
        }
    }
    assert(v@.take(v.len() as int) =~= v@);
    r
}

fn collapse_vec(v: &Vec<char>) -> (r: Vec<char>)
    ensures
        r@ == collapse_newlines(v@),
{
    let mut r: Vec<char> = Vec::new();
    let mut previous_newline = false;
    let mut i: usize = 0;
    while i < v.len()
        invariant
            i <= v.len(),
            r@ == collapse_newlines(v@.take(i as int)),
            previous_newline == (i > 0 && v@[i - 1] == '\n'),
        decreases v.len() - i,
    {
        let c = v[i];
        assert(v@.take(i + 1).drop_last() =~= v@.take(i as int));
        if c == '\n' {
            if !previous_newline {
                r.push(c);
            }
            previous_newline = true;
        } else {
            r.push(c);
            previous_newline = false;
        }
        i = i + 1;
    }
    assert(v@.take(v.len() as int) =~= v@);
    r
}

/// Normalizes invisible characters and line breaks, then trims.
pub fn sanitize(text: &str) -> (r: String)
    ensures
        r@ == sanitized(text@),
{
    let v = chars_of(text);
    let cleaned = clean_vec(&v);
    let unix = crlf_vec(&cleaned);
    let collapsed = collapse_vec(&unix);
    let (lo, hi) = trim_bounds(&collapsed);
    crate::text::string_from_range(&collapsed, lo, hi)
}

// --- Sanitizing twice --------------------------------------------------------------

/// A character that sanitizing neither drops nor rewrites, and that cannot
/// start a `\r\n` pair.
pub open spec fn plain_char(c: char) -> bool {
    !is_invisible(c) && c != '\u{a0}' && c != '\u{202f}' && c != '\r'
}

pub open spec fn all_plain(t: Seq<char>) -> bool {
    forall|i: int| 0 <= i < t.len() ==> plain_char(#[trigger] t[i])
}

pub open spec fn no_carriage_return(t: Seq<char>) -> bool {
    forall|i: int| 0 <= i < t.len() ==> #[trigger] t[i] != '\r'
}

pub open spec fn no_blank_line(t: Seq<char>) -> bool {
    forall|i: int| 0 <= i < t.len() - 1 ==> !(#[trigger] t[i] == '\n' && t[i + 1] == '\n')
}

/// A character sanitized text never holds: a non-breaking or zero-width one.
pub open spec fn dropped_char(c: char) -> bool {
    is_invisible(c) || c == '\u{a0}' || c == '\u{202f}'
}

pub open spec fn no_dropped_char(t: Seq<char>) -> bool {
    forall|i: int| 0 <= i < t.len() ==> !dropped_char(#[trigger] t[i])
}

proof fn lemma_clean_drops(s: Seq<char>)
    ensures
        no_dropped_char(clean_chars(s)),
    decreases s.len(),
{
    if s.len() > 0 {
        lemma_clean_drops(s.drop_last());
    }
}

proof fn lemma_crlf_keeps_dropped_out(t: Seq<char>)
    requires
        no_dropped_char(t),
    ensures
        no_dropped_char(crlf_to_lf(t)),
    decreases t.len(),
{
    if t.len() >= 2 && t[t.len() - 2] == '\r' && t.last() == '\n' {
        let u = t.subrange(0, t.len() - 2);
        assert(no_dropped_char(u)) by {
            assert forall|i: int| 0 <= i < u.len() implies !dropped_char(#[trigger] u[i]) by {
                assert(u[i] == t[i]);
            }
        }
        lemma_crlf_keeps_dropped_out(u);
    } else if t.len() > 0 {
        let u = t.drop_last();
        assert(no_dropped_char(u)) by {
            assert forall|i: int| 0 <= i < u.len() implies !dropped_char(#[trigger] u[i]) by {
                assert(u[i] == t[i]);
            }
        }
        lemma_crlf_keeps_dropped_out(u);
        assert(!dropped_char(t[t.len() - 1]));
    }
}

proof fn lemma_collapse_keeps_dropped_out(t: Seq<char>)
    requires
        no_dropped_char(t),
    ensures
        no_dropped_char(collapse_newlines(t)),
    decreases t.len(),
{
    if t.len() > 0 {
        let u = t.drop_last();
        assert(no_dropped_char(u)) by {
            assert forall|i: int| 0 <= i < u.len() implies !dropped_char(#[trigger] u[i]) by {
                assert(u[i] == t[i]);
            }
        }
        lemma_collapse_keeps_dropped_out(u);
        assert(!dropped_char(t[t.len() - 1]));
    }
}

proof fn lemma_clean_is_plain(s: Seq<char>)
    requires
        no_carriage_return(s),
    ensures
        all_plain(clean_chars(s)),
    decreases s.len(),
{
    if s.len() > 0 {
        assert(no_carriage_return(s.drop_last()));
        lemma_clean_is_plain(s.drop_last());
        assert(s.last() == s[s.len() - 1]);
    }
}

proof fn lemma_clean_keeps_plain(t: Seq<char>)
    requires
        all_plain(t),
    ensures
        clean_chars(t) == t,
    decreases t.len(),
{
    if t.len() > 0 {
        assert(all_plain(t.drop_last()));
        lemma_clean_keeps_plain(t.drop_last());
        assert(plain_char(t[t.len() - 1]));
        assert(t.drop_last().push(t.last()) =~= t);
    }
}

proof fn lemma_crlf_keeps_plain(t: Seq<char>)
    requires
        all_plain(t),
    ensures
        crlf_to_lf(t) == t,
    decreases t.len(),
{
    if t.len() > 0 {
        assert(all_plain(t.drop_last()));
        lemma_crlf_keeps_plain(t.drop_last());
        if t.len() >= 2 {
            assert(plain_char(t[t.len() - 2]));
        }
        assert(t.drop_last().push(t.last()) =~= t);
    }
}

proof fn lemma_collapse_shape(t: Seq<char>)
    ensures
        t.len() > 0 ==> collapse_newlines(t).len() > 0 && collapse_newlines(t).last() == t.last(),
        all_plain(t) ==> all_plain(collapse_newlines(t)),
        no_blank_line(collapse_newlines(t)),
    decreases t.len(),
{
    if t.len() > 0 {
        let rest = t.drop_last();
        lemma_collapse_shape(rest);
        if all_plain(t) {
            assert(all_plain(rest));
            assert(plain_char(t[t.len() - 1]));
        }
        let c = collapse_newlines(rest);
        if !(t.last() == '\n' && t.len() >= 2 && t[t.len() - 2] == '\n') {
            let r = c.push(t.last());
            assert forall|i: int| 0 <= i < r.len() - 1 implies !(#[trigger] r[i] == '\n' && r[i + 1] == '\n') by {
                if i < r.len() - 2 {
                    assert(r[i] == c[i] && r[i + 1] == c[i + 1]);
                } else if t.last() == '\n' {
                    assert(rest.len() > 0);
                    assert(c.last() == rest.last());
                    assert(rest.last() == t[t.len() - 2]);
                }
            }
        } else {
            assert(rest.len() > 0);
            assert(rest.last() == t[t.len() - 2]);
        }
    }
}

proof fn lemma_collapse_keeps_single(t: Seq<char>)
    requires
        no_blank_line(t),
    ensures
        collapse_newlines(t) == t,
    decreases t.len(),
{
    if t.len() > 0 {
        let rest = t.drop_last();
        assert(no_blank_line(rest)) by {
            assert forall|i: int| 0 <= i < rest.len() - 1 implies !(#[trigger] rest[i] == '\n' && rest[i + 1] == '\n') by {
                assert(rest[i] == t[i] && rest[i + 1] == t[i + 1]);
            }
        }
        lemma_collapse_keeps_single(rest);
        if t.len() >= 2 {
            assert(!(t[t.len() - 2] == '\n' && t[t.len() - 1] == '\n'));
        }
        assert(rest.push(t.last()) =~= t);
    }
}

proof fn lemma_trim_start_suffix(t: Seq<char>)
    ensures
        exists|k: int| 0 <= k <= t.len() && trim_start(t) == t.subrange(k, t.len() as int),
        trim_start(t).len() > 0 ==> !is_white_space(trim_start(t)[0]),
    decreases t.len(),
{
    if t.len() > 0 && is_white_space(t[0]) {
        lemma_trim_start_suffix(t.drop_first());
        let k = choose|k: int|
            0 <= k <= t.drop_first().len() && trim_start(t.drop_first()) == t.drop_first().subrange(
                k,
                t.drop_first().len() as int,
            );
        assert(t.drop_first().subrange(k, t.drop_first().len() as int) =~= t.subrange(k + 1, t.len() as int));
    } else {
        assert(t.subrange(0, t.len() as int) =~= t);
    }
}

proof fn lemma_trim_end_prefix(t: Seq<char>)
    ensures
        exists|k: int| 0 <= k <= t.len() && trim_end(t) == t.subrange(0, k),
        trim_end(t).len() > 0 ==> !is_white_space(trim_end(t).last()),
    decreases t.len(),
{
    if t.len() > 0 && is_white_space(t.last()) {
        lemma_trim_end_prefix(t.drop_last());
        let k = choose|k: int| 0 <= k <= t.drop_last().len() && trim_end(t.drop_last()) == t.drop_last().subrange(0, k);
        assert(t.drop_last().subrange(0, k) =~= t.subrange(0, k));
    } else {
        assert(t.subrange(0, t.len() as int) =~= t);
    }
}

/// Trimming keeps a contiguous part of the text, and trimming again changes
/// nothing.
proof fn lemma_trim_part(t: Seq<char>)
    ensures
        exists|a: int, b: int| 0 <= a <= b <= t.len() && trim(t) == t.subrange(a, b),
        trim(trim(t)) == trim(t),
{
    lemma_trim_start_suffix(t);
    let u = trim_start(t);
    let a = choose|k: int| 0 <= k <= t.len() && u == t.subrange(k, t.len() as int);
    lemma_trim_end_prefix(u);
    let v = trim_end(u);
    let b = choose|k: int| 0 <= k <= u.len() && v == u.subrange(0, k);
    assert(v =~= t.subrange(a, a + b));
    if v.len() > 0 {
        assert(v[0] == u[0]);
        assert(trim_start(v) == v);
        assert(trim_end(v) == v);
    } else {
        assert(trim_start(v) == v);
        assert(trim_end(v) == v);
    }
}

/// Sanitized text is sanitized already: sanitizing it again gives it back.
/// (A carriage return can make a new `\r\n` pair, as in `a\r\r\nb`,
/// so texts holding one are left out.)
pub proof fn lemma_sanitize_is_idempotent(s: Seq<char>)
    requires
        no_carriage_return(s),
    ensures
        sanitized(sanitized(s)) == sanitized(s),
{
    lemma_clean_is_plain(s);
    let c = clean_chars(s);
    lemma_crlf_keeps_plain(c);
    lemma_collapse_shape(c);
    let z = collapse_newlines(c);
    lemma_trim_part(z);
    let y = trim(z);
    let (a, b) = choose|a: int, b: int| 0 <= a <= b <= z.len() && y == z.subrange(a, b);
    assert(all_plain(y)) by {
        assert forall|i: int| 0 <= i < y.len() implies plain_char(#[trigger] y[i]) by {
            assert(y[i] == z[a + i]);
        }
    }
    assert(no_blank_line(y)) by {
        assert forall|i: int| 0 <= i < y.len() - 1 implies !(#[trigger] y[i] == '\n' && y[i + 1] == '\n') by {
            assert(y[i] == z[a + i] && y[i + 1] == z[a + i + 1]);
        }
    }
    lemma_clean_keeps_plain(y);
    lemma_crlf_keeps_plain(y);
    lemma_collapse_keeps_single(y);
}

/// Sanitized text has no surrounding white space, no non-breaking or
/// zero-width characters (U+00A0, U+202F, U+200B, U+200C, U+200D, U+FEFF),
/// and no two line feeds in a row. Of a text without carriage returns, it
/// holds none either, and sanitizing it again gives it back.
pub proof fn lemma_sanitized_shape(s: Seq<char>)
    ensures
        trim(sanitized(s)) == sanitized(s),
        no_dropped_char(sanitized(s)),
        no_blank_line(sanitized(s)),
        no_carriage_return(s) ==> no_carriage_return(sanitized(s)) && sanitized(sanitized(s))
            == sanitized(s),
{
    let c = clean_chars(s);
    lemma_clean_drops(s);
    let u = crlf_to_lf(c);
    lemma_crlf_keeps_dropped_out(c);
    lemma_collapse_keeps_dropped_out(u);
    lemma_collapse_shape(u);
    let z = collapse_newlines(u);
    lemma_trim_part(z);
    let y = trim(z);
    let (a, b) = choose|a: int, b: int| 0 <= a <= b <= z.len() && y == z.subrange(a, b);
    assert(no_dropped_char(y)) by {
        assert forall|i: int| 0 <= i < y.len() implies !dropped_char(#[trigger] y[i]) by {
            assert(y[i] == z[a + i]);
        }
    }
    assert(no_blank_line(y)) by {
        assert forall|i: int| 0 <= i < y.len() - 1 implies !(#[trigger] y[i] == '\n' && y[i + 1] == '\n') by {
            assert(y[i] == z[a + i] && y[i + 1] == z[a + i + 1]);
        }
    }
    if no_carriage_return(s) {
        lemma_sanitize_is_idempotent(s);
        lemma_clean_is_plain(s);
        lemma_crlf_keeps_plain(c);
        assert(all_plain(z));
        assert(no_carriage_return(y)) by {
            assert forall|i: int| 0 <= i < y.len() implies #[trigger] y[i] != '\r' by {
                assert(y[i] == z[a + i]);
                assert(plain_char(z[a + i]));
            }
        }
    }
}

// --- Normalization -------------------------------------------------------------

/// Sanitized categories without empty ones, keeping the first of those that
/// are equal once lower-cased. Returns the kept categories and the
/// lower-cased keys seen.
pub open spec fn unique_categories(cats: Seq<Seq<char>>) -> (Seq<Seq<char>>, Seq<Seq<char>>)
    decreases cats.len(),
{
    if cats.len() == 0 {
        (Seq::empty(), Seq::empty())
    } else {
        let (kept, seen) = unique_categories(cats.drop_last());
        let c = sanitized(cats.last());
        if c.len() == 0 || seen.contains(unicode_lowercase(c)) {
            (kept, seen)
        } else {
            (kept.push(c), seen.push(unicode_lowercase(c)))
        }
    }
}

pub open spec fn normalized_categories(cats: Seq<Seq<char>>) -> Seq<Seq<char>> {
    unique_categories(cats).0
}

proof fn lemma_unique_categories(cats: Seq<Seq<char>>)
    ensures
        unique_categories(cats).1.len() == unique_categories(cats).0.len(),
        forall|i: int|
            0 <= i < unique_categories(cats).0.len() ==> unique_categories(cats).1[i] == unicode_lowercase(
                #[trigger] unique_categories(cats).0[i],
            ) && unique_categories(cats).0[i].len() > 0,
        forall|i: int, j: int|
            0 <= i < j < unique_categories(cats).1.len() ==> #[trigger] unique_categories(cats).1[i]
                != #[trigger] unique_categories(cats).1[j],
    decreases cats.len(),
{
    if cats.len() > 0 {
        lemma_unique_categories(cats.drop_last());
    }
}

/// The categories an article keeps are not empty, and no two of them are
/// equal once lower-cased.
pub proof fn lemma_categories_are_distinct(cats: Seq<Seq<char>>)
    ensures
        forall|i: int| 0 <= i < normalized_categories(cats).len() ==> (#[trigger] normalized_categories(cats)[i]).len() > 0,
        forall|i: int, j: int|
            0 <= i < j < normalized_categories(cats).len() ==> unicode_lowercase(
                #[trigger] normalized_categories(cats)[i],
            ) != unicode_lowercase(#[trigger] normalized_categories(cats)[j]),
{
    lemma_unique_categories(cats);
    let (kept, seen) = unique_categories(cats);
    assert forall|i: int, j: int| 0 <= i < j < kept.len() implies unicode_lowercase(kept[i]) != unicode_lowercase(
        kept[j],
    ) by {
        assert(seen[i] == unicode_lowercase(kept[i]));
        assert(seen[j] == unicode_lowercase(kept[j]));
    }
    assert forall|i: int| 0 <= i < kept.len() implies kept[i].len() > 0 by {
        assert(seen[i] == unicode_lowercase(kept[i]));
    }
}

/// Metadata that holds no field is dropped.
pub open spec fn kept_metadata(m: Option<ArticleMetadata>) -> Option<ArticleMetadata> {
    match m {
        Some(meta) => if meta.spec_is_empty() {
            None
        } else {
            Some(meta)
        },
        None => None,
    }
}

/// Sanitizes, drops empty, and deduplicates categories case-insensitively.
pub fn normalize_categories(categories: &Vec<String>) -> (r: Vec<String>)
    ensures
        views(r@) == normalized_categories(views(categories@)),
{
    let mut kept: Vec<String> = Vec::new();
    let mut seen: Vec<String> = Vec::new();
    let mut i: usize = 0;
    while i < categories.len()
        invariant
            i <= categories.len(),
            (views(kept@), views(seen@)) == unique_categories(views(categories@).take(i as int)),
        decreases categories.len() - i,
    {
        let c = sanitize(categories[i].as_str());
        let ghost prefix = views(categories@).take(i + 1);
        assert(prefix.drop_last() =~= views(categories@).take(i as int));
        assert(prefix.last() == categories@[i as int]@);
        if !c.as_str().is_empty() {
            let key = lowercase(c.as_str());
            if !contains_string(&seen, &key) {
                let ghost kept_before = kept@;
                let ghost seen_before = seen@;
                let ghost cv = c@;
                let ghost kv = key@;
                kept.push(c);
                seen.push(key);
                assert(views(kept@) =~= views(kept_before).push(cv));
                assert(views(seen@) =~= views(seen_before).push(kv));
            }
        }
        proof {
            assert(views(kept@) =~= unique_categories(prefix).0);
            assert(views(seen@) =~= unique_categories(prefix).1);
        }
        i = i + 1;
    }
    assert(views(categories@).take(categories.len() as int) =~= views(categories@));
    kept
}

/// Converts a permissive draft into the canonical stored representation.
pub fn normalize(draft: ArticleDraft) -> (r: Result<Article, CrawlError>)
    ensures
        sanitized(draft.title@).len() == 0 ==> (r matches Err(CrawlError::InvalidArticle(m))
            && m@ == "title cannot be empty"@),
        sanitized(draft.title@).len() > 0 && sanitized(draft.body@).len() == 0 ==> (r matches Err(
            CrawlError::InvalidArticle(m),
        ) && m@ == "body cannot be empty"@),
        r is Ok <==> sanitized(draft.title@).len() > 0 && sanitized(draft.body@).len() > 0,
        r matches Ok(a) ==> {
            &&& a.hash@ == url_hash(draft.link@)
            &&& a.title@ == sanitized(draft.title@)
            &&& a.body@ == sanitized(draft.body@)
            &&& a.link == draft.link
            &&& a.source_id == draft.source_id
            &&& views(a.categories@) == normalized_categories(views(draft.categories@))
            &&& a.metadata == kept_metadata(draft.metadata)
            &&& a.published_at == draft.published_at
        },
{
    let title = sanitize(draft.title.as_str());
    let body = sanitize(draft.body.as_str());
    if title.as_str().is_empty() {
        return Err(CrawlError::InvalidArticle(owned("title cannot be empty")));
    }
    if body.as_str().is_empty() {
        return Err(CrawlError::InvalidArticle(owned("body cannot be empty")));
    }
    let hash = ArticleHash::from_url(draft.link.as_str());
    let categories = normalize_categories(&draft.categories);
    let metadata = match draft.metadata {
        Some(meta) => if meta.is_empty() {
            None
        } else {
            Some(meta)
        },
        None => None,
    };
    Ok(
        Article {
            hash,
            title,
            body,
            link: draft.link,
            source_id: draft.source_id,
            categories,
            metadata,
            published_at: draft.published_at,
        },
    )
}

// --- Outbox vocabulary ---------------------------------------------------------

#[derive(Debug, Clone, Copy, PartialEq, Eq, Structural)]
pub enum DeliveryStatus {
    Pending,
    Forwarded,
    Failed,
}

impl DeliveryStatus {
    /// Reads the status column of an outbox row.
    pub fn parse(value: &str) -> (r: Result<DeliveryStatus, CrawlError>)
        ensures
            value@ == "pending"@ <==> r == Ok::<DeliveryStatus, CrawlError>(DeliveryStatus::Pending),
            value@ == "forwarded"@ <==> r == Ok::<DeliveryStatus, CrawlError>(
                DeliveryStatus::Forwarded,
            ),
            value@ == "failed"@ <==> r == Ok::<DeliveryStatus, CrawlError>(DeliveryStatus::Failed),
            r matches Err(e) ==> e == CrawlError::Configuration(e->Configuration_0)
                && e->Configuration_0@ == "unknown outbox status '"@ + value@ + "'"@,
    {
        proof {
            reveal_strlit("pending");
            reveal_strlit("forwarded");
            reveal_strlit("failed");
        }
        assert("pending"@.len() == 7 && "forwarded"@.len() == 9 && "failed"@.len() == 6);
        if str_eq(value, "pending") {
            Ok(DeliveryStatus::Pending)
        } else if str_eq(value, "forwarded") {
            Ok(DeliveryStatus::Forwarded)
        } else if str_eq(value, "failed") {
            Ok(DeliveryStatus::Failed)
        } else {
            Err(CrawlError::Configuration(concat3("unknown outbox status '", value, "'")))
        }
    }

    /// The text stored in the status column.
    pub fn as_str(&self) -> (r: &'static str)
        ensures
            DeliveryStatus::parse_spec(r@) == Some(*self),
    {
        proof {
            reveal_strlit("pending");
            reveal_strlit("forwarded");
            reveal_strlit("failed");
        }
        assert("pending"@.len() == 7 && "forwarded"@.len() == 9 && "failed"@.len() == 6);
        match self {
            DeliveryStatus::Pending => "pending",
            DeliveryStatus::Forwarded => "forwarded",
            DeliveryStatus::Failed => "failed",
        }
    }

    pub open spec fn parse_spec(value: Seq<char>) -> Option<DeliveryStatus> {
        if value == "pending"@ {
            Some(DeliveryStatus::Pending)
        } else if value == "forwarded"@ {
            Some(DeliveryStatus::Forwarded)
        } else if value == "failed"@ {
            Some(DeliveryStatus::Failed)
        } else {
            None
        }
    }
}

#[derive(Debug, Clone, Copy, Default, PartialEq, Eq, Structural)]
pub struct OutboxStats {
    pub total: usize,
    pub pending: usize,
    pub forwarded: usize,
    pub failed: usize,
    pub retryable_failed: usize,
    pub claimed: usize,
    pub delivery_intents_pending: usize,
    pub delivery_intents_failed: usize,
}

// --- Delivery decisions --------------------------------------------------------

/// What one attempt to forward an article returned.
#[derive(Debug, PartialEq, Eq)]
#[allow(inconsistent_fields)]
pub enum DeliveryResult {
    Delivered { status: u16 },
    Failed { retryable: bool, status: Option<u16>, message: String },
}

/// HTTP statuses after which a delivery is worth retrying.
pub open spec fn retryable_status(status: u16) -> bool {
    status == 408 || status == 425 || status == 429 || status >= 500
}

pub fn is_retryable_status(status: u16) -> (r: bool)
    ensures
        r == retryable_status(status),
{
    status == 408 || status == 425 || status == 429 || status >= 500
}

/// Whether an HTTP status is a success (2xx).
pub open spec fn success_status(status: u16) -> bool {
    200 <= status && status <= 299
}

/// The result of a forwarding request that got an HTTP answer.
pub fn delivery_result_for_status(status: u16, body: &str) -> (r: DeliveryResult)
    ensures
        success_status(status) ==> r == (DeliveryResult::Delivered { status }),
        !success_status(status) ==> (r matches DeliveryResult::Failed { retryable, status: s, message }
            && retryable == retryable_status(status) && s == Some(status) && message@
            == "forwarding failed with HTTP "@ + crate::text::decimal_text(status as nat) + ": "@
            + body@),
{
    if 200 <= status && status <= 299 {
        DeliveryResult::Delivered { status }
    } else {
        let code = crate::text::decimal_string(status as u64);
        let mut message = concat3("forwarding failed with HTTP ", code.as_str(), ": ");
        append_str(&mut message, body);
        DeliveryResult::Failed { retryable: is_retryable_status(status), status: Some(status), message }
    }
}

/// What happened when a draft entered the durable ingestion pipeline.
#[derive(Debug, Clone, Copy, PartialEq, Eq, Structural)]
pub enum IngestStatus {
    /// Saved but no backend is configured, so delivery happens later.
    Persisted,
    /// It had already reached the backend in a previous attempt.
    AlreadyForwarded,
    /// Saved and forwarded during this call.
    Forwarded,
    /// Forwarding failed; the outbox retains error and retry information.
    DeliveryFailed,
}

/// The step the pipeline takes after the article was saved.
#[derive(Debug, Clone, Copy, PartialEq, Eq, Structural)]
pub enum IngestStep {
    Finish(IngestStatus),
    Deliver,
}

/// After saving: an already-forwarded article is not sent again, and without
/// a configured backend the article stays persisted.
pub fn ingest_step(saved: DeliveryStatus, has_ingestion: bool) -> (r: IngestStep)
    ensures
        saved == DeliveryStatus::Forwarded ==> r == IngestStep::Finish(IngestStatus::AlreadyForwarded),
        saved != DeliveryStatus::Forwarded && !has_ingestion ==> r == IngestStep::Finish(
            IngestStatus::Persisted,
        ),
        saved != DeliveryStatus::Forwarded && has_ingestion ==> r == IngestStep::Deliver,
{
    if saved == DeliveryStatus::Forwarded {
        IngestStep::Finish(IngestStatus::AlreadyForwarded)
    } else if !has_ingestion {
        IngestStep::Finish(IngestStatus::Persisted)
    } else {
        IngestStep::Deliver
    }
}

/// The outbox change that records a delivery attempt.
#[derive(Debug, PartialEq, Eq)]
pub enum OutboxUpdate {
    MarkForwarded,
    MarkFailed { message: String, retryable: bool },
}

/// A delivered article is marked forwarded; a failed one is marked failed
/// with the error and whether it may be retried.
pub fn ingest_outcome(result: DeliveryResult) -> (r: (IngestStatus, OutboxUpdate))
    ensures
        result is Delivered ==> r.0 == IngestStatus::Forwarded && r.1 == OutboxUpdate::MarkForwarded,
        result matches DeliveryResult::Failed { retryable, message, .. } ==> r.0
            == IngestStatus::DeliveryFailed && r.1 == (OutboxUpdate::MarkFailed {
            message,
            retryable,
        }),
{
    match result {
        DeliveryResult::Delivered { .. } => (IngestStatus::Forwarded, OutboxUpdate::MarkForwarded),
        DeliveryResult::Failed { retryable, message, .. } => (
            IngestStatus::DeliveryFailed,
            OutboxUpdate::MarkFailed { message, retryable },
        ),
    }
}

// --- Ingestion API endpoints ---------------------------------------------------

/// The path of an endpoint below a base path: the base path without trailing
/// slashes, one slash, then the segment without leading slashes.
pub open spec fn joined_path(base_path: Seq<char>, segment: Seq<char>) -> Seq<char> {
    strip_trailing(base_path, '/') + "/"@ + strip_leading(segment, '/')
}

/// The URL an endpoint segment gets below a base URL: unlike `Url::join`,
/// the base's final path segment is kept.
pub open spec fn endpoint_of(base: Seq<char>, segment: Seq<char>) -> Option<Seq<char>> {
    match url_path_of(base) {
        Some(path) => url_with_path_of(base, joined_path(path, segment)),
        None => None,
    }
}

/// Appends a path segment to a base URL.
pub fn endpoint_url(base: &str, segment: &str) -> (r: Result<String, CrawlError>)
    ensures
        r is Ok <==> endpoint_of(base@, segment@) is Some,
        r matches Ok(u) ==> endpoint_of(base@, segment@) == Some(u@),
        r is Err ==> r->Err_0 is Url,
{
    let path = match url_path(base) {
        Some(p) => p,
        None => {
            return Err(CrawlError::Url(concat3("invalid base URL '", base, "'")));
        },
    };
    let mut joined = trim_end_matches(path.as_str(), '/');
    push_char(&mut joined, '/');
    let rest = trim_start_matches(segment, '/');
    append_str(&mut joined, rest.as_str());
    proof {
        reveal_strlit("/");
        assert(joined@ =~= joined_path(path@, segment@));
    }
    match url_set_path(base, joined.as_str()) {
        Some(u) => Ok(u),
        None => Err(CrawlError::Url(concat3("invalid base URL '", base, "'"))),
    }
}


// --- Forwarding one article ---------------------------------------------------

/// What the forwarder sends for one article: the ingestion URL and the
/// request headers, in order.
#[derive(Debug, PartialEq, Eq)]
pub struct IngestionRequest {
    pub url: String,
    pub headers: Vec<(String, String)>,
}

/// The request for an article, or the failure recorded when the configured
/// endpoint cannot take the ingestion path: that failure is not retryable,
/// has no status, and carries the URL error's text.
pub fn ingestion_request(endpoint: &str, token: &str, hash: &ArticleHash) -> (r: Result<
    IngestionRequest,
    DeliveryResult,
>)
    ensures
        r is Ok <==> endpoint_of(endpoint@, "ingest/articles"@) is Some,
        r matches Ok(req) ==> Some(req.url@) == endpoint_of(endpoint@, "ingest/articles"@)
            && req.headers@.len() == 2 && req.headers@[0].0@ == "Authorization"@
            && req.headers@[0].1@ == token@ && req.headers@[1].0@ == "Idempotency-Key"@
            && req.headers@[1].1@ == hash@,
        r matches Err(f) ==> f matches DeliveryResult::Failed { retryable, status, message }
            && !retryable && status is None && message@ == "URL error: invalid base URL '"@
            + endpoint@ + "'"@,
{
    match endpoint_url(endpoint, "ingest/articles") {
        Ok(url) => {
            let mut headers: Vec<(String, String)> = Vec::new();
            headers.push((owned("Authorization"), owned(token)));
            headers.push((owned("Idempotency-Key"), owned(hash.as_str())));
            Ok(IngestionRequest { url, headers })
        },
        Err(_) => {
            let message = concat3("URL error: invalid base URL '", endpoint, "'");
            Err(DeliveryResult::Failed { retryable: false, status: None, message })
        },
    }
}

/// A request that got no HTTP answer is retried later; it has no status and
/// keeps the transport error's text.
pub fn transport_failure(message: String) -> (r: DeliveryResult)
    ensures
        r == (DeliveryResult::Failed { retryable: true, status: None, message }),
{
    DeliveryResult::Failed { retryable: true, status: None, message }
}

/// Where run and agent signals are published: the `ingest/signals` endpoint
/// below the configured base, or nowhere when no base is configured or it
/// cannot take that path.
pub fn signals_endpoint(config: &IngestionApiConfig) -> (r: Option<String>)
    ensures
        r matches Some(u) ==> (config.endpoint matches Some(b) && endpoint_of(b@, "ingest/signals"@)
            == Some(u@)),
        r is None <==> (config.endpoint is None || endpoint_of(
            config.endpoint->Some_0@,
            "ingest/signals"@,
        ) is None),
{
    match &config.endpoint {
        Some(base) => match endpoint_url(base.as_str(), "ingest/signals") {
            Ok(u) => Some(u),
            Err(_) => None,
        },
        None => None,
    }
}

} // verus!
