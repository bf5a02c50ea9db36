//! Semantic checks on a crawler configuration, beyond its JSON schema.

use vstd::prelude::*;

use crate::config::{CrawlerConfig, SourceConfig};
use crate::config_schema::{config_issues, schema_failure, schema_failure_text};
use crate::error::{concat3, CrawlError};
use crate::text::{
    contains_seq, contains_str, contains_string, is_blank, lowercase, owned, str_eq, trim,
    trimmed, unicode_lowercase, views,
};

verus! {

pub open spec fn source_ids(sources: Seq<SourceConfig>) -> Seq<Seq<char>> {
    sources.map_values(|s: SourceConfig| s.spec_common().id@)
}

/// The first problem among a source's indexed categories: surrounding white
/// space, or a category equal to an earlier one once lower-cased.
pub open spec fn category_problem(cats: Seq<Seq<char>>, id: Seq<char>) -> Option<Seq<char>>
    decreases cats.len(),
{
    if cats.len() == 0 {
        None
    } else {
        match category_problem(cats.drop_last(), id) {
            Some(m) => Some(m),
            None => {
                let c = cats.last();
                if trim(c) != c {
                    Some(
                        "indexed category '"@ + c + "' for source '"@ + id
                            + "' has surrounding whitespace"@,
                    )
                } else if cats.drop_last().map_values(|x: Seq<char>| unicode_lowercase(x)).contains(
                    unicode_lowercase(c),
                ) {
                    Some("duplicate indexed category '"@ + c + "' for source '"@ + id + "'"@)
                } else {
                    None
                }
            },
        }
    }
}

/// The problem with one source given the identifiers configured before it.
pub open spec fn source_problem(earlier: Seq<Seq<char>>, source: SourceConfig) -> Option<Seq<char>> {
    let id = source.spec_common().id@;
    if earlier.contains(id) {
        Some("duplicate source id '"@ + id + "'"@)
    } else {
        match source {
            SourceConfig::Html(h) => {
                let uses = contains_seq(h.pagination_template@, "{category}"@);
                let cats = views(h.indexed_categories@);
                if uses && cats.len() == 0 {
                    Some(
                        "HTML source '"@ + id
                            + "' uses {category} but has no indexed_categories"@,
                    )
                } else if !uses && cats.len() > 0 {
                    Some(
                        "HTML source '"@ + id
                            + "' declares indexed_categories but its pagination_template has no {category}"@,
                    )
                } else {
                    category_problem(cats, id)
                }
            },
            SourceConfig::WordPress(_) => None,
        }
    }
}

/// The first problem among the sources, in order.
pub open spec fn sources_problem(sources: Seq<SourceConfig>) -> Option<Seq<char>>
    decreases sources.len(),
{
    if sources.len() == 0 {
        None
    } else {
        match sources_problem(sources.drop_last()) {
            Some(m) => Some(m),
            None => source_problem(source_ids(sources.drop_last()), sources.last()),
        }
    }
}

/// The first problem of a configuration, as its error message: its schema
/// issues all together, else the first semantic problem.
/// `backoff_ordered` says whether `http.backoff.max >= http.backoff.initial`,
/// compared as floating-point numbers.
pub open spec fn config_problem(config: CrawlerConfig, backoff_ordered: bool) -> Option<Seq<char>> {
    let q = config.queue.queues;
    if config_issues(config).len() > 0 {
        Some(schema_failure_text(config_issues(config)))
    } else if q.discovery@ == q.articles@ || q.discovery@ == q.delivery@ || q.articles@ == q.delivery@ {
        Some("discovery, article, and delivery queue names must be distinct"@)
    } else if config.ingestion.endpoint is Some && trim(config.ingestion.token@).len() == 0 {
        Some("ingestion.token is required when ingestion.endpoint is configured"@)
    } else if !backoff_ordered {
        Some("http.backoff.max must be greater than or equal to http.backoff.initial"@)
    } else {
        sources_problem(config.sources@)
    }
}

fn check_categories(cats: &Vec<String>, id: &str) -> (r: Result<(), CrawlError>)
    ensures
        r is Ok <==> category_problem(views(cats@), id@) is None,
        r matches Err(e) ==> e == CrawlError::Configuration(e->Configuration_0) && category_problem(
            views(cats@),
            id@,
        ) == Some(e->Configuration_0@),
{
    let mut seen: Vec<String> = Vec::new();
    let mut i: usize = 0;
    while i < cats.len()
        invariant
            i <= cats.len(),
            category_problem(views(cats@).take(i as int), id@) is None,
            views(seen@) == views(cats@).take(i as int).map_values(
                |x: Seq<char>| unicode_lowercase(x),
            ),
        decreases cats.len() - i,
    {
        let category = &cats[i];
        let ghost prefix = views(cats@).take(i + 1);
        assert(prefix.drop_last() =~= views(cats@).take(i as int));
        assert(prefix.last() == category@);
        let normalized = lowercase(category.as_str());
        let t = trimmed(category.as_str());
        if !str_eq(t.as_str(), category.as_str()) {
            let mut message = concat3("indexed category '", category.as_str(), "' for source '");
            crate::text::append_str(&mut message, id);
            crate::text::append_str(&mut message, "' has surrounding whitespace");
            assert(category_problem(prefix, id@) == Some(message@));
            proof {
                lemma_category_problem_prefix(views(cats@), id@, i + 1);
            }
            return Err(CrawlError::Configuration(message));
        }
        if contains_string(&seen, &normalized) {
            let mut message = concat3("duplicate indexed category '", category.as_str(), "' for source '");
            crate::text::append_str(&mut message, id);
            crate::text::append_str(&mut message, "'");
            assert(category_problem(prefix, id@) == Some(message@));
            proof {
                lemma_category_problem_prefix(views(cats@), id@, i + 1);
            }
            return Err(CrawlError::Configuration(message));
        }
        let ghost seen_before = seen@;
        let ghost key = normalized@;
        seen.push(normalized);
        assert(views(seen@) =~= views(seen_before).push(key));
        assert(views(seen@) =~= prefix.map_values(|x: Seq<char>| unicode_lowercase(x)));
        i = i + 1;
    }
    assert(views(cats@).take(cats.len() as int) =~= views(cats@));
    Ok(())
}

proof fn lemma_category_problem_prefix(cats: Seq<Seq<char>>, id: Seq<char>, k: int)
    requires
        0 <= k <= cats.len(),
        category_problem(cats.take(k), id) is Some,
    ensures
        category_problem(cats, id) == category_problem(cats.take(k), id),
    decreases cats.len() - k,
{
    if k < cats.len() {
        assert(cats.take(k + 1).drop_last() =~= cats.take(k));
        lemma_category_problem_prefix(cats, id, k + 1);
    } else {
        assert(cats.take(k) =~= cats);
    }
}

proof fn lemma_sources_problem_prefix(sources: Seq<SourceConfig>, k: int)
    requires
        0 <= k <= sources.len(),
        sources_problem(sources.take(k)) is Some,
    ensures
        sources_problem(sources) == sources_problem(sources.take(k)),
    decreases sources.len() - k,
{
    if k < sources.len() {
        assert(sources.take(k + 1).drop_last() =~= sources.take(k));
        lemma_sources_problem_prefix(sources, k + 1);
    } else {
        assert(sources.take(k) =~= sources);
    }
}

impl CrawlerConfig {
    /// Validates the configuration: first its schema (reporting every
    /// issue), then what a schema cannot express: distinct queue names, a
    /// token when an endpoint is set, ordered backoff bounds, unique source
    /// identifiers, and consistent indexed categories.
    pub fn validate(&self, backoff_ordered: bool) -> (r: Result<(), CrawlError>)
        ensures
            r is Ok <==> config_problem(*self, backoff_ordered) is None,
            r matches Err(e) ==> e == CrawlError::Configuration(e->Configuration_0)
                && config_problem(*self, backoff_ordered) == Some(e->Configuration_0@),
    {
        let issues = self.schema_issues();
        if issues.len() > 0 {
            return Err(CrawlError::Configuration(schema_failure(&issues)));
        }
        let q = &self.queue.queues;
        if str_eq(q.discovery.as_str(), q.articles.as_str()) || str_eq(
            q.discovery.as_str(),
            q.delivery.as_str(),
        ) || str_eq(q.articles.as_str(), q.delivery.as_str()) {
            return Err(
                CrawlError::Configuration(
                    owned("discovery, article, and delivery queue names must be distinct"),
                ),
            );
        }
        if self.ingestion.endpoint.is_some() && is_blank(self.ingestion.token.as_str()) {
            return Err(
                CrawlError::Configuration(
                    owned("ingestion.token is required when ingestion.endpoint is configured"),
                ),
            );
        }
        if !backoff_ordered {
            return Err(
                CrawlError::Configuration(
                    owned("http.backoff.max must be greater than or equal to http.backoff.initial"),
                ),
            );
        }
        let mut ids: Vec<String> = Vec::new();
        let mut i: usize = 0;
        while i < self.sources.len()
            invariant
                i <= self.sources.len(),
                config_problem(*self, backoff_ordered) == sources_problem(self.sources@),
                sources_problem(self.sources@.take(i as int)) is None,
                views(ids@) == source_ids(self.sources@.take(i as int)),
            decreases self.sources.len() - i,
        {
            let source = &self.sources[i];
            let ghost prefix = self.sources@.take(i + 1);
            assert(prefix.drop_last() =~= self.sources@.take(i as int));
            assert(prefix.last() == *source);
            let id = owned(source.id().as_str());
            if contains_string(&ids, &id) {
                let message = concat3("duplicate source id '", id.as_str(), "'");
                assert(sources_problem(prefix) == Some(message@));
                proof {
                    lemma_sources_problem_prefix(self.sources@, i + 1);
                }
                return Err(CrawlError::Configuration(message));
            }
            if let SourceConfig::Html(html) = source {
                let uses_category = contains_str(html.pagination_template.as_str(), "{category}");
                if uses_category && html.indexed_categories.len() == 0 {
                    let message = concat3(
                        "HTML source '",
                        id.as_str(),
                        "' uses {category} but has no indexed_categories",
                    );
                    assert(sources_problem(prefix) == Some(message@));
                    proof {
                        lemma_sources_problem_prefix(self.sources@, i + 1);
                    }
                    return Err(CrawlError::Configuration(message));
                }
                if !uses_category && html.indexed_categories.len() > 0 {
                    let message = concat3(
                        "HTML source '",
                        id.as_str(),
                        "' declares indexed_categories but its pagination_template has no {category}",
                    );
                    assert(sources_problem(prefix) == Some(message@));
                    proof {
                        lemma_sources_problem_prefix(self.sources@, i + 1);
                    }
                    return Err(CrawlError::Configuration(message));
                }
                match check_categories(&html.indexed_categories, id.as_str()) {
                    Ok(()) => {},
                    Err(e) => {
                        assert(sources_problem(prefix) is Some);
                        proof {
                            lemma_sources_problem_prefix(self.sources@, i + 1);
                        }
                        return Err(e);
                    },
                }
            }
            let ghost ids_before = ids@;
            let ghost idv = id@;
            ids.push(id);
            assert(views(ids@) =~= views(ids_before).push(idv));
            assert(views(ids@) =~= source_ids(prefix));
            i = i + 1;
        }
        assert(self.sources@.take(self.sources.len() as int) =~= self.sources@);
        Ok(())
    }
}

} // verus!
