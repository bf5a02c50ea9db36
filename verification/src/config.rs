//! Typed crawler configuration and the rules over it: path resolution,
//! source lookup and category canonicalization.
//!
//! Reading the JSON stays with the application; the schema is checked in
//! `config_schema`, the semantic rules in `config_check`, and environment
//! overrides are in `config_env`.

use vstd::prelude::*;

use crate::domain::{CrawlRequest, SourceId, UpdateDirection};
use crate::error::{concat3, CrawlError};
use crate::text::{
    after_last, after_last_char, append_str, chars_of, lowercase, owned, seq_eq,
    string_from_range, trim, trim_bounds,
    trimmed, unicode_lowercase, views,
};

verus! {

// --- Configuration types -------------------------------------------------------

#[derive(Debug, Clone, Default, PartialEq, Eq)]
pub struct IngestionApiConfig {
    pub endpoint: Option<String>,
    pub token: String,
}

/// Retry backoff. The three values are IEEE-754 double-precision numbers,
/// held here by their bit patterns (`f64::to_bits`).
#[derive(Debug, Clone, Copy, PartialEq, Eq, Structural)]
pub struct BackoffConfig {
    pub initial: u64,
    pub max: u64,
    pub multiplier: u64,
}

impl Default for BackoffConfig {
    /// 1.0 second initially, at most 30.0 seconds, doubling each attempt.
    fn default() -> (r: Self)
        ensures
            r.initial == 0x3ff0_0000_0000_0000u64 && r.max == 0x403e_0000_0000_0000u64
                && r.multiplier == 0x4000_0000_0000_0000u64,
    {
        BackoffConfig {
            initial: 0x3ff0_0000_0000_0000u64,
            max: 0x403e_0000_0000_0000u64,
            multiplier: 0x4000_0000_0000_0000u64,
        }
    }
}

#[derive(Debug, Clone, PartialEq, Eq)]
pub struct HttpClientConfig {
    pub backoff: BackoffConfig,
    pub follow_redirects: bool,
    pub max_retries: u32,
    pub respect_retry_after: bool,
    pub rotate: bool,
    pub timeout: u64,
    pub user_agent: String,
    pub verify_ssl: bool,
}

impl Default for HttpClientConfig {
    fn default() -> (r: Self)
        ensures
            r.follow_redirects && r.max_retries == 3 && r.respect_retry_after && r.rotate
                && r.timeout == 20 && r.verify_ssl,
            r.user_agent@ == "Basango/0.1 (+https://github.com/bernard-ng/basango)"@,
            r.backoff.initial == 0x3ff0_0000_0000_0000u64,
            r.backoff.max == 0x403e_0000_0000_0000u64,
            r.backoff.multiplier == 0x4000_0000_0000_0000u64,
    {
        HttpClientConfig {
            backoff: BackoffConfig::default(),
            follow_redirects: true,
            max_retries: 3,
            respect_retry_after: true,
            rotate: true,
            timeout: 20,
            user_agent: owned("Basango/0.1 (+https://github.com/bernard-ng/basango)"),
            verify_ssl: true,
        }
    }
}

impl HttpClientConfig {
    /// The request timeout in seconds.
    pub fn timeout(&self) -> (r: u64)
        ensures
            r == self.timeout,
    {
        self.timeout
    }
}

/// File-system locations, as path text.
#[derive(Debug, Clone, PartialEq, Eq)]
pub struct PathsConfig {
    pub root: String,
    pub data: String,
    pub sqlite: Option<String>,
}

impl Default for PathsConfig {
    fn default() -> (r: Self)
        ensures
            r.root@ == "."@ && r.data@.len() == 0 && r.sqlite is None,
    {
        PathsConfig { root: owned("."), data: String::new(), sqlite: None }
    }
}

/// std's `Path::join` with a relative name on a Unix path: the name, when the
/// base is empty; otherwise the base, a `/` unless the base ends with one, and
/// the name.
pub open spec fn join_path(base: Seq<char>, name: Seq<char>) -> Seq<char> {
    if base.len() == 0 {
        name
    } else if base.last() == '/' {
        base + name
    } else {
        base + "/"@ + name
    }
}

pub fn join_relative(base: &str, name: &str) -> (r: String)
    ensures
        r@ == join_path(base@, name@),
{
    let v = chars_of(base);
    let mut r = owned(base);
    if v.len() > 0 && v[v.len() - 1] != '/' {
        crate::text::push_char(&mut r, '/');
        proof {
            reveal_strlit("/");
            assert(r@ =~= base@ + "/"@);
        }
    }
    append_str(&mut r, name);
    r
}

impl PathsConfig {
    pub open spec fn spec_data_path(&self) -> Seq<char> {
        if self.data@.len() == 0 {
            join_path(self.root@, "data"@)
        } else {
            self.data@
        }
    }

    pub open spec fn spec_sqlite_path(&self) -> Seq<char> {
        match self.sqlite {
            Some(p) => p@,
            None => join_path(self.spec_data_path(), "crawler.db"@),
        }
    }

    /// The data directory: `data`, or `root/data` when it is empty.
    pub fn data_path(&self) -> (r: String)
        ensures
            r@ == self.spec_data_path(),
    {
        if self.data.as_str().is_empty() {
            join_relative(self.root.as_str(), "data")
        } else {
            owned(self.data.as_str())
        }
    }

    /// The SQLite file: `sqlite`, or `crawler.db` in the data directory.
    pub fn sqlite_path(&self) -> (r: String)
        ensures
            r@ == self.spec_sqlite_path(),
    {
        match &self.sqlite {
            Some(p) => owned(p.as_str()),
            None => {
                let data = self.data_path();
                join_relative(data.as_str(), "crawler.db")
            },
        }
    }
}

#[derive(Debug, Clone, PartialEq, Eq)]
pub struct QueueNames {
    pub discovery: String,
    pub articles: String,
    pub delivery: String,
}

impl Default for QueueNames {
    fn default() -> (r: Self)
        ensures
            r.discovery@ == "discovery"@ && r.articles@ == "articles"@ && r.delivery@
                == "delivery"@,
    {
        QueueNames {
            discovery: owned("discovery"),
            articles: owned("articles"),
            delivery: owned("delivery"),
        }
    }
}

/// How long finished jobs are kept, in seconds.
#[derive(Debug, Clone, Copy, PartialEq, Eq, Structural)]
pub struct JobRetention {
    pub completed: u64,
    pub failed: u64,
}

impl Default for JobRetention {
    fn default() -> (r: Self)
        ensures
            r.completed == 3_600 && r.failed == 86_400,
    {
        JobRetention { completed: 3_600, failed: 86_400 }
    }
}

#[derive(Debug, Clone, PartialEq, Eq)]
pub struct QueueConfig {
    pub prefix: String,
    pub queues: QueueNames,
    pub redis_url: String,
    pub retention: JobRetention,
}

impl Default for QueueConfig {
    fn default() -> (r: Self)
        ensures
            r.prefix@ == "basango:crawler"@ && r.redis_url@ == "redis://localhost:6379/0"@,
            r.queues.discovery@ == "discovery"@ && r.queues.articles@ == "articles"@
                && r.queues.delivery@ == "delivery"@,
            r.retention.completed == 3_600 && r.retention.failed == 86_400,
    {
        QueueConfig {
            prefix: owned("basango:crawler"),
            queues: QueueNames::default(),
            redis_url: owned("redis://localhost:6379/0"),
            retention: JobRetention::default(),
        }
    }
}

#[derive(Debug, Clone, PartialEq, Eq)]
pub struct CrawlerRuntimeConfig {
    pub direction: UpdateDirection,
    pub worker_concurrency: usize,
}

impl Default for CrawlerRuntimeConfig {
    fn default() -> (r: Self)
        ensures
            r.direction == UpdateDirection::Forward && r.worker_concurrency == 5,
    {
        CrawlerRuntimeConfig { direction: UpdateDirection::Forward, worker_concurrency: 5 }
    }
}

#[derive(Debug, PartialEq, Eq)]
pub struct CommonSourceConfig {
    pub date_format: String,
    pub id: SourceId,
    pub rate_limit: bool,
    pub url: String,
}

#[derive(Debug, PartialEq, Eq)]
pub struct HtmlSelectors {
    pub body: String,
    pub categories: Option<String>,
    pub date: String,
    pub link: String,
    pub list: String,
    pub title: String,
    pub pagination: String,
}

#[derive(Debug, PartialEq, Eq)]
pub struct HtmlSourceConfig {
    pub common: CommonSourceConfig,
    pub fetch_details: bool,
    pub indexed_categories: Vec<String>,
    pub pagination_template: String,
    pub selectors: HtmlSelectors,
}

#[derive(Debug, Clone, Copy, Default, PartialEq, Eq, Structural)]
pub enum MetadataStrategy {
    #[default]
    Auto,
    Yoast,
    Rest,
    Fetch,
    NoMetadata,
}

#[derive(Debug, PartialEq, Eq)]
pub struct WordPressSourceConfig {
    pub common: CommonSourceConfig,
    pub metadata_strategy: MetadataStrategy,
}

#[derive(Debug, PartialEq, Eq)]
pub enum SourceConfig {
    Html(Box<HtmlSourceConfig>),
    WordPress(WordPressSourceConfig),
}

/// The pagination selector used when a source names none.
pub fn default_pagination_selector() -> (r: String)
    ensures
        r@ == "ul.pagination > li a"@,
{
    owned("ul.pagination > li a")
}

/// The date format used when a source names none.
pub fn default_date_format() -> (r: String)
    ensures
        r@ == "yyyy-LL-dd HH:mm"@,
{
    owned("yyyy-LL-dd HH:mm")
}

impl SourceConfig {
    pub open spec fn spec_common(&self) -> &CommonSourceConfig {
        match self {
            SourceConfig::Html(source) => &source.common,
            SourceConfig::WordPress(source) => &source.common,
        }
    }

    pub fn common(&self) -> (r: &CommonSourceConfig)
        ensures
            r == self.spec_common(),
    {
        match self {
            SourceConfig::Html(source) => &source.common,
            SourceConfig::WordPress(source) => &source.common,
        }
    }

    pub fn id(&self) -> (r: &SourceId)
        ensures
            r == self.spec_common().id,
    {
        &self.common().id
    }

    pub fn url(&self) -> (r: &str)
        ensures
            r@ == self.spec_common().url@,
    {
        self.common().url.as_str()
    }

    /// The `kind` tag a source carries in configuration files.
    pub fn kind(&self) -> (r: &'static str)
        ensures
            self is Html ==> r@ == "html"@,
            self is WordPress ==> r@ == "wordpress"@,
    {
        match self {
            SourceConfig::Html(_) => "html",
            SourceConfig::WordPress(_) => "wordpress",
        }
    }
}

#[derive(Debug, PartialEq, Eq)]
pub struct CrawlerConfig {
    pub ingestion: IngestionApiConfig,
    pub http: HttpClientConfig,
    pub paths: PathsConfig,
    pub queue: QueueConfig,
    pub runtime: CrawlerRuntimeConfig,
    pub sources: Vec<SourceConfig>,
}

impl Default for CrawlerConfig {
    fn default() -> (r: Self)
        ensures
            r.sources@.len() == 0,
            r.ingestion.endpoint is None && r.ingestion.token@.len() == 0,
    {
        CrawlerConfig {
            ingestion: IngestionApiConfig { endpoint: None, token: String::new() },
            http: HttpClientConfig::default(),
            paths: PathsConfig::default(),
            queue: QueueConfig::default(),
            runtime: CrawlerRuntimeConfig::default(),
            sources: Vec::new(),
        }
    }
}

// --- Source lookup and categories ----------------------------------------------

/// Index of the first source with the given identifier.
pub open spec fn source_position(sources: Seq<SourceConfig>, id: Seq<char>) -> Option<int> {
    if exists|i: int| 0 <= i < sources.len() && sources[i].spec_common().id@ == id {
        Some(
            choose|i: int|
                0 <= i < sources.len() && sources[i].spec_common().id@ == id && forall|j: int|
                    0 <= j < i ==> sources[j].spec_common().id@ != id,
        )
    } else {
        None
    }
}

/// Requested text trimmed, with empty text read as no request.
pub open spec fn requested_text(requested: Option<Seq<char>>) -> Option<Seq<char>> {
    match requested {
        Some(r) => if trim(r).len() > 0 {
            Some(trim(r))
        } else {
            None
        },
        None => None,
    }
}

/// Categories joined with `", "`.
pub open spec fn join_comma(items: Seq<Seq<char>>) -> Seq<char>
    decreases items.len(),
{
    if items.len() == 0 {
        Seq::empty()
    } else if items.len() == 1 {
        items[0]
    } else {
        join_comma(items.drop_last()) + ", "@ + items.last()
    }
}

pub fn join_categories(items: &Vec<String>) -> (r: String)
    ensures
        r@ == join_comma(views(items@)),
{
    let mut r = String::new();
    let mut i: usize = 0;
    while i < items.len()
        invariant
            i <= items.len(),
            r@ == join_comma(views(items@).take(i as int)),
        decreases items.len() - i,
    {
        let ghost before = r@;
        if i > 0 {
            append_str(&mut r, ", ");
        }
        append_str(&mut r, items[i].as_str());
        proof {
            let t = views(items@).take(i + 1);
            assert(t.drop_last() =~= views(items@).take(i as int));
            if i == 0 {
                assert(before.len() == 0);
                assert(r@ =~= t[0]);
            }
        }
        i = i + 1;
    }
    assert(views(items@).take(items.len() as int) =~= views(items@));
    r
}

/// Index of the first category equal to `key` once both are lower-cased.
pub open spec fn category_match(categories: Seq<Seq<char>>, key: Seq<char>) -> Option<int> {
    if exists|i: int|
        0 <= i < categories.len() && unicode_lowercase(categories[i]) == unicode_lowercase(key) {
        Some(
            choose|i: int|
                0 <= i < categories.len() && unicode_lowercase(categories[i]) == unicode_lowercase(
                    key,
                ) && forall|j: int|
                    0 <= j < i ==> unicode_lowercase(categories[j]) != unicode_lowercase(key),
        )
    } else {
        None
    }
}

} // verus!

verus! {

// --- Edit distance -------------------------------------------------------------

pub open spec fn min_nat(a: nat, b: nat) -> nat {
    if a <= b {
        a
    } else {
        b
    }
}

/// Levenshtein distance between two character sequences.
pub open spec fn levenshtein(a: Seq<char>, b: Seq<char>) -> nat
    decreases a.len() + b.len(),
{
    if a.len() == 0 {
        b.len()
    } else if b.len() == 0 {
        a.len()
    } else {
        min_nat(
            min_nat(levenshtein(a.drop_last(), b) + 1, levenshtein(a, b.drop_last()) + 1),
            levenshtein(a.drop_last(), b.drop_last()) + (if a.last() == b.last() {
                0nat
            } else {
                1nat
            }),
        )
    }
}

/// The distance between two texts is at most the length of the longer one.
pub proof fn lemma_levenshtein_bound(a: Seq<char>, b: Seq<char>)
    ensures
        levenshtein(a, b) <= if a.len() >= b.len() {
            a.len()
        } else {
            b.len()
        },
    decreases a.len() + b.len(),
{
    if a.len() > 0 && b.len() > 0 {
        lemma_levenshtein_bound(a.drop_last(), b.drop_last());
    }
}

/// The distance does not depend on the order of the two texts.
pub proof fn lemma_levenshtein_symmetric(a: Seq<char>, b: Seq<char>)
    ensures
        levenshtein(a, b) == levenshtein(b, a),
    decreases a.len() + b.len(),
{
    if a.len() > 0 && b.len() > 0 {
        lemma_levenshtein_symmetric(a.drop_last(), b);
        lemma_levenshtein_symmetric(a, b.drop_last());
        lemma_levenshtein_symmetric(a.drop_last(), b.drop_last());
    }
}

/// The distance is zero exactly when the two texts are equal.
pub proof fn lemma_levenshtein_zero_iff_equal(a: Seq<char>, b: Seq<char>)
    ensures
        levenshtein(a, b) == 0 <==> a == b,
    decreases a.len() + b.len(),
{
    if a.len() > 0 && b.len() > 0 {
        lemma_levenshtein_zero_iff_equal(a.drop_last(), b.drop_last());
        if levenshtein(a, b) == 0 {
            assert(a.last() == b.last());
            assert(a.drop_last() == b.drop_last());
            assert(a =~= a.drop_last().push(a.last()));
            assert(b =~= b.drop_last().push(b.last()));
        }
        if a == b {
            assert(a.drop_last() == b.drop_last());
        }
    } else if a.len() == 0 {
        if b.len() == 0 {
            assert(a =~= b);
        }
    } else {
        assert(a != b) by {
            assert(a.len() != b.len());
        }
    }
}

/// `x + y`, saturating at `usize::MAX`.
fn add_capped(x: usize, y: usize) -> (r: usize)
    ensures
        r == if x + y <= usize::MAX {
            (x + y) as int
        } else {
            usize::MAX as int
        },
{
    x.saturating_add(y)
}

/// Levenshtein distance over characters, computed row by row.
pub fn edit_distance(left: &str, right: &str) -> (r: usize)
    ensures
        r == levenshtein(left@, right@),
{
    let a = chars_of(left);
    let b = chars_of(right);
    let m = b.len();
    let mut previous: Vec<usize> = Vec::new();
    let mut current: Vec<usize> = Vec::new();
    let mut j: usize = 0;
    while j < m
        invariant
            j <= m,
            m == b.len(),
            previous@.len() == j,
            current@.len() == j,
            forall|k: int| 0 <= k < j ==> previous@[k] == levenshtein(a@.take(0), b@.take(k)),
        decreases m - j,
    {
        previous.push(j);
        current.push(0);
        j = j + 1;
    }
    previous.push(m);
    current.push(0);
    assert(previous@[m as int] == levenshtein(a@.take(0), b@.take(m as int)));
    let mut i: usize = 0;
    while i < a.len()
        invariant
            i <= a.len(),
            m == b.len(),
            previous@.len() == m + 1,
            current@.len() == m + 1,
            forall|k: int| 0 <= k <= m ==> previous@[k] == levenshtein(a@.take(i as int), b@.take(k)),
        decreases a.len() - i,
    {
        let ghost ai = a@.take(i as int);
        let ghost ai1 = a@.take(i + 1);
        assert(ai1.drop_last() =~= ai);
        current.set(0, i + 1);
        assert(b@.take(0).len() == 0);
        let mut jj: usize = 0;
        while jj < m
            invariant
                i < a.len(),
                jj <= m,
                m == b.len(),
                ai == a@.take(i as int),
                ai1 == a@.take(i + 1),
                ai1.drop_last() == ai,
                previous@.len() == m + 1,
                current@.len() == m + 1,
                forall|k: int| 0 <= k <= m ==> previous@[k] == levenshtein(ai, b@.take(k)),
                forall|k: int| 0 <= k <= jj ==> current@[k] == levenshtein(ai1, b@.take(k)),
            decreases m - jj,
        {
            let ghost bj = b@.take(jj as int);
            let ghost bj1 = b@.take(jj + 1);
            assert(bj1.drop_last() =~= bj);
            proof {
                lemma_levenshtein_bound(ai1, bj1);
            }
            let substitution: usize = if a[i] != b[jj] {
                1
            } else {
                0
            };
            let deletion = add_capped(previous[jj + 1], 1);
            let insertion = add_capped(current[jj], 1);
            let replacement = add_capped(previous[jj], substitution);
            let mut best = if deletion <= insertion {
                deletion
            } else {
                insertion
            };
            if replacement < best {
                best = replacement;
            }
            current.set(jj + 1, best);
            jj = jj + 1;
        }
        std::mem::swap(&mut previous, &mut current);
        i = i + 1;
    }
    assert(a@.take(a.len() as int) =~= a@);
    assert(b@.take(m as int) =~= b@);
    previous[m]
}

// --- Closest category ----------------------------------------------------------

/// The distance of a category from a lower-cased request: the smaller of the
/// distances to the whole category and to its last `/`-separated part, both
/// lower-cased.
pub open spec fn category_distance(requested_lower: Seq<char>, category: Seq<char>) -> nat {
    let lower = unicode_lowercase(category);
    let leaf = after_last(lower, '/');
    min_nat(levenshtein(requested_lower, lower), levenshtein(requested_lower, leaf))
}

pub open spec fn category_leaf_len(category: Seq<char>) -> nat {
    after_last(unicode_lowercase(category), '/').len()
}

/// Index of the first smallest value.
pub open spec fn first_min(ds: Seq<nat>) -> int
    decreases ds.len(),
{
    if ds.len() <= 1 {
        0
    } else {
        let k = first_min(ds.drop_last());
        if ds.last() < ds[k] {
            ds.len() - 1
        } else {
            k
        }
    }
}

proof fn lemma_first_min_range(ds: Seq<nat>)
    requires
        ds.len() > 0,
    ensures
        0 <= first_min(ds) < ds.len(),
    decreases ds.len(),
{
    if ds.len() > 1 {
        lemma_first_min_range(ds.drop_last());
    }
}

/// The category closest to the request, when close enough: distance at most
/// `max(2, leaf length / 3)`.
pub open spec fn closest_of(requested: Seq<char>, categories: Seq<Seq<char>>) -> Option<int> {
    if categories.len() == 0 {
        None
    } else {
        let ds = categories.map_values(
            |c: Seq<char>| category_distance(unicode_lowercase(requested), c),
        );
        let k = first_min(ds);
        let limit = if 2 >= category_leaf_len(categories[k]) / 3 {
            2
        } else {
            category_leaf_len(categories[k]) / 3
        };
        if ds[k] <= limit {
            Some(k)
        } else {
            None
        }
    }
}

/// Finds the configured category most likely meant by a mistyped request.
pub fn closest_category(requested: &str, categories: &Vec<String>) -> (r: Option<usize>)
    ensures
        r matches Some(k) ==> k < categories.len() && closest_of(requested@, views(categories@))
            == Some(k as int),
        r is None ==> closest_of(requested@, views(categories@)) is None,
{
    if categories.len() == 0 {
        return None;
    }
    let requested_lower = lowercase(requested);
    let ghost ds = views(categories@).map_values(
        |c: Seq<char>| category_distance(unicode_lowercase(requested@), c),
    );
    let mut best: usize = 0;
    let mut best_distance: usize = 0;
    let mut best_len: usize = 0;
    let mut i: usize = 0;
    while i < categories.len()
        invariant
            0 < categories.len(),
            i <= categories.len(),
            requested_lower@ == unicode_lowercase(requested@),
            ds == views(categories@).map_values(
                |c: Seq<char>| category_distance(unicode_lowercase(requested@), c),
            ),
            i > 0 ==> best == first_min(ds.take(i as int)),
            i > 0 ==> best < i,
            i > 0 ==> best_distance == ds[best as int],
            i > 0 ==> best_len == category_leaf_len(views(categories@)[best as int]),
        decreases categories.len() - i,
    {
        let lower = lowercase(categories[i].as_str());
        let leaf = after_last_char(lower.as_str(), '/');
        let whole = edit_distance(requested_lower.as_str(), lower.as_str());
        let part = edit_distance(requested_lower.as_str(), leaf.as_str());
        let distance = if whole <= part {
            whole
        } else {
            part
        };
        let leaf_len = leaf.as_str().unicode_len();
        assert(distance == ds[i as int]);
        proof {
            let t = ds.take(i + 1);
            assert(t.drop_last() =~= ds.take(i as int));
        }
        if i == 0 || distance < best_distance {
            best = i;
            best_distance = distance;
            best_len = leaf_len;
        }
        i = i + 1;
    }
    assert(ds.take(categories.len() as int) =~= ds);
    let limit = if 2 >= best_len / 3 {
        2
    } else {
        best_len / 3
    };
    if best_distance <= limit {
        Some(best)
    } else {
        None
    }
}

} // verus!

verus! {

// --- Canonical categories --------------------------------------------------------

/// The suggestion appended to an unknown-category error.
pub open spec fn suggestion_text(requested: Seq<char>, categories: Seq<Seq<char>>) -> Seq<char> {
    match closest_of(requested, categories) {
        Some(k) => " Did you mean '"@ + categories[k] + "'?"@,
        None => Seq::empty(),
    }
}

/// The category a request resolves to for a source, or the error message.
/// HTML sources with indexed categories require one of them (compared
/// case-insensitively, answered in its configured spelling); other sources
/// take the trimmed request as it is.
pub open spec fn canonical_of(source: SourceConfig, requested: Option<Seq<char>>) -> Result<
    Option<Seq<char>>,
    Seq<char>,
> {
    match source {
        SourceConfig::Html(h) => {
            let cats = views(h.indexed_categories@);
            if cats.len() == 0 {
                Ok(requested_text(requested))
            } else {
                let valid = join_comma(cats);
                let id = h.common.id@;
                match requested_text(requested) {
                    None => Err(
                        "source '"@ + id + "' requires --category; valid categories: "@ + valid,
                    ),
                    Some(req) => match category_match(cats, req) {
                        Some(i) => Ok(Some(cats[i])),
                        None => Err(
                            "category '"@ + req + "' is not indexed for source '"@ + id + "'."@
                                + suggestion_text(req, cats) + " Valid categories: "@ + valid,
                        ),
                    },
                }
            }
        },
        SourceConfig::WordPress(_) => Ok(requested_text(requested)),
    }
}

/// Some category matches, so a first matching one exists.
proof fn lemma_first_match_exists(categories: Seq<Seq<char>>, key: Seq<char>, i: int)
    requires
        0 <= i < categories.len(),
        unicode_lowercase(categories[i]) == unicode_lowercase(key),
    ensures
        exists|k: int|
            0 <= k < categories.len() && unicode_lowercase(categories[k]) == unicode_lowercase(key)
                && forall|j: int| 0 <= j < k ==> unicode_lowercase(categories[j]) != unicode_lowercase(key),
    decreases i,
{
    if exists|j: int| 0 <= j < i && unicode_lowercase(categories[j]) == unicode_lowercase(key) {
        let j = choose|j: int| 0 <= j < i && unicode_lowercase(categories[j]) == unicode_lowercase(key);
        lemma_first_match_exists(categories, key, j);
    } else {
        assert(forall|j: int| 0 <= j < i ==> unicode_lowercase(categories[j]) != unicode_lowercase(key));
    }
}

/// A request naming an indexed category of an HTML source, in any case and
/// with surrounding white space, resolves to that category as configured:
/// the first indexed category equal to the trimmed request once both are
/// lower-cased, never the request's own spelling.
pub proof fn lemma_indexed_category_in_configured_spelling(
    source: HtmlSourceConfig,
    requested: Seq<char>,
    i: int,
)
    requires
        0 <= i < source.indexed_categories@.len(),
        trim(requested).len() > 0,
        unicode_lowercase(source.indexed_categories@[i]@) == unicode_lowercase(trim(requested)),
    ensures
        canonical_of(SourceConfig::Html(Box::new(source)), Some(requested)) matches Ok(Some(c)) && exists|k: int|
            0 <= k <= i && c == source.indexed_categories@[k]@ && unicode_lowercase(c)
                == unicode_lowercase(trim(requested)) && forall|j: int|
                0 <= j < k ==> unicode_lowercase(source.indexed_categories@[j]@) != unicode_lowercase(
                    trim(requested),
                ),
{
    let cats = views(source.indexed_categories@);
    let key = trim(requested);
    assert(cats[i] == source.indexed_categories@[i]@);
    lemma_first_match_exists(cats, key, i);
    let k = choose|k: int|
        0 <= k < cats.len() && unicode_lowercase(cats[k]) == unicode_lowercase(key) && forall|j: int|
            0 <= j < k ==> unicode_lowercase(cats[j]) != unicode_lowercase(key);
    assert(category_match(cats, key) == Some(k));
    assert(k <= i) by {
        if k > i {
            assert(unicode_lowercase(cats[i]) != unicode_lowercase(key));
        }
    }
    assert forall|j: int| 0 <= j < k implies unicode_lowercase(source.indexed_categories@[j]@)
        != unicode_lowercase(key) by {
        assert(cats[j] == source.indexed_categories@[j]@);
    }
}

/// The trimmed request, `None` when absent or blank.
fn requested_category(requested: Option<&str>) -> (r: Option<String>)
    ensures
        r matches Some(s) ==> requested_text(Some(requested->0@)) == Some(s@) && requested is Some,
        r is None ==> requested is None || requested_text(Some(requested->0@)) is None,
{
    match requested {
        Some(text) => {
            let t = trimmed(text);
            if t.as_str().is_empty() {
                None
            } else {
                Some(t)
            }
        },
        None => None,
    }
}

/// Index of the first category equal to the request once lower-cased.
fn find_category(categories: &Vec<String>, requested: &str) -> (r: Option<usize>)
    ensures
        r matches Some(i) ==> i < categories.len() && category_match(views(categories@), requested@)
            == Some(i as int),
        r is None ==> category_match(views(categories@), requested@) is None,
{
    let key = lowercase(requested);
    let key_chars = chars_of(key.as_str());
    let mut i: usize = 0;
    while i < categories.len()
        invariant
            i <= categories.len(),
            key@ == unicode_lowercase(requested@),
            key_chars@ == key@,
            forall|j: int|
                0 <= j < i ==> unicode_lowercase(views(categories@)[j]) != unicode_lowercase(
                    requested@,
                ),
        decreases categories.len() - i,
    {
        let lower = lowercase(categories[i].as_str());
        let lower_chars = chars_of(lower.as_str());
        if seq_eq(&lower_chars, &key_chars) {
            proof {
                let cats = views(categories@);
                assert(unicode_lowercase(cats[i as int]) == unicode_lowercase(requested@));
                let c = choose|c: int|
                    0 <= c < cats.len() && unicode_lowercase(cats[c]) == unicode_lowercase(
                        requested@,
                    ) && forall|j: int|
                        0 <= j < c ==> unicode_lowercase(cats[j]) != unicode_lowercase(requested@);
                assert(c == i) by {
                    if c < i {
                    } else if c > i {
                        assert(unicode_lowercase(cats[i as int]) != unicode_lowercase(requested@));
                    }
                }
            }
            return Some(i);
        }
        i = i + 1;
    }
    None
}

impl SourceConfig {
    /// Resolves the category a crawl of this source uses.
    pub fn canonical_category(&self, requested: Option<&str>) -> (r: Result<
        Option<String>,
        CrawlError,
    >)
        ensures
            ({
                let expected = canonical_of(
                    *self,
                    match requested {
                        Some(t) => Some(t@),
                        None => None,
                    },
                );
                &&& r is Ok <==> expected is Ok
                &&& r matches Ok(c) ==> (c matches Some(s) ==> expected == Ok::<
                    Option<Seq<char>>,
                    Seq<char>,
                >(Some(s@))) && (c is None ==> expected == Ok::<Option<Seq<char>>, Seq<char>>(
                    None,
                ))
                &&& r matches Err(e) ==> e == CrawlError::Configuration(e->Configuration_0)
                    && expected == Err::<Option<Seq<char>>, Seq<char>>(e->Configuration_0@)
            }),
    {
        let ghost req = match requested {
            Some(t) => Some(t@),
            None => None::<Seq<char>>,
        };
        let wanted = requested_category(requested);
        let source = match self {
            SourceConfig::Html(source) => source,
            SourceConfig::WordPress(_) => {
                return Ok(wanted);
            },
        };
        if source.indexed_categories.len() == 0 {
            return Ok(wanted);
        }
        let valid = join_categories(&source.indexed_categories);
        let wanted = match wanted {
            Some(w) => w,
            None => {
                let mut message = concat3(
                    "source '",
                    source.common.id.as_str(),
                    "' requires --category; valid categories: ",
                );
                append_str(&mut message, valid.as_str());
                return Err(CrawlError::Configuration(message));
            },
        };
        if let Some(i) = find_category(&source.indexed_categories, wanted.as_str()) {
            return Ok(Some(owned(source.indexed_categories[i].as_str())));
        }
        let mut message = concat3("category '", wanted.as_str(), "' is not indexed for source '");
        append_str(&mut message, source.common.id.as_str());
        append_str(&mut message, "'.");
        proof {
            assert(wanted@ == trim(requested->0@));
        }
        match closest_category(wanted.as_str(), &source.indexed_categories) {
            Some(k) => {
                let hint = concat3(" Did you mean '", source.indexed_categories[k].as_str(), "'?");
                append_str(&mut message, hint.as_str());
            },
            None => {
                proof {
                    assert(message@ + Seq::<char>::empty() =~= message@);
                }
            },
        }
        append_str(&mut message, " Valid categories: ");
        append_str(&mut message, valid.as_str());
        assert(message@ =~= "category '"@ + wanted@ + "' is not indexed for source '"@
            + source.common.id@ + "'."@ + suggestion_text(
            wanted@,
            views(source.indexed_categories@),
        ) + " Valid categories: "@ + valid@);
        Err(CrawlError::Configuration(message))
    }
}

impl CrawlerConfig {
    /// The configured source with this identifier.
    pub fn source(&self, source_id: &SourceId) -> (r: Result<&SourceConfig, CrawlError>)
        ensures
            r is Ok <==> source_position(self.sources@, source_id@) is Some,
            r matches Ok(s) ==> *s == self.sources@[source_position(
                self.sources@,
                source_id@,
            )->0],
            r matches Err(e) ==> e == CrawlError::SourceNotFound(e->SourceNotFound_0)
                && e->SourceNotFound_0@ == source_id@,
    {
        let wanted = chars_of(source_id.as_str());
        let mut i: usize = 0;
        while i < self.sources.len()
            invariant
                i <= self.sources.len(),
                wanted@ == source_id@,
                forall|j: int| 0 <= j < i ==> self.sources@[j].spec_common().id@ != source_id@,
            decreases self.sources.len() - i,
        {
            let id = chars_of(self.sources[i].id().as_str());
            if seq_eq(&id, &wanted) {
                proof {
                    let s = self.sources@;
                    let c = choose|c: int|
                        0 <= c < s.len() && s[c].spec_common().id@ == source_id@ && forall|j: int|
                            0 <= j < c ==> s[j].spec_common().id@ != source_id@;
                    assert(c == i) by {
                        if c > i {
                            assert(s[i as int].spec_common().id@ == source_id@);
                        }
                    }
                }
                return Ok(&self.sources[i]);
            }
            i = i + 1;
        }
        Err(CrawlError::SourceNotFound(owned(source_id.as_str())))
    }

    /// Resolves the request's category against its source.
    pub fn prepare_request(&self, request: &mut CrawlRequest) -> (r: Result<(), CrawlError>)
        ensures
            final(request).source_id == old(request).source_id,
            final(request).page_range == old(request).page_range,
            final(request).date_range == old(request).date_range,
            final(request).direction == old(request).direction,
            source_position(self.sources@, old(request).source_id@) is None ==> r is Err
                && final(request).category == old(request).category,
            source_position(self.sources@, old(request).source_id@) matches Some(k) ==> {
                let expected = canonical_of(
                    self.sources@[k],
                    match old(request).category {
                        Some(c) => Some(c@),
                        None => None,
                    },
                );
                &&& r is Ok <==> expected is Ok
                &&& r is Ok ==> (match final(request).category {
                    Some(c) => expected == Ok::<Option<Seq<char>>, Seq<char>>(Some(c@)),
                    None => expected == Ok::<Option<Seq<char>>, Seq<char>>(None),
                })
                &&& r is Err ==> final(request).category == old(request).category
            },
    {
        let source = self.source(&request.source_id)?;
        let category = match &request.category {
            Some(c) => source.canonical_category(Some(c.as_str())),
            None => source.canonical_category(None),
        };
        request.category = category?;
        Ok(())
    }
}

} // verus!
