//! The decisions of the crawl, schedule and delivery commands: the
//! publication range a crawl starts from, the tallies of a crawl or a
//! delivery pass and the run metrics they report, and the registration of
//! configured sources.

use vstd::prelude::*;

use crate::articles::{endpoint_of, endpoint_url, DeliveryResult, IngestStatus, OutboxUpdate};
use crate::config::{SourceConfig, CommonSourceConfig};
use crate::domain::{DateRange, UpdateDirection};
use crate::error::{concat3, CrawlError};
use crate::progress::RunMetrics;
use crate::text::{chars_of, owned, opt_view, views};

verus! {

// --- Publication range ---------------------------------------------------------------

/// The earliest and latest publication instants the ingestion API holds
/// for a source, in nanoseconds since the Unix epoch.
#[derive(Debug, Clone, Copy, PartialEq, Eq, Structural)]
pub struct PublicationBounds {
    pub earliest: Option<i128>,
    pub latest: Option<i128>,
}

/// Forward crawls start at the latest stored article (else the earliest)
/// and end now; backward crawls end at the earliest stored article and
/// start at the Unix epoch. Without stored bounds there is no range.
pub open spec fn automatic_range_of(direction: UpdateDirection, bounds: PublicationBounds, now: int) -> Option<
    (int, int),
> {
    match direction {
        UpdateDirection::Forward => match bounds.latest {
            Some(start) => Some((start as int, now)),
            None => match bounds.earliest {
                Some(start) => Some((start as int, now)),
                None => None,
            },
        },
        UpdateDirection::Backward => match bounds.earliest {
            Some(end) => Some((0, end as int)),
            None => None,
        },
    }
}

pub fn automatic_date_range(direction: UpdateDirection, bounds: &PublicationBounds, now: i128) -> (r: Result<
    Option<DateRange>,
    CrawlError,
>)
    ensures
        automatic_range_of(direction, *bounds, now as int) is None ==> r == Ok::<Option<DateRange>, CrawlError>(None),
        automatic_range_of(direction, *bounds, now as int) matches Some(p) ==> (p.0 <= p.1 <==> r is Ok)
            && (r matches Ok(Some(d)) ==> d.start == p.0 && d.end == p.1)
            && (r matches Ok(o) ==> o is Some)
            && (r matches Err(e) ==> e is InvalidRange && e->InvalidRange_0@
                == "end date must be on or after start date"@),
{
    match direction {
        UpdateDirection::Forward => {
            let start = match bounds.latest {
                Some(s) => s,
                None => match bounds.earliest {
                    Some(s) => s,
                    None => {
                        return Ok(None);
                    },
                },
            };
            match DateRange::new(start, now) {
                Ok(d) => Ok(Some(d)),
                Err(e) => Err(e),
            }
        },
        UpdateDirection::Backward => match bounds.earliest {
            Some(end) => match DateRange::new(0, end) {
                Ok(d) => Ok(Some(d)),
                Err(e) => Err(e),
            },
            None => Ok(None),
        },
    }
}

/// Where a crawl's publication range comes from.
#[derive(Debug, PartialEq, Eq)]
pub enum RangeLookup {
    /// The request names a range.
    Requested,
    /// No ingestion API, or no usable endpoint: crawl without a range.
    Unfiltered,
    /// Ask the ingestion API at this URL.
    Ask(String),
}

pub fn range_lookup(requested: Option<DateRange>, ingestion_endpoint: Option<&str>) -> (r: RangeLookup)
    ensures
        requested is Some ==> r == RangeLookup::Requested,
        requested is None && ingestion_endpoint is None ==> r == RangeLookup::Unfiltered,
        requested is None && ingestion_endpoint is Some ==> (match endpoint_of(
            ingestion_endpoint->Some_0@,
            "ingest/sources/publication-bounds"@,
        ) {
            Some(u) => r matches RangeLookup::Ask(a) && a@ == u,
            None => r == RangeLookup::Unfiltered,
        }),
{
    if requested.is_some() {
        return RangeLookup::Requested;
    }
    match ingestion_endpoint {
        None => RangeLookup::Unfiltered,
        Some(base) => match endpoint_url(base, "ingest/sources/publication-bounds") {
            Ok(u) => RangeLookup::Ask(u),
            Err(_) => RangeLookup::Unfiltered,
        },
    }
}

/// The range a crawl uses after asking the ingestion API: the request's
/// direction (else the configured one) applied to the bounds; no range when
/// the lookup failed or the bounds give none or an invalid one.
pub fn resolved_range(
    requested_direction: Option<UpdateDirection>,
    configured_direction: UpdateDirection,
    bounds: Option<PublicationBounds>,
    now: i128,
) -> (r: Option<DateRange>)
    ensures
        bounds is None ==> r is None,
        bounds matches Some(b) ==> ({
            let direction = match requested_direction {
                Some(d) => d,
                None => configured_direction,
            };
            match automatic_range_of(direction, b, now as int) {
                Some(p) => if p.0 <= p.1 {
                    r matches Some(d) && d.start == p.0 && d.end == p.1
                } else {
                    r is None
                },
                None => r is None,
            }
        }),
{
    let b = match bounds {
        Some(b) => b,
        None => {
            return None;
        },
    };
    let direction = match requested_direction {
        Some(d) => d,
        None => configured_direction,
    };
    match automatic_date_range(direction, &b, now) {
        Ok(range) => range,
        Err(_) => None,
    }
}

// --- Crawl and delivery tallies ------------------------------------------------------

/// What a crawl or a delivery pass did.
#[derive(Debug, Clone, Default, PartialEq, Eq, Structural)]
pub struct CrawlReport {
    pub collected: usize,
    pub stored: usize,
    pub delivered: usize,
    pub failed: usize,
}

/// The tallies of a direct crawl stay consistent: nothing is stored that
/// was not collected, delivered that was not stored, or counted both
/// delivered and failed.
pub open spec fn crawl_report_consistent(r: CrawlReport) -> bool {
    &&& r.stored <= r.collected
    &&& r.delivered <= r.stored
    &&& r.delivered + r.failed <= r.collected
}

impl CrawlReport {
    pub fn new() -> (r: CrawlReport)
        ensures
            r == (CrawlReport { collected: 0, stored: 0, delivered: 0, failed: 0 }),
            crawl_report_consistent(r),
    {
        CrawlReport { collected: 0, stored: 0, delivered: 0, failed: 0 }
    }

    /// Counts a collected draft and what ingesting it did (`None` when
    /// ingesting it failed).
    pub fn record_ingest(&mut self, outcome: Option<IngestStatus>)
        requires
            crawl_report_consistent(*old(self)),
            old(self).collected < usize::MAX,
        ensures
            final(self).collected == old(self).collected + 1,
            final(self).stored == old(self).stored + (if outcome is Some {
                1int
            } else {
                0int
            }),
            final(self).delivered == old(self).delivered + (if outcome == Some(IngestStatus::Forwarded)
                || outcome == Some(IngestStatus::AlreadyForwarded) {
                1int
            } else {
                0int
            }),
            final(self).failed == old(self).failed + (if outcome is None || outcome == Some(
                IngestStatus::DeliveryFailed,
            ) {
                1int
            } else {
                0int
            }),
            crawl_report_consistent(*final(self)),
    {
        self.collected = self.collected + 1;
        match outcome {
            Some(status) => {
                self.stored = self.stored + 1;
                match status {
                    IngestStatus::Forwarded | IngestStatus::AlreadyForwarded => {
                        self.delivered = self.delivered + 1;
                    },
                    IngestStatus::DeliveryFailed => {
                        self.failed = self.failed + 1;
                    },
                    IngestStatus::Persisted => {},
                }
            },
            None => {
                self.failed = self.failed + 1;
            },
        }
    }

    /// A delivery pass starts with the claimed articles counted as
    /// collected and stored.
    pub fn claimed(count: usize) -> (r: CrawlReport)
        ensures
            r == (CrawlReport { collected: count, stored: count, delivered: 0, failed: 0 }),
    {
        CrawlReport { collected: count, stored: count, delivered: 0, failed: 0 }
    }

    /// Counts one delivery attempt of a delivery pass, and gives the outbox
    /// change that records it.
    pub fn record_delivery(&mut self, result: DeliveryResult) -> (u: OutboxUpdate)
        requires
            old(self).delivered + old(self).failed < old(self).stored,
        ensures
            result is Delivered ==> final(self).delivered == old(self).delivered + 1
                && final(self).failed == old(self).failed && u == OutboxUpdate::MarkForwarded,
            result matches DeliveryResult::Failed { retryable, message, .. } ==> final(self).failed
                == old(self).failed + 1 && final(self).delivered == old(self).delivered && u == (OutboxUpdate::MarkFailed {
                message,
                retryable,
            }),
            final(self).collected == old(self).collected && final(self).stored == old(self).stored,
    {
        match result {
            DeliveryResult::Delivered { .. } => {
                self.delivered = self.delivered + 1;
                OutboxUpdate::MarkForwarded
            },
            DeliveryResult::Failed { retryable, message, .. } => {
                self.failed = self.failed + 1;
                OutboxUpdate::MarkFailed { message, retryable }
            },
        }
    }

    /// The run metrics a crawl reports: each collected draft was discovered
    /// and processed.
    pub fn metrics(&self) -> (m: RunMetrics)
        ensures
            m == (RunMetrics {
                articles_discovered: self.collected,
                articles_processed: self.collected,
                articles_persisted: self.stored,
                articles_skipped: 0,
                articles_delivered: self.delivered,
                articles_failed: self.failed,
            }),
    {
        RunMetrics {
            articles_discovered: self.collected,
            articles_processed: self.collected,
            articles_persisted: self.stored,
            articles_skipped: 0,
            articles_delivered: self.delivered,
            articles_failed: self.failed,
        }
    }
}

/// What a delivery pass ends with when some articles could not be
/// delivered.
pub fn delivery_failure_message(report: &CrawlReport) -> (r: Option<String>)
    ensures
        report.failed == 0 ==> r is None,
        report.failed > 0 ==> (r matches Some(m) && m@ == "failed to deliver "@ + crate::text::decimal_text(
            report.failed as nat,
        ) + " article(s)"@),
{
    if report.failed == 0 {
        return None;
    }
    let n = crate::text::decimal_string(report.failed as u64);
    Some(concat3("failed to deliver ", n.as_str(), " article(s)"))
}

/// The error a delivery pass stops with when no outbox exists.
pub fn missing_outbox_error(path: &str) -> (e: CrawlError)
    ensures
        e is Configuration && e->Configuration_0@ == "SQLite outbox does not exist: "@ + path@,
{
    let mut m = owned("SQLite outbox does not exist: ");
    crate::text::append_str(&mut m, path);
    CrawlError::Configuration(m)
}

/// The error a delivery pass stops with when no ingestion API is set.
pub fn missing_ingestion_error() -> (e: CrawlError)
    ensures
        e is Configuration && e->Configuration_0@
            == "delivery requires BASANGO_API_CRAWLER_ENDPOINT or ingestion.endpoint"@,
{
    CrawlError::Configuration(owned("delivery requires BASANGO_API_CRAWLER_ENDPOINT or ingestion.endpoint"))
}

/// What arrives while a direct crawl waits.
#[derive(Debug, Clone, Copy, PartialEq, Eq, Structural)]
pub enum CrawlEvent {
    /// A draft (or a collection error) arrived.
    Draft,
    /// The source has nothing more.
    Exhausted,
    /// Ctrl-C was pressed.
    ShutdownRequested,
    /// Ctrl-C can no longer be listened for.
    ShutdownUnavailable,
}

/// What the crawl loop does next.
#[derive(Debug, Clone, Copy, PartialEq, Eq, Structural)]
pub enum CrawlStep {
    Ingest,
    Finish { interrupted: bool },
    StopListeningForShutdown,
}

pub fn crawl_step(event: CrawlEvent) -> (r: CrawlStep)
    ensures
        event == CrawlEvent::Draft ==> r == CrawlStep::Ingest,
        event == CrawlEvent::Exhausted ==> r == (CrawlStep::Finish { interrupted: false }),
        event == CrawlEvent::ShutdownRequested ==> r == (CrawlStep::Finish { interrupted: true }),
        event == CrawlEvent::ShutdownUnavailable ==> r == CrawlStep::StopListeningForShutdown,
{
    match event {
        CrawlEvent::Draft => CrawlStep::Ingest,
        CrawlEvent::Exhausted => CrawlStep::Finish { interrupted: false },
        CrawlEvent::ShutdownRequested => CrawlStep::Finish { interrupted: true },
        CrawlEvent::ShutdownUnavailable => CrawlStep::StopListeningForShutdown,
    }
}

} // verus!

verus! {

// --- Source registration -------------------------------------------------------------

/// A configured source as the ingestion API registers it.
#[derive(Debug, Clone, PartialEq, Eq)]
pub struct SourceSyncItem {
    pub estimated_articles: Option<usize>,
    pub kind: String,
    pub name: String,
    pub url: String,
}

pub fn sync_item(source: &SourceConfig) -> (r: SourceSyncItem)
    ensures
        r.estimated_articles is None,
        source is Html ==> r.kind@ == "html"@,
        source is WordPress ==> r.kind@ == "wordpress"@,
        r.name@ == source.spec_common().id@,
        r.url@ == source.spec_common().url@,
{
    SourceSyncItem {
        estimated_articles: None,
        kind: owned(source.kind()),
        name: owned(source.id().as_str()),
        url: owned(source.url()),
    }
}

/// Code-point order of texts, which is also the byte order of their UTF-8
/// encodings (`str`'s `Ord`).
pub open spec fn text_le(a: Seq<char>, b: Seq<char>) -> bool
    decreases a.len(),
{
    if a.len() == 0 {
        true
    } else if b.len() == 0 {
        false
    } else if a[0] != b[0] {
        (a[0] as int) < (b[0] as int)
    } else {
        text_le(a.drop_first(), b.drop_first())
    }
}

proof fn lemma_text_le_total(a: Seq<char>, b: Seq<char>)
    ensures
        text_le(a, b) || text_le(b, a),
    decreases a.len(),
{
    if a.len() > 0 && b.len() > 0 && a[0] == b[0] {
        lemma_text_le_total(a.drop_first(), b.drop_first());
    }
}

proof fn lemma_text_le_transitive(a: Seq<char>, b: Seq<char>, c: Seq<char>)
    requires
        text_le(a, b),
        text_le(b, c),
    ensures
        text_le(a, c),
    decreases a.len(),
{
    if a.len() > 0 && b.len() > 0 && c.len() > 0 && a[0] == b[0] && b[0] == c[0] {
        lemma_text_le_transitive(a.drop_first(), b.drop_first(), c.drop_first());
    }
}

fn text_le_exec(a: &Vec<char>, b: &Vec<char>) -> (r: bool)
    ensures
        r == text_le(a@, b@),
{
    let mut i: usize = 0;
    assert(a@.skip(0) =~= a@);
    assert(b@.skip(0) =~= b@);
    while i < a.len() && i < b.len() && a[i] == b[i]
        invariant
            i <= a.len(),
            i <= b.len(),
            text_le(a@, b@) == text_le(a@.skip(i as int), b@.skip(i as int)),
        decreases a.len() - i,
    {
        assert(a@.skip(i as int).drop_first() =~= a@.skip(i + 1));
        assert(b@.skip(i as int).drop_first() =~= b@.skip(i + 1));
        i = i + 1;
    }
    if i == a.len() {
        return true;
    }
    if i == b.len() {
        return false;
    }
    assert(a@.skip(i as int)[0] == a@[i as int]);
    assert(b@.skip(i as int)[0] == b@[i as int]);
    a[i] < b[i]
}

pub open spec fn names_ascending(items: Seq<SourceSyncItem>) -> bool {
    forall|i: int, j: int| 0 <= i <= j < items.len() ==> text_le(items[i].name@, items[j].name@)
}

/// The items in ascending order of name.
pub fn sort_by_name(items: Vec<SourceSyncItem>) -> (r: Vec<SourceSyncItem>)
    ensures
        names_ascending(r@),
        r@.to_multiset() == items@.to_multiset(),
{
    broadcast use {vstd::multiset::group_multiset_axioms, vstd::seq_lib::group_seq_properties};

    let ghost given = items@;
    let mut rest = items;
    let mut r: Vec<SourceSyncItem> = Vec::new();
    assert(r@.to_multiset() =~= vstd::multiset::Multiset::<SourceSyncItem>::empty());
    assert(r@.to_multiset().add(rest@.to_multiset()) =~= given.to_multiset());
    while rest.len() > 0
        invariant
            names_ascending(r@),
            r@.to_multiset().add(rest@.to_multiset()) == given.to_multiset(),
        decreases rest.len(),
    {
        let ghost rest_before = rest@;
        let item = match rest.pop() {
            Some(x) => x,
            None => {
                return r;
            },
        };
        proof {
            assert(rest_before =~= rest@.push(item));
            vstd::seq_lib::to_multiset_build(rest@, item);
        }
        let name = chars_of(item.name.as_str());
        let mut k: usize = 0;
        while k < r.len() && text_le_exec(&chars_of(r[k].name.as_str()), &name)
            invariant
                k <= r.len(),
                name@ == item.name@,
                forall|j: int| 0 <= j < k ==> text_le(#[trigger] r@[j].name@, item.name@),
            decreases r.len() - k,
        {
            k = k + 1;
        }
        let ghost before = r@;
        proof {
            vstd::seq_lib::to_multiset_insert(before, k as int, item);
        }
        r.insert(k, item);
        proof {
            assert(r@.to_multiset().add(rest@.to_multiset()) =~= before.to_multiset().add(
                rest_before.to_multiset(),
            ));
            assert forall|a: int, b: int| 0 <= a <= b < r@.len() implies text_le(
                r@[a].name@,
                r@[b].name@,
            ) by {
                if a == b {
                    lemma_text_le_total(r@[a].name@, r@[a].name@);
                } else if a < k && b == k {
                    assert(r@[a] == before[a]);
                } else if a == k && b > k {
                    assert(r@[b] == before[b - 1]);
                    assert(!text_le(before[k as int].name@, item.name@));
                    lemma_text_le_total(before[k as int].name@, item.name@);
                    lemma_text_le_transitive(item.name@, before[k as int].name@, before[b - 1].name@);
                } else if a < k && b > k {
                    assert(r@[a] == before[a]);
                    assert(r@[b] == before[b - 1]);
                } else if a > k {
                    assert(r@[a] == before[a - 1]);
                    assert(r@[b] == before[b - 1]);
                } else {
                    assert(r@[a] == before[a]);
                    assert(r@[b] == before[b]);
                }
            }
        }
    }
    assert(rest@.to_multiset() =~= vstd::multiset::Multiset::<SourceSyncItem>::empty());
    assert(r@.to_multiset() =~= r@.to_multiset().add(rest@.to_multiset()));
    r
}

/// The registrations whose archive size could be estimated, with it, in
/// ascending order of name.
pub fn estimated_items(results: Vec<(SourceSyncItem, Option<usize>)>) -> (r: Vec<SourceSyncItem>)
    ensures
        names_ascending(r@),
        r@.to_multiset() == estimated_of(results@).to_multiset(),
{
    let ghost all = results@;
    let mut kept: Vec<SourceSyncItem> = Vec::new();
    let mut rest = results;
    assert(all.take(all.len() as int) =~= all);
    assert(all.skip(all.len() as int) =~= Seq::<(SourceSyncItem, Option<usize>)>::empty());
    while rest.len() > 0
        invariant
            rest@.len() <= all.len(),
            rest@ == all.take(rest@.len() as int),
            kept@ == estimated_of(all.skip(rest@.len() as int)).reverse(),
        decreases rest.len(),
    {
        let ghost n = rest@.len();
        let (item, estimate) = match rest.pop() {
            Some(x) => x,
            None => {
                return sort_by_name(kept);
            },
        };
        proof {
            assert(all.take(n - 1) =~= all.take(n as int).drop_last());
        }
        match estimate {
            Some(e) => {
                let mut with = item;
                with.estimated_articles = Some(e);
                kept.push(with);
            },
            None => {},
        }
        proof {
            lemma_estimated_front(all, n - 1);
        }
    }
    proof {
        assert(all.skip(0) =~= all);
        estimated_of(all).lemma_reverse_to_multiset();
    }
    sort_by_name(kept)
}

/// Each registration with an estimate, carrying it.
pub open spec fn estimated_of(results: Seq<(SourceSyncItem, Option<usize>)>) -> Seq<SourceSyncItem>
    decreases results.len(),
{
    if results.len() == 0 {
        Seq::empty()
    } else {
        let rest = estimated_of(results.drop_first());
        match results[0].1 {
            Some(e) => seq![SourceSyncItem { estimated_articles: Some(e), ..results[0].0 }] + rest,
            None => rest,
        }
    }
}

proof fn lemma_estimated_front(all: Seq<(SourceSyncItem, Option<usize>)>, k: int)
    requires
        0 <= k < all.len(),
    ensures
        estimated_of(all.skip(k)) == (match all[k].1 {
            Some(e) => seq![SourceSyncItem { estimated_articles: Some(e), ..all[k].0 }] + estimated_of(all.skip(k + 1)),
            None => estimated_of(all.skip(k + 1)),
        }),
{
    assert(all.skip(k).drop_first() =~= all.skip(k + 1));
    assert(all.skip(k)[0] == all[k]);
}

} // verus!
