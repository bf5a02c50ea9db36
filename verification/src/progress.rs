//! Progress accounting of a queued run.
//!
//! A run is discovered in batches of article jobs, each article job records
//! its result once, and each expected delivery records its result once. The
//! run completes when discovery has finished and every discovered article
//! and every expected delivery has been accounted for; completion (or
//! failure) is reported exactly once, after which the tracker ignores
//! further results.

use vstd::prelude::*;

use crate::error::CrawlError;
use crate::text::{contains_string, owned, views};

verus! {

/// Counters reported to the ingestion API for a run.
#[derive(Debug, Clone, Copy, Default, PartialEq, Eq, Structural)]
pub struct RunMetrics {
    pub articles_discovered: usize,
    pub articles_processed: usize,
    pub articles_persisted: usize,
    pub articles_skipped: usize,
    pub articles_delivered: usize,
    pub articles_failed: usize,
}

/// Metrics after one accounted result, and whether the run just completed.
#[derive(Debug, Clone, Copy, PartialEq, Eq, Structural)]
pub struct QueuedRunUpdate {
    pub metrics: RunMetrics,
    pub terminal: bool,
}

/// What processing one article job contributed.
#[derive(Debug, Clone, Copy, Default, PartialEq, Eq, Structural)]
pub struct QueuedArticleResult {
    pub persisted: usize,
    pub delivered: usize,
    pub delivery_expected: usize,
    pub failed: usize,
    pub skipped: usize,
}

/// The abstract state of a run tracker.
pub ghost struct TrackerState {
    pub source_id: Seq<char>,
    pub started_at: Seq<char>,
    pub discovered: nat,
    pub discovery_complete: bool,
    pub article_processed: nat,
    pub delivery_expected: nat,
    pub delivery_processed: nat,
    pub persisted: nat,
    pub skipped: nat,
    pub delivered: nat,
    pub failed: nat,
    pub terminal_sent: bool,
    pub batches: Seq<Seq<char>>,
    pub articles: Seq<Seq<char>>,
    pub article_jobs: Seq<Seq<char>>,
    pub delivery_jobs: Seq<Seq<char>>,
}

/// The tracker of one queued run, as stored in its Redis hash.
#[derive(Debug, Clone, PartialEq, Eq)]
pub struct RunTracker {
    pub source_id: String,
    pub started_at: String,
    pub discovered: u64,
    pub discovery_complete: bool,
    pub article_processed: u64,
    pub delivery_expected: u64,
    pub delivery_processed: u64,
    pub persisted: u64,
    pub skipped: u64,
    pub delivered: u64,
    pub failed: u64,
    pub terminal_sent: bool,
    /// Discovery batches recorded.
    pub batches: Vec<String>,
    /// Article jobs discovered.
    pub articles: Vec<String>,
    /// Article jobs whose result was recorded.
    pub article_jobs: Vec<String>,
    /// Delivery jobs whose result was recorded.
    pub delivery_jobs: Vec<String>,
}

impl View for RunTracker {
    type V = TrackerState;

    open spec fn view(&self) -> TrackerState {
        TrackerState {
            source_id: self.source_id@,
            started_at: self.started_at@,
            discovered: self.discovered as nat,
            discovery_complete: self.discovery_complete,
            article_processed: self.article_processed as nat,
            delivery_expected: self.delivery_expected as nat,
            delivery_processed: self.delivery_processed as nat,
            persisted: self.persisted as nat,
            skipped: self.skipped as nat,
            delivered: self.delivered as nat,
            failed: self.failed as nat,
            terminal_sent: self.terminal_sent,
            batches: views(self.batches@),
            articles: views(self.articles@),
            article_jobs: views(self.article_jobs@),
            delivery_jobs: views(self.delivery_jobs@),
        }
    }
}

// --- Abstract transitions ------------------------------------------------------------

/// A fresh tracker for a run of a source started at `started_at`.
pub open spec fn fresh_state(source_id: Seq<char>, started_at: Seq<char>) -> TrackerState {
    TrackerState {
        source_id,
        started_at,
        discovered: 0,
        discovery_complete: false,
        article_processed: 0,
        delivery_expected: 0,
        delivery_processed: 0,
        persisted: 0,
        skipped: 0,
        delivered: 0,
        failed: 0,
        terminal_sent: false,
        batches: Seq::empty(),
        articles: Seq::empty(),
        article_jobs: Seq::empty(),
        delivery_jobs: Seq::empty(),
    }
}

/// The metrics a state reports.
pub open spec fn metrics_of(s: TrackerState) -> RunMetrics {
    RunMetrics {
        articles_discovered: s.discovered as usize,
        articles_processed: s.article_processed as usize,
        articles_persisted: s.persisted as usize,
        articles_skipped: s.skipped as usize,
        articles_delivered: s.delivered as usize,
        articles_failed: s.failed as usize,
    }
}

/// Whether every discovered article and expected delivery is accounted for
/// after discovery finished.
pub open spec fn complete(s: TrackerState) -> bool {
    s.discovery_complete && s.article_processed == s.discovered && s.delivery_processed
        == s.delivery_expected
}

/// The identifiers of `ids` not in `seen`, each once, in order.
pub open spec fn new_ids(seen: Seq<Seq<char>>, ids: Seq<Seq<char>>) -> Seq<Seq<char>>
    decreases ids.len(),
{
    if ids.len() == 0 {
        Seq::empty()
    } else {
        let earlier = new_ids(seen, ids.drop_last());
        if seen.contains(ids.last()) || earlier.contains(ids.last()) {
            earlier
        } else {
            earlier.push(ids.last())
        }
    }
}

/// `s` with `x` added when absent.
pub open spec fn with_marker(s: Seq<Seq<char>>, x: Seq<char>) -> Seq<Seq<char>> {
    if s.contains(x) {
        s
    } else {
        s.push(x)
    }
}

/// Recording a discovery batch: the new article jobs are added and counted.
pub open spec fn batch_step(s: TrackerState, batch_id: Seq<char>, ids: Seq<Seq<char>>) -> (
    TrackerState,
    Option<RunMetrics>,
) {
    if s.terminal_sent {
        (s, None)
    } else {
        let added = new_ids(s.articles, ids);
        let t = TrackerState {
            batches: with_marker(s.batches, batch_id),
            articles: s.articles + added,
            discovered: s.discovered + added.len(),
            ..s
        };
        (t, Some(metrics_of(t)))
    }
}

/// Marking discovery finished; the run completes when nothing is pending.
pub open spec fn finish_step(s: TrackerState) -> (TrackerState, Option<QueuedRunUpdate>) {
    if s.terminal_sent {
        (s, None)
    } else {
        let t = TrackerState { discovery_complete: true, ..s };
        let terminal = complete(t);
        let u = TrackerState { terminal_sent: terminal, ..t };
        (u, Some(QueuedRunUpdate { metrics: metrics_of(u), terminal }))
    }
}

/// Recording an article job's result, once per job.
pub open spec fn article_step(s: TrackerState, job_id: Seq<char>, r: QueuedArticleResult) -> (
    TrackerState,
    Option<QueuedRunUpdate>,
) {
    if s.terminal_sent || s.article_jobs.contains(job_id) {
        (s, None)
    } else {
        let t = TrackerState {
            article_jobs: s.article_jobs.push(job_id),
            article_processed: s.article_processed + 1,
            persisted: s.persisted + r.persisted as nat,
            delivered: s.delivered + r.delivered as nat,
            delivery_expected: s.delivery_expected + r.delivery_expected as nat,
            failed: s.failed + r.failed as nat,
            skipped: s.skipped + r.skipped as nat,
            ..s
        };
        let terminal = complete(t);
        let u = TrackerState { terminal_sent: terminal, ..t };
        (u, Some(QueuedRunUpdate { metrics: metrics_of(u), terminal }))
    }
}

/// Recording a delivery job's result, once per job.
pub open spec fn delivery_step(s: TrackerState, job_id: Seq<char>, delivered: nat, failed: nat) -> (
    TrackerState,
    Option<QueuedRunUpdate>,
) {
    if s.terminal_sent || s.delivery_jobs.contains(job_id) {
        (s, None)
    } else {
        let t = TrackerState {
            delivery_jobs: s.delivery_jobs.push(job_id),
            delivery_processed: s.delivery_processed + 1,
            delivered: s.delivered + delivered,
            failed: s.failed + failed,
            ..s
        };
        let terminal = complete(t);
        let u = TrackerState { terminal_sent: terminal, ..t };
        (u, Some(QueuedRunUpdate { metrics: metrics_of(u), terminal }))
    }
}

/// Closing a run early: it is marked terminal and its metrics returned.
pub open spec fn close_step(s: TrackerState) -> (TrackerState, Option<RunMetrics>) {
    if s.terminal_sent {
        (s, None)
    } else {
        let t = TrackerState { terminal_sent: true, ..s };
        (t, Some(metrics_of(t)))
    }
}

/// The bookkeeping a tracker keeps consistent: counters match the recorded
/// job sets, and no job is recorded twice.
pub open spec fn consistent(s: TrackerState) -> bool {
    &&& s.discovered == s.articles.len()
    &&& s.articles.no_duplicates()
    &&& s.article_processed == s.article_jobs.len()
    &&& s.article_jobs.no_duplicates()
    &&& s.delivery_processed == s.delivery_jobs.len()
    &&& s.delivery_jobs.no_duplicates()
}

} // verus!

verus! {

/// Whether all counters of the article step stay within 64 bits.
pub open spec fn article_fits(s: TrackerState, r: QueuedArticleResult) -> bool {
    &&& s.article_processed + 1 <= u64::MAX
    &&& s.persisted + r.persisted <= u64::MAX
    &&& s.delivered + r.delivered <= u64::MAX
    &&& s.delivery_expected + r.delivery_expected <= u64::MAX
    &&& s.failed + r.failed <= u64::MAX
    &&& s.skipped + r.skipped <= u64::MAX
}

pub open spec fn delivery_fits(s: TrackerState, delivered: nat, failed: nat) -> bool {
    &&& s.delivery_processed + 1 <= u64::MAX
    &&& s.delivered + delivered <= u64::MAX
    &&& s.failed + failed <= u64::MAX
}

pub open spec fn batch_fits(s: TrackerState, ids: Seq<Seq<char>>) -> bool {
    s.discovered + new_ids(s.articles, ids).len() <= u64::MAX
}

/// The error of a counter that would pass 64 bits.
pub open spec fn is_overflow_error(e: CrawlError) -> bool {
    e is Queue && e->Queue_0@ == "run progress counter overflow"@
}

fn overflow() -> (e: CrawlError)
    ensures
        is_overflow_error(e),
{
    CrawlError::Queue(owned("run progress counter overflow"))
}

fn checked_sum(a: u64, b: usize) -> (r: Option<u64>)
    ensures
        r matches Some(x) ==> x == a + b,
        r is None ==> a + b > u64::MAX,
{
    a.checked_add(b as u64)
}

impl RunTracker {
    /// The tracker a new run starts with.
    pub fn new(source_id: &str, started_at: &str) -> (r: RunTracker)
        ensures
            r@ == fresh_state(source_id@, started_at@),
    {
        let r = RunTracker {
            source_id: owned(source_id),
            started_at: owned(started_at),
            discovered: 0,
            discovery_complete: false,
            article_processed: 0,
            delivery_expected: 0,
            delivery_processed: 0,
            persisted: 0,
            skipped: 0,
            delivered: 0,
            failed: 0,
            terminal_sent: false,
            batches: Vec::new(),
            articles: Vec::new(),
            article_jobs: Vec::new(),
            delivery_jobs: Vec::new(),
        };
        assert(views(r.batches@) =~= Seq::empty());
        assert(views(r.articles@) =~= Seq::empty());
        assert(views(r.article_jobs@) =~= Seq::empty());
        assert(views(r.delivery_jobs@) =~= Seq::empty());
        r
    }

    /// Whether results of the run are still accounted for.
    pub fn run_is_open(&self) -> (r: bool)
        ensures
            r == !self@.terminal_sent,
    {
        !self.terminal_sent
    }

    pub fn metrics(&self) -> (r: RunMetrics)
        ensures
            r == metrics_of(self@),
    {
        RunMetrics {
            articles_discovered: self.discovered as usize,
            articles_processed: self.article_processed as usize,
            articles_persisted: self.persisted as usize,
            articles_skipped: self.skipped as usize,
            articles_delivered: self.delivered as usize,
            articles_failed: self.failed as usize,
        }
    }

    /// Records a page of discovered article jobs.
    pub fn record_discovery_batch(&mut self, batch_id: &str, article_job_ids: &Vec<String>) -> (r:
        Result<Option<RunMetrics>, CrawlError>)
        ensures
            old(self)@.terminal_sent || batch_fits(old(self)@, views(article_job_ids@)) <==> r is Ok,
            r matches Ok(m) ==> final(self)@ == batch_step(old(self)@, batch_id@, views(article_job_ids@)).0
                && m == batch_step(old(self)@, batch_id@, views(article_job_ids@)).1,
            r is Err ==> final(self)@ == old(self)@ && is_overflow_error(r->Err_0),
    {
        if self.terminal_sent {
            return Ok(None);
        }
        let ghost ids = views(article_job_ids@);
        let ghost start = views(self.articles@);
        let mut added_ids: Vec<String> = Vec::new();
        let mut i: usize = 0;
        while i < article_job_ids.len()
            invariant
                i <= article_job_ids.len(),
                ids == views(article_job_ids@),
                start == views(self.articles@),
                views(added_ids@) == new_ids(start, ids.take(i as int)),
            decreases article_job_ids.len() - i,
        {
            let id = &article_job_ids[i];
            assert(ids.take(i + 1).drop_last() =~= ids.take(i as int));
            assert(ids.take(i + 1).last() == id@);
            if !contains_string(&self.articles, id) && !contains_string(&added_ids, id) {
                let ghost before = added_ids@;
                added_ids.push(owned(id.as_str()));
                assert(views(added_ids@) =~= views(before).push(id@));
            }
            i = i + 1;
        }
        assert(ids.take(article_job_ids.len() as int) =~= ids);
        let discovered = match checked_sum(self.discovered, added_ids.len()) {
            Some(d) => d,
            None => {
                return Err(overflow());
            },
        };
        if !contains_string(&self.batches, &owned(batch_id)) {
            let ghost before = self.batches@;
            self.batches.push(owned(batch_id));
            assert(views(self.batches@) =~= views(before).push(batch_id@));
        }
        let ghost articles_before = self.articles@;
        let ghost added = added_ids@;
        self.articles.append(&mut added_ids);
        assert(views(self.articles@) =~= views(articles_before) + views(added));
        self.discovered = discovered;
        Ok(Some(self.metrics()))
    }

    /// Marks discovery finished.
    pub fn finish_discovery(&mut self) -> (r: Option<QueuedRunUpdate>)
        ensures
            final(self)@ == finish_step(old(self)@).0,
            r == finish_step(old(self)@).1,
    {
        if self.terminal_sent {
            return None;
        }
        self.discovery_complete = true;
        let terminal = self.article_processed == self.discovered && self.delivery_processed
            == self.delivery_expected;
        self.terminal_sent = terminal;
        Some(QueuedRunUpdate { metrics: self.metrics(), terminal })
    }

    /// Records an article job's result once.
    pub fn record_article_result(&mut self, job_id: &str, result: QueuedArticleResult) -> (r:
        Result<Option<QueuedRunUpdate>, CrawlError>)
        ensures
            (old(self)@.terminal_sent || old(self)@.article_jobs.contains(job_id@) || article_fits(
                old(self)@,
                result,
            )) <==> r is Ok,
            r matches Ok(u) ==> final(self)@ == article_step(old(self)@, job_id@, result).0 && u
                == article_step(old(self)@, job_id@, result).1,
            r is Err ==> final(self)@ == old(self)@ && is_overflow_error(r->Err_0),
    {
        if self.terminal_sent {
            return Ok(None);
        }
        let job = owned(job_id);
        if contains_string(&self.article_jobs, &job) {
            return Ok(None);
        }
        let processed = match checked_sum(self.article_processed, 1) {
            Some(v) => v,
            None => {
                return Err(overflow());
            },
        };
        let persisted = match checked_sum(self.persisted, result.persisted) {
            Some(v) => v,
            None => {
                return Err(overflow());
            },
        };
        let delivered = match checked_sum(self.delivered, result.delivered) {
            Some(v) => v,
            None => {
                return Err(overflow());
            },
        };
        let expected = match checked_sum(self.delivery_expected, result.delivery_expected) {
            Some(v) => v,
            None => {
                return Err(overflow());
            },
        };
        let failed = match checked_sum(self.failed, result.failed) {
            Some(v) => v,
            None => {
                return Err(overflow());
            },
        };
        let skipped = match checked_sum(self.skipped, result.skipped) {
            Some(v) => v,
            None => {
                return Err(overflow());
            },
        };
        let ghost jobs_before = self.article_jobs@;
        self.article_jobs.push(job);
        assert(views(self.article_jobs@) =~= views(jobs_before).push(job_id@));
        self.article_processed = processed;
        self.persisted = persisted;
        self.delivered = delivered;
        self.delivery_expected = expected;
        self.failed = failed;
        self.skipped = skipped;
        let terminal = self.discovery_complete && self.article_processed == self.discovered
            && self.delivery_processed == self.delivery_expected;
        self.terminal_sent = terminal;
        Ok(Some(QueuedRunUpdate { metrics: self.metrics(), terminal }))
    }

    /// Records a delivery job's result once.
    pub fn record_delivery_result(&mut self, job_id: &str, delivered: usize, failed: usize) -> (r:
        Result<Option<QueuedRunUpdate>, CrawlError>)
        ensures
            (old(self)@.terminal_sent || old(self)@.delivery_jobs.contains(job_id@)
                || delivery_fits(old(self)@, delivered as nat, failed as nat)) <==> r is Ok,
            r matches Ok(u) ==> final(self)@ == delivery_step(
                old(self)@,
                job_id@,
                delivered as nat,
                failed as nat,
            ).0 && u == delivery_step(old(self)@, job_id@, delivered as nat, failed as nat).1,
            r is Err ==> final(self)@ == old(self)@ && is_overflow_error(r->Err_0),
    {
        if self.terminal_sent {
            return Ok(None);
        }
        let job = owned(job_id);
        if contains_string(&self.delivery_jobs, &job) {
            return Ok(None);
        }
        let processed = match checked_sum(self.delivery_processed, 1) {
            Some(v) => v,
            None => {
                return Err(overflow());
            },
        };
        let delivered_total = match checked_sum(self.delivered, delivered) {
            Some(v) => v,
            None => {
                return Err(overflow());
            },
        };
        let failed_total = match checked_sum(self.failed, failed) {
            Some(v) => v,
            None => {
                return Err(overflow());
            },
        };
        let ghost jobs_before = self.delivery_jobs@;
        self.delivery_jobs.push(job);
        assert(views(self.delivery_jobs@) =~= views(jobs_before).push(job_id@));
        self.delivery_processed = processed;
        self.delivered = delivered_total;
        self.failed = failed_total;
        let terminal = self.discovery_complete && self.article_processed == self.discovered
            && self.delivery_processed == self.delivery_expected;
        self.terminal_sent = terminal;
        Ok(Some(QueuedRunUpdate { metrics: self.metrics(), terminal }))
    }

    /// Closes the run early (on failure), returning its metrics once.
    pub fn close(&mut self) -> (r: Option<RunMetrics>)
        ensures
            final(self)@ == close_step(old(self)@).0,
            r == close_step(old(self)@).1,
    {
        if self.terminal_sent {
            return None;
        }
        self.terminal_sent = true;
        Some(self.metrics())
    }
}

} // verus!

verus! {

/// One accounted event of a queued run.
pub ghost enum RunEvent {
    Batch { batch_id: Seq<char>, ids: Seq<Seq<char>> },
    Finish,
    Article { job_id: Seq<char>, result: QueuedArticleResult },
    Delivery { job_id: Seq<char>, delivered: nat, failed: nat },
    Close,
}

/// The state after an event, and whether the event reported the run's end.
pub open spec fn event_step(s: TrackerState, e: RunEvent) -> (TrackerState, bool) {
    match e {
        RunEvent::Batch { batch_id, ids } => (batch_step(s, batch_id, ids).0, false),
        RunEvent::Finish => {
            let (t, u) = finish_step(s);
            (t, u matches Some(x) && x.terminal)
        },
        RunEvent::Article { job_id, result } => {
            let (t, u) = article_step(s, job_id, result);
            (t, u matches Some(x) && x.terminal)
        },
        RunEvent::Delivery { job_id, delivered, failed } => {
            let (t, u) = delivery_step(s, job_id, delivered, failed);
            (t, u matches Some(x) && x.terminal)
        },
        RunEvent::Close => {
            let (t, m) = close_step(s);
            (t, m is Some)
        },
    }
}

/// The state after a sequence of events.
pub open spec fn run_events(s: TrackerState, events: Seq<RunEvent>) -> TrackerState
    decreases events.len(),
{
    if events.len() == 0 {
        s
    } else {
        run_events(event_step(s, events.first()).0, events.drop_first())
    }
}

/// How many events of the sequence reported the run's end.
pub open spec fn end_reports(s: TrackerState, events: Seq<RunEvent>) -> nat
    decreases events.len(),
{
    if events.len() == 0 {
        0
    } else {
        let (t, ended) = event_step(s, events.first());
        (if ended {
            1nat
        } else {
            0nat
        }) + end_reports(t, events.drop_first())
    }
}

/// Once a run's end has been reported, every further event leaves its
/// tracker unchanged and reports nothing.
pub proof fn lemma_terminal_is_final(s: TrackerState, e: RunEvent)
    requires
        s.terminal_sent,
    ensures
        event_step(s, e) == (s, false),
{
}

/// An event reports the run's end exactly when it leaves an open tracker
/// terminal, and a reported completion means every discovered article and
/// expected delivery was accounted for after discovery finished.
pub proof fn lemma_end_reported_when_terminal(s: TrackerState, e: RunEvent)
    requires
        !s.terminal_sent,
    ensures
        event_step(s, e).1 <==> event_step(s, e).0.terminal_sent,
        event_step(s, e).1 && !(e is Close) ==> complete(event_step(s, e).0),
{
}

/// The end of a run is reported at most once over any sequence of events,
/// and not at all once it was reported before.
pub proof fn lemma_end_reported_at_most_once(s: TrackerState, events: Seq<RunEvent>)
    ensures
        end_reports(s, events) <= 1,
        s.terminal_sent ==> end_reports(s, events) == 0 && run_events(s, events) == s,
        end_reports(s, events) == 1 ==> run_events(s, events).terminal_sent,
    decreases events.len(),
{
    if events.len() > 0 {
        let t = event_step(s, events.first()).0;
        lemma_end_reported_at_most_once(t, events.drop_first());
        if !s.terminal_sent {
            lemma_end_reported_when_terminal(s, events.first());
        }
    }
}

/// Recording the same article job twice counts it once: the second result
/// changes nothing and reports nothing.
pub proof fn lemma_article_counted_once(
    s: TrackerState,
    job_id: Seq<char>,
    first: QueuedArticleResult,
    second: QueuedArticleResult,
)
    ensures
        ({
            let t = article_step(s, job_id, first).0;
            article_step(t, job_id, second) == (t, None::<QueuedRunUpdate>)
        }),
{
    if !s.terminal_sent && !s.article_jobs.contains(job_id) {
        assert(s.article_jobs.push(job_id)[s.article_jobs.len() as int] == job_id);
    }
}

/// Recording the same delivery job twice counts it once.
pub proof fn lemma_delivery_counted_once(
    s: TrackerState,
    job_id: Seq<char>,
    delivered: nat,
    failed: nat,
    delivered_again: nat,
    failed_again: nat,
)
    ensures
        ({
            let t = delivery_step(s, job_id, delivered, failed).0;
            delivery_step(t, job_id, delivered_again, failed_again) == (
                t,
                None::<QueuedRunUpdate>,
            )
        }),
{
    if !s.terminal_sent && !s.delivery_jobs.contains(job_id) {
        assert(s.delivery_jobs.push(job_id)[s.delivery_jobs.len() as int] == job_id);
    }
}

proof fn lemma_new_ids_fresh(seen: Seq<Seq<char>>, ids: Seq<Seq<char>>)
    ensures
        new_ids(seen, ids).no_duplicates(),
        forall|x: Seq<char>| #[trigger] new_ids(seen, ids).contains(x) ==> !seen.contains(x)
            && ids.contains(x),
        forall|x: Seq<char>| ids.contains(x) && !seen.contains(x) ==> #[trigger] new_ids(
            seen,
            ids,
        ).contains(x),
    decreases ids.len(),
{
    if ids.len() > 0 {
        let init = ids.drop_last();
        lemma_new_ids_fresh(seen, init);
        assert forall|x: Seq<char>| #[trigger] new_ids(seen, ids).contains(x) implies !seen.contains(
            x,
        ) && ids.contains(x) by {
            let earlier = new_ids(seen, init);
            if earlier.contains(x) {
                let k = choose|k: int| 0 <= k < init.len() && init[k] == x;
                assert(ids[k] == x);
            } else {
                assert(x == ids.last());
            }
        }
        assert forall|x: Seq<char>| ids.contains(x) && !seen.contains(x) implies #[trigger] new_ids(
            seen,
            ids,
        ).contains(x) by {
            let earlier = new_ids(seen, init);
            let k = choose|k: int| 0 <= k < ids.len() && ids[k] == x;
            if k < ids.len() - 1 {
                assert(init[k] == x);
                assert(init.contains(x));
                assert(earlier.contains(x));
                let m = choose|m: int| 0 <= m < earlier.len() && earlier[m] == x;
                assert(earlier.push(ids.last())[m] == x);
            } else if earlier.contains(x) {
                let m = choose|m: int| 0 <= m < earlier.len() && earlier[m] == x;
                assert(earlier.push(ids.last())[m] == x);
            } else {
                assert(earlier.push(x)[earlier.len() as int] == x);
            }
        }
    }
}

/// Every event keeps a tracker's bookkeeping consistent: counters match
/// the recorded jobs, and no job is recorded twice.
pub proof fn lemma_event_keeps_consistency(s: TrackerState, e: RunEvent)
    requires
        consistent(s),
    ensures
        consistent(event_step(s, e).0),
{
    match e {
        RunEvent::Batch { batch_id, ids } => {
            if !s.terminal_sent {
                let added = new_ids(s.articles, ids);
                lemma_new_ids_fresh(s.articles, ids);
                let all = s.articles + added;
                assert forall|i: int, j: int| 0 <= i < all.len() && 0 <= j < all.len() && i != j
                    implies all[i] != all[j] by {
                    if i >= s.articles.len() && j < s.articles.len() {
                        assert(added.contains(all[i]));
                        assert(s.articles.contains(all[j]));
                    } else if j >= s.articles.len() && i < s.articles.len() {
                        assert(added.contains(all[j]));
                        assert(s.articles.contains(all[i]));
                    } else if i >= s.articles.len() {
                        assert(all[i] == added[i - s.articles.len()]);
                        assert(all[j] == added[j - s.articles.len()]);
                    }
                }
            }
        },
        RunEvent::Article { job_id, result } => {
            if !s.terminal_sent && !s.article_jobs.contains(job_id) {
                let jobs = s.article_jobs.push(job_id);
                assert forall|i: int, j: int| 0 <= i < jobs.len() && 0 <= j < jobs.len() && i
                    != j implies jobs[i] != jobs[j] by {
                    if i == s.article_jobs.len() {
                        assert(s.article_jobs.contains(jobs[j]));
                    } else if j == s.article_jobs.len() {
                        assert(s.article_jobs.contains(jobs[i]));
                    }
                }
            }
        },
        RunEvent::Delivery { job_id, delivered, failed } => {
            if !s.terminal_sent && !s.delivery_jobs.contains(job_id) {
                let jobs = s.delivery_jobs.push(job_id);
                assert forall|i: int, j: int| 0 <= i < jobs.len() && 0 <= j < jobs.len() && i
                    != j implies jobs[i] != jobs[j] by {
                    if i == s.delivery_jobs.len() {
                        assert(s.delivery_jobs.contains(jobs[j]));
                    } else if j == s.delivery_jobs.len() {
                        assert(s.delivery_jobs.contains(jobs[i]));
                    }
                }
            }
        },
        _ => {},
    }
}

/// Metrics with every counter at zero.
pub open spec fn zero_metrics() -> RunMetrics {
    RunMetrics {
        articles_discovered: 0,
        articles_processed: 0,
        articles_persisted: 0,
        articles_skipped: 0,
        articles_delivered: 0,
        articles_failed: 0,
    }
}

/// Whether `t` has every counter and flag of `s` at least where `s` has it.
pub open spec fn no_counter_lowered(s: TrackerState, t: TrackerState) -> bool {
    &&& s.discovered <= t.discovered
    &&& s.article_processed <= t.article_processed
    &&& s.delivery_expected <= t.delivery_expected
    &&& s.delivery_processed <= t.delivery_processed
    &&& s.persisted <= t.persisted
    &&& s.skipped <= t.skipped
    &&& s.delivered <= t.delivered
    &&& s.failed <= t.failed
    &&& s.discovery_complete ==> t.discovery_complete
    &&& s.terminal_sent ==> t.terminal_sent
}

/// A fresh tracker is consistent, open, and reports zero metrics.
pub proof fn lemma_fresh_tracker(source_id: Seq<char>, started_at: Seq<char>)
    ensures
        consistent(fresh_state(source_id, started_at)),
        !fresh_state(source_id, started_at).terminal_sent,
        metrics_of(fresh_state(source_id, started_at)) == zero_metrics(),
{
}

/// Recording the result of an article job not recorded before, on a run
/// whose end was not reported, counts one more processed article and adds
/// each field of the result to its counter (persisted, skipped, delivered,
/// failed, expected deliveries); the update reports the new totals.
pub proof fn lemma_article_result_adds_its_counts(s: TrackerState, job_id: Seq<char>, r: QueuedArticleResult)
    requires
        !s.terminal_sent,
        !s.article_jobs.contains(job_id),
    ensures
        article_step(s, job_id, r).0.article_processed == s.article_processed + 1,
        article_step(s, job_id, r).0.persisted == s.persisted + r.persisted,
        article_step(s, job_id, r).0.skipped == s.skipped + r.skipped,
        article_step(s, job_id, r).0.delivered == s.delivered + r.delivered,
        article_step(s, job_id, r).0.failed == s.failed + r.failed,
        article_step(s, job_id, r).0.delivery_expected == s.delivery_expected + r.delivery_expected,
        article_step(s, job_id, r).0.discovered == s.discovered,
        article_step(s, job_id, r).1 matches Some(u) && u.metrics.articles_skipped == (s.skipped
            + r.skipped) as usize && u.metrics.articles_persisted == (s.persisted + r.persisted) as usize
            && u.metrics.articles_delivered == (s.delivered + r.delivered) as usize
            && u.metrics.articles_failed == (s.failed + r.failed) as usize
            && u.metrics.articles_processed == (s.article_processed + 1) as usize,
{
}

/// Recording the result of a delivery job not recorded before, on a run
/// whose end was not reported, counts one more processed delivery and adds
/// the delivered and failed articles to their counters, leaving the others.
pub proof fn lemma_delivery_result_adds_its_counts(s: TrackerState, job_id: Seq<char>, delivered: nat, failed: nat)
    requires
        !s.terminal_sent,
        !s.delivery_jobs.contains(job_id),
    ensures
        delivery_step(s, job_id, delivered, failed).0.delivery_processed == s.delivery_processed + 1,
        delivery_step(s, job_id, delivered, failed).0.delivered == s.delivered + delivered,
        delivery_step(s, job_id, delivered, failed).0.failed == s.failed + failed,
        delivery_step(s, job_id, delivered, failed).0.persisted == s.persisted,
        delivery_step(s, job_id, delivered, failed).0.skipped == s.skipped,
        delivery_step(s, job_id, delivered, failed).0.article_processed == s.article_processed,
        delivery_step(s, job_id, delivered, failed).1 matches Some(u) && u.metrics.articles_delivered == (
        s.delivered + delivered) as usize && u.metrics.articles_failed == (s.failed + failed) as usize,
{
}

/// No event lowers a counter of the run.
pub proof fn lemma_counters_never_decrease(s: TrackerState, e: RunEvent)
    ensures
        no_counter_lowered(s, event_step(s, e).0),
{
}

} // verus!
