//! The decisions a queue worker makes around its I/O: which job a name is,
//! when an attempt is the last, what an article or delivery job contributes
//! to its run, and when repeated Redis failures warrant a restart.

use vstd::prelude::*;

use crate::articles::{DeliveryResult, DeliveryStatus, OutboxUpdate};
use crate::error::{concat3, CrawlError};
use crate::progress::{zero_metrics, QueuedArticleResult, RunMetrics};
use crate::text::{
    append_str, ascii_lowercase, ascii_lowercase_of, chars_of, contains_chars, contains_seq,
    decimal_string, decimal_text, owned,
};

verus! {

// --- Redis connection failures -------------------------------------------------------

/// Fragments of an error text that mark a lost or refused connection.
pub open spec fn connection_fragments() -> Seq<Seq<char>> {
    seq![
        "broken pipe"@,
        "connection closed"@,
        "connection is closed"@,
        "connection refused"@,
        "connection reset"@,
        "network is unreachable"@,
        "no route to host"@,
        "timed out"@,
        "unexpected eof"@,
    ]
}

/// Whether a worker error is Redis losing its connection: the text,
/// ASCII-lower-cased, names Redis and one of the connection fragments.
pub open spec fn redis_connection_error(error: Seq<char>) -> bool {
    let lower = ascii_lowercase(error);
    contains_seq(lower, "redis"@) && exists|i: int|
        0 <= i < connection_fragments().len() && contains_seq(lower, #[trigger] connection_fragments()[i])
}

fn contains_fragment(lower: &Vec<char>, fragment: &str) -> (r: bool)
    ensures
        r == contains_seq(lower@, fragment@),
{
    let f = chars_of(fragment);
    contains_chars(lower, &f)
}

pub fn is_redis_connection_error(error: &str) -> (r: bool)
    ensures
        r == redis_connection_error(error@),
{
    let v = chars_of(error);
    let lower = ascii_lowercase_of(&v);
    if !contains_fragment(&lower, "redis") {
        return false;
    }
    let ghost fr = connection_fragments();
    let found = contains_fragment(&lower, "broken pipe") || contains_fragment(&lower, "connection closed")
        || contains_fragment(&lower, "connection is closed") || contains_fragment(
        &lower,
        "connection refused",
    ) || contains_fragment(&lower, "connection reset") || contains_fragment(
        &lower,
        "network is unreachable",
    ) || contains_fragment(&lower, "no route to host") || contains_fragment(&lower, "timed out")
        || contains_fragment(&lower, "unexpected eof");
    proof {
        if found {
            if contains_seq(lower@, "broken pipe"@) {
                assert(contains_seq(lower@, fr[0]));
            } else if contains_seq(lower@, "connection closed"@) {
                assert(contains_seq(lower@, fr[1]));
            } else if contains_seq(lower@, "connection is closed"@) {
                assert(contains_seq(lower@, fr[2]));
            } else if contains_seq(lower@, "connection refused"@) {
                assert(contains_seq(lower@, fr[3]));
            } else if contains_seq(lower@, "connection reset"@) {
                assert(contains_seq(lower@, fr[4]));
            } else if contains_seq(lower@, "network is unreachable"@) {
                assert(contains_seq(lower@, fr[5]));
            } else if contains_seq(lower@, "no route to host"@) {
                assert(contains_seq(lower@, fr[6]));
            } else if contains_seq(lower@, "timed out"@) {
                assert(contains_seq(lower@, fr[7]));
            } else {
                assert(contains_seq(lower@, fr[8]));
            }
        } else {
            assert forall|i: int| 0 <= i < fr.len() implies !contains_seq(lower@, #[trigger] fr[i]) by {
                if i == 0 {
                } else if i == 1 {
                } else if i == 2 {
                } else if i == 3 {
                } else if i == 4 {
                } else if i == 5 {
                } else if i == 6 {
                } else if i == 7 {
                } else {
                    assert(i == 8);
                }
            }
        }
    }
    found
}

/// How long connection errors are remembered, in milliseconds.
pub const REDIS_ERROR_WINDOW_MS: u64 = 60_000;

/// How many connection errors within the window request a restart.
pub const REDIS_ERROR_RESTART_THRESHOLD: usize = 4;

pub open spec fn ascending_times(s: Seq<u64>) -> bool {
    forall|i: int, j: int| 0 <= i <= j < s.len() ==> s[i] <= s[j]
}

/// The errors of `s` no more than the window before `now`.
pub open spec fn recent(s: Seq<u64>, now: u64) -> Seq<u64> {
    s.filter(|t: u64| now - t <= REDIS_ERROR_WINDOW_MS)
}

/// The connection errors of the last minute, on a monotonic clock in
/// milliseconds, oldest first.
#[derive(Debug, Clone)]
pub struct RedisErrorWindow {
    pub occurred_at: Vec<u64>,
}

impl RedisErrorWindow {
    pub fn new() -> (r: RedisErrorWindow)
        ensures
            r.occurred_at@.len() == 0,
    {
        RedisErrorWindow { occurred_at: Vec::new() }
    }

    /// Records a connection error at `now_ms` and forgets those older than
    /// the window. When the threshold is reached, returns the message the
    /// worker stops with.
    pub fn record(&mut self, now_ms: u64, error: &str) -> (r: Option<String>)
        requires
            ascending_times(old(self).occurred_at@),
            forall|i: int| 0 <= i < old(self).occurred_at@.len() ==> old(self).occurred_at@[i] <= now_ms,
        ensures
            ascending_times(final(self).occurred_at@),
            final(self).occurred_at@ == recent(old(self).occurred_at@.push(now_ms), now_ms),
            r is Some <==> final(self).occurred_at@.len() >= REDIS_ERROR_RESTART_THRESHOLD,
            r matches Some(m) ==> m@ == "BullMQ Redis connection remained unhealthy after "@
                + decimal_text(final(self).occurred_at@.len()) + " errors in 60 seconds: "@ + error@,
    {
        let ghost all = self.occurred_at@.push(now_ms);
        self.occurred_at.push(now_ms);
        let mut start: usize = 0;
        while start < self.occurred_at.len() && now_ms - self.occurred_at[start] > REDIS_ERROR_WINDOW_MS
            invariant
                self.occurred_at@ == all,
                start <= all.len(),
                ascending_times(all),
                all.last() == now_ms,
                forall|i: int| 0 <= i < all.len() ==> all[i] <= now_ms,
                forall|i: int| 0 <= i < start ==> now_ms - all[i] > REDIS_ERROR_WINDOW_MS,
            decreases all.len() - start,
        {
            start = start + 1;
        }
        let mut kept: Vec<u64> = Vec::new();
        let mut k: usize = start;
        while k < self.occurred_at.len()
            invariant
                self.occurred_at@ == all,
                start <= k <= all.len(),
                ascending_times(all),
                forall|i: int| 0 <= i < all.len() ==> all[i] <= now_ms,
                start == all.len() || now_ms - all[start as int] <= REDIS_ERROR_WINDOW_MS,
                kept@ == all.subrange(start as int, k as int),
            decreases all.len() - k,
        {
            kept.push(self.occurred_at[k]);
            assert(all.subrange(start as int, k + 1) =~= all.subrange(start as int, k as int).push(
                all[k as int],
            ));
            k = k + 1;
        }
        proof {
            lemma_recent_suffix(all, now_ms, start as int);
        }
        self.occurred_at = kept;
        if self.occurred_at.len() >= REDIS_ERROR_RESTART_THRESHOLD {
            let mut m = owned("BullMQ Redis connection remained unhealthy after ");
            let n = decimal_string(self.occurred_at.len() as u64);
            append_str(&mut m, n.as_str());
            append_str(&mut m, " errors in 60 seconds: ");
            append_str(&mut m, error);
            Some(m)
        } else {
            None
        }
    }
}

/// In ascending times, the recent ones are the suffix from the first recent.
proof fn lemma_recent_suffix(all: Seq<u64>, now: u64, start: int)
    requires
        0 <= start <= all.len(),
        ascending_times(all),
        forall|i: int| 0 <= i < all.len() ==> all[i] <= now,
        forall|i: int| 0 <= i < start ==> now - all[i] > REDIS_ERROR_WINDOW_MS,
        start == all.len() || now - all[start] <= REDIS_ERROR_WINDOW_MS,
    ensures
        recent(all, now) == all.subrange(start, all.len() as int),
        ascending_times(all.subrange(start, all.len() as int)),
    decreases all.len(),
{
    let f = |t: u64| now - t <= REDIS_ERROR_WINDOW_MS;
    if all.len() == 0 {
        assert(all.filter(f) =~= Seq::<u64>::empty());
    } else {
        let init = all.drop_last();
        let last = all.last();
        assert(all.filter(f) == if f(last) {
            init.filter(f).push(last)
        } else {
            init.filter(f)
        }) by {
            reveal(Seq::filter);
            assert(all.drop_last() =~= init);
        }
        if f(last) {
            assert(start < all.len());
            lemma_recent_suffix(init, now, start);
            assert(all.subrange(start, all.len() as int) =~= init.subrange(start, init.len() as int).push(
                last,
            ));
        } else {
            if start < all.len() {
                assert(all[start] <= last);
            }
            assert(start == all.len());
            lemma_recent_suffix(init, now, init.len() as int);
            assert(init.subrange(init.len() as int, init.len() as int) =~= Seq::<u64>::empty());
            assert(all.subrange(start, all.len() as int) =~= Seq::<u64>::empty());
        }
    }
}

// --- Jobs ------------------------------------------------------------------------------

/// The jobs the crawler's queues carry.
#[derive(Debug, Clone, Copy, PartialEq, Eq, Structural)]
pub enum CrawlerJob {
    DiscoverSource,
    FetchArticle,
    DeliverArticle,
}

/// The job a queued name stands for; other names are unrecoverable.
pub fn job_kind(name: &str) -> (r: Result<CrawlerJob, String>)
    ensures
        name@ == "discover-source"@ ==> r == Ok::<CrawlerJob, String>(CrawlerJob::DiscoverSource),
        name@ == "fetch-article"@ ==> r == Ok::<CrawlerJob, String>(CrawlerJob::FetchArticle),
        name@ == "deliver-article"@ ==> r == Ok::<CrawlerJob, String>(CrawlerJob::DeliverArticle),
        name@ != "discover-source"@ && name@ != "fetch-article"@ && name@ != "deliver-article"@ ==> (r matches Err(
            m,
        ) && m@ == "unknown crawler job '"@ + name@ + "'"@),
{
    proof {
        reveal_strlit("discover-source");
        reveal_strlit("fetch-article");
        reveal_strlit("deliver-article");
        assert("fetch-article"@[0] != "discover-source"@[0]);
        assert("deliver-article"@[0] != "fetch-article"@[0]);
        assert("deliver-article"@[2] != "discover-source"@[2]);
    }
    if crate::text::str_eq(name, "discover-source") {
        Ok(CrawlerJob::DiscoverSource)
    } else if crate::text::str_eq(name, "fetch-article") {
        Ok(CrawlerJob::FetchArticle)
    } else if crate::text::str_eq(name, "deliver-article") {
        Ok(CrawlerJob::DeliverArticle)
    } else {
        Err(concat3("unknown crawler job '", name, "'"))
    }
}

/// Whether an attempt is a job's last: the attempts made so far, this one
/// included, reach the attempts allowed (one when unset).
pub fn final_attempt(attempts_made: u64, attempts: Option<u64>) -> (r: bool)
    ensures
        r == (attempts_made + 1 >= (match attempts {
            Some(n) => n as int,
            None => 1,
        })),
{
    let allowed = match attempts {
        Some(n) => n,
        None => 1,
    };
    allowed == 0 || attempts_made >= allowed - 1
}

// --- Discovery jobs --------------------------------------------------------------------

/// What follows a failed discovery attempt.
#[derive(Debug, Clone, Copy, PartialEq, Eq, Structural)]
pub enum DiscoveryFailure {
    /// The queue retries the job; the run stays open.
    Retry,
    /// The run's tracker is closed and the run reported failed with the
    /// metrics the tracker held.
    CloseRun,
}

/// A failed discovery closes its run only on the job's final attempt;
/// earlier attempts are left to the queue's retry.
pub fn discovery_failure(final_attempt: bool) -> (r: DiscoveryFailure)
    ensures
        r == (if final_attempt {
            DiscoveryFailure::CloseRun
        } else {
            DiscoveryFailure::Retry
        }),
{
    if final_attempt {
        DiscoveryFailure::CloseRun
    } else {
        DiscoveryFailure::Retry
    }
}

/// The metrics a failed run is reported with: those its tracker held when it
/// was closed, or zero when the tracker was gone or could not be closed.
pub fn failed_run_metrics(closed: Result<Option<RunMetrics>, CrawlError>) -> (m: RunMetrics)
    ensures
        m == (match closed {
            Ok(Some(x)) => x,
            _ => zero_metrics(),
        }),
{
    match closed {
        Ok(Some(x)) => x,
        _ => RunMetrics {
            articles_discovered: 0,
            articles_processed: 0,
            articles_persisted: 0,
            articles_skipped: 0,
            articles_delivered: 0,
            articles_failed: 0,
        },
    }
}

// --- Article jobs ----------------------------------------------------------------------

pub open spec fn result_of(persisted: usize, delivered: usize, expected: usize, failed: usize, skipped: usize) -> QueuedArticleResult {
    QueuedArticleResult { persisted, delivered, delivery_expected: expected, failed, skipped }
}

/// An article that was deliberately passed over.
pub fn skipped_article() -> (r: QueuedArticleResult)
    ensures
        r == result_of(0, 0, 0, 0, 1),
{
    QueuedArticleResult { persisted: 0, delivered: 0, delivery_expected: 0, failed: 0, skipped: 1 }
}

/// An article job that failed on its last attempt.
pub fn failed_article() -> (r: QueuedArticleResult)
    ensures
        r == result_of(0, 0, 0, 1, 0),
{
    QueuedArticleResult { persisted: 0, delivered: 0, delivery_expected: 0, failed: 1, skipped: 0 }
}

/// Reading an article failed: an invalid or out-of-range article is a
/// deliberate skip that completes the job; anything else fails it.
pub fn collect_failure(error: CrawlError) -> (r: Result<QueuedArticleResult, CrawlError>)
    ensures
        (error is InvalidArticle || error is ArticleOutOfDateRange) ==> r == Ok::<
            QueuedArticleResult,
            CrawlError,
        >(result_of(0, 0, 0, 0, 1)),
        !(error is InvalidArticle || error is ArticleOutOfDateRange) ==> r == Err::<
            QueuedArticleResult,
            CrawlError,
        >(error),
{
    match error {
        CrawlError::InvalidArticle(_) => Ok(skipped_article()),
        CrawlError::ArticleOutOfDateRange { .. } => Ok(skipped_article()),
        other => Err(other),
    }
}

/// What a saved article contributes to its run, and whether a delivery job
/// is to be queued for it: an article already forwarded counts as delivered
/// unless this run still owes its delivery; others await delivery.
pub fn saved_article(status: DeliveryStatus, intent_pending: bool) -> (r: (QueuedArticleResult, bool))
    ensures
        status == DeliveryStatus::Forwarded && intent_pending ==> r == (result_of(1, 0, 1, 0, 0), false),
        status == DeliveryStatus::Forwarded && !intent_pending ==> r == (result_of(1, 1, 0, 0, 0), false),
        status != DeliveryStatus::Forwarded ==> r == (result_of(1, 0, 1, 0, 0), true),
{
    match status {
        DeliveryStatus::Forwarded => {
            if intent_pending {
                (
                    QueuedArticleResult { persisted: 1, delivered: 0, delivery_expected: 1, failed: 0, skipped: 0 },
                    false,
                )
            } else {
                (
                    QueuedArticleResult { persisted: 1, delivered: 1, delivery_expected: 0, failed: 0, skipped: 0 },
                    false,
                )
            }
        },
        _ => (
            QueuedArticleResult { persisted: 1, delivered: 0, delivery_expected: 1, failed: 0, skipped: 0 },
            true,
        ),
    }
}

// --- Delivery jobs ---------------------------------------------------------------------

/// What a delivery job does with the outbox record it finds.
#[derive(Debug, Clone, Copy, PartialEq, Eq, Structural)]
pub enum DeliveryPlan {
    /// Account the delivery as done (or failed) without sending.
    Finish { succeeded: bool },
    /// No ingestion endpoint: mark the record failed for good, then finish.
    FailWithoutEndpoint,
    /// Send the article.
    Deliver,
}

/// A missing record fails the delivery; a forwarded one is done; without
/// an ingestion endpoint nothing can be sent.
pub fn delivery_plan(record: Option<DeliveryStatus>, has_ingestion: bool) -> (r: DeliveryPlan)
    ensures
        record is None ==> r == (DeliveryPlan::Finish { succeeded: false }),
        record == Some(DeliveryStatus::Forwarded) ==> r == (DeliveryPlan::Finish { succeeded: true }),
        record is Some && record != Some(DeliveryStatus::Forwarded) && !has_ingestion ==> r
            == DeliveryPlan::FailWithoutEndpoint,
        record is Some && record != Some(DeliveryStatus::Forwarded) && has_ingestion ==> r
            == DeliveryPlan::Deliver,
{
    match record {
        None => DeliveryPlan::Finish { succeeded: false },
        Some(DeliveryStatus::Forwarded) => DeliveryPlan::Finish { succeeded: true },
        Some(_) => if has_ingestion {
            DeliveryPlan::Deliver
        } else {
            DeliveryPlan::FailWithoutEndpoint
        },
    }
}

/// The message recorded when a delivery job finds no endpoint.
pub fn missing_endpoint_message() -> (r: String)
    ensures
        r@ == "delivery queue requires an ingestion API endpoint"@,
{
    owned("delivery queue requires an ingestion API endpoint")
}

/// What follows a delivery attempt.
#[derive(Debug, PartialEq, Eq)]
pub enum AfterDelivery {
    Finish { succeeded: bool },
    /// Fail the attempt so the queue retries it.
    Retry { message: String },
}

/// The outbox change for a delivery attempt, then: a delivered article
/// finishes as a success; a failure finishes when it cannot be retried or
/// this was the last attempt, and is retried otherwise.
pub fn after_delivery(result: DeliveryResult, final_attempt: bool) -> (r: (OutboxUpdate, AfterDelivery))
    ensures
        result is Delivered ==> r == (OutboxUpdate::MarkForwarded, AfterDelivery::Finish { succeeded: true }),
        result matches DeliveryResult::Failed { retryable, message, .. } ==> r.0 == (OutboxUpdate::MarkFailed {
            message,
            retryable,
        }) && ((!retryable || final_attempt) ==> r.1 == AfterDelivery::Finish { succeeded: false })
            && ((retryable && !final_attempt) ==> (r.1 matches AfterDelivery::Retry { message: m }
            && m@ == message@)),
{
    match result {
        DeliveryResult::Delivered { .. } => (
            OutboxUpdate::MarkForwarded,
            AfterDelivery::Finish { succeeded: true },
        ),
        DeliveryResult::Failed { retryable, message, .. } => {
            let next = if !retryable || final_attempt {
                AfterDelivery::Finish { succeeded: false }
            } else {
                AfterDelivery::Retry { message: owned(message.as_str()) }
            };
            (OutboxUpdate::MarkFailed { message, retryable }, next)
        },
    }
}

/// A finished delivery counts one delivered or one failed.
pub fn delivery_counts(succeeded: bool) -> (r: (usize, usize))
    ensures
        succeeded ==> r == (1usize, 0usize),
        !succeeded ==> r == (0usize, 1usize),
{
    if succeeded {
        (1, 0)
    } else {
        (0, 1)
    }
}

// --- Durations -------------------------------------------------------------------------

/// Whole milliseconds from `started_at` to `now` (nanoseconds since the
/// epoch), zero when `now` is earlier.
pub open spec fn duration_ms_of(started_at: int, now: int) -> int {
    if now <= started_at {
        0
    } else if (now - started_at) / 1_000_000 > u64::MAX {
        u64::MAX as int
    } else {
        (now - started_at) / 1_000_000
    }
}

pub fn queued_duration_ms(started_at: i128, now: i128) -> (r: u64)
    ensures
        r == duration_ms_of(started_at as int, now as int),
{
    if now <= started_at {
        return 0;
    }
    let diff: i128 = if started_at < 0 && now > i128::MAX + started_at {
        i128::MAX
    } else {
        now - started_at
    };
    let ms = diff / 1_000_000;
    if ms > u64::MAX as i128 {
        u64::MAX
    } else {
        ms as u64
    }
}

/// An elapsed time in milliseconds, capped to 64 bits.
pub fn elapsed_millis(elapsed_ms: u128) -> (r: u64)
    ensures
        r == (if elapsed_ms > u64::MAX {
            u64::MAX as int
        } else {
            elapsed_ms as int
        }),
{
    if elapsed_ms > u64::MAX as u128 {
        u64::MAX
    } else {
        elapsed_ms as u64
    }
}

} // verus!
