//! Run progress as it is read back from Redis: metric texts, value lists,
//! and the fields of an open run's tracker.

use vstd::prelude::*;

use crate::bindings::{parse_rfc3339, rfc3339_of};
use crate::domain::{instant_of, SourceId};
use crate::error::{concat3, CrawlError};
use crate::progress::{QueuedRunUpdate, RunMetrics, RunTracker, TrackerState};
use crate::text::{
    after_last, after_last_char, append_str, chars_of, contains_string, decimal_string,
    decimal_text, lemma_decimal_text_parses, owned, parse_u64, parse_unsigned, parse_usize, str_eq,
    string_from_range, trim,
    views,
};

verus! {

// --- Single metrics ----------------------------------------------------------------

/// The message for a metric text that is not a count.
pub open spec fn invalid_metric_message(value: Seq<char>) -> Seq<char> {
    "invalid queued run metric '"@ + value + "' in Redis progress tracker"@
}

/// Parses a stored counter as `usize` does (digits, optionally after `+`).
pub fn parse_metric(value: &str) -> (r: Result<usize, CrawlError>)
    ensures
        r is Ok <==> parse_unsigned(value@, usize::MAX as int) is Some,
        r matches Ok(n) ==> parse_unsigned(value@, usize::MAX as int) == Some(n as int),
        r matches Err(e) ==> e is Queue && e->Queue_0@ == invalid_metric_message(value@),
{
    match parse_usize(value) {
        Some(n) => Ok(n),
        None => Err(
            CrawlError::Queue(
                concat3("invalid queued run metric '", value, "' in Redis progress tracker"),
            ),
        ),
    }
}

// --- Value lists -------------------------------------------------------------------

/// A counter returned by a script: negative values count as zero.
pub open spec fn metric_value(v: i64) -> usize {
    if v < 0 {
        0
    } else {
        v as usize
    }
}

/// The metrics held by the first six values, in the order discovered,
/// processed, persisted, skipped, delivered, failed.
pub open spec fn metrics_of_values(values: Seq<i64>) -> RunMetrics {
    RunMetrics {
        articles_discovered: metric_value(values[0]),
        articles_processed: metric_value(values[1]),
        articles_persisted: metric_value(values[2]),
        articles_skipped: metric_value(values[3]),
        articles_delivered: metric_value(values[4]),
        articles_failed: metric_value(values[5]),
    }
}

fn clamp_metric(v: i64) -> (r: usize)
    ensures
        r == metric_value(v),
{
    if v < 0 {
        0
    } else {
        v as usize
    }
}

fn first_six_metrics(values: &[i64]) -> (r: RunMetrics)
    requires
        values@.len() >= 6,
    ensures
        r == metrics_of_values(values@),
{
    RunMetrics {
        articles_discovered: clamp_metric(values[0]),
        articles_processed: clamp_metric(values[1]),
        articles_persisted: clamp_metric(values[2]),
        articles_skipped: clamp_metric(values[3]),
        articles_delivered: clamp_metric(values[4]),
        articles_failed: clamp_metric(values[5]),
    }
}

/// `{prefix}{n}` where `n` is a count in decimal.
fn count_message(prefix: &str, n: usize) -> (r: String)
    ensures
        r@ == prefix@ + decimal_text(n as nat),
{
    let mut r = owned(prefix);
    let digits = decimal_string(n as u64);
    append_str(&mut r, digits.as_str());
    r
}

/// Exactly six values are metrics.
pub fn metrics_from_values(values: &[i64]) -> (r: Result<RunMetrics, CrawlError>)
    ensures
        r is Ok <==> values@.len() == 6,
        r matches Ok(m) ==> m == metrics_of_values(values@),
        r matches Err(e) ==> e is Queue && e->Queue_0@ == "expected 6 queued run metrics, received "@
            + decimal_text(values@.len()),
{
    if values.len() != 6 {
        return Err(
            CrawlError::Queue(count_message("expected 6 queued run metrics, received ", values.len())),
        );
    }
    Ok(first_six_metrics(values))
}

/// No values means the run was not updated; otherwise exactly seven values:
/// the six metrics and whether the run just ended (`1`).
pub fn queued_update_from_values(values: &[i64]) -> (r: Result<Option<QueuedRunUpdate>, CrawlError>)
    ensures
        r is Ok <==> values@.len() == 0 || values@.len() == 7,
        values@.len() == 0 ==> r == Ok::<Option<QueuedRunUpdate>, CrawlError>(None),
        values@.len() == 7 ==> r == Ok::<Option<QueuedRunUpdate>, CrawlError>(
            Some(QueuedRunUpdate { metrics: metrics_of_values(values@), terminal: values@[6] == 1 }),
        ),
        r matches Err(e) ==> e is Queue && e->Queue_0@
            == "expected 7 queued run update values, received "@ + decimal_text(values@.len()),
{
    if values.len() == 0 {
        return Ok(None);
    }
    if values.len() != 7 {
        return Err(
            CrawlError::Queue(
                count_message("expected 7 queued run update values, received ", values.len()),
            ),
        );
    }
    Ok(Some(QueuedRunUpdate { metrics: first_six_metrics(values), terminal: values[6] == 1 }))
}

} // verus!

verus! {

// --- Open runs ---------------------------------------------------------------------

/// The run a queued job belongs to.
#[derive(Debug, Clone, PartialEq, Eq)]
pub struct QueuedRunContext {
    pub run_id: String,
    pub agent_id: String,
    /// Nanoseconds since the Unix epoch.
    pub started_at: i128,
}

/// A run tracker's accounting as read for inspection; the counters that
/// older trackers did not keep are optional.
#[derive(Debug, Clone, PartialEq, Eq)]
pub struct QueuedRunReconciliation {
    pub run_id: String,
    pub source_id: Option<String>,
    pub discovery_complete: Option<bool>,
    pub terminal: bool,
    pub discovered: usize,
    pub processed: Option<usize>,
    pub persisted: usize,
    pub skipped: Option<usize>,
    pub failed: usize,
    pub deliveries_expected: Option<usize>,
    pub deliveries_processed: Option<usize>,
    pub delivered: usize,
}

/// A run whose tracker has not reported its end.
#[derive(Debug, Clone, PartialEq, Eq)]
pub struct OpenQueuedRun {
    pub run: QueuedRunContext,
    pub source_id: SourceId,
    pub articles_processed: usize,
    pub deliveries_expected: usize,
    pub deliveries_processed: usize,
    pub metrics: RunMetrics,
}

/// The tracker fields read for an open run, in the order
/// [`open_run_from_values`] expects their values.
pub fn open_run_fields() -> (r: Vec<&'static str>)
    ensures
        r@ == seq![
            "sourceId",
            "startedAt",
            "discovered",
            "articleProcessed",
            "processed",
            "deliveryExpected",
            "deliveryProcessed",
            "persisted",
            "skipped",
            "delivered",
            "failed",
            "terminalSent",
        ],
{
    let mut r: Vec<&'static str> = Vec::new();
    r.push("sourceId");
    r.push("startedAt");
    r.push("discovered");
    r.push("articleProcessed");
    r.push("processed");
    r.push("deliveryExpected");
    r.push("deliveryProcessed");
    r.push("persisted");
    r.push("skipped");
    r.push("delivered");
    r.push("failed");
    r.push("terminalSent");
    r
}

/// The text of field `i`, or `default` when the field is absent.
pub open spec fn field_text(values: Seq<Option<String>>, i: int, default: Seq<char>) -> Seq<char> {
    match values[i] {
        Some(s) => s@,
        None => default,
    }
}

/// Articles processed: the current field, else the field older trackers used.
pub open spec fn processed_text(values: Seq<Option<String>>) -> Seq<char> {
    match values[3] {
        Some(s) => s@,
        None => field_text(values, 4, "0"@),
    }
}

/// Whether a counter field holds a count (absent counts as `0`).
pub open spec fn counter_ok(values: Seq<Option<String>>, i: int) -> bool {
    parse_unsigned(field_text(values, i, "0"@), usize::MAX as int) is Some
}

/// The count a valid counter field holds.
pub open spec fn counter(values: Seq<Option<String>>, i: int) -> usize {
    parse_unsigned(field_text(values, i, "0"@), usize::MAX as int).unwrap() as usize
}

pub open spec fn processed_count(values: Seq<Option<String>>) -> usize {
    parse_unsigned(processed_text(values), usize::MAX as int).unwrap() as usize
}

/// Whether a tracker is passed over: malformed, already ended, without a
/// source or a valid start time, or with a metric that is not a count.
pub open spec fn open_run_skipped(values: Seq<Option<String>>) -> bool {
    ||| values.len() != 12
    ||| (values[11] matches Some(s) && s@ == "1"@)
    ||| trim(field_text(values, 0, ""@)).len() == 0
    ||| rfc3339_of(field_text(values, 1, ""@)) is None
    ||| !counter_ok(values, 2)
    ||| parse_unsigned(processed_text(values), usize::MAX as int) is None
    ||| !counter_ok(values, 7)
    ||| !counter_ok(values, 8)
    ||| !counter_ok(values, 9)
    ||| !counter_ok(values, 10)
}

/// The metrics of a tracker that is not passed over.
pub open spec fn open_run_metrics(values: Seq<Option<String>>) -> RunMetrics {
    RunMetrics {
        articles_discovered: counter(values, 2),
        articles_processed: processed_count(values),
        articles_persisted: counter(values, 7),
        articles_skipped: counter(values, 8),
        articles_delivered: counter(values, 9),
        articles_failed: counter(values, 10),
    }
}

fn field_or<'a>(values: &'a Vec<Option<String>>, i: usize, default: &'a str) -> (r: &'a str)
    requires
        i < values@.len(),
    ensures
        r@ == field_text(values@, i as int, default@),
{
    match &values[i] {
        Some(s) => s.as_str(),
        None => default,
    }
}

/// Reads an open run from its tracker key and the values of
/// [`open_run_fields`]. Trackers that ended or cannot be read are passed over
/// (`None`); delivery counters that are not counts are an error.
pub fn open_run_from_values(key: &str, agent_id: &str, values: &Vec<Option<String>>) -> (r: Result<
    Option<OpenQueuedRun>,
    CrawlError,
>)
    ensures
        open_run_skipped(values@) ==> r == Ok::<Option<OpenQueuedRun>, CrawlError>(None),
        !open_run_skipped(values@) ==> (r is Ok <==> counter_ok(values@, 5) && counter_ok(values@, 6)),
        !open_run_skipped(values@) && !counter_ok(values@, 5) ==> (r matches Err(e) && e is Queue
            && e->Queue_0@ == invalid_metric_message(field_text(values@, 5, "0"@))),
        !open_run_skipped(values@) && counter_ok(values@, 5) && !counter_ok(values@, 6) ==> (r matches Err(
            e,
        ) && e is Queue && e->Queue_0@ == invalid_metric_message(field_text(values@, 6, "0"@))),
        !open_run_skipped(values@) && counter_ok(values@, 5) && counter_ok(values@, 6) ==> r matches Ok(
            Some(_),
        ),
        r matches Ok(Some(run)) ==> {
            &&& !open_run_skipped(values@)
            &&& run.run.run_id@ == after_last(key@, ':')
            &&& run.run.agent_id@ == agent_id@
            &&& run.run.started_at == instant_of(
                rfc3339_of(field_text(values@, 1, ""@)).unwrap().0 as int,
                rfc3339_of(field_text(values@, 1, ""@)).unwrap().1 as int,
            )
            &&& run.source_id@ == trim(field_text(values@, 0, ""@))
            &&& run.articles_processed == processed_count(values@)
            &&& run.deliveries_expected == counter(values@, 5)
            &&& run.deliveries_processed == counter(values@, 6)
            &&& run.metrics == open_run_metrics(values@)
        },
{
    if values.len() != 12 {
        return Ok(None);
    }
    let ended = match &values[11] {
        Some(s) => str_eq(s.as_str(), "1"),
        None => false,
    };
    if ended {
        return Ok(None);
    }
    let run_id = after_last_char(key, ':');
    let source_id = match SourceId::new(field_or(values, 0, "")) {
        Ok(id) => id,
        Err(_) => {
            return Ok(None);
        },
    };
    let started_at = match parse_rfc3339(field_or(values, 1, "")) {
        Some((seconds, nanos)) => (seconds as i128) * 1_000_000_000 + (nanos as i128),
        None => {
            return Ok(None);
        },
    };
    let processed_field = match &values[3] {
        Some(s) => s.as_str(),
        None => field_or(values, 4, "0"),
    };
    let (discovered, processed, persisted, skipped, delivered, failed) = match (
        parse_metric(field_or(values, 2, "0")),
        parse_metric(processed_field),
        parse_metric(field_or(values, 7, "0")),
        parse_metric(field_or(values, 8, "0")),
        parse_metric(field_or(values, 9, "0")),
        parse_metric(field_or(values, 10, "0")),
    ) {
        (Ok(a), Ok(b), Ok(c), Ok(d), Ok(e), Ok(f)) => (a, b, c, d, e, f),
        _ => {
            return Ok(None);
        },
    };
    let deliveries_expected = parse_metric(field_or(values, 5, "0"))?;
    let deliveries_processed = parse_metric(field_or(values, 6, "0"))?;
    Ok(
        Some(
            OpenQueuedRun {
                run: QueuedRunContext { run_id, agent_id: owned(agent_id), started_at },
                source_id,
                articles_processed: processed,
                deliveries_expected,
                deliveries_processed,
                metrics: RunMetrics {
                    articles_discovered: discovered,
                    articles_processed: processed,
                    articles_persisted: persisted,
                    articles_skipped: skipped,
                    articles_delivered: delivered,
                    articles_failed: failed,
                },
            },
        ),
    )
}

} // verus!

verus! {

// --- The tracker hash --------------------------------------------------------------

/// The value of the last entry named `field`, as a hash read back gives it.
pub open spec fn hash_value(entries: Seq<(Seq<char>, Seq<char>)>, field: Seq<char>) -> Option<Seq<char>>
    decreases entries.len(),
{
    if entries.len() == 0 {
        None
    } else if entries.last().0 == field {
        Some(entries.last().1)
    } else {
        hash_value(entries.drop_last(), field)
    }
}

/// The identifiers after `prefix` in the entry names, each once, in order.
pub open spec fn marker_ids(entries: Seq<(Seq<char>, Seq<char>)>, prefix: Seq<char>) -> Seq<Seq<char>>
    decreases entries.len(),
{
    if entries.len() == 0 {
        Seq::empty()
    } else {
        let rest = marker_ids(entries.drop_last(), prefix);
        let name = entries.last().0;
        let id = name.subrange(prefix.len() as int, name.len() as int);
        if prefix.is_prefix_of(name) && !rest.contains(id) {
            rest.push(id)
        } else {
            rest
        }
    }
}

/// A counter field: absent counts as zero; otherwise it must be a count.
pub open spec fn counter_value(value: Option<Seq<char>>) -> Option<u64> {
    match value {
        None => Some(0),
        Some(v) => match parse_unsigned(v, u64::MAX as int) {
            Some(n) => Some(n as u64),
            None => None,
        },
    }
}

/// Articles processed, read from the field older trackers used when the
/// current one is absent.
pub open spec fn processed_value(entries: Seq<(Seq<char>, Seq<char>)>) -> Option<Seq<char>> {
    match hash_value(entries, "articleProcessed"@) {
        Some(v) => Some(v),
        None => hash_value(entries, "processed"@),
    }
}

/// The counter values of a tracker hash, in the order they are checked.
pub open spec fn counter_texts(entries: Seq<(Seq<char>, Seq<char>)>) -> Seq<Option<Seq<char>>> {
    seq![
        hash_value(entries, "discovered"@),
        processed_value(entries),
        hash_value(entries, "deliveryExpected"@),
        hash_value(entries, "deliveryProcessed"@),
        hash_value(entries, "persisted"@),
        hash_value(entries, "skipped"@),
        hash_value(entries, "delivered"@),
        hash_value(entries, "failed"@),
    ]
}

pub open spec fn counters_valid(entries: Seq<(Seq<char>, Seq<char>)>) -> bool {
    forall|i: int| 0 <= i < 8 ==> #[trigger] counter_value(counter_texts(entries)[i]) is Some
}

/// The first counter text that is not a count.
pub open spec fn first_invalid_counter(entries: Seq<(Seq<char>, Seq<char>)>) -> Seq<char> {
    let texts = counter_texts(entries);
    let i = choose|i: int|
        0 <= i < 8 && counter_value(texts[i]) is None && forall|j: int|
            0 <= j < i ==> counter_value(#[trigger] texts[j]) is Some;
    texts[i].unwrap()
}

pub open spec fn flag_value(value: Option<Seq<char>>) -> bool {
    value == Some("1"@)
}

pub open spec fn text_or_empty(value: Option<Seq<char>>) -> Seq<char> {
    match value {
        Some(v) => v,
        None => Seq::empty(),
    }
}

/// The tracker a valid hash holds.
pub open spec fn tracker_of_hash(entries: Seq<(Seq<char>, Seq<char>)>) -> TrackerState {
    let c = counter_texts(entries);
    TrackerState {
        source_id: text_or_empty(hash_value(entries, "sourceId"@)),
        started_at: text_or_empty(hash_value(entries, "startedAt"@)),
        discovered: counter_value(c[0]).unwrap() as nat,
        discovery_complete: flag_value(hash_value(entries, "discoveryComplete"@)),
        article_processed: counter_value(c[1]).unwrap() as nat,
        delivery_expected: counter_value(c[2]).unwrap() as nat,
        delivery_processed: counter_value(c[3]).unwrap() as nat,
        persisted: counter_value(c[4]).unwrap() as nat,
        skipped: counter_value(c[5]).unwrap() as nat,
        delivered: counter_value(c[6]).unwrap() as nat,
        failed: counter_value(c[7]).unwrap() as nat,
        terminal_sent: flag_value(hash_value(entries, "terminalSent"@)),
        batches: marker_ids(entries, "batch:"@),
        articles: marker_ids(entries, "article:"@),
        article_jobs: marker_ids(entries, "job:"@),
        delivery_jobs: marker_ids(entries, "deliveryJob:"@),
    }
}

/// The characters of an optional string.
pub open spec fn opt_text(value: Option<&String>) -> Option<Seq<char>> {
    match value {
        Some(v) => Some(v@),
        None => None,
    }
}

fn hash_get<'a>(entries: &'a Vec<(String, String)>, field: &str) -> (r: Option<&'a String>)
    ensures
        r matches Some(v) ==> hash_value(entry_views(entries@), field@) == Some(v@),
        r is None ==> hash_value(entry_views(entries@), field@) is None,
{
    let ghost ev = entry_views(entries@);
    let mut k: usize = entries.len();
    assert(ev.take(k as int) =~= ev);
    while k > 0
        invariant
            k <= entries.len(),
            ev == entry_views(entries@),
            hash_value(ev, field@) == hash_value(ev.take(k as int), field@),
        decreases k,
    {
        let entry = &entries[k - 1];
        assert(ev.take(k as int).last() == (entries@[k - 1].0@, entries@[k - 1].1@));
        assert(ev.take(k as int).drop_last() =~= ev.take(k - 1));
        if str_eq(entry.0.as_str(), field) {
            return Some(&entry.1);
        }
        k = k - 1;
    }
    None
}

fn hash_counter(value: Option<&String>) -> (r: Result<u64, CrawlError>)
    ensures
        r is Ok <==> counter_value(opt_text(value)) is Some,
        r matches Ok(n) ==> counter_value(opt_text(value)) == Some(n),
        r matches Err(e) ==> e is Queue && e->Queue_0@ == invalid_metric_message(value.unwrap()@),
{
    match value {
        None => Ok(0),
        Some(v) => match parse_u64(v.as_str()) {
            Some(n) => Ok(n),
            None => Err(
                CrawlError::Queue(
                    concat3(
                        "invalid queued run metric '",
                        v.as_str(),
                        "' in Redis progress tracker",
                    ),
                ),
            ),
        },
    }
}

fn starts_with_str(name: &Vec<char>, prefix: &Vec<char>) -> (r: bool)
    ensures
        r == prefix@.is_prefix_of(name@),
{
    if prefix.len() > name.len() {
        return false;
    }
    let mut i: usize = 0;
    while i < prefix.len()
        invariant
            i <= prefix.len() <= name.len(),
            forall|j: int| 0 <= j < i ==> prefix@[j] == name@[j],
        decreases prefix.len() - i,
    {
        if prefix[i] != name[i] {
            return false;
        }
        i = i + 1;
    }
    assert(prefix@ =~= name@.take(prefix@.len() as int));
    true
}

fn hash_markers(entries: &Vec<(String, String)>, prefix: &str) -> (r: Vec<String>)
    ensures
        views(r@) == marker_ids(entry_views(entries@), prefix@),
{
    let ghost ev = entry_views(entries@);
    let prefix_chars = chars_of(prefix);
    let mut r: Vec<String> = Vec::new();
    let mut i: usize = 0;
    while i < entries.len()
        invariant
            i <= entries.len(),
            ev == entry_views(entries@),
            prefix_chars@ == prefix@,
            views(r@) == marker_ids(ev.take(i as int), prefix@),
        decreases entries.len() - i,
    {
        assert(ev.take(i + 1).drop_last() =~= ev.take(i as int));
        assert(ev.take(i + 1).last() == (entries@[i as int].0@, entries@[i as int].1@));
        let name = chars_of(entries[i].0.as_str());
        if starts_with_str(&name, &prefix_chars) {
            let id = string_from_range(&name, prefix_chars.len(), name.len());
            if !contains_string(&r, &id) {
                let ghost before = r@;
                r.push(id);
                assert(views(r@) =~= views(before).push(id@));
            }
        }
        i = i + 1;
    }
    assert(ev.take(entries.len() as int) =~= ev);
    r
}

fn text_of(value: Option<&String>) -> (r: String)
    ensures
        r@ == text_or_empty(opt_text(value)),
{
    match value {
        Some(v) => owned(v.as_str()),
        None => String::new(),
    }
}

fn flag_of(value: Option<&String>) -> (r: bool)
    ensures
        r == flag_value(opt_text(value)),
{
    match value {
        Some(v) => str_eq(v.as_str(), "1"),
        None => false,
    }
}

impl RunTracker {
    /// Reads a tracker back from the entries of its Redis hash. No entries
    /// means there is no tracker; a counter that is not a count is an error.
    pub fn from_hash(entries: &Vec<(String, String)>) -> (r: Result<Option<RunTracker>, CrawlError>)
        ensures
            entries@.len() == 0 ==> r == Ok::<Option<RunTracker>, CrawlError>(None),
            entries@.len() > 0 ==> (r is Ok <==> counters_valid(entry_views(entries@))),
            entries@.len() > 0 && counters_valid(entry_views(entries@)) ==> r matches Ok(Some(_)),
            r matches Ok(Some(t)) ==> t@ == tracker_of_hash(entry_views(entries@)),
            r matches Err(e) ==> e is Queue && e->Queue_0@ == invalid_metric_message(
                first_invalid_counter(entry_views(entries@)),
            ),
    {
        if entries.len() == 0 {
            return Ok(None);
        }
        let ghost texts = counter_texts(entry_views(entries@));
        let processed_field = match hash_get(entries, "articleProcessed") {
            Some(v) => Some(v),
            None => hash_get(entries, "processed"),
        };
        proof {
            assert(counter_value(texts[0]) == counter_value(hash_value(entry_views(entries@), "discovered"@)));
        }
        let discovered = hash_counter(hash_get(entries, "discovered"));
        let processed = hash_counter(processed_field);
        let expected = hash_counter(hash_get(entries, "deliveryExpected"));
        let delivery_processed = hash_counter(hash_get(entries, "deliveryProcessed"));
        let persisted = hash_counter(hash_get(entries, "persisted"));
        let skipped = hash_counter(hash_get(entries, "skipped"));
        let delivered = hash_counter(hash_get(entries, "delivered"));
        let failed = hash_counter(hash_get(entries, "failed"));
        proof {
            assert(counter_value(texts[1]) == counter_value(opt_text(processed_field)));
        }
        let (discovered, processed, expected, delivery_processed, persisted, skipped, delivered, failed) =
            match (discovered, processed, expected, delivery_processed, persisted, skipped, delivered, failed) {
            (Ok(a), Ok(b), Ok(c), Ok(d), Ok(e), Ok(f), Ok(g), Ok(h)) => (a, b, c, d, e, f, g, h),
            (Err(e), _, _, _, _, _, _, _) => {
                proof { lemma_first_invalid(entry_views(entries@), 0); }
                return Err(e);
            },
            (_, Err(e), _, _, _, _, _, _) => {
                proof { lemma_first_invalid(entry_views(entries@), 1); }
                return Err(e);
            },
            (_, _, Err(e), _, _, _, _, _) => {
                proof { lemma_first_invalid(entry_views(entries@), 2); }
                return Err(e);
            },
            (_, _, _, Err(e), _, _, _, _) => {
                proof { lemma_first_invalid(entry_views(entries@), 3); }
                return Err(e);
            },
            (_, _, _, _, Err(e), _, _, _) => {
                proof { lemma_first_invalid(entry_views(entries@), 4); }
                return Err(e);
            },
            (_, _, _, _, _, Err(e), _, _) => {
                proof { lemma_first_invalid(entry_views(entries@), 5); }
                return Err(e);
            },
            (_, _, _, _, _, _, Err(e), _) => {
                proof { lemma_first_invalid(entry_views(entries@), 6); }
                return Err(e);
            },
            (_, _, _, _, _, _, _, Err(e)) => {
                proof { lemma_first_invalid(entry_views(entries@), 7); }
                return Err(e);
            },
        };
        let t = RunTracker {
            source_id: text_of(hash_get(entries, "sourceId")),
            started_at: text_of(hash_get(entries, "startedAt")),
            discovered,
            discovery_complete: flag_of(hash_get(entries, "discoveryComplete")),
            article_processed: processed,
            delivery_expected: expected,
            delivery_processed,
            persisted,
            skipped,
            delivered,
            failed,
            terminal_sent: flag_of(hash_get(entries, "terminalSent")),
            batches: hash_markers(entries, "batch:"),
            articles: hash_markers(entries, "article:"),
            article_jobs: hash_markers(entries, "job:"),
            delivery_jobs: hash_markers(entries, "deliveryJob:"),
        };
        proof {
            assert(counters_valid(entry_views(entries@))) by {
                assert forall|i: int| 0 <= i < 8 implies #[trigger] counter_value(
                    counter_texts(entry_views(entries@))[i],
                ) is Some by {
                    assert(counter_texts(entry_views(entries@)) == texts);
                }
            }
        }
        Ok(Some(t))
    }
}

/// The first invalid counter is at `i` when those before it are valid.
proof fn lemma_first_invalid(entries: Seq<(Seq<char>, Seq<char>)>, i: int)
    requires
        0 <= i < 8,
        counter_value(counter_texts(entries)[i]) is None,
        forall|j: int| 0 <= j < i ==> counter_value(#[trigger] counter_texts(entries)[j]) is Some,
    ensures
        first_invalid_counter(entries) == counter_texts(entries)[i].unwrap(),
        !counters_valid(entries),
{
    let texts = counter_texts(entries);
    let k = choose|k: int|
        0 <= k < 8 && counter_value(texts[k]) is None && forall|j: int|
            0 <= j < k ==> counter_value(#[trigger] texts[j]) is Some;
    if k < i {
        assert(counter_value(texts[k]) is Some);
    } else if k > i {
        assert(counter_value(texts[i]) is Some);
    }
}

} // verus!

verus! {

pub open spec fn flag_text(b: bool) -> Seq<char> {
    if b {
        "1"@
    } else {
        "0"@
    }
}

/// Marker entries `{prefix}{id} = 1`, one per identifier.
pub open spec fn marker_entries(prefix: Seq<char>, ids: Seq<Seq<char>>) -> Seq<(Seq<char>, Seq<char>)> {
    ids.map_values(|id: Seq<char>| (prefix + id, "1"@))
}

/// The hash entries that store a tracker.
pub open spec fn tracker_entries(s: TrackerState) -> Seq<(Seq<char>, Seq<char>)> {
    seq![
        ("sourceId"@, s.source_id),
        ("startedAt"@, s.started_at),
        ("discovered"@, decimal_text(s.discovered)),
        ("discoveryComplete"@, flag_text(s.discovery_complete)),
        ("articleProcessed"@, decimal_text(s.article_processed)),
        ("deliveryExpected"@, decimal_text(s.delivery_expected)),
        ("deliveryProcessed"@, decimal_text(s.delivery_processed)),
        ("persisted"@, decimal_text(s.persisted)),
        ("skipped"@, decimal_text(s.skipped)),
        ("delivered"@, decimal_text(s.delivered)),
        ("failed"@, decimal_text(s.failed)),
        ("terminalSent"@, flag_text(s.terminal_sent)),
    ] + marker_entries("batch:"@, s.batches) + marker_entries("article:"@, s.articles)
        + marker_entries("job:"@, s.article_jobs) + marker_entries("deliveryJob:"@, s.delivery_jobs)
}

/// The characters of each entry.
pub open spec fn entry_views(entries: Seq<(String, String)>) -> Seq<(Seq<char>, Seq<char>)> {
    entries.map_values(|e: (String, String)| (e.0@, e.1@))
}

fn push_entry(entries: &mut Vec<(String, String)>, name: String, value: String)
    ensures
        entry_views(final(entries)@) == entry_views(old(entries)@).push((name@, value@)),
{
    let ghost before = entries@;
    entries.push((name, value));
    assert(entry_views(entries@) =~= entry_views(before).push((name@, value@)));
}

fn push_counter(entries: &mut Vec<(String, String)>, name: &str, n: u64)
    ensures
        entry_views(final(entries)@) == entry_views(old(entries)@).push((name@, decimal_text(n as nat))),
{
    push_entry(entries, owned(name), decimal_string(n));
}

fn flag_string(b: bool) -> (r: String)
    ensures
        r@ == flag_text(b),
{
    if b {
        owned("1")
    } else {
        owned("0")
    }
}

fn push_markers(entries: &mut Vec<(String, String)>, prefix: &str, ids: &Vec<String>)
    ensures
        entry_views(final(entries)@) == entry_views(old(entries)@) + marker_entries(prefix@, views(ids@)),
{
    let ghost start = entry_views(entries@);
    let mut i: usize = 0;
    while i < ids.len()
        invariant
            i <= ids.len(),
            entry_views(entries@) == start + marker_entries(prefix@, views(ids@).take(i as int)),
        decreases ids.len() - i,
    {
        let mut name = owned(prefix);
        append_str(&mut name, ids[i].as_str());
        push_entry(entries, name, owned("1"));
        assert(marker_entries(prefix@, views(ids@).take(i + 1)) =~= marker_entries(
            prefix@,
            views(ids@).take(i as int),
        ).push((prefix@ + ids@[i as int]@, "1"@)));
        i = i + 1;
    }
    assert(views(ids@).take(ids.len() as int) =~= views(ids@));
}

impl RunTracker {
    /// The entries of the Redis hash that stores this tracker.
    pub fn hash_entries(&self) -> (r: Vec<(String, String)>)
        ensures
            entry_views(r@) == tracker_entries(self@),
    {
        let mut r: Vec<(String, String)> = Vec::new();
        push_entry(&mut r, owned("sourceId"), owned(self.source_id.as_str()));
        push_entry(&mut r, owned("startedAt"), owned(self.started_at.as_str()));
        push_counter(&mut r, "discovered", self.discovered);
        push_entry(&mut r, owned("discoveryComplete"), flag_string(self.discovery_complete));
        push_counter(&mut r, "articleProcessed", self.article_processed);
        push_counter(&mut r, "deliveryExpected", self.delivery_expected);
        push_counter(&mut r, "deliveryProcessed", self.delivery_processed);
        push_counter(&mut r, "persisted", self.persisted);
        push_counter(&mut r, "skipped", self.skipped);
        push_counter(&mut r, "delivered", self.delivered);
        push_counter(&mut r, "failed", self.failed);
        push_entry(&mut r, owned("terminalSent"), flag_string(self.terminal_sent));
        let ghost scalars = entry_views(r@);
        push_markers(&mut r, "batch:", &self.batches);
        push_markers(&mut r, "article:", &self.articles);
        push_markers(&mut r, "job:", &self.article_jobs);
        push_markers(&mut r, "deliveryJob:", &self.delivery_jobs);
        assert(scalars =~= seq![
            ("sourceId"@, self@.source_id),
            ("startedAt"@, self@.started_at),
            ("discovered"@, decimal_text(self@.discovered)),
            ("discoveryComplete"@, flag_text(self@.discovery_complete)),
            ("articleProcessed"@, decimal_text(self@.article_processed)),
            ("deliveryExpected"@, decimal_text(self@.delivery_expected)),
            ("deliveryProcessed"@, decimal_text(self@.delivery_processed)),
            ("persisted"@, decimal_text(self@.persisted)),
            ("skipped"@, decimal_text(self@.skipped)),
            ("delivered"@, decimal_text(self@.delivered)),
            ("failed"@, decimal_text(self@.failed)),
            ("terminalSent"@, flag_text(self@.terminal_sent)),
        ]);
        r
    }
}

} // verus!

verus! {

// --- Storing and reading back ------------------------------------------------------

pub open spec fn no_colon(s: Seq<char>) -> bool {
    forall|j: int| 0 <= j < s.len() ==> s[j] != ':'
}

/// `no_colon`, one character at a time.
pub open spec fn colon_free(s: Seq<char>) -> bool
    decreases s.len(),
{
    s.len() == 0 || (s.last() != ':' && colon_free(s.drop_last()))
}

proof fn lemma_colon_free(s: Seq<char>)
    requires
        colon_free(s),
    ensures
        no_colon(s),
    decreases s.len(),
{
    if s.len() > 0 {
        lemma_colon_free(s.drop_last());
        assert forall|j: int| 0 <= j < s.len() implies s[j] != ':' by {
            if j < s.len() - 1 {
                assert(s[j] == s.drop_last()[j]);
            }
        }
    }
}

proof fn lemma_hash_value_at(entries: Seq<(Seq<char>, Seq<char>)>, i: int, f: Seq<char>)
    requires
        0 <= i < entries.len(),
        entries[i].0 == f,
        forall|j: int| i < j < entries.len() ==> (#[trigger] entries[j]).0 != f,
    ensures
        hash_value(entries, f) == Some(entries[i].1),
    decreases entries.len(),
{
    if i < entries.len() - 1 {
        assert(entries.last() == entries[entries.len() - 1]);
        lemma_hash_value_at(entries.drop_last(), i, f);
    }
}

proof fn lemma_colon_differs(name: Seq<char>, field: Seq<char>, k: int)
    requires
        0 <= k < name.len(),
        name[k] == ':',
        no_colon(field),
    ensures
        name != field,
{
    if name == field {
        assert(field[k] == ':');
    }
}

proof fn lemma_hash_value_append(x: Seq<(Seq<char>, Seq<char>)>, y: Seq<(Seq<char>, Seq<char>)>, f: Seq<char>)
    requires
        forall|i: int| 0 <= i < y.len() ==> (#[trigger] y[i]).0 != f,
    ensures
        hash_value(x + y, f) == hash_value(x, f),
    decreases y.len(),
{
    if y.len() > 0 {
        assert((x + y).drop_last() =~= x + y.drop_last());
        assert((x + y).last() == y.last());
        assert(y.last() == y[y.len() - 1]);
        lemma_hash_value_append(x, y.drop_last(), f);
    } else {
        assert(x + y =~= x);
    }
}

proof fn lemma_marker_ids_append(x: Seq<(Seq<char>, Seq<char>)>, y: Seq<(Seq<char>, Seq<char>)>, p: Seq<char>)
    requires
        forall|i: int| 0 <= i < y.len() ==> !p.is_prefix_of(#[trigger] y[i].0),
    ensures
        marker_ids(x + y, p) == marker_ids(x, p),
    decreases y.len(),
{
    if y.len() > 0 {
        assert((x + y).drop_last() =~= x + y.drop_last());
        assert((x + y).last() == y[y.len() - 1]);
        lemma_marker_ids_append(x, y.drop_last(), p);
    } else {
        assert(x + y =~= x);
    }
}

proof fn lemma_marker_block(x: Seq<(Seq<char>, Seq<char>)>, p: Seq<char>, ids: Seq<Seq<char>>)
    requires
        marker_ids(x, p) == Seq::<Seq<char>>::empty(),
        ids.no_duplicates(),
    ensures
        marker_ids(x + marker_entries(p, ids), p) == ids,
    decreases ids.len(),
{
    if ids.len() == 0 {
        assert(marker_entries(p, ids) =~= Seq::<(Seq<char>, Seq<char>)>::empty());
        assert(x + marker_entries(p, ids) =~= x);
    } else {
        let init = ids.drop_last();
        let last = ids.last();
        assert(init.no_duplicates()) by {
            assert forall|i: int, j: int| 0 <= i < init.len() && 0 <= j < init.len() && i != j implies init[i]
                != init[j] by {
                assert(init[i] == ids[i] && init[j] == ids[j]);
            }
        }
        lemma_marker_block(x, p, init);
        let whole = x + marker_entries(p, ids);
        assert(marker_entries(p, ids) =~= marker_entries(p, init).push((p + last, "1"@)));
        assert(whole.drop_last() =~= x + marker_entries(p, init));
        assert(whole.last() == (p + last, "1"@));
        assert(p.is_prefix_of(p + last)) by {
            assert((p + last).take(p.len() as int) =~= p);
        }
        assert((p + last).subrange(p.len() as int, (p + last).len() as int) =~= last);
        assert(!init.contains(last)) by {
            if init.contains(last) {
                let k = choose|k: int| 0 <= k < init.len() && init[k] == last;
                assert(ids[k] == ids[ids.len() - 1]);
            }
        }
        assert(init.push(last) =~= ids);
    }
}

} // verus!

verus! {

/// The scalar entries of a stored tracker.
pub open spec fn scalar_entries(s: TrackerState) -> Seq<(Seq<char>, Seq<char>)> {
    tracker_entries(s).take(12)
}

/// Whether the counters of a tracker fit the 64 bits they are stored in.
pub open spec fn counters_fit(s: TrackerState) -> bool {
    &&& s.discovered <= u64::MAX
    &&& s.article_processed <= u64::MAX
    &&& s.delivery_expected <= u64::MAX
    &&& s.delivery_processed <= u64::MAX
    &&& s.persisted <= u64::MAX
    &&& s.skipped <= u64::MAX
    &&& s.delivered <= u64::MAX
    &&& s.failed <= u64::MAX
}

proof fn lemma_not_prefix_first(p: Seq<char>, name: Seq<char>)
    requires
        p.len() > 0,
        name.len() > 0,
        p[0] != name[0],
    ensures
        !p.is_prefix_of(name),
{
}

proof fn lemma_not_prefix_colon(p: Seq<char>, name: Seq<char>)
    requires
        p.len() > 0,
        p.last() == ':',
        no_colon(name),
    ensures
        !p.is_prefix_of(name),
{
    if p.is_prefix_of(name) {
        assert(name[p.len() - 1] == p[p.len() - 1]);
    }
}

/// Entries whose names start with `p` never name a field without `:`.
proof fn lemma_block_names(p: Seq<char>, ids: Seq<Seq<char>>, f: Seq<char>)
    requires
        p.len() > 0,
        p.last() == ':',
        no_colon(f),
    ensures
        forall|i: int| 0 <= i < marker_entries(p, ids).len() ==> (#[trigger] marker_entries(p, ids)[i]).0 != f,
{
    assert forall|i: int| 0 <= i < marker_entries(p, ids).len() implies (#[trigger] marker_entries(
        p,
        ids,
    )[i]).0 != f by {
        let name = p + ids[i];
        assert(name[p.len() - 1] == ':');
        lemma_colon_differs(name, f, p.len() - 1);
    }
}

/// Entries whose names start with `q` do not start with `p` when the two
/// prefixes differ in their first character.
proof fn lemma_block_other_prefix(q: Seq<char>, ids: Seq<Seq<char>>, p: Seq<char>)
    requires
        p.len() > 0,
        q.len() > 0,
        p[0] != q[0],
    ensures
        forall|i: int| 0 <= i < marker_entries(q, ids).len() ==> !p.is_prefix_of(
            #[trigger] marker_entries(q, ids)[i].0,
        ),
{
    assert forall|i: int| 0 <= i < marker_entries(q, ids).len() implies !p.is_prefix_of(
        #[trigger] marker_entries(q, ids)[i].0,
    ) by {
        let name = q + ids[i];
        assert(name[0] == q[0]);
        lemma_not_prefix_first(p, name);
    }
}

/// Storing a tracker and reading the entries back gives the same tracker,
/// when its counters fit 64 bits and no job list holds an identifier twice
/// (as every tracker the accounting produces).
pub proof fn lemma_tracker_hash_round_trip(s: TrackerState)
    requires
        counters_fit(s),
        s.batches.no_duplicates(),
        s.articles.no_duplicates(),
        s.article_jobs.no_duplicates(),
        s.delivery_jobs.no_duplicates(),
    ensures
        counters_valid(tracker_entries(s)),
        tracker_of_hash(tracker_entries(s)) == s,
{
    reveal_strlit("sourceId");
    reveal_strlit("startedAt");
    reveal_strlit("discovered");
    reveal_strlit("discoveryComplete");
    reveal_strlit("articleProcessed");
    reveal_strlit("deliveryExpected");
    reveal_strlit("deliveryProcessed");
    reveal_strlit("persisted");
    reveal_strlit("skipped");
    reveal_strlit("delivered");
    reveal_strlit("failed");
    reveal_strlit("terminalSent");
    reveal_strlit("processed");
    reveal_strlit("batch:");
    reveal_strlit("article:");
    reveal_strlit("job:");
    reveal_strlit("deliveryJob:");
    reveal_strlit("1");
    reveal_strlit("0");
    let e = tracker_entries(s);
    let sc = scalar_entries(s);
    let b = marker_entries("batch:"@, s.batches);
    let a = marker_entries("article:"@, s.articles);
    let j = marker_entries("job:"@, s.article_jobs);
    let d = marker_entries("deliveryJob:"@, s.delivery_jobs);
    assert(e =~= sc + b + a + j + d);
    let m = b + a + j + d;
    assert(e =~= sc + m);
    lemma_scalar_names_colon_free(s);
    // Reading a scalar field sees only the scalar entries.
    assert forall|f: Seq<char>| no_colon(f) implies #[trigger] hash_value(e, f) == hash_value(sc, f) by {
        lemma_block_names("batch:"@, s.batches, f);
        lemma_block_names("article:"@, s.articles, f);
        lemma_block_names("job:"@, s.article_jobs, f);
        lemma_block_names("deliveryJob:"@, s.delivery_jobs, f);
        assert forall|i: int| 0 <= i < m.len() implies (#[trigger] m[i]).0 != f by {
            if i < b.len() {
                assert(m[i] == b[i]);
            } else if i < b.len() + a.len() {
                assert(m[i] == a[i - b.len()]);
            } else if i < b.len() + a.len() + j.len() {
                assert(m[i] == j[i - b.len() - a.len()]);
            } else {
                assert(m[i] == d[i - b.len() - a.len() - j.len()]);
            }
        }
        lemma_hash_value_append(sc, m, f);
    }
    lemma_decimal_text_parses(s.discovered, u64::MAX as int);
    lemma_decimal_text_parses(s.article_processed, u64::MAX as int);
    lemma_decimal_text_parses(s.delivery_expected, u64::MAX as int);
    lemma_decimal_text_parses(s.delivery_processed, u64::MAX as int);
    lemma_decimal_text_parses(s.persisted, u64::MAX as int);
    lemma_decimal_text_parses(s.skipped, u64::MAX as int);
    lemma_decimal_text_parses(s.delivered, u64::MAX as int);
    lemma_decimal_text_parses(s.failed, u64::MAX as int);
    lemma_scalar_reads(s);
    assert(counters_valid(e)) by {
        assert forall|i: int| 0 <= i < 8 implies #[trigger] counter_value(counter_texts(e)[i]) is Some by {
        }
    }
    // The marker blocks read back in order.
    lemma_block_other_prefix("article:"@, s.articles, "batch:"@);
    lemma_block_other_prefix("job:"@, s.article_jobs, "batch:"@);
    lemma_block_other_prefix("deliveryJob:"@, s.delivery_jobs, "batch:"@);
    lemma_block_other_prefix("batch:"@, s.batches, "article:"@);
    lemma_block_other_prefix("job:"@, s.article_jobs, "article:"@);
    lemma_block_other_prefix("deliveryJob:"@, s.delivery_jobs, "article:"@);
    lemma_block_other_prefix("batch:"@, s.batches, "job:"@);
    lemma_block_other_prefix("article:"@, s.articles, "job:"@);
    lemma_block_other_prefix("deliveryJob:"@, s.delivery_jobs, "job:"@);
    lemma_block_other_prefix("batch:"@, s.batches, "deliveryJob:"@);
    lemma_block_other_prefix("article:"@, s.articles, "deliveryJob:"@);
    lemma_block_other_prefix("job:"@, s.article_jobs, "deliveryJob:"@);
    lemma_scalars_unmarked(s, "batch:"@);
    lemma_scalars_unmarked(s, "article:"@);
    lemma_scalars_unmarked(s, "job:"@);
    lemma_scalars_unmarked(s, "deliveryJob:"@);
    // batch
    lemma_marker_block(sc, "batch:"@, s.batches);
    assert forall|i: int| 0 <= i < (a + j + d).len() implies !"batch:"@.is_prefix_of(
        #[trigger] (a + j + d)[i].0,
    ) by {
        if i < a.len() {
            assert((a + j + d)[i] == a[i]);
        } else if i < a.len() + j.len() {
            assert((a + j + d)[i] == j[i - a.len()]);
        } else {
            assert((a + j + d)[i] == d[i - a.len() - j.len()]);
        }
    }
    lemma_marker_ids_append(sc + b, a + j + d, "batch:"@);
    assert(e =~= (sc + b) + (a + j + d));
    // article
    lemma_marker_ids_append(sc, b, "article:"@);
    lemma_marker_block(sc + b, "article:"@, s.articles);
    assert forall|i: int| 0 <= i < (j + d).len() implies !"article:"@.is_prefix_of(
        #[trigger] (j + d)[i].0,
    ) by {
        if i < j.len() {
            assert((j + d)[i] == j[i]);
        } else {
            assert((j + d)[i] == d[i - j.len()]);
        }
    }
    lemma_marker_ids_append(sc + b + a, j + d, "article:"@);
    assert(e =~= (sc + b + a) + (j + d));
    // job
    assert forall|i: int| 0 <= i < (b + a).len() implies !"job:"@.is_prefix_of(
        #[trigger] (b + a)[i].0,
    ) by {
        if i < b.len() {
            assert((b + a)[i] == b[i]);
        } else {
            assert((b + a)[i] == a[i - b.len()]);
        }
    }
    lemma_marker_ids_append(sc, b + a, "job:"@);
    assert(sc + b + a =~= sc + (b + a));
    lemma_marker_block(sc + b + a, "job:"@, s.article_jobs);
    lemma_marker_ids_append(sc + b + a + j, d, "job:"@);
    // delivery
    assert forall|i: int| 0 <= i < (b + a + j).len() implies !"deliveryJob:"@.is_prefix_of(
        #[trigger] (b + a + j)[i].0,
    ) by {
        if i < b.len() {
            assert((b + a + j)[i] == b[i]);
        } else if i < b.len() + a.len() {
            assert((b + a + j)[i] == a[i - b.len()]);
        } else {
            assert((b + a + j)[i] == j[i - b.len() - a.len()]);
        }
    }
    lemma_marker_ids_append(sc, b + a + j, "deliveryJob:"@);
    assert(sc + b + a + j =~= sc + (b + a + j));
    lemma_marker_block(sc + b + a + j, "deliveryJob:"@, s.delivery_jobs);
    assert("0"@[0] != "1"@[0]);
    assert(flag_value(Some(flag_text(s.discovery_complete))) == s.discovery_complete);
    assert(flag_value(Some(flag_text(s.terminal_sent))) == s.terminal_sent);
    assert(tracker_of_hash(e) =~= s);
}

/// No scalar entry starts with a marker prefix.
proof fn lemma_scalars_unmarked(s: TrackerState, p: Seq<char>)
    requires
        p.len() > 0,
        p.last() == ':',
        forall|i: int| 0 <= i < 12 ==> no_colon(#[trigger] scalar_entries(s)[i].0),
    ensures
        marker_ids(scalar_entries(s), p) == Seq::<Seq<char>>::empty(),
{
    let sc = scalar_entries(s);
    assert forall|i: int| 0 <= i < sc.len() implies !p.is_prefix_of(#[trigger] sc[i].0) by {
        lemma_not_prefix_colon(p, sc[i].0);
    }
    lemma_marker_ids_append(Seq::empty(), sc, p);
    assert(Seq::<(Seq<char>, Seq<char>)>::empty() + sc =~= sc);
}


/// The names of the scalar entries have no `:`.
proof fn lemma_scalar_names_colon_free(s: TrackerState)
    ensures
        forall|i: int| 0 <= i < 12 ==> no_colon(#[trigger] scalar_entries(s)[i].0),
{
    reveal_strlit("sourceId");
    reveal_strlit("startedAt");
    reveal_strlit("discovered");
    reveal_strlit("discoveryComplete");
    reveal_strlit("articleProcessed");
    reveal_strlit("deliveryExpected");
    reveal_strlit("deliveryProcessed");
    reveal_strlit("persisted");
    reveal_strlit("skipped");
    reveal_strlit("delivered");
    reveal_strlit("failed");
    reveal_strlit("terminalSent");
    reveal_with_fuel(colon_free, 18);
    let sc = scalar_entries(s);
    assert forall|i: int| 0 <= i < 12 implies no_colon(#[trigger] sc[i].0) by {
        assert(colon_free(sc[i].0));
        lemma_colon_free(sc[i].0);
    }
}

/// Each scalar field reads back from the scalar entries.
proof fn lemma_scalar_reads(s: TrackerState)
    ensures
        hash_value(scalar_entries(s), "sourceId"@) == Some(s.source_id),
        hash_value(scalar_entries(s), "startedAt"@) == Some(s.started_at),
        hash_value(scalar_entries(s), "discovered"@) == Some(decimal_text(s.discovered)),
        hash_value(scalar_entries(s), "discoveryComplete"@) == Some(flag_text(s.discovery_complete)),
        hash_value(scalar_entries(s), "articleProcessed"@) == Some(decimal_text(s.article_processed)),
        hash_value(scalar_entries(s), "deliveryExpected"@) == Some(decimal_text(s.delivery_expected)),
        hash_value(scalar_entries(s), "deliveryProcessed"@) == Some(decimal_text(s.delivery_processed)),
        hash_value(scalar_entries(s), "persisted"@) == Some(decimal_text(s.persisted)),
        hash_value(scalar_entries(s), "skipped"@) == Some(decimal_text(s.skipped)),
        hash_value(scalar_entries(s), "delivered"@) == Some(decimal_text(s.delivered)),
        hash_value(scalar_entries(s), "failed"@) == Some(decimal_text(s.failed)),
        hash_value(scalar_entries(s), "terminalSent"@) == Some(flag_text(s.terminal_sent)),
{
    reveal_strlit("sourceId");
    reveal_strlit("startedAt");
    reveal_strlit("discovered");
    reveal_strlit("discoveryComplete");
    reveal_strlit("articleProcessed");
    reveal_strlit("deliveryExpected");
    reveal_strlit("deliveryProcessed");
    reveal_strlit("persisted");
    reveal_strlit("skipped");
    reveal_strlit("delivered");
    reveal_strlit("failed");
    reveal_strlit("terminalSent");
    let sc = scalar_entries(s);
    let names = seq![
        "sourceId"@,
        "startedAt"@,
        "discovered"@,
        "discoveryComplete"@,
        "articleProcessed"@,
        "deliveryExpected"@,
        "deliveryProcessed"@,
        "persisted"@,
        "skipped"@,
        "delivered"@,
        "failed"@,
        "terminalSent"@,
    ];
    assert forall|i: int| 0 <= i < 12 implies #[trigger] sc[i].0 == names[i] by {
    }
    assert forall|i: int, j: int| 0 <= i < 12 && 0 <= j < 12 && i != j implies #[trigger] names[i]
        != #[trigger] names[j] by {
        if names[i] == names[j] {
            assert(names[i].len() == names[j].len());
            assert(names[i][0] == names[j][0]);
            assert(names[i][2] == names[j][2]);
            assert(names[i][6] == names[j][6]);
        }
    }
    lemma_hash_value_at(sc, 0, names[0]);
    lemma_hash_value_at(sc, 1, names[1]);
    lemma_hash_value_at(sc, 2, names[2]);
    lemma_hash_value_at(sc, 3, names[3]);
    lemma_hash_value_at(sc, 4, names[4]);
    lemma_hash_value_at(sc, 5, names[5]);
    lemma_hash_value_at(sc, 6, names[6]);
    lemma_hash_value_at(sc, 7, names[7]);
    lemma_hash_value_at(sc, 8, names[8]);
    lemma_hash_value_at(sc, 9, names[9]);
    lemma_hash_value_at(sc, 10, names[10]);
    lemma_hash_value_at(sc, 11, names[11]);
}

} // verus!
