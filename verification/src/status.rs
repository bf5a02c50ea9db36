//! The agent status report: the outbox's counts, each queue's jobs, and the
//! runs still open, as the lines the status command prints.

use vstd::prelude::*;

use crate::articles::OutboxStats;
use crate::bindings::{format_rfc3339, rfc3339_text_of};
use crate::domain::{instant_parts, instant_parts_of};
use crate::run_store::{OpenQueuedRun, QueuedRunReconciliation};
use crate::text::{append_str, decimal_string, decimal_string_wide, decimal_text, owned};

verus! {

/// The jobs of one queue, by state.
#[derive(Debug, Clone, PartialEq, Eq)]
pub struct QueueSnapshot {
    pub name: String,
    pub workers: usize,
    pub waiting: u64,
    pub active: u64,
    pub delayed: u64,
    pub prioritized: u64,
    pub completed: u64,
    pub failed: u64,
    pub waiting_children: u64,
    pub paused: u64,
}

/// A run still open, as the status report shows it.
#[derive(Debug, Clone, PartialEq, Eq)]
pub struct OpenRunStatus {
    pub run_id: String,
    pub source_id: String,
    /// Nanoseconds since the Unix epoch.
    pub started_at: i128,
    pub discovered: usize,
    pub processed: usize,
    pub deliveries_expected: usize,
    pub deliveries_processed: usize,
    pub persisted: usize,
    pub skipped: usize,
    pub delivered: usize,
    pub failed: usize,
}

/// An open run as the status report shows it.
pub fn open_run_status(run: &OpenQueuedRun) -> (r: OpenRunStatus)
    ensures
        r.run_id@ == run.run.run_id@,
        r.source_id@ == run.source_id@,
        r.started_at == run.run.started_at,
        r.discovered == run.metrics.articles_discovered,
        r.processed == run.articles_processed,
        r.deliveries_expected == run.deliveries_expected,
        r.deliveries_processed == run.deliveries_processed,
        r.persisted == run.metrics.articles_persisted,
        r.skipped == run.metrics.articles_skipped,
        r.delivered == run.metrics.articles_delivered,
        r.failed == run.metrics.articles_failed,
{
    OpenRunStatus {
        run_id: owned(run.run.run_id.as_str()),
        source_id: owned(run.source_id.as_str()),
        started_at: run.run.started_at,
        discovered: run.metrics.articles_discovered,
        processed: run.articles_processed,
        deliveries_expected: run.deliveries_expected,
        deliveries_processed: run.deliveries_processed,
        persisted: run.metrics.articles_persisted,
        skipped: run.metrics.articles_skipped,
        delivered: run.metrics.articles_delivered,
        failed: run.metrics.articles_failed,
    }
}

/// The queues and open runs of the agent's Redis.
#[derive(Debug, Clone, PartialEq, Eq)]
pub struct RedisStatus {
    pub queues: Vec<QueueSnapshot>,
    pub open_runs: Vec<OpenRunStatus>,
}

/// A run's accounting as the crawler reports it when a run is inspected.
#[derive(Debug, Clone, PartialEq, Eq)]
pub struct RunReconciliation {
    pub run_id: String,
    pub source_id: Option<String>,
    pub discovery_complete: Option<bool>,
    pub terminal: bool,
    pub discovered: usize,
    pub processed: Option<usize>,
    pub persisted: usize,
    pub skipped: Option<usize>,
    pub failed: usize,
    pub deliveries_expected: Option<usize>,
    pub deliveries_processed: Option<usize>,
    pub delivered: usize,
}

impl From<QueuedRunReconciliation> for RunReconciliation {
    fn from(value: QueuedRunReconciliation) -> (r: RunReconciliation) {
        RunReconciliation {
            run_id: value.run_id,
            source_id: value.source_id,
            discovery_complete: value.discovery_complete,
            terminal: value.terminal,
            discovered: value.discovered,
            processed: value.processed,
            persisted: value.persisted,
            skipped: value.skipped,
            failed: value.failed,
            deliveries_expected: value.deliveries_expected,
            deliveries_processed: value.deliveries_processed,
            delivered: value.delivered,
        }
    }
}

impl vstd::std_specs::convert::FromSpecImpl<QueuedRunReconciliation> for RunReconciliation {
    open spec fn obeys_from_spec() -> bool {
        true
    }

    open spec fn from_spec(value: QueuedRunReconciliation) -> RunReconciliation {
        RunReconciliation {
            run_id: value.run_id,
            source_id: value.source_id,
            discovery_complete: value.discovery_complete,
            terminal: value.terminal,
            discovered: value.discovered,
            processed: value.processed,
            persisted: value.persisted,
            skipped: value.skipped,
            failed: value.failed,
            deliveries_expected: value.deliveries_expected,
            deliveries_processed: value.deliveries_processed,
            delivered: value.delivered,
        }
    }
}

/// What the status command reports; each part may be unavailable.
#[derive(Debug, PartialEq, Eq)]
pub struct CrawlerStatus {
    pub agent_id: String,
    pub sqlite_path: String,
    pub outbox: Result<OutboxStats, String>,
    pub redis: Result<RedisStatus, String>,
}

pub open spec fn num(n: nat) -> Seq<char> {
    decimal_text(n)
}

/// An instant's RFC 3339 text (empty when it cannot be represented).
pub open spec fn instant_text(t: int) -> Seq<char> {
    match instant_parts(t) {
        Some((s, n)) => match rfc3339_text_of(s, n) {
            Some(x) => x,
            None => Seq::empty(),
        },
        None => Seq::empty(),
    }
}

pub open spec fn outbox_lines(outbox: Result<OutboxStats, String>) -> Seq<Seq<char>> {
    match outbox {
        Ok(o) => seq![
            "  State:  available"@,
            "  Rows:   "@ + num(o.total as nat) + " total | "@ + num(o.pending as nat) + " pending | "@
                + num(o.forwarded as nat) + " forwarded | "@ + num(o.failed as nat) + " failed | "@
                + num(o.claimed as nat) + " claimed"@,
            "  Retryable failures: "@ + num(o.retryable_failed as nat),
            "  Delivery intents: "@ + num(o.delivery_intents_pending as nat) + " pending | "@ + num(
                o.delivery_intents_failed as nat,
            ) + " failed"@,
        ],
        Err(e) => seq!["  State:  unavailable ("@ + e@ + ")"@],
    }
}

pub open spec fn queue_lines(q: QueueSnapshot) -> Seq<Seq<char>> {
    let head = seq![
        "  "@ + q.name@,
        "    workers "@ + num(q.workers as nat) + " | waiting "@ + num((q.waiting + q.paused) as nat)
            + " | active "@ + num(q.active as nat) + " | delayed "@ + num(q.delayed as nat)
            + " | failed "@ + num(q.failed as nat) + " | completed "@ + num(q.completed as nat),
    ];
    if q.prioritized > 0 || q.waiting_children > 0 {
        head.push(
            "    prioritized "@ + num(q.prioritized as nat) + " | waiting for children "@ + num(
                q.waiting_children as nat,
            ),
        )
    } else {
        head
    }
}

pub open spec fn run_lines(r: OpenRunStatus) -> Seq<Seq<char>> {
    seq![
        "    "@ + r.source_id@ + " | "@ + r.run_id@ + " | started "@ + instant_text(r.started_at as int),
        "      discovered "@ + num(r.discovered as nat) + " | processed "@ + num(r.processed as nat)
            + " | persisted "@ + num(r.persisted as nat) + " | delivered "@ + num(r.delivered as nat)
            + " | failed "@ + num(r.failed as nat),
        "      delivery jobs "@ + num(r.deliveries_expected as nat) + " expected | "@ + num(
            r.deliveries_processed as nat,
        ) + " processed"@,
    ]
}

pub open spec fn all_queue_lines(qs: Seq<QueueSnapshot>) -> Seq<Seq<char>>
    decreases qs.len(),
{
    if qs.len() == 0 {
        Seq::empty()
    } else {
        all_queue_lines(qs.drop_last()) + queue_lines(qs.last())
    }
}

pub open spec fn all_run_lines(rs: Seq<OpenRunStatus>) -> Seq<Seq<char>>
    decreases rs.len(),
{
    if rs.len() == 0 {
        Seq::empty()
    } else {
        all_run_lines(rs.drop_last()) + run_lines(rs.last())
    }
}

pub open spec fn redis_lines(redis: Result<RedisStatus, String>) -> Seq<Seq<char>> {
    match redis {
        Ok(r) => seq!["  State:  connected"@] + all_queue_lines(r.queues@) + seq![
            "  Open runs: "@ + num(r.open_runs@.len()),
        ] + all_run_lines(r.open_runs@),
        Err(e) => seq!["  State:  unavailable ("@ + e@ + ")"@],
    }
}

/// The lines of the status report.
pub open spec fn status_text(s: CrawlerStatus) -> Seq<Seq<char>> {
    seq!["Crawler status"@, "  Agent:  "@ + s.agent_id@, ""@, "SQLite"@, "  Path:   "@ + s.sqlite_path@]
        + outbox_lines(s.outbox) + seq![""@, "Redis"@] + redis_lines(s.redis)
}

fn line(parts: &Vec<&str>) -> (r: String)
    ensures
        r@ == concat_all(parts@),
{
    let mut r = String::new();
    let mut i: usize = 0;
    while i < parts.len()
        invariant
            i <= parts.len(),
            r@ == concat_all(parts@.take(i as int)),
        decreases parts.len() - i,
    {
        append_str(&mut r, parts[i]);
        assert(parts@.take(i + 1).drop_last() =~= parts@.take(i as int));
        i = i + 1;
    }
    assert(parts@.take(parts.len() as int) =~= parts@);
    r
}

/// The texts one after another.
pub open spec fn concat_all(parts: Seq<&str>) -> Seq<char>
    decreases parts.len(),
{
    if parts.len() == 0 {
        Seq::empty()
    } else {
        concat_all(parts.drop_last()) + parts.last()@
    }
}

fn push_line(lines: &mut Vec<String>, l: String)
    ensures
        line_views(final(lines)@) == line_views(old(lines)@).push(l@),
{
    let ghost before = lines@;
    lines.push(l);
    assert(line_views(lines@) =~= line_views(before).push(l@));
}

fn instant_string(t: i128) -> (r: String)
    ensures
        r@ == instant_text(t as int),
{
    match instant_parts_of(t) {
        Some((s, n)) => match format_rfc3339(s, n) {
            Some(text) => text,
            None => String::new(),
        },
        None => String::new(),
    }
}

pub open spec fn line_views(v: Seq<String>) -> Seq<Seq<char>> {
    v.map_values(|t: String| t@)
}

fn outbox_section(lines: &mut Vec<String>, outbox: &Result<OutboxStats, String>)
    ensures
        line_views(final(lines)@) == line_views(old(lines)@) + outbox_lines(*outbox),
{
    let ghost start = line_views(lines@);
    match outbox {
        Ok(o) => {
            push_line(lines, owned("  State:  available"));
            let total = decimal_string(o.total as u64);
            let pending = decimal_string(o.pending as u64);
            let forwarded = decimal_string(o.forwarded as u64);
            let failed = decimal_string(o.failed as u64);
            let claimed = decimal_string(o.claimed as u64);
            let parts = vec![
                "  Rows:   ",
                total.as_str(),
                " total | ",
                pending.as_str(),
                " pending | ",
                forwarded.as_str(),
                " forwarded | ",
                failed.as_str(),
                " failed | ",
                claimed.as_str(),
                " claimed",
            ];
            let rows = line(&parts);
            proof {
                reveal_with_fuel(concat_all, 12);
            }
            push_line(lines, rows);
            let retryable = decimal_string(o.retryable_failed as u64);
            let mut l = owned("  Retryable failures: ");
            append_str(&mut l, retryable.as_str());
            push_line(lines, l);
            let ip = decimal_string(o.delivery_intents_pending as u64);
            let iff = decimal_string(o.delivery_intents_failed as u64);
            let parts2 = vec!["  Delivery intents: ", ip.as_str(), " pending | ", iff.as_str(), " failed"];
            let intents = line(&parts2);
            proof {
                reveal_with_fuel(concat_all, 6);
            }
            push_line(lines, intents);
            assert(line_views(lines@) =~= start + outbox_lines(*outbox));
        },
        Err(e) => {
            let parts = vec!["  State:  unavailable (", e.as_str(), ")"];
            let l = line(&parts);
            proof {
                reveal_with_fuel(concat_all, 4);
            }
            push_line(lines, l);
            assert(line_views(lines@) =~= start + outbox_lines(*outbox));
        },
    }
}

fn queue_section(lines: &mut Vec<String>, q: &QueueSnapshot)
    ensures
        line_views(final(lines)@) == line_views(old(lines)@) + queue_lines(*q),
{
    let ghost start = line_views(lines@);
    let mut head = owned("  ");
    append_str(&mut head, q.name.as_str());
    push_line(lines, head);
    let workers = decimal_string(q.workers as u64);
    let waiting = decimal_string_wide(q.waiting as u128 + q.paused as u128);
    let active = decimal_string(q.active);
    let delayed = decimal_string(q.delayed);
    let failed = decimal_string(q.failed);
    let completed = decimal_string(q.completed);
    let parts = vec![
        "    workers ",
        workers.as_str(),
        " | waiting ",
        waiting.as_str(),
        " | active ",
        active.as_str(),
        " | delayed ",
        delayed.as_str(),
        " | failed ",
        failed.as_str(),
        " | completed ",
        completed.as_str(),
    ];
    let counts = line(&parts);
    proof {
        reveal_with_fuel(concat_all, 13);
    }
    push_line(lines, counts);
    if q.prioritized > 0 || q.waiting_children > 0 {
        let prioritized = decimal_string(q.prioritized);
        let children = decimal_string(q.waiting_children);
        let parts2 = vec![
            "    prioritized ",
            prioritized.as_str(),
            " | waiting for children ",
            children.as_str(),
        ];
        let extra = line(&parts2);
        proof {
            reveal_with_fuel(concat_all, 5);
        }
        push_line(lines, extra);
    }
    assert(line_views(lines@) =~= start + queue_lines(*q));
}

fn run_section(lines: &mut Vec<String>, r: &OpenRunStatus)
    ensures
        line_views(final(lines)@) == line_views(old(lines)@) + run_lines(*r),
{
    let ghost start = line_views(lines@);
    let started = instant_string(r.started_at);
    let parts = vec![
        "    ",
        r.source_id.as_str(),
        " | ",
        r.run_id.as_str(),
        " | started ",
        started.as_str(),
    ];
    let first = line(&parts);
    proof {
        reveal_with_fuel(concat_all, 7);
    }
    push_line(lines, first);
    let discovered = decimal_string(r.discovered as u64);
    let processed = decimal_string(r.processed as u64);
    let persisted = decimal_string(r.persisted as u64);
    let delivered = decimal_string(r.delivered as u64);
    let failed = decimal_string(r.failed as u64);
    let parts2 = vec![
        "      discovered ",
        discovered.as_str(),
        " | processed ",
        processed.as_str(),
        " | persisted ",
        persisted.as_str(),
        " | delivered ",
        delivered.as_str(),
        " | failed ",
        failed.as_str(),
    ];
    let second = line(&parts2);
    proof {
        reveal_with_fuel(concat_all, 11);
    }
    push_line(lines, second);
    let expected = decimal_string(r.deliveries_expected as u64);
    let done = decimal_string(r.deliveries_processed as u64);
    let parts3 = vec!["      delivery jobs ", expected.as_str(), " expected | ", done.as_str(), " processed"];
    let third = line(&parts3);
    proof {
        reveal_with_fuel(concat_all, 6);
    }
    push_line(lines, third);
    assert(line_views(lines@) =~= start + run_lines(*r));
}

fn redis_section(lines: &mut Vec<String>, redis: &Result<RedisStatus, String>)
    ensures
        line_views(final(lines)@) == line_views(old(lines)@) + redis_lines(*redis),
{
    let ghost start = line_views(lines@);
    match redis {
        Ok(r) => {
            push_line(lines, owned("  State:  connected"));
            let ghost after_state = line_views(lines@);
            let mut i: usize = 0;
            while i < r.queues.len()
                invariant
                    i <= r.queues.len(),
                    line_views(lines@) == after_state + all_queue_lines(r.queues@.take(i as int)),
                decreases r.queues.len() - i,
            {
                queue_section(lines, &r.queues[i]);
                assert(r.queues@.take(i + 1).drop_last() =~= r.queues@.take(i as int));
                i = i + 1;
            }
            assert(r.queues@.take(r.queues.len() as int) =~= r.queues@);
            let count = decimal_string(r.open_runs.len() as u64);
            let mut l = owned("  Open runs: ");
            append_str(&mut l, count.as_str());
            push_line(lines, l);
            let ghost after_count = line_views(lines@);
            let mut k: usize = 0;
            while k < r.open_runs.len()
                invariant
                    k <= r.open_runs.len(),
                    line_views(lines@) == after_count + all_run_lines(r.open_runs@.take(k as int)),
                decreases r.open_runs.len() - k,
            {
                run_section(lines, &r.open_runs[k]);
                assert(r.open_runs@.take(k + 1).drop_last() =~= r.open_runs@.take(k as int));
                k = k + 1;
            }
            assert(r.open_runs@.take(r.open_runs.len() as int) =~= r.open_runs@);
            assert(line_views(lines@) =~= start + redis_lines(*redis));
        },
        Err(e) => {
            let parts = vec!["  State:  unavailable (", e.as_str(), ")"];
            let l = line(&parts);
            proof {
                reveal_with_fuel(concat_all, 4);
            }
            push_line(lines, l);
            assert(line_views(lines@) =~= start + redis_lines(*redis));
        },
    }
}

/// The lines the status command prints.
pub fn status_lines(status: &CrawlerStatus) -> (r: Vec<String>)
    ensures
        line_views(r@) == status_text(*status),
{
    let mut lines: Vec<String> = Vec::new();
    assert(line_views(lines@) =~= Seq::<Seq<char>>::empty());
    push_line(&mut lines, owned("Crawler status"));
    let mut agent = owned("  Agent:  ");
    append_str(&mut agent, status.agent_id.as_str());
    push_line(&mut lines, agent);
    push_line(&mut lines, String::new());
    push_line(&mut lines, owned("SQLite"));
    let mut path = owned("  Path:   ");
    append_str(&mut path, status.sqlite_path.as_str());
    push_line(&mut lines, path);
    proof {
        reveal_strlit("");
    }
    let ghost head = line_views(lines@);
    assert(head.len() == 5);
    assert(head[0] == "Crawler status"@);
    assert(head[1] == "  Agent:  "@ + status.agent_id@);
    assert(head[2] == ""@);
    assert(head[3] == "SQLite"@);
    assert(head[4] == "  Path:   "@ + status.sqlite_path@);
    assert(head =~= seq![
        "Crawler status"@,
        "  Agent:  "@ + status.agent_id@,
        ""@,
        "SQLite"@,
        "  Path:   "@ + status.sqlite_path@,
    ]);
    outbox_section(&mut lines, &status.outbox);
    push_line(&mut lines, String::new());
    push_line(&mut lines, owned("Redis"));
    let ghost middle = line_views(lines@);
    assert(middle =~= head + outbox_lines(status.outbox) + seq![""@, "Redis"@]);
    redis_section(&mut lines, &status.redis);
    assert(line_views(lines@) =~= middle + redis_lines(status.redis));
    lines
}

} // verus!
