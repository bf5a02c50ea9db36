//! Queue naming, job identities and retention, and the decoding of run
//! progress values.
//!
//! Each agent's queues and progress trackers are scoped by an encoding of its
//! identifier, so several agents can share one Redis without seeing each
//! other's work.

use vstd::prelude::*;

use crate::bindings::{md5_digest, md5_of};
use crate::config::QueueConfig;
use crate::error::{concat3, CrawlError};
use crate::text::{
    append_str, contains_string, decimal_string, decimal_text, hex_digit, hex_lower, hex_string,
    owned, parse_unsigned, parse_usize, push_char, str_eq, views,
};
use vstd::utf8::{decode_utf8, encode_utf8};

verus! {

// --- Agent scope ------------------------------------------------------------------

/// Bytes kept as they are in an agent scope.
pub open spec fn scope_keeps(b: u8) -> bool {
    (48 <= b && b <= 57) || (65 <= b && b <= 90) || (97 <= b && b <= 122) || b == 45 || b == 46
}

/// Each kept byte as its character; any other byte as `_` and two
/// lower-case hexadecimal digits.
pub open spec fn escape_bytes(bytes: Seq<u8>) -> Seq<char>
    decreases bytes.len(),
{
    if bytes.len() == 0 {
        Seq::empty()
    } else {
        let rest = escape_bytes(bytes.drop_last());
        let b = bytes.last();
        if scope_keeps(b) {
            rest.push(b as char)
        } else {
            rest.push('_').push(hex_digit((b / 16) as int)).push(hex_digit((b % 16) as int))
        }
    }
}

/// The scope of an agent identifier: its UTF-8 bytes escaped, or `agent`
/// when the identifier is empty.
pub open spec fn agent_scope_of(agent_id: Seq<char>) -> Seq<char> {
    let e = escape_bytes(encode_utf8(agent_id));
    if e.len() == 0 {
        "agent"@
    } else {
        e
    }
}

/// The value of a lower-case hexadecimal digit.
pub open spec fn hex_value(c: char) -> int {
    if c <= '9' {
        c as int - 48
    } else {
        c as int - 87
    }
}

/// Reads an escaped scope back into bytes: `_` and two hexadecimal digits
/// stand for one byte, any other character for its own code.
pub open spec fn unescape(cs: Seq<char>) -> Seq<u8>
    decreases cs.len(),
{
    if cs.len() == 0 {
        Seq::empty()
    } else if cs[0] == '_' && cs.len() >= 3 {
        seq![(hex_value(cs[1]) * 16 + hex_value(cs[2])) as u8] + unescape(cs.subrange(3, cs.len() as int))
    } else {
        seq![cs[0] as u8] + unescape(cs.drop_first())
    }
}

proof fn lemma_escape_concat(a: Seq<u8>, b: Seq<u8>)
    ensures
        escape_bytes(a + b) == escape_bytes(a) + escape_bytes(b),
    decreases b.len(),
{
    if b.len() == 0 {
        assert(a + b =~= a);
        assert(escape_bytes(a) + escape_bytes(b) =~= escape_bytes(a));
    } else {
        lemma_escape_concat(a, b.drop_last());
        assert((a + b).drop_last() =~= a + b.drop_last());
        assert((a + b).last() == b.last());
        let x = b.last();
        if scope_keeps(x) {
            assert(escape_bytes(a) + escape_bytes(b) =~= (escape_bytes(a) + escape_bytes(b.drop_last())).push(
                x as char,
            ));
        } else {
            assert(escape_bytes(a) + escape_bytes(b) =~= (escape_bytes(a) + escape_bytes(b.drop_last())).push(
                '_',
            ).push(hex_digit((x / 16) as int)).push(hex_digit((x % 16) as int)));
        }
    }
}

proof fn lemma_hex_round_trip(d: int)
    requires
        0 <= d < 16,
    ensures
        hex_value(hex_digit(d)) == d,
{
}

proof fn lemma_unescape_escape(bytes: Seq<u8>)
    ensures
        unescape(escape_bytes(bytes)) == bytes,
    decreases bytes.len(),
{
    if bytes.len() > 0 {
        let x = bytes[0];
        let rest = bytes.drop_first();
        assert(bytes =~= seq![x] + rest);
        lemma_escape_concat(seq![x], rest);
        assert(seq![x].drop_last() =~= Seq::<u8>::empty());
        assert(seq![x].last() == x);
        assert(escape_bytes(Seq::<u8>::empty()) =~= Seq::<char>::empty());
        lemma_unescape_escape(rest);
        let e = escape_bytes(seq![x]) + escape_bytes(rest);
        if scope_keeps(x) {
            assert(escape_bytes(seq![x]) =~= seq![x as char]);
            assert(e[0] == x as char);
            assert(e.drop_first() =~= escape_bytes(rest));
            assert(unescape(e) =~= seq![x] + rest);
        } else {
            assert(escape_bytes(seq![x]) =~= seq!['_', hex_digit((x / 16) as int), hex_digit((x % 16) as int)]);
            lemma_hex_round_trip((x / 16) as int);
            lemma_hex_round_trip((x % 16) as int);
            assert(e[0] == '_' && e.len() >= 3);
            assert(e.subrange(3, e.len() as int) =~= escape_bytes(rest));
            assert((hex_value(e[1]) * 16 + hex_value(e[2])) as u8 == x);
            assert(unescape(e) =~= seq![x] + rest);
        }
    }
}

/// Different agents never share a scope, so their queues and run trackers
/// stay apart in one Redis.
pub proof fn lemma_agent_scopes_are_distinct(a: Seq<char>, b: Seq<char>)
    requires
        a.len() > 0,
        b.len() > 0,
        agent_scope_of(a) == agent_scope_of(b),
    ensures
        a == b,
{
    broadcast use vstd::utf8::encode_utf8_decode_utf8;

    let ea = encode_utf8(a);
    let eb = encode_utf8(b);
    assert(decode_utf8(ea) == a);
    assert(decode_utf8(eb) == b);
    if ea.len() == 0 {
        assert(ea =~= Seq::<u8>::empty());
        assert(decode_utf8(ea) =~= Seq::<char>::empty());
    }
    if eb.len() == 0 {
        assert(eb =~= Seq::<u8>::empty());
        assert(decode_utf8(eb) =~= Seq::<char>::empty());
    }
    assert(escape_bytes(ea).len() > 0);
    assert(escape_bytes(eb).len() > 0);
    lemma_unescape_escape(ea);
    lemma_unescape_escape(eb);
}

/// Encodes an agent identifier for use in queue and key names.
pub fn encode_agent_id(agent_id: &str) -> (r: String)
    ensures
        r@ == agent_scope_of(agent_id@),
{
    let bytes = agent_id.as_bytes();
    let mut encoded = String::new();
    let mut i: usize = 0;
    while i < bytes.len()
        invariant
            i <= bytes.len(),
            bytes@ == encode_utf8(agent_id@),
            encoded@ == escape_bytes(bytes@.take(i as int)),
        decreases bytes.len() - i,
    {
        let b = bytes[i];
        assert(bytes@.take(i + 1).drop_last() =~= bytes@.take(i as int));
        if (48 <= b && b <= 57) || (65 <= b && b <= 90) || (97 <= b && b <= 122) || b == 45 || b
            == 46 {
            push_char(&mut encoded, b as char);
        } else {
            push_char(&mut encoded, '_');
            let pair = hex_string(&vec_of_byte(b));
            proof {
                reveal_with_fuel(hex_lower, 2);
                assert(seq![b].drop_last() =~= Seq::<u8>::empty());
            }
            append_str(&mut encoded, pair.as_str());
            assert(encoded@ =~= escape_bytes(bytes@.take(i as int)).push('_').push(
                hex_digit((b / 16) as int),
            ).push(hex_digit((b % 16) as int)));
        }
        i = i + 1;
    }
    assert(bytes@.take(bytes.len() as int) =~= bytes@);
    if encoded.as_str().is_empty() {
        owned("agent")
    } else {
        encoded
    }
}

fn vec_of_byte(b: u8) -> (v: Vec<u8>)
    ensures
        v@ == seq![b],
{
    let mut v: Vec<u8> = Vec::new();
    v.push(b);
    v
}

/// `{agent_scope}-{queue_name}`.
pub fn scoped_queue_name(agent_scope: &str, queue_name: &str) -> (r: String)
    ensures
        r@ == agent_scope@ + "-"@ + queue_name@,
{
    concat3(agent_scope, "-", queue_name)
}

// --- Job identities and retention --------------------------------------------------

/// A job identity: the prefix, `-`, and the hex MD5 of the job's serialized
/// identity. Equal identities give equal job identifiers, so enqueueing the
/// same work twice is deduplicated by the queue.
pub fn stable_job_id(prefix: &str, serialized: &[u8]) -> (r: String)
    ensures
        r@ == prefix@ + "-"@ + hex_lower(md5_of(serialized@)),
{
    let digest = md5_digest(serialized);
    let hex = hex_string(&digest);
    concat3(prefix, "-", hex.as_str())
}

/// How many times a job is attempted before it fails for good.
pub const JOB_ATTEMPTS: u32 = 3;

/// The first retry delay of a job, in milliseconds; later ones grow
/// exponentially.
pub const RETRY_DELAY_MS: u64 = 1_000;

/// How long a run tracker outlives its last update, in seconds (a week).
pub const RUN_PROGRESS_TTL_SECONDS: u64 = 604_800;

/// The least time between two progress signals of one run, in milliseconds.
pub const PROGRESS_PUBLISH_INTERVAL_MS: u64 = 5_000;

/// What happens to a finished job.
#[derive(Debug, Clone, Copy, PartialEq, Eq, Structural)]
pub enum JobRetentionPolicy {
    /// Removed as soon as it finishes.
    RemoveImmediately,
    /// Kept for `age_ms` milliseconds, at most `limit` jobs.
    Keep { age_ms: u64, limit: u64 },
}

/// Zero seconds removes jobs immediately; otherwise they are kept for that
/// long (in milliseconds, truncated to 64 bits), at most 1000 of them.
pub fn retention(seconds: u64) -> (r: JobRetentionPolicy)
    ensures
        seconds == 0 ==> r == JobRetentionPolicy::RemoveImmediately,
        seconds > 0 ==> r == (JobRetentionPolicy::Keep {
            age_ms: ((seconds as nat * 1000) % 0x1_0000_0000_0000_0000) as u64,
            limit: 1000,
        }),
{
    if seconds == 0 {
        JobRetentionPolicy::RemoveImmediately
    } else {
        JobRetentionPolicy::Keep { age_ms: seconds.wrapping_mul(1000), limit: 1000 }
    }
}

// --- The agent's queues ------------------------------------------------------------

/// The names under which one agent's discovery, article and delivery jobs
/// are queued, and the keys of its progress trackers.
#[derive(Debug, Clone, PartialEq, Eq)]
pub struct JobQueue {
    pub config: QueueConfig,
    pub agent_id: String,
    pub agent_scope: String,
    pub discovery_name: String,
    pub articles_name: String,
    pub delivery_name: String,
}

impl JobQueue {
    /// The naming of an agent's queues under a queue configuration.
    pub fn new(config: QueueConfig, agent_id: &str) -> (r: JobQueue)
        ensures
            r.config == config,
            r.agent_id@ == agent_id@,
            r.agent_scope@ == agent_scope_of(agent_id@),
            r.discovery_name@ == agent_scope_of(agent_id@) + "-"@ + config.queues.discovery@,
            r.articles_name@ == agent_scope_of(agent_id@) + "-"@ + config.queues.articles@,
            r.delivery_name@ == agent_scope_of(agent_id@) + "-"@ + config.queues.delivery@,
    {
        let agent_scope = encode_agent_id(agent_id);
        let discovery_name = scoped_queue_name(agent_scope.as_str(), config.queues.discovery.as_str());
        let articles_name = scoped_queue_name(agent_scope.as_str(), config.queues.articles.as_str());
        let delivery_name = scoped_queue_name(agent_scope.as_str(), config.queues.delivery.as_str());
        JobQueue {
            config,
            agent_id: owned(agent_id),
            agent_scope,
            discovery_name,
            articles_name,
            delivery_name,
        }
    }

    /// The scoped discovery, article and delivery queue names.
    pub fn names(&self) -> (r: [&str; 3])
        ensures
            r@[0]@ == self.discovery_name@,
            r@[1]@ == self.articles_name@,
            r@[2]@ == self.delivery_name@,
    {
        [self.discovery_name.as_str(), self.articles_name.as_str(), self.delivery_name.as_str()]
    }

    pub open spec fn scoped_names(&self) -> Seq<Seq<char>> {
        seq![self.discovery_name@, self.articles_name@, self.delivery_name@]
    }

    pub open spec fn base_names(&self) -> Seq<Seq<char>> {
        seq![
            self.config.queues.discovery@,
            self.config.queues.articles@,
            self.config.queues.delivery@,
        ]
    }

    pub open spec fn known_name(&self, name: Seq<char>) -> bool {
        self.scoped_names().contains(name) || self.base_names().contains(name)
    }

    fn is_known(&self, name: &String) -> (r: bool)
        ensures
            r == self.known_name(name@),
    {
        let n = name.as_str();
        let r = str_eq(n, self.discovery_name.as_str()) || str_eq(n, self.articles_name.as_str())
            || str_eq(n, self.delivery_name.as_str()) || str_eq(n, self.config.queues.discovery.as_str())
            || str_eq(n, self.config.queues.articles.as_str()) || str_eq(
            n,
            self.config.queues.delivery.as_str(),
        );
        proof {
            if r {
                if name@ == self.discovery_name@ {
                    assert(self.scoped_names()[0] == name@);
                } else if name@ == self.articles_name@ {
                    assert(self.scoped_names()[1] == name@);
                } else if name@ == self.delivery_name@ {
                    assert(self.scoped_names()[2] == name@);
                } else if name@ == self.config.queues.discovery@ {
                    assert(self.base_names()[0] == name@);
                } else if name@ == self.config.queues.articles@ {
                    assert(self.base_names()[1] == name@);
                } else {
                    assert(self.base_names()[2] == name@);
                }
            }
        }
        r
    }

    /// The message for the first requested name that is not one of the
    /// agent's queues: `unknown queue '{name}'; expected {discovery},
    /// {articles}, or {delivery}`.
    pub open spec fn unknown_queue_error(&self, names: Seq<String>, message: Seq<char>) -> bool {
        exists|i: int|
            0 <= i < names.len() && !self.known_name(names[i]@) && message == "unknown queue '"@
                + names[i]@ + "'; expected "@ + self.base_names()[0] + ", "@ + self.base_names()[1]
                + ", or "@ + self.base_names()[2] && forall|j: int|
                0 <= j < i ==> self.known_name(#[trigger] names[j]@)
    }

    /// Every requested queue must be one of the agent's queues, named either
    /// scoped or by its configured base name.
    pub fn validate_names(&self, names: &Vec<String>) -> (r: Result<(), CrawlError>)
        ensures
            r is Ok <==> forall|i: int| 0 <= i < names.len() ==> self.known_name(#[trigger] names@[i]@),
            r matches Err(e) ==> e is Queue && self.unknown_queue_error(names@, e->Queue_0@),
    {
        let mut i: usize = 0;
        while i < names.len()
            invariant
                i <= names.len(),
                forall|j: int| 0 <= j < i ==> self.known_name(#[trigger] names@[j]@),
            decreases names.len() - i,
        {
            if !self.is_known(&names[i]) {
                let mut message = concat3("unknown queue '", names[i].as_str(), "'; expected ");
                append_str(&mut message, self.config.queues.discovery.as_str());
                append_str(&mut message, ", ");
                append_str(&mut message, self.config.queues.articles.as_str());
                append_str(&mut message, ", or ");
                append_str(&mut message, self.config.queues.delivery.as_str());
                return Err(CrawlError::Queue(message));
            }
            i = i + 1;
        }
        Ok(())
    }

    /// The scoped name a requested queue stands for: base names map to their
    /// scoped names, other names stay as they are.
    pub open spec fn resolved(&self, name: Seq<char>) -> Seq<char> {
        if name == self.config.queues.discovery@ {
            self.discovery_name@
        } else if name == self.config.queues.articles@ {
            self.articles_name@
        } else if name == self.config.queues.delivery@ {
            self.delivery_name@
        } else {
            name
        }
    }

    pub fn resolve_names(&self, names: &Vec<String>) -> (r: Vec<String>)
        ensures
            r.len() == names.len(),
            forall|i: int| 0 <= i < names.len() ==> r@[i]@ == self.resolved(#[trigger] names@[i]@),
    {
        let mut r: Vec<String> = Vec::new();
        let mut i: usize = 0;
        while i < names.len()
            invariant
                i <= names.len(),
                r.len() == i,
                forall|j: int| 0 <= j < i ==> r@[j]@ == self.resolved(#[trigger] names@[j]@),
            decreases names.len() - i,
        {
            let name = names[i].as_str();
            let resolved = if str_eq(name, self.config.queues.discovery.as_str()) {
                owned(self.discovery_name.as_str())
            } else if str_eq(name, self.config.queues.articles.as_str()) {
                owned(self.articles_name.as_str())
            } else if str_eq(name, self.config.queues.delivery.as_str()) {
                owned(self.delivery_name.as_str())
            } else {
                owned(name)
            };
            r.push(resolved);
            i = i + 1;
        }
        r
    }

    /// `{prefix}:telemetry:{scope}:run:{run_id}`: the key of a run's tracker.
    pub fn run_progress_key(&self, run_id: &str) -> (r: String)
        ensures
            r@ == self.config.prefix@ + ":telemetry:"@ + self.agent_scope@ + ":run:"@ + run_id@,
    {
        let mut r = concat3(self.config.prefix.as_str(), ":telemetry:", self.agent_scope.as_str());
        append_str(&mut r, ":run:");
        append_str(&mut r, run_id);
        r
    }

    /// The pattern matching every tracker of this agent.
    pub fn run_progress_pattern(&self) -> (r: String)
        ensures
            r@ == self.config.prefix@ + ":telemetry:"@ + self.agent_scope@ + ":run:*"@,
    {
        let mut r = concat3(self.config.prefix.as_str(), ":telemetry:", self.agent_scope.as_str());
        append_str(&mut r, ":run:*");
        r
    }

    /// The key that rate-limits progress publication for a run.
    pub fn progress_publication_key(&self, run_id: &str) -> (r: String)
        ensures
            r@ == self.config.prefix@ + ":telemetry:"@ + self.agent_scope@
                + ":progress-publication:"@ + run_id@,
    {
        let mut r = concat3(self.config.prefix.as_str(), ":telemetry:", self.agent_scope.as_str());
        append_str(&mut r, ":progress-publication:");
        append_str(&mut r, run_id);
        r
    }
}

} // verus!

verus! {

impl JobQueue {
    /// The queues a worker consumes: all of the agent's queues when none
    /// are named; otherwise the named ones, checked and resolved to their
    /// scoped names.
    pub fn worker_queues(&self, requested: &Vec<String>) -> (r: Result<Vec<String>, CrawlError>)
        ensures
            requested@.len() == 0 ==> (r matches Ok(v) && views(v@) == self.scoped_names()),
            requested@.len() > 0 ==> (r is Ok <==> forall|i: int|
                0 <= i < requested@.len() ==> self.known_name(#[trigger] requested@[i]@)),
            requested@.len() > 0 ==> (r matches Ok(v) ==> v@.len() == requested@.len() && forall|i: int|
                0 <= i < requested@.len() ==> #[trigger] v@[i]@ == self.resolved(requested@[i]@)),
            r matches Err(e) ==> e is Queue && self.unknown_queue_error(requested@, e->Queue_0@),
    {
        if requested.len() == 0 {
            let mut v: Vec<String> = Vec::new();
            v.push(owned(self.discovery_name.as_str()));
            v.push(owned(self.articles_name.as_str()));
            v.push(owned(self.delivery_name.as_str()));
            assert(views(v@) =~= self.scoped_names());
            return Ok(v);
        }
        self.validate_names(requested)?;
        Ok(self.resolve_names(requested))
    }
}

/// What resetting an agent removed: its three queues, by scoped name, and
/// its run trackers.
#[derive(Debug, Clone, PartialEq, Eq)]
pub struct AgentResetReport {
    pub agent_id: String,
    pub discovery_queue: String,
    pub articles_queue: String,
    pub delivery_queue: String,
    pub progress_trackers_removed: usize,
}

impl JobQueue {
    /// The report of a reset that removed `trackers_removed` run trackers.
    pub fn reset_report(&self, trackers_removed: usize) -> (r: AgentResetReport)
        ensures
            r.agent_id@ == self.agent_id@,
            r.discovery_queue@ == self.discovery_name@,
            r.articles_queue@ == self.articles_name@,
            r.delivery_queue@ == self.delivery_name@,
            r.progress_trackers_removed == trackers_removed,
    {
        AgentResetReport {
            agent_id: owned(self.agent_id.as_str()),
            discovery_queue: owned(self.discovery_name.as_str()),
            articles_queue: owned(self.articles_name.as_str()),
            delivery_queue: owned(self.delivery_name.as_str()),
            progress_trackers_removed: trackers_removed,
        }
    }
}

/// Workers process at least one job at a time.
pub fn effective_concurrency(concurrency: usize) -> (r: usize)
    ensures
        r == (if concurrency < 1 {
            1
        } else {
            concurrency
        }),
{
    if concurrency < 1 {
        1
    } else {
        concurrency
    }
}

} // verus!
