//! The delivery state of an outbox row and how each outbox operation changes
//! it: saving (the idempotency boundary: a forwarded article stays
//! forwarded), claiming for delivery, and recording a delivery's outcome.
//!
//! Instants are nanoseconds since the Unix epoch.

use vstd::prelude::*;

use crate::articles::DeliveryStatus;
use crate::error::{concat3, CrawlError};
use crate::text::{opt_view, owned, str_eq};

verus! {

/// The delivery columns of one outbox row.
#[derive(Debug, Clone, PartialEq, Eq)]
pub struct OutboxRecord {
    pub status: DeliveryStatus,
    pub attempts: u64,
    pub retryable: bool,
    pub last_error: Option<String>,
    pub created_at: i128,
    pub updated_at: i128,
    pub forwarded_at: Option<i128>,
    pub claimed_at: Option<i128>,
    pub claimed_by: Option<String>,
}

/// The delivery columns of a row, with text as characters.
pub ghost struct RecordView {
    pub status: DeliveryStatus,
    pub attempts: u64,
    pub retryable: bool,
    pub last_error: Option<Seq<char>>,
    pub created_at: i128,
    pub updated_at: i128,
    pub forwarded_at: Option<i128>,
    pub claimed_at: Option<i128>,
    pub claimed_by: Option<Seq<char>>,
}

impl View for OutboxRecord {
    type V = RecordView;

    open spec fn view(&self) -> RecordView {
        RecordView {
            status: self.status,
            attempts: self.attempts,
            retryable: self.retryable,
            last_error: opt_view(self.last_error),
            created_at: self.created_at,
            updated_at: self.updated_at,
            forwarded_at: self.forwarded_at,
            claimed_at: self.claimed_at,
            claimed_by: opt_view(self.claimed_by),
        }
    }
}

// --- What each operation does ------------------------------------------------------

/// A row saved for the first time: pending, retryable, never attempted.
pub open spec fn fresh_record(now: i128) -> RecordView {
    RecordView {
        status: DeliveryStatus::Pending,
        attempts: 0,
        retryable: true,
        last_error: None,
        created_at: now,
        updated_at: now,
        forwarded_at: None,
        claimed_at: None,
        claimed_by: None,
    }
}

/// Saving an article over its existing row (or none). A forwarded row keeps
/// its delivery state; any other row becomes pending and retryable again.
/// Either way a claim on it is dropped.
pub open spec fn saved_record(existing: Option<RecordView>, now: i128) -> RecordView {
    match existing {
        None => fresh_record(now),
        Some(r) => if r.status == DeliveryStatus::Forwarded {
            RecordView { updated_at: now, claimed_at: None, claimed_by: None, ..r }
        } else {
            RecordView {
                status: DeliveryStatus::Pending,
                retryable: true,
                last_error: None,
                updated_at: now,
                forwarded_at: None,
                claimed_at: None,
                claimed_by: None,
                ..r
            }
        },
    }
}

/// A row whose article reached the ingestion API.
pub open spec fn forwarded_record(r: RecordView, now: i128) -> RecordView {
    RecordView {
        status: DeliveryStatus::Forwarded,
        retryable: false,
        last_error: None,
        updated_at: now,
        forwarded_at: Some(now),
        claimed_at: None,
        claimed_by: None,
        ..r
    }
}

/// A row whose delivery failed, one more attempt counted.
pub open spec fn failed_record(r: RecordView, error: Seq<char>, retryable: bool, now: i128) -> RecordView {
    RecordView {
        status: DeliveryStatus::Failed,
        attempts: (r.attempts + 1) as u64,
        retryable,
        last_error: Some(error),
        updated_at: now,
        claimed_at: None,
        claimed_by: None,
        ..r
    }
}

/// A row reserved by a pusher.
pub open spec fn claimed_record(r: RecordView, by: Seq<char>, now: i128) -> RecordView {
    RecordView { claimed_at: Some(now), claimed_by: Some(by), updated_at: now, ..r }
}

/// A row whose claim was given up.
pub open spec fn released_record(r: RecordView) -> RecordView {
    RecordView { claimed_at: None, claimed_by: None, ..r }
}

/// How long a pusher's claim on a row lasts, in nanoseconds (15 minutes).
pub const CLAIM_TTL_NANOS: i128 = 900_000_000_000;

/// The expiry bound of a claim made at `now`: claims made before it have
/// lapsed.
pub fn claim_expiry(now: i128) -> (r: i128)
    requires
        now >= i128::MIN + CLAIM_TTL_NANOS,
    ensures
        r == now - CLAIM_TTL_NANOS,
{
    now - CLAIM_TTL_NANOS
}

/// Whether a pusher may claim the row: it awaits delivery, it may be retried
/// (or every failure is retried), and nobody holds a claim on it that was
/// made at or after `expires_before`.
pub open spec fn claimable(r: RecordView, retry_all: bool, expires_before: i128) -> bool {
    &&& (r.status == DeliveryStatus::Pending || r.status == DeliveryStatus::Failed)
    &&& (retry_all || r.retryable)
    &&& match r.claimed_at {
        None => true,
        Some(t) => t < expires_before,
    }
}

fn copy_text(t: &Option<String>) -> (r: Option<String>)
    ensures
        opt_view(r) == opt_view(*t),
{
    match t {
        Some(s) => Some(owned(s.as_str())),
        None => None,
    }
}

impl OutboxRecord {
    pub fn fresh(now: i128) -> (r: OutboxRecord)
        ensures
            r@ == fresh_record(now),
    {
        OutboxRecord {
            status: DeliveryStatus::Pending,
            attempts: 0,
            retryable: true,
            last_error: None,
            created_at: now,
            updated_at: now,
            forwarded_at: None,
            claimed_at: None,
            claimed_by: None,
        }
    }

    /// The row after saving its article again (or for the first time).
    pub fn saved(existing: Option<&OutboxRecord>, now: i128) -> (r: OutboxRecord)
        ensures
            r@ == saved_record(
                match existing {
                    Some(e) => Some(e@),
                    None => None,
                },
                now,
            ),
    {
        match existing {
            None => OutboxRecord::fresh(now),
            Some(e) => {
                if e.status == DeliveryStatus::Forwarded {
                    OutboxRecord {
                        status: e.status,
                        attempts: e.attempts,
                        retryable: e.retryable,
                        last_error: copy_text(&e.last_error),
                        created_at: e.created_at,
                        updated_at: now,
                        forwarded_at: e.forwarded_at,
                        claimed_at: None,
                        claimed_by: None,
                    }
                } else {
                    OutboxRecord {
                        status: DeliveryStatus::Pending,
                        attempts: e.attempts,
                        retryable: true,
                        last_error: None,
                        created_at: e.created_at,
                        updated_at: now,
                        forwarded_at: None,
                        claimed_at: None,
                        claimed_by: None,
                    }
                }
            },
        }
    }

    pub fn forwarded(&self, now: i128) -> (r: OutboxRecord)
        ensures
            r@ == forwarded_record(self@, now),
    {
        OutboxRecord {
            status: DeliveryStatus::Forwarded,
            attempts: self.attempts,
            retryable: false,
            last_error: None,
            created_at: self.created_at,
            updated_at: now,
            forwarded_at: Some(now),
            claimed_at: None,
            claimed_by: None,
        }
    }

    pub fn failed(&self, error: &str, retryable: bool, now: i128) -> (r: OutboxRecord)
        requires
            self.attempts < u64::MAX,
        ensures
            r@ == failed_record(self@, error@, retryable, now),
    {
        OutboxRecord {
            status: DeliveryStatus::Failed,
            attempts: self.attempts + 1,
            retryable,
            last_error: Some(owned(error)),
            created_at: self.created_at,
            updated_at: now,
            forwarded_at: self.forwarded_at,
            claimed_at: None,
            claimed_by: None,
        }
    }

    pub fn claimed(&self, by: &str, now: i128) -> (r: OutboxRecord)
        ensures
            r@ == claimed_record(self@, by@, now),
    {
        OutboxRecord {
            status: self.status,
            attempts: self.attempts,
            retryable: self.retryable,
            last_error: copy_text(&self.last_error),
            created_at: self.created_at,
            updated_at: now,
            forwarded_at: self.forwarded_at,
            claimed_at: Some(now),
            claimed_by: Some(owned(by)),
        }
    }

    pub fn released(&self) -> (r: OutboxRecord)
        ensures
            r@ == released_record(self@),
    {
        OutboxRecord {
            status: self.status,
            attempts: self.attempts,
            retryable: self.retryable,
            last_error: copy_text(&self.last_error),
            created_at: self.created_at,
            updated_at: self.updated_at,
            forwarded_at: self.forwarded_at,
            claimed_at: None,
            claimed_by: None,
        }
    }

    pub fn is_claimable(&self, retry_all: bool, expires_before: i128) -> (r: bool)
        ensures
            r == claimable(self@, retry_all, expires_before),
    {
        (self.status == DeliveryStatus::Pending || self.status == DeliveryStatus::Failed) && (retry_all
            || self.retryable) && match self.claimed_at {
            None => true,
            Some(t) => t < expires_before,
        }
    }
}

// --- Claiming a batch ------------------------------------------------------------------

pub open spec fn record_views(rs: Seq<OutboxRecord>) -> Seq<RecordView> {
    rs.map_values(|r: OutboxRecord| r@)
}

/// The positions of the claimable rows, in order.
pub open spec fn claimable_positions(rs: Seq<RecordView>, retry_all: bool, expires_before: i128) -> Seq<
    int,
>
    decreases rs.len(),
{
    if rs.len() == 0 {
        Seq::empty()
    } else {
        let earlier = claimable_positions(rs.drop_last(), retry_all, expires_before);
        if claimable(rs.last(), retry_all, expires_before) {
            earlier.push(rs.len() - 1)
        } else {
            earlier
        }
    }
}

proof fn lemma_positions_prefix(rs: Seq<RecordView>, i: int, retry_all: bool, expires_before: i128)
    requires
        0 <= i <= rs.len(),
    ensures
        claimable_positions(rs.take(i), retry_all, expires_before).len() <= claimable_positions(
            rs,
            retry_all,
            expires_before,
        ).len(),
        forall|k: int|
            0 <= k < claimable_positions(rs.take(i), retry_all, expires_before).len() ==> #[trigger] claimable_positions(
                rs.take(i),
                retry_all,
                expires_before,
            )[k] == claimable_positions(rs, retry_all, expires_before)[k],
    decreases rs.len(),
{
    if i == rs.len() {
        assert(rs.take(i) =~= rs);
    } else {
        assert(rs.drop_last().take(i) =~= rs.take(i));
        lemma_positions_prefix(rs.drop_last(), i, retry_all, expires_before);
    }
}

/// The rows a pusher claims among `records` (already in creation order): the
/// first `limit` claimable ones, by position.
pub fn claim_selection(records: &Vec<OutboxRecord>, retry_all: bool, expires_before: i128, limit: usize) -> (r:
    Vec<usize>)
    ensures
        r@.len() == (if limit < claimable_positions(record_views(records@), retry_all, expires_before).len() {
            limit as int
        } else {
            claimable_positions(record_views(records@), retry_all, expires_before).len() as int
        }),
        forall|k: int|
            0 <= k < r@.len() ==> #[trigger] r@[k] as int == claimable_positions(
                record_views(records@),
                retry_all,
                expires_before,
            )[k],
{
    let ghost all = record_views(records@);
    let mut chosen: Vec<usize> = Vec::new();
    let mut i: usize = 0;
    while i < records.len() && chosen.len() < limit
        invariant
            i <= records.len(),
            chosen@.len() <= limit,
            all == record_views(records@),
            chosen@.len() == claimable_positions(all.take(i as int), retry_all, expires_before).len(),
            forall|k: int|
                0 <= k < chosen@.len() ==> #[trigger] chosen@[k] as int == claimable_positions(
                    all.take(i as int),
                    retry_all,
                    expires_before,
                )[k],
        decreases records.len() - i,
    {
        let ghost before = all.take(i as int);
        assert(all.take(i + 1).drop_last() =~= before);
        assert(all.take(i + 1).last() == records@[i as int]@);
        if records[i].is_claimable(retry_all, expires_before) {
            chosen.push(i);
        }
        i = i + 1;
    }
    proof {
        lemma_positions_prefix(all, i as int, retry_all, expires_before);
        if i == records.len() {
            assert(all.take(i as int) =~= all);
        }
    }
    chosen
}

// --- Laws ------------------------------------------------------------------------------

/// Saving an article whose row was forwarded leaves it forwarded, with its
/// forwarding time, and no pusher can claim it: crawling the same URL twice
/// does not deliver it twice.
pub proof fn lemma_save_keeps_forwarded(r: RecordView, now: i128, retry_all: bool, expires_before: i128)
    requires
        r.status == DeliveryStatus::Forwarded,
    ensures
        saved_record(Some(r), now).status == DeliveryStatus::Forwarded,
        saved_record(Some(r), now).forwarded_at == r.forwarded_at,
        !claimable(saved_record(Some(r), now), retry_all, expires_before),
{
}

/// Saving an article a second time changes nothing but the update time.
pub proof fn lemma_save_is_idempotent(existing: Option<RecordView>, first: i128, second: i128)
    ensures
        saved_record(Some(saved_record(existing, first)), second) == (RecordView {
            updated_at: second,
            ..saved_record(existing, first)
        }),
{
}

/// A forwarded row is never claimed for delivery, whatever the pusher asks.
pub proof fn lemma_forwarded_is_never_claimed(r: RecordView, retry_all: bool, expires_before: i128)
    requires
        r.status == DeliveryStatus::Forwarded,
    ensures
        !claimable(r, retry_all, expires_before),
{
}

/// A claim excludes other pushers until it expires: a row claimed at `now`
/// is not claimable by anyone whose expiry bound is not after `now`.
pub proof fn lemma_claim_is_exclusive(r: RecordView, by: Seq<char>, now: i128, retry_all: bool, expires_before: i128)
    requires
        expires_before <= now,
    ensures
        !claimable(claimed_record(r, by, now), retry_all, expires_before),
{
}

/// Every position a selection lists is a claimable row.
proof fn lemma_positions_claimable(rs: Seq<RecordView>, retry_all: bool, expires_before: i128)
    ensures
        forall|k: int|
            0 <= k < claimable_positions(rs, retry_all, expires_before).len() ==> {
                let p = #[trigger] claimable_positions(rs, retry_all, expires_before)[k];
                0 <= p < rs.len() && claimable(rs[p], retry_all, expires_before)
            },
    decreases rs.len(),
{
    if rs.len() > 0 {
        lemma_positions_claimable(rs.drop_last(), retry_all, expires_before);
        let earlier = claimable_positions(rs.drop_last(), retry_all, expires_before);
        assert forall|k: int| 0 <= k < earlier.len() implies rs[earlier[k]] == rs.drop_last()[earlier[k]] by {}
    }
}

/// The rows after a pusher `by` claimed those at the positions `chosen` at
/// `now`.
pub open spec fn claimed_batch(rs: Seq<RecordView>, chosen: Seq<int>, by: Seq<char>, now: i128) -> Seq<
    RecordView,
> {
    Seq::new(
        rs.len(),
        |i: int|
            if chosen.contains(i) {
                claimed_record(rs[i], by, now)
            } else {
                rs[i]
            },
    )
}

/// Two claims do not share a row: once a pusher has claimed a batch at
/// `now`, a later claim whose expiry bound is not after `now` selects none
/// of the rows of that batch.
pub proof fn lemma_claims_are_disjoint(
    rs: Seq<RecordView>,
    chosen: Seq<int>,
    by: Seq<char>,
    now: i128,
    retry_all: bool,
    expires_before: i128,
)
    requires
        expires_before <= now,
    ensures
        forall|k: int|
            0 <= k < claimable_positions(claimed_batch(rs, chosen, by, now), retry_all, expires_before).len()
                ==> !chosen.contains(
                #[trigger] claimable_positions(
                    claimed_batch(rs, chosen, by, now),
                    retry_all,
                    expires_before,
                )[k],
            ),
{
    let after = claimed_batch(rs, chosen, by, now);
    lemma_positions_claimable(after, retry_all, expires_before);
    assert forall|k: int|
        0 <= k < claimable_positions(after, retry_all, expires_before).len() implies !chosen.contains(
        claimable_positions(after, retry_all, expires_before)[k],
    ) by {
        let p = claimable_positions(after, retry_all, expires_before)[k];
        if chosen.contains(p) {
            lemma_claim_is_exclusive(rs[p], by, now, retry_all, expires_before);
            assert(after[p] == claimed_record(rs[p], by, now));
        }
    }
}

/// A failure classified as not retryable is only claimed again when every
/// failure is retried.
pub proof fn lemma_permanent_failure_waits_for_retry_all(
    r: RecordView,
    error: Seq<char>,
    now: i128,
    expires_before: i128,
)
    ensures
        !claimable(failed_record(r, error, false, now), false, expires_before),
        claimable(failed_record(r, error, false, now), true, expires_before),
{
}

/// Recording a delivery's outcome, or saving the article again, ends any
/// claim on the row.
pub proof fn lemma_outcomes_end_claims(r: RecordView, error: Seq<char>, retryable: bool, now: i128)
    ensures
        forwarded_record(r, now).claimed_at is None,
        failed_record(r, error, retryable, now).claimed_at is None,
        saved_record(Some(r), now).claimed_at is None,
        released_record(r).claimed_at is None,
{
}

// --- Delivery intents ------------------------------------------------------------------

/// Where a run's owed delivery of one article stands.
#[derive(Debug, Clone, Copy, PartialEq, Eq, Structural)]
pub enum IntentStatus {
    Pending,
    Completed,
    Failed,
}

impl IntentStatus {
    pub open spec fn parse_spec(value: Seq<char>) -> Option<IntentStatus> {
        if value == "pending"@ {
            Some(IntentStatus::Pending)
        } else if value == "completed"@ {
            Some(IntentStatus::Completed)
        } else if value == "failed"@ {
            Some(IntentStatus::Failed)
        } else {
            None
        }
    }

    /// Reads the status column of an intent row.
    pub fn parse(value: &str) -> (r: Result<IntentStatus, CrawlError>)
        ensures
            r is Ok <==> IntentStatus::parse_spec(value@) is Some,
            r matches Ok(s) ==> IntentStatus::parse_spec(value@) == Some(s),
            r matches Err(e) ==> e == CrawlError::Configuration(e->Configuration_0)
                && e->Configuration_0@ == "unknown delivery intent status '"@ + value@ + "'"@,
    {
        if str_eq(value, "pending") {
            Ok(IntentStatus::Pending)
        } else if str_eq(value, "completed") {
            Ok(IntentStatus::Completed)
        } else if str_eq(value, "failed") {
            Ok(IntentStatus::Failed)
        } else {
            Err(CrawlError::Configuration(concat3("unknown delivery intent status '", value, "'")))
        }
    }

    /// The text stored in the status column.
    pub fn as_str(&self) -> (r: &'static str)
        ensures
            IntentStatus::parse_spec(r@) == Some(*self),
    {
        proof {
            reveal_strlit("pending");
            reveal_strlit("completed");
            reveal_strlit("failed");
        }
        assert("pending"@.len() == 7 && "completed"@.len() == 9 && "failed"@.len() == 6);
        match self {
            IntentStatus::Pending => "pending",
            IntentStatus::Completed => "completed",
            IntentStatus::Failed => "failed",
        }
    }
}

/// The state columns of a delivery intent row.
#[derive(Debug, Clone, Copy, PartialEq, Eq, Structural)]
pub struct IntentRecord {
    pub status: IntentStatus,
    pub created_at: i128,
    pub queued_at: Option<i128>,
    pub completed_at: Option<i128>,
}

/// The intent a run holds after saving an article: an article already
/// forwarded is owed no delivery; otherwise an existing intent is kept as it
/// is, and a new one starts pending.
pub open spec fn intent_after_save(existing: Option<IntentRecord>, article: DeliveryStatus, now: i128) -> Option<
    IntentRecord,
> {
    if article == DeliveryStatus::Forwarded {
        existing
    } else {
        match existing {
            Some(i) => Some(i),
            None => Some(IntentRecord { status: IntentStatus::Pending, created_at: now, queued_at: None, completed_at: None }),
        }
    }
}

/// A pending intent whose delivery job was queued; others are unchanged.
pub open spec fn queued_intent(i: IntentRecord, now: i128) -> IntentRecord {
    if i.status == IntentStatus::Pending {
        IntentRecord { queued_at: Some(now), ..i }
    } else {
        i
    }
}

/// An intent whose delivery finished.
pub open spec fn completed_intent(i: IntentRecord, succeeded: bool, now: i128) -> IntentRecord {
    IntentRecord {
        status: if succeeded {
            IntentStatus::Completed
        } else {
            IntentStatus::Failed
        },
        completed_at: Some(now),
        ..i
    }
}

impl IntentRecord {
    pub fn after_save(existing: Option<IntentRecord>, article: DeliveryStatus, now: i128) -> (r: Option<IntentRecord>)
        ensures
            r == intent_after_save(existing, article, now),
    {
        if article == DeliveryStatus::Forwarded {
            existing
        } else {
            match existing {
                Some(i) => Some(i),
                None => Some(IntentRecord { status: IntentStatus::Pending, created_at: now, queued_at: None, completed_at: None }),
            }
        }
    }

    pub fn queued(&self, now: i128) -> (r: IntentRecord)
        ensures
            r == queued_intent(*self, now),
    {
        if self.status == IntentStatus::Pending {
            IntentRecord { status: self.status, created_at: self.created_at, queued_at: Some(now), completed_at: self.completed_at }
        } else {
            *self
        }
    }

    pub fn completed(&self, succeeded: bool, now: i128) -> (r: IntentRecord)
        ensures
            r == completed_intent(*self, succeeded, now),
    {
        IntentRecord {
            status: if succeeded {
                IntentStatus::Completed
            } else {
                IntentStatus::Failed
            },
            created_at: self.created_at,
            queued_at: self.queued_at,
            completed_at: Some(now),
        }
    }
}

/// The positions of the pending intents, in order.
pub open spec fn pending_positions(intents: Seq<IntentRecord>) -> Seq<int>
    decreases intents.len(),
{
    if intents.len() == 0 {
        Seq::empty()
    } else {
        let earlier = pending_positions(intents.drop_last());
        if intents.last().status == IntentStatus::Pending {
            earlier.push(intents.len() - 1)
        } else {
            earlier
        }
    }
}

proof fn lemma_pending_prefix(intents: Seq<IntentRecord>, i: int)
    requires
        0 <= i <= intents.len(),
    ensures
        pending_positions(intents.take(i)).len() <= pending_positions(intents).len(),
        forall|k: int|
            0 <= k < pending_positions(intents.take(i)).len() ==> #[trigger] pending_positions(
                intents.take(i),
            )[k] == pending_positions(intents)[k],
    decreases intents.len(),
{
    if i == intents.len() {
        assert(intents.take(i) =~= intents);
    } else {
        assert(intents.drop_last().take(i) =~= intents.take(i));
        lemma_pending_prefix(intents.drop_last(), i);
    }
}

/// The intents a reconciliation queues among `intents` (in creation
/// order): the first `limit` pending ones, by position.
pub fn pending_selection(intents: &Vec<IntentRecord>, limit: usize) -> (r: Vec<usize>)
    ensures
        r@.len() == (if limit < pending_positions(intents@).len() {
            limit as int
        } else {
            pending_positions(intents@).len() as int
        }),
        forall|k: int| 0 <= k < r@.len() ==> #[trigger] r@[k] as int == pending_positions(intents@)[k],
{
    let mut chosen: Vec<usize> = Vec::new();
    let mut i: usize = 0;
    while i < intents.len() && chosen.len() < limit
        invariant
            i <= intents.len(),
            chosen@.len() <= limit,
            chosen@.len() == pending_positions(intents@.take(i as int)).len(),
            forall|k: int|
                0 <= k < chosen@.len() ==> #[trigger] chosen@[k] as int == pending_positions(
                    intents@.take(i as int),
                )[k],
        decreases intents.len() - i,
    {
        assert(intents@.take(i + 1).drop_last() =~= intents@.take(i as int));
        assert(intents@.take(i + 1).last() == intents@[i as int]);
        if intents[i].status == IntentStatus::Pending {
            chosen.push(i);
        }
        i = i + 1;
    }
    proof {
        lemma_pending_prefix(intents@, i as int);
        if i == intents.len() {
            assert(intents@.take(i as int) =~= intents@);
        }
    }
    chosen
}

/// Saving an article never replaces the delivery a run already owes for it,
/// and an article already forwarded is owed none.
pub proof fn lemma_intents_are_recorded_once(i: IntentRecord, article: DeliveryStatus, now: i128)
    ensures
        intent_after_save(Some(i), article, now) == Some(i),
        intent_after_save(None, DeliveryStatus::Forwarded, now) is None,
        intent_after_save(None, DeliveryStatus::Pending, now) matches Some(n) && n.status
            == IntentStatus::Pending,
{
}

/// A finished intent stays finished: queueing leaves it unchanged, so a
/// reconciliation never queues its delivery again.
pub proof fn lemma_finished_intents_stay_finished(i: IntentRecord, succeeded: bool, done: i128, later: i128)
    ensures
        completed_intent(i, succeeded, done).status != IntentStatus::Pending,
        queued_intent(completed_intent(i, succeeded, done), later) == completed_intent(i, succeeded, done),
{
}

} // verus!
