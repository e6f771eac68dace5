//! The export outbox: targets, jobs and the job state machine
//! `pending → running → succeeded | retry_wait | failed_permanent`, plus
//! `retry_wait → running`. A job is never deleted; its idempotency key is
//! target + item + content hash.

use vstd::prelude::*;

use crate::storage::repositories::transcriptions::str_equal;
use crate::text::{chars_of, extend_chars, string_of};

verus! {

/// How often one job is tried before it is parked as `failed_permanent`.
pub const MAX_ATTEMPTS: i64 = 5;

/// First retry delay; doubles per attempt.
pub const BASE_BACKOFF_MS: i64 = 30_000;

/// A `running` job claimed longer ago than this is assumed stranded by a crash.
pub const STALE_RUNNING_MS: i64 = 60_000;

#[derive(Clone, Debug)]
pub struct NewExportTarget {
    /// `markdown` (the only kind).
    pub kind: String,
    pub root_path: String,
}

#[derive(Clone, Debug)]
pub struct ExportTargetRecord {
    pub id: String,
    pub kind: String,
    pub root_path: String,
    pub enabled: bool,
    pub created_at_ms: i64,
    pub updated_at_ms: i64,
}

#[derive(Clone, Debug)]
pub struct ExportJobRecord {
    pub id: String,
    pub target_id: String,
    pub export_id: String,
    pub content_hash_sha256: String,
    pub idempotency_key: String,
    pub status: String,
    pub attempt_count: i64,
    pub next_attempt_at_ms: Option<i64>,
    pub last_error: Option<String>,
    pub created_at_ms: i64,
    pub updated_at_ms: i64,
    pub completed_at_ms: Option<i64>,
}

/// What an enqueue did: queued new work, found it already queued, or found
/// it already done.
#[derive(Debug)]
pub enum EnqueueOutcome {
    Enqueued(ExportJobRecord),
    AlreadyQueued(ExportJobRecord),
    AlreadyExported(ExportJobRecord),
}

/// The idempotency key of exporting `export_id` with content `content_hash`
/// to `target_id`.
pub open spec fn key_text(target_id: Seq<char>, export_id: Seq<char>, content_hash: Seq<char>) -> Seq<char> {
    target_id + seq!['|'] + export_id + seq!['|'] + content_hash
}

pub fn idempotency_key(target_id: &str, export_id: &str, content_hash: &str) -> (r: String)
    ensures
        r@ == key_text(target_id@, export_id@, content_hash@),
{
    let mut out = chars_of(target_id);
    out.push('|');
    let e = chars_of(export_id);
    extend_chars(&mut out, e.as_slice());
    out.push('|');
    let h = chars_of(content_hash);
    extend_chars(&mut out, h.as_slice());
    string_of(out.as_slice())
}

proof fn lemma_suffix_cancel(a: Seq<char>, b: Seq<char>, s: Seq<char>)
    requires
        a + s == b + s,
    ensures
        a == b,
{
    assert((a + s).len() == a.len() + s.len());
    assert((b + s).len() == b.len() + s.len());
    assert(a.len() == b.len());
    assert forall|i: int| 0 <= i < a.len() implies a[i] == b[i] by {
        assert((a + s)[i] == a[i]);
        assert((b + s)[i] == b[i]);
    }
    assert(a =~= b);
}

proof fn lemma_prefix_cancel(p: Seq<char>, a: Seq<char>, b: Seq<char>)
    requires
        p + a == p + b,
    ensures
        a == b,
{
    assert((p + a).len() == p.len() + a.len());
    assert((p + b).len() == p.len() + b.len());
    assert(a.len() == b.len());
    assert forall|i: int| 0 <= i < a.len() implies a[i] == b[i] by {
        assert((p + a)[p.len() + i] == a[i]);
        assert((p + b)[p.len() + i] == b[i]);
    }
    assert(a =~= b);
}

/// Same vault, same item, same bytes: one key. Changing any one of target,
/// item or content while the other two stay gives a different key, so a
/// content change queues a new job and one item can go to two targets.
pub proof fn law_idempotency_key_tells_jobs_apart(
    t1: Seq<char>,
    e1: Seq<char>,
    h1: Seq<char>,
    t2: Seq<char>,
    e2: Seq<char>,
    h2: Seq<char>,
)
    requires
        key_text(t1, e1, h1) == key_text(t2, e2, h2),
        (t1 == t2 && e1 == e2) || (t1 == t2 && h1 == h2) || (e1 == e2 && h1 == h2),
    ensures
        t1 == t2 && e1 == e2 && h1 == h2,
{
    let bar = seq!['|'];
    assert(key_text(t1, e1, h1) == (t1 + bar + e1 + bar) + h1);
    assert(key_text(t2, e2, h2) == (t2 + bar + e2 + bar) + h2);
    if t1 == t2 && e1 == e2 {
        lemma_prefix_cancel(t1 + bar + e1 + bar, h1, h2);
    } else if t1 == t2 && h1 == h2 {
        assert(key_text(t1, e1, h1) == (t1 + bar) + (e1 + bar + h1));
        assert(key_text(t2, e2, h2) == (t1 + bar) + (e2 + bar + h1));
        lemma_prefix_cancel(t1 + bar, e1 + bar + h1, e2 + bar + h1);
        assert(e1 + bar + h1 == e1 + (bar + h1));
        assert(e2 + bar + h1 == e2 + (bar + h1));
        lemma_suffix_cancel(e1, e2, bar + h1);
    } else {
        assert(key_text(t1, e1, h1) == t1 + (bar + e1 + bar + h1));
        assert(key_text(t2, e2, h2) == t2 + (bar + e1 + bar + h1));
        lemma_suffix_cancel(t1, t2, bar + e1 + bar + h1);
    }
}

/// What finding an existing job with the same key means: content already
/// exported, or work already queued. Nothing new is inserted either way.
pub fn existing_job_outcome(job: ExportJobRecord) -> (r: EnqueueOutcome)
    ensures
        job.status@ == "succeeded"@ ==> r == EnqueueOutcome::AlreadyExported(job),
        job.status@ != "succeeded"@ ==> r == EnqueueOutcome::AlreadyQueued(job),
{
    if str_equal(job.status.as_str(), "succeeded") {
        EnqueueOutcome::AlreadyExported(job)
    } else {
        EnqueueOutcome::AlreadyQueued(job)
    }
}

/// The job a first enqueue creates: pending, never attempted.
pub fn new_export_job(id: String, target_id: &str, export_id: &str, content_hash: &str, now: i64) -> (r: ExportJobRecord)
    ensures
        r.id == id,
        r.target_id@ == target_id@,
        r.export_id@ == export_id@,
        r.content_hash_sha256@ == content_hash@,
        r.idempotency_key@ == key_text(target_id@, export_id@, content_hash@),
        r.status@ == "pending"@,
        r.attempt_count == 0,
        r.next_attempt_at_ms is None,
        r.last_error is None,
        r.created_at_ms == now,
        r.updated_at_ms == now,
        r.completed_at_ms is None,
{
    ExportJobRecord {
        id,
        target_id: String::from_str(target_id),
        export_id: String::from_str(export_id),
        content_hash_sha256: String::from_str(content_hash),
        idempotency_key: idempotency_key(target_id, export_id, content_hash),
        status: String::from_str("pending"),
        attempt_count: 0,
        next_attempt_at_ms: None,
        last_error: None,
        created_at_ms: now,
        updated_at_ms: now,
        completed_at_ms: None,
    }
}

/// Whether a job may be handed to a worker at `now`: it is pending, or it
/// waits for a retry that is due.
pub open spec fn claimable(status: Seq<char>, next_attempt_at_ms: Option<i64>, now: i64) -> bool {
    ||| status == "pending"@
    ||| (status == "retry_wait"@ && (next_attempt_at_ms matches Some(t) && t <= now))
}

pub fn is_claimable(job: &ExportJobRecord, now: i64) -> (r: bool)
    ensures
        r == claimable(job.status@, job.next_attempt_at_ms, now),
{
    if str_equal(job.status.as_str(), "pending") {
        return true;
    }
    if str_equal(job.status.as_str(), "retry_wait") {
        match job.next_attempt_at_ms {
            Some(t) => t <= now,
            None => false,
        }
    } else {
        false
    }
}

/// A claimed job is `running`; a running job is never handed out twice,
/// a `retry_wait` job is not claimable before its scheduled time, and
/// finished or permanently failed jobs are never claimed again.
pub proof fn law_claiming_is_exclusive(next_attempt_at_ms: Option<i64>, now: i64)
    ensures
        !claimable("running"@, next_attempt_at_ms, now),
        !claimable("succeeded"@, next_attempt_at_ms, now),
        !claimable("failed_permanent"@, next_attempt_at_ms, now),
        (next_attempt_at_ms matches Some(t) && now < t) ==> !claimable("retry_wait"@, next_attempt_at_ms, now),
{
    reveal_strlit("running");
    reveal_strlit("pending");
    reveal_strlit("retry_wait");
    reveal_strlit("succeeded");
    reveal_strlit("failed_permanent");
    assert("running"@[0] != "pending"@[0]);
    assert("running"@.len() != "retry_wait"@.len());
    assert("succeeded"@.len() != "pending"@.len());
    assert("succeeded"@.len() != "retry_wait"@.len());
    assert("failed_permanent"@.len() != "pending"@.len());
    assert("failed_permanent"@.len() != "retry_wait"@.len());
}

/// 2 to the power `k`.
pub open spec fn pow2(k: nat) -> int
    decreases k,
{
    if k == 0 {
        1
    } else {
        2 * pow2((k - 1) as nat)
    }
}

/// The delay before retry number `attempts` (the count after the failure):
/// 30 s, 60 s, 120 s, 240 s, doubling, with the exponent capped at 20.
pub open spec fn backoff_ms(attempts: int) -> int {
    let k = if attempts - 1 < 20 {
        attempts - 1
    } else {
        20
    };
    BASE_BACKOFF_MS * pow2(k as nat)
}

/// The stored state after a failed attempt.
#[derive(Clone, Debug)]
pub struct FailureUpdate {
    /// `retry_wait`, or `failed_permanent` once the budget is spent.
    pub status: String,
    pub attempt_count: i64,
    pub next_attempt_at_ms: Option<i64>,
    pub completed_at_ms: Option<i64>,
}

proof fn lemma_pow2_bounds(k: nat)
    requires
        k <= 20,
    ensures
        1 <= pow2(k) <= 1_048_576,
{
    lemma_pow2_positive(k);
    reveal_with_fuel(pow2, 21);
    assert(pow2(20) == 1_048_576);
    if k < 20 {
        lemma_pow2_grows(k, 20);
    }
}

/// Records a failed attempt of a job that had `attempt_count` attempts:
/// schedule a retry after the backoff, or park the job permanently once
/// [`MAX_ATTEMPTS`] is reached.
pub fn failure_update(attempt_count: i64, now: i64) -> (r: FailureUpdate)
    requires
        0 <= attempt_count < i64::MAX,
        now <= i64::MAX - 240_000,
    ensures
        r.attempt_count == attempt_count + 1,
        r.attempt_count >= MAX_ATTEMPTS ==> (r.status@ == "failed_permanent"@ && r.next_attempt_at_ms
            is None && r.completed_at_ms == Some(now)),
        r.attempt_count < MAX_ATTEMPTS ==> (r.status@ == "retry_wait"@ && r.next_attempt_at_ms
            == Some((now + backoff_ms(r.attempt_count as int)) as i64) && r.completed_at_ms is None),
{
    let attempts = attempt_count + 1;
    if attempts >= MAX_ATTEMPTS {
        FailureUpdate {
            status: String::from_str("failed_permanent"),
            attempt_count: attempts,
            next_attempt_at_ms: None,
            completed_at_ms: Some(now),
        }
    } else {
        let k: i64 = if attempts - 1 < 20 {
            attempts - 1
        } else {
            20
        };
        let mut p: i64 = 1;
        let mut j: i64 = 0;
        proof {
            lemma_pow2_bounds(k as nat);
        }
        while j < k
            invariant
                0 <= j <= k <= 3,
                p == pow2(j as nat),
                1 <= p <= 1_048_576,
                p <= 8,
            decreases k - j,
        {
            proof {
                lemma_pow2_bounds((j + 1) as nat);
                reveal_with_fuel(pow2, 4);
                assert(pow2(j as nat) <= 4) by {
                    reveal_with_fuel(pow2, 4);
                }
            }
            p = p * 2;
            j = j + 1;
        }
        let delay = BASE_BACKOFF_MS * p;
        FailureUpdate {
            status: String::from_str("retry_wait"),
            attempt_count: attempts,
            next_attempt_at_ms: Some(now + delay),
            completed_at_ms: None,
        }
    }
}

proof fn lemma_pow2_grows(a: nat, b: nat)
    requires
        a < b,
    ensures
        pow2(a) < pow2(b),
    decreases b,
{
    if a + 1 < b {
        lemma_pow2_grows(a, (b - 1) as nat);
    }
    lemma_pow2_positive((b - 1) as nat);
}

proof fn lemma_pow2_positive(k: nat)
    ensures
        pow2(k) >= 1,
    decreases k,
{
    if k > 0 {
        lemma_pow2_positive((k - 1) as nat);
    }
}

/// The backoff grows with every failure within the retry budget, and the
/// budget is bounded: the failure that reaches [`MAX_ATTEMPTS`] parks the job.
pub proof fn law_backoff_grows(a: int, b: int)
    requires
        1 <= a < b < MAX_ATTEMPTS,
    ensures
        backoff_ms(a) < backoff_ms(b),
{
    lemma_pow2_grows((a - 1) as nat, (b - 1) as nat);
}

/// Whether a job is stranded in `running` by a crash at `now`.
pub open spec fn stale_running(status: Seq<char>, claimed_at_ms: Option<i64>, now: i64) -> bool {
    &&& status == "running"@
    &&& (claimed_at_ms matches Some(c) && c <= now - STALE_RUNNING_MS)
}

/// Whether a crash left this job stranded; such a job goes back to
/// `pending` without being charged an attempt.
pub fn is_stale_running(status: &str, claimed_at_ms: Option<i64>, now: i64) -> (r: bool)
    requires
        now >= i64::MIN + STALE_RUNNING_MS,
    ensures
        r == stale_running(status@, claimed_at_ms, now),
{
    if !str_equal(status, "running") {
        return false;
    }
    match claimed_at_ms {
        Some(c) => c <= now - STALE_RUNNING_MS,
        None => false,
    }
}

} // verus!
