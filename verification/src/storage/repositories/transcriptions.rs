//! Transcription attempts: append-only rows, terminal payloads immutable,
//! at most one canonical attempt per capture. This module holds the
//! records and the decisions the attempt lifecycle makes.

use vstd::prelude::*;

use crate::storage::models::AttemptStatus;

verus! {

/// Where a live attempt came from.
pub const PROVENANCE_LIVE: &'static str = "live";

#[derive(Clone, Debug)]
pub struct NewAttempt {
    pub capture_id: String,
    pub engine_raw: Option<String>,
    pub normalized_stt: Option<String>,
    pub model_id: Option<String>,
    pub language: Option<String>,
    pub normalizer_version: String,
    pub dictionary_snapshot_sha256: Option<String>,
}

#[derive(Clone, Debug)]
pub struct AttemptRecord {
    pub id: String,
    pub capture_id: String,
    pub attempt_number: i64,
    pub engine_raw: Option<String>,
    pub normalized_stt: Option<String>,
    pub model_id: Option<String>,
    pub language: Option<String>,
    pub normalizer_version: Option<String>,
    pub dictionary_snapshot_sha256: Option<String>,
    pub provenance: String,
    pub status: String,
    pub error: Option<String>,
    pub is_canonical: bool,
    pub created_at_ms: i64,
    pub completed_at_ms: Option<i64>,
}

#[derive(Clone, Debug)]
pub struct ChunkRecord {
    pub chunk_index: i64,
    pub start_sample: i64,
    pub end_sample: i64,
    pub window_samples: i64,
    pub payload_json: String,
    pub seam_uncertain: bool,
    pub seam_left: Option<String>,
    pub seam_right: Option<String>,
}

#[derive(Clone, Debug)]
pub struct IncompleteJob {
    pub attempt_id: String,
    pub capture_id: String,
    pub audio_file_name: String,
    pub model_id: Option<String>,
    pub audio_duration_ms: Option<i64>,
}

/// A copy of an optional string.
pub fn clone_opt(o: &Option<String>) -> (r: Option<String>)
    ensures
        r == *o,
{
    match o {
        Some(s) => Some(s.clone()),
        None => None,
    }
}

/// The status a freshly inserted attempt starts in: a transcript that is
/// already known is a terminal success, otherwise the attempt is pending.
pub open spec fn initial_status(new: NewAttempt) -> AttemptStatus {
    if new.normalized_stt is Some {
        AttemptStatus::Success
    } else {
        AttemptStatus::Pending
    }
}

/// Whether a freshly inserted attempt becomes canonical: only a success,
/// and only while the capture has no canonical attempt yet.
pub open spec fn becomes_canonical(new: NewAttempt, capture_has_canonical: bool) -> bool {
    new.normalized_stt is Some && !capture_has_canonical
}

/// The row that inserting `new` as attempt number `attempt_number` with id
/// `id` at `now_ms` stores.
pub fn new_attempt_record(
    new: &NewAttempt,
    id: String,
    attempt_number: i64,
    capture_has_canonical: bool,
    now_ms: i64,
) -> (r: AttemptRecord)
    ensures
        r.id == id,
        r.capture_id == new.capture_id,
        r.attempt_number == attempt_number,
        r.engine_raw == new.engine_raw,
        r.normalized_stt == new.normalized_stt,
        r.model_id == new.model_id,
        r.language == new.language,
        r.normalizer_version == Some(new.normalizer_version),
        r.dictionary_snapshot_sha256 == new.dictionary_snapshot_sha256,
        r.provenance@ == PROVENANCE_LIVE@,
        r.status@ == initial_status(*new).name(),
        r.error is None,
        r.is_canonical == becomes_canonical(*new, capture_has_canonical),
        r.created_at_ms == now_ms,
        r.completed_at_ms == (if new.normalized_stt is Some {
            Some(now_ms)
        } else {
            None
        }),
{
    let success = new.normalized_stt.is_some();
    let status = if success {
        AttemptStatus::Success
    } else {
        AttemptStatus::Pending
    };
    AttemptRecord {
        id,
        capture_id: new.capture_id.clone(),
        attempt_number,
        engine_raw: clone_opt(&new.engine_raw),
        normalized_stt: clone_opt(&new.normalized_stt),
        model_id: clone_opt(&new.model_id),
        language: clone_opt(&new.language),
        normalizer_version: Some(new.normalizer_version.clone()),
        dictionary_snapshot_sha256: clone_opt(&new.dictionary_snapshot_sha256),
        provenance: String::from_str(PROVENANCE_LIVE),
        status: String::from_str(status.as_str()),
        error: None,
        is_canonical: success && !capture_has_canonical,
        created_at_ms: now_ms,
        completed_at_ms: if success {
            Some(now_ms)
        } else {
            None
        },
    }
}

/// Why an attempt cannot be completed.
#[derive(Clone, Debug, PartialEq, Eq, Structural)]
pub enum CompletionRefusal {
    /// No attempt with that id exists.
    Unknown,
    /// The attempt is already terminal; a retry must insert a new attempt.
    AlreadyTerminal,
}

/// Whether a stored status is terminal.
pub open spec fn is_terminal(status: Seq<char>) -> bool {
    status == "success"@ || status == "failed"@
}

/// The terminal status an attempt moves to when it is completed while in
/// `current` (None: the attempt is unknown), with or without a transcript.
pub open spec fn completion_of(current: Option<Seq<char>>, has_transcript: bool) -> Result<
    AttemptStatus,
    CompletionRefusal,
> {
    match current {
        None => Err(CompletionRefusal::Unknown),
        Some(s) => if is_terminal(s) {
            Err(CompletionRefusal::AlreadyTerminal)
        } else if has_transcript {
            Ok(AttemptStatus::Success)
        } else {
            Ok(AttemptStatus::Failed)
        },
    }
}

/// Whether two strings are equal.
pub fn str_equal(a: &str, b: &str) -> (r: bool)
    ensures
        r == (a@ == b@),
{
    let n = a.unicode_len();
    if n != b.unicode_len() {
        return false;
    }
    let x = crate::text::chars_of(a);
    let y = crate::text::chars_of(b);
    let mut i: usize = 0;
    while i < n
        invariant
            n == x@.len() == y@.len(),
            x@ == a@,
            y@ == b@,
            i <= n,
            forall|k: int| 0 <= k < i ==> x@[k] == y@[k],
        decreases n - i,
    {
        if x[i] != y[i] {
            return false;
        }
        i = i + 1;
    }
    assert(x@ =~= y@);
    true
}

/// Decides the transition of completing an attempt whose stored status is
/// `current`: a pending or running attempt becomes `success` when a
/// transcript is supplied and `failed` otherwise; a terminal attempt is
/// never overwritten.
pub fn completion_status(current: Option<&str>, has_transcript: bool) -> (r: Result<
    AttemptStatus,
    CompletionRefusal,
>)
    ensures
        r == completion_of(
            match current {
                Some(s) => Some(s@),
                None => None,
            },
            has_transcript,
        ),
{
    match current {
        None => Err(CompletionRefusal::Unknown),
        Some(s) => {
            if str_equal(s, "success") || str_equal(s, "failed") {
                Err(CompletionRefusal::AlreadyTerminal)
            } else if has_transcript {
                Ok(AttemptStatus::Success)
            } else {
                Ok(AttemptStatus::Failed)
            }
        },
    }
}

/// Terminal attempts are immutable: completing an attempt that is already
/// `success` or `failed` is refused, whatever is supplied.
pub proof fn law_terminal_attempts_are_immutable(status: Seq<char>, has_transcript: bool)
    requires
        is_terminal(status),
    ensures
        completion_of(Some(status), has_transcript) == Err::<AttemptStatus, CompletionRefusal>(
            CompletionRefusal::AlreadyTerminal,
        ),
{
}

/// The first successful attempt of a capture becomes canonical; a later
/// attempt never displaces an existing canonical one on insertion, and a
/// pending attempt is never canonical.
pub proof fn law_first_success_becomes_canonical(new: NewAttempt, capture_has_canonical: bool)
    ensures
        becomes_canonical(new, capture_has_canonical) <==> (initial_status(new)
            == AttemptStatus::Success && !capture_has_canonical),
{
}

} // verus!
