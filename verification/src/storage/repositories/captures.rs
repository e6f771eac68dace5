//! Capture records: one per recording (or audio-less dictation).

use vstd::prelude::*;

use crate::storage::models::IntegrityState;
use crate::storage::repositories::representations::RepresentationRecord;
use crate::storage::repositories::transcriptions::AttemptRecord;

verus! {

#[derive(Clone, Debug)]
pub struct NewCapture {
    pub audio_file_name: Option<String>,
    pub audio_sha256: Option<String>,
    pub audio_size_bytes: Option<i64>,
    pub title: String,
    pub source_app: Option<String>,
    pub integrity_state: IntegrityState,
}

#[derive(Clone, Debug)]
pub struct CaptureRecord {
    pub id: String,
    pub legacy_history_id: Option<i64>,
    pub audio_file_name: Option<String>,
    pub audio_sha256: Option<String>,
    pub audio_size_bytes: Option<i64>,
    pub title: String,
    pub source_app: Option<String>,
    pub saved: bool,
    pub integrity_state: String,
    pub created_at_ms: i64,
    pub updated_at_ms: i64,
    pub deleted_at_ms: Option<i64>,
}

/// Full canonical view of one capture for history and detail surfaces.
pub struct CaptureDetail {
    pub capture: CaptureRecord,
    pub attempts: Vec<AttemptRecord>,
    pub representations: Vec<RepresentationRecord>,
}

#[derive(Clone, Debug)]
pub struct PurgedCapture {
    pub id: String,
    pub audio_file_name: Option<String>,
    pub legacy_history_id: Option<i64>,
}

/// Only a trashed capture may be purged; an active one is refused.
pub fn purge_allowed(deleted_at_ms: Option<i64>) -> (r: bool)
    ensures
        r == deleted_at_ms is Some,
{
    deleted_at_ms.is_some()
}

} // verus!
