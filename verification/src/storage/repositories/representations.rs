//! Representations: derived text versions of an attempt (post_process,
//! snippet, style, transform, manual_edit). They never replace the
//! attempt's `normalized_stt`, and every row records its provenance.

use vstd::prelude::*;

use crate::storage::hashing::{content_hash, hex_lower, sha256_spec, utf8};
use crate::storage::repositories::transcriptions::clone_opt;

verus! {

#[derive(Clone, Debug)]
pub struct NewRepresentation {
    pub attempt_id: String,
    pub parent_representation_id: Option<String>,
    /// One of: post_process | snippet | style | transform | manual_edit.
    pub kind: String,
    pub text: String,
    pub processor: String,
    pub processor_version: String,
    pub prompt_profile_id: Option<String>,
    pub effective_prompt_snapshot: Option<String>,
    /// Provider/model snapshot at generation time.
    pub provider_snapshot: Option<String>,
}

#[derive(Clone, Debug)]
pub struct RepresentationRecord {
    pub id: String,
    pub attempt_id: String,
    pub parent_representation_id: Option<String>,
    pub kind: String,
    pub text: String,
    pub content_hash_sha256: Option<String>,
    pub processor: Option<String>,
    pub processor_version: Option<String>,
    pub prompt_profile_id: Option<String>,
    pub effective_prompt_snapshot: Option<String>,
    pub provider_snapshot: Option<String>,
    pub status: String,
    pub created_at_ms: i64,
}

/// The row stored for a successful derived representation created at
/// `now_ms` with id `id`: the content hash identifies the text, the status
/// is `success`, and the provenance is kept as given.
pub fn new_representation_record(new: &NewRepresentation, id: String, now_ms: i64) -> (r: RepresentationRecord)
    ensures
        r.id == id,
        r.attempt_id == new.attempt_id,
        r.parent_representation_id == new.parent_representation_id,
        r.kind == new.kind,
        r.text == new.text,
        r.content_hash_sha256 matches Some(h) && h@ == hex_lower(sha256_spec(utf8(new.text@))),
        r.processor == Some(new.processor),
        r.processor_version == Some(new.processor_version),
        r.prompt_profile_id == new.prompt_profile_id,
        r.effective_prompt_snapshot == new.effective_prompt_snapshot,
        r.provider_snapshot == new.provider_snapshot,
        r.status@ == "success"@,
        r.created_at_ms == now_ms,
{
    RepresentationRecord {
        id,
        attempt_id: new.attempt_id.clone(),
        parent_representation_id: clone_opt(&new.parent_representation_id),
        kind: new.kind.clone(),
        text: new.text.clone(),
        content_hash_sha256: Some(content_hash(new.text.as_str())),
        processor: Some(new.processor.clone()),
        processor_version: Some(new.processor_version.clone()),
        prompt_profile_id: clone_opt(&new.prompt_profile_id),
        effective_prompt_snapshot: clone_opt(&new.effective_prompt_snapshot),
        provider_snapshot: clone_opt(&new.provider_snapshot),
        status: String::from_str("success"),
        created_at_ms: now_ms,
    }
}

} // verus!
