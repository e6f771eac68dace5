//! The canonical capture/attempt write path for live dictation: plain values
//! in, the rows to write out, plus the [`DeliverySource`] that the delivery
//! audit names. It holds no transcription logic: the live path decides what
//! the text is; this only records where it came from.

use vstd::prelude::*;

use crate::delivery::DeliverySource;
use crate::storage::models::{AttemptStatus, DeliverySourceKind, IntegrityState};
use crate::storage::repositories::captures::NewCapture;
use crate::storage::repositories::representations::NewRepresentation;
use crate::storage::repositories::transcriptions::{initial_status, NewAttempt};

verus! {

/// Everything one finished dictation knows about itself, borrowed.
pub struct DictationInput<'a> {
    pub title: &'a str,
    pub audio_file_name: Option<&'a str>,
    pub audio_sha256: Option<&'a str>,
    pub audio_size_bytes: Option<i64>,
    /// Exact engine output, never rewritten.
    pub engine_raw: &'a str,
    /// Deterministic normalization result: the durable "raw" text.
    pub normalized_stt: &'a str,
    pub model_id: Option<&'a str>,
    pub language: Option<&'a str>,
    pub normalizer_version: &'a str,
    /// LLM post-processing output, if it ran: stored as a representation of
    /// the attempt, never as a second transcript.
    pub post_processed_text: Option<&'a str>,
    pub post_process_prompt: Option<&'a str>,
}

/// The characters of a borrowed optional text.
pub open spec fn borrowed_view(o: Option<&str>) -> Option<Seq<char>> {
    match o {
        Some(s) => Some(s@),
        None => None,
    }
}

/// The characters of an owned optional text.
pub open spec fn owned_view(o: Option<String>) -> Option<Seq<char>> {
    match o {
        Some(s) => Some(s@),
        None => None,
    }
}

/// An owned copy of a borrowed optional text.
pub fn own_opt(o: Option<&str>) -> (r: Option<String>)
    ensures
        owned_view(r) == borrowed_view(o),
{
    match o {
        Some(s) => Some(String::from_str(s)),
        None => None,
    }
}

/// Audio that never reached disk still gets a capture, marked missing.
pub fn integrity_for(audio_file_name: Option<&str>) -> (r: IntegrityState)
    ensures
        r == (if audio_file_name is Some {
            IntegrityState::AudioValid
        } else {
            IntegrityState::AudioMissing
        }),
{
    match audio_file_name {
        Some(_) => IntegrityState::AudioValid,
        None => IntegrityState::AudioMissing,
    }
}

/// The capture row of a dictation.
pub fn new_capture(
    title: &str,
    audio_file_name: Option<&str>,
    audio_sha256: Option<&str>,
    audio_size_bytes: Option<i64>,
) -> (r: NewCapture)
    ensures
        r.title@ == title@,
        owned_view(r.audio_file_name) == borrowed_view(audio_file_name),
        owned_view(r.audio_sha256) == borrowed_view(audio_sha256),
        r.audio_size_bytes == audio_size_bytes,
        r.source_app is None,
        r.integrity_state == (if audio_file_name is Some {
            IntegrityState::AudioValid
        } else {
            IntegrityState::AudioMissing
        }),
{
    NewCapture {
        audio_file_name: own_opt(audio_file_name),
        audio_sha256: own_opt(audio_sha256),
        audio_size_bytes,
        title: String::from_str(title),
        source_app: None,
        integrity_state: integrity_for(audio_file_name),
    }
}

/// The attempt row of a finished dictation under capture `capture_id`: it
/// carries the transcript, so it is inserted as a terminal success.
pub fn dictation_attempt(capture_id: String, input: &DictationInput) -> (r: NewAttempt)
    ensures
        r.capture_id == capture_id,
        owned_view(r.engine_raw) == Some(input.engine_raw@),
        owned_view(r.normalized_stt) == Some(input.normalized_stt@),
        owned_view(r.model_id) == borrowed_view(input.model_id),
        owned_view(r.language) == borrowed_view(input.language),
        r.normalizer_version@ == input.normalizer_version@,
        r.dictionary_snapshot_sha256 is None,
        initial_status(r) == AttemptStatus::Success,
{
    NewAttempt {
        capture_id,
        engine_raw: Some(String::from_str(input.engine_raw)),
        normalized_stt: Some(String::from_str(input.normalized_stt)),
        model_id: own_opt(input.model_id),
        language: own_opt(input.language),
        normalizer_version: String::from_str(input.normalizer_version),
        dictionary_snapshot_sha256: None,
    }
}

/// The derived layer of a dictation under attempt `attempt_id`: present
/// exactly when post-processing ran.
pub fn dictation_representation(attempt_id: String, input: &DictationInput) -> (r: Option<
    NewRepresentation,
>)
    ensures
        r is Some <==> input.post_processed_text is Some,
        r matches Some(rep) ==> {
            &&& rep.attempt_id == attempt_id
            &&& rep.parent_representation_id is None
            &&& rep.kind@ == "post_process"@
            &&& rep.text@ == input.post_processed_text->0@
            &&& rep.processor@ == "post_process"@
            &&& rep.processor_version@ == input.normalizer_version@
            &&& rep.prompt_profile_id is None
            &&& owned_view(rep.effective_prompt_snapshot) == borrowed_view(input.post_process_prompt)
            &&& rep.provider_snapshot is None
        },
{
    match input.post_processed_text {
        Some(text) => Some(
            NewRepresentation {
                attempt_id,
                parent_representation_id: None,
                kind: String::from_str("post_process"),
                text: String::from_str(text),
                processor: String::from_str("post_process"),
                processor_version: String::from_str(input.normalizer_version),
                prompt_profile_id: None,
                effective_prompt_snapshot: own_opt(input.post_process_prompt),
                provider_snapshot: None,
            },
        ),
        None => None,
    }
}

/// The source the delivery audit names: the representation when one was
/// written, else the normalized transcript of the attempt.
pub fn dictation_source(capture_id: String, attempt_id: String, representation_id: Option<String>) -> (r:
    DeliverySource)
    ensures
        r.capture_id == Some(capture_id),
        r.attempt_id == attempt_id,
        r.representation_id == representation_id,
        r.kind == (if representation_id is Some {
            DeliverySourceKind::Representation
        } else {
            DeliverySourceKind::NormalizedStt
        }),
{
    let kind = match representation_id {
        Some(_) => DeliverySourceKind::Representation,
        None => DeliverySourceKind::NormalizedStt,
    };
    DeliverySource { capture_id: Some(capture_id), attempt_id, representation_id, kind }
}

/// The attempt row of a dictation whose transcription failed: no text, so
/// it starts pending and never becomes canonical; it is then completed as
/// failed.
pub fn failed_attempt(capture_id: String) -> (r: NewAttempt)
    ensures
        r.capture_id == capture_id,
        r.engine_raw is None,
        r.normalized_stt is None,
        r.model_id is None,
        r.language is None,
        r.normalizer_version@ == Seq::<char>::empty(),
        r.dictionary_snapshot_sha256 is None,
        initial_status(r) == AttemptStatus::Pending,
{
    NewAttempt {
        capture_id,
        engine_raw: None,
        normalized_stt: None,
        model_id: None,
        language: None,
        normalizer_version: String::new(),
        dictionary_snapshot_sha256: None,
    }
}

} // verus!
