//! Delivery events: the append-only audit of where delivered text went.
//! Each names the immutable source and a hash of the exact delivered text;
//! no transcript body is duplicated.

use vstd::prelude::*;

use crate::storage::models::{DeliveryDestination, DeliverySourceKind};
use crate::storage::repositories::transcriptions::clone_opt;

verus! {

#[derive(Clone, Debug)]
pub struct NewDeliveryEvent {
    pub capture_id: Option<String>,
    pub source_attempt_id: String,
    pub representation_id: Option<String>,
    pub source_kind: DeliverySourceKind,
    pub destination: Option<DeliveryDestination>,
    /// Hash of the exact text handed to the destination.
    pub text_sha256: String,
    pub success: bool,
    pub error: Option<String>,
}

#[derive(Clone, Debug)]
pub struct DeliveryEventRecord {
    pub id: String,
    pub capture_id: Option<String>,
    pub source_attempt_id: String,
    pub representation_id: Option<String>,
    pub source_kind: String,
    pub destination: Option<String>,
    pub text_sha256: String,
    pub success: bool,
    pub error: Option<String>,
    pub created_at_ms: i64,
}

/// The row appended for `event` with id `id` at `now_ms`: kinds and
/// destinations are stored by name, everything else as given.
pub fn delivery_event_record(event: &NewDeliveryEvent, id: String, now_ms: i64) -> (r: DeliveryEventRecord)
    ensures
        r.id == id,
        r.capture_id == event.capture_id,
        r.source_attempt_id == event.source_attempt_id,
        r.representation_id == event.representation_id,
        r.source_kind@ == event.source_kind.name(),
        r.destination matches Some(d) <==> event.destination is Some,
        r.destination matches Some(d) ==> d@ == event.destination->0.name(),
        r.text_sha256 == event.text_sha256,
        r.success == event.success,
        r.error == event.error,
        r.created_at_ms == now_ms,
{
    DeliveryEventRecord {
        id,
        capture_id: clone_opt(&event.capture_id),
        source_attempt_id: event.source_attempt_id.clone(),
        representation_id: clone_opt(&event.representation_id),
        source_kind: String::from_str(event.source_kind.as_str()),
        destination: match event.destination {
            Some(d) => Some(String::from_str(d.as_str())),
            None => None,
        },
        text_sha256: event.text_sha256.clone(),
        success: event.success,
        error: clone_opt(&event.error),
        created_at_ms: now_ms,
    }
}

} // verus!
