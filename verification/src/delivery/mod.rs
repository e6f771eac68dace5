//! Transcript delivery routing.
//!
//! Where a finished transcript goes is an explicit, recorded decision. Each
//! destination is a [`DeliverySink`]; [`deliver_with_audit`] delivers once
//! through the chosen sink and appends exactly one audit event, success or
//! failure, through a [`DeliveryAudit`] hook. The audit observes; it can
//! never turn a delivered transcript into a failure.

use vstd::prelude::*;

use crate::storage::hashing::{content_hash, hex_lower, sha256_spec, utf8};
use crate::storage::models::{DeliveryDestination, DeliverySourceKind};
use crate::storage::repositories::deliveries::NewDeliveryEvent;
use crate::storage::repositories::transcriptions::clone_opt;
use crate::text::{blank_chars, chars_of, is_blank, string_of};

pub mod pipeline;

verus! {

/// Why a delivery did not reach its destination.
#[derive(Clone, Debug)]
pub struct DeliveryError(String);

impl DeliveryError {
    /// The message the error carries.
    pub closed spec fn text(self) -> Seq<char> {
        self.0@
    }

    pub fn new(message: &str) -> (r: Self)
        ensures
            r.text() == message@,
    {
        DeliveryError(String::from_str(message))
    }

    pub fn message(&self) -> (r: &str)
        ensures
            r@ == self.text(),
    {
        self.0.as_str()
    }
}

/// The immutable origin of the delivered text: identifiers only, never the
/// text itself, so no transcript body is duplicated.
#[derive(Clone, Debug)]
pub struct DeliverySource {
    pub capture_id: Option<String>,
    pub attempt_id: String,
    pub representation_id: Option<String>,
    pub kind: DeliverySourceKind,
}

/// One destination for a finished transcript.
pub trait DeliverySink {
    fn destination(&self) -> DeliveryDestination;

    fn deliver(&self, text: &str) -> Result<(), DeliveryError>;
}

/// Audit hook. Implementations observe deliveries; whatever they return is
/// reported nowhere but their own log.
pub trait DeliveryAudit {
    fn record(
        &self,
        source: &DeliverySource,
        destination: DeliveryDestination,
        text: &str,
        outcome: Result<(), &DeliveryError>,
    ) -> Result<(), String>;
}

/// The result of a delivery once its audit has run: the sink's own outcome,
/// whatever the audit reported.
pub fn settle_delivery(outcome: Result<(), DeliveryError>, recorded: Result<(), String>) -> (r: Result<
    (),
    DeliveryError,
>)
    ensures
        r == outcome,
{
    let _ = recorded;
    outcome
}

/// Deliver once, then append exactly one event describing what happened.
///
/// The sink is asked once, with `text`; the audit is asked once, with the
/// source, the sink's destination, the same text and the sink's outcome.
/// What comes back is the sink's outcome (see [`settle_delivery`]): an audit
/// failure never changes it.
pub fn deliver_with_audit<S: DeliverySink + ?Sized, A: DeliveryAudit + ?Sized>(
    sink: &S,
    audit: &A,
    source: &DeliverySource,
    text: &str,
) -> (r: Result<(), DeliveryError>)
    ensures
        call_ensures(S::deliver, (sink, text), r),
        exists|d: DeliveryDestination, recorded: Result<(), String>|
            call_ensures(S::destination, (sink,), d) && #[trigger] call_ensures(
                A::record,
                (audit, source, d, text, outcome_seen(&r)),
                recorded,
            ),
{
    let outcome = sink.deliver(text);
    let seen: Result<(), &DeliveryError> = match &outcome {
        Ok(()) => Ok(()),
        Err(e) => Err(e),
    };
    let destination = sink.destination();
    let recorded = audit.record(source, destination, text, seen);
    assert(seen == outcome_seen(&outcome));
    settle_delivery(outcome, recorded)
}

/// The outcome as the audit is shown it: the error by reference.
pub open spec fn outcome_seen(outcome: &Result<(), DeliveryError>) -> Result<(), &DeliveryError> {
    match outcome {
        Ok(()) => Ok(()),
        Err(e) => Err(e),
    }
}

/// The audit row for one delivery: the source's identifiers, the
/// destination, the hash of the exact delivered text, and the outcome with
/// its message when it failed.
pub fn audit_event(
    source: &DeliverySource,
    destination: DeliveryDestination,
    text: &str,
    outcome: Result<(), &DeliveryError>,
) -> (r: NewDeliveryEvent)
    ensures
        r.capture_id == source.capture_id,
        r.source_attempt_id == source.attempt_id,
        r.representation_id == source.representation_id,
        r.source_kind == source.kind,
        r.destination == Some(destination),
        r.text_sha256@ == hex_lower(sha256_spec(utf8(text@))),
        r.success == outcome is Ok,
        r.error matches Some(m) <==> outcome is Err,
        r.error matches Some(m) ==> m@ == outcome->Err_0.text(),
{
    NewDeliveryEvent {
        capture_id: clone_opt(&source.capture_id),
        source_attempt_id: source.attempt_id.clone(),
        representation_id: clone_opt(&source.representation_id),
        source_kind: source.kind,
        destination: Some(destination),
        text_sha256: content_hash(text),
        success: outcome.is_ok(),
        error: match outcome {
            Ok(()) => None,
            Err(e) => Some(String::from_str(e.message())),
        },
    }
}

/// What the scratchpad note holds after `text` is dictated into it: the
/// text alone when the note is blank, else the note, a newline, the text.
pub open spec fn scratchpad_appended(current: Seq<char>, text: Seq<char>) -> Seq<char> {
    if is_blank(current) {
        text
    } else {
        current + seq!['\n'] + text
    }
}

/// The new content of the scratchpad note that `text` is dictated into.
pub fn scratchpad_append(current: &str, text: &str) -> (r: String)
    ensures
        r@ == scratchpad_appended(current@, text@),
{
    let cur = chars_of(current);
    if blank_chars(cur.as_slice()) {
        String::from_str(text)
    } else {
        let mut out = cur;
        out.push('\n');
        let t = chars_of(text);
        crate::text::extend_chars(&mut out, t.as_slice());
        string_of(out.as_slice())
    }
}

} // verus!
