use std::cell::RefCell;

use handy_app_lib::delivery::pipeline::{
    dictation_attempt, dictation_representation, dictation_source, failed_attempt, integrity_for,
    new_capture, DictationInput,
};
use handy_app_lib::delivery::{
    audit_event, deliver_with_audit, scratchpad_append, settle_delivery, DeliveryAudit,
    DeliveryError, DeliverySink, DeliverySource,
};
use handy_app_lib::storage::hashing::content_hash;
use handy_app_lib::storage::models::{DeliveryDestination, DeliverySourceKind, IntegrityState};
use handy_app_lib::storage::repositories::deliveries::NewDeliveryEvent;

fn source() -> DeliverySource {
    DeliverySource {
        capture_id: Some("cap-1".into()),
        attempt_id: "att-1".into(),
        representation_id: None,
        kind: DeliverySourceKind::NormalizedStt,
    }
}

/// Records what it was asked to deliver; optionally fails.
struct FakeSink {
    destination: DeliveryDestination,
    fail_with: Option<String>,
    delivered: RefCell<Vec<String>>,
}

impl FakeSink {
    fn ok(destination: DeliveryDestination) -> Self {
        Self { destination, fail_with: None, delivered: RefCell::new(Vec::new()) }
    }
    fn failing(destination: DeliveryDestination, msg: &str) -> Self {
        Self { destination, fail_with: Some(msg.into()), delivered: RefCell::new(Vec::new()) }
    }
}

impl DeliverySink for FakeSink {
    fn destination(&self) -> DeliveryDestination {
        self.destination
    }
    fn deliver(&self, text: &str) -> Result<(), DeliveryError> {
        self.delivered.borrow_mut().push(text.to_string());
        match &self.fail_with {
            Some(m) => Err(DeliveryError::new(m)),
            None => Ok(()),
        }
    }
}

/// Keeps every audit row in memory.
struct MemoryAudit {
    events: RefCell<Vec<NewDeliveryEvent>>,
}

impl DeliveryAudit for MemoryAudit {
    fn record(
        &self,
        source: &DeliverySource,
        destination: DeliveryDestination,
        text: &str,
        outcome: Result<(), &DeliveryError>,
    ) -> Result<(), String> {
        self.events.borrow_mut().push(audit_event(source, destination, text, outcome));
        Ok(())
    }
}

#[test]
fn fixture_08_audit_failure_does_not_swallow_a_successful_delivery() {
    // The audit is an observer: if the event cannot be written, the text was
    // still delivered and the caller must not be told otherwise.
    struct BrokenAudit;
    impl DeliveryAudit for BrokenAudit {
        fn record(
            &self,
            _source: &DeliverySource,
            _destination: DeliveryDestination,
            _text: &str,
            _outcome: Result<(), &DeliveryError>,
        ) -> Result<(), String> {
            Err("audit db is gone".into())
        }
    }

    let source = source();
    let sink = FakeSink::ok(DeliveryDestination::FocusedApp);

    let result = deliver_with_audit(&sink, &BrokenAudit, &source, "text");
    assert!(
        result.is_ok(),
        "a broken audit must not turn a delivered transcript into an error"
    );
    assert_eq!(sink.delivered.borrow().len(), 1);
}

#[test]
fn each_delivery_records_exactly_one_event() {
    let audit = MemoryAudit { events: RefCell::new(Vec::new()) };
    let sink = FakeSink::ok(DeliveryDestination::FocusedApp);
    deliver_with_audit(&sink, &audit, &source(), "hallo welt").unwrap();
    assert_eq!(sink.delivered.borrow().as_slice(), ["hallo welt"]);
    let events = audit.events.borrow();
    assert_eq!(events.len(), 1);
    let e = &events[0];
    assert!(e.success);
    assert_eq!(e.destination, Some(DeliveryDestination::FocusedApp));
    assert_eq!(e.source_attempt_id, "att-1");
    assert_eq!(e.capture_id.as_deref(), Some("cap-1"));
    assert_eq!(e.text_sha256, content_hash("hallo welt"));
    assert!(e.error.is_none());
}

#[test]
fn failed_delivery_is_recorded_with_its_reason() {
    let audit = MemoryAudit { events: RefCell::new(Vec::new()) };
    let sink = FakeSink::failing(DeliveryDestination::Clipboard, "target refused paste");
    let err = deliver_with_audit(&sink, &audit, &source(), "text").unwrap_err();
    assert_eq!(err.message(), "target refused paste");
    let events = audit.events.borrow();
    assert_eq!(events.len(), 1);
    assert!(!events[0].success);
    assert_eq!(events[0].error.as_deref(), Some("target refused paste"));
    assert_eq!(events[0].destination, Some(DeliveryDestination::Clipboard));
}

#[test]
fn settling_keeps_the_sink_outcome() {
    assert!(settle_delivery(Ok(()), Err("x".into())).is_ok());
    let e = settle_delivery(Err(DeliveryError::new("busy")), Ok(())).unwrap_err();
    assert_eq!(e.message(), "busy");
}

#[test]
fn scratchpad_appends_on_a_new_line_unless_blank() {
    assert_eq!(scratchpad_append("erste zeile", "diktat"), "erste zeile\ndiktat");
    assert_eq!(scratchpad_append("  \n\t", "diktat"), "diktat");
    assert_eq!(scratchpad_append("", "diktat"), "diktat");
}

fn input<'a>(post: Option<&'a str>, audio: Option<&'a str>) -> DictationInput<'a> {
    DictationInput {
        title: "Standup notes",
        audio_file_name: audio,
        audio_sha256: audio.map(|_| "abc123"),
        audio_size_bytes: audio.map(|_| 4096),
        engine_raw: "um so the api is  down",
        normalized_stt: "So the API is down",
        model_id: Some("whisper-small"),
        language: Some("en"),
        normalizer_version: "1",
        post_processed_text: post,
        post_process_prompt: post.map(|_| "Clean up filler words."),
    }
}

#[test]
fn dictation_rows_carry_the_transcript_verbatim() {
    let i = input(Some("The API is down."), Some("handy-1.wav"));
    let capture = new_capture(i.title, i.audio_file_name, i.audio_sha256, i.audio_size_bytes);
    assert_eq!(capture.title, "Standup notes");
    assert_eq!(capture.audio_file_name.as_deref(), Some("handy-1.wav"));
    assert_eq!(capture.integrity_state, IntegrityState::AudioValid);
    let attempt = dictation_attempt("cap".into(), &i);
    assert_eq!(attempt.engine_raw.as_deref(), Some("um so the api is  down"));
    assert_eq!(attempt.normalized_stt.as_deref(), Some("So the API is down"));
    assert_eq!(attempt.model_id.as_deref(), Some("whisper-small"));
    let rep = dictation_representation("att".into(), &i).unwrap();
    assert_eq!(rep.kind, "post_process");
    assert_eq!(rep.text, "The API is down.");
    assert_eq!(rep.effective_prompt_snapshot.as_deref(), Some("Clean up filler words."));
    let src = dictation_source("cap".into(), "att".into(), Some("rep".into()));
    assert_eq!(src.kind, DeliverySourceKind::Representation);
}

#[test]
fn dictation_without_post_processing_or_audio() {
    let i = input(None, None);
    assert_eq!(integrity_for(None), IntegrityState::AudioMissing);
    assert!(dictation_representation("att".into(), &i).is_none());
    let src = dictation_source("cap".into(), "att".into(), None);
    assert_eq!(src.kind, DeliverySourceKind::NormalizedStt);
    assert_eq!(src.capture_id.as_deref(), Some("cap"));
    let failed = failed_attempt("cap".into());
    assert!(failed.normalized_stt.is_none() && failed.engine_raw.is_none());
    assert_eq!(failed.normalizer_version, "");
}
