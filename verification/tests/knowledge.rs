use handy_app_lib::managers::knowledge::{
    audio_of, exportable_items_of, note_item_of, transcription_item_of, CaptureExportSource,
    ExportRefusal, KnowledgeKind, NoteExportSource, KNOWLEDGE_CONTRACT_VERSION,
};
use handy_app_lib::storage::repositories::captures::CaptureRecord;
use handy_app_lib::storage::repositories::notes::{NoteRecord, NoteVersionRecord};
use handy_app_lib::storage::repositories::representations::RepresentationRecord;
use handy_app_lib::storage::repositories::transcriptions::AttemptRecord;

fn capture(id: &str, audio: bool, deleted: bool) -> CaptureRecord {
    CaptureRecord {
        id: id.into(),
        legacy_history_id: None,
        audio_file_name: if audio { Some("handy-1.wav".into()) } else { None },
        audio_sha256: if audio { Some("abc123".into()) } else { None },
        audio_size_bytes: if audio { Some(4096) } else { None },
        title: "Standup notes".into(),
        source_app: None,
        saved: true,
        integrity_state: if audio { "audio_valid".into() } else { "audio_missing".into() },
        created_at_ms: 1_700_000_000_000,
        updated_at_ms: 1_700_000_000_500,
        deleted_at_ms: if deleted { Some(1) } else { None },
    }
}

fn attempt(normalized: Option<&str>) -> AttemptRecord {
    AttemptRecord {
        id: "att-1".into(),
        capture_id: "cap-1".into(),
        attempt_number: 1,
        engine_raw: Some("um so the api is  down".into()),
        normalized_stt: normalized.map(|s| s.to_string()),
        model_id: Some("whisper-small".into()),
        language: Some("en".into()),
        normalizer_version: Some("1".into()),
        dictionary_snapshot_sha256: None,
        provenance: "live".into(),
        status: "success".into(),
        error: None,
        is_canonical: true,
        created_at_ms: 1,
        completed_at_ms: Some(1),
    }
}

fn representation() -> RepresentationRecord {
    RepresentationRecord {
        id: "rep-1".into(),
        attempt_id: "att-1".into(),
        parent_representation_id: None,
        kind: "post_process".into(),
        text: "The API is down.".into(),
        content_hash_sha256: None,
        processor: Some("post_process".into()),
        processor_version: Some("1".into()),
        prompt_profile_id: None,
        effective_prompt_snapshot: None,
        provider_snapshot: None,
        status: "success".into(),
        created_at_ms: 0,
    }
}

#[test]
fn canonical_raw_is_the_normalized_transcript() {
    let c = capture("cap-1", true, false);
    let a = attempt(Some("So the API is down"));
    let item = transcription_item_of(Some(&c), Some(&a), &vec![representation()]).unwrap();
    assert_eq!(item.raw, "So the API is down");
    assert_eq!(item.kind, KnowledgeKind::Transcription);
    assert_eq!(item.export_id, "capture:cap-1");
    assert_eq!(item.source_id, "cap-1");
    assert_eq!(item.attempt_id.as_deref(), Some("att-1"));
    assert_eq!(item.contract_version, KNOWLEDGE_CONTRACT_VERSION);
    assert_eq!(item.representations.len(), 1);
    assert_eq!(item.representations[0].text, "The API is down.");
    assert_eq!(item.representations[0].created_at, "1970-01-01T00:00:00.000Z");
    assert_eq!(item.created_at, "2023-11-14T22:13:20.000Z");
    assert_eq!(item.updated_at, "2023-11-14T22:13:20.500Z");
    let audio = item.audio.unwrap();
    assert_eq!(audio.file_name.as_deref(), Some("handy-1.wav"));
    assert_eq!(audio.bytes, Some(4096));
    assert_eq!(audio.integrity_state, "audio_valid");
}

#[test]
fn building_twice_gives_the_same_identity() {
    let c = capture("cap-1", false, false);
    let a = attempt(Some("x"));
    let one = transcription_item_of(Some(&c), Some(&a), &Vec::new()).unwrap();
    let two = transcription_item_of(Some(&c), Some(&a), &Vec::new()).unwrap();
    assert_eq!(one.export_id, two.export_id);
    assert!(one.audio.is_none());
    assert!(audio_of(&c).is_none());
}

#[test]
fn missing_or_untranscribed_captures_are_refused() {
    let live = capture("cap-1", true, false);
    let trashed = capture("cap-1", true, true);
    assert_eq!(transcription_item_of(None, None, &Vec::new()).unwrap_err(), ExportRefusal::NotFound);
    assert_eq!(
        transcription_item_of(Some(&trashed), Some(&attempt(Some("x"))), &Vec::new()).unwrap_err(),
        ExportRefusal::NotFound
    );
    assert_eq!(
        transcription_item_of(Some(&live), None, &Vec::new()).unwrap_err(),
        ExportRefusal::NoCanonicalAttempt
    );
    assert_eq!(
        transcription_item_of(Some(&live), Some(&attempt(None)), &Vec::new()).unwrap_err(),
        ExportRefusal::NoCanonicalAttempt
    );
}

fn note(deleted: bool) -> NoteRecord {
    NoteRecord {
        id: "note-1".into(),
        title: "Pad".into(),
        pinned: false,
        deleted_at_ms: if deleted { Some(5) } else { None },
        created_at_ms: 0,
        updated_at_ms: 1_000,
    }
}

fn version(content: &str) -> NoteVersionRecord {
    NoteVersionRecord {
        id: "v-2".into(),
        note_id: "note-1".into(),
        version_no: 2,
        content: content.into(),
        content_hash_sha256: String::new(),
        source: "manual_edit".into(),
        created_at_ms: 1_000,
    }
}

#[test]
fn a_note_exports_its_current_content() {
    let item = note_item_of(Some(&note(false)), Some(&version("zweite fassung"))).unwrap();
    assert_eq!(item.kind, KnowledgeKind::Note);
    assert_eq!(item.export_id, "note:note-1");
    assert_eq!(item.raw, "zweite fassung");
    assert!(item.attempt_id.is_none() && item.audio.is_none());
    assert!(item.representations.is_empty());
    assert_eq!(item.updated_at, "1970-01-01T00:00:01.000Z");
    assert_eq!(note_item_of(Some(&note(true)), Some(&version("x"))).unwrap_err(), ExportRefusal::NotFound);
    assert_eq!(note_item_of(Some(&note(false)), None).unwrap_err(), ExportRefusal::NotFound);
    assert_eq!(note_item_of(None, None).unwrap_err(), ExportRefusal::NotFound);
}

#[test]
fn exportable_items_skip_what_has_nothing_to_say() {
    let captures = vec![
        CaptureExportSource { capture: capture("a", true, false), attempt: Some(attempt(Some("eins"))), representations: Vec::new() },
        CaptureExportSource { capture: capture("b", true, false), attempt: None, representations: Vec::new() },
        CaptureExportSource { capture: capture("c", false, false), attempt: Some(attempt(Some("drei"))), representations: Vec::new() },
    ];
    let notes = vec![
        NoteExportSource { note: note(false), current: Some(version("n")) },
        NoteExportSource { note: note(false), current: None },
    ];
    let items = exportable_items_of(&captures, &notes);
    let ids: Vec<&str> = items.iter().map(|i| i.export_id.as_str()).collect();
    assert_eq!(ids, ["capture:a", "capture:c", "note:note-1"]);
}
