use handy_app_lib::storage::repositories::search::note_document;
use handy_app_lib::commands::history::{
    attempt_in_flight, finish_page, format_cursor, origin_filter, page_size, parse_cursor,
    parse_retention_period, retry_allowed, seam_position_ms, CanonicalHistoryEntry, OriginFilter,
    RecordingRetentionPeriod,
};
use handy_app_lib::commands::notes::{frontend_source, note_dto, version_dto};
use handy_app_lib::storage::hashing::content_hash;
use handy_app_lib::storage::models::{AttemptStatus, DeliveryDestination, DeliverySourceKind};
use handy_app_lib::storage::repositories::captures::purge_allowed;
use handy_app_lib::storage::repositories::deliveries::{delivery_event_record, NewDeliveryEvent};
use handy_app_lib::storage::repositories::exports::{
    existing_job_outcome, failure_update, idempotency_key, is_claimable, is_stale_running,
    new_export_job, EnqueueOutcome,
};
use handy_app_lib::storage::repositories::notes::{
    find_version, plan_version, NoteRecord, NoteVersionRecord, SOURCE_DICTATION,
    SOURCE_MANUAL_EDIT,
};
use handy_app_lib::storage::repositories::representations::{
    new_representation_record, NewRepresentation,
};
use handy_app_lib::storage::repositories::search::{clamp_limit, clamp_offset, quote_term, to_match_expr};
use handy_app_lib::storage::repositories::transcriptions::{
    completion_status, new_attempt_record, CompletionRefusal, NewAttempt,
};

fn entry(id: &str, ms: i64) -> CanonicalHistoryEntry {
    CanonicalHistoryEntry {
        capture_id: id.into(),
        created_at_ms: ms,
        title: "t".into(),
        text: String::new(),
        saved: true,
        audio_file_name: None,
        source_app: None,
        origin: "handy".into(),
        integrity_state: "audio_valid".into(),
        attempt_status: "success".into(),
        attempt_error: None,
        audio_duration_ms: None,
        completed_samples: 0,
        completed_chunks: 0,
        review_seams: 0,
    }
}

#[test]
fn history_cursor_round_trips() {
    let c = format_cursor(1_700_000_000_123, "abc-id");
    assert_eq!(c, "1700000000123:abc-id");
    assert_eq!(parse_cursor(Some(&c)), Ok(Some((1_700_000_000_123, "abc-id".to_string()))));
    assert_eq!(parse_cursor(Some("-5:x:y")), Ok(Some((-5, "x:y".to_string()))));
    assert_eq!(parse_cursor(None), Ok(None));
    assert_eq!(parse_cursor(Some("nocolon")), Err("invalid history cursor".to_string()));
    assert_eq!(parse_cursor(Some("12a:x")), Err("invalid history cursor timestamp".to_string()));
    assert_eq!(parse_cursor(Some("12:")), Err("invalid history cursor id".to_string()));
}

#[test]
fn history_pages_are_bounded_and_link_onwards() {
    assert_eq!(page_size(0), 1);
    assert_eq!(page_size(50), 50);
    assert_eq!(page_size(10_000), 200);
    let page = finish_page(vec![entry("c", 3), entry("b", 2), entry("a", 1)], 2);
    assert_eq!(page.entries.len(), 2);
    assert_eq!(page.next_cursor.as_deref(), Some("2:b"));
    let last = finish_page(vec![entry("a", 1)], 2);
    assert_eq!(last.entries.len(), 1);
    assert!(last.next_cursor.is_none());
}

#[test]
fn history_filters_and_retries() {
    assert_eq!(origin_filter(None), Ok(OriginFilter::All));
    assert_eq!(origin_filter(Some("wispr")), Ok(OriginFilter::Wispr));
    assert_eq!(origin_filter(Some("manual")), Ok(OriginFilter::Manual));
    assert_eq!(origin_filter(Some("x")), Err("invalid history origin".to_string()));
    assert_eq!(seam_position_ms(16_000), 1_000);
    assert_eq!(seam_position_ms(-16_001), -1_000);
    assert!(retry_allowed("audio_valid") && retry_allowed("recovered_orphan"));
    assert!(!retry_allowed("audio_missing"));
    assert!(attempt_in_flight(Some("pending")) && attempt_in_flight(Some("running")));
    assert!(!attempt_in_flight(Some("failed")) && !attempt_in_flight(None));
    assert_eq!(parse_retention_period("weeks2"), Ok(RecordingRetentionPeriod::Weeks2));
    assert_eq!(
        parse_retention_period("forever"),
        Err("Invalid retention period: forever".to_string())
    );
}

#[test]
fn notes_reach_the_frontend_as_dtos() {
    let n = note_dto(NoteRecord {
        id: "n".into(),
        title: "Pad".into(),
        pinned: true,
        deleted_at_ms: Some(3),
        created_at_ms: 1,
        updated_at_ms: 2,
    });
    assert!(n.trashed && n.pinned);
    assert_eq!(n.title, "Pad");
    let v = version_dto(NoteVersionRecord {
        id: "v".into(),
        note_id: "n".into(),
        version_no: 4,
        content: "inhalt".into(),
        content_hash_sha256: "h".into(),
        source: "restore".into(),
        created_at_ms: 9,
    });
    assert_eq!((v.version_no, v.content.as_str(), v.source.as_str()), (4, "inhalt", "restore"));
    assert_eq!(frontend_source("manual_edit"), Ok(SOURCE_MANUAL_EDIT));
    assert_eq!(frontend_source("dictation"), Ok(SOURCE_DICTATION));
    assert_eq!(
        frontend_source("transform"),
        Err("unsupported note source 'transform'".to_string())
    );
}

#[test]
fn note_versions_are_deduplicated_and_found() {
    assert_eq!(plan_version(None, "h"), Some(1));
    assert_eq!(plan_version(Some((3, "h")), "h"), None);
    assert_eq!(plan_version(Some((3, "h")), "g"), Some(4));
    let versions: Vec<NoteVersionRecord> = (1..=3)
        .map(|n| NoteVersionRecord {
            id: format!("v{n}"),
            note_id: "n".into(),
            version_no: n,
            content: format!("c{n}"),
            content_hash_sha256: String::new(),
            source: "manual_edit".into(),
            created_at_ms: n,
        })
        .collect();
    assert_eq!(find_version(&versions, 2), Some(1));
    assert_eq!(find_version(&versions, 9), None);
}

#[test]
fn export_jobs_follow_their_state_machine() {
    assert_eq!(idempotency_key("t", "capture:1", "h"), "t|capture:1|h");
    let job = new_export_job("j".into(), "t", "capture:1", "h", 100);
    assert_eq!(job.status, "pending");
    assert_eq!(job.idempotency_key, "t|capture:1|h");
    assert!(is_claimable(&job, 0));
    assert!(matches!(existing_job_outcome(job.clone()), EnqueueOutcome::AlreadyQueued(_)));
    let mut done = job.clone();
    done.status = "succeeded".into();
    assert!(!is_claimable(&done, 1_000));
    assert!(matches!(existing_job_outcome(done), EnqueueOutcome::AlreadyExported(_)));
    let first = failure_update(0, 1_000);
    assert_eq!(first.status, "retry_wait");
    assert_eq!(first.next_attempt_at_ms, Some(31_000));
    let second = failure_update(1, 1_000);
    assert_eq!(second.next_attempt_at_ms, Some(61_000));
    let last = failure_update(4, 1_000);
    assert_eq!(last.status, "failed_permanent");
    assert_eq!(last.completed_at_ms, Some(1_000));
    let mut waiting = job;
    waiting.status = "retry_wait".into();
    waiting.next_attempt_at_ms = Some(500);
    assert!(!is_claimable(&waiting, 499));
    assert!(is_claimable(&waiting, 500));
    assert!(is_stale_running("running", Some(0), 60_000));
    assert!(!is_stale_running("running", Some(1), 60_000));
    assert!(!is_stale_running("pending", Some(0), 60_000));
}

#[test]
fn search_input_is_quoted_and_bounded() {
    assert_eq!(quote_term("say \"hi\""), "\"say \"\"hi\"\"\"");
    assert_eq!(to_match_expr("hello world"), Some("\"hello\" \"world\"".to_string()));
    assert_eq!(to_match_expr("foo* OR -- ..."), Some("\"foo*\" \"OR\"".to_string()));
    assert_eq!(to_match_expr("  *** "), None);
    assert_eq!(clamp_limit(0), 1);
    assert_eq!(clamp_limit(500), 200);
    assert_eq!(clamp_offset(-3), 0);
}

fn new_attempt(text: Option<&str>) -> NewAttempt {
    NewAttempt {
        capture_id: "cap".into(),
        engine_raw: None,
        normalized_stt: text.map(|t| t.to_string()),
        model_id: None,
        language: None,
        normalizer_version: "1".into(),
        dictionary_snapshot_sha256: None,
    }
}

#[test]
fn attempts_start_and_complete_as_their_lifecycle_allows() {
    let first = new_attempt_record(&new_attempt(Some("text")), "a1".into(), 1, false, 10);
    assert_eq!(first.status, "success");
    assert!(first.is_canonical);
    assert_eq!(first.completed_at_ms, Some(10));
    let later = new_attempt_record(&new_attempt(Some("text")), "a2".into(), 2, true, 11);
    assert!(!later.is_canonical);
    let pending = new_attempt_record(&new_attempt(None), "a3".into(), 3, false, 12);
    assert_eq!(pending.status, "pending");
    assert!(!pending.is_canonical && pending.completed_at_ms.is_none());
    assert_eq!(completion_status(Some("running"), true), Ok(AttemptStatus::Success));
    assert_eq!(completion_status(Some("pending"), false), Ok(AttemptStatus::Failed));
    assert_eq!(completion_status(Some("success"), true), Err(CompletionRefusal::AlreadyTerminal));
    assert_eq!(completion_status(None, true), Err(CompletionRefusal::Unknown));
    assert!(purge_allowed(Some(1)) && !purge_allowed(None));
}

#[test]
fn stored_rows_keep_sources_and_hashes() {
    let rep = new_representation_record(
        &NewRepresentation {
            attempt_id: "a".into(),
            parent_representation_id: None,
            kind: "style".into(),
            text: "abc".into(),
            processor: "p".into(),
            processor_version: "1".into(),
            prompt_profile_id: Some("prof".into()),
            effective_prompt_snapshot: Some("SYSTEM:\nx".into()),
            provider_snapshot: None,
        },
        "r".into(),
        7,
    );
    assert_eq!(rep.content_hash_sha256.as_deref(), Some(content_hash("abc").as_str()));
    assert_eq!(rep.status, "success");
    assert_eq!(rep.processor.as_deref(), Some("p"));
    let event = delivery_event_record(
        &NewDeliveryEvent {
            capture_id: None,
            source_attempt_id: "a".into(),
            representation_id: None,
            source_kind: DeliverySourceKind::Representation,
            destination: Some(DeliveryDestination::Scratchpad),
            text_sha256: "h".into(),
            success: false,
            error: Some("busy".into()),
        },
        "e".into(),
        5,
    );
    assert_eq!(event.source_kind, "representation");
    assert_eq!(event.destination.as_deref(), Some("scratchpad"));
    assert_eq!(event.error.as_deref(), Some("busy"));
    assert!(!event.success);
}

#[test]
fn saving_versions_appends_and_restore_reuses_old_content() {
    let mut history: Vec<(i64, String)> = Vec::new();
    for hash in ["a", "a", "b", "a"] {
        let latest = history.last().map(|(n, h)| (*n, h.as_str()));
        if let Some(no) = plan_version(latest, hash) {
            history.push((no, hash.to_string()));
        }
    }
    assert_eq!(
        history,
        vec![(1, "a".to_string()), (2, "b".to_string()), (3, "a".to_string())]
    );
}

#[test]
fn a_note_is_indexed_by_title_and_current_content() {
    assert_eq!(note_document("Notiz", "gaertnern im herbst"), "Notiz gaertnern im herbst");
    assert_eq!(note_document("", ""), " ");
}
