use handy_app_lib::storage::audio_files::{check_staged, digest_matches, is_riff_wave};
use handy_app_lib::storage::database::integrity_verdict;
use handy_app_lib::storage::hashing::{content_hash, hex, sha256_hex};
use handy_app_lib::storage::migrations::{
    app_meta_seed, legacy_created_at_ms, legacy_post_process, migration_step, needs_migration,
    query_contract_row, up_to_date_report, MigrationStep, CANONICAL_SCHEMA, IMPORT_REF_SCHEMA,
    LEGACY_V1_CREATE, LEGACY_V2_ALTER, LEGACY_V3_ALTER, LEGACY_V4_UPSTREAM_ALTER, TARGET_VERSION,
};
use handy_app_lib::storage::models::{
    AttemptProvenance, AttemptStatus, DeliveryDestination, DeliverySourceKind, IntegrityState,
    RepresentationStatus,
};
use handy_app_lib::storage::recovery::{
    is_referenced, orphan_capture, orphan_duration_ms, pending_capture_state,
    staged_recovery_capture, RecoveryReport,
};
use handy_app_lib::storage::usage::{automatic_retention_enabled, usage_summary, FileSize};

#[test]
fn legacy_statements_match_upstream_shape() {
    // Guard against drift between the two runners' version numbering.
    assert!(LEGACY_V1_CREATE.contains("transcription_history"));
    assert!(LEGACY_V2_ALTER.contains("post_processed_text"));
    assert!(LEGACY_V3_ALTER.contains("post_process_prompt"));
    assert!(LEGACY_V4_UPSTREAM_ALTER.contains("post_process_requested"));
}

#[test]
fn every_version_up_to_the_target_has_a_step() {
    for v in 1..=TARGET_VERSION {
        assert!(migration_step(v, None).is_ok(), "version {v}");
    }
    assert!(matches!(migration_step(1, None), Ok(MigrationStep::Batch(s)) if s == LEGACY_V1_CREATE));
    assert!(matches!(migration_step(4, None), Ok(MigrationStep::LegacyRequestedColumn)));
    assert!(matches!(migration_step(5, None), Ok(MigrationStep::Canonical)));
    assert!(matches!(migration_step(11, None), Ok(MigrationStep::Batch(s)) if s == IMPORT_REF_SCHEMA));
    assert!(CANONICAL_SCHEMA.contains("CREATE TABLE IF NOT EXISTS captures"));
    assert_eq!(migration_step(12, None).unwrap_err(), "unknown migration step 12");
    assert_eq!(migration_step(0, None).unwrap_err(), "unknown migration step 0");
}

#[test]
fn injected_failure_is_reported_at_its_version() {
    assert_eq!(
        migration_step(5, Some(5)).unwrap_err(),
        "injected failure at version 5 (rollback test)"
    );
    assert!(migration_step(4, Some(5)).is_ok());
}

#[test]
fn migration_is_needed_only_below_the_target() {
    assert_eq!(needs_migration(0), Ok(true));
    assert_eq!(needs_migration(TARGET_VERSION), Ok(false));
    assert_eq!(
        needs_migration(12),
        Err("database user_version 12 is newer than supported 11".to_string())
    );
    let report = up_to_date_report(TARGET_VERSION);
    assert_eq!(report.from_version, TARGET_VERSION);
    assert_eq!(report.to_version, TARGET_VERSION);
    assert_eq!(report.legacy_rows_backfilled, 0);
    assert!(report.backup_path.is_none());
}

#[test]
fn app_meta_is_seeded_once() {
    let rows = app_meta_seed(0, "0.9.6-test");
    assert_eq!(rows.len(), 2);
    assert_eq!(rows[0], ("schema_version", "11".to_string()));
    assert_eq!(rows[1], ("created_by_app_version", "0.9.6-test".to_string()));
    assert!(app_meta_seed(11, "x").is_empty());
    assert_eq!(query_contract_row(), ("query_contract_version", "1".to_string()));
}

#[test]
fn legacy_seconds_become_milliseconds() {
    assert_eq!(legacy_created_at_ms(1_700_000_000), 1_700_000_000_000);
    assert_eq!(legacy_created_at_ms(i64::MAX), i64::MAX);
    assert_eq!(legacy_created_at_ms(i64::MIN), i64::MIN);
    assert_eq!(legacy_created_at_ms(-5), -5_000);
}

#[test]
fn legacy_post_processing_survives_as_a_snapshot() {
    let done = legacy_post_process(
        &Some("aufbereitet".into()),
        true,
        &Some("Fasse den Text zusammen".into()),
    )
    .unwrap();
    assert_eq!(done.text, "aufbereitet");
    assert_eq!(done.status, "success");
    assert_eq!(done.prompt_snapshot, "Fasse den Text zusammen");
    let failed = legacy_post_process(&None, true, &None).unwrap();
    assert_eq!(failed.text, "");
    assert_eq!(failed.status, "failed");
    assert_eq!(failed.prompt_snapshot, "");
    assert!(legacy_post_process(&None, false, &Some("p".into())).is_none());
}

#[test]
fn stored_names_of_the_vocabulary() {
    assert_eq!(IntegrityState::PendingAudio.as_str(), "pending_audio");
    assert_eq!(IntegrityState::RecoveredOrphan.as_str(), "recovered_orphan");
    assert_eq!(AttemptStatus::Success.as_str(), "success");
    assert_eq!(AttemptStatus::Running.as_str(), "running");
    assert_eq!(AttemptProvenance::LegacyMigration.as_str(), "legacy_migration");
    assert_eq!(RepresentationStatus::Failed.as_str(), "failed");
    assert_eq!(DeliverySourceKind::NormalizedStt.as_str(), "normalized_stt");
    assert_eq!(DeliveryDestination::FocusedApp.as_str(), "focused_app");
    assert_eq!(DeliveryDestination::Clipboard.as_str(), "clipboard");
}

#[test]
fn content_hash_is_sha256_hex() {
    assert_eq!(
        content_hash(""),
        "e3b0c44298fc1c149afbf4c8996fb92427ae41e4649b934ca495991b7852b855"
    );
    assert_eq!(
        content_hash("abc"),
        "ba7816bf8f01cfea414140de5dae2223b00361a396177a9cb410ff61f20015ad"
    );
    assert_eq!(sha256_hex(b"abc"), content_hash("abc"));
    assert_eq!(hex(&[0x00, 0x0f, 0xa0, 0xff]), "000fa0ff");
}

#[test]
fn staged_audio_must_be_a_wave_of_header_size() {
    let mut header = *b"RIFF\x24\x00\x00\x00WAVE";
    assert!(is_riff_wave(&header));
    assert_eq!(check_staged(&header, 44), Ok(()));
    assert_eq!(check_staged(&header, 43), Err("staged audio too small (43 bytes)".to_string()));
    header[8] = b'X';
    assert!(!is_riff_wave(&header));
    assert_eq!(check_staged(&header, 1000), Err("staged audio is not a RIFF/WAVE file".to_string()));
    assert!(!is_riff_wave(b"RIFF"));
}

#[test]
fn finalized_audio_is_checked_against_its_digest() {
    assert!(digest_matches(
        b"abc",
        "ba7816bf8f01cfea414140de5dae2223b00361a396177a9cb410ff61f20015ad"
    ));
    assert!(!digest_matches(b"abd", "ba7816bf8f01cfea414140de5dae2223b00361a396177a9cb410ff61f20015ad"));
}

#[test]
fn integrity_check_must_say_ok() {
    assert_eq!(integrity_verdict("ok"), Ok(()));
    assert_eq!(
        integrity_verdict("*** in database main ***"),
        Err("integrity_check reported: *** in database main ***".to_string())
    );
}

#[test]
fn pending_captures_are_reconciled_by_what_is_on_disk() {
    assert_eq!(pending_capture_state(false, false, None), IntegrityState::AudioMissing);
    assert_eq!(pending_capture_state(true, false, Some(10)), IntegrityState::AudioMissing);
    assert_eq!(pending_capture_state(true, true, Some(10)), IntegrityState::RecoveredOrphan);
    assert_eq!(pending_capture_state(true, true, Some(0)), IntegrityState::AudioCorrupt);
    assert_eq!(pending_capture_state(true, true, None), IntegrityState::AudioCorrupt);
}

#[test]
fn orphans_are_adopted_with_an_estimated_start() {
    assert_eq!(orphan_duration_ms(16_000, 16_000), Some(1_000));
    assert_eq!(orphan_duration_ms(16_001, 16_000), Some(1_001));
    assert_eq!(orphan_duration_ms(0, 16_000), None);
    assert_eq!(orphan_duration_ms(100, 0), None);
    let (capture, start) = orphan_capture("a.wav", "h".into(), 10, 5_000, Some(1_001));
    assert_eq!(start, 3_999);
    assert_eq!(capture.title, "Recovered a.wav (estimated time)");
    assert_eq!(capture.audio_file_name.as_deref(), Some("a.wav"));
    assert_eq!(capture.integrity_state, IntegrityState::RecoveredOrphan);
    let (corrupt, start) = orphan_capture("b.wav", "h".into(), 10, i64::MIN, None);
    assert_eq!(start, i64::MIN);
    assert_eq!(corrupt.integrity_state, IntegrityState::AudioCorrupt);
    let (_, start) = orphan_capture("c.wav", "h".into(), 10, i64::MIN + 1, Some(5));
    assert_eq!(start, i64::MIN);
    let staged = staged_recovery_capture("rec-1.wav", "s".into(), 44);
    assert_eq!(staged.title, "Recovered rec-1.wav");
    assert_eq!(staged.integrity_state, IntegrityState::RecoveredOrphan);
    let report = RecoveryReport::default();
    assert!(report.recovered_from_staging.is_empty() && report.adopted_orphan_recordings.is_empty());
}

#[test]
fn usage_separates_unreferenced_recordings() {
    let files = vec![
        FileSize { name: "a.wav".into(), bytes: 100 },
        FileSize { name: "b.wav".into(), bytes: 30 },
        FileSize { name: "c.wav".into(), bytes: 7 },
    ];
    let staged = vec![FileSize { name: "x.tmp".into(), bytes: 5 }];
    let referenced = vec!["a.wav".to_string(), "c.wav".to_string(), "gone.wav".to_string()];
    assert!(is_referenced(&referenced, "c.wav"));
    assert!(!is_referenced(&referenced, "b.wav"));
    let usage = usage_summary(&files, &staged, &referenced, 4096, 512, 2, 1);
    assert_eq!(usage.unreferenced_recording_bytes, 30);
    assert_eq!(usage.recording_total_bytes, 107);
    assert_eq!(usage.staged_temp_count, 1);
    assert_eq!(usage.staged_temp_bytes, 5);
    assert_eq!(usage.database_bytes, 4096);
    assert_eq!(usage.database_wal_bytes, 512);
    assert_eq!(usage.recording_count, 2);
    assert_eq!(usage.trashed_capture_count, 1);
    assert!(!automatic_retention_enabled());
}
