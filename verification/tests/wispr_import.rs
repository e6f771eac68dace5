use handy_app_lib::managers::wispr_import::{
    classify_word, derived_layers, dry_run_report, entry_body, first_line, import_history_step,
    import_polish_step, import_ref, import_word_step, imported_capture, parse_wispr_time,
    wispr_time_from, ExtractedAudio, ImportReport, ImportedWord,
};
use handy_app_lib::storage::models::{AttemptProvenance, AttemptStatus, IntegrityState};

#[test]
fn dry_run_counts_without_writes() {
    let r = dry_run_report(2, 2);
    assert_eq!(r.history_imported, 2);
    assert_eq!(r.dictionary_imported, 2);
    assert_eq!(r.history_skipped + r.audio_extracted + r.polish_imported, 0);
    assert!(ImportReport::default().errors.is_empty());
}

#[test]
fn entries_are_titled_by_their_first_line() {
    assert_eq!(first_line("Hallo Welt\nzweite Zeile"), "Hallo Welt");
    assert_eq!(first_line("Zeile\r\nmehr"), "Zeile");
    assert_eq!(first_line(""), "Imported entry");
    assert_eq!(first_line("\nrest"), "");
    let long: String = "ä".repeat(70);
    assert_eq!(first_line(&long).chars().count(), 60);
    assert_eq!(entry_body(Some("asr"), Some("fmt")), "asr");
    assert_eq!(entry_body(None, Some("fmt")), "fmt");
    assert_eq!(entry_body(None, None), "Imported Wispr entry");
    assert_eq!(import_ref("abc"), "wispr:abc");
}

#[test]
fn imported_captures_record_their_audio() {
    let with = imported_capture(
        "t".into(),
        Some("Slack".into()),
        Some(ExtractedAudio { file_name: "wispr-1.wav".into(), sha256: "h".into(), size_bytes: 9 }),
    );
    assert_eq!(with.integrity_state, IntegrityState::AudioValid);
    assert_eq!(with.audio_size_bytes, Some(9));
    let without = imported_capture("t".into(), None, None);
    assert_eq!(without.integrity_state, IntegrityState::RecoveredOrphan);
    assert!(without.audio_file_name.is_none());
}

#[test]
fn formatted_and_edited_texts_become_layers() {
    let layers = derived_layers(Some("formatiert"), Some("bearbeitet"));
    assert_eq!(layers, vec![("post_process", "formatiert".to_string()), ("manual_edit", "bearbeitet".to_string())]);
    assert_eq!(derived_layers(Some(""), None), vec![]);
    assert_eq!(derived_layers(None, Some("x")), vec![("manual_edit", "x".to_string())]);
}

#[test]
fn dictionary_rows_split_into_terms_and_snippets() {
    match classify_word("mfg".into(), Some("Mit freundlichen Grüßen".into())) {
        ImportedWord::Snippet(s) => {
            assert_eq!(s.trigger, "mfg");
            assert_eq!(s.replacement, "Mit freundlichen Grüßen");
            assert_eq!(s.priority, 0);
            assert!(s.enabled);
        }
        ImportedWord::Term(_) => panic!("expected a snippet"),
    }
    assert!(matches!(classify_word("Handy".into(), None), ImportedWord::Term(t) if t.term == "Handy" && t.aliases.is_empty()));
    assert!(matches!(classify_word("Handy".into(), Some("   ".into())), ImportedWord::Term(_)));
}

#[test]
fn an_already_imported_entry_is_only_counted_as_skipped() {
    let (r, rows) = import_history_step(
        ImportReport::new(),
        true,
        "e1",
        5,
        Some("hallo"),
        None,
        None,
        None,
        Some(Ok(ExtractedAudio { file_name: "a.wav".into(), sha256: "h".into(), size_bytes: 3 })),
    );
    assert!(rows.is_none());
    assert_eq!(r.history_skipped, 1);
    assert_eq!(r.history_imported + r.audio_extracted, 0);
    assert!(r.errors.is_empty());
}

#[test]
fn a_new_entry_yields_capture_attempt_and_layers() {
    let (r, rows) = import_history_step(
        ImportReport::new(),
        false,
        "e2",
        1_700_000_000_000,
        Some("erste zeile\nzweite"),
        Some("Erste Zeile."),
        Some(""),
        Some("Slack".to_string()),
        Some(Ok(ExtractedAudio { file_name: "w.wav".into(), sha256: "abc".into(), size_bytes: 9 })),
    );
    let rows = rows.expect("imported");
    assert_eq!(r.history_imported, 1);
    assert_eq!(r.audio_extracted, 1);
    assert_eq!(rows.capture.title, "erste zeile");
    assert_eq!(rows.capture.audio_file_name.as_deref(), Some("w.wav"));
    assert_eq!(rows.capture.integrity_state, IntegrityState::AudioValid);
    assert_eq!(rows.capture.source_app.as_deref(), Some("Slack"));
    assert_eq!(rows.import_ref, "wispr:e2");
    assert_eq!(rows.created_at_ms, 1_700_000_000_000);
    assert_eq!(rows.attempt.attempt_number, 1);
    assert_eq!(rows.attempt.normalized_stt.as_deref(), Some("erste zeile\nzweite"));
    assert_eq!(rows.attempt.provenance, AttemptProvenance::LegacyMigration);
    assert_eq!(rows.attempt.status, AttemptStatus::Success);
    assert!(rows.attempt.is_canonical);
    assert_eq!(rows.layers, vec![("post_process", "Erste Zeile.".to_string())]);
}

#[test]
fn a_failed_extraction_is_an_error_and_the_entry_comes_without_audio() {
    let (r, rows) = import_history_step(
        ImportReport::new(),
        false,
        "e3",
        0,
        None,
        None,
        None,
        None,
        Some(Err("disk full".to_string())),
    );
    let rows = rows.expect("imported");
    assert_eq!(r.errors, vec!["e3: audio: disk full".to_string()]);
    assert_eq!(r.audio_extracted, 0);
    assert_eq!(rows.capture.title, "Imported Wispr entry");
    assert_eq!(rows.capture.integrity_state, IntegrityState::RecoveredOrphan);
    assert!(rows.attempt.normalized_stt.is_none());
}

#[test]
fn dictionary_rows_are_counted_by_kind() {
    let (r, w) = import_word_step(ImportReport::new(), "adresse".into(), Some("Musterstr. 1".into()));
    assert!(matches!(w, ImportedWord::Snippet(_)));
    assert_eq!((r.snippet_triggers_imported, r.dictionary_imported), (1, 0));
    let (r, w) = import_word_step(r, "Handy".into(), Some("  ".into()));
    assert!(matches!(w, ImportedWord::Term(_)));
    assert_eq!((r.snippet_triggers_imported, r.dictionary_imported), (1, 1));
}

#[test]
fn polish_rows_need_an_attempt_and_a_text() {
    let (r, p) = import_polish_step(ImportReport::new(), None, false, Some("x".into()), None, None, 1);
    assert!(p.is_none());
    assert_eq!(r.polish_imported, 0);
    let (r, p) = import_polish_step(r, Some("a1".into()), false, None, None, None, 1);
    assert!(p.is_none());
    assert_eq!(r.polish_imported, 0);
    let (r, p) = import_polish_step(r, Some("a1".into()), false, Some("Poliert.".into()), None, Some("m-2".into()), 7);
    let p = p.expect("imported");
    assert_eq!(r.polish_imported, 1);
    assert_eq!((p.attempt_id.as_str(), p.kind, p.text.as_str(), p.processor), ("a1", "style", "Poliert.", "wispr_polish"));
    assert_eq!(p.effective_prompt_snapshot, "");
    assert_eq!(p.provider_snapshot.as_deref(), Some("m-2"));
    assert_eq!(p.created_at_ms, 7);
}

#[test]
fn wispr_timestamps_read_as_epoch_milliseconds() {
    let read = parse_wispr_time(Some("2026-08-27 18:22:20.079 +00:00"), 42);
    assert!((read - 1_787_854_940_079).abs() <= 1, "read {read}");
    assert_eq!(parse_wispr_time(Some("not a date"), 42), 42);
    assert_eq!(parse_wispr_time(None, 42), 42);
    assert_eq!(wispr_time_from(Some(5), 42), 5);
    assert_eq!(wispr_time_from(None, 42), 42);
}

#[test]
fn a_polish_already_imported_is_not_imported_again() {
    let (r, p) = import_polish_step(
        ImportReport::new(),
        Some("a1".into()),
        true,
        Some("Poliert.".into()),
        Some("Kürzer".into()),
        None,
        7,
    );
    assert!(p.is_none());
    assert_eq!(r.polish_imported, 0);
}

#[test]
fn clock_words_aside_timestamps_read_the_same_each_time() {
    let a = parse_wispr_time(Some("2026-08-27 18:22:20.079 +00:00"), 1);
    let b = parse_wispr_time(Some("2026-08-27 18:22:20.079 +00:00"), 2);
    assert_eq!(a, b);
    assert_eq!(parse_wispr_time(Some(""), 9), 9);
}
