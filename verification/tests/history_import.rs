use handy_app_lib::commands::history::{
    ascii_lowercase, check_import_source, failed_import_integrity, imported_duration_ms,
    manual_audio_file_name, manual_import_ref,
};
use handy_app_lib::storage::models::IntegrityState;

#[test]
fn import_accepts_wav_and_mp3_in_any_case() {
    assert_eq!(check_import_source(true, 10, "WAV"), Ok("wav".to_string()));
    assert_eq!(check_import_source(true, 10, "mp3"), Ok("mp3".to_string()));
    assert_eq!(check_import_source(true, 1, "Mp3"), Ok("mp3".to_string()));
}

#[test]
fn import_refuses_empty_or_missing_sources_first() {
    assert_eq!(
        check_import_source(false, 10, "wav"),
        Err("Choose a non-empty audio file".to_string())
    );
    assert_eq!(
        check_import_source(true, 0, "flac"),
        Err("Choose a non-empty audio file".to_string())
    );
}

#[test]
fn import_refuses_other_extensions() {
    assert_eq!(
        check_import_source(true, 10, "flac"),
        Err("Only WAV and MP3 files are supported".to_string())
    );
    assert_eq!(
        check_import_source(true, 10, ""),
        Err("Only WAV and MP3 files are supported".to_string())
    );
}

#[test]
fn ascii_lowercase_keeps_other_characters() {
    assert_eq!(ascii_lowercase("AbC-Ä9"), "abc-Ä9");
}

#[test]
fn manual_names_and_refs() {
    assert_eq!(manual_audio_file_name("0190abc", "wav"), "manual-0190abc.wav");
    assert_eq!(manual_import_ref("0190abc"), "manual:0190abc");
}

#[test]
fn imported_duration_is_sixteen_samples_per_millisecond() {
    assert_eq!(imported_duration_ms(16_000), 1000);
    assert_eq!(imported_duration_ms(15_999), 999);
    assert_eq!(imported_duration_ms(0), 0);
}

#[test]
fn failed_import_integrity_states() {
    assert_eq!(failed_import_integrity(false, false, false), Some(IntegrityState::AudioMissing));
    assert_eq!(failed_import_integrity(false, true, true), Some(IntegrityState::AudioMissing));
    assert_eq!(failed_import_integrity(true, true, false), Some(IntegrityState::AudioCorrupt));
    assert_eq!(failed_import_integrity(true, false, false), None);
    assert_eq!(failed_import_integrity(true, true, true), None);
}
