use handy_app_lib::long_audio::is_abandoned_work_file;
use handy_app_lib::long_audio::{
    chunk_overlap, chunk_seam, choose_job, fitted_window, headless_advance, headless_begin,
    headless_retry_window, headless_window, join_at_boundary, join_chunks, merge_chunks,
    next_window, planned_end, read_range, retry_window, silence_cut_at, silence_probe,
    window_readable, worker_timeout_secs, check_recognized_speech, plan_chunk, retry_after_failure, stored_chunk,
    ChunkSeam, ChunkStep, ChunkTranscript, INITIAL_WINDOW_SAMPLES,
    MIN_WINDOW_SAMPLES, OVERLAP_SAMPLES, SAMPLE_RATE,
};
use handy_app_lib::storage::repositories::transcriptions::{ChunkRecord, IncompleteJob};

#[test]
fn joins_only_unambiguous_three_word_chain() {
    assert_eq!(
        join_chunks("Das ist ein guter Tag", "ein guter Tag für uns"),
        ("Das ist ein guter Tag für uns".into(), false)
    );
    assert_eq!(
        join_chunks("heute ist", "ist blau"),
        ("heute ist ist blau".into(), true)
    );
    assert!(join_chunks("und und und und", "und und und weiter").1);
    assert_eq!(
        join_chunks("Die Sonnenblume ist gelb,", "Sonnenblume ist gelb und groß"),
        ("Die Sonnenblume ist gelb, und groß".into(), false)
    );
}

#[test]
fn earlier_repeated_phrase_does_not_change_a_safe_local_seam() {
    let first = "alpha beta gamma first one two";
    let second = "first one two alpha beta gamma";
    let third = "alpha beta gamma last";
    let merged = join_chunks(first, second);
    assert!(!merged.1);
    assert!(!join_chunks(second, third).1);
    assert_eq!(
        join_at_boundary(&merged.0, second, third),
        (
            "alpha beta gamma first one two alpha beta gamma last".into(),
            false
        )
    );
}

fn make_job(id: &str, duration: i64) -> IncompleteJob {
    IncompleteJob {
        attempt_id: id.into(),
        capture_id: id.into(),
        audio_file_name: format!("{id}.wav"),
        model_id: None,
        audio_duration_ms: Some(duration),
    }
}

#[test]
fn short_dictations_preempt_long_work_without_starving_it() {
    // Query order is newest first; a newly arriving short job must win
    // even if the long job has already processed many chunks.
    let jobs = [make_job("short", 10_000), make_job("long", 1_200_000)];
    let mut streak = 0;
    assert_eq!(choose_job(&jobs[1..], &mut streak).attempt_id, "long");
    for _ in 0..3 {
        assert_eq!(choose_job(&jobs, &mut streak).attempt_id, "short");
    }
    assert_eq!(choose_job(&jobs, &mut streak).attempt_id, "long");
    assert_eq!(choose_job(&jobs, &mut streak).attempt_id, "short");
}

fn chunk(window: i64, uncertain: bool) -> ChunkRecord {
    ChunkRecord {
        chunk_index: 0,
        start_sample: 0,
        end_sample: window,
        window_samples: window,
        payload_json: String::new(),
        seam_uncertain: uncertain,
        seam_left: None,
        seam_right: None,
    }
}

#[test]
fn successful_smaller_window_is_reused_after_restart() {
    let prior = ChunkRecord {
        chunk_index: 0,
        start_sample: 0,
        end_sample: (INITIAL_WINDOW_SAMPLES / 4) as i64,
        window_samples: (INITIAL_WINDOW_SAMPLES / 4) as i64,
        payload_json: String::new(),
        seam_uncertain: false,
        seam_left: None,
        seam_right: None,
    };
    assert_eq!(next_window(Some(&prior)), INITIAL_WINDOW_SAMPLES / 4);
}

#[test]
fn next_window_starts_full_and_never_shrinks_below_five_seconds() {
    assert_eq!(next_window(None), INITIAL_WINDOW_SAMPLES);
    assert_eq!(next_window(Some(&chunk(1_000, false))), 5 * SAMPLE_RATE as u64);
    assert_eq!(next_window(Some(&chunk(10_000_000, false))), INITIAL_WINDOW_SAMPLES);
}

#[test]
fn short_jobs_alone_reset_the_streak() {
    let jobs = [make_job("a", 5_000), make_job("b", 6_000)];
    let mut streak = 2;
    assert_eq!(choose_job(&jobs, &mut streak).attempt_id, "a");
    assert_eq!(streak, 0);
}

#[test]
fn unknown_duration_counts_as_long_work() {
    let mut unknown = make_job("u", 0);
    unknown.audio_duration_ms = None;
    let jobs = [make_job("s", 1_000), unknown];
    let mut streak = 3;
    assert_eq!(choose_job(&jobs, &mut streak).attempt_id, "u");
    assert_eq!(streak, 0);
}

#[test]
fn uncertain_seam_widens_the_next_overlap() {
    assert_eq!(chunk_overlap(None), OVERLAP_SAMPLES);
    assert_eq!(chunk_overlap(Some(&chunk(100, false))), OVERLAP_SAMPLES);
    assert_eq!(chunk_overlap(Some(&chunk(100, true))), 5 * SAMPLE_RATE as u64);
}

#[test]
fn fitted_window_respects_the_model_limit() {
    assert_eq!(fitted_window(INITIAL_WINDOW_SAMPLES, None, OVERLAP_SAMPLES), Some(INITIAL_WINDOW_SAMPLES - 2 * OVERLAP_SAMPLES));
    assert_eq!(fitted_window(INITIAL_WINDOW_SAMPLES, Some(200_000), OVERLAP_SAMPLES), Some(200_000 - 2 * OVERLAP_SAMPLES));
    assert_eq!(fitted_window(INITIAL_WINDOW_SAMPLES, Some(100_000), OVERLAP_SAMPLES), None);
}

#[test]
fn retries_halve_the_window_down_to_five_seconds() {
    assert_eq!(retry_window(400_000), 200_000);
    assert_eq!(retry_window(100_000), MIN_WINDOW_SAMPLES);
    assert_eq!(headless_retry_window(400_000, 0), Some(200_000));
    assert_eq!(headless_retry_window(400_000, 1), Some(200_000));
    assert_eq!(headless_retry_window(400_000, 2), None);
}

#[test]
fn reads_are_clipped_to_the_recording() {
    assert_eq!(read_range(0, 100_000, OVERLAP_SAMPLES, 120_000), (0, 120_000));
    assert_eq!(read_range(50_000, 100_000, OVERLAP_SAMPLES, 500_000), (18_000, 132_000));
    assert_eq!(planned_end(10, 100, 50), 50);
    assert_eq!(planned_end(10, 100, 500), 110);
    assert!(window_readable(0, INITIAL_WINDOW_SAMPLES, INITIAL_WINDOW_SAMPLES));
    assert!(!window_readable(0, INITIAL_WINDOW_SAMPLES + 1, INITIAL_WINDOW_SAMPLES + 1));
    assert!(!window_readable(5, 5, 10));
}

#[test]
fn silence_is_only_probed_inside_long_windows() {
    let s = SAMPLE_RATE as u64;
    assert_eq!(silence_probe(0, 10 * s, 10 * s), None);
    assert_eq!(silence_probe(0, 6 * s, 20 * s), None);
    assert_eq!(silence_probe(0, 10 * s, 20 * s), Some(8 * s));
    assert_eq!(silence_probe(0, 8 * s, 20 * s), Some(6 * s));
    assert_eq!(silence_cut_at(8 * s, 10 * s, None), 10 * s);
    assert_eq!(silence_cut_at(8 * s, 10 * s, Some(0)), 8 * s + 320);
}

#[test]
fn worker_timeout_is_bounded() {
    let s = SAMPLE_RATE as u64;
    assert_eq!(worker_timeout_secs(0, 0), 180);
    assert_eq!(worker_timeout_secs(0, 30 * s), 300);
    assert_eq!(worker_timeout_secs(0, 30 * s + 1), 310);
    assert_eq!(worker_timeout_secs(0, 3600 * s), 900);
}

#[test]
fn headless_window_needs_room_for_both_overlaps() {
    assert_eq!(headless_window(None), Ok(INITIAL_WINDOW_SAMPLES - 2 * OVERLAP_SAMPLES));
    assert_eq!(headless_window(Some(10_000_000)), Ok(INITIAL_WINDOW_SAMPLES));
    assert_eq!(
        headless_window(Some(100_000)),
        Err("Model audio window is too small for safe overlap".to_string())
    );
}

#[test]
fn headless_progress_joins_windows_and_keeps_first_language() {
    let p = headless_begin();
    let p = headless_advance(p, 100, "Das ist ein guter Tag".into(), None);
    let p = headless_advance(p, 200, "ein guter Tag für uns".into(), Some("de".into()));
    let p = headless_advance(p, 300, "Tag für uns alle".into(), Some("en".into()));
    assert_eq!(p.start, 300);
    assert_eq!(p.text, "Das ist ein guter Tag für uns alle");
    assert_eq!(p.language.as_deref(), Some("de"));
}

#[test]
fn uncertain_seams_keep_excerpts_for_review() {
    let certain = chunk_seam(Some("Das ist ein guter Tag"), "ein guter Tag für uns");
    assert!(!certain.uncertain);
    assert!(certain.left.is_none() && certain.right.is_none());
    let unsure = chunk_seam(Some("heute ist"), "ist blau");
    assert!(unsure.uncertain);
    assert_eq!(unsure.left.as_deref(), Some("heute ist"));
    assert_eq!(unsure.right.as_deref(), Some("ist blau"));
    let long_left = "x".repeat(150);
    let s = chunk_seam(Some(&long_left), "y");
    assert!(s.uncertain);
    assert_eq!(s.left.unwrap().chars().count(), 100);
    assert!(!chunk_seam(None, "anything").uncertain);
}

#[test]
fn merged_chunks_join_in_order() {
    let chunks = vec![
        ChunkTranscript { engine_raw: "Das ist ein guter Tag".into(), language: None },
        ChunkTranscript { engine_raw: "ein guter Tag für uns".into(), language: Some("de".into()) },
    ];
    let (text, language) = merge_chunks(&chunks);
    assert_eq!(text, "Das ist ein guter Tag für uns");
    assert_eq!(language.as_deref(), Some("de"));
    assert_eq!(merge_chunks(&Vec::new()), (String::new(), None));
}

#[test]
fn the_next_chunk_starts_where_the_last_ended() {
    assert_eq!(plan_chunk(&vec![], 100_000), ChunkStep::Transcribe { start: 0, chunk_index: 0 });
    assert_eq!(plan_chunk(&vec![], 0), ChunkStep::Finish);
    let first = chunk(48_000, false);
    assert_eq!(
        plan_chunk(&vec![first.clone()], 100_000),
        ChunkStep::Transcribe { start: 48_000, chunk_index: 1 }
    );
    assert_eq!(plan_chunk(&vec![first], 48_000), ChunkStep::Finish);
}

#[test]
fn a_failed_window_is_retried_twice_with_smaller_windows() {
    assert_eq!(retry_after_failure(0, 480_000), Some((1, 240_000)));
    assert_eq!(retry_after_failure(1, 240_000), Some((2, 120_000)));
    assert_eq!(retry_after_failure(1, 100_000), Some((2, MIN_WINDOW_SAMPLES)));
    assert_eq!(retry_after_failure(2, 120_000), None);
}

#[test]
fn a_stored_chunk_finishes_the_job_at_the_end_of_the_recording() {
    let seam = ChunkSeam { uncertain: true, left: Some("a".into()), right: Some("b".into()) };
    let (row, done) = stored_chunk(2, 96_000, 144_000, 48_000, 144_000, "{}".into(), seam);
    assert!(done);
    assert_eq!((row.chunk_index, row.start_sample, row.end_sample, row.window_samples), (2, 96_000, 144_000, 48_000));
    assert!(row.seam_uncertain);
    assert_eq!(row.seam_left.as_deref(), Some("a"));
    let (_, done) = stored_chunk(
        0,
        0,
        48_000,
        48_000,
        144_000,
        String::new(),
        ChunkSeam { uncertain: false, left: None, right: None },
    );
    assert!(!done);
}

#[test]
fn only_uuid_staging_files_count_as_abandoned_work() {
    let id = "0190a8b2-6f3e-7c1d-9a2b-3c4d5e6f7a8b";
    assert!(is_abandoned_work_file(&format!("{id}.part")));
    assert!(is_abandoned_work_file(&format!("{id}.import.part")));
    assert!(!is_abandoned_work_file(&format!("{id}.wav")));
    assert!(!is_abandoned_work_file("notes.part"));
    assert!(!is_abandoned_work_file(".part"));
    assert!(!is_abandoned_work_file(&format!("x{id}.import.part")));
}

#[test]
fn every_uuid_form_counts_and_others_do_not() {
    let id = "0190a8b2-6f3e-7c1d-9a2b-3c4d5e6f7a8b";
    assert!(is_abandoned_work_file(&format!("{{{id}}}.part")));
    assert!(is_abandoned_work_file(&format!("URN:uuid:{id}.part")));
    assert!(is_abandoned_work_file("0190a8b26f3e7c1d9a2b3c4d5e6f7a8b.part"));
    assert!(!is_abandoned_work_file("0190a8b2-6f3e-7c1d-9a2b-3c4d5e6f7a8g.part"));
    assert!(!is_abandoned_work_file("0190a8b2x6f3e-7c1d-9a2b-3c4d5e6f7a8b.part"));
}

#[test]
fn silent_audio_is_refused() {
    assert_eq!(check_recognized_speech(" \n\t"), Err("Audio contains no recognized speech".to_string()));
    assert_eq!(check_recognized_speech(""), Err("Audio contains no recognized speech".to_string()));
    assert_eq!(check_recognized_speech(" hallo "), Ok(()));
}
