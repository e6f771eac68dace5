use handy_app_lib::long_audio::{
    invalid_request_reply, load_reply, selected_after_load, work_reply, worker_model, WorkerReply,
};

#[test]
fn worker_refuses_work_before_a_model_is_selected() {
    assert_eq!(worker_model(&None), Err("Worker model not loaded".to_string()));
    assert_eq!(worker_model(&Some("parakeet".to_string())), Ok("parakeet".to_string()));
}

#[test]
fn a_failed_load_keeps_the_earlier_selection() {
    assert_eq!(
        selected_after_load(Some("old".to_string()), "new".to_string(), false),
        Some("old".to_string())
    );
    assert_eq!(selected_after_load(None, "new".to_string(), false), None);
    assert_eq!(
        selected_after_load(Some("old".to_string()), "new".to_string(), true),
        Some("new".to_string())
    );
}

#[test]
fn load_reply_carries_error_and_limit() {
    let r: WorkerReply<String> = load_reply(Some("missing".to_string()), Some(480_000));
    assert!(r.output.is_none());
    assert_eq!(r.error.as_deref(), Some("missing"));
    assert_eq!(r.max_audio_samples, Some(480_000));
}

#[test]
fn work_reply_carries_output_or_error() {
    let ok = work_reply::<String>(Ok("hello".to_string()));
    assert_eq!(ok.output.as_deref(), Some("hello"));
    assert!(ok.error.is_none());
    assert!(ok.max_audio_samples.is_none());
    let err = work_reply::<String>(Err("bad window".to_string()));
    assert!(err.output.is_none());
    assert_eq!(err.error.as_deref(), Some("bad window"));
}

#[test]
fn invalid_request_names_the_reason() {
    let r = invalid_request_reply::<String>("expected value at line 1 column 1");
    assert_eq!(
        r.error.as_deref(),
        Some("Invalid worker request: expected value at line 1 column 1")
    );
    assert!(r.output.is_none());
}
