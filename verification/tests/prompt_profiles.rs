use std::sync::Mutex;

use handy_app_lib::managers::prompt_profiles::{
    build_provenance, check_transformable, compose_user_prompt, disables_reasoning, finish_run,
    run_profile, LlmTransport, PromptProfile,
    KIND_STYLE, KIND_TRANSFORM,
};

fn profile(enabled: bool) -> PromptProfile {
    PromptProfile {
        id: "p-1".into(),
        name: "Umformulieren".into(),
        kind: KIND_TRANSFORM.into(),
        system_prompt: "Du bist ein Lektor.".into(),
        user_template: "Formuliere um:\n{text}".into(),
        provider_id: "openai-compatible-local".into(),
        model: "llama3:8b".into(),
        enabled,
    }
}

struct MockTransport {
    response: Result<String, String>,
    calls: Mutex<Vec<(String, String, String)>>,
}

impl LlmTransport for MockTransport {
    fn complete(&self, system_prompt: &str, user_prompt: &str, model: &str) -> Result<String, String> {
        self.calls
            .lock()
            .unwrap()
            .push((system_prompt.into(), user_prompt.into(), model.into()));
        self.response.clone()
    }
}

#[test]
fn user_template_placeholder_is_substituted() {
    assert_eq!(compose_user_prompt("Formuliere um:\n{text}", "hallo welt"), "Formuliere um:\nhallo welt");
    assert_eq!(compose_user_prompt("{text} und {text}", "a"), "a und a");
    assert_eq!(compose_user_prompt("{other} {tex", "a"), "{other} {tex");
    assert_eq!(compose_user_prompt("{{text}}", "a"), "{a}");
    assert_eq!(KIND_STYLE, "style");
}

#[test]
fn provenance_snapshot_captures_everything() {
    let p = profile(true);
    let prov = build_provenance(&p, "Formuliere um:\nhallo");
    assert_eq!(prov.profile_id, "p-1");
    assert_eq!(prov.profile_name, "Umformulieren");
    assert_eq!(prov.kind, "transform");
    assert_eq!(prov.provider_id, "openai-compatible-local");
    assert_eq!(prov.model, "llama3:8b");
    assert_eq!(
        prov.effective_prompt_snapshot,
        "SYSTEM:\nDu bist ein Lektor.\n\nUSER:\nFormuliere um:\nhallo"
    );
}

#[test]
fn a_run_sends_the_composed_prompt_once() {
    let t = MockTransport { response: Ok("umgeformter text".into()), calls: Mutex::new(Vec::new()) };
    let (out, prov) = run_profile(&profile(true), "eingabe text", &t).unwrap();
    assert_eq!(out, "umgeformter text");
    assert_eq!(prov.profile_id, "p-1");
    let calls = t.calls.lock().unwrap();
    assert_eq!(calls.len(), 1);
    assert_eq!(calls[0].0, "Du bist ein Lektor.");
    assert_eq!(calls[0].1, "Formuliere um:\neingabe text");
    assert_eq!(calls[0].2, "llama3:8b");
}

#[test]
fn a_disabled_profile_refuses_to_run() {
    let t = MockTransport { response: Ok("x".into()), calls: Mutex::new(Vec::new()) };
    assert_eq!(
        run_profile(&profile(false), "text", &t).unwrap_err(),
        "profile 'Umformulieren' is disabled"
    );
    assert!(t.calls.lock().unwrap().is_empty());
}

#[test]
fn transport_errors_pass_through() {
    let t = MockTransport { response: Err("provider down".into()), calls: Mutex::new(Vec::new()) };
    assert_eq!(run_profile(&profile(true), "text", &t).unwrap_err(), "provider down");
    let p = build_provenance(&profile(true), "u");
    assert_eq!(finish_run(Err("e".into()), p.clone()).unwrap_err(), "e");
    assert_eq!(finish_run(Ok("o".into()), p).unwrap().0, "o");
}

#[test]
fn custom_and_openrouter_skip_reasoning() {
    assert!(disables_reasoning("custom"));
    assert!(disables_reasoning("openrouter"));
    assert!(!disables_reasoning("openai"));
    assert!(!disables_reasoning("Custom"));
}

#[test]
fn blank_notes_are_not_transformed() {
    assert_eq!(
        check_transformable("  \n\t "),
        Err("note is empty; nothing to transform".to_string())
    );
    assert_eq!(check_transformable(""), Err("note is empty; nothing to transform".to_string()));
    assert_eq!(check_transformable(" x "), Ok(()));
}
