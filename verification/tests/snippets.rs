use handy_app_lib::managers::snippets::apply_snippet_list;
use handy_app_lib::storage::repositories::snippets::SnippetRecord;

/// Enabled snippets as the repository hands them to the matcher: in
/// (priority DESC, trigger length DESC, id ASC) order. Triggers are unique
/// without regard to case, so a later upsert of the same trigger updates it.
fn snippets(list: &[(&str, &str, &str, i64)]) -> Vec<SnippetRecord> {
    list.iter()
        .map(|(id, trigger, replacement, priority)| SnippetRecord {
            id: id.to_string(),
            trigger: trigger.to_string(),
            replacement: replacement.to_string(),
            priority: *priority,
            enabled: true,
            created_at_ms: 0,
            updated_at_ms: 0,
        })
        .collect()
}

#[test]
fn fixture_04_single_word_exact_replacement() {
    let s = snippets(&[("1", "email", "max@beispiel.de", 0)]);
    assert_eq!(
        apply_snippet_list(&s, "schick mir deine email bitte"),
        "schick mir deine max@beispiel.de bitte"
    );
}

#[test]
fn fixture_05_multi_word_phrase_trigger() {
    let s = snippets(&[("1", "meine adresse", "Hauptplatz 1, 1010 Wien", 0)]);
    assert_eq!(
        apply_snippet_list(&s, "sende meine adresse an tom"),
        "sende Hauptplatz 1, 1010 Wien an tom"
    );
}

#[test]
fn fixture_06_case_insensitive_match_replacement_verbatim() {
    let s = snippets(&[("1", "Gruesse", "Beste Grüße", 0)]);
    assert_eq!(apply_snippet_list(&s, "GRUESSE an alle"), "Beste Grüße an alle");
}

#[test]
fn fixture_07_punctuation_attached_is_preserved() {
    let s = snippets(&[("1", "adresse", "Hauptstraße 5", 0)]);
    // Punctuation glued to the token survives around the replacement.
    assert_eq!(apply_snippet_list(&s, "meine adresse, ok?"), "meine Hauptstraße 5, ok?");
}

#[test]
fn fixture_08_no_substring_matches_only_whole_phrases() {
    let s = snippets(&[("1", "mail", "Mail", 0)]);
    // "emails" contains "mail" but is a DIFFERENT token -> untouched.
    assert_eq!(apply_snippet_list(&s, "zwei emails erhalten"), "zwei emails erhalten");
}

#[test]
fn fixture_09_longest_match_wins_over_shorter_prefix() {
    let s = snippets(&[
        ("2", "lange sig", "[vollständige Signatur]", 0),
        ("1", "sig", "--- Signatur ---", 0),
    ]);
    assert_eq!(
        apply_snippet_list(&s, "das ist meine lange sig Ende"),
        "das ist meine [vollständige Signatur] Ende"
    );
}

#[test]
fn fixture_10_conflict_same_length_priority_decides() {
    // "KUNDE" updates the case-insensitively equal trigger "kunde".
    let s = snippets(&[("1", "kunde", "Hoch", 5)]);
    assert_eq!(apply_snippet_list(&s, "hallo kunde"), "hallo Hoch");
}

#[test]
fn fixture_11_conflict_equal_priority_id_breaks_tie_deterministically() {
    let s = snippets(&[("1", "aaa", "Erste", 0), ("2", "bbb", "Zweite", 0)]);
    assert_eq!(apply_snippet_list(&s, "aaa"), "Erste");
}

#[test]
fn fixture_13_replacement_not_rescanned_single_pass() {
    let s = snippets(&[("1", "a", "b a b", 0), ("2", "b", "B!", 0)]);
    // Single pass: replacement tokens are never matched again.
    assert_eq!(apply_snippet_list(&s, "x a y"), "x b a b y");
}

#[test]
fn fixture_14_multiple_occurrences_all_replaced() {
    let s = snippets(&[("1", "email", "max@x.de", 0)]);
    assert_eq!(
        apply_snippet_list(&s, "email eins, email zwei"),
        "max@x.de eins, max@x.de zwei"
    );
}

#[test]
fn fixture_15_unicode_triggers_work() {
    let s = snippets(&[("1", "müll", "Müllabfuhr ✓", 0)]);
    assert_eq!(
        apply_snippet_list(&s, "heute ist müll tag"),
        "heute ist Müllabfuhr ✓ tag"
    );
}

#[test]
fn fixture_16_empty_input_and_no_snippets_identity() {
    let none = snippets(&[]);
    assert_eq!(apply_snippet_list(&none, ""), "");
    assert_eq!(apply_snippet_list(&none, "normaler text"), "normaler text");
}

#[test]
fn fixture_17_conflict_overlap_middle_position_longest_wins() {
    let s = snippets(&[
        ("1", "bitte", "BITTE-KURZ", 9),
        ("2", "ganz bitte sehr", "LANG-GEWANN", 0),
    ]);
    assert_eq!(
        apply_snippet_list(&s, "und ganz bitte sehr danke"),
        "und LANG-GEWANN danke"
    );
}

#[test]
fn whitespace_between_words_is_normalized() {
    let s = snippets(&[("1", "xyz", "Q", 0)]);
    assert_eq!(apply_snippet_list(&s, "  a   xyz\tb  "), "a Q b");
}

#[test]
fn a_token_of_only_punctuation_never_matches() {
    let s = snippets(&[("1", "a", "A", 0)]);
    assert_eq!(apply_snippet_list(&s, "a , ... (a)"), "A , ... (A)");
}
