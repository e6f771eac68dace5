use handy_app_lib::commands::dictionary::{export_dictionary_csv, parse_dictionary_csv};
use handy_app_lib::managers::dictionary::legacy_terms;
use handy_app_lib::storage::repositories::dictionary::{
    correction_terms, snapshot_sha256, DictionaryEntry,
};
use sha2::Digest;

fn entry(term: &str, aliases: &[&str], enabled: bool) -> DictionaryEntry {
    DictionaryEntry {
        id: format!("id-{term}"),
        term: term.into(),
        aliases: aliases.iter().map(|a| a.to_string()).collect(),
        enabled,
        created_at_ms: 1,
        updated_at_ms: 1,
    }
}

#[test]
fn correction_terms_flatten_term_then_aliases() {
    let entries = vec![entry("Handy", &["händy"], true), entry("Wispr", &["wisper", "whisper"], true)];
    assert_eq!(
        correction_terms(&entries),
        vec!["Handy", "händy", "Wispr", "wisper", "whisper"]
    );
    assert!(correction_terms(&Vec::new()).is_empty());
}

fn expected_snapshot(sorted: &[&str]) -> String {
    let mut hasher = sha2::Sha256::new();
    for t in sorted {
        hasher.update(t.as_bytes());
        hasher.update([0u8]);
    }
    hasher.finalize().iter().map(|b| format!("{b:02x}")).collect()
}

#[test]
fn snapshot_hash_sorts_terms_and_separates_them() {
    let terms = vec!["Wispr".to_string(), "Handy".to_string(), "händy".to_string()];
    assert_eq!(snapshot_sha256(&terms), expected_snapshot(&["Handy", "Wispr", "händy"]));
    let reordered = vec!["händy".to_string(), "Wispr".to_string(), "Handy".to_string()];
    assert_eq!(snapshot_sha256(&terms), snapshot_sha256(&reordered));
    assert_ne!(
        snapshot_sha256(&vec!["ab".to_string()]),
        snapshot_sha256(&vec!["a".to_string(), "b".to_string()])
    );
    assert_eq!(
        snapshot_sha256(&Vec::new()),
        "e3b0c44298fc1c149afbf4c8996fb92427ae41e4649b934ca495991b7852b855"
    );
}

#[test]
fn legacy_words_are_trimmed_and_blank_ones_skipped() {
    let words = vec![" Handy ".to_string(), "".to_string(), "   ".to_string(), "cjpais".to_string()];
    assert_eq!(legacy_terms(&words), vec!["Handy", "cjpais"]);
}

#[test]
fn csv_lines_name_terms_and_aliases() {
    let parsed = parse_dictionary_csv(
        "# comment\n\n  Handy ; händy | hendy |  \nWispr\n;nur alias\r\nKunde;a;b\r\n",
    );
    assert_eq!(parsed.len(), 3);
    assert_eq!(parsed[0].term, "Handy");
    assert_eq!(parsed[0].aliases, vec!["händy", "hendy"]);
    assert!(parsed[0].enabled);
    assert_eq!(parsed[1].term, "Wispr");
    assert!(parsed[1].aliases.is_empty());
    assert_eq!(parsed[2].term, "Kunde");
    assert_eq!(parsed[2].aliases, vec!["a"]);
    assert!(parse_dictionary_csv("").is_empty());
}

#[test]
fn export_writes_one_line_per_entry() {
    let entries = vec![entry("Handy", &["händy", "hendy"], true), entry("Wispr", &[], false)];
    assert_eq!(export_dictionary_csv(&entries), "Handy;händy|hendy\nWispr");
    assert_eq!(export_dictionary_csv(&Vec::new()), "");
}

#[test]
fn exported_entries_import_unchanged() {
    let entries = vec![
        entry("Handy", &["händy", "hendy"], true),
        entry("Wispr Flow", &[], true),
        entry("C#", &["c sharp"], true),
    ];
    let parsed = parse_dictionary_csv(&export_dictionary_csv(&entries));
    assert_eq!(parsed.len(), entries.len());
    for (p, e) in parsed.iter().zip(entries.iter()) {
        assert_eq!(p.term, e.term);
        assert_eq!(p.aliases, e.aliases);
    }
}
