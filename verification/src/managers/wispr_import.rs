//! The decisions of the one-time Wispr Flow import: how a source entry is
//! titled and recorded, which of its texts become derived layers, how a
//! dictionary row splits between terms and snippets, and the report. The
//! source database is only ever read; re-imports skip entries whose
//! import reference already exists.

use vstd::prelude::*;

use crate::commands::history::ascii_lower;
use crate::storage::models::{AttemptProvenance, AttemptStatus, IntegrityState};
use crate::storage::repositories::captures::NewCapture;
use crate::storage::repositories::dictionary::NewDictionaryEntry;
use crate::storage::repositories::snippets::NewSnippet;
use crate::text::{blank_chars, chars_of, extend_chars, is_blank, split_on, string_of};

verus! {

/// What an import did, or would do in a dry run.
#[derive(Clone, Debug)]
pub struct ImportReport {
    pub history_imported: usize,
    pub history_skipped: usize,
    pub audio_extracted: usize,
    pub dictionary_imported: usize,
    pub snippet_triggers_imported: usize,
    pub polish_imported: usize,
    pub errors: Vec<String>,
}

impl ImportReport {
    /// A report of nothing done.
    pub fn new() -> (r: Self)
        ensures
            r.history_imported == 0,
            r.history_skipped == 0,
            r.audio_extracted == 0,
            r.dictionary_imported == 0,
            r.snippet_triggers_imported == 0,
            r.polish_imported == 0,
            r.errors@.len() == 0,
    {
        ImportReport {
            history_imported: 0,
            history_skipped: 0,
            audio_extracted: 0,
            dictionary_imported: 0,
            snippet_triggers_imported: 0,
            polish_imported: 0,
            errors: Vec::new(),
        }
    }
}

impl Default for ImportReport {
    fn default() -> (r: Self)
        ensures
            r.history_imported == 0,
            r.history_skipped == 0,
            r.audio_extracted == 0,
            r.dictionary_imported == 0,
            r.snippet_triggers_imported == 0,
            r.polish_imported == 0,
            r.errors@.len() == 0,
    {
        ImportReport::new()
    }
}

/// The dry run's report: the source's history entries and live dictionary
/// rows counted as what an import would bring in, nothing written.
pub fn dry_run_report(history_entries: usize, dictionary_rows: usize) -> (r: ImportReport)
    ensures
        r.history_imported == history_entries,
        r.dictionary_imported == dictionary_rows,
        r.history_skipped == 0,
        r.audio_extracted == 0,
        r.snippet_triggers_imported == 0,
        r.polish_imported == 0,
        r.errors@.len() == 0,
{
    let mut r = ImportReport::new();
    r.history_imported = history_entries;
    r.dictionary_imported = dictionary_rows;
    r
}

/// The import reference of a source entry, which makes re-imports skip it.
pub open spec fn import_ref_text(entity_id: Seq<char>) -> Seq<char> {
    "wispr:"@ + entity_id
}

pub fn import_ref(entity_id: &str) -> (r: String)
    ensures
        r@ == import_ref_text(entity_id@),
{
    let mut out = chars_of("wispr:");
    let e = chars_of(entity_id);
    extend_chars(&mut out, e.as_slice());
    string_of(out.as_slice())
}

/// The first line of `s` (up to the first line feed, without a carriage
/// return just before it), or `None` for an empty text, which has no
/// lines.
pub open spec fn first_line_of(s: Seq<char>) -> Option<Seq<char>> {
    if s.len() == 0 {
        None
    } else {
        let parts = split_on(s, '\n');
        let line = parts[0];
        if parts.len() > 1 && line.len() > 0 && line.last() == '\r' {
            Some(line.drop_last())
        } else {
            Some(line)
        }
    }
}

/// The title of an imported entry: the first 60 characters of its first
/// line; a text without lines is titled "Imported entry".
pub open spec fn title_of(s: Seq<char>) -> Seq<char> {
    match first_line_of(s) {
        Some(l) => if l.len() <= 60 { l } else { l.take(60) },
        None => "Imported entry"@,
    }
}

/// The title of an imported entry.
pub fn first_line(s: &str) -> (r: String)
    ensures
        r@ == title_of(s@),
{
    let c = chars_of(s);
    if c.len() == 0 {
        return String::from_str("Imported entry");
    }
    let mut end: usize = 0;
    while end < c.len() && c[end] != '\n'
        invariant
            end <= c@.len(),
            forall|j: int| 0 <= j < end ==> c@[j] != '\n',
        decreases c@.len() - end,
    {
        end = end + 1;
    }
    proof {
        crate::text::lemma_split_prefix(c@, '\n', end as int);
    }
    let mut stop = end;
    if end < c.len() && end > 0 && c[end - 1] == '\r' {
        stop = end - 1;
    }
    let limit: usize = if stop <= 60 { stop } else { 60 };
    let mut out: Vec<char> = Vec::new();
    let mut i: usize = 0;
    while i < limit
        invariant
            i <= limit <= stop <= end <= c@.len(),
            out@ == c@.take(i as int),
        decreases limit - i,
    {
        out.push(c[i]);
        assert(c@.take(i + 1) == c@.take(i as int).push(c@[i as int]));
        i = i + 1;
    }
    proof {
        let line = c@.take(end as int);
        if stop < end {
            assert(line.drop_last() == c@.take(stop as int));
        }
        let l = c@.take(stop as int);
        if l.len() > 60 {
            assert(l.take(60) == c@.take(60));
        }
    }
    string_of(out.as_slice())
}

/// The text an imported entry is titled by: its recognized text, else its
/// formatted text, else a fixed placeholder.
pub fn entry_body<'a>(asr: Option<&'a str>, formatted: Option<&'a str>) -> (r: &'a str)
    ensures
        r@ == (match asr {
            Some(a) => a@,
            None => match formatted {
                Some(f) => f@,
                None => "Imported Wispr entry"@,
            },
        }),
{
    match asr {
        Some(a) => a,
        None => match formatted {
            Some(f) => f,
            None => "Imported Wispr entry",
        },
    }
}

/// Audio written for an imported entry: file name, SHA-256, size.
pub struct ExtractedAudio {
    pub file_name: String,
    pub sha256: String,
    pub size_bytes: i64,
}

/// The capture row of an imported entry: valid audio when its recording
/// was extracted, else a recovered orphan without audio.
pub fn imported_capture(title: String, source_app: Option<String>, audio: Option<ExtractedAudio>) -> (r:
    NewCapture)
    ensures
        r.title == title,
        r.source_app == source_app,
        match audio {
            Some(a) => {
                &&& r.audio_file_name == Some(a.file_name)
                &&& r.audio_sha256 == Some(a.sha256)
                &&& r.audio_size_bytes == Some(a.size_bytes)
                &&& r.integrity_state == IntegrityState::AudioValid
            },
            None => {
                &&& r.audio_file_name is None
                &&& r.audio_sha256 is None
                &&& r.audio_size_bytes is None
                &&& r.integrity_state == IntegrityState::RecoveredOrphan
            },
        },
{
    match audio {
        Some(a) => NewCapture {
            audio_file_name: Some(a.file_name),
            audio_sha256: Some(a.sha256),
            audio_size_bytes: Some(a.size_bytes),
            title,
            source_app,
            integrity_state: IntegrityState::AudioValid,
        },
        None => NewCapture {
            audio_file_name: None,
            audio_sha256: None,
            audio_size_bytes: None,
            title,
            source_app,
            integrity_state: IntegrityState::RecoveredOrphan,
        },
    }
}

/// The derived layers of an imported entry, as (kind, text): its formatted
/// text as `post_process`, then its edited text as `manual_edit`, each only
/// when present and not empty.
pub open spec fn derived_layers_of(formatted: Option<Seq<char>>, edited: Option<Seq<char>>) -> Seq<
    (Seq<char>, Seq<char>),
> {
    let a: Seq<(Seq<char>, Seq<char>)> = match formatted {
        Some(f) if f.len() > 0 => seq![("post_process"@, f)],
        _ => seq![],
    };
    let b: Seq<(Seq<char>, Seq<char>)> = match edited {
        Some(e) if e.len() > 0 => seq![("manual_edit"@, e)],
        _ => seq![],
    };
    a + b
}

/// The characters of an optional text.
pub open spec fn opt_chars(o: Option<&str>) -> Option<Seq<char>> {
    match o {
        Some(s) => Some(s@),
        None => None,
    }
}

/// The derived layers of an imported entry.
pub fn derived_layers(formatted: Option<&str>, edited: Option<&str>) -> (r: Vec<(&'static str, String)>)
    ensures
        r@.map_values(|l: (&'static str, String)| (l.0@, l.1@)) == derived_layers_of(
            opt_chars(formatted),
            opt_chars(edited),
        ),
{
    let mut r: Vec<(&'static str, String)> = Vec::new();
    match formatted {
        Some(f) => {
            if f.unicode_len() > 0 {
                r.push(("post_process", String::from_str(f)));
            }
        },
        None => {},
    }
    let ghost first = r@.map_values(|l: (&'static str, String)| (l.0@, l.1@));
    match edited {
        Some(e) => {
            if e.unicode_len() > 0 {
                r.push(("manual_edit", String::from_str(e)));
            }
        },
        None => {},
    }
    assert(r@.map_values(|l: (&'static str, String)| (l.0@, l.1@)) =~= derived_layers_of(
        opt_chars(formatted),
        opt_chars(edited),
    ));
    r
}

/// Where a source dictionary row goes.
pub enum ImportedWord {
    /// A phrase with a non-blank replacement: an enabled snippet of
    /// priority 0.
    Snippet(NewSnippet),
    /// Any other phrase: an enabled dictionary term without aliases.
    Term(NewDictionaryEntry),
}

/// The semantic split of a source dictionary row.
pub fn classify_word(phrase: String, replacement: Option<String>) -> (r: ImportedWord)
    ensures
        match replacement {
            Some(rep) if !is_blank(rep@) => r matches ImportedWord::Snippet(s) && s.trigger == phrase
                && s.replacement == rep && s.priority == 0 && s.enabled,
            _ => r matches ImportedWord::Term(t) && t.term == phrase && t.aliases@.len() == 0
                && t.enabled,
        },
{
    match replacement {
        Some(rep) => {
            let c = chars_of(rep.as_str());
            if !blank_chars(c.as_slice()) {
                return ImportedWord::Snippet(
                    NewSnippet { trigger: phrase, replacement: rep, priority: 0, enabled: true },
                );
            }
        },
        None => {},
    }
    ImportedWord::Term(NewDictionaryEntry { term: phrase, aliases: Vec::new(), enabled: true })
}

// ---------------------------------------------------------------------
// The import, one source row at a time
// ---------------------------------------------------------------------

/// The canonical attempt an imported entry gets: number 1, migrated, a
/// success, canonical, carrying the recognized text, created and completed
/// at the entry's time.
pub struct ImportedAttempt {
    pub attempt_number: i64,
    pub normalized_stt: Option<String>,
    pub provenance: AttemptProvenance,
    pub status: AttemptStatus,
    pub is_canonical: bool,
    pub created_at_ms: i64,
    pub completed_at_ms: i64,
}

/// What an entry that was not imported yet writes: its capture, marked
/// with its import reference and dated at the entry's time, its canonical
/// attempt, and its derived layers as (kind, text).
pub struct ImportedHistoryRows {
    pub capture: NewCapture,
    pub import_ref: String,
    pub created_at_ms: i64,
    pub attempt: ImportedAttempt,
    pub layers: Vec<(&'static str, String)>,
}

/// The report's counts other than the history and audio ones are as before.
pub open spec fn other_counts_kept(r: ImportReport, old: ImportReport) -> bool {
    &&& r.dictionary_imported == old.dictionary_imported
    &&& r.snippet_triggers_imported == old.snippet_triggers_imported
    &&& r.polish_imported == old.polish_imported
}

/// The error recorded when an entry's audio could not be extracted.
pub open spec fn audio_error_text(entity_id: Seq<char>, e: Seq<char>) -> Seq<char> {
    entity_id + ": audio: "@ + e
}

/// The history counts `(imported, skipped)` after one more source row,
/// skipped when already imported.
pub open spec fn history_step_counts(c: (int, int), already_imported: bool) -> (int, int) {
    if already_imported {
        (c.0, c.1 + 1)
    } else {
        (c.0 + 1, c.1)
    }
}

/// The history counts after a run over rows, each marked whether it was
/// already imported.
pub open spec fn history_run_counts(c: (int, int), already: Seq<bool>) -> (int, int)
    decreases already.len(),
{
    if already.len() == 0 {
        c
    } else {
        history_step_counts(history_run_counts(c, already.drop_last()), already.last())
    }
}

/// Whether a dictionary row becomes a snippet: it has a non-blank
/// replacement.
pub open spec fn word_is_snippet(replacement: Option<Seq<char>>) -> bool {
    match replacement {
        Some(r) => !is_blank(r),
        None => false,
    }
}

/// The dictionary counts `(terms, snippet triggers)` after a run over
/// rows, each marked whether it becomes a snippet.
pub open spec fn word_run_counts(c: (int, int), snippets: Seq<bool>) -> (int, int)
    decreases snippets.len(),
{
    if snippets.len() == 0 {
        c
    } else {
        let p = word_run_counts(c, snippets.drop_last());
        if snippets.last() {
            (p.0, p.1 + 1)
        } else {
            (p.0 + 1, p.1)
        }
    }
}

/// What a dry run reports is what an import of the same source handles:
/// an import run, one step per row from an empty report, counts every
/// History row once, as imported or as skipped, and every live Dictionary
/// row once, as a term or as a snippet trigger; the dry run reports the
/// numbers of those rows.
pub proof fn law_dry_run_counts_what_an_import_handles(already: Seq<bool>, snippets: Seq<bool>)
    ensures
        history_run_counts((0, 0), already).0 + history_run_counts((0, 0), already).1 == already.len(),
        word_run_counts((0, 0), snippets).0 + word_run_counts((0, 0), snippets).1 == snippets.len(),
    decreases already.len() + snippets.len(),
{
    if already.len() > 0 {
        law_dry_run_counts_what_an_import_handles(already.drop_last(), snippets);
    }
    if snippets.len() > 0 {
        law_dry_run_counts_what_an_import_handles(already, snippets.drop_last());
    }
}

/// A run over source rows keyed by `keys`, against a target that already
/// holds the keys in `seen`: a row whose key is held is skipped, any other
/// is imported and its key is held from then on. Gives the keys held
/// afterwards, the rows imported and the rows skipped. History rows are
/// keyed by their import reference, polish rows by their attempt.
pub open spec fn keyed_run(seen: Set<Seq<char>>, keys: Seq<Seq<char>>) -> (Set<Seq<char>>, int, int)
    decreases keys.len(),
{
    if keys.len() == 0 {
        (seen, 0, 0)
    } else {
        let p = keyed_run(seen, keys.drop_last());
        if p.0.contains(keys.last()) {
            (p.0, p.1, p.2 + 1)
        } else {
            (p.0.insert(keys.last()), p.1 + 1, p.2)
        }
    }
}

proof fn lemma_keyed_run_holds_its_keys(seen: Set<Seq<char>>, keys: Seq<Seq<char>>)
    ensures
        seen.subset_of(keyed_run(seen, keys).0),
        forall|k: int| 0 <= k < keys.len() ==> keyed_run(seen, keys).0.contains(#[trigger] keys[k]),
        keyed_run(seen, keys).1 + keyed_run(seen, keys).2 == keys.len(),
    decreases keys.len(),
{
    if keys.len() > 0 {
        lemma_keyed_run_holds_its_keys(seen, keys.drop_last());
        assert forall|k: int| 0 <= k < keys.len() implies keyed_run(seen, keys).0.contains(
            #[trigger] keys[k],
        ) by {
            if k < keys.len() - 1 {
                assert(keys[k] == keys.drop_last()[k]);
            }
        }
    }
}

proof fn lemma_keyed_run_over_held_keys(seen: Set<Seq<char>>, keys: Seq<Seq<char>>)
    requires
        forall|k: int| 0 <= k < keys.len() ==> seen.contains(#[trigger] keys[k]),
    ensures
        keyed_run(seen, keys) == (seen, 0int, keys.len() as int),
    decreases keys.len(),
{
    if keys.len() > 0 {
        assert forall|k: int| 0 <= k < keys.drop_last().len() implies seen.contains(
            #[trigger] keys.drop_last()[k],
        ) by {
            assert(keys.drop_last()[k] == keys[k]);
        }
        lemma_keyed_run_over_held_keys(seen, keys.drop_last());
        assert(seen.contains(keys[keys.len() - 1]));
    }
}

/// The import is idempotent: after a run, a second run over the same
/// source imports nothing, skips every row the first run imported or
/// skipped, and leaves the held keys as they were.
pub proof fn law_second_import_adds_nothing(seen: Set<Seq<char>>, keys: Seq<Seq<char>>)
    ensures
        keyed_run(keyed_run(seen, keys).0, keys).1 == 0,
        keyed_run(keyed_run(seen, keys).0, keys).2 == keyed_run(seen, keys).1 + keyed_run(
            seen,
            keys,
        ).2,
        keyed_run(keyed_run(seen, keys).0, keys).0 == keyed_run(seen, keys).0,
{
    lemma_keyed_run_holds_its_keys(seen, keys);
    lemma_keyed_run_over_held_keys(keyed_run(seen, keys).0, keys);
}

/// One History row of the source. An entry whose import reference already
/// exists is skipped and counted as skipped: nothing is written, which
/// makes the import idempotent. Any other entry is imported: its capture is
/// titled by its recognized (else formatted) text and carries the extracted
/// audio if there is any, its attempt is the canonical migrated success
/// with the recognized text, and its formatted and edited texts become
/// derived layers. An extracted recording is counted; a failed extraction
/// is recorded as an error and the entry is imported without audio.
pub fn import_history_step(
    report: ImportReport,
    already_imported: bool,
    entity_id: &str,
    created_ms: i64,
    asr: Option<&str>,
    formatted: Option<&str>,
    edited: Option<&str>,
    app: Option<String>,
    audio: Option<Result<ExtractedAudio, String>>,
) -> (r: (ImportReport, Option<ImportedHistoryRows>))
    requires
        report.history_skipped < usize::MAX,
        report.history_imported < usize::MAX,
        report.audio_extracted < usize::MAX,
    ensures
        other_counts_kept(r.0, report),
        (r.0.history_imported as int, r.0.history_skipped as int) == history_step_counts(
            (report.history_imported as int, report.history_skipped as int),
            already_imported,
        ),
        already_imported ==> {
            &&& r.1 is None
            &&& r.0.history_skipped == report.history_skipped + 1
            &&& r.0.history_imported == report.history_imported
            &&& r.0.audio_extracted == report.audio_extracted
            &&& r.0.errors.deep_view() == report.errors.deep_view()
        },
        !already_imported ==> {
            &&& r.0.history_skipped == report.history_skipped
            &&& r.0.history_imported == report.history_imported + 1
            &&& r.1 matches Some(rows) && {
                &&& rows.capture.title@ == title_of(
                    match asr {
                        Some(a) => a@,
                        None => match formatted {
                            Some(f) => f@,
                            None => "Imported Wispr entry"@,
                        },
                    },
                )
                &&& rows.capture.source_app == app
                &&& match audio {
                    Some(Ok(a)) => {
                        &&& rows.capture.audio_file_name == Some(a.file_name)
                        &&& rows.capture.audio_sha256 == Some(a.sha256)
                        &&& rows.capture.audio_size_bytes == Some(a.size_bytes)
                        &&& rows.capture.integrity_state == IntegrityState::AudioValid
                    },
                    _ => {
                        &&& rows.capture.audio_file_name is None
                        &&& rows.capture.audio_sha256 is None
                        &&& rows.capture.audio_size_bytes is None
                        &&& rows.capture.integrity_state == IntegrityState::RecoveredOrphan
                    },
                }
                &&& rows.import_ref@ == import_ref_text(entity_id@)
                &&& rows.created_at_ms == created_ms
                &&& rows.attempt.attempt_number == 1
                &&& opt_chars_of(rows.attempt.normalized_stt) == opt_chars(asr)
                &&& rows.attempt.provenance == AttemptProvenance::LegacyMigration
                &&& rows.attempt.status == AttemptStatus::Success
                &&& rows.attempt.is_canonical
                &&& rows.attempt.created_at_ms == created_ms
                &&& rows.attempt.completed_at_ms == created_ms
                &&& rows.layers@.map_values(|l: (&'static str, String)| (l.0@, l.1@))
                    == derived_layers_of(opt_chars(formatted), opt_chars(edited))
            }
            &&& match audio {
                Some(Ok(_)) => r.0.audio_extracted == report.audio_extracted + 1
                    && r.0.errors.deep_view() == report.errors.deep_view(),
                Some(Err(e)) => r.0.audio_extracted == report.audio_extracted
                    && r.0.errors.deep_view() == report.errors.deep_view().push(
                    audio_error_text(entity_id@, e@),
                ),
                None => r.0.audio_extracted == report.audio_extracted
                    && r.0.errors.deep_view() == report.errors.deep_view(),
            }
        },
{
    let mut report = report;
    if already_imported {
        report.history_skipped = report.history_skipped + 1;
        return (report, None);
    }
    let extracted = match audio {
        Some(Ok(a)) => {
            report.audio_extracted = report.audio_extracted + 1;
            Some(a)
        },
        Some(Err(e)) => {
            let mut msg = chars_of(entity_id);
            let mid = chars_of(": audio: ");
            extend_chars(&mut msg, mid.as_slice());
            let ec = chars_of(e.as_str());
            extend_chars(&mut msg, ec.as_slice());
            let text = string_of(msg.as_slice());
            let ghost before = report.errors.deep_view();
            report.errors.push(text);
            assert(report.errors.deep_view() =~= before.push(audio_error_text(entity_id@, e@)));
            None
        },
        None => None,
    };
    let body = entry_body(asr, formatted);
    let capture = imported_capture(first_line(body), app, extracted);
    let normalized_stt = match asr {
        Some(a) => Some(String::from_str(a)),
        None => None,
    };
    let rows = ImportedHistoryRows {
        capture,
        import_ref: import_ref(entity_id),
        created_at_ms: created_ms,
        attempt: ImportedAttempt {
            attempt_number: 1,
            normalized_stt,
            provenance: AttemptProvenance::LegacyMigration,
            status: AttemptStatus::Success,
            is_canonical: true,
            created_at_ms: created_ms,
            completed_at_ms: created_ms,
        },
        layers: derived_layers(formatted, edited),
    };
    report.history_imported = report.history_imported + 1;
    (report, Some(rows))
}

/// The characters of an optional owned text.
pub open spec fn opt_chars_of(o: Option<String>) -> Option<Seq<char>> {
    match o {
        Some(s) => Some(s@),
        None => None,
    }
}

/// One live Dictionary row of the source: split as [`classify_word`] says
/// and counted as a snippet trigger or as a dictionary term.
pub fn import_word_step(report: ImportReport, phrase: String, replacement: Option<String>) -> (r: (
    ImportReport,
    ImportedWord,
))
    requires
        report.snippet_triggers_imported < usize::MAX,
        report.dictionary_imported < usize::MAX,
    ensures
        r.0.history_imported == report.history_imported,
        r.0.history_skipped == report.history_skipped,
        r.0.audio_extracted == report.audio_extracted,
        r.0.polish_imported == report.polish_imported,
        r.0.errors.deep_view() == report.errors.deep_view(),
        (r.0.dictionary_imported as int, r.0.snippet_triggers_imported as int) == (if word_is_snippet(
            match replacement {
                Some(rep) => Some(rep@),
                None => None,
            },
        ) {
            (report.dictionary_imported as int, report.snippet_triggers_imported + 1)
        } else {
            (report.dictionary_imported + 1, report.snippet_triggers_imported as int)
        }),
        match replacement {
            Some(rep) if !is_blank(rep@) => r.1 matches ImportedWord::Snippet(s) && s.trigger == phrase
                && s.replacement == rep && s.priority == 0 && s.enabled
                && r.0.snippet_triggers_imported == report.snippet_triggers_imported + 1
                && r.0.dictionary_imported == report.dictionary_imported,
            _ => r.1 matches ImportedWord::Term(t) && t.term == phrase && t.aliases@.len() == 0
                && t.enabled && r.0.dictionary_imported == report.dictionary_imported + 1
                && r.0.snippet_triggers_imported == report.snippet_triggers_imported,
        },
{
    let mut report = report;
    let word = classify_word(phrase, replacement);
    match &word {
        ImportedWord::Snippet(_) => {
            report.snippet_triggers_imported = report.snippet_triggers_imported + 1;
        },
        ImportedWord::Term(_) => {
            report.dictionary_imported = report.dictionary_imported + 1;
        },
    }
    (report, word)
}

/// The style representation a polished source entry becomes: the polished
/// text on the entry's attempt, with the instruction as prompt snapshot and
/// the model version as provider snapshot.
pub struct ImportedPolish {
    pub attempt_id: String,
    pub kind: &'static str,
    pub text: String,
    pub processor: &'static str,
    pub effective_prompt_snapshot: String,
    pub provider_snapshot: Option<String>,
    pub created_at_ms: i64,
}

/// One Polish row of the source. It is imported only when its entry's
/// attempt exists in the target, it carries a polished text, and that
/// attempt holds no Wispr polish yet; it is then counted. A polish already
/// imported is neither written nor counted again, so a second import run
/// adds nothing.
pub fn import_polish_step(
    report: ImportReport,
    attempt_id: Option<String>,
    polish_already_imported: bool,
    polished: Option<String>,
    instruction: Option<String>,
    model_version: Option<String>,
    created_ms: i64,
) -> (r: (ImportReport, Option<ImportedPolish>))
    requires
        report.polish_imported < usize::MAX,
    ensures
        r.0.history_imported == report.history_imported,
        r.0.history_skipped == report.history_skipped,
        r.0.audio_extracted == report.audio_extracted,
        r.0.dictionary_imported == report.dictionary_imported,
        r.0.snippet_triggers_imported == report.snippet_triggers_imported,
        r.0.errors.deep_view() == report.errors.deep_view(),
        (attempt_id is None || polished is None || polish_already_imported) ==> r.1 is None
            && r.0.polish_imported == report.polish_imported,
        (attempt_id is Some && polished is Some && !polish_already_imported) ==> (r.1 matches Some(p) && r.0.polish_imported
            == report.polish_imported + 1 && {
            &&& Some(p.attempt_id) == attempt_id
            &&& p.kind@ == "style"@
            &&& Some(p.text) == polished
            &&& p.processor@ == "wispr_polish"@
            &&& p.effective_prompt_snapshot@ == (match instruction {
                Some(i) => i@,
                None => Seq::<char>::empty(),
            })
            &&& p.provider_snapshot == model_version
            &&& p.created_at_ms == created_ms
        }),
{
    let mut report = report;
    let attempt_id = match attempt_id {
        Some(a) => a,
        None => return (report, None),
    };
    let text = match polished {
        Some(t) => t,
        None => return (report, None),
    };
    if polish_already_imported {
        return (report, None);
    }
    let snapshot = match instruction {
        Some(i) => i,
        None => String::new(),
    };
    proof {
        reveal_strlit("style");
        reveal_strlit("wispr_polish");
    }
    report.polish_imported = report.polish_imported + 1;
    (
        report,
        Some(
            ImportedPolish {
                attempt_id,
                kind: "style",
                text,
                processor: "wispr_polish",
                effective_prompt_snapshot: snapshot,
                provider_snapshot: model_version,
                created_at_ms: created_ms,
            },
        ),
    )
}

/// The text SQLite sees of a bound text: everything before its first NUL.
pub open spec fn before_nul(s: Seq<char>) -> Seq<char>
    decreases s.len(),
{
    if s.len() == 0 {
        s
    } else if s[0] == '\0' {
        Seq::<char>::empty()
    } else {
        seq![s[0]] + before_nul(s.drop_first())
    }
}

/// Whether SQLite's date functions read a text by the clock: `now`,
/// `subsec` or `subsecond`, in any ASCII case.
pub open spec fn clock_text(ts: Seq<char>) -> bool {
    let t = ascii_lower(before_nul(ts));
    t == "now"@ || t == "subsec"@ || t == "subsecond"@
}

/// The epoch milliseconds SQLite reads a text as (`julianday`, shifted to
/// the Unix epoch, scaled to milliseconds and cast to an integer), or None
/// when it reads no date in it. A function of the text alone for every
/// text but the clock words.
pub uninterp spec fn sqlite_epoch_ms_of(ts: Seq<char>) -> Option<i64>;

/// The epoch milliseconds SQLite reads a timestamp as, through a throwaway
/// in-memory connection. For every text but the clock words (see
/// [`clock_text`]) the result is [`sqlite_epoch_ms_of`] of the text; for
/// the clock words nothing is promised, since SQLite reads them by the
/// clock. What is left unsaid: an engine that runs out of memory while
/// opening the connection or running the query answers None.
#[verifier::external_body]
fn sqlite_epoch_ms(ts: &str) -> (r: Option<i64>)
    ensures
        !clock_text(ts@) ==> r == sqlite_epoch_ms_of(ts@),
{
    let conn = rusqlite::Connection::open_in_memory().ok()?;
    conn.query_row("SELECT CAST((julianday(?1) - 2440587.5) * 86400000 AS INTEGER)", [ts], |row| row.get::<usize, i64>(0)).ok()
}

/// The creation time of a source row once its timestamp was read: what
/// was read, or `now_ms` when it could not be read.
pub fn wispr_time_from(parsed: Option<i64>, now_ms: i64) -> (r: i64)
    ensures
        r == (match parsed {
            Some(v) => v,
            None => now_ms,
        }),
{
    match parsed {
        Some(v) => v,
        None => now_ms,
    }
}

/// Wispr's timestamps (`2026-08-27 18:22:20.079 +00:00`) as epoch
/// milliseconds, read the way SQLite reads them; `now_ms` when the row has
/// none or it cannot be read.
pub fn parse_wispr_time(raw: Option<&str>, now_ms: i64) -> (r: i64)
    ensures
        raw is None ==> r == now_ms,
        match raw {
            Some(ts) => !clock_text(ts@) ==> r == (match sqlite_epoch_ms_of(ts@) {
                Some(v) => v,
                None => now_ms,
            }),
            None => true,
        },
{
    match raw {
        None => now_ms,
        Some(ts) => wispr_time_from(sqlite_epoch_ms(ts), now_ms),
    }
}

} // verus!
