//! Canonical schema migrations: which step raises the schema to each
//! version, when a database needs migrating at all, and how legacy history
//! rows map onto the canonical tables.
//!
//! Versions (the `user_version` pragma):
//!   1  legacy `transcription_history`
//!   2  + `post_processed_text`
//!   3  + `post_process_prompt`
//!   4  + `post_process_requested`
//!   5  canonical schema (`app_meta`, captures, attempts, representations)
//!      and the legacy backfill
//!   6  delivery audit; 7 dictionary; 8 snippets and prompt profiles;
//!   9  full-text index; 10 notes; 11 import references.
//!
//! Before the version is raised, a verified backup is made; the steps run in
//! one transaction, so a failed migration leaves the database untouched.

use vstd::prelude::*;

use crate::storage::repositories::transcriptions::clone_opt;
use crate::text::{chars_of, decimal, decimal_chars, extend_chars, string_of};

verus! {

pub const TARGET_VERSION: i64 = 11;

/// The query contract version advertised to companion tools.
pub const QUERY_CONTRACT_VERSION: i64 = 1;

/// The legacy statements, in the shape of the legacy runner's versions 1..4.
pub const LEGACY_V1_CREATE: &'static str = "CREATE TABLE IF NOT EXISTS transcription_history (
            id INTEGER PRIMARY KEY AUTOINCREMENT,
            file_name TEXT NOT NULL,
            timestamp INTEGER NOT NULL,
            saved BOOLEAN NOT NULL DEFAULT 0,
            title TEXT NOT NULL,
            transcription_text TEXT NOT NULL
        );";

pub const LEGACY_V2_ALTER: &'static str =
    "ALTER TABLE transcription_history ADD COLUMN post_processed_text TEXT;";

pub const LEGACY_V3_ALTER: &'static str =
    "ALTER TABLE transcription_history ADD COLUMN post_process_prompt TEXT;";

pub const LEGACY_V4_UPSTREAM_ALTER: &'static str =
    "ALTER TABLE transcription_history ADD COLUMN post_process_requested BOOLEAN NOT NULL DEFAULT 0;";

pub const CANONICAL_SCHEMA: &'static str = "
CREATE TABLE IF NOT EXISTS app_meta (
    key TEXT PRIMARY KEY,
    value TEXT NOT NULL
);

CREATE TABLE IF NOT EXISTS captures (
    id TEXT PRIMARY KEY,
    legacy_history_id INTEGER UNIQUE,
    audio_file_name TEXT,
    audio_sha256 TEXT,
    audio_size_bytes INTEGER,
    audio_duration_ms INTEGER,
    title TEXT NOT NULL,
    source_app TEXT,
    saved INTEGER NOT NULL DEFAULT 1 CHECK (saved IN (0, 1)),
    integrity_state TEXT NOT NULL CHECK (integrity_state IN (
        'pending_audio', 'audio_valid', 'audio_missing',
        'audio_corrupt', 'recovered_orphan'
    )),
    created_at_ms INTEGER NOT NULL,
    updated_at_ms INTEGER NOT NULL,
    deleted_at_ms INTEGER
);

CREATE INDEX idx_captures_created ON captures (created_at_ms DESC, id DESC);
CREATE INDEX idx_captures_trash ON captures (deleted_at_ms) WHERE deleted_at_ms IS NOT NULL;

CREATE TABLE IF NOT EXISTS transcription_attempts (
    id TEXT PRIMARY KEY,
    capture_id TEXT NOT NULL REFERENCES captures(id),
    attempt_number INTEGER NOT NULL,
    engine_raw TEXT,
    normalized_stt TEXT,
    model_id TEXT,
    language TEXT,
    normalizer_version TEXT,
    dictionary_snapshot_sha256 TEXT,
    provenance TEXT NOT NULL CHECK (provenance IN ('live', 'legacy_migration')),
    status TEXT NOT NULL CHECK (status IN ('pending', 'running', 'success', 'failed')),
    error TEXT,
    is_canonical INTEGER NOT NULL DEFAULT 0 CHECK (is_canonical IN (0, 1)),
    created_at_ms INTEGER NOT NULL,
    completed_at_ms INTEGER
);

CREATE UNIQUE INDEX idx_attempts_capture_number
    ON transcription_attempts (capture_id, attempt_number);
CREATE UNIQUE INDEX idx_attempts_one_canonical
    ON transcription_attempts (capture_id) WHERE is_canonical = 1;

CREATE TABLE IF NOT EXISTS representations (
    id TEXT PRIMARY KEY,
    attempt_id TEXT NOT NULL REFERENCES transcription_attempts(id),
    parent_representation_id TEXT REFERENCES representations(id),
    kind TEXT NOT NULL CHECK (kind IN ('post_process', 'snippet', 'style', 'transform', 'manual_edit')),
    text TEXT NOT NULL,
    content_hash_sha256 TEXT,
    processor TEXT,
    processor_version TEXT,
    prompt_profile_id TEXT,
    effective_prompt_snapshot TEXT,
    provider_snapshot TEXT,
    status TEXT NOT NULL CHECK (status IN ('success', 'failed')),
    error TEXT,
    created_at_ms INTEGER NOT NULL
);

CREATE INDEX idx_representations_attempt ON representations (attempt_id);
";

/// Version 6: the append-only delivery audit, naming immutable sources by
/// id and content hash, never bodies.
pub const DELIVERY_EVENTS_SCHEMA: &'static str = "CREATE TABLE IF NOT EXISTS delivery_events (
                        id TEXT PRIMARY KEY,
                        capture_id TEXT REFERENCES captures(id),
                        source_attempt_id TEXT NOT NULL
                            REFERENCES transcription_attempts(id),
                        representation_id TEXT REFERENCES representations(id),
                        source_kind TEXT NOT NULL CHECK (source_kind IN (
                            'normalized_stt', 'representation'
                        )),
                        destination TEXT CHECK (destination IN (
                            'focused_app', 'scratchpad', 'clipboard'
                        )),
                        text_sha256 TEXT NOT NULL,
                        success INTEGER NOT NULL CHECK (success IN (0, 1)),
                        error TEXT,
                        created_at_ms INTEGER NOT NULL
                    );
                    CREATE INDEX idx_delivery_events_capture
                        ON delivery_events (capture_id);
                    CREATE INDEX idx_delivery_events_created
                        ON delivery_events (created_at_ms DESC);";

/// Version 7: dictionary entries with aliases and an enabled state; terms
/// unique without regard to case, so legacy imports stay idempotent.
pub const DICTIONARY_SCHEMA: &'static str = "CREATE TABLE IF NOT EXISTS dictionary_entries (
                        id TEXT PRIMARY KEY,
                        term TEXT NOT NULL COLLATE NOCASE UNIQUE,
                        aliases TEXT NOT NULL DEFAULT '[]',
                        enabled INTEGER NOT NULL DEFAULT 1 CHECK (enabled IN (0, 1)),
                        created_at_ms INTEGER NOT NULL,
                        updated_at_ms INTEGER NOT NULL
                    );
                    CREATE INDEX idx_dictionary_enabled
                        ON dictionary_entries (enabled);";

/// Version 8: spoken-snippet triggers and the prompt profile domain.
pub const SNIPPETS_AND_PROFILES_SCHEMA: &'static str = "CREATE TABLE IF NOT EXISTS snippets (
                        id TEXT PRIMARY KEY,
                        trigger TEXT NOT NULL COLLATE NOCASE UNIQUE,
                        replacement TEXT NOT NULL,
                        priority INTEGER NOT NULL DEFAULT 0,
                        enabled INTEGER NOT NULL DEFAULT 1 CHECK (enabled IN (0, 1)),
                        created_at_ms INTEGER NOT NULL,
                        updated_at_ms INTEGER NOT NULL
                    );

                    CREATE TABLE IF NOT EXISTS prompt_profiles (
                        id TEXT PRIMARY KEY,
                        name TEXT NOT NULL,
                        kind TEXT NOT NULL CHECK (kind IN ('style', 'transform')),
                        system_prompt TEXT NOT NULL,
                        user_template TEXT NOT NULL,
                        provider_id TEXT NOT NULL,
                        model TEXT NOT NULL,
                        temperature REAL,
                        enabled INTEGER NOT NULL DEFAULT 1 CHECK (enabled IN (0, 1)),
                        created_at_ms INTEGER NOT NULL,
                        updated_at_ms INTEGER NOT NULL,
                        UNIQUE (name, kind)
                    );";

/// Version 9: the rebuildable full-text index over canonical texts.
pub const SEARCH_INDEX_SCHEMA: &'static str = "CREATE VIRTUAL TABLE IF NOT EXISTS search_fts USING fts5(
                        body,
                        ref_type UNINDEXED,
                        ref_id UNINDEXED
                    );";

/// Version 10: notes with append-only versions; the current content is the
/// highest version.
pub const NOTES_SCHEMA: &'static str = "CREATE TABLE IF NOT EXISTS notes (
                        id TEXT PRIMARY KEY,
                        title TEXT NOT NULL DEFAULT 'Note',
                        pinned INTEGER NOT NULL DEFAULT 0 CHECK (pinned IN (0, 1)),
                        deleted_at_ms INTEGER,
                        created_at_ms INTEGER NOT NULL,
                        updated_at_ms INTEGER NOT NULL
                    );
                    CREATE TABLE IF NOT EXISTS note_versions (
                        id TEXT PRIMARY KEY,
                        note_id TEXT NOT NULL REFERENCES notes(id),
                        version_no INTEGER NOT NULL,
                        content TEXT NOT NULL,
                        content_hash_sha256 TEXT NOT NULL,
                        source TEXT NOT NULL CHECK (source IN (
                            'dictation', 'manual_edit', 'transform', 'restore', 'wispr_import'
                        )),
                        created_at_ms INTEGER NOT NULL,
                        UNIQUE (note_id, version_no)
                    );
                    CREATE INDEX idx_note_versions_note
                        ON note_versions (note_id, version_no DESC);
                    CREATE INDEX idx_notes_active
                        ON notes (deleted_at_ms) WHERE deleted_at_ms IS NULL;";

/// Version 11: a generic import reference for foreign sources, unique
/// through a partial index.
pub const IMPORT_REF_SCHEMA: &'static str = "ALTER TABLE captures ADD COLUMN import_ref TEXT;
                     CREATE UNIQUE INDEX idx_captures_import_ref
                        ON captures (import_ref) WHERE import_ref IS NOT NULL;";

#[derive(Debug)]
pub struct MigrationReport {
    pub from_version: i64,
    pub to_version: i64,
    pub legacy_rows_backfilled: usize,
    pub backup_path: Option<std::path::PathBuf>,
}

/// What raises the schema to one version.
#[derive(Clone, Copy, Debug)]
pub enum MigrationStep {
    /// Run this batch of statements.
    Batch(&'static str),
    /// Add `post_process_requested` unless the legacy table already has it.
    LegacyRequestedColumn,
    /// Create the canonical schema, backfill legacy rows, seed `app_meta`.
    Canonical,
}

/// The step to each known version.
pub open spec fn step_to(v: i64) -> Option<MigrationStep> {
    if v == 1 {
        Some(MigrationStep::Batch(LEGACY_V1_CREATE))
    } else if v == 2 {
        Some(MigrationStep::Batch(LEGACY_V2_ALTER))
    } else if v == 3 {
        Some(MigrationStep::Batch(LEGACY_V3_ALTER))
    } else if v == 4 {
        Some(MigrationStep::LegacyRequestedColumn)
    } else if v == 5 {
        Some(MigrationStep::Canonical)
    } else if v == 6 {
        Some(MigrationStep::Batch(DELIVERY_EVENTS_SCHEMA))
    } else if v == 7 {
        Some(MigrationStep::Batch(DICTIONARY_SCHEMA))
    } else if v == 8 {
        Some(MigrationStep::Batch(SNIPPETS_AND_PROFILES_SCHEMA))
    } else if v == 9 {
        Some(MigrationStep::Batch(SEARCH_INDEX_SCHEMA))
    } else if v == 10 {
        Some(MigrationStep::Batch(NOTES_SCHEMA))
    } else if v == 11 {
        Some(MigrationStep::Batch(IMPORT_REF_SCHEMA))
    } else {
        None
    }
}

/// The error of a step with no known version.
pub open spec fn unknown_step_message(v: i64) -> Seq<char> {
    "unknown migration step "@ + decimal(v as int)
}

/// The error of the rollback test's injected failure.
pub open spec fn injected_failure_message(v: i64) -> Seq<char> {
    "injected failure at version "@ + decimal(v as int) + " (rollback test)"@
}

fn text_with_number(before: &str, v: i64, after: &str) -> (r: String)
    ensures
        r@ == before@ + decimal(v as int) + after@,
{
    let mut out = chars_of(before);
    let d = decimal_chars(v);
    extend_chars(&mut out, d.as_slice());
    let a = chars_of(after);
    extend_chars(&mut out, a.as_slice());
    string_of(out.as_slice())
}

/// The step that raises the schema to version `v`. A test hook may inject
/// a failure at one version, to prove that a failed migration rolls back.
pub fn migration_step(v: i64, fail_at: Option<i64>) -> (r: Result<MigrationStep, String>)
    ensures
        fail_at == Some(v) ==> (r matches Err(e) && e@ == injected_failure_message(v)),
        fail_at != Some(v) && step_to(v) is Some ==> r == Ok::<MigrationStep, String>(
            step_to(v)->0,
        ),
        fail_at != Some(v) && step_to(v) is None ==> (r matches Err(e) && e@
            == unknown_step_message(v)),
{
    match fail_at {
        Some(f) => {
            if f == v {
                return Err(text_with_number("injected failure at version ", v, " (rollback test)"));
            }
        },
        None => {},
    }
    if v == 1 {
        Ok(MigrationStep::Batch(LEGACY_V1_CREATE))
    } else if v == 2 {
        Ok(MigrationStep::Batch(LEGACY_V2_ALTER))
    } else if v == 3 {
        Ok(MigrationStep::Batch(LEGACY_V3_ALTER))
    } else if v == 4 {
        Ok(MigrationStep::LegacyRequestedColumn)
    } else if v == 5 {
        Ok(MigrationStep::Canonical)
    } else if v == 6 {
        Ok(MigrationStep::Batch(DELIVERY_EVENTS_SCHEMA))
    } else if v == 7 {
        Ok(MigrationStep::Batch(DICTIONARY_SCHEMA))
    } else if v == 8 {
        Ok(MigrationStep::Batch(SNIPPETS_AND_PROFILES_SCHEMA))
    } else if v == 9 {
        Ok(MigrationStep::Batch(SEARCH_INDEX_SCHEMA))
    } else if v == 10 {
        Ok(MigrationStep::Batch(NOTES_SCHEMA))
    } else if v == 11 {
        Ok(MigrationStep::Batch(IMPORT_REF_SCHEMA))
    } else {
        proof {
            reveal_strlit("");
        }
        let r = text_with_number("unknown migration step ", v, "");
        assert(r@ == unknown_step_message(v));
        Err(r)
    }
}

/// Every version a migration from a known version passes through has a
/// step: from any version in `0..TARGET_VERSION`, each of the versions
/// above it, up to the target, is known.
pub proof fn law_every_pending_version_has_a_step(from: i64, v: i64)
    requires
        0 <= from,
        from < v <= TARGET_VERSION,
    ensures
        step_to(v) is Some,
{
}

/// The error for a database newer than this build supports.
pub open spec fn newer_than_supported_message(from: i64) -> Seq<char> {
    "database user_version "@ + decimal(from as int) + " is newer than supported "@ + decimal(
        TARGET_VERSION as int,
    )
}

/// Whether a database at schema version `from` needs migrating: a newer
/// one is refused, one at the target needs nothing (so migrating twice is
/// a no-op), an older one does.
pub fn needs_migration(from: i64) -> (r: Result<bool, String>)
    ensures
        from > TARGET_VERSION ==> (r matches Err(e) && e@ == newer_than_supported_message(from)),
        from == TARGET_VERSION ==> r == Ok::<bool, String>(false),
        from < TARGET_VERSION ==> r == Ok::<bool, String>(true),
{
    if from > TARGET_VERSION {
        let mut out = chars_of("database user_version ");
        let d = decimal_chars(from);
        extend_chars(&mut out, d.as_slice());
        let mid = chars_of(" is newer than supported ");
        extend_chars(&mut out, mid.as_slice());
        let t = decimal_chars(TARGET_VERSION);
        extend_chars(&mut out, t.as_slice());
        Err(string_of(out.as_slice()))
    } else {
        Ok(from < TARGET_VERSION)
    }
}

/// The report of a database already at the target: nothing backfilled, no
/// backup made.
pub fn up_to_date_report(from: i64) -> (r: MigrationReport)
    ensures
        r.from_version == from,
        r.to_version == TARGET_VERSION,
        r.legacy_rows_backfilled == 0,
        r.backup_path is None,
{
    MigrationReport { from_version: from, to_version: TARGET_VERSION, legacy_rows_backfilled: 0, backup_path: None }
}

/// The report of a completed migration from `from`.
pub fn migrated_report(from: i64, backfilled: usize, backup_path: std::path::PathBuf) -> (r: MigrationReport)
    ensures
        r.from_version == from,
        r.to_version == TARGET_VERSION,
        r.legacy_rows_backfilled == backfilled,
        r.backup_path == Some(backup_path),
{
    MigrationReport {
        from_version: from,
        to_version: TARGET_VERSION,
        legacy_rows_backfilled: backfilled,
        backup_path: Some(backup_path),
    }
}

/// The `app_meta` rows a new canonical schema gets: the schema version and
/// the creating app version, only when no schema version is recorded yet.
pub fn app_meta_seed(existing_schema_version: i64, app_version: &str) -> (r: Vec<(&'static str, String)>)
    ensures
        existing_schema_version != 0 ==> r@.len() == 0,
        existing_schema_version == 0 ==> {
            &&& r@.len() == 2
            &&& r@[0].0@ == "schema_version"@
            &&& r@[0].1@ == decimal(TARGET_VERSION as int)
            &&& r@[1].0@ == "created_by_app_version"@
            &&& r@[1].1@ == app_version@
        },
{
    let mut r: Vec<(&'static str, String)> = Vec::new();
    if existing_schema_version == 0 {
        let d = decimal_chars(TARGET_VERSION);
        r.push(("schema_version", string_of(d.as_slice())));
        r.push(("created_by_app_version", String::from_str(app_version)));
    }
    r
}

/// The `app_meta` row recorded unless present: the query contract version.
pub fn query_contract_row() -> (r: (&'static str, String))
    ensures
        r.0@ == "query_contract_version"@,
        r.1@ == decimal(QUERY_CONTRACT_VERSION as int),
{
    let d = decimal_chars(QUERY_CONTRACT_VERSION);
    ("query_contract_version", string_of(d.as_slice()))
}

// ---------------------------------------------------------------------
// The legacy backfill
// ---------------------------------------------------------------------

/// Legacy timestamps are seconds; canonical ones are milliseconds, clamped
/// to the `i64` range.
pub open spec fn legacy_ms(seconds: i64) -> i64 {
    if seconds * 1000 > i64::MAX {
        i64::MAX
    } else if seconds * 1000 < i64::MIN {
        i64::MIN
    } else {
        (seconds * 1000) as i64
    }
}

/// The canonical creation time of a legacy row (`saturating_mul(1000)`).
pub fn legacy_created_at_ms(seconds: i64) -> (r: i64)
    ensures
        r == legacy_ms(seconds),
{
    match seconds.checked_mul(1000) {
        Some(ms) => ms,
        None => if seconds > 0 {
            i64::MAX
        } else {
            i64::MIN
        },
    }
}

/// The representation a legacy row's post-processing survives as.
#[derive(Clone, Debug)]
pub struct LegacyPostProcess {
    pub text: String,
    /// `success` with the processed text, `failed` with none.
    pub status: &'static str,
    pub prompt_snapshot: String,
}

/// The post-processing snapshot of a legacy row: present when processing
/// was requested or produced text; successful with that text, else failed
/// and empty; the prompt kept, or empty.
pub fn legacy_post_process(
    processed_text: &Option<String>,
    requested: bool,
    prompt: &Option<String>,
) -> (r: Option<LegacyPostProcess>)
    ensures
        r is Some <==> (requested || processed_text is Some),
        r matches Some(p) ==> {
            &&& (match processed_text {
                Some(t) => p.text == t && p.status@ == "success"@,
                None => p.text@.len() == 0 && p.status@ == "failed"@,
            })
            &&& p.prompt_snapshot@ == (match prompt {
                Some(s) => s@,
                None => Seq::<char>::empty(),
            })
        },
{
    if !requested && processed_text.is_none() {
        return None;
    }
    let prompt_snapshot = match prompt {
        Some(s) => s.clone(),
        None => String::new(),
    };
    match processed_text {
        Some(t) => Some(LegacyPostProcess { text: t.clone(), status: "success", prompt_snapshot }),
        None => Some(LegacyPostProcess { text: String::new(), status: "failed", prompt_snapshot }),
    }
}

} // verus!
