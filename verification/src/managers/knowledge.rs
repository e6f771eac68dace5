//! The knowledge export object: one stable shape for everything that leaves
//! the app as knowledge, a dictation or a note, independent of the storage
//! schema.
//!
//! * The canonical raw text of a dictation is its `normalized_stt`: never
//!   the engine output, never a post-processed representation.
//! * Representations travel with the item, never as a second item.
//! * Ids are stable: building the same item twice yields the same
//!   `export_id`.

use vstd::prelude::*;

use crate::storage::repositories::captures::CaptureRecord;
use crate::storage::repositories::notes::{NoteRecord, NoteVersionRecord};
use crate::storage::repositories::representations::RepresentationRecord;
use crate::storage::repositories::transcriptions::{clone_opt, AttemptRecord};
use crate::text::{chars_of, extend_chars, string_of};

verus! {

/// Bumped only on a breaking change to the exported shape.
pub const KNOWLEDGE_CONTRACT_VERSION: &'static str = "1";

#[derive(Clone, Copy, Debug, PartialEq, Eq, Structural)]
pub enum KnowledgeKind {
    Transcription,
    Note,
}

/// Why an item has nothing to export: a normal outcome, not a storage
/// failure.
#[derive(Clone, Copy, Debug, PartialEq, Eq, Structural)]
pub enum ExportRefusal {
    /// The capture or note does not exist, or is trashed.
    NotFound,
    /// The capture has no successful transcription, so no canonical text.
    NoCanonicalAttempt,
}

/// Audio facts, so an export can be traced back to its recording.
#[derive(Clone, Debug)]
pub struct KnowledgeAudio {
    pub file_name: Option<String>,
    pub sha256: Option<String>,
    pub bytes: Option<i64>,
    /// One of the integrity state names.
    pub integrity_state: String,
}

/// A derived text layer of the canonical attempt.
#[derive(Clone, Debug)]
pub struct KnowledgeRepresentation {
    pub id: String,
    pub kind: String,
    pub text: String,
    pub processor: Option<String>,
    pub processor_version: Option<String>,
    pub created_at: String,
}

/// The export object.
#[derive(Clone, Debug)]
pub struct KnowledgeItem {
    pub contract_version: String,
    pub kind: KnowledgeKind,
    /// Stable, deterministic identity: `capture:<id>` or `note:<id>`.
    pub export_id: String,
    /// The domain id without the kind prefix.
    pub source_id: String,
    /// The immutable attempt the raw text came from; none for notes.
    pub attempt_id: Option<String>,
    pub title: String,
    /// The canonical text: `normalized_stt` of a dictation, current content
    /// of a note.
    pub raw: String,
    pub language: Option<String>,
    pub model_id: Option<String>,
    pub created_at: String,
    pub updated_at: String,
    pub audio: Option<KnowledgeAudio>,
    pub representations: Vec<KnowledgeRepresentation>,
}

/// The RFC 3339 text (UTC, milliseconds, `Z`) of an epoch-millisecond
/// instant, as chrono renders it; an instant chrono cannot represent
/// renders as the Unix epoch.
pub uninterp spec fn rfc3339_millis(ms: i64) -> Seq<char>;

/// `chrono::DateTime::from_timestamp_millis`, falling back to
/// `DateTime::UNIX_EPOCH` where it gives none, rendered by
/// `to_rfc3339_opts(SecondsFormat::Millis, true)`. Claimed: the text is a
/// function of `ms` alone; what that text is stays unstated.
#[verifier::external_body]
fn rfc3339(ms: i64) -> (r: String)
    ensures
        r@ == rfc3339_millis(ms),
{
    chrono::DateTime::from_timestamp_millis(ms).unwrap_or(chrono::DateTime::UNIX_EPOCH).to_rfc3339_opts(
        chrono::SecondsFormat::Millis,
        true,
    )
}

/// The export id of a domain id under a kind prefix.
pub open spec fn export_id_of(prefix: Seq<char>, id: Seq<char>) -> Seq<char> {
    prefix + id
}

fn prefixed(prefix: &str, id: &str) -> (r: String)
    ensures
        r@ == export_id_of(prefix@, id@),
{
    let mut out = chars_of(prefix);
    let i = chars_of(id);
    extend_chars(&mut out, i.as_slice());
    string_of(out.as_slice())
}

/// Export ids are stable and tell items apart: exporting the same capture
/// or note again gives the same id, different captures (or notes) get
/// different ids, and a capture never shares an id with a note.
pub proof fn law_export_ids_are_stable(kind_a: KnowledgeKind, id_a: Seq<char>, kind_b: KnowledgeKind, id_b: Seq<char>)
    ensures
        ({
            let pa = if kind_a == KnowledgeKind::Transcription { "capture:"@ } else { "note:"@ };
            let pb = if kind_b == KnowledgeKind::Transcription { "capture:"@ } else { "note:"@ };
            (export_id_of(pa, id_a) == export_id_of(pb, id_b)) <==> (kind_a == kind_b && id_a == id_b)
        }),
{
    reveal_strlit("capture:");
    reveal_strlit("note:");
    let pa = if kind_a == KnowledgeKind::Transcription { "capture:"@ } else { "note:"@ };
    let pb = if kind_b == KnowledgeKind::Transcription { "capture:"@ } else { "note:"@ };
    let x = export_id_of(pa, id_a);
    let y = export_id_of(pb, id_b);
    if x == y {
        if kind_a != kind_b {
            assert(x[0] == pa[0]);
            assert(y[0] == pb[0]);
        } else {
            assert(x.skip(pa.len() as int) == id_a);
            assert(y.skip(pb.len() as int) == id_b);
        }
    }
}

/// Whether `audio` carries the audio facts of capture `c`: present exactly
/// when the capture names a file.
pub open spec fn audio_matches(audio: Option<KnowledgeAudio>, c: CaptureRecord) -> bool {
    match audio {
        Some(a) => {
            &&& c.audio_file_name is Some
            &&& a.file_name == c.audio_file_name
            &&& a.sha256 == c.audio_sha256
            &&& a.bytes == c.audio_size_bytes
            &&& a.integrity_state == c.integrity_state
        },
        None => c.audio_file_name is None,
    }
}

/// The audio facts of a capture; a capture without audio has none and says
/// so through its integrity state alone.
pub fn audio_of(capture: &CaptureRecord) -> (r: Option<KnowledgeAudio>)
    ensures
        audio_matches(r, *capture),
{
    match &capture.audio_file_name {
        None => None,
        Some(_) => Some(
            KnowledgeAudio {
                file_name: clone_opt(&capture.audio_file_name),
                sha256: clone_opt(&capture.audio_sha256),
                bytes: capture.audio_size_bytes,
                integrity_state: capture.integrity_state.clone(),
            },
        ),
    }
}

/// Whether `k` is the exported layer of representation `r`.
pub open spec fn representation_matches(k: KnowledgeRepresentation, r: RepresentationRecord) -> bool {
    &&& k.id == r.id
    &&& k.kind == r.kind
    &&& k.text == r.text
    &&& k.processor == r.processor
    &&& k.processor_version == r.processor_version
    &&& k.created_at@ == rfc3339_millis(r.created_at_ms)
}

/// Whether `ks` are the exported layers of `rs`, one for one, in order.
pub open spec fn representations_match(
    ks: Seq<KnowledgeRepresentation>,
    rs: Seq<RepresentationRecord>,
) -> bool {
    &&& ks.len() == rs.len()
    &&& forall|i: int| 0 <= i < ks.len() ==> representation_matches(#[trigger] ks[i], rs[i])
}

/// The exported layers of the representations, in order.
pub fn knowledge_representations(reps: &Vec<RepresentationRecord>) -> (r: Vec<KnowledgeRepresentation>)
    ensures
        representations_match(r@, reps@),
{
    let mut out: Vec<KnowledgeRepresentation> = Vec::new();
    let mut i: usize = 0;
    while i < reps.len()
        invariant
            i <= reps@.len(),
            out@.len() == i,
            forall|k: int| 0 <= k < i ==> representation_matches(#[trigger] out@[k], reps@[k]),
        decreases reps@.len() - i,
    {
        let r = &reps[i];
        out.push(
            KnowledgeRepresentation {
                id: r.id.clone(),
                kind: r.kind.clone(),
                text: r.text.clone(),
                processor: clone_opt(&r.processor),
                processor_version: clone_opt(&r.processor_version),
                created_at: rfc3339(r.created_at_ms),
            },
        );
        i = i + 1;
    }
    out
}

/// Whether `item` is the export of dictation `c` with canonical attempt `a`
/// and its representations `rs`.
pub open spec fn transcription_matches(
    item: KnowledgeItem,
    c: CaptureRecord,
    a: AttemptRecord,
    rs: Seq<RepresentationRecord>,
) -> bool {
    &&& item.contract_version@ == KNOWLEDGE_CONTRACT_VERSION@
    &&& item.kind == KnowledgeKind::Transcription
    &&& item.export_id@ == export_id_of("capture:"@, c.id@)
    &&& item.source_id == c.id
    &&& item.attempt_id == Some(a.id)
    &&& item.title == c.title
    &&& a.normalized_stt == Some(item.raw)
    &&& item.language == a.language
    &&& item.model_id == a.model_id
    &&& item.created_at@ == rfc3339_millis(c.created_at_ms)
    &&& item.updated_at@ == rfc3339_millis(c.updated_at_ms)
    &&& audio_matches(item.audio, c)
    &&& representations_match(item.representations@, rs)
}

/// The export object of an active dictation with canonical attempt
/// `attempt` (if any) and that attempt's representations: without a
/// transcript there is nothing to export.
fn build_transcription(
    c: &CaptureRecord,
    attempt: Option<&AttemptRecord>,
    reps: &Vec<RepresentationRecord>,
) -> (r: Result<KnowledgeItem, ExportRefusal>)
    ensures
        attempt is Some && attempt->0.normalized_stt is Some ==> (r matches Ok(item)
            && transcription_matches(item, *c, *attempt->0, reps@)),
        attempt is None || attempt->0.normalized_stt is None ==> r == Err::<
            KnowledgeItem,
            ExportRefusal,
        >(ExportRefusal::NoCanonicalAttempt),
{
    let a = match attempt {
        None => return Err(ExportRefusal::NoCanonicalAttempt),
        Some(a) => a,
    };
    let raw = match &a.normalized_stt {
        None => return Err(ExportRefusal::NoCanonicalAttempt),
        Some(t) => t.clone(),
    };
    Ok(
        KnowledgeItem {
            contract_version: String::from_str(KNOWLEDGE_CONTRACT_VERSION),
            kind: KnowledgeKind::Transcription,
            export_id: prefixed("capture:", c.id.as_str()),
            source_id: c.id.clone(),
            attempt_id: Some(a.id.clone()),
            title: c.title.clone(),
            raw,
            language: clone_opt(&a.language),
            model_id: clone_opt(&a.model_id),
            created_at: rfc3339(c.created_at_ms),
            updated_at: rfc3339(c.updated_at_ms),
            audio: audio_of(c),
            representations: knowledge_representations(reps),
        },
    )
}

/// The export object of one dictation, from what storage holds of it: the
/// capture (if any), its canonical attempt (if any) and that attempt's
/// representations. A missing or trashed capture is not found; a capture
/// without a canonical attempt carrying a transcript has nothing to export.
pub fn transcription_item_of(
    capture: Option<&CaptureRecord>,
    attempt: Option<&AttemptRecord>,
    reps: &Vec<RepresentationRecord>,
) -> (r: Result<KnowledgeItem, ExportRefusal>)
    ensures
        (capture is None || capture->0.deleted_at_ms is Some) ==> r == Err::<KnowledgeItem, ExportRefusal>(
            ExportRefusal::NotFound,
        ),
        capture is Some && capture->0.deleted_at_ms is None && attempt is Some
            && attempt->0.normalized_stt is Some ==> (r matches Ok(item) && transcription_matches(
            item,
            *capture->0,
            *attempt->0,
            reps@,
        )),
        capture is Some && capture->0.deleted_at_ms is None && (attempt is None
            || attempt->0.normalized_stt is None) ==> r == Err::<KnowledgeItem, ExportRefusal>(
            ExportRefusal::NoCanonicalAttempt,
        ),
{
    let c = match capture {
        None => return Err(ExportRefusal::NotFound),
        Some(c) => c,
    };
    if c.deleted_at_ms.is_some() {
        return Err(ExportRefusal::NotFound);
    }
    build_transcription(c, attempt, reps)
}

/// Whether `item` is the export of note `n` whose current version is `v`.
pub open spec fn note_matches(item: KnowledgeItem, n: NoteRecord, v: NoteVersionRecord) -> bool {
    &&& item.contract_version@ == KNOWLEDGE_CONTRACT_VERSION@
    &&& item.kind == KnowledgeKind::Note
    &&& item.export_id@ == export_id_of("note:"@, n.id@)
    &&& item.source_id == n.id
    &&& item.attempt_id is None
    &&& item.title == n.title
    &&& item.raw == v.content
    &&& item.language is None
    &&& item.model_id is None
    &&& item.created_at@ == rfc3339_millis(n.created_at_ms)
    &&& item.updated_at@ == rfc3339_millis(n.updated_at_ms)
    &&& item.audio is None
    &&& item.representations@.len() == 0
}

/// The export object of one note: its current content. A missing or
/// trashed note, or one without versions, is not found.
pub fn note_item_of(note: Option<&NoteRecord>, current: Option<&NoteVersionRecord>) -> (r: Result<
    KnowledgeItem,
    ExportRefusal,
>)
    ensures
        (note is None || note->0.deleted_at_ms is Some || current is None) ==> r == Err::<
            KnowledgeItem,
            ExportRefusal,
        >(ExportRefusal::NotFound),
        note is Some && note->0.deleted_at_ms is None && current is Some ==> (r matches Ok(item)
            && note_matches(item, *note->0, *current->0)),
{
    let n = match note {
        None => return Err(ExportRefusal::NotFound),
        Some(n) => n,
    };
    if n.deleted_at_ms.is_some() {
        return Err(ExportRefusal::NotFound);
    }
    let v = match current {
        None => return Err(ExportRefusal::NotFound),
        Some(v) => v,
    };
    let reps: Vec<KnowledgeRepresentation> = Vec::new();
    Ok(
        KnowledgeItem {
            contract_version: String::from_str(KNOWLEDGE_CONTRACT_VERSION),
            kind: KnowledgeKind::Note,
            export_id: prefixed("note:", n.id.as_str()),
            source_id: n.id.clone(),
            attempt_id: None,
            title: n.title.clone(),
            raw: v.content.clone(),
            language: None,
            model_id: None,
            created_at: rfc3339(n.created_at_ms),
            updated_at: rfc3339(n.updated_at_ms),
            audio: None,
            representations: reps,
        },
    )
}

/// What storage holds of one active dictation for export.
pub struct CaptureExportSource {
    pub capture: CaptureRecord,
    pub attempt: Option<AttemptRecord>,
    pub representations: Vec<RepresentationRecord>,
}

/// What storage holds of one active note for export.
pub struct NoteExportSource {
    pub note: NoteRecord,
    pub current: Option<NoteVersionRecord>,
}

/// Whether a dictation has something to export: a canonical attempt with
/// a transcript.
pub open spec fn capture_exportable(s: CaptureExportSource) -> bool {
    s.attempt is Some && s.attempt->0.normalized_stt is Some
}

/// Whether a note has something to export: it is active and has a version.
pub open spec fn note_exportable(s: NoteExportSource) -> bool {
    s.note.deleted_at_ms is None && s.current is Some
}

/// Everything exportable, dictations first, then notes, each in the given
/// order. Dictations without a canonical transcript and notes without a
/// current version are skipped: having nothing to say is no export error.
pub fn exportable_items_of(captures: &Vec<CaptureExportSource>, notes: &Vec<NoteExportSource>) -> (r:
    Vec<KnowledgeItem>)
    ensures
        ({
            let cs = captures@.filter(|s: CaptureExportSource| capture_exportable(s));
            let ns = notes@.filter(|s: NoteExportSource| note_exportable(s));
            &&& r@.len() == cs.len() + ns.len()
            &&& forall|i: int|
                0 <= i < cs.len() ==> transcription_matches(
                    #[trigger] r@[i],
                    cs[i].capture,
                    cs[i].attempt->0,
                    cs[i].representations@,
                )
            &&& forall|j: int|
                0 <= j < ns.len() ==> note_matches(
                    #[trigger] r@[cs.len() + j],
                    ns[j].note,
                    ns[j].current->0,
                )
        }),
{
    reveal(Seq::filter);
    let ghost cpred = |s: CaptureExportSource| capture_exportable(s);
    let ghost npred = |s: NoteExportSource| note_exportable(s);
    let mut items: Vec<KnowledgeItem> = Vec::new();
    let mut i: usize = 0;
    assert(captures@.take(0) =~= Seq::<CaptureExportSource>::empty());
    while i < captures.len()
        invariant
            i <= captures@.len(),
            cpred == (|s: CaptureExportSource| capture_exportable(s)),
            ({
                let cs = captures@.take(i as int).filter(cpred);
                &&& items@.len() == cs.len()
                &&& forall|k: int|
                    0 <= k < cs.len() ==> transcription_matches(
                        #[trigger] items@[k],
                        cs[k].capture,
                        cs[k].attempt->0,
                        cs[k].representations@,
                    )
            }),
        decreases captures@.len() - i,
    {
        reveal(Seq::filter);
        let s = &captures[i];
        let ghost t = captures@.take(i + 1);
        assert(t.drop_last() == captures@.take(i as int));
        assert(t.last() == *s);
        let attempt = match &s.attempt {
            Some(a) => Some(a),
            None => None,
        };
        match build_transcription(&s.capture, attempt, &s.representations) {
            Ok(item) => {
                items.push(item);
            },
            Err(_) => {},
        }
        i = i + 1;
    }
    assert(captures@.take(captures@.len() as int) == captures@);
    let ghost ncaps = items@.len();
    let mut j: usize = 0;
    assert(notes@.take(0) =~= Seq::<NoteExportSource>::empty());
    while j < notes.len()
        invariant
            j <= notes@.len(),
            ncaps <= items@.len(),
            npred == (|s: NoteExportSource| note_exportable(s)),
            ({
                let cs = captures@.filter(cpred);
                &&& ncaps == cs.len()
                &&& forall|k: int|
                    0 <= k < cs.len() ==> transcription_matches(
                        #[trigger] items@[k],
                        cs[k].capture,
                        cs[k].attempt->0,
                        cs[k].representations@,
                    )
            }),
            cpred == (|s: CaptureExportSource| capture_exportable(s)),
            ({
                let ns = notes@.take(j as int).filter(npred);
                &&& items@.len() == ncaps + ns.len()
                &&& forall|k: int|
                    0 <= k < ns.len() ==> note_matches(
                        #[trigger] items@[ncaps + k],
                        ns[k].note,
                        ns[k].current->0,
                    )
            }),
        decreases notes@.len() - j,
    {
        reveal(Seq::filter);
        let s = &notes[j];
        let ghost t = notes@.take(j + 1);
        assert(t.drop_last() == notes@.take(j as int));
        assert(t.last() == *s);
        let current = match &s.current {
            Some(v) => Some(v),
            None => None,
        };
        match note_item_of(Some(&s.note), current) {
            Ok(item) => {
                items.push(item);
            },
            Err(_) => {},
        }
        j = j + 1;
    }
    assert(notes@.take(notes@.len() as int) == notes@);
    items
}

} // verus!
