//! Notes as the frontend sees them, and which note sources it may name.

use vstd::prelude::*;

use crate::storage::repositories::notes::{
    NoteRecord, NoteVersionRecord, SOURCE_DICTATION, SOURCE_MANUAL_EDIT,
};
use crate::storage::repositories::transcriptions::str_equal;
use crate::text::{chars_of, extend_chars, string_of};

verus! {

#[derive(Clone, Debug)]
pub struct NoteDto {
    pub id: String,
    pub title: String,
    pub pinned: bool,
    pub trashed: bool,
    pub created_at_ms: i64,
    pub updated_at_ms: i64,
}

#[derive(Clone, Debug)]
pub struct NoteVersionDto {
    pub id: String,
    pub note_id: String,
    pub version_no: i64,
    pub content: String,
    pub source: String,
    pub created_at_ms: i64,
}

/// A note as the frontend sees it: trashed exactly when it has a deletion
/// time.
pub fn note_dto(n: NoteRecord) -> (r: NoteDto)
    ensures
        r.id == n.id,
        r.title == n.title,
        r.pinned == n.pinned,
        r.trashed == n.deleted_at_ms is Some,
        r.created_at_ms == n.created_at_ms,
        r.updated_at_ms == n.updated_at_ms,
{
    NoteDto {
        id: n.id,
        title: n.title,
        pinned: n.pinned,
        trashed: n.deleted_at_ms.is_some(),
        created_at_ms: n.created_at_ms,
        updated_at_ms: n.updated_at_ms,
    }
}

/// A note version as the frontend sees it (its content hash stays behind).
pub fn version_dto(v: NoteVersionRecord) -> (r: NoteVersionDto)
    ensures
        r.id == v.id,
        r.note_id == v.note_id,
        r.version_no == v.version_no,
        r.content == v.content,
        r.source == v.source,
        r.created_at_ms == v.created_at_ms,
{
    NoteVersionDto {
        id: v.id,
        note_id: v.note_id,
        version_no: v.version_no,
        content: v.content,
        source: v.source,
        created_at_ms: v.created_at_ms,
    }
}

/// The error for a note source the frontend may not name.
pub open spec fn unsupported_source(source: Seq<char>) -> Seq<char> {
    "unsupported note source '"@ + source + "'"@
}

/// The note source the frontend asked for, when it may name it: only the
/// user-facing `manual_edit` and `dictation`; `transform` and `restore`
/// are recorded by the backend alone.
pub fn frontend_source(source: &str) -> (r: Result<&'static str, String>)
    ensures
        source@ == SOURCE_MANUAL_EDIT@ ==> r == Ok::<&'static str, String>(SOURCE_MANUAL_EDIT),
        source@ == SOURCE_DICTATION@ ==> r == Ok::<&'static str, String>(SOURCE_DICTATION),
        source@ != SOURCE_MANUAL_EDIT@ && source@ != SOURCE_DICTATION@ ==> (r matches Err(m) && m@
            == unsupported_source(source@)),
{
    proof {
        reveal_strlit("manual_edit");
        reveal_strlit("dictation");
        assert(SOURCE_MANUAL_EDIT@[0] != SOURCE_DICTATION@[0]);
    }
    if str_equal(source, SOURCE_MANUAL_EDIT) {
        Ok(SOURCE_MANUAL_EDIT)
    } else if str_equal(source, SOURCE_DICTATION) {
        Ok(SOURCE_DICTATION)
    } else {
        let mut out = chars_of("unsupported note source '");
        let s = chars_of(source);
        extend_chars(&mut out, s.as_slice());
        let q = chars_of("'");
        extend_chars(&mut out, q.as_slice());
        Err(string_of(out.as_slice()))
    }
}

} // verus!
