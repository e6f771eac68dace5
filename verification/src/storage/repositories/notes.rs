//! Notes with append-only versions; the current content is the highest
//! version.

use vstd::prelude::*;

use crate::storage::repositories::transcriptions::str_equal;

verus! {

pub const SOURCE_DICTATION: &'static str = "dictation";
pub const SOURCE_MANUAL_EDIT: &'static str = "manual_edit";
pub const SOURCE_TRANSFORM: &'static str = "transform";
pub const SOURCE_RESTORE: &'static str = "restore";

#[derive(Clone, Debug)]
pub struct NewNote {
    pub title: String,
    pub first_version_content: String,
    pub source: &'static str,
}

#[derive(Clone, Debug)]
pub struct NoteRecord {
    pub id: String,
    pub title: String,
    pub pinned: bool,
    pub deleted_at_ms: Option<i64>,
    pub created_at_ms: i64,
    pub updated_at_ms: i64,
}

#[derive(Clone, Debug)]
pub struct NoteVersionRecord {
    pub id: String,
    pub note_id: String,
    pub version_no: i64,
    pub content: String,
    pub content_hash_sha256: String,
    pub source: String,
    pub created_at_ms: i64,
}

/// The position of version number `version_no` among `versions`.
pub fn find_version(versions: &Vec<NoteVersionRecord>, version_no: i64) -> (r: Option<usize>)
    ensures
        r matches Some(k) ==> k < versions@.len() && versions@[k as int].version_no == version_no
            && forall|j: int| 0 <= j < k ==> versions@[j].version_no != version_no,
        r is None ==> forall|j: int| 0 <= j < versions@.len() ==> versions@[j].version_no != version_no,
{
    let mut i: usize = 0;
    while i < versions.len()
        invariant
            i <= versions@.len(),
            forall|j: int| 0 <= j < i ==> versions@[j].version_no != version_no,
        decreases versions@.len() - i,
    {
        if versions[i].version_no == version_no {
            return Some(i);
        }
        i = i + 1;
    }
    None
}

// ---------------------------------------------------------------------
// Version numbering: the history of a note as `(version_no, content hash)`
// pairs, oldest first
// ---------------------------------------------------------------------

/// The number the next version of a note gets when content with hash
/// `new_hash` is saved, given the note's highest version (its number and
/// content hash): none when that content is identical, one past the
/// highest otherwise, and 1 for a note without versions.
pub open spec fn next_version_no(latest: Option<(i64, Seq<char>)>, new_hash: Seq<char>) -> Option<int> {
    match latest {
        None => Some(1),
        Some((n, h)) => if h == new_hash {
            None
        } else {
            Some(n + 1)
        },
    }
}

/// Decides whether saving appends a version, and its number.
pub fn plan_version(latest: Option<(i64, &str)>, new_hash: &str) -> (r: Option<i64>)
    requires
        latest matches Some((n, _)) ==> n < i64::MAX,
    ensures
        r matches Some(v) ==> next_version_no(
            match latest {
                Some((n, h)) => Some((n, h@)),
                None => None,
            },
            new_hash@,
        ) == Some(v as int),
        r is None ==> next_version_no(
            match latest {
                Some((n, h)) => Some((n, h@)),
                None => None,
            },
            new_hash@,
        ) is None,
{
    match latest {
        None => Some(1),
        Some((n, h)) => {
            if str_equal(h, new_hash) {
                None
            } else {
                Some(n + 1)
            }
        },
    }
}

/// The highest version of a history, if any.
pub open spec fn latest_of(h: Seq<(i64, Seq<char>)>) -> Option<(i64, Seq<char>)> {
    if h.len() == 0 {
        None
    } else {
        Some(h.last())
    }
}

/// The history after saving content with hash `new_hash`.
pub open spec fn saved(h: Seq<(i64, Seq<char>)>, new_hash: Seq<char>) -> Seq<(i64, Seq<char>)> {
    match next_version_no(latest_of(h), new_hash) {
        None => h,
        Some(v) => h.push((v as i64, new_hash)),
    }
}

/// Version numbers start at 1 and strictly increase, and fit the store.
pub open spec fn well_numbered(h: Seq<(i64, Seq<char>)>) -> bool {
    &&& forall|i: int| 0 <= i < h.len() ==> 1 <= #[trigger] h[i].0 < i64::MAX
    &&& forall|i: int, j: int| 0 <= i < j < h.len() ==> h[i].0 < h[j].0
}

/// Saving never rewrites a version: the history before the save is a
/// prefix of the history after it, and at most one version is added.
pub proof fn law_versions_are_append_only(h: Seq<(i64, Seq<char>)>, new_hash: Seq<char>)
    ensures
        saved(h, new_hash).len() <= h.len() + 1,
        saved(h, new_hash).take(h.len() as int) == h,
{
    assert(h.take(h.len() as int) == h);
    assert(h.push((0i64, new_hash)).take(h.len() as int) == h);
    if let Some(v) = next_version_no(latest_of(h), new_hash) {
        assert(h.push((v as i64, new_hash)).take(h.len() as int) == h);
    }
}

/// Saving content identical to the current version creates no version.
pub proof fn law_identical_content_is_a_no_op(h: Seq<(i64, Seq<char>)>, new_hash: Seq<char>)
    requires
        h.len() > 0,
        h.last().1 == new_hash,
    ensures
        saved(h, new_hash) == h,
{
}

/// Saving keeps the numbering well formed, and a new version carries the
/// saved content's hash under a number above every earlier one.
pub proof fn law_version_numbers_increase(h: Seq<(i64, Seq<char>)>, new_hash: Seq<char>)
    requires
        well_numbered(h),
        h.len() > 0 ==> h.last().0 < i64::MAX - 1,
    ensures
        well_numbered(saved(h, new_hash)),
        saved(h, new_hash).len() == h.len() + 1 ==> saved(h, new_hash).last().1 == new_hash
            && forall|i: int| 0 <= i < h.len() ==> h[i].0 < saved(h, new_hash).last().0,
{
    let s = saved(h, new_hash);
    if s.len() == h.len() + 1 {
        assert forall|i: int| 0 <= i < h.len() implies h[i].0 < s.last().0 by {
            if h.len() > 0 && i < h.len() - 1 {
                assert(h[i].0 < h[h.len() - 1].0);
            }
        }
        assert forall|i: int, j: int| 0 <= i < j < s.len() implies s[i].0 < s[j].0 by {
            if j == h.len() {
                assert(s[i] == h[i]);
            } else {
                assert(s[i] == h[i] && s[j] == h[j]);
            }
        }
        assert forall|i: int| 0 <= i < s.len() implies 1 <= #[trigger] s[i].0 < i64::MAX by {
            if i < h.len() {
                assert(s[i] == h[i]);
            }
        }
    }
}

/// Restoring version `k` saves its content again: when the current version
/// differs, exactly one version is appended and it carries version `k`'s
/// content; the versions before it, `k` included, stay as they were.
pub proof fn law_restore_appends_the_old_content(h: Seq<(i64, Seq<char>)>, k: int)
    requires
        0 <= k < h.len(),
        h.last().1 != h[k].1,
    ensures
        saved(h, h[k].1).len() == h.len() + 1,
        saved(h, h[k].1).take(h.len() as int) == h,
        saved(h, h[k].1).last().1 == h[k].1,
{
    law_versions_are_append_only(h, h[k].1);
}

} // verus!
