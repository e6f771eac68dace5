//! Storage usage reporting and the retention policy: raw audio and source
//! text are preserved; nothing here deletes anything.

use vstd::prelude::*;

use crate::storage::recovery::{is_referenced, referenced_name};

verus! {

/// Automatic destructive retention does not exist: the library preserves
/// raw audio and source text, and nothing here deletes anything.
pub fn automatic_retention_enabled() -> (r: bool)
    ensures
        r == false,
{
    false
}

#[derive(Clone, Debug)]
pub struct StorageUsage {
    pub database_bytes: u64,
    pub database_wal_bytes: u64,
    pub recording_count: i64,
    pub recording_total_bytes: u64,
    /// Bytes of recordings no capture row refers to.
    pub unreferenced_recording_bytes: u64,
    pub staged_temp_count: usize,
    pub staged_temp_bytes: u64,
    /// Trashed captures still holding audio, recoverable until purged.
    pub trashed_capture_count: i64,
}

/// A file in a measured directory: its name and size.
#[derive(Clone, Debug)]
pub struct FileSize {
    pub name: String,
    pub bytes: u64,
}

/// The total size of the files.
pub open spec fn total_bytes(files: Seq<FileSize>) -> int
    decreases files.len(),
{
    if files.len() == 0 {
        0
    } else {
        total_bytes(files.drop_last()) + files.last().bytes
    }
}

/// The total size of the files no capture refers to.
pub open spec fn unreferenced_bytes(files: Seq<FileSize>, referenced: Seq<String>) -> int
    decreases files.len(),
{
    if files.len() == 0 {
        0
    } else {
        unreferenced_bytes(files.drop_last(), referenced) + if referenced_name(
            referenced,
            files.last().name@,
        ) {
            0
        } else {
            files.last().bytes as int
        }
    }
}

proof fn lemma_unreferenced_at_most_total(files: Seq<FileSize>, referenced: Seq<String>)
    ensures
        0 <= unreferenced_bytes(files, referenced) <= total_bytes(files),
    decreases files.len(),
{
    if files.len() > 0 {
        lemma_unreferenced_at_most_total(files.drop_last(), referenced);
    }
}

/// Whether the files' sizes add up to a `u64`, as the usage report needs.
pub fn total_bytes_fit(files: &Vec<FileSize>) -> (r: bool)
    ensures
        r == (total_bytes(files@) <= u64::MAX),
{
    let mut total: u64 = 0;
    let mut i: usize = 0;
    assert(files@.take(0) =~= Seq::<FileSize>::empty());
    while i < files.len()
        invariant
            i <= files@.len(),
            total == total_bytes(files@.take(i as int)),
        decreases files@.len() - i,
    {
        let ghost t = files@.take(i + 1);
        assert(t.drop_last() == files@.take(i as int));
        assert(t.last() == files@[i as int]);
        match total.checked_add(files[i].bytes) {
            Some(v) => total = v,
            None => {
                proof {
                    lemma_total_prefix(files@, i + 1);
                }
                return false;
            },
        }
        i = i + 1;
    }
    assert(files@.take(files@.len() as int) == files@);
    true
}

/// The usage report, from what was measured: the recordings directory's
/// files, the staging directory's files, the recording names captures
/// refer to, the database and WAL file sizes, and the counts of captures
/// with audio and of trashed ones. Referenced recordings count toward the
/// recording total, the others toward the unreferenced bytes.
pub fn usage_summary(
    recordings: &Vec<FileSize>,
    staged: &Vec<FileSize>,
    referenced: &Vec<String>,
    database_bytes: u64,
    database_wal_bytes: u64,
    recording_count: i64,
    trashed_capture_count: i64,
) -> (r: StorageUsage)
    requires
        total_bytes(recordings@) <= u64::MAX,
        total_bytes(staged@) <= u64::MAX,
    ensures
        r.database_bytes == database_bytes,
        r.database_wal_bytes == database_wal_bytes,
        r.recording_count == recording_count,
        r.unreferenced_recording_bytes == unreferenced_bytes(recordings@, referenced@),
        r.recording_total_bytes == total_bytes(recordings@) - unreferenced_bytes(recordings@, referenced@),
        r.staged_temp_count == staged@.len(),
        r.staged_temp_bytes == total_bytes(staged@),
        r.trashed_capture_count == trashed_capture_count,
{
    let mut total: u64 = 0;
    let mut unreferenced: u64 = 0;
    let mut i: usize = 0;
    assert(recordings@.take(0) =~= Seq::<FileSize>::empty());
    while i < recordings.len()
        invariant
            i <= recordings@.len(),
            total_bytes(recordings@) <= u64::MAX,
            total == total_bytes(recordings@.take(i as int)),
            unreferenced == unreferenced_bytes(recordings@.take(i as int), referenced@),
        decreases recordings@.len() - i,
    {
        let f = &recordings[i];
        let ghost t = recordings@.take(i + 1);
        assert(t.drop_last() == recordings@.take(i as int));
        assert(t.last() == *f);
        proof {
            lemma_total_prefix(recordings@, i + 1);
            lemma_unreferenced_at_most_total(t, referenced@);
            lemma_unreferenced_at_most_total(recordings@.take(i as int), referenced@);
        }
        total = total + f.bytes;
        if !is_referenced(referenced, f.name.as_str()) {
            unreferenced = unreferenced + f.bytes;
        }
        i = i + 1;
    }
    assert(recordings@.take(recordings@.len() as int) == recordings@);
    proof {
        lemma_unreferenced_at_most_total(recordings@, referenced@);
    }
    let mut staged_total: u64 = 0;
    let mut k: usize = 0;
    assert(staged@.take(0) =~= Seq::<FileSize>::empty());
    while k < staged.len()
        invariant
            k <= staged@.len(),
            total_bytes(staged@) <= u64::MAX,
            staged_total == total_bytes(staged@.take(k as int)),
        decreases staged@.len() - k,
    {
        let ghost t = staged@.take(k + 1);
        assert(t.drop_last() == staged@.take(k as int));
        assert(t.last() == staged@[k as int]);
        proof {
            lemma_total_prefix(staged@, k + 1);
        }
        staged_total = staged_total + staged[k].bytes;
        k = k + 1;
    }
    assert(staged@.take(staged@.len() as int) == staged@);
    StorageUsage {
        database_bytes,
        database_wal_bytes,
        recording_count,
        recording_total_bytes: total - unreferenced,
        unreferenced_recording_bytes: unreferenced,
        staged_temp_count: staged.len(),
        staged_temp_bytes: staged_total,
        trashed_capture_count,
    }
}

proof fn lemma_total_prefix(files: Seq<FileSize>, n: int)
    requires
        0 <= n <= files.len(),
    ensures
        total_bytes(files.take(n)) <= total_bytes(files),
    decreases files.len() - n,
{
    if n < files.len() {
        lemma_total_prefix(files, n + 1);
        let t = files.take(n + 1);
        assert(t.drop_last() == files.take(n));
    } else {
        assert(files.take(n) == files);
    }
}

} // verus!
