//! Startup recovery: reconciling audio and incomplete database states
//! without silent data loss. Nothing is deleted: unknown or damaged files
//! are surfaced in the report. The file system is read elsewhere; what to
//! record for each finding is decided here.

use vstd::prelude::*;

use crate::storage::models::IntegrityState;
use crate::storage::repositories::captures::NewCapture;
use crate::storage::repositories::transcriptions::str_equal;
use crate::text::{chars_of, extend_chars, string_of};

verus! {

#[derive(Clone, Debug)]
pub struct RecoveryReport {
    /// Staged temps that finalized cleanly, recovered as orphan captures.
    pub recovered_from_staging: Vec<String>,
    /// Staged temps that failed validation, left on disk untouched.
    pub corrupt_staging: Vec<String>,
    /// Pending captures whose audio vanished, marked missing.
    pub marked_audio_missing: Vec<String>,
    /// Final recordings without a capture, adopted as orphans.
    pub adopted_orphan_recordings: Vec<String>,
}

impl RecoveryReport {
    /// A report of nothing found.
    pub fn new() -> (r: Self)
        ensures
            r.recovered_from_staging@.len() == 0,
            r.corrupt_staging@.len() == 0,
            r.marked_audio_missing@.len() == 0,
            r.adopted_orphan_recordings@.len() == 0,
    {
        RecoveryReport {
            recovered_from_staging: Vec::new(),
            corrupt_staging: Vec::new(),
            marked_audio_missing: Vec::new(),
            adopted_orphan_recordings: Vec::new(),
        }
    }
}

impl Default for RecoveryReport {
    fn default() -> (r: Self)
        ensures
            r.recovered_from_staging@.len() == 0,
            r.corrupt_staging@.len() == 0,
            r.marked_audio_missing@.len() == 0,
            r.adopted_orphan_recordings@.len() == 0,
    {
        RecoveryReport::new()
    }
}

/// The title of a capture recovered from staging.
pub fn recovered_title(file_name: &str) -> (r: String)
    ensures
        r@ == "Recovered "@ + file_name@,
{
    let mut out = chars_of("Recovered ");
    let n = chars_of(file_name);
    extend_chars(&mut out, n.as_slice());
    string_of(out.as_slice())
}

/// The capture of a staged recording that finalized cleanly: an orphan
/// with its audio facts.
pub fn staged_recovery_capture(file_name: &str, sha256: String, size_bytes: i64) -> (r: NewCapture)
    ensures
        r.audio_file_name matches Some(n) && n@ == file_name@,
        r.audio_sha256 == Some(sha256),
        r.audio_size_bytes == Some(size_bytes),
        r.title@ == "Recovered "@ + file_name@,
        r.source_app is None,
        r.integrity_state == IntegrityState::RecoveredOrphan,
{
    NewCapture {
        audio_file_name: Some(String::from_str(file_name)),
        audio_sha256: Some(sha256),
        audio_size_bytes: Some(size_bytes),
        title: recovered_title(file_name),
        source_app: None,
        integrity_state: IntegrityState::RecoveredOrphan,
    }
}

/// What a pending capture becomes at startup, from what the recording
/// directory holds: without a file name or file it is missing; a file that
/// opens as WAV with at least one frame (`wav_frames`, when it opened at
/// all) is a recovered orphan; anything else is corrupt.
pub open spec fn pending_outcome(has_file_name: bool, file_exists: bool, wav_frames: Option<u32>) -> IntegrityState {
    if !has_file_name || !file_exists {
        IntegrityState::AudioMissing
    } else {
        match wav_frames {
            Some(n) if n > 0 => IntegrityState::RecoveredOrphan,
            _ => IntegrityState::AudioCorrupt,
        }
    }
}

/// What a pending capture becomes at startup.
pub fn pending_capture_state(has_file_name: bool, file_exists: bool, wav_frames: Option<u32>) -> (r:
    IntegrityState)
    ensures
        r == pending_outcome(has_file_name, file_exists, wav_frames),
{
    if !has_file_name || !file_exists {
        IntegrityState::AudioMissing
    } else {
        match wav_frames {
            Some(n) => if n > 0 {
                IntegrityState::RecoveredOrphan
            } else {
                IntegrityState::AudioCorrupt
            },
            None => IntegrityState::AudioCorrupt,
        }
    }
}

/// Whether `name` is among the referenced recording names.
pub open spec fn referenced_name(referenced: Seq<String>, name: Seq<char>) -> bool {
    exists|j: int| 0 <= j < referenced.len() && (#[trigger] referenced[j])@ == name
}

/// Whether a recording on disk is referenced by some capture.
pub fn is_referenced(referenced: &Vec<String>, name: &str) -> (r: bool)
    ensures
        r == referenced_name(referenced@, name@),
{
    let mut i: usize = 0;
    while i < referenced.len()
        invariant
            i <= referenced@.len(),
            forall|j: int| 0 <= j < i ==> (#[trigger] referenced@[j])@ != name@,
        decreases referenced@.len() - i,
    {
        if str_equal(referenced[i].as_str(), name) {
            return true;
        }
        i = i + 1;
    }
    false
}

/// The length in milliseconds of `frames` frames at `sample_rate`, rounded
/// up; none when either is zero.
pub open spec fn duration_ms_of(frames: u32, sample_rate: u32) -> Option<i64> {
    if sample_rate > 0 && frames > 0 {
        Some(((frames * 1000 + sample_rate - 1) / (sample_rate as int)) as i64)
    } else {
        None
    }
}

/// The duration of an orphan recording, when its header gives one.
pub fn orphan_duration_ms(frames: u32, sample_rate: u32) -> (r: Option<i64>)
    ensures
        r == duration_ms_of(frames, sample_rate),
{
    if sample_rate > 0 && frames > 0 {
        let f = frames as i64;
        let s = sample_rate as i64;
        assert(f * 1000 + s - 1 <= 0xffff_ffffi64 * 1000 + 0xffff_ffffi64) by (nonlinear_arith)
            requires
                f <= 0xffff_ffff,
                s <= 0xffff_ffff,
        ;
        Some((f * 1000 + s - 1) / s)
    } else {
        None
    }
}

/// The adopted capture of an orphan recording found on disk. Its file's
/// modification time is the best available end instant; the capture starts
/// its duration earlier (saturating), never at recovery time. A recording
/// without a readable duration is adopted as corrupt.
pub fn orphan_capture(name: &str, sha256: String, size_bytes: i64, end_ms: i64, duration_ms: Option<i64>) -> (r: (
    NewCapture,
    i64,
))
    ensures
        r.0.audio_file_name matches Some(n) && n@ == name@,
        r.0.audio_sha256 == Some(sha256),
        r.0.audio_size_bytes == Some(size_bytes),
        r.0.title@ == "Recovered "@ + name@ + " (estimated time)"@,
        r.0.source_app is None,
        r.0.integrity_state == (if duration_ms is Some {
            IntegrityState::RecoveredOrphan
        } else {
            IntegrityState::AudioCorrupt
        }),
        ({
            let d: int = match duration_ms {
                Some(d) => d as int,
                None => 0,
            };
            r.1 == (if end_ms - d > i64::MAX {
                i64::MAX as int
            } else if end_ms - d < i64::MIN {
                i64::MIN as int
            } else {
                end_ms - d
            })
        }),
{
    let mut title = chars_of("Recovered ");
    let n = chars_of(name);
    extend_chars(&mut title, n.as_slice());
    let tail = chars_of(" (estimated time)");
    extend_chars(&mut title, tail.as_slice());
    let d: i64 = match duration_ms {
        Some(d) => d,
        None => 0,
    };
    let start = match end_ms.checked_sub(d) {
        Some(v) => v,
        None => if d > 0 {
            i64::MIN
        } else {
            i64::MAX
        },
    };
    let state = match duration_ms {
        Some(_) => IntegrityState::RecoveredOrphan,
        None => IntegrityState::AudioCorrupt,
    };
    (
        NewCapture {
            audio_file_name: Some(String::from_str(name)),
            audio_sha256: Some(sha256),
            audio_size_bytes: Some(size_bytes),
            title: string_of(title.as_slice()),
            source_app: None,
            integrity_state: state,
        },
        start,
    )
}

/// What a reconciliation records settles what it found, so a second run
/// over the same state finds nothing new: a pending capture always leaves
/// the pending state, and a recording the run adopts is referenced from
/// then on, so the run after skips it.
pub proof fn law_recovery_settles_what_it_records(
    has_file_name: bool,
    file_exists: bool,
    wav_frames: Option<u32>,
    referenced: Seq<String>,
    adopted: String,
)
    ensures
        pending_outcome(has_file_name, file_exists, wav_frames) != IntegrityState::PendingAudio,
        referenced_name(referenced.push(adopted), adopted@),
{
    assert(referenced.push(adopted)[referenced.len() as int] == adopted);
}

} // verus!
