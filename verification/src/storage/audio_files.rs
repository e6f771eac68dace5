//! The durable audio capture lifecycle: temp file, validate, hash and size,
//! atomic rename, then the capture's metadata. Recovery never silently
//! deletes audio: unfinalized temps are surfaced, never removed. What can
//! be decided without touching files is decided here.

use vstd::prelude::*;

use crate::storage::hashing::{hex_lower, sha256_hex, sha256_spec};
use crate::storage::repositories::transcriptions::str_equal;
use crate::text::{chars_of, digits_exec, digits_of, extend_chars, string_of};

verus! {

/// A filesystem path (`std::path::PathBuf`), carried as it is.
#[verifier::external_type_specification]
#[verifier::external_body]
pub struct ExPathBuf(std::path::PathBuf);

/// A staged, in-progress capture file: not yet valid audio; finalized or
/// left for recovery, never silently discarded.
#[derive(Debug)]
pub struct StagedAudio {
    pub temp_path: std::path::PathBuf,
}

/// The immutable facts of a finalized recording.
#[derive(Debug)]
pub struct FinalizedAudio {
    pub final_path: std::path::PathBuf,
    /// The file name (not the full path) stored with the capture.
    pub file_name: String,
    pub sha256: String,
    pub size_bytes: u64,
}

/// The smallest plausible WAV file: its canonical 44-byte header.
pub const MIN_WAV_BYTES: u64 = 44;

/// Whether the first bytes of a file, `header` being what could be read of
/// its first twelve, open a RIFF/WAVE file.
pub open spec fn riff_wave(header: Seq<u8>) -> bool {
    &&& header.len() >= 12
    &&& header.take(4) == seq![0x52u8, 0x49u8, 0x46u8, 0x46u8]
    &&& header.subrange(8, 12) == seq![0x57u8, 0x41u8, 0x56u8, 0x45u8]
}

/// Whether a staged file's header is that of a RIFF/WAVE file; anything
/// else is refused, so a corrupt temp is never promoted.
pub fn is_riff_wave(header: &[u8]) -> (r: bool)
    ensures
        r == riff_wave(header@),
{
    if header.len() < 12 {
        return false;
    }
    let ok = header[0] == 0x52u8 && header[1] == 0x49u8 && header[2] == 0x46u8 && header[3] == 0x46u8
        && header[8] == 0x57u8 && header[9] == 0x41u8 && header[10] == 0x56u8 && header[11] == 0x45u8;
    assert(ok ==> header@.take(4) =~= seq![0x52u8, 0x49u8, 0x46u8, 0x46u8]);
    assert(ok ==> header@.subrange(8, 12) =~= seq![0x57u8, 0x41u8, 0x56u8, 0x45u8]);
    assert(!ok ==> !riff_wave(header@)) by {
        if riff_wave(header@) {
            assert(header@.take(4)[0] == header@[0]);
            assert(header@.take(4)[1] == header@[1]);
            assert(header@.take(4)[2] == header@[2]);
            assert(header@.take(4)[3] == header@[3]);
            assert(header@.subrange(8, 12)[0] == header@[8]);
            assert(header@.subrange(8, 12)[1] == header@[9]);
            assert(header@.subrange(8, 12)[2] == header@[10]);
            assert(header@.subrange(8, 12)[3] == header@[11]);
        }
    }
    ok
}

/// The refusal of a header that is not RIFF/WAVE.
pub open spec fn not_wave_message() -> Seq<char> {
    "staged audio is not a RIFF/WAVE file"@
}

/// The refusal of a file shorter than a WAV header.
pub open spec fn too_small_message(size: u64) -> Seq<char> {
    "staged audio too small ("@ + digits_of(size as nat) + " bytes)"@
}

/// Whether a staged file may be promoted, from its header and its size:
/// refused when the header is not RIFF/WAVE, else when it is shorter than a
/// WAV header. A refused temp stays where it is, for recovery.
pub fn check_staged(header: &[u8], size: u64) -> (r: Result<(), String>)
    ensures
        !riff_wave(header@) ==> (r matches Err(e) && e@ == not_wave_message()),
        riff_wave(header@) && size < MIN_WAV_BYTES ==> (r matches Err(e) && e@ == too_small_message(
            size,
        )),
        riff_wave(header@) && size >= MIN_WAV_BYTES ==> r is Ok,
{
    if !is_riff_wave(header) {
        return Err(String::from_str("staged audio is not a RIFF/WAVE file"));
    }
    if size < MIN_WAV_BYTES {
        let mut out = chars_of("staged audio too small (");
        let d = digits_exec(size);
        extend_chars(&mut out, d.as_slice());
        let tail = chars_of(" bytes)");
        extend_chars(&mut out, tail.as_slice());
        return Err(string_of(out.as_slice()));
    }
    Ok(())
}

/// Whether a finalized recording's content still matches the digest
/// recorded for it.
pub fn digest_matches(content: &[u8], expected_sha256: &str) -> (r: bool)
    ensures
        r == (hex_lower(sha256_spec(content@)) == expected_sha256@),
{
    let actual = sha256_hex(content);
    str_equal(actual.as_str(), expected_sha256)
}

} // verus!
