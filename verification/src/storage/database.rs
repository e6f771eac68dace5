//! The database connection policy's decisions that need no connection.

use vstd::prelude::*;

use crate::storage::repositories::transcriptions::str_equal;
use crate::text::{chars_of, extend_chars, string_of};

verus! {

/// Bounded busy timeout for writers contending under WAL.
pub const BUSY_TIMEOUT_MS: u64 = 5_000;

/// The verdict on what `PRAGMA integrity_check` reported: a sound database
/// reports exactly `ok`; anything else is corrupt data, quoted.
pub fn integrity_verdict(report: &str) -> (r: Result<(), String>)
    ensures
        report@ == "ok"@ ==> r is Ok,
        report@ != "ok"@ ==> (r matches Err(e) && e@ == "integrity_check reported: "@ + report@),
{
    if str_equal(report, "ok") {
        Ok(())
    } else {
        let mut out = chars_of("integrity_check reported: ");
        let t = chars_of(report);
        extend_chars(&mut out, t.as_slice());
        Err(string_of(out.as_slice()))
    }
}

} // verus!
