//! Canonical history paging: filters, the stable `(created_at_ms, id)`
//! cursor, and page assembly.

use vstd::prelude::*;

use crate::storage::models::IntegrityState;
use crate::storage::repositories::transcriptions::str_equal;
use crate::text::{chars_lt, chars_of, decimal, decimal_chars, extend_chars, parse_i64, parse_i64_spec, string_of};

verus! {

#[derive(Clone, Debug)]
pub struct CanonicalHistoryFilter {
    pub from_ms: Option<i64>,
    pub to_ms: Option<i64>,
    /// `handy`, `wispr`, or `manual`; absent means every origin.
    pub origin: Option<String>,
}

#[derive(Clone, Debug)]
pub struct CanonicalHistoryEntry {
    pub capture_id: String,
    pub created_at_ms: i64,
    pub title: String,
    pub text: String,
    pub saved: bool,
    pub audio_file_name: Option<String>,
    pub source_app: Option<String>,
    pub origin: String,
    pub integrity_state: String,
    pub attempt_status: String,
    pub attempt_error: Option<String>,
    pub audio_duration_ms: Option<i64>,
    pub completed_samples: i64,
    pub completed_chunks: i64,
    pub review_seams: i64,
}

#[derive(Clone, Debug)]
pub struct CanonicalHistoryPage {
    pub entries: Vec<CanonicalHistoryEntry>,
    pub next_cursor: Option<String>,
}

#[derive(Clone, Debug)]
pub struct CanonicalSeamDetail {
    pub position_ms: i64,
    pub left: String,
    pub right: String,
}

// ---------------------------------------------------------------------
// Cursor
// ---------------------------------------------------------------------

/// The index of the first `:` in `s` at or after `k`.
pub open spec fn first_colon_from(s: Seq<char>, k: int) -> Option<int>
    decreases s.len() - k,
{
    if k < 0 || k >= s.len() {
        None
    } else if s[k] == ':' {
        Some(k)
    } else {
        first_colon_from(s, k + 1)
    }
}

/// The cursor text for the entry created at `ms` with id `id`.
pub open spec fn cursor_text(ms: i64, id: Seq<char>) -> Seq<char> {
    decimal(ms as int) + seq![':'] + id
}

/// How a cursor parses: split at the first `:`, a decimal timestamp before
/// it and a non-empty id after it; otherwise the error message.
pub open spec fn cursor_parse(c: Seq<char>) -> Result<(i64, Seq<char>), Seq<char>> {
    match first_colon_from(c, 0) {
        None => Err("invalid history cursor"@),
        Some(k) => match parse_i64_spec(c.take(k)) {
            None => Err("invalid history cursor timestamp"@),
            Some(ms) => if c.skip(k + 1).len() == 0 {
                Err("invalid history cursor id"@)
            } else {
                Ok((ms, c.skip(k + 1)))
            },
        },
    }
}

/// Parses an optional page cursor `"<created_at_ms>:<id>"`.
pub fn parse_cursor(cursor: Option<&str>) -> (r: Result<Option<(i64, String)>, String>)
    ensures
        cursor is None ==> r matches Ok(None),
        cursor matches Some(c) ==> match (r, cursor_parse(c@)) {
            (Ok(Some((ms, id))), Ok((ms2, id2))) => ms == ms2 && id@ == id2,
            (Err(e), Err(e2)) => e@ == e2,
            _ => false,
        },
{
    let c = match cursor {
        None => return Ok(None),
        Some(c) => c,
    };
    let cs = chars_of(c);
    let mut k: usize = 0;
    while k < cs.len() && cs[k] != ':'
        invariant
            k <= cs@.len(),
            cs@ == c@,
            first_colon_from(cs@, 0) == first_colon_from(cs@, k as int),
        decreases cs@.len() - k,
    {
        k = k + 1;
    }
    if k == cs.len() {
        return Err(String::from_str("invalid history cursor"));
    }
    let mut head: Vec<char> = Vec::new();
    let mut i: usize = 0;
    while i < k
        invariant
            k < cs@.len(),
            i <= k,
            head@ == cs@.take(i as int),
        decreases k - i,
    {
        head.push(cs[i]);
        assert(cs@.take(i + 1) == cs@.take(i as int).push(cs@[i as int]));
        i = i + 1;
    }
    let ms = match parse_i64(head.as_slice()) {
        None => return Err(String::from_str("invalid history cursor timestamp")),
        Some(ms) => ms,
    };
    let mut id: Vec<char> = Vec::new();
    let mut j: usize = k + 1;
    while j < cs.len()
        invariant
            k + 1 <= j <= cs@.len(),
            id@ == cs@.subrange(k + 1, j as int),
        decreases cs@.len() - j,
    {
        id.push(cs[j]);
        assert(cs@.subrange(k + 1, j + 1) == cs@.subrange(k + 1, j as int).push(cs@[j as int]));
        j = j + 1;
    }
    assert(cs@.subrange(k + 1, cs@.len() as int) == cs@.skip(k + 1));
    if id.len() == 0 {
        return Err(String::from_str("invalid history cursor id"));
    }
    Ok(Some((ms, string_of(id.as_slice()))))
}

/// The cursor naming the entry created at `created_at_ms` with id `id`.
pub fn format_cursor(created_at_ms: i64, id: &str) -> (r: String)
    ensures
        r@ == cursor_text(created_at_ms, id@),
{
    let mut out = decimal_chars(created_at_ms);
    out.push(':');
    let idc = chars_of(id);
    extend_chars(&mut out, idc.as_slice());
    string_of(out.as_slice())
}

/// A cursor handed out with a page is read back as the same position:
/// parsing the cursor of an entry yields its timestamp and id.
pub proof fn law_cursor_round_trip(ms: i64, id: Seq<char>)
    requires
        id.len() > 0,
    ensures
        cursor_parse(cursor_text(ms, id)) == Ok::<(i64, Seq<char>), Seq<char>>((ms, id)),
{
    crate::text::law_decimal_parses_back(ms);
    let d = decimal(ms as int);
    let c = cursor_text(ms, id);
    assert forall|i: int| 0 <= i < d.len() implies c[i] != ':' by {
        assert(c[i] == d[i]);
    }
    lemma_colon_scan(c, d.len() as int, d.len() as int);
    assert(c[d.len() as int] == ':');
    assert(first_colon_from(c, d.len() as int) == Some(d.len() as int));
    assert(c.take(d.len() as int) == d);
    assert(c.skip(d.len() as int + 1) == id);
}

proof fn lemma_colon_scan(c: Seq<char>, end: int, k: int)
    requires
        0 <= k <= end <= c.len(),
        forall|i: int| 0 <= i < end ==> c[i] != ':',
    ensures
        first_colon_from(c, 0) == first_colon_from(c, k),
    decreases k,
{
    if k > 0 {
        lemma_colon_scan(c, end, k - 1);
    }
}

// ---------------------------------------------------------------------
// Filters and pages
// ---------------------------------------------------------------------

/// Which origin a history query keeps.
#[derive(Clone, Copy, Debug, PartialEq, Eq, Structural)]
pub enum OriginFilter {
    All,
    Wispr,
    Handy,
    Manual,
}

/// The origin filter a request names: absent or `all` keeps everything,
/// `wispr`, `handy` and `manual` keep one origin, anything else is refused.
pub fn origin_filter(origin: Option<&str>) -> (r: Result<OriginFilter, String>)
    ensures
        origin is None ==> r == Ok::<OriginFilter, String>(OriginFilter::All),
        origin matches Some(o) ==> (match r {
            Ok(OriginFilter::All) => o@ == "all"@,
            Ok(OriginFilter::Wispr) => o@ == "wispr"@,
            Ok(OriginFilter::Handy) => o@ == "handy"@,
            Ok(OriginFilter::Manual) => o@ == "manual"@,
            Err(e) => o@ != "all"@ && o@ != "wispr"@ && o@ != "handy"@ && o@ != "manual"@
                && e@ == "invalid history origin"@,
        }),
{
    match origin {
        None => Ok(OriginFilter::All),
        Some(o) => {
            if str_equal(o, "all") {
                Ok(OriginFilter::All)
            } else if str_equal(o, "wispr") {
                Ok(OriginFilter::Wispr)
            } else if str_equal(o, "handy") {
                Ok(OriginFilter::Handy)
            } else if str_equal(o, "manual") {
                Ok(OriginFilter::Manual)
            } else {
                Err(String::from_str("invalid history origin"))
            }
        },
    }
}

/// How many entries a page holds: 1..=200.
pub fn page_size(limit: i64) -> (r: i64)
    ensures
        r == (if limit < 1 {
            1
        } else if limit > 200 {
            200
        } else {
            limit
        }),
{
    if limit < 1 {
        1
    } else if limit > 200 {
        200
    } else {
        limit
    }
}

/// Builds a page from up to `requested + 1` rows fetched in order: when
/// more than `requested` came back, the extra row is dropped and the
/// cursor names the last entry kept; otherwise there is no next page.
pub fn finish_page(rows: Vec<CanonicalHistoryEntry>, requested: i64) -> (r: CanonicalHistoryPage)
    requires
        1 <= requested <= 200,
    ensures
        rows@.len() > requested ==> r.entries@ == rows@.take(rows@.len() - 1),
        rows@.len() > requested ==> (r.next_cursor matches Some(c) && c@ == cursor_text(
            rows@[rows@.len() - 2].created_at_ms,
            rows@[rows@.len() - 2].capture_id@,
        )),
        rows@.len() <= requested ==> r.entries@ == rows@ && r.next_cursor is None,
        r.entries@ == page_entries(rows@, requested as int),
{
    let mut entries = rows;
    let has_more = entries.len() > requested as usize;
    if has_more {
        entries.pop();
        let last = &entries[entries.len() - 1];
        let cursor = format_cursor(last.created_at_ms, last.capture_id.as_str());
        CanonicalHistoryPage { entries, next_cursor: Some(cursor) }
    } else {
        CanonicalHistoryPage { entries, next_cursor: None }
    }
}

/// Whether an entry lies after the position `(ms, id)` in the history's
/// order, newest first: it is older, or as old with a smaller id. This is
/// what a page request with that cursor keeps.
pub open spec fn after_position(e: CanonicalHistoryEntry, ms: i64, id: Seq<char>) -> bool {
    e.created_at_ms < ms || (e.created_at_ms == ms && chars_lt(e.capture_id@, id))
}

/// Whether entries are in the history's order without repeats: each lies
/// after every one before it.
pub open spec fn in_history_order(all: Seq<CanonicalHistoryEntry>) -> bool {
    forall|i: int, j: int|
        0 <= i < j < all.len() ==> after_position(
            #[trigger] all[j],
            (#[trigger] all[i]).created_at_ms,
            all[i].capture_id@,
        )
}

/// The first `n` entries of `s`, or all of them when there are fewer: what
/// a query with `LIMIT n` returns of rows in order.
pub open spec fn first_rows(s: Seq<CanonicalHistoryEntry>, n: int) -> Seq<CanonicalHistoryEntry> {
    if s.len() <= n {
        s
    } else {
        s.take(n)
    }
}

/// The entries a page keeps of the up to `limit + 1` rows fetched for it.
pub open spec fn page_entries(rows: Seq<CanonicalHistoryEntry>, limit: int) -> Seq<
    CanonicalHistoryEntry,
> {
    if rows.len() > limit {
        rows.take(rows.len() - 1)
    } else {
        rows
    }
}

/// Consecutive pages neither repeat nor skip an entry. Let `all` be the
/// entries matching a filter, in the history's order. The first page keeps
/// the first `limit` of them and its cursor names the last one kept; the
/// entries lying after that cursor are exactly the rest of `all`, in
/// order; so the next page continues right after the first, and the two
/// together are the start of `all`.
pub proof fn law_pages_continue_without_gap(all: Seq<CanonicalHistoryEntry>, limit: int)
    requires
        in_history_order(all),
        1 <= limit <= 200,
        all.len() > limit,
    ensures
        page_entries(first_rows(all, limit + 1), limit) == all.take(limit),
        forall|i: int|
            0 <= i < all.len() ==> (after_position(
                #[trigger] all[i],
                all[limit - 1].created_at_ms,
                all[limit - 1].capture_id@,
            ) <==> i >= limit),
        all.take(limit) + page_entries(first_rows(all.skip(limit), limit + 1), limit) == all.take(
            limit + (if all.len() - limit < limit {
                all.len() - limit
            } else {
                limit
            }),
        ),
{
    let last = all[limit - 1];
    assert(first_rows(all, limit + 1).take(limit) == all.take(limit));
    assert forall|i: int| 0 <= i < all.len() implies (after_position(
        #[trigger] all[i],
        last.created_at_ms,
        last.capture_id@,
    ) <==> i >= limit) by {
        if i >= limit {
            assert(after_position(all[i], all[limit - 1].created_at_ms, all[limit - 1].capture_id@));
        } else if i == limit - 1 {
            crate::text::lemma_chars_lt_irreflexive(last.capture_id@);
        } else {
            assert(after_position(all[limit - 1], all[i].created_at_ms, all[i].capture_id@));
            if after_position(all[i], last.created_at_ms, last.capture_id@) {
                if all[i].created_at_ms == last.created_at_ms {
                    crate::text::lemma_chars_lt_transitive(
                        all[i].capture_id@,
                        last.capture_id@,
                        all[i].capture_id@,
                    );
                    crate::text::lemma_chars_lt_irreflexive(all[i].capture_id@);
                }
            }
        }
    }
    let rest = all.skip(limit);
    if rest.len() > limit {
        assert(first_rows(rest, limit + 1).take(limit) == rest.take(limit));
        assert(all.take(limit) + rest.take(limit) == all.take(limit + limit));
    } else {
        assert(all.take(limit) + rest == all.take(all.len() as int));
        assert(all.take(all.len() as int) == all);
    }
}

/// Where an uncertain seam starting at `start_sample` lies, in milliseconds.
pub fn seam_position_ms(start_sample: i64) -> (r: i64)
    requires
        -9_223_372_036_854_775 <= start_sample <= 9_223_372_036_854_775,
    ensures
        r == (if start_sample >= 0 {
            start_sample * 1000 / 16_000
        } else {
            -((-start_sample * 1000) / 16_000)
        }),
{
    start_sample * 1000 / 16_000
}

/// A retry is only queued for captures whose audio is usable.
pub fn retry_allowed(integrity_state: &str) -> (r: bool)
    ensures
        r == (integrity_state@ == "audio_valid"@ || integrity_state@ == "recovered_orphan"@),
{
    str_equal(integrity_state, "audio_valid") || str_equal(integrity_state, "recovered_orphan")
}

/// Whether the latest attempt is still queued or running, so a retry only
/// wakes the queue instead of inserting another attempt.
pub fn attempt_in_flight(latest_status: Option<&str>) -> (r: bool)
    ensures
        r == (match latest_status {
            Some(s) => s@ == "pending"@ || s@ == "running"@,
            None => false,
        }),
{
    match latest_status {
        Some(s) => str_equal(s, "pending") || str_equal(s, "running"),
        None => false,
    }
}

/// How long recordings are kept.
#[derive(Clone, Copy, Debug, PartialEq, Eq, Structural)]
pub enum RecordingRetentionPeriod {
    Never,
    PreserveLimit,
    Days3,
    Weeks2,
    Months3,
}

/// Reads a retention period name; an unknown name is refused with its text.
pub fn parse_retention_period(period: &str) -> (r: Result<RecordingRetentionPeriod, String>)
    ensures
        match r {
            Ok(RecordingRetentionPeriod::Never) => period@ == "never"@,
            Ok(RecordingRetentionPeriod::PreserveLimit) => period@ == "preserve_limit"@,
            Ok(RecordingRetentionPeriod::Days3) => period@ == "days3"@,
            Ok(RecordingRetentionPeriod::Weeks2) => period@ == "weeks2"@,
            Ok(RecordingRetentionPeriod::Months3) => period@ == "months3"@,
            Err(e) => period@ != "never"@ && period@ != "preserve_limit"@ && period@ != "days3"@
                && period@ != "weeks2"@ && period@ != "months3"@ && e@ == "Invalid retention period: "@
                + period@,
        },
{
    if str_equal(period, "never") {
        Ok(RecordingRetentionPeriod::Never)
    } else if str_equal(period, "preserve_limit") {
        Ok(RecordingRetentionPeriod::PreserveLimit)
    } else if str_equal(period, "days3") {
        Ok(RecordingRetentionPeriod::Days3)
    } else if str_equal(period, "weeks2") {
        Ok(RecordingRetentionPeriod::Weeks2)
    } else if str_equal(period, "months3") {
        Ok(RecordingRetentionPeriod::Months3)
    } else {
        let mut msg = chars_of("Invalid retention period: ");
        let p = chars_of(period);
        extend_chars(&mut msg, p.as_slice());
        Err(string_of(msg.as_slice()))
    }
}

// ---------------------------------------------------------------------
// Importing a local audio file
// ---------------------------------------------------------------------

/// `c` with an ASCII capital letter turned into its small letter.
pub open spec fn ascii_lower_char(c: char) -> char {
    if 'A' <= c && c <= 'Z' {
        ((c as u32) + 32) as char
    } else {
        c
    }
}

/// `s` with every ASCII capital letter turned into its small letter.
pub open spec fn ascii_lower(s: Seq<char>) -> Seq<char> {
    s.map_values(|c: char| ascii_lower_char(c))
}

/// `s` in ASCII lower case; other characters are kept.
pub fn ascii_lowercase(s: &str) -> (r: String)
    ensures
        r@ == ascii_lower(s@),
{
    let cs = chars_of(s);
    let mut out: Vec<char> = Vec::new();
    let mut i: usize = 0;
    while i < cs.len()
        invariant
            i <= cs@.len(),
            cs@ == s@,
            out@ == ascii_lower(cs@.take(i as int)),
        decreases cs@.len() - i,
    {
        let c = cs[i];
        let lower = if 'A' <= c && c <= 'Z' {
            ((c as u8) + 32) as char
        } else {
            c
        };
        out.push(lower);
        assert(cs@.take(i + 1) == cs@.take(i as int).push(c));
        i = i + 1;
    }
    assert(cs@.take(cs@.len() as int) == cs@);
    string_of(out.as_slice())
}

/// What an import of a local audio file is refused for before anything is
/// written: the source is no file or is empty, or its extension, read in
/// lower case, is neither `wav` nor `mp3`.
pub open spec fn import_source_check(is_file: bool, size_bytes: u64, extension: Seq<char>) -> Result<
    Seq<char>,
    Seq<char>,
> {
    if !is_file || size_bytes == 0 {
        Err("Choose a non-empty audio file"@)
    } else if ascii_lower(extension) != "wav"@ && ascii_lower(extension) != "mp3"@ {
        Err("Only WAV and MP3 files are supported"@)
    } else {
        Ok(ascii_lower(extension))
    }
}

/// Checks an audio file offered for import and gives back its extension in
/// lower case, the one the stored copy is named with.
pub fn check_import_source(is_file: bool, size_bytes: u64, extension: &str) -> (r: Result<
    String,
    String,
>)
    ensures
        match (r, import_source_check(is_file, size_bytes, extension@)) {
            (Ok(e), Ok(e2)) => e@ == e2,
            (Err(m), Err(m2)) => m@ == m2,
            _ => false,
        },
{
    if !is_file || size_bytes == 0 {
        return Err(String::from_str("Choose a non-empty audio file"));
    }
    let lower = ascii_lowercase(extension);
    if !str_equal(lower.as_str(), "wav") && !str_equal(lower.as_str(), "mp3") {
        return Err(String::from_str("Only WAV and MP3 files are supported"));
    }
    Ok(lower)
}

/// The name under which an imported file is stored:
/// `manual-<unique>.<extension>`.
pub fn manual_audio_file_name(unique: &str, extension: &str) -> (r: String)
    ensures
        r@ == "manual-"@ + unique@ + "."@ + extension@,
{
    let mut out = chars_of("manual-");
    let u = chars_of(unique);
    extend_chars(&mut out, u.as_slice());
    out.push('.');
    let e = chars_of(extension);
    extend_chars(&mut out, e.as_slice());
    proof {
        reveal_strlit("manual-");
        reveal_strlit(".");
    }
    string_of(out.as_slice())
}

/// The import reference that tells manual imports apart:
/// `manual:<unique>`.
pub fn manual_import_ref(unique: &str) -> (r: String)
    ensures
        r@ == "manual:"@ + unique@,
{
    let mut out = chars_of("manual:");
    let u = chars_of(unique);
    extend_chars(&mut out, u.as_slice());
    string_of(out.as_slice())
}

/// The length in milliseconds of `samples` samples at 16 kHz.
pub fn imported_duration_ms(samples: u64) -> (r: i64)
    requires
        samples <= u64::MAX / 1000,
    ensures
        r == samples * 1000 / 16_000,
{
    let ms = samples * 1000 / 16_000;
    assert(ms <= u64::MAX / 16_000);
    ms as i64
}

/// The integrity state a failed import leaves on its capture: none while
/// the copy stands and was either never decoded or decoded fully;
/// `audio_corrupt` when the copy stands but could not be decoded;
/// `audio_missing` when no copy was stored.
pub fn failed_import_integrity(target_is_file: bool, decode_started: bool, audio_decoded: bool) -> (r:
    Option<IntegrityState>)
    ensures
        r == (if !target_is_file {
            Some(IntegrityState::AudioMissing)
        } else if decode_started && !audio_decoded {
            Some(IntegrityState::AudioCorrupt)
        } else {
            None::<IntegrityState>
        }),
{
    if !target_is_file || (decode_started && !audio_decoded) {
        if target_is_file {
            Some(IntegrityState::AudioCorrupt)
        } else {
            Some(IntegrityState::AudioMissing)
        }
    } else {
        None
    }
}

} // verus!
