//! Bounded audio windows and deterministic joins for background
//! transcription: how consecutive chunk transcripts are stitched together,
//! which queued job runs next, and how big the next audio window may be.

use vstd::prelude::*;

use crate::commands::history::ascii_lower;
use crate::storage::repositories::transcriptions::{clone_opt, ChunkRecord, IncompleteJob};
use crate::text::{
    is_blank, char_is_alphanumeric, char_lower, char_to_lowercase, chars_of, extend_chars, is_alnum,
    join_words, join_words_from, split_words, split_ws, string_of, trim, trim_chars, words,
    is_white_space,
};

verus! {

pub const SAMPLE_RATE: u32 = 16_000;
/// 30 seconds of audio at [`SAMPLE_RATE`].
pub const INITIAL_WINDOW_SAMPLES: u64 = 480_000;
/// 2 seconds of audio at [`SAMPLE_RATE`].
pub const OVERLAP_SAMPLES: u64 = 32_000;
/// 5 seconds of audio: the smallest window that still leaves room for overlap.
pub const MIN_WINDOW_SAMPLES: u64 = 80_000;
/// Seam chains are at most this many words long.
pub const MAX_SEAM_WORDS: usize = 16;
/// Seam chains are at least this many words long.
pub const MIN_SEAM_WORDS: usize = 3;

// ---------------------------------------------------------------------
// Seam detection between two chunk transcripts
// ---------------------------------------------------------------------

/// The comparable form of a word: its alphanumeric characters, lowercased.
pub open spec fn comparable_spec(w: Seq<char>) -> Seq<char>
    decreases w.len(),
{
    if w.len() == 0 {
        seq![]
    } else {
        comparable_spec(w.drop_last()) + (if is_alnum(w.last()) {
            char_lower(w.last())
        } else {
            seq![]
        })
    }
}

/// The comparable form of every word.
pub open spec fn comparable_words(ws: Seq<Seq<char>>) -> Seq<Seq<char>> {
    ws.map_values(|w: Seq<char>| comparable_spec(w))
}

/// How many of the windows starting before `k` equal `chain`.
pub open spec fn window_count(xs: Seq<Seq<char>>, chain: Seq<Seq<char>>, k: int) -> nat
    decreases k,
{
    if k <= 0 {
        0
    } else {
        window_count(xs, chain, k - 1) + (if xs.subrange(k - 1, k - 1 + chain.len()) == chain {
            1nat
        } else {
            0nat
        })
    }
}

/// How many contiguous windows of `xs` equal `chain`.
pub open spec fn occurrences(xs: Seq<Seq<char>>, chain: Seq<Seq<char>>) -> nat {
    window_count(xs, chain, xs.len() - chain.len() + 1)
}

/// The last `n` comparable words of the left side form a safe seam: none is
/// empty, the right side starts with them, and they occur exactly once on
/// each side.
pub open spec fn seam_matches(ca: Seq<Seq<char>>, cb: Seq<Seq<char>>, n: int) -> bool {
    let chain = ca.subrange(ca.len() - n, ca.len() as int);
    &&& forall|k: int| 0 <= k < n ==> (#[trigger] chain[k]).len() > 0
    &&& cb.subrange(0, n) == chain
    &&& occurrences(ca, chain) == 1
    &&& occurrences(cb, chain) == 1
}

/// The longest safe seam of at most `n` (and at least three) words, or 0.
pub open spec fn seam_overlap(ca: Seq<Seq<char>>, cb: Seq<Seq<char>>, n: int) -> int
    decreases n,
{
    if n < MIN_SEAM_WORDS {
        0
    } else if seam_matches(ca, cb, n) {
        n
    } else {
        seam_overlap(ca, cb, n - 1)
    }
}

/// How long a seam between `a` and `b` may be.
pub open spec fn seam_limit(a: Seq<Seq<char>>, b: Seq<Seq<char>>) -> int {
    let m = if a.len() < b.len() {
        a.len() as int
    } else {
        b.len() as int
    };
    if m < MAX_SEAM_WORDS {
        m
    } else {
        MAX_SEAM_WORDS as int
    }
}

/// The joined text and whether the seam needs human inspection, when
/// `right` follows `previous` and `merged` is everything joined so far.
pub open spec fn join_result(merged: Seq<char>, previous: Seq<char>, right: Seq<char>) -> (
    Seq<char>,
    bool,
) {
    let a = words(previous);
    let b = words(right);
    let n = seam_overlap(comparable_words(a), comparable_words(b), seam_limit(a, b));
    if n >= MIN_SEAM_WORDS {
        (trim(trim(merged) + seq![' '] + join_words(b.skip(n))), false)
    } else {
        (trim(trim(merged) + seq![' '] + trim(right)), previous.len() > 0 && right.len() > 0)
    }
}

/// The comparable form of one word.
fn comparable(word: &[char]) -> (r: Vec<char>)
    ensures
        r@ == comparable_spec(word@),
{
    let mut r: Vec<char> = Vec::new();
    let mut i: usize = 0;
    while i < word.len()
        invariant
            i <= word@.len(),
            r@ == comparable_spec(word@.take(i as int)),
        decreases word@.len() - i,
    {
        let c = word[i];
        assert(word@.take(i as int + 1).drop_last() == word@.take(i as int));
        assert(word@.take(i as int + 1).last() == c);
        if char_is_alphanumeric(c) {
            let low = char_to_lowercase(c);
            extend_chars(&mut r, low.as_slice());
        } else {
            assert(r@ + Seq::<char>::empty() == r@);
        }
        i = i + 1;
    }
    assert(word@.take(word@.len() as int) == word@);
    r
}

/// The comparable form of every word.
fn comparable_all(ws: &Vec<Vec<char>>) -> (r: Vec<Vec<char>>)
    ensures
        r.deep_view() == comparable_words(ws.deep_view()),
{
    let mut r: Vec<Vec<char>> = Vec::new();
    let mut i: usize = 0;
    while i < ws.len()
        invariant
            i <= ws@.len(),
            r.deep_view() == comparable_words(ws.deep_view().take(i as int)),
        decreases ws@.len() - i,
    {
        let c = comparable(ws[i].as_slice());
        let ghost before = r.deep_view();
        assert(c.deep_view() =~= c@);
        assert(ws[i as int].deep_view() =~= ws[i as int]@);
        r.push(c);
        assert(r.deep_view() =~= before.push(c@));
        assert(comparable_words(ws.deep_view().take(i as int + 1)) =~= comparable_words(
            ws.deep_view().take(i as int),
        ).push(comparable_spec(ws.deep_view()[i as int])));
        i = i + 1;
    }
    assert(ws.deep_view().take(ws@.len() as int) =~= ws.deep_view());
    r
}

/// Whether two character vectors are equal.
fn chars_equal(x: &[char], y: &[char]) -> (r: bool)
    ensures
        r == (x@ == y@),
{
    if x.len() != y.len() {
        return false;
    }
    let mut i: usize = 0;
    while i < x.len()
        invariant
            i <= x@.len() == y@.len(),
            forall|k: int| 0 <= k < i ==> x@[k] == y@[k],
        decreases x@.len() - i,
    {
        if x[i] != y[i] {
            return false;
        }
        i = i + 1;
    }
    assert(x@ =~= y@);
    true
}

/// Whether `xs[i..i + n]` equals `ys[j..j + n]`.
fn windows_equal(xs: &Vec<Vec<char>>, i: usize, ys: &Vec<Vec<char>>, j: usize, n: usize) -> (r: bool)
    requires
        i + n <= xs@.len(),
        j + n <= ys@.len(),
    ensures
        r == (xs.deep_view().subrange(i as int, i + n) == ys.deep_view().subrange(j as int, j + n)),
{
    let ghost xsub = xs.deep_view().subrange(i as int, i + n);
    let ghost ysub = ys.deep_view().subrange(j as int, j + n);
    let mut k: usize = 0;
    while k < n
        invariant
            k <= n,
            i + n <= xs.len(),
            j + n <= ys.len(),
            xsub == xs.deep_view().subrange(i as int, i + n),
            ysub == ys.deep_view().subrange(j as int, j + n),
            forall|t: int| 0 <= t < k ==> #[trigger] xsub[t] == ysub[t],
        decreases n - k,
    {
        assert(xs[i + k].deep_view() =~= xs[i + k]@);
        assert(ys[j + k].deep_view() =~= ys[j + k]@);
        assert(xsub[k as int] == xs[i + k]@);
        assert(ysub[k as int] == ys[j + k]@);
        if !chars_equal(xs[i + k].as_slice(), ys[j + k].as_slice()) {
            return false;
        }
        k = k + 1;
    }
    assert(xsub =~= ysub);
    true
}

/// How many windows of `xs` equal `ys[s..s + n]`.
fn count_windows(xs: &Vec<Vec<char>>, ys: &Vec<Vec<char>>, s: usize, n: usize) -> (r: usize)
    requires
        0 < n <= xs@.len(),
        s + n <= ys@.len(),
    ensures
        r == occurrences(xs.deep_view(), ys.deep_view().subrange(s as int, s + n)),
{
    let ghost chain = ys.deep_view().subrange(s as int, s + n);
    let last = xs.len() - n;
    let mut count: usize = 0;
    let mut j: usize = 0;
    while j <= last
        invariant
            j <= last + 1,
            0 < n,
            last == xs.len() - n,
            s + n <= ys@.len(),
            chain == ys.deep_view().subrange(s as int, s + n),
            count == window_count(xs.deep_view(), chain, j as int),
            count <= j,
        decreases last + 1 - j,
    {
        if windows_equal(xs, j, ys, s, n) {
            count = count + 1;
        }
        j = j + 1;
    }
    count
}

/// Whether the last `n` comparable words of `ca` form a safe seam with `cb`.
fn seam_matches_exec(ca: &Vec<Vec<char>>, cb: &Vec<Vec<char>>, n: usize) -> (r: bool)
    requires
        0 < n <= ca@.len(),
        n <= cb@.len(),
    ensures
        r == seam_matches(ca.deep_view(), cb.deep_view(), n as int),
{
    let start = ca.len() - n;
    let ghost chain = ca.deep_view().subrange(start as int, ca@.len() as int);
    let mut k: usize = 0;
    while k < n
        invariant
            k <= n,
            start + n == ca.len(),
            chain == ca.deep_view().subrange(start as int, ca@.len() as int),
            forall|t: int| 0 <= t < k ==> (#[trigger] chain[t]).len() > 0,
        decreases n - k,
    {
        if ca[start + k].len() == 0 {
            assert(chain[k as int].len() == 0);
            return false;
        }
        k = k + 1;
    }
    if !windows_equal(cb, 0, ca, start, n) {
        return false;
    }
    let in_left = count_windows(ca, ca, start, n);
    let in_right = count_windows(cb, ca, start, n);
    in_left == 1 && in_right == 1
}

/// Joins two consecutive chunk transcripts. Returns the joined text and
/// whether the seam needs human inspection. No uncertain word is silently
/// removed: only a safe seam of three to sixteen words, found exactly once
/// on each side, is collapsed.
pub fn join_chunks(left: &str, right: &str) -> (r: (String, bool))
    ensures
        (r.0@, r.1) == join_result(left@, left@, right@),
{
    join_at_boundary(left, left, right)
}

/// Appends the transcript `right` to `merged`, looking for a seam between
/// `previous_chunk` (the last chunk already merged) and `right`.
pub fn join_at_boundary(merged: &str, previous_chunk: &str, right: &str) -> (r: (String, bool))
    ensures
        (r.0@, r.1) == join_result(merged@, previous_chunk@, right@),
{
    let m = chars_of(merged);
    let p = chars_of(previous_chunk);
    let q = chars_of(right);
    let a = split_words(p.as_slice());
    let b = split_words(q.as_slice());
    let ca = comparable_all(&a);
    let cb = comparable_all(&b);
    let ghost av = a.deep_view();
    let ghost bv = b.deep_view();
    let mut limit = if a.len() < b.len() {
        a.len()
    } else {
        b.len()
    };
    if limit > MAX_SEAM_WORDS {
        limit = MAX_SEAM_WORDS;
    }
    assert(limit == seam_limit(av, bv));
    let mut n = limit;
    while n >= MIN_SEAM_WORDS
        invariant
            n <= limit,
            limit <= a@.len(),
            limit <= b@.len(),
            ca.deep_view() == comparable_words(av),
            cb.deep_view() == comparable_words(bv),
            av == a.deep_view(),
            bv == b.deep_view(),
            m@ == merged@,
            limit == seam_limit(av, bv),
            av == words(previous_chunk@),
            bv == words(right@),
            seam_overlap(ca.deep_view(), cb.deep_view(), limit as int) == seam_overlap(
                ca.deep_view(),
                cb.deep_view(),
                n as int,
            ),
        decreases n,
    {
        if seam_matches_exec(&ca, &cb, n) {
            let mut out = trim_chars(m.as_slice());
            let ghost head = out@;
            out.push(' ');
            assert(out@ == head + seq![' ']);
            let tail = join_words_from(&b, n);
            extend_chars(&mut out, tail.as_slice());
            assert(out@ == trim(merged@) + seq![' '] + join_words(bv.skip(n as int)));
            let joined = trim_chars(out.as_slice());
            assert(seam_overlap(ca.deep_view(), cb.deep_view(), limit as int) == n);
            assert(joined@ == join_result(merged@, previous_chunk@, right@).0);
            return (string_of(joined.as_slice()), false);
        }
        n = n - 1;
    }
    assert(seam_overlap(ca.deep_view(), cb.deep_view(), n as int) == 0);
    let mut out = trim_chars(m.as_slice());
    let ghost head = out@;
    out.push(' ');
    assert(out@ == head + seq![' ']);
    let tail = trim_chars(q.as_slice());
    extend_chars(&mut out, tail.as_slice());
    assert(out@ == trim(merged@) + seq![' '] + trim(right@));
    let joined = trim_chars(out.as_slice());
    assert(joined@ == join_result(merged@, previous_chunk@, right@).0);
    (string_of(joined.as_slice()), p.len() > 0 && q.len() > 0)
}


// ---------------------------------------------------------------------
// Scheduling: which queued job runs next
// ---------------------------------------------------------------------

/// Short dictations (at most one minute) preempt long work at most this
/// many times in a row.
pub const MAX_SHORT_STREAK: u8 = 3;

/// Whether a job is a short dictation (known duration of at most a minute).
pub open spec fn is_short_job(job: IncompleteJob) -> bool {
    match job.audio_duration_ms {
        Some(ms) => ms <= 60_000,
        None => false,
    }
}

/// Index of the first short job at or after `i`, if any.
pub open spec fn first_short_from(jobs: Seq<IncompleteJob>, i: int) -> Option<int>
    decreases jobs.len() - i,
{
    if i >= jobs.len() || i < 0 {
        None
    } else if is_short_job(jobs[i]) {
        Some(i)
    } else {
        first_short_from(jobs, i + 1)
    }
}

/// Index of the last long job before `i`, if any.
pub open spec fn last_long_before(jobs: Seq<IncompleteJob>, i: int) -> Option<int>
    decreases i,
{
    if i <= 0 || i > jobs.len() {
        None
    } else if !is_short_job(jobs[i - 1]) {
        Some(i - 1)
    } else {
        last_long_before(jobs, i - 1)
    }
}

/// The index of the chosen job and the new short streak. Jobs come newest
/// first: the newest short job wins while the streak allows it, otherwise
/// the oldest long job runs and the streak resets.
pub open spec fn job_choice(jobs: Seq<IncompleteJob>, streak: u8) -> (int, u8) {
    let short = first_short_from(jobs, 0);
    let long = last_long_before(jobs, jobs.len() as int);
    if short is Some && long is Some && streak < MAX_SHORT_STREAK {
        (short->0, (streak + 1) as u8)
    } else if long is Some {
        (long->0, 0)
    } else {
        (short->0, 0)
    }
}

proof fn lemma_first_short_bounds(jobs: Seq<IncompleteJob>, i: int)
    requires
        0 <= i,
    ensures
        first_short_from(jobs, i) matches Some(k) ==> i <= k < jobs.len() && is_short_job(jobs[k]),
        first_short_from(jobs, i) is None ==> forall|k: int| i <= k < jobs.len() ==> !is_short_job(
            #[trigger] jobs[k],
        ),
    decreases jobs.len() - i,
{
    if i < jobs.len() && !is_short_job(jobs[i]) {
        lemma_first_short_bounds(jobs, i + 1);
    }
}

proof fn lemma_last_long_bounds(jobs: Seq<IncompleteJob>, i: int)
    requires
        i <= jobs.len(),
    ensures
        last_long_before(jobs, i) matches Some(k) ==> 0 <= k < i && !is_short_job(jobs[k]),
        last_long_before(jobs, i) is None ==> forall|k: int| 0 <= k < i ==> is_short_job(
            #[trigger] jobs[k],
        ),
    decreases i,
{
    if i > 0 && is_short_job(jobs[i - 1]) {
        lemma_last_long_bounds(jobs, i - 1);
    }
}

fn job_is_short(job: &IncompleteJob) -> (r: bool)
    ensures
        r == is_short_job(*job),
{
    match job.audio_duration_ms {
        Some(ms) => ms <= 60_000,
        None => false,
    }
}

fn first_short(jobs: &[IncompleteJob]) -> (r: Option<usize>)
    ensures
        r matches Some(k) ==> first_short_from(jobs@, 0) == Some(k as int),
        r is None ==> first_short_from(jobs@, 0) is None,
{
    let mut i: usize = 0;
    while i < jobs.len()
        invariant
            i <= jobs@.len(),
            first_short_from(jobs@, 0) == first_short_from(jobs@, i as int),
        decreases jobs@.len() - i,
    {
        if job_is_short(&jobs[i]) {
            return Some(i);
        }
        i = i + 1;
    }
    None
}

fn last_long(jobs: &[IncompleteJob]) -> (r: Option<usize>)
    ensures
        r matches Some(k) ==> last_long_before(jobs@, jobs@.len() as int) == Some(k as int),
        r is None ==> last_long_before(jobs@, jobs@.len() as int) is None,
{
    let mut j: usize = jobs.len();
    while j > 0
        invariant
            j <= jobs@.len(),
            last_long_before(jobs@, jobs@.len() as int) == last_long_before(jobs@, j as int),
        decreases j,
    {
        if !job_is_short(&jobs[j - 1]) {
            return Some(j - 1);
        }
        j = j - 1;
    }
    None
}

/// Picks the next job to work on and updates the short streak. Jobs are
/// ordered newest first, and the queue never calls this without jobs.
pub fn choose_job<'a>(jobs: &'a [IncompleteJob], short_streak: &mut u8) -> (r: &'a IncompleteJob)
    requires
        jobs@.len() > 0,
    ensures
        0 <= job_choice(jobs@, *old(short_streak)).0 < jobs@.len(),
        *r == jobs@[job_choice(jobs@, *old(short_streak)).0],
        *final(short_streak) == job_choice(jobs@, *old(short_streak)).1,
{
    proof {
        lemma_first_short_bounds(jobs@, 0);
        lemma_last_long_bounds(jobs@, jobs@.len() as int);
    }
    let short = first_short(jobs);
    let long = last_long(jobs);
    match (short, long) {
        (Some(s), Some(_)) if *short_streak < MAX_SHORT_STREAK => {
            *short_streak = *short_streak + 1;
            &jobs[s]
        },
        (_, Some(l)) => {
            *short_streak = 0;
            &jobs[l]
        },
        (Some(s), None) => {
            *short_streak = 0;
            &jobs[s]
        },
        (None, None) => {
            proof {
                assert(!is_short_job(jobs@[0]));
                assert(is_short_job(jobs@[0]));
            }
            &jobs[0]
        },
    }
}

/// A job is later in the newest-first list than every other long job
/// after it: the long job found before `i` has only short jobs between it
/// and `i`.
proof fn lemma_last_long_is_latest(jobs: Seq<IncompleteJob>, i: int)
    requires
        i <= jobs.len(),
    ensures
        last_long_before(jobs, i) matches Some(k) ==> (forall|j: int|
            k < j < i ==> is_short_job(#[trigger] jobs[j])),
    decreases i,
{
    if i > 0 && i <= jobs.len() && is_short_job(jobs[i - 1]) {
        lemma_last_long_is_latest(jobs, i - 1);
    }
}

/// The oldest long job runs: when the choice is a long job, every job
/// after it in the newest-first list, that is every older job, is short.
/// When the choice is a short job, no job before it is short: it is the
/// newest short job.
pub proof fn law_oldest_long_job_runs(jobs: Seq<IncompleteJob>, streak: u8)
    requires
        jobs.len() > 0,
    ensures
        0 <= job_choice(jobs, streak).0 < jobs.len(),
        !is_short_job(jobs[job_choice(jobs, streak).0]) ==> forall|j: int|
            job_choice(jobs, streak).0 < j < jobs.len() ==> is_short_job(#[trigger] jobs[j]),
        is_short_job(jobs[job_choice(jobs, streak).0]) ==> forall|j: int|
            0 <= j < job_choice(jobs, streak).0 ==> !is_short_job(#[trigger] jobs[j]),
{
    lemma_first_short_bounds(jobs, 0);
    lemma_last_long_bounds(jobs, jobs.len() as int);
    lemma_last_long_is_latest(jobs, jobs.len() as int);
    lemma_first_short_is_newest(jobs, 0);
}

proof fn lemma_first_short_is_newest(jobs: Seq<IncompleteJob>, i: int)
    requires
        0 <= i,
    ensures
        first_short_from(jobs, i) matches Some(k) ==> (forall|j: int|
            i <= j < k ==> !is_short_job(#[trigger] jobs[j])),
    decreases jobs.len() - i,
{
    if i < jobs.len() && !is_short_job(jobs[i]) {
        lemma_first_short_is_newest(jobs, i + 1);
    }
}

/// Short dictations never starve long work: while both kinds are queued,
/// at most three consecutive choices pick a short job, so among any four
/// consecutive choices at least one runs the long job.
pub proof fn law_long_work_is_not_starved(jobs: Seq<IncompleteJob>, streak: u8)
    requires
        exists|k: int| 0 <= k < jobs.len() && is_short_job(#[trigger] jobs[k]),
        exists|k: int| 0 <= k < jobs.len() && !is_short_job(#[trigger] jobs[k]),
    ensures
        ({
            let c1 = job_choice(jobs, streak);
            let c2 = job_choice(jobs, c1.1);
            let c3 = job_choice(jobs, c2.1);
            let c4 = job_choice(jobs, c3.1);
            !is_short_job(jobs[c1.0]) || !is_short_job(jobs[c2.0]) || !is_short_job(jobs[c3.0])
                || !is_short_job(jobs[c4.0])
        }),
{
    lemma_first_short_bounds(jobs, 0);
    lemma_last_long_bounds(jobs, jobs.len() as int);
}

/// A newly queued short dictation preempts long work as soon as the
/// streak allows it.
pub proof fn law_short_dictation_preempts(jobs: Seq<IncompleteJob>, streak: u8)
    requires
        streak < MAX_SHORT_STREAK,
        exists|k: int| 0 <= k < jobs.len() && is_short_job(#[trigger] jobs[k]),
    ensures
        is_short_job(jobs[job_choice(jobs, streak).0]),
{
    lemma_first_short_bounds(jobs, 0);
    lemma_last_long_bounds(jobs, jobs.len() as int);
}

// ---------------------------------------------------------------------
// Window sizing
// ---------------------------------------------------------------------

/// The window to try next: the last successful chunk's window (never below
/// five seconds), or the initial window; never above the initial window.
pub open spec fn next_window_spec(previous: Option<ChunkRecord>) -> u64 {
    match previous {
        Some(chunk) => {
            let w = if chunk.window_samples < MIN_WINDOW_SAMPLES {
                MIN_WINDOW_SAMPLES as int
            } else {
                chunk.window_samples as int
            };
            if w < INITIAL_WINDOW_SAMPLES {
                w as u64
            } else {
                INITIAL_WINDOW_SAMPLES
            }
        },
        None => INITIAL_WINDOW_SAMPLES,
    }
}

/// A smaller window that succeeded before is reused after a restart.
pub fn next_window(previous: Option<&ChunkRecord>) -> (r: u64)
    ensures
        r == next_window_spec(
            match previous {
                Some(c) => Some(*c),
                None => None,
            },
        ),
        MIN_WINDOW_SAMPLES <= r <= INITIAL_WINDOW_SAMPLES,
{
    match previous {
        Some(chunk) => {
            let w: i64 = if chunk.window_samples < MIN_WINDOW_SAMPLES as i64 {
                MIN_WINDOW_SAMPLES as i64
            } else {
                chunk.window_samples
            };
            if w < INITIAL_WINDOW_SAMPLES as i64 {
                w as u64
            } else {
                INITIAL_WINDOW_SAMPLES
            }
        },
        None => INITIAL_WINDOW_SAMPLES,
    }
}

/// Whether `[start, end)` is a readable window of a recording of `total`
/// samples: non-empty, inside the recording, seekable, and at most the
/// initial window long (so reading never allocates more than that).
pub open spec fn window_is_readable(start: u64, end: u64, total: u64) -> bool {
    !(start >= end || end > total || start > u32::MAX || end - start > INITIAL_WINDOW_SAMPLES)
}

/// Checks a requested window before any audio is read.
pub fn window_readable(start: u64, end: u64, total: u64) -> (r: bool)
    ensures
        r == window_is_readable(start, end, total),
{
    !(start >= end || end > total || start > u32::MAX as u64 || end - start
        > INITIAL_WINDOW_SAMPLES)
}

/// Where to look for a pause before the planned boundary `end`, or None
/// when the boundary is kept as planned (the recording ends there, or the
/// window is shorter than seven seconds).
pub open spec fn silence_probe_spec(start: u64, end: u64, total: u64) -> Option<u64> {
    if end == total || end - start < 7 * SAMPLE_RATE {
        None
    } else {
        let a = end - 2 * SAMPLE_RATE;
        let b = start + 5 * SAMPLE_RATE;
        Some((if a < b {
            b
        } else {
            a
        }) as u64)
    }
}

/// The start of the range searched for a quiet frame before `end`.
pub fn silence_probe(start: u64, end: u64, total: u64) -> (r: Option<u64>)
    requires
        start <= end <= total,
    ensures
        r == silence_probe_spec(start, end, total),
        r matches Some(p) ==> start < p < end,
{
    if end == total || end - start < 7 * SAMPLE_RATE as u64 {
        None
    } else {
        let a = end - 2 * SAMPLE_RATE as u64;
        let b = start + 5 * SAMPLE_RATE as u64;
        Some(
            if a < b {
                b
            } else {
                a
            },
        )
    }
}

/// Samples per 20 ms frame.
pub const FRAME_SAMPLES: u64 = 320;

/// The cut chosen after probing from `probe_start`: just after the last
/// quiet frame, or the planned boundary when no frame was quiet.
pub fn silence_cut_at(probe_start: u64, end: u64, quiet_frame: Option<usize>) -> (r: u64)
    requires
        probe_start < end,
        quiet_frame matches Some(i) ==> (i + 1) * FRAME_SAMPLES <= end - probe_start,
    ensures
        r == (match quiet_frame {
            Some(i) => (probe_start + (i + 1) * FRAME_SAMPLES) as u64,
            None => end,
        }),
        probe_start < r <= end,
{
    match quiet_frame {
        Some(i) => probe_start + (i as u64 + 1) * FRAME_SAMPLES,
        None => end,
    }
}

/// The overlap read on each side of a window: wider after an uncertain seam.
pub fn chunk_overlap(previous: Option<&ChunkRecord>) -> (r: u64)
    ensures
        r == (match previous {
            Some(c) => if c.seam_uncertain {
                5 * SAMPLE_RATE
            } else {
                OVERLAP_SAMPLES as int
            },
            None => OVERLAP_SAMPLES as int,
        }),
{
    match previous {
        Some(c) => if c.seam_uncertain {
            5 * SAMPLE_RATE as u64
        } else {
            OVERLAP_SAMPLES
        },
        None => OVERLAP_SAMPLES,
    }
}

/// The window that fits the model: at most `window`, and small enough that
/// the window plus both overlaps fits the model's input limit (itself at
/// most the initial window). Err when that leaves less than five seconds.
pub open spec fn fitted_window_spec(window: u64, max_audio_samples: Option<u64>, overlap: u64) -> Option<u64> {
    let limit = match max_audio_samples {
        Some(m) => if m < INITIAL_WINDOW_SAMPLES {
            m
        } else {
            INITIAL_WINDOW_SAMPLES
        },
        None => INITIAL_WINDOW_SAMPLES,
    };
    let room = if limit >= 2 * overlap {
        limit - 2 * overlap
    } else {
        0
    };
    let w = if window < room {
        window
    } else {
        room as u64
    };
    if w < MIN_WINDOW_SAMPLES {
        None
    } else {
        Some(w)
    }
}

/// Fits a window to the model input limit; None when too small for a safe overlap.
pub fn fitted_window(window: u64, max_audio_samples: Option<u64>, overlap: u64) -> (r: Option<u64>)
    requires
        2 * overlap <= u64::MAX,
    ensures
        r == fitted_window_spec(window, max_audio_samples, overlap),
        r matches Some(w) ==> MIN_WINDOW_SAMPLES <= w <= window && w + 2 * overlap
            <= INITIAL_WINDOW_SAMPLES,
{
    let limit = match max_audio_samples {
        Some(m) => if m < INITIAL_WINDOW_SAMPLES {
            m
        } else {
            INITIAL_WINDOW_SAMPLES
        },
        None => INITIAL_WINDOW_SAMPLES,
    };
    let room = if limit >= 2 * overlap {
        limit - 2 * overlap
    } else {
        0
    };
    let w = if window < room {
        window
    } else {
        room
    };
    if w < MIN_WINDOW_SAMPLES {
        None
    } else {
        Some(w)
    }
}

/// The window retried after a failed one: half as big, never below five seconds.
pub fn retry_window(window: u64) -> (r: u64)
    ensures
        r == (if window / 2 < MIN_WINDOW_SAMPLES {
            MIN_WINDOW_SAMPLES
        } else {
            window / 2
        }),
{
    if window / 2 < MIN_WINDOW_SAMPLES {
        MIN_WINDOW_SAMPLES
    } else {
        window / 2
    }
}

/// The samples actually read for a window `[start, end)`: the overlap on
/// both sides, clipped to the recording.
pub fn read_range(start: u64, end: u64, overlap: u64, total: u64) -> (r: (u64, u64))
    requires
        end + overlap <= u64::MAX,
    ensures
        r.0 == (if start >= overlap {
            start - overlap
        } else {
            0
        }),
        r.1 == (if end + overlap < total {
            end + overlap
        } else {
            total as int
        }),
{
    let read_start = if start >= overlap {
        start - overlap
    } else {
        0
    };
    let read_end = if end + overlap < total {
        end + overlap
    } else {
        total
    };
    (read_start, read_end)
}

/// The planned end of a window starting at `start`.
pub fn planned_end(start: u64, window: u64, total: u64) -> (r: u64)
    requires
        start + window <= u64::MAX,
    ensures
        r == (if start + window < total {
            start + window
        } else {
            total as int
        }),
{
    if start + window < total {
        start + window
    } else {
        total
    }
}

/// How long the parent waits for the worker to transcribe `[start, end)`:
/// ten seconds per started second of audio, between three and fifteen minutes.
pub fn worker_timeout_secs(start: u64, end: u64) -> (r: u64)
    requires
        start <= end,
    ensures
        r == ({
            let secs = (end - start) / (SAMPLE_RATE as int) + (if (end - start) % (
            SAMPLE_RATE as int) == 0 {
                0int
            } else {
                1int
            });
            if secs * 10 < 180 {
                180
            } else if secs * 10 > 900 {
                900
            } else {
                secs * 10
            }
        }),
        180 <= r <= 900,
{
    let len = end - start;
    let secs = len / SAMPLE_RATE as u64 + if len % SAMPLE_RATE as u64 == 0 {
        0
    } else {
        1
    };
    let t = secs * 10;
    if t < 180 {
        180
    } else if t > 900 {
        900
    } else {
        t
    }
}


// ---------------------------------------------------------------------
// One queue step of a background job: where the next chunk starts, how a
// failed window is retried, and the chunk row it leaves
// ---------------------------------------------------------------------

/// What the queue does next for a job, given its stored chunks.
#[derive(Clone, Copy, Debug, PartialEq, Eq, Structural)]
pub enum ChunkStep {
    /// The chunks reach the end of the recording: the job is finished.
    Finish,
    /// Transcribe the next chunk, starting where the last one ended.
    Transcribe { start: u64, chunk_index: i64 },
}

/// Where the next chunk starts: at the end of the last stored chunk, or at
/// the beginning when none is stored.
pub open spec fn resume_point(cs: Seq<ChunkRecord>) -> int {
    if cs.len() == 0 {
        0
    } else {
        (cs.last().end_sample as u64) as int
    }
}

/// The next step for a job whose recording holds `total` samples.
pub open spec fn chunk_step_of(cs: Seq<ChunkRecord>, total: u64) -> ChunkStep {
    if resume_point(cs) >= total {
        ChunkStep::Finish
    } else {
        ChunkStep::Transcribe { start: resume_point(cs) as u64, chunk_index: cs.len() as i64 }
    }
}

/// Decides the next step of a job from its stored chunks.
pub fn plan_chunk(chunks: &Vec<ChunkRecord>, total: u64) -> (r: ChunkStep)
    requires
        chunks@.len() < i64::MAX,
    ensures
        r == chunk_step_of(chunks@, total),
{
    let start: u64 = if chunks.len() == 0 {
        0
    } else {
        chunks[chunks.len() - 1].end_sample as u64
    };
    if start >= total {
        ChunkStep::Finish
    } else {
        ChunkStep::Transcribe { start, chunk_index: chunks.len() as i64 }
    }
}

/// After a failed window: two more tries are allowed, each with a smaller
/// window (see [`retry_window`]); the third failure ends the step.
pub fn retry_after_failure(tries_so_far: u8, window: u64) -> (r: Option<(u8, u64)>)
    ensures
        tries_so_far < 2 ==> r == Some((
            (tries_so_far + 1) as u8,
            (if window / 2 < MIN_WINDOW_SAMPLES {
                MIN_WINDOW_SAMPLES
            } else {
                window / 2
            }) as u64,
        )),
        tries_so_far >= 2 ==> r is None,
{
    if tries_so_far < 2 {
        Some((tries_so_far + 1, retry_window(window)))
    } else {
        None
    }
}

/// The row a transcribed chunk `[start, end)` is stored as, and whether it
/// finishes the job: it does when it reaches the end of the recording.
pub fn stored_chunk(
    chunk_index: i64,
    start: u64,
    end: u64,
    window: u64,
    total: u64,
    payload_json: String,
    seam: ChunkSeam,
) -> (r: (ChunkRecord, bool))
    requires
        end <= i64::MAX,
        start <= end,
        window <= i64::MAX,
    ensures
        r.0.chunk_index == chunk_index,
        r.0.start_sample == start,
        r.0.end_sample == end,
        r.0.window_samples == window,
        r.0.payload_json == payload_json,
        r.0.seam_uncertain == seam.uncertain,
        r.0.seam_left == seam.left,
        r.0.seam_right == seam.right,
        r.1 == (end == total),
{
    (
        ChunkRecord {
            chunk_index,
            start_sample: start as i64,
            end_sample: end as i64,
            window_samples: window as i64,
            payload_json,
            seam_uncertain: seam.uncertain,
            seam_left: seam.left,
            seam_right: seam.right,
        },
        end == total,
    )
}

/// Stored chunks tile the recording from its start: each is numbered by its
/// position, is not empty, and starts where the one before it ended.
pub open spec fn tiled(cs: Seq<ChunkRecord>) -> bool {
    &&& forall|i: int|
        0 <= i < cs.len() ==> (#[trigger] cs[i]).chunk_index == i && 0 <= cs[i].start_sample
            < cs[i].end_sample
    &&& cs.len() > 0 ==> cs[0].start_sample == 0
    &&& forall|i: int| #![trigger cs[i]] 0 < i < cs.len() ==> cs[i].start_sample == cs[i - 1].end_sample
}

/// Chunks tile the recording: a chunk stored where the plan says, ending
/// after its start and no later than the recording, keeps the chunks
/// tiled; and when the plan says the job is finished, the chunks reach
/// the end of the recording.
pub proof fn law_chunks_tile_the_recording(cs: Seq<ChunkRecord>, total: u64, next: ChunkRecord)
    requires
        tiled(cs),
        cs.len() < i64::MAX,
    ensures
        chunk_step_of(cs, total) == ChunkStep::Finish ==> (total == 0 || (cs.len() > 0
            && cs.last().end_sample >= total)),
        (chunk_step_of(cs, total) matches ChunkStep::Transcribe { start, chunk_index } && next.chunk_index
            == chunk_index && next.start_sample == start && start < next.end_sample <= total)
            ==> tiled(cs.push(next)),
{
    if cs.len() > 0 {
        assert(cs[cs.len() - 1].end_sample > 0);
        assert((cs.last().end_sample as u64) as int == cs.last().end_sample);
    }
    if let ChunkStep::Transcribe { start, chunk_index } = chunk_step_of(cs, total) {
        if next.chunk_index == chunk_index && next.start_sample == start && start < next.end_sample
            <= total {
            let t = cs.push(next);
            assert forall|i: int| 0 <= i < t.len() implies (#[trigger] t[i]).chunk_index == i && 0
                <= t[i].start_sample < t[i].end_sample by {
                if i < cs.len() {
                    assert(t[i] == cs[i]);
                }
            }
            assert forall|i: int| #![trigger t[i]] 0 < i < t.len() implies t[i].start_sample == t[i
                - 1].end_sample by {
                if i < cs.len() {
                    assert(t[i] == cs[i]);
                    assert(t[i - 1] == cs[i - 1]);
                } else {
                    assert(t[i - 1] == cs[cs.len() - 1]);
                }
            }
        }
    }
}

/// The planned end of a window of `w` samples from `start`.
pub open spec fn planned_end_of(start: u64, w: u64, total: u64) -> int {
    if start + w < total {
        start + w
    } else {
        total as int
    }
}

/// One whole chunk step keeps the tiling and the window bounds: the chunk
/// a step stores, starting where the plan says, with a window the model
/// fit gave (between five and thirty seconds), ending at the planned end
/// or at a quiet frame after the silence probe start, is numbered next,
/// starts where the last chunk ended, ends after its start and no later
/// than the recording, spans at most its window, and leaves the chunks
/// tiled.
pub proof fn law_chunk_step(
    cs: Seq<ChunkRecord>,
    total: u64,
    w: u64,
    end: u64,
    row: ChunkRecord,
)
    requires
        tiled(cs),
        cs.len() < i64::MAX,
        total <= u32::MAX,
        chunk_step_of(cs, total) is Transcribe,
        MIN_WINDOW_SAMPLES <= w <= INITIAL_WINDOW_SAMPLES,
        ({
            let start = chunk_step_of(cs, total)->start;
            let planned = planned_end_of(start, w, total) as u64;
            end == planned || (silence_probe_spec(start, planned, total) matches Some(p) && p < end
                <= planned)
        }),
        row.chunk_index == chunk_step_of(cs, total)->chunk_index,
        row.start_sample == chunk_step_of(cs, total)->start,
        row.end_sample == end,
        row.window_samples == w,
    ensures
        row.chunk_index == cs.len(),
        row.start_sample == resume_point(cs),
        row.start_sample < row.end_sample <= total,
        row.end_sample - row.start_sample <= row.window_samples,
        MIN_WINDOW_SAMPLES <= row.window_samples <= INITIAL_WINDOW_SAMPLES,
        tiled(cs.push(row)),
{
    let start = chunk_step_of(cs, total)->start;
    let planned = planned_end_of(start, w, total) as u64;
    assert(start < total);
    assert(start < planned <= total);
    if end != planned {
        let p = silence_probe_spec(start, planned, total)->0;
        assert(start < p);
    }
    law_chunks_tile_the_recording(cs, total, row);
}

/// A finished job's merged raw text, and then its normalized text, must
/// hold more than whitespace; otherwise the job fails with this error.
pub fn check_recognized_speech(text: &str) -> (r: Result<(), String>)
    ensures
        match r {
            Ok(()) => !is_blank(text@),
            Err(e) => is_blank(text@) && e@ == "Audio contains no recognized speech"@,
        },
{
    let cs = chars_of(text);
    if crate::text::blank_chars(cs.as_slice()) {
        Err(String::from_str("Audio contains no recognized speech"))
    } else {
        Ok(())
    }
}

// ---------------------------------------------------------------------
// Abandoned work files
// ---------------------------------------------------------------------

/// Whether `c` is a hexadecimal digit, in either case.
pub open spec fn is_hex_char(c: char) -> bool {
    ('0' <= c && c <= '9') || ('a' <= c && c <= 'f') || ('A' <= c && c <= 'F')
}

/// The hyphenated form of a UUID: 36 characters, hyphens at positions 8,
/// 13, 18 and 23, hexadecimal digits everywhere else.
pub open spec fn hyphenated_uuid(s: Seq<char>) -> bool {
    &&& s.len() == 36
    &&& forall|i: int|
        0 <= i < 36 ==> if i == 8 || i == 13 || i == 18 || i == 23 {
            s[i] == '-'
        } else {
            is_hex_char(#[trigger] s[i])
        }
}

/// Whether `uuid::Uuid::parse_str` accepts a text: 32 hexadecimal digits,
/// the hyphenated form, the hyphenated form in braces, or the hyphenated
/// form after a `urn:uuid:` prefix in any ASCII case.
pub open spec fn parses_as_uuid(s: Seq<char>) -> bool {
    ||| s.len() == 32 && forall|i: int| 0 <= i < 32 ==> is_hex_char(#[trigger] s[i])
    ||| hyphenated_uuid(s)
    ||| s.len() == 38 && s[0] == '{' && s[37] == '}' && hyphenated_uuid(s.subrange(1, 37))
    ||| s.len() == 45 && ascii_lower(s.take(9)) == "urn:uuid:"@ && hyphenated_uuid(s.skip(9))
}

/// `uuid::Uuid::parse_str`, asked only whether it accepts `s`; it never
/// panics.
#[verifier::external_body]
fn uuid_parses(s: &str) -> (r: bool)
    ensures
        r == parses_as_uuid(s@),
{
    uuid::Uuid::parse_str(s).is_ok()
}

/// The stem of a work file name: the name without `.import.part`, else
/// without `.part`; None for any other name.
pub open spec fn work_file_stem(name: Seq<char>) -> Option<Seq<char>> {
    if name.len() >= 12 && name.skip(name.len() - 12) == ".import.part"@ {
        Some(name.take(name.len() - 12))
    } else if name.len() >= 5 && name.skip(name.len() - 5) == ".part"@ {
        Some(name.take(name.len() - 5))
    } else {
        None
    }
}

/// `s` without the suffix `suffix`, when it ends with it.
fn strip_suffix_chars(s: &[char], suffix: &[char]) -> (r: Option<Vec<char>>)
    ensures
        s@.len() >= suffix@.len() && s@.skip(s@.len() - suffix@.len()) == suffix@ ==> (r matches Some(
            p,
        ) && p@ == s@.take(s@.len() - suffix@.len())),
        !(s@.len() >= suffix@.len() && s@.skip(s@.len() - suffix@.len()) == suffix@) ==> r is None,
{
    if s.len() < suffix.len() {
        return None;
    }
    let base = s.len() - suffix.len();
    let mut i: usize = 0;
    while i < suffix.len()
        invariant
            base + suffix@.len() == s@.len(),
            base + suffix.len() == s.len(),
            i <= suffix@.len(),
            forall|j: int| 0 <= j < i ==> s@[base + j] == suffix@[j],
        decreases suffix@.len() - i,
    {
        if s[base + i] != suffix[i] {
            assert(s@.skip(base as int)[i as int] != suffix@[i as int]);
            return None;
        }
        i = i + 1;
    }
    assert(s@.skip(base as int) =~= suffix@);
    let mut p: Vec<char> = Vec::new();
    let mut k: usize = 0;
    while k < base
        invariant
            base <= s@.len(),
            k <= base,
            p@ == s@.take(k as int),
        decreases base - k,
    {
        p.push(s[k]);
        assert(s@.take(k + 1) == s@.take(k as int).push(s@[k as int]));
        k = k + 1;
    }
    Some(p)
}

/// Whether a file in the work directory is a leftover of an interrupted
/// job: a `<uuid>.part` or `<uuid>.import.part` staging file. Startup
/// removes these; any other file stays.
pub fn is_abandoned_work_file(name: &str) -> (r: bool)
    ensures
        r == (match work_file_stem(name@) {
            Some(stem) => parses_as_uuid(stem),
            None => false,
        }),
{
    let n = chars_of(name);
    let long = chars_of(".import.part");
    let short = chars_of(".part");
    proof {
        reveal_strlit(".import.part");
        reveal_strlit(".part");
    }
    let stem = match strip_suffix_chars(n.as_slice(), long.as_slice()) {
        Some(p) => Some(p),
        None => strip_suffix_chars(n.as_slice(), short.as_slice()),
    };
    match stem {
        Some(p) => {
            let text = string_of(p.as_slice());
            uuid_parses(text.as_str())
        },
        None => false,
    }
}

// ---------------------------------------------------------------------
// The worker process's side of a request
// ---------------------------------------------------------------------

/// What the worker writes back for one request line.
pub struct WorkerReply<T> {
    pub output: Option<T>,
    pub error: Option<String>,
    pub max_audio_samples: Option<u64>,
}

/// The model a transcribe or normalize request runs on: the one the last
/// successful load selected. Before any load succeeded the request is
/// refused.
pub fn worker_model(selected: &Option<String>) -> (r: Result<String, String>)
    ensures
        match selected {
            Some(m) => r matches Ok(x) && x@ == m@,
            None => r matches Err(e) && e@ == "Worker model not loaded"@,
        },
{
    match selected {
        Some(m) => Ok(m.clone()),
        None => Err(String::from_str("Worker model not loaded")),
    }
}

/// The model selected after a load request: the requested one when it
/// loaded, the earlier selection otherwise.
pub fn selected_after_load(selected: Option<String>, model_id: String, loaded: bool) -> (r: Option<
    String,
>)
    ensures
        r == (if loaded {
            Some(model_id)
        } else {
            selected
        }),
{
    if loaded {
        Some(model_id)
    } else {
        selected
    }
}

/// The reply to a load request: the load's error, if any, and the most
/// samples the engine now accepts.
pub fn load_reply<T>(load_error: Option<String>, max_audio_samples: Option<u64>) -> (r: WorkerReply<T>)
    ensures
        r.output is None,
        r.error == load_error,
        r.max_audio_samples == max_audio_samples,
{
    WorkerReply { output: None, error: load_error, max_audio_samples }
}

/// The reply to a transcribe or normalize request: its output, or its error.
pub fn work_reply<T>(result: Result<T, String>) -> (r: WorkerReply<T>)
    ensures
        r.max_audio_samples is None,
        match result {
            Ok(o) => r.output == Some(o) && r.error is None,
            Err(e) => r.output is None && r.error == Some(e),
        },
{
    match result {
        Ok(output) => WorkerReply { output: Some(output), error: None, max_audio_samples: None },
        Err(error) => WorkerReply { output: None, error: Some(error), max_audio_samples: None },
    }
}

/// The reply to a line that is no request: `Invalid worker request: `
/// followed by why it could not be read.
pub fn invalid_request_reply<T>(reason: &str) -> (r: WorkerReply<T>)
    ensures
        r.output is None,
        r.max_audio_samples is None,
        r.error matches Some(e) && e@ == "Invalid worker request: "@ + reason@,
{
    let mut msg = chars_of("Invalid worker request: ");
    let why = chars_of(reason);
    extend_chars(&mut msg, why.as_slice());
    WorkerReply { output: None, error: Some(string_of(msg.as_slice())), max_audio_samples: None }
}


/// Every window the queue sends to the worker is one that reading accepts:
/// a fitted window plus its overlaps never exceeds the initial window, so
/// no oversized allocation is ever requested.
pub proof fn law_queue_reads_are_bounded(
    start: u64,
    window: u64,
    max_audio_samples: Option<u64>,
    overlap: u64,
    total: u64,
    w: u64,
)
    requires
        start < total <= u32::MAX,
        overlap <= 5 * SAMPLE_RATE,
        fitted_window_spec(window, max_audio_samples, overlap) == Some(w),
    ensures
        ({
            let end = if start + w < total {
                start + w
            } else {
                total as int
            };
            let read_start = if start >= overlap {
                start - overlap
            } else {
                0
            };
            let read_end = if end + overlap < total {
                end + overlap
            } else {
                total as int
            };
            window_is_readable(read_start as u64, read_end as u64, total)
        }),
{
}

// ---------------------------------------------------------------------
// Seams and merging of chunk transcripts
// ---------------------------------------------------------------------

/// How many characters on each side of an uncertain seam are kept for review.
pub const SEAM_EXCERPT_CHARS: usize = 100;

/// The last `n` characters of `s` (all of `s` when shorter).
pub open spec fn last_chars(s: Seq<char>, n: int) -> Seq<char> {
    if s.len() <= n {
        s
    } else {
        s.skip(s.len() - n)
    }
}

/// The first `n` characters of `s` (all of `s` when shorter).
pub open spec fn first_chars(s: Seq<char>, n: int) -> Seq<char> {
    if s.len() <= n {
        s
    } else {
        s.take(n)
    }
}

/// What a new chunk records about its seam with the previous chunk.
pub struct ChunkSeam {
    /// The join could not find a safe seam.
    pub uncertain: bool,
    /// The end of the previous chunk's text, kept when uncertain.
    pub left: Option<String>,
    /// The start of this chunk's text, kept when uncertain.
    pub right: Option<String>,
}

/// The seam between the previous chunk's raw text (if any) and `raw`.
pub fn chunk_seam(previous_raw: Option<&str>, raw: &str) -> (r: ChunkSeam)
    ensures
        r.uncertain == (match previous_raw {
            Some(p) => join_result(p@, p@, raw@).1,
            None => false,
        }),
        r.uncertain ==> (r.left matches Some(l) && l@ == last_chars(
            previous_raw->0@,
            SEAM_EXCERPT_CHARS as int,
        )),
        r.uncertain ==> (r.right matches Some(x) && x@ == first_chars(
            raw@,
            SEAM_EXCERPT_CHARS as int,
        )),
        !r.uncertain ==> r.left is None && r.right is None,
{
    match previous_raw {
        None => ChunkSeam { uncertain: false, left: None, right: None },
        Some(p) => {
            let (_, uncertain) = join_chunks(p, raw);
            if !uncertain {
                return ChunkSeam { uncertain: false, left: None, right: None };
            }
            let pc = chars_of(p);
            let rc = chars_of(raw);
            let from = if pc.len() <= SEAM_EXCERPT_CHARS {
                0
            } else {
                pc.len() - SEAM_EXCERPT_CHARS
            };
            let to = if rc.len() <= SEAM_EXCERPT_CHARS {
                rc.len()
            } else {
                SEAM_EXCERPT_CHARS
            };
            let mut left: Vec<char> = Vec::new();
            let mut i: usize = from;
            while i < pc.len()
                invariant
                    from <= i <= pc@.len(),
                    left@ == pc@.subrange(from as int, i as int),
                decreases pc@.len() - i,
            {
                left.push(pc[i]);
                assert(pc@.subrange(from as int, i + 1) == pc@.subrange(from as int, i as int).push(
                    pc@[i as int],
                ));
                i = i + 1;
            }
            let mut right: Vec<char> = Vec::new();
            let mut j: usize = 0;
            while j < to
                invariant
                    to <= rc@.len(),
                    j <= to,
                    right@ == rc@.take(j as int),
                decreases to - j,
            {
                right.push(rc[j]);
                assert(rc@.take(j + 1) == rc@.take(j as int).push(rc@[j as int]));
                j = j + 1;
            }
            assert(pc@.subrange(from as int, pc@.len() as int) == last_chars(
                p@,
                SEAM_EXCERPT_CHARS as int,
            ));
            assert(rc@.take(to as int) == first_chars(raw@, SEAM_EXCERPT_CHARS as int));
            ChunkSeam {
                uncertain: true,
                left: Some(string_of(left.as_slice())),
                right: Some(string_of(right.as_slice())),
            }
        },
    }
}

/// One finished chunk's engine output.
pub struct ChunkTranscript {
    pub engine_raw: String,
    pub language: Option<String>,
}

/// The text of chunks `raws` joined in order, each seam looked for between
/// consecutive chunks.
pub open spec fn merged_text(raws: Seq<Seq<char>>) -> Seq<char>
    decreases raws.len(),
{
    if raws.len() == 0 {
        seq![]
    } else {
        let previous = if raws.len() == 1 {
            seq![]
        } else {
            raws[raws.len() - 2]
        };
        join_result(merged_text(raws.drop_last()), previous, raws.last()).0
    }
}

/// The raw texts of the chunks.
pub open spec fn chunk_raws(chunks: Seq<ChunkTranscript>) -> Seq<Seq<char>> {
    chunks.map_values(|c: ChunkTranscript| c.engine_raw@)
}

/// The first language any chunk reports.
pub open spec fn first_language(chunks: Seq<ChunkTranscript>) -> Option<String>
    decreases chunks.len(),
{
    if chunks.len() == 0 {
        None
    } else if chunks[0].language is Some {
        chunks[0].language
    } else {
        first_language(chunks.drop_first())
    }
}

proof fn lemma_first_language_prefix(chunks: Seq<ChunkTranscript>, i: int)
    requires
        0 <= i < chunks.len(),
        first_language(chunks.take(i)) is None,
    ensures
        first_language(chunks.take(i + 1)) == chunks[i].language,
    decreases i,
{
    if i > 0 {
        assert(chunks.take(i)[0] == chunks[0]);
        assert(chunks.take(i + 1)[0] == chunks[0]);
        assert(chunks.take(i).drop_first() == chunks.drop_first().take(i - 1));
        assert(chunks.take(i + 1).drop_first() == chunks.drop_first().take(i));
        assert(chunks[0].language is None);
        lemma_first_language_prefix(chunks.drop_first(), i - 1);
        assert(chunks.drop_first()[i - 1] == chunks[i]);
        assert(first_language(chunks.take(i + 1)) == first_language(chunks.take(i + 1).drop_first()));
    } else {
        assert(chunks.take(1)[0] == chunks[0]);
        assert(chunks.take(1).drop_first() =~= Seq::<ChunkTranscript>::empty());
    }
}

proof fn lemma_first_language_stays(chunks: Seq<ChunkTranscript>, i: int)
    requires
        0 <= i < chunks.len(),
        first_language(chunks.take(i)) is Some,
    ensures
        first_language(chunks.take(i + 1)) == first_language(chunks.take(i)),
    decreases i,
{
    if i > 0 {
        assert(chunks.take(i)[0] == chunks[0]);
        assert(chunks.take(i + 1)[0] == chunks[0]);
        if chunks[0].language is None {
            assert(chunks.take(i).drop_first() == chunks.drop_first().take(i - 1));
            assert(chunks.take(i + 1).drop_first() == chunks.drop_first().take(i));
            lemma_first_language_stays(chunks.drop_first(), i - 1);
        }
    }
}

/// Each chunk is joined against the chunk just before it: merging one more
/// chunk joins it to the text merged so far at the seam between the last
/// chunk's raw text and the new one, whatever text was merged before.
pub proof fn law_merge_joins_consecutive_chunks(raws: Seq<Seq<char>>, next: Seq<char>)
    requires
        raws.len() > 0,
    ensures
        merged_text(raws.push(next)) == join_result(merged_text(raws), raws.last(), next).0,
{
    assert(raws.push(next).drop_last() == raws);
    assert(raws.push(next)[raws.len() - 1] == raws.last());
}

/// Whether a seam is safe, and where it cuts, depends only on the two
/// consecutive raw chunks, not on the text merged before.
pub proof fn law_seam_ignores_earlier_text(m1: Seq<char>, m2: Seq<char>, previous: Seq<char>, right: Seq<char>)
    ensures
        join_result(m1, previous, right).1 == join_result(m2, previous, right).1,
{
}

/// Two texts that agree character by character up to letter case: same
/// length, and at every position the same whitespace and alphanumeric
/// class and the same lowercase mapping.
pub open spec fn same_up_to_case(a: Seq<char>, b: Seq<char>) -> bool {
    &&& a.len() == b.len()
    &&& forall|i: int|
        0 <= i < a.len() ==> is_white_space(#[trigger] a[i]) == is_white_space(b[i]) && is_alnum(a[i])
            == is_alnum(b[i]) && char_lower(a[i]) == char_lower(b[i])
}

/// Two word lists that agree word by word up to letter case.
pub open spec fn words_same_up_to_case(x: Seq<Seq<char>>, y: Seq<Seq<char>>) -> bool {
    &&& x.len() == y.len()
    &&& forall|k: int| 0 <= k < x.len() ==> same_up_to_case(#[trigger] x[k], y[k])
}

/// Seam words compare without regard to letter case: two words that agree
/// up to case have the same comparable form.
pub proof fn law_seam_words_ignore_case(a: Seq<char>, b: Seq<char>)
    requires
        same_up_to_case(a, b),
    ensures
        comparable_spec(a) == comparable_spec(b),
    decreases a.len(),
{
    if a.len() > 0 {
        assert(same_up_to_case(a.drop_last(), b.drop_last())) by {
            assert forall|i: int| 0 <= i < a.drop_last().len() implies is_white_space(
                #[trigger] a.drop_last()[i],
            ) == is_white_space(b.drop_last()[i]) && is_alnum(a.drop_last()[i]) == is_alnum(
                b.drop_last()[i],
            ) && char_lower(a.drop_last()[i]) == char_lower(b.drop_last()[i]) by {
                assert(a.drop_last()[i] == a[i] && b.drop_last()[i] == b[i]);
            }
        }
        law_seam_words_ignore_case(a.drop_last(), b.drop_last());
        assert(a.last() == a[a.len() - 1] && b.last() == b[b.len() - 1]);
    }
}

proof fn lemma_same_up_to_case_push(a: Seq<char>, b: Seq<char>, c: char, d: char)
    requires
        same_up_to_case(a, b),
        is_white_space(c) == is_white_space(d),
        is_alnum(c) == is_alnum(d),
        char_lower(c) == char_lower(d),
    ensures
        same_up_to_case(a.push(c), b.push(d)),
{
    assert forall|i: int| 0 <= i < a.push(c).len() implies is_white_space(#[trigger] a.push(c)[i])
        == is_white_space(b.push(d)[i]) && is_alnum(a.push(c)[i]) == is_alnum(b.push(d)[i])
        && char_lower(a.push(c)[i]) == char_lower(b.push(d)[i]) by {
        if i < a.len() {
            assert(a.push(c)[i] == a[i] && b.push(d)[i] == b[i]);
        }
    }
}

proof fn lemma_split_same_up_to_case(s: Seq<char>, t: Seq<char>, cs: Seq<char>, ct: Seq<char>)
    requires
        same_up_to_case(s, t),
        same_up_to_case(cs, ct),
    ensures
        words_same_up_to_case(split_ws(s, cs), split_ws(t, ct)),
    decreases s.len(),
{
    if s.len() == 0 {
        if cs.len() != 0 {
            let x = split_ws(s, cs);
            let y = split_ws(t, ct);
            assert(x == seq![cs] && y == seq![ct]);
            assert(x[0] == cs && y[0] == ct);
        }
    } else {
        assert(s[0] == s[0] && t[0] == t[0]);
        let s1 = s.drop_first();
        let t1 = t.drop_first();
        assert(same_up_to_case(s1, t1)) by {
            assert forall|i: int| 0 <= i < s1.len() implies is_white_space(#[trigger] s1[i])
                == is_white_space(t1[i]) && is_alnum(s1[i]) == is_alnum(t1[i]) && char_lower(s1[i])
                == char_lower(t1[i]) by {
                assert(s1[i] == s[i + 1] && t1[i] == t[i + 1]);
            }
        }
        if is_white_space(s[0]) {
            let e: Seq<char> = seq![];
            lemma_split_same_up_to_case(s1, t1, e, e);
            if cs.len() != 0 {
                let rx = split_ws(s1, e);
                let ry = split_ws(t1, e);
                let x = seq![cs] + rx;
                let y = seq![ct] + ry;
                assert forall|k: int| 0 <= k < x.len() implies same_up_to_case(#[trigger] x[k], y[k]) by {
                    if k == 0 {
                        assert(x[0] == cs && y[0] == ct);
                    } else {
                        assert(x[k] == rx[k - 1] && y[k] == ry[k - 1]);
                    }
                }
            }
        } else {
            lemma_same_up_to_case_push(cs, ct, s[0], t[0]);
            lemma_split_same_up_to_case(s1, t1, cs.push(s[0]), ct.push(t[0]));
        }
    }
}

/// A case variant of the right chunk finds the same seam: whether the seam
/// is safe does not change when the right chunk's letters change case.
pub proof fn law_seam_ignores_letter_case(merged: Seq<char>, previous: Seq<char>, right: Seq<char>, right2: Seq<char>)
    requires
        same_up_to_case(right, right2),
    ensures
        join_result(merged, previous, right).1 == join_result(merged, previous, right2).1,
{
    let e: Seq<char> = seq![];
    lemma_split_same_up_to_case(right, right2, e, e);
    let b = words(right);
    let b2 = words(right2);
    assert forall|k: int| 0 <= k < b.len() implies comparable_words(b)[k] == comparable_words(b2)[k] by {
        law_seam_words_ignore_case(b[k], b2[k]);
    }
    assert(comparable_words(b) =~= comparable_words(b2));
}

/// Joins all chunks of an attempt in order and picks the first reported
/// language, as a finished job does before normalisation.
pub fn merge_chunks(chunks: &Vec<ChunkTranscript>) -> (r: (String, Option<String>))
    ensures
        r.0@ == merged_text(chunk_raws(chunks@)),
        r.1 == first_language(chunks@),
{
    let mut raw = String::new();
    let mut previous_raw = String::new();
    let mut language: Option<String> = None;
    let mut i: usize = 0;
    assert(chunk_raws(chunks@.take(0)) =~= Seq::<Seq<char>>::empty());
    while i < chunks.len()
        invariant
            i <= chunks@.len(),
            raw@ == merged_text(chunk_raws(chunks@.take(i as int))),
            previous_raw@ == (if i == 0 {
                Seq::<char>::empty()
            } else {
                chunks@[i - 1].engine_raw@
            }),
            language == first_language(chunks@.take(i as int)),
        decreases chunks@.len() - i,
    {
        let ghost before = chunk_raws(chunks@.take(i as int));
        let ghost after = chunk_raws(chunks@.take(i + 1));
        assert(after.drop_last() =~= before);
        assert(after.last() == chunks@[i as int].engine_raw@);
        if i > 0 {
            assert(after[after.len() - 2] == chunks@[i - 1].engine_raw@);
        }
        let (joined, _) = join_at_boundary(raw.as_str(), previous_raw.as_str(), chunks[i].engine_raw.as_str());
        raw = joined;
        previous_raw = chunks[i].engine_raw.clone();
        proof {
            if language is None {
                lemma_first_language_prefix(chunks@, i as int);
            } else {
                lemma_first_language_stays(chunks@, i as int);
            }
        }
        if language.is_none() {
            language = clone_opt(&chunks[i].language);
        }
        i = i + 1;
    }
    assert(chunks@.take(chunks@.len() as int) =~= chunks@);
    (raw, language)
}

/// A monotonic instant (`std::time::Instant`), carried as it is.
#[verifier::external_type_specification]
#[verifier::external_body]
pub struct ExInstant(std::time::Instant);

/// A live dictation whose transcription runs in the background queue: what
/// its delivery needs once the queue finishes it.
pub struct LiveJob {
    pub post_process: bool,
    pub generation: u64,
    pub stopped_at: std::time::Instant,
    pub duration_samples: u64,
}

// ---------------------------------------------------------------------
// Headless transcription of a whole file, window by window
// ---------------------------------------------------------------------

/// The window for one headless pass: at most the initial window, and small
/// enough that both overlaps still fit the model limit (the initial window
/// when the model does not say). None when less than five seconds remain.
pub open spec fn headless_window_spec(model_limit: Option<u64>) -> Option<u64> {
    let limit = match model_limit {
        Some(m) => m,
        None => INITIAL_WINDOW_SAMPLES,
    };
    let room = if limit >= 2 * OVERLAP_SAMPLES {
        limit - 2 * OVERLAP_SAMPLES
    } else {
        0
    };
    let w = if room < INITIAL_WINDOW_SAMPLES {
        room
    } else {
        INITIAL_WINDOW_SAMPLES as int
    };
    if w < MIN_WINDOW_SAMPLES {
        None
    } else {
        Some(w as u64)
    }
}

pub fn headless_window(model_limit: Option<u64>) -> (r: Result<u64, String>)
    ensures
        r matches Ok(w) ==> headless_window_spec(model_limit) == Some(w),
        r matches Err(e) ==> headless_window_spec(model_limit) is None
            && e@ == "Model audio window is too small for safe overlap"@,
{
    let limit = match model_limit {
        Some(m) => m,
        None => INITIAL_WINDOW_SAMPLES,
    };
    let room = if limit >= 2 * OVERLAP_SAMPLES {
        limit - 2 * OVERLAP_SAMPLES
    } else {
        0
    };
    let w = if room < INITIAL_WINDOW_SAMPLES {
        room
    } else {
        INITIAL_WINDOW_SAMPLES
    };
    if w < MIN_WINDOW_SAMPLES {
        Err(String::from_str("Model audio window is too small for safe overlap"))
    } else {
        Ok(w)
    }
}

/// The window retried after a failed headless pass: half as big, for the
/// first two failures; the third failure ends the transcription.
pub fn headless_retry_window(window: u64, attempt: u8) -> (r: Option<u64>)
    ensures
        attempt < 2 ==> r == Some((window / 2) as u64),
        attempt >= 2 ==> r is None,
{
    if attempt < 2 {
        Some(window / 2)
    } else {
        None
    }
}

/// What a headless transcription has produced so far.
pub struct HeadlessProgress {
    /// First sample not yet transcribed.
    pub start: u64,
    pub text: String,
    pub previous_raw: String,
    pub language: Option<String>,
}

/// Nothing transcribed yet.
pub fn headless_begin() -> (r: HeadlessProgress)
    ensures
        r.start == 0,
        r.text@ == Seq::<char>::empty(),
        r.previous_raw@ == Seq::<char>::empty(),
        r.language is None,
{
    HeadlessProgress { start: 0, text: String::new(), previous_raw: String::new(), language: None }
}

/// Records a transcribed window ending at `end`: its raw text is joined to
/// the text so far, it becomes the previous chunk, the first reported
/// language is kept, and transcription continues at `end`.
pub fn headless_advance(progress: HeadlessProgress, end: u64, raw: String, language: Option<String>) -> (r: HeadlessProgress)
    ensures
        r.start == end,
        r.text@ == join_result(progress.text@, progress.previous_raw@, raw@).0,
        r.previous_raw@ == raw@,
        r.language == (if progress.language is Some {
            progress.language
        } else {
            language
        }),
{
    let (text, _) = join_at_boundary(progress.text.as_str(), progress.previous_raw.as_str(), raw.as_str());
    let language = if progress.language.is_some() {
        progress.language
    } else {
        language
    };
    HeadlessProgress { start: end, text, previous_raw: raw, language }
}

} // verus!
