//! Deterministic spoken-phrase replacement.
//!
//! Single pass, left to right, longest match first, never recursive; no
//! fuzzy matching. Triggers match case-insensitively against whitespace
//! tokens; the authored replacement is emitted verbatim. Punctuation stays
//! because tokens are only replaced whole: punctuation attached to the edge
//! tokens of a phrase stays attached to whatever replaces it.

use vstd::prelude::*;

use crate::storage::repositories::snippets::SnippetRecord;
use crate::text::{
    char_is_alphanumeric, chars_of, extend_chars, is_alnum, join_words, split_words,
    str_lower, str_to_lowercase, string_of, words,
};

verus! {

// ---------------------------------------------------------------------
// Token edges
// ---------------------------------------------------------------------

/// Index of the first alphanumeric character of `t` at or after `k`
/// (the length of `t` when there is none).
pub open spec fn alnum_start(t: Seq<char>, k: int) -> int
    decreases t.len() - k,
{
    if k >= t.len() || k < 0 {
        t.len() as int
    } else if is_alnum(t[k]) {
        k
    } else {
        alnum_start(t, k + 1)
    }
}

/// Index just after the last alphanumeric character of `t` in `[s, k)`
/// (`s` when there is none).
pub open spec fn alnum_end(t: Seq<char>, s: int, k: int) -> int
    decreases k,
{
    if k <= s || k > t.len() || k <= 0 {
        s
    } else if is_alnum(t[k - 1]) {
        k
    } else {
        alnum_end(t, s, k - 1)
    }
}

/// A token split into leading punctuation, core and trailing punctuation,
/// given as the bounds of the core. Everything that is not alphanumeric
/// counts as punctuation.
pub open spec fn core_bounds(t: Seq<char>) -> (int, int) {
    let s = alnum_start(t, 0);
    (s, alnum_end(t, s, t.len() as int))
}

pub open spec fn token_prefix(t: Seq<char>) -> Seq<char> {
    t.take(core_bounds(t).0)
}

pub open spec fn token_core(t: Seq<char>) -> Seq<char> {
    t.subrange(core_bounds(t).0, core_bounds(t).1)
}

pub open spec fn token_suffix(t: Seq<char>) -> Seq<char> {
    t.skip(core_bounds(t).1)
}

proof fn lemma_alnum_start_bounds(t: Seq<char>, k: int)
    requires
        0 <= k <= t.len(),
    ensures
        k <= alnum_start(t, k) <= t.len(),
    decreases t.len() - k,
{
    if k < t.len() && !is_alnum(t[k]) {
        lemma_alnum_start_bounds(t, k + 1);
    }
}

proof fn lemma_alnum_end_bounds(t: Seq<char>, s: int, k: int)
    requires
        0 <= s <= k <= t.len(),
    ensures
        s <= alnum_end(t, s, k) <= k,
    decreases k,
{
    if k > s && !is_alnum(t[k - 1]) {
        lemma_alnum_end_bounds(t, s, k - 1);
    }
}

proof fn lemma_core_bounds(t: Seq<char>)
    ensures
        0 <= core_bounds(t).0 <= core_bounds(t).1 <= t.len(),
{
    lemma_alnum_start_bounds(t, 0);
    lemma_alnum_end_bounds(t, alnum_start(t, 0), t.len() as int);
}

/// The bounds of a token's core.
fn strip_edge_punct(t: &[char]) -> (r: (usize, usize))
    ensures
        r.0 == core_bounds(t@).0,
        r.1 == core_bounds(t@).1,
        r.0 <= r.1 <= t@.len(),
{
    proof {
        lemma_core_bounds(t@);
    }
    let mut s: usize = 0;
    while s < t.len() && !char_is_alphanumeric(t[s])
        invariant
            s <= t@.len(),
            alnum_start(t@, 0) == alnum_start(t@, s as int),
        decreases t@.len() - s,
    {
        s = s + 1;
    }
    let mut e: usize = t.len();
    while e > s && !char_is_alphanumeric(t[e - 1])
        invariant
            s <= e <= t@.len(),
            alnum_end(t@, s as int, t@.len() as int) == alnum_end(t@, s as int, e as int),
        decreases e,
    {
        e = e - 1;
    }
    (s, e)
}

// ---------------------------------------------------------------------
// Matching
// ---------------------------------------------------------------------

/// How many words a trigger spans (at least one).
pub open spec fn trigger_words(trigger: Seq<char>) -> int {
    let n = words(str_lower(trigger)).len();
    if n < 1 {
        1
    } else {
        n as int
    }
}

/// The longest trigger, in words.
pub open spec fn max_trigger_words(snippets: Seq<SnippetRecord>) -> int
    decreases snippets.len(),
{
    if snippets.len() == 0 {
        0
    } else {
        let rest = max_trigger_words(snippets.drop_last());
        let w = trigger_words(snippets.last().trigger@);
        if w > rest {
            w
        } else {
            rest
        }
    }
}

/// The cores of the `n` tokens starting at `i`: the edge tokens lose their
/// punctuation, inner tokens stay as they are.
pub open spec fn phrase_cores(tokens: Seq<Seq<char>>, i: int, n: int) -> Seq<Seq<char>> {
    let window = tokens.subrange(i, i + n);
    window.update(0, token_core(tokens[i])).update(n - 1, token_core(tokens[i + n - 1]))
}

/// The lowercase phrase the `n` tokens starting at `i` spell.
pub open spec fn phrase_at(tokens: Seq<Seq<char>>, i: int, n: int) -> Seq<char> {
    str_lower(join_words(phrase_cores(tokens, i, n)))
}

/// Whether the phrase at `i` of `n` tokens can match at all: neither the
/// phrase nor any core is empty.
pub open spec fn phrase_usable(tokens: Seq<Seq<char>>, i: int, n: int) -> bool {
    &&& phrase_at(tokens, i, n).len() > 0
    &&& forall|k: int| 0 <= k < n ==> (#[trigger] phrase_cores(tokens, i, n)[k]).len() > 0
}

/// The first snippet (in the given order) of `n` words whose lowercase
/// trigger is `phrase`, searching from index `k`.
pub open spec fn find_trigger(snippets: Seq<SnippetRecord>, phrase: Seq<char>, n: int, k: int) -> Option<int>
    decreases snippets.len() - k,
{
    if k >= snippets.len() || k < 0 {
        None
    } else if trigger_words(snippets[k].trigger@) == n && str_lower(snippets[k].trigger@) == phrase {
        Some(k)
    } else {
        find_trigger(snippets, phrase, n, k + 1)
    }
}

/// The match at token `i` trying phrases of `n` tokens down to one token:
/// the snippet index and the phrase length.
pub open spec fn best_match(snippets: Seq<SnippetRecord>, tokens: Seq<Seq<char>>, i: int, n: int) -> Option<(int, int)>
    decreases n,
{
    if n < 1 {
        None
    } else if phrase_usable(tokens, i, n) && find_trigger(snippets, phrase_at(tokens, i, n), n, 0) is Some {
        Some((find_trigger(snippets, phrase_at(tokens, i, n), n, 0)->0, n))
    } else {
        best_match(snippets, tokens, i, n - 1)
    }
}

/// The longest phrase tried at token `i`.
pub open spec fn longest_try(snippets: Seq<SnippetRecord>, tokens: Seq<Seq<char>>, i: int) -> int {
    let m = max_trigger_words(snippets);
    if m < tokens.len() - i {
        m
    } else {
        tokens.len() - i
    }
}

/// The output pieces for the tokens from `i` on: a matched phrase becomes
/// its replacement wrapped in the edge punctuation, an unmatched token is
/// kept, and replacements are never scanned again.
pub open spec fn replaced_from(snippets: Seq<SnippetRecord>, tokens: Seq<Seq<char>>, i: int) -> Seq<Seq<char>>
    decreases tokens.len() - i,
{
    if i >= tokens.len() || i < 0 {
        seq![]
    } else {
        match best_match(snippets, tokens, i, longest_try(snippets, tokens, i)) {
            Some((k, n)) => if 1 <= n && i + n <= tokens.len() && 0 <= k < snippets.len() {
                seq![token_prefix(tokens[i]) + snippets[k].replacement@ + token_suffix(tokens[i + n - 1])]
                    + replaced_from(snippets, tokens, i + n)
            } else {
                seq![tokens[i]] + replaced_from(snippets, tokens, i + 1)
            },
            None => seq![tokens[i]] + replaced_from(snippets, tokens, i + 1),
        }
    }
}

/// The text after snippet replacement with the enabled snippets
/// `snippets`, given in tie-break order.
pub open spec fn apply_snippets_spec(snippets: Seq<SnippetRecord>, text: Seq<char>) -> Seq<char> {
    if snippets.len() == 0 || text.len() == 0 {
        text
    } else {
        join_words(replaced_from(snippets, words(text), 0))
    }
}

proof fn lemma_find_trigger_bounds(snippets: Seq<SnippetRecord>, phrase: Seq<char>, n: int, k: int)
    requires
        0 <= k,
    ensures
        find_trigger(snippets, phrase, n, k) matches Some(j) ==> k <= j < snippets.len(),
    decreases snippets.len() - k,
{
    if k < snippets.len() && !(trigger_words(snippets[k].trigger@) == n && str_lower(
        snippets[k].trigger@,
    ) == phrase) {
        lemma_find_trigger_bounds(snippets, phrase, n, k + 1);
    }
}

proof fn lemma_best_match_bounds(snippets: Seq<SnippetRecord>, tokens: Seq<Seq<char>>, i: int, n: int)
    ensures
        best_match(snippets, tokens, i, n) matches Some((k, m)) ==> 1 <= m <= n && 0 <= k
            < snippets.len(),
    decreases n,
{
    if n >= 1 {
        lemma_find_trigger_bounds(snippets, phrase_at(tokens, i, n), n, 0);
        lemma_best_match_bounds(snippets, tokens, i, n - 1);
    }
}

proof fn lemma_best_match_reaches(snippets: Seq<SnippetRecord>, tokens: Seq<Seq<char>>, i: int, top: int, n: int)
    requires
        1 <= n <= top,
        phrase_usable(tokens, i, n),
        find_trigger(snippets, phrase_at(tokens, i, n), n, 0) is Some,
    ensures
        best_match(snippets, tokens, i, top) matches Some((k, m)) && m >= n,
    decreases top,
{
    if top > n && !(phrase_usable(tokens, i, top) && find_trigger(snippets, phrase_at(tokens, i, top), top, 0) is Some) {
        lemma_best_match_reaches(snippets, tokens, i, top - 1, n);
    }
}

/// The longest match wins: when the phrase of `n` tokens at position `i`
/// (no longer than the longest phrase tried there) names a trigger of that
/// many words, the match taken at `i` spans at least `n` tokens, so no
/// shorter trigger, whatever its priority, replaces part of it.
pub proof fn law_longest_match_wins(snippets: Seq<SnippetRecord>, tokens: Seq<Seq<char>>, i: int, n: int)
    requires
        1 <= n <= longest_try(snippets, tokens, i),
        phrase_usable(tokens, i, n),
        find_trigger(snippets, phrase_at(tokens, i, n), n, 0) is Some,
    ensures
        best_match(snippets, tokens, i, longest_try(snippets, tokens, i)) matches Some((k, m)) && m >= n,
{
    lemma_best_match_reaches(snippets, tokens, i, longest_try(snippets, tokens, i), n);
}

/// Whether `s` ends with `x`.
pub open spec fn ends_with(s: Seq<char>, x: Seq<char>) -> bool {
    x.len() <= s.len() && s.skip(s.len() - x.len()) == x
}

/// Whether `s` starts with `x`.
pub open spec fn starts_with(s: Seq<char>, x: Seq<char>) -> bool {
    x.len() <= s.len() && s.take(x.len() as int) == x
}

proof fn lemma_token_parts(t: Seq<char>)
    ensures
        t == token_prefix(t) + token_core(t) + token_suffix(t),
{
    lemma_core_bounds(t);
    assert(t =~= token_prefix(t) + token_core(t) + token_suffix(t));
}

proof fn lemma_piece_edges(p: Seq<char>, rep: Seq<char>, q: Seq<char>)
    ensures
        starts_with(p + rep + q, p),
        ends_with(p + rep + q, q),
{
    assert((p + rep + q).take(p.len() as int) =~= p);
    assert((p + rep + q).skip((p + rep + q).len() - q.len()) =~= q);
}

proof fn lemma_pieces_keep_edges(snippets: Seq<SnippetRecord>, tokens: Seq<Seq<char>>, i: int)
    requires
        0 <= i < tokens.len(),
    ensures
        replaced_from(snippets, tokens, i).len() > 0,
        starts_with(replaced_from(snippets, tokens, i)[0], token_prefix(tokens[i])),
        ends_with(replaced_from(snippets, tokens, i).last(), token_suffix(tokens.last())),
    decreases tokens.len() - i,
{
    let out = replaced_from(snippets, tokens, i);
    lemma_token_parts(tokens[i]);
    lemma_piece_edges(token_prefix(tokens[i]), token_core(tokens[i]), token_suffix(tokens[i]));
    match best_match(snippets, tokens, i, longest_try(snippets, tokens, i)) {
        Some((k, n)) => {
            if 1 <= n && i + n <= tokens.len() && 0 <= k < snippets.len() {
                let piece = token_prefix(tokens[i]) + snippets[k].replacement@ + token_suffix(
                    tokens[i + n - 1],
                );
                lemma_piece_edges(token_prefix(tokens[i]), snippets[k].replacement@, token_suffix(tokens[i + n - 1]));
                let rest = replaced_from(snippets, tokens, i + n);
                assert(out == seq![piece] + rest);
                assert(out[0] == piece);
                if i + n < tokens.len() {
                    lemma_pieces_keep_edges(snippets, tokens, i + n);
                    assert(out.last() == rest.last());
                } else {
                    assert(rest.len() == 0);
                    assert(out.last() == piece);
                }
            } else {
                let rest = replaced_from(snippets, tokens, i + 1);
                assert(out == seq![tokens[i]] + rest);
                assert(out[0] == tokens[i]);
                if i + 1 < tokens.len() {
                    lemma_pieces_keep_edges(snippets, tokens, i + 1);
                    assert(out.last() == rest.last());
                } else {
                    assert(out.last() == tokens[i]);
                }
            }
        },
        None => {
            let rest = replaced_from(snippets, tokens, i + 1);
            assert(out == seq![tokens[i]] + rest);
            assert(out[0] == tokens[i]);
            if i + 1 < tokens.len() {
                lemma_pieces_keep_edges(snippets, tokens, i + 1);
                assert(out.last() == rest.last());
            } else {
                assert(out.last() == tokens[i]);
            }
        },
    }
}

proof fn lemma_join_edges(ws: Seq<Seq<char>>)
    requires
        ws.len() > 0,
    ensures
        starts_with(join_words(ws), ws[0]),
        ends_with(join_words(ws), ws.last()),
    decreases ws.len(),
{
    if ws.len() == 1 {
        assert(join_words(ws) == ws[0]);
        assert(ws[0].take(ws[0].len() as int) =~= ws[0]);
        assert(ws[0].skip(0) =~= ws[0]);
        assert(ws.last() == ws[0]);
    } else {
        lemma_join_edges(ws.drop_last());
        let j = join_words(ws.drop_last());
        assert(join_words(ws) == j + seq![' '] + ws.last());
        lemma_piece_edges(j, seq![' '], ws.last());
        assert(ws.drop_last()[0] == ws[0]);
        assert(j.take(ws[0].len() as int) == ws[0]);
        assert((j + seq![' '] + ws.last()).take(ws[0].len() as int) =~= j.take(ws[0].len() as int));
    }
}

/// Edge punctuation stays where it was: after snippet replacement the
/// text still starts with the leading punctuation of its first word and
/// ends with the trailing punctuation of its last word, also when the
/// first or last words are part of a replaced phrase.
pub proof fn law_edge_punctuation_is_kept(snippets: Seq<SnippetRecord>, text: Seq<char>)
    requires
        snippets.len() > 0,
        words(text).len() > 0,
    ensures
        starts_with(apply_snippets_spec(snippets, text), token_prefix(words(text)[0])),
        ends_with(apply_snippets_spec(snippets, text), token_suffix(words(text).last())),
{
    let tokens = words(text);
    assert(text.len() > 0) by {
        if text.len() == 0 {
            assert(words(text) == Seq::<Seq<char>>::empty());
        }
    }
    lemma_pieces_keep_edges(snippets, tokens, 0);
    let out = replaced_from(snippets, tokens, 0);
    lemma_join_edges(out);
    let j = join_words(out);
    // The join starts with the first piece, which starts with the prefix.
    assert(j.take(out[0].len() as int) == out[0]);
    assert(out[0].take(token_prefix(tokens[0]).len() as int) == token_prefix(tokens[0]));
    assert(j.take(token_prefix(tokens[0]).len() as int) =~= token_prefix(tokens[0]));
    // The join ends with the last piece, which ends with the suffix.
    let x = token_suffix(tokens.last());
    assert(j.skip(j.len() - out.last().len()) == out.last());
    assert(out.last().skip(out.last().len() - x.len()) == x);
    assert(j.skip(j.len() - x.len()) =~= out.last().skip(out.last().len() - x.len()));
}

/// Lowercase triggers and their word counts, in snippet order.
fn lowered_triggers(snippets: &Vec<SnippetRecord>) -> (r: (Vec<Vec<char>>, Vec<usize>))
    ensures
        r.0@.len() == snippets@.len(),
        r.1@.len() == snippets@.len(),
        forall|k: int|
            0 <= k < snippets@.len() ==> (#[trigger] r.0@[k])@ == str_lower(snippets@[k].trigger@),
        forall|k: int| 0 <= k < snippets@.len() ==> #[trigger] r.1@[k] == trigger_words(snippets@[k].trigger@),
{
    let mut lows: Vec<Vec<char>> = Vec::new();
    let mut counts: Vec<usize> = Vec::new();
    let mut i: usize = 0;
    while i < snippets.len()
        invariant
            i <= snippets@.len(),
            lows@.len() == i,
            counts@.len() == i,
            forall|k: int|
                0 <= k < i ==> (#[trigger] lows@[k])@ == str_lower(snippets@[k].trigger@),
            forall|k: int| 0 <= k < i ==> #[trigger] counts@[k] == trigger_words(snippets@[k].trigger@),
        decreases snippets@.len() - i,
    {
        let low = str_to_lowercase(snippets[i].trigger.as_str());
        let chars = chars_of(low.as_str());
        let ws = split_words(chars.as_slice());
        let n = if ws.len() < 1 {
            1
        } else {
            ws.len()
        };
        lows.push(chars);
        counts.push(n);
        i = i + 1;
    }
    (lows, counts)
}

/// Whether two character vectors are equal.
fn same_chars(x: &[char], y: &[char]) -> (r: bool)
    ensures
        r == (x@ == y@),
{
    if x.len() != y.len() {
        return false;
    }
    let mut i: usize = 0;
    while i < x.len()
        invariant
            i <= x@.len() == y@.len(),
            forall|k: int| 0 <= k < i ==> x@[k] == y@[k],
        decreases x@.len() - i,
    {
        if x[i] != y[i] {
            return false;
        }
        i = i + 1;
    }
    assert(x@ =~= y@);
    true
}

/// The phrase cores of `n` tokens at `i`, joined by spaces, and whether all are non-empty.
fn phrase_exec(tokens: &Vec<Vec<char>>, i: usize, n: usize) -> (r: (Vec<char>, bool))
    requires
        1 <= n,
        i + n <= tokens.len(),
    ensures
        r.0@ == join_words(phrase_cores(tokens.deep_view(), i as int, n as int)),
        r.1 == forall|k: int|
            0 <= k < n ==> (#[trigger] phrase_cores(tokens.deep_view(), i as int, n as int)[k]).len()
                > 0,
{
    let ghost cores = phrase_cores(tokens.deep_view(), i as int, n as int);
    let (hs, he) = strip_edge_punct(tokens[i].as_slice());
    let last = i + n - 1;
    let (ts, te) = strip_edge_punct(tokens[last].as_slice());
    assert(tokens[i as int].deep_view() =~= tokens[i as int]@);
    assert(tokens[last as int].deep_view() =~= tokens[last as int]@);
    let mut out: Vec<char> = Vec::new();
    let mut all_nonempty = true;
    let mut k: usize = 0;
    while k < n
        invariant
            1 <= n,
            i + n <= tokens.len(),
            last == i + n - 1,
            k <= n,
            cores == phrase_cores(tokens.deep_view(), i as int, n as int),
            hs == core_bounds(tokens[i as int]@).0,
            he == core_bounds(tokens[i as int]@).1,
            ts == core_bounds(tokens[last as int]@).0,
            te == core_bounds(tokens[last as int]@).1,
            hs <= he <= tokens[i as int]@.len(),
            ts <= te <= tokens[last as int]@.len(),
            tokens[i as int].deep_view() == tokens[i as int]@,
            tokens[last as int].deep_view() == tokens[last as int]@,
            out@ == join_words(cores.take(k as int)),
            all_nonempty == forall|t: int| 0 <= t < k ==> (#[trigger] cores[t]).len() > 0,
        decreases n - k,
    {
        let mut piece: Vec<char> = Vec::new();
        let (from, to) = if k + 1 == n {
            (ts, te)
        } else if k == 0 {
            (hs, he)
        } else {
            (0, tokens[i + k].len())
        };
        let src = &tokens[i + k];
        proof {
            assert(tokens[i + k].deep_view() =~= tokens[i + k]@);
            if k + 1 == n {
                assert(cores[k as int] == tokens[last as int]@.subrange(ts as int, te as int));
            } else if k == 0 {
                assert(cores[k as int] == tokens[i as int]@.subrange(hs as int, he as int));
            } else {
                assert(cores[k as int] == tokens[i + k]@);
                assert(tokens[i + k]@.subrange(0, tokens[i + k]@.len() as int) == tokens[i + k]@);
            }
        }
        let mut j: usize = from;
        while j < to
            invariant
                from <= j <= to <= src@.len(),
                piece@ == src@.subrange(from as int, j as int),
            decreases to - j,
        {
            piece.push(src[j]);
            assert(src@.subrange(from as int, j + 1) == src@.subrange(from as int, j as int).push(src@[j as int]));
            j = j + 1;
        }
        assert(piece@ == cores[k as int]);
        let ghost before = out@;
        if k > 0 {
            out.push(' ');
        }
        extend_chars(&mut out, piece.as_slice());
        assert(cores.take(k + 1).drop_last() =~= cores.take(k as int));
        assert(cores.take(k + 1).last() == cores[k as int]);
        if piece.len() == 0 {
            all_nonempty = false;
        }
        k = k + 1;
    }
    assert(cores.take(n as int) =~= cores);
    (out, all_nonempty)
}

/// The first snippet of `n` words whose lowercase trigger equals `phrase`.
fn find_trigger_exec(lows: &Vec<Vec<char>>, counts: &Vec<usize>, phrase: &[char], n: usize, Ghost(snippets): Ghost<Seq<SnippetRecord>>) -> (r: Option<usize>)
    requires
        lows@.len() == snippets.len(),
        counts@.len() == snippets.len(),
        forall|k: int| 0 <= k < snippets.len() ==> (#[trigger] lows@[k])@ == str_lower(snippets[k].trigger@),
        forall|k: int| 0 <= k < snippets.len() ==> #[trigger] counts@[k] == trigger_words(snippets[k].trigger@),
    ensures
        r matches Some(k) ==> find_trigger(snippets, phrase@, n as int, 0) == Some(k as int),
        r is None ==> find_trigger(snippets, phrase@, n as int, 0) is None,
{
    let mut k: usize = 0;
    while k < lows.len()
        invariant
            k <= lows@.len() == snippets.len(),
            counts@.len() == snippets.len(),
            forall|j: int| 0 <= j < snippets.len() ==> (#[trigger] lows@[j])@ == str_lower(snippets[j].trigger@),
            forall|j: int| 0 <= j < snippets.len() ==> #[trigger] counts@[j] == trigger_words(snippets[j].trigger@),
            find_trigger(snippets, phrase@, n as int, 0) == find_trigger(snippets, phrase@, n as int, k as int),
        decreases lows@.len() - k,
    {
        let same = same_chars(lows[k].as_slice(), phrase);
        let hit = counts[k] == n && same;
        assert(hit == (trigger_words(snippets[k as int].trigger@) == n && str_lower(snippets[k as int].trigger@) == phrase@));
        if hit {
            return Some(k);
        }
        k = k + 1;
    }
    None
}

/// Applies the enabled snippets `snippets` (in tie-break order: priority
/// descending, then trigger length descending, then id) to `text`: at each
/// position the longest matching trigger wins, among equal lengths the
/// earliest snippet, and replacements are never rescanned.
pub fn apply_snippet_list(snippets: &Vec<SnippetRecord>, text: &str) -> (r: String)
    ensures
        r@ == apply_snippets_spec(snippets@, text@),
{
    let tc = chars_of(text);
    if snippets.len() == 0 || tc.len() == 0 {
        return String::from_str(text);
    }
    let (lows, counts) = lowered_triggers(snippets);
    let mut max_words: usize = 0;
    let mut s: usize = 0;
    while s < counts.len()
        invariant
            s <= counts@.len() == snippets@.len(),
            forall|k: int| 0 <= k < snippets@.len() ==> #[trigger] counts@[k] == trigger_words(snippets@[k].trigger@),
            max_words == max_trigger_words(snippets@.take(s as int)),
        decreases counts@.len() - s,
    {
        assert(snippets@.take(s + 1).drop_last() =~= snippets@.take(s as int));
        assert(snippets@.take(s + 1).last() == snippets@[s as int]);
        if counts[s] > max_words {
            max_words = counts[s];
        }
        s = s + 1;
    }
    assert(snippets@.take(counts@.len() as int) =~= snippets@);
    let tokens = split_words(tc.as_slice());
    let ghost tv = tokens.deep_view();
    let mut out: Vec<Vec<char>> = Vec::new();
    let mut i: usize = 0;
    assert(out.deep_view() + replaced_from(snippets@, tv, 0) =~= replaced_from(snippets@, tv, 0));
    while i < tokens.len()
        invariant
            i <= tokens@.len(),
            tv == tokens.deep_view(),
            max_words == max_trigger_words(snippets@),
            lows@.len() == snippets@.len(),
            counts@.len() == snippets@.len(),
            forall|k: int| 0 <= k < snippets@.len() ==> (#[trigger] lows@[k])@ == str_lower(snippets@[k].trigger@),
            forall|k: int| 0 <= k < snippets@.len() ==> #[trigger] counts@[k] == trigger_words(snippets@[k].trigger@),
            replaced_from(snippets@, tv, 0) == out.deep_view() + replaced_from(snippets@, tv, i as int),
        decreases tokens@.len() - i,
    {
        let remaining = tokens.len() - i;
        let top = if max_words < remaining {
            max_words
        } else {
            remaining
        };
        assert(top == longest_try(snippets@, tv, i as int));
        let mut n = top;
        let mut matched: Option<(usize, usize)> = None;
        while n >= 1
            invariant_except_break
                matched is None,
            invariant
                n <= top,
                top <= tokens@.len() - i,
                i < tokens@.len(),
                tv == tokens.deep_view(),
                i + top <= tokens.len(),
                lows@.len() == snippets@.len(),
                counts@.len() == snippets@.len(),
                forall|k: int| 0 <= k < snippets@.len() ==> (#[trigger] lows@[k])@ == str_lower(snippets@[k].trigger@),
                forall|k: int| 0 <= k < snippets@.len() ==> #[trigger] counts@[k] == trigger_words(snippets@[k].trigger@),
                best_match(snippets@, tv, i as int, top as int) == best_match(snippets@, tv, i as int, n as int),
            ensures
                matched matches Some((k, m)) ==> best_match(snippets@, tv, i as int, top as int) == Some((k as int, m as int)),
                matched is None ==> best_match(snippets@, tv, i as int, top as int) is None,
            decreases n,
        {
            let (joined, cores_ok) = phrase_exec(&tokens, i, n);
            let lowered = str_to_lowercase(string_of(joined.as_slice()).as_str());
            let phrase = chars_of(lowered.as_str());
            assert(phrase@ == phrase_at(tv, i as int, n as int));
            if phrase.len() > 0 && cores_ok {
                let found = find_trigger_exec(&lows, &counts, phrase.as_slice(), n, Ghost(snippets@));
                if let Some(k) = found {
                    matched = Some((k, n));
                    break;
                }
            }
            n = n - 1;
        }
        proof {
            lemma_best_match_bounds(snippets@, tv, i as int, top as int);
        }
        match matched {
            Some((k, n)) => {
                assert(best_match(snippets@, tv, i as int, top as int) == Some((k as int, n as int)));
                let head = &tokens[i];
                let tail = &tokens[i + n - 1];
                let (hs, _) = strip_edge_punct(head.as_slice());
                let (_, te) = strip_edge_punct(tail.as_slice());
                let mut piece: Vec<char> = Vec::new();
                let mut j: usize = 0;
                while j < hs
                    invariant
                        hs <= head@.len(),
                        j <= hs,
                        piece@ == head@.take(j as int),
                    decreases hs - j,
                {
                    piece.push(head[j]);
                    assert(head@.take(j + 1) == head@.take(j as int).push(head@[j as int]));
                    j = j + 1;
                }
                let rep = chars_of(snippets[k].replacement.as_str());
                extend_chars(&mut piece, rep.as_slice());
                let mut j: usize = te;
                let ghost mid = piece@;
                while j < tail.len()
                    invariant
                        te <= j <= tail@.len(),
                        piece@ == mid + tail@.subrange(te as int, j as int),
                    decreases tail@.len() - j,
                {
                    piece.push(tail[j]);
                    assert(tail@.subrange(te as int, j + 1) == tail@.subrange(te as int, j as int).push(tail@[j as int]));
                    j = j + 1;
                }
                proof {
                    assert(tokens[i as int].deep_view() =~= head@);
                    assert(tokens[i + n - 1].deep_view() =~= tail@);
                    assert(tail@.subrange(te as int, tail@.len() as int) == tail@.skip(te as int));
                    assert(piece@ == token_prefix(tv[i as int]) + snippets@[k as int].replacement@ + token_suffix(tv[i + n - 1]));
                }
                let ghost before = out.deep_view();
                let ghost pv = piece@;
                assert(piece.deep_view() =~= pv);
                out.push(piece);
                assert(out.deep_view() =~= before.push(pv));
                assert(before + (seq![pv] + replaced_from(snippets@, tv, i + n)) =~= before.push(pv) + replaced_from(snippets@, tv, i + n));
                i = i + n;
            },
            None => {
                let ghost before = out.deep_view();
                let piece = tokens[i].clone();
                let ghost pv = tv[i as int];
                assert(piece.deep_view() =~= pv);
                out.push(piece);
                assert(out.deep_view() =~= before.push(pv));
                assert(before + (seq![pv] + replaced_from(snippets@, tv, i + 1)) =~= before.push(pv) + replaced_from(snippets@, tv, i + 1));
                i = i + 1;
            },
        }
    }
    assert(out.deep_view() + replaced_from(snippets@, tv, i as int) =~= out.deep_view());
    let joined = crate::text::join_words_from(&out, 0);
    assert(out.deep_view().skip(0) =~= out.deep_view());
    string_of(joined.as_slice())
}

} // verus!
