//! Full-text search: the syntax-safe match expression built from raw user
//! input, and the hits a search returns.

use vstd::prelude::*;

use crate::text::{char_is_alphanumeric, chars_of, is_alnum, join_words, split_words, string_of, words};

verus! {

/// `ref_type` of note documents in the index.
pub const REF_NOTE: &'static str = "note";

#[derive(Clone, Debug)]
pub struct SearchHit {
    /// `raw`, `representation` or `note`.
    pub ref_type: String,
    /// The attempt, representation or note id.
    pub ref_id: String,
    /// The capture, when the hit resolves to one.
    pub capture_id: Option<String>,
}

/// `t` with every double quote doubled.
pub open spec fn escape_quotes(t: Seq<char>) -> Seq<char>
    decreases t.len(),
{
    if t.len() == 0 {
        seq![]
    } else {
        escape_quotes(t.drop_last()) + (if t.last() == '"' {
            seq!['"', '"']
        } else {
            seq![t.last()]
        })
    }
}

/// A term quoted as one literal FTS5 string.
pub open spec fn quoted(t: Seq<char>) -> Seq<char> {
    seq!['"'] + escape_quotes(t) + seq!['"']
}

/// What an FTS5 string literal reads as, given the text after its opening
/// quote: `""` stands for one quote and a lone quote closes the literal.
/// None when the literal is not closed, or is closed before the end of
/// the text.
pub open spec fn literal_body(s: Seq<char>) -> Option<Seq<char>>
    decreases s.len(),
{
    if s.len() == 0 {
        None
    } else if s[0] == '"' {
        if s.len() == 1 {
            Some(seq![])
        } else if s[1] == '"' {
            match literal_body(s.skip(2)) {
                Some(c) => Some(seq!['"'] + c),
                None => None,
            }
        } else {
            None
        }
    } else {
        match literal_body(s.drop_first()) {
            Some(c) => Some(seq![s[0]] + c),
            None => None,
        }
    }
}

/// How one character is escaped inside a literal.
pub open spec fn escape_char(c: char) -> Seq<char> {
    if c == '"' {
        seq!['"', '"']
    } else {
        seq![c]
    }
}

proof fn lemma_escape_front(t: Seq<char>)
    requires
        t.len() > 0,
    ensures
        escape_quotes(t) == escape_char(t[0]) + escape_quotes(t.drop_first()),
    decreases t.len(),
{
    if t.len() == 1 {
        assert(t.drop_last().len() == 0);
        assert(t.drop_first().len() == 0);
        assert(escape_quotes(t.drop_first()) == Seq::<char>::empty());
        assert(escape_quotes(t) == escape_quotes(t.drop_last()) + escape_char(t.last()));
        assert(escape_char(t[0]) + Seq::<char>::empty() == escape_char(t[0]));
    } else {
        let init = t.drop_last();
        lemma_escape_front(init);
        assert(init.drop_first() == t.drop_first().drop_last());
        assert(t.drop_first().last() == t.last());
        assert(init[0] == t[0]);
        assert(escape_quotes(t) == escape_quotes(init) + escape_char(t.last()));
        assert(escape_quotes(t.drop_first()) == escape_quotes(t.drop_first().drop_last()) + escape_char(
            t.drop_first().last(),
        ));
        assert(escape_char(t[0]) + escape_quotes(init.drop_first()) + escape_char(t.last())
            == escape_char(t[0]) + (escape_quotes(init.drop_first()) + escape_char(t.last())));
    }
}

/// Quoting makes a user's token one FTS5 string literal: read from its
/// opening quote, the literal gives back exactly the token and closes on
/// the last character, so no operator or quote inside the token reaches
/// the query.
pub proof fn law_quoted_terms_are_literal(t: Seq<char>)
    ensures
        quoted(t)[0] == '"',
        literal_body(quoted(t).drop_first()) == Some(t),
    decreases t.len(),
{
    let body = escape_quotes(t) + seq!['"'];
    assert(quoted(t).drop_first() == body);
    if t.len() == 0 {
        assert(escape_quotes(t) == Seq::<char>::empty());
        assert(body == seq!['"']);
    } else {
        let rest = t.drop_first();
        law_quoted_terms_are_literal(rest);
        assert(quoted(rest).drop_first() == escape_quotes(rest) + seq!['"']);
        lemma_escape_front(t);
        let tail = escape_quotes(rest) + seq!['"'];
        assert(body == escape_char(t[0]) + tail);
        if t[0] == '"' {
            assert(body[0] == '"' && body[1] == '"');
            assert(body.skip(2) == tail);
            assert(t == seq!['"'] + rest);
        } else {
            assert(body[0] == t[0]);
            assert(body.drop_first() == tail);
            assert(t == seq![t[0]] + rest);
        }
    }
}

/// Whether a token has at least one alphanumeric character.
pub open spec fn has_alnum(t: Seq<char>) -> bool {
    exists|i: int| 0 <= i < t.len() && is_alnum(#[trigger] t[i])
}

/// The quoted searchable tokens among `ws`, in order.
pub open spec fn quoted_terms(ws: Seq<Seq<char>>) -> Seq<Seq<char>>
    decreases ws.len(),
{
    if ws.len() == 0 {
        seq![]
    } else if has_alnum(ws.last()) {
        quoted_terms(ws.drop_last()).push(quoted(ws.last()))
    } else {
        quoted_terms(ws.drop_last())
    }
}

/// The match expression for a query: its searchable tokens, each quoted,
/// joined by spaces (implicit AND); None when there is nothing to search.
pub open spec fn match_expr(query: Seq<char>) -> Option<Seq<char>> {
    let terms = quoted_terms(words(query));
    if terms.len() == 0 {
        None
    } else {
        Some(join_words(terms))
    }
}

fn quote_chars(t: &[char]) -> (r: Vec<char>)
    ensures
        r@ == quoted(t@),
{
    let mut r: Vec<char> = Vec::new();
    r.push('"');
    let mut i: usize = 0;
    while i < t.len()
        invariant
            i <= t@.len(),
            r@ == seq!['"'] + escape_quotes(t@.take(i as int)),
        decreases t@.len() - i,
    {
        assert(t@.take(i + 1).drop_last() == t@.take(i as int));
        assert(t@.take(i + 1).last() == t@[i as int]);
        if t[i] == '"' {
            r.push('"');
            r.push('"');
        } else {
            r.push(t[i]);
        }
        i = i + 1;
    }
    assert(t@.take(t@.len() as int) == t@);
    r.push('"');
    r
}

/// Quotes user input so FTS5 operators in it cannot change the query.
pub fn quote_term(term: &str) -> (r: String)
    ensures
        r@ == quoted(term@),
{
    let t = chars_of(term);
    let q = quote_chars(t.as_slice());
    string_of(q.as_slice())
}

fn token_has_alnum(t: &[char]) -> (r: bool)
    ensures
        r == has_alnum(t@),
{
    let mut i: usize = 0;
    while i < t.len()
        invariant
            i <= t@.len(),
            forall|k: int| 0 <= k < i ==> !is_alnum(#[trigger] t@[k]),
        decreases t@.len() - i,
    {
        if char_is_alphanumeric(t[i]) {
            return true;
        }
        i = i + 1;
    }
    false
}

/// Builds a syntax-safe match expression from raw user input: every
/// whitespace token with at least one alphanumeric character becomes one
/// quoted term. None when no term is left, so that callers answer "no
/// results" instead of matching everything.
pub fn to_match_expr(query: &str) -> (r: Option<String>)
    ensures
        r matches Some(e) ==> match_expr(query@) == Some(e@),
        r is None ==> match_expr(query@) is None,
{
    let q = chars_of(query);
    let ws = split_words(q.as_slice());
    let ghost wv = ws.deep_view();
    let mut terms: Vec<Vec<char>> = Vec::new();
    let mut i: usize = 0;
    assert(wv.take(0) =~= Seq::<Seq<char>>::empty());
    assert(terms.deep_view() =~= Seq::<Seq<char>>::empty());
    while i < ws.len()
        invariant
            i <= ws@.len(),
            wv == ws.deep_view(),
            terms.deep_view() == quoted_terms(wv.take(i as int)),
        decreases ws@.len() - i,
    {
        assert(wv.take(i + 1).drop_last() =~= wv.take(i as int));
        assert(wv.take(i + 1).last() == wv[i as int]);
        assert(ws[i as int].deep_view() =~= ws[i as int]@);
        if token_has_alnum(ws[i].as_slice()) {
            let qt = quote_chars(ws[i].as_slice());
            let ghost before = terms.deep_view();
            let ghost qv = qt@;
            assert(qt.deep_view() =~= qv);
            terms.push(qt);
            assert(terms.deep_view() =~= before.push(qv));
        }
        i = i + 1;
    }
    assert(wv.take(ws@.len() as int) =~= wv);
    if terms.len() == 0 {
        return None;
    }
    let joined = crate::text::join_words_from(&terms, 0);
    assert(terms.deep_view().skip(0) =~= terms.deep_view());
    Some(string_of(joined.as_slice()))
}

/// The limit a search applies: clamped to 1..=200.
pub fn clamp_limit(limit: i64) -> (r: i64)
    ensures
        r == (if limit < 1 {
            1
        } else if limit > 200 {
            200
        } else {
            limit
        }),
{
    if limit < 1 {
        1
    } else if limit > 200 {
        200
    } else {
        limit
    }
}

/// The offset a search applies: never negative.
pub fn clamp_offset(offset: i64) -> (r: i64)
    ensures
        r == (if offset < 0 {
            0
        } else {
            offset
        }),
{
    if offset < 0 {
        0
    } else {
        offset
    }
}

/// The indexed document of a note: its title, a space, its current content.
pub fn note_document(title: &str, content: &str) -> (r: String)
    ensures
        r@ == title@ + seq![' '] + content@,
{
    let mut out = chars_of(title);
    out.push(' ');
    let c = chars_of(content);
    crate::text::extend_chars(&mut out, c.as_slice());
    string_of(out.as_slice())
}

} // verus!
