//! Character-level text primitives shared by the transcript, snippet and
//! search logic: whitespace tokenisation, trimming, joining and the
//! Unicode character classes they rest on.

use vstd::prelude::*;

verus! {

/// Whether `c` has the Unicode `White_Space` property (what
/// `char::is_whitespace` and `str::trim` test): tab, line feed, vertical
/// tab, form feed, carriage return, space, next line, no-break space,
/// ogham space mark, the spaces from en quad to hair space, line and
/// paragraph separator, narrow no-break space, medium mathematical space
/// and ideographic space.
pub open spec fn is_white_space(c: char) -> bool {
    let u = c as u32;
    ||| 0x09 <= u <= 0x0D
    ||| u == 0x20
    ||| u == 0x85
    ||| u == 0xA0
    ||| u == 0x1680
    ||| 0x2000 <= u <= 0x200A
    ||| u == 0x2028
    ||| u == 0x2029
    ||| u == 0x202F
    ||| u == 0x205F
    ||| u == 0x3000
}

/// Whether `c` is Unicode alphabetic or numeric (what
/// `char::is_alphanumeric` tests).
pub uninterp spec fn is_alnum(c: char) -> bool;

/// The lowercase mapping of one character (what `char::to_lowercase`
/// yields), one to three characters long.
pub uninterp spec fn char_lower(c: char) -> Seq<char>;

/// The lowercase form of a whole string (what `str::to_lowercase` returns).
pub uninterp spec fn str_lower(s: Seq<char>) -> Seq<char>;

/// Whether `c` has the `White_Space` property: what `char::is_whitespace`
/// returns.
pub(crate) fn char_is_whitespace(c: char) -> (r: bool)
    ensures
        r == is_white_space(c),
{
    let u = c as u32;
    (0x09 <= u && u <= 0x0D) || u == 0x20 || u == 0x85 || u == 0xA0 || u == 0x1680 || (0x2000 <= u
        && u <= 0x200A) || u == 0x2028 || u == 0x2029 || u == 0x202F || u == 0x205F || u == 0x3000
}

/// `char::is_alphanumeric`: the result is the alphabetic-or-numeric class of `c`.
#[verifier::external_body]
pub(crate) fn char_is_alphanumeric(c: char) -> (r: bool)
    ensures
        r == is_alnum(c),
{
    c.is_alphanumeric()
}

/// `char::to_lowercase`, collected: the characters of the lowercase mapping of `c`.
#[verifier::external_body]
pub(crate) fn char_to_lowercase(c: char) -> (r: Vec<char>)
    ensures
        r@ == char_lower(c),
{
    c.to_lowercase().collect()
}

/// `str::to_lowercase`: the lowercase form of the whole string.
#[verifier::external_body]
pub(crate) fn str_to_lowercase(s: &str) -> (r: String)
    ensures
        r@ == str_lower(s@),
{
    s.to_lowercase()
}

/// `String::push`: appends one character.
#[verifier::external_body]
pub(crate) fn string_push(s: &mut String, c: char)
    ensures
        final(s)@ == old(s)@.push(c),
{
    s.push(c)
}

/// The characters of a string, in order.
pub fn chars_of(s: &str) -> (v: Vec<char>)
    ensures
        v@ == s@,
{
    let mut v: Vec<char> = Vec::new();
    for c in it: s.chars()
        invariant
            v@ == it.seq().take(it.index() as int),
            it.seq() == s@,
    {
        v.push(c);
    }
    v
}

/// A string holding exactly the given characters.
pub fn string_of(v: &[char]) -> (s: String)
    ensures
        s@ == v@,
{
    let mut s = String::new();
    let mut i: usize = 0;
    while i < v.len()
        invariant
            i <= v@.len(),
            s@ == v@.take(i as int),
        decreases v@.len() - i,
    {
        string_push(&mut s, v[i]);
        assert(v@.take(i as int + 1) == v@.take(i as int).push(v@[i as int]));
        i = i + 1;
    }
    assert(v@.take(v@.len() as int) == v@);
    s
}


// ---------------------------------------------------------------------
// Whitespace tokens (`str::split_whitespace`)
// ---------------------------------------------------------------------

/// Whitespace tokens of `s`, where `cur` is the token read so far: the
/// maximal runs of non-whitespace characters, in order, none empty.
pub open spec fn split_ws(s: Seq<char>, cur: Seq<char>) -> Seq<Seq<char>>
    decreases s.len(),
{
    if s.len() == 0 {
        if cur.len() == 0 {
            seq![]
        } else {
            seq![cur]
        }
    } else if is_white_space(s[0]) {
        if cur.len() == 0 {
            split_ws(s.drop_first(), seq![])
        } else {
            seq![cur] + split_ws(s.drop_first(), seq![])
        }
    } else {
        split_ws(s.drop_first(), cur.push(s[0]))
    }
}

/// The whitespace-separated words of `s` (what `str::split_whitespace` yields).
pub open spec fn words(s: Seq<char>) -> Seq<Seq<char>> {
    split_ws(s, seq![])
}

/// The words of `s`, as character vectors.
pub fn split_words(s: &[char]) -> (out: Vec<Vec<char>>)
    ensures
        out.deep_view() == words(s@),
{
    let mut out: Vec<Vec<char>> = Vec::new();
    let mut cur: Vec<char> = Vec::new();
    let mut i: usize = 0;
    assert(s@.skip(0) == s@);
    assert(out.deep_view() =~= Seq::<Seq<char>>::empty());
    assert(cur@ =~= Seq::<char>::empty());
    while i < s.len()
        invariant
            i <= s@.len(),
            words(s@) == out.deep_view() + split_ws(s@.skip(i as int), cur@),
        decreases s@.len() - i,
    {
        let c = s[i];
        let ghost rest = s@.skip(i as int);
        assert(rest[0] == c);
        assert(rest.drop_first() == s@.skip(i as int + 1));
        if char_is_whitespace(c) {
            if cur.len() > 0 {
                let ghost before = out.deep_view();
                let ghost token = cur@;
                assert(cur.deep_view() =~= token);
                out.push(cur);
                cur = Vec::new();
                assert(out.deep_view() =~= before.push(token));
                assert(cur@ =~= Seq::<char>::empty());
                assert(before + (seq![token] + split_ws(s@.skip(i as int + 1), seq![]))
                    == before.push(token) + split_ws(s@.skip(i as int + 1), seq![]));
            } else {
                assert(cur@ == Seq::<char>::empty());
            }
        } else {
            cur.push(c);
        }
        i = i + 1;
    }
    assert(s@.skip(i as int) == Seq::<char>::empty());
    if cur.len() > 0 {
        let ghost before = out.deep_view();
        let ghost token = cur@;
        assert(cur.deep_view() =~= token);
        out.push(cur);
        assert(out.deep_view() =~= before.push(token));
        assert(before + seq![token] == before.push(token));
    } else {
        assert(out.deep_view() + Seq::<Seq<char>>::empty() == out.deep_view());
    }
    out
}

// ---------------------------------------------------------------------
// Trimming (`str::trim`)
// ---------------------------------------------------------------------

/// `s` without its leading whitespace.
pub open spec fn trim_start(s: Seq<char>) -> Seq<char>
    decreases s.len(),
{
    if s.len() > 0 && is_white_space(s[0]) {
        trim_start(s.drop_first())
    } else {
        s
    }
}

/// `s` without its trailing whitespace.
pub open spec fn trim_end(s: Seq<char>) -> Seq<char>
    decreases s.len(),
{
    if s.len() > 0 && is_white_space(s.last()) {
        trim_end(s.drop_last())
    } else {
        s
    }
}

/// `s` without leading and trailing whitespace (what `str::trim` returns).
pub open spec fn trim(s: Seq<char>) -> Seq<char> {
    trim_end(trim_start(s))
}

/// Whether `s` holds only whitespace (possibly nothing).
pub open spec fn is_blank(s: Seq<char>) -> bool {
    forall|i: int| 0 <= i < s.len() ==> is_white_space(#[trigger] s[i])
}

proof fn lemma_trim_start_skip(s: Seq<char>, i: int)
    requires
        0 <= i <= s.len(),
        forall|j: int| 0 <= j < i ==> is_white_space(#[trigger] s[j]),
    ensures
        trim_start(s) == trim_start(s.skip(i)),
    decreases i,
{
    if i > 0 {
        assert(is_white_space(s[0]));
        assert(s.drop_first().skip(i - 1) == s.skip(i));
        lemma_trim_start_skip(s.drop_first(), i - 1);
    } else {
        assert(s.skip(0) == s);
    }
}

proof fn lemma_trim_end_take(s: Seq<char>, k: int)
    requires
        0 <= k <= s.len(),
        forall|j: int| k <= j < s.len() ==> is_white_space(#[trigger] s[j]),
    ensures
        trim_end(s) == trim_end(s.take(k)),
    decreases s.len() - k,
{
    if k < s.len() {
        assert(is_white_space(s.last()));
        assert(s.drop_last().take(k) == s.take(k));
        lemma_trim_end_take(s.drop_last(), k);
    } else {
        assert(s.take(k) == s);
    }
}

/// `s` without leading and trailing whitespace.
pub fn trim_chars(s: &[char]) -> (r: Vec<char>)
    ensures
        r@ == trim(s@),
{
    let mut start: usize = 0;
    while start < s.len() && char_is_whitespace(s[start])
        invariant
            start <= s@.len(),
            forall|j: int| 0 <= j < start ==> is_white_space(#[trigger] s@[j]),
        decreases s@.len() - start,
    {
        start = start + 1;
    }
    proof {
        lemma_trim_start_skip(s@, start as int);
        let t = s@.skip(start as int);
        if t.len() > 0 {
            assert(t[0] == s@[start as int]);
        }
        assert(trim_start(t) == t);
    }
    let mut end: usize = s.len();
    while end > start && char_is_whitespace(s[end - 1])
        invariant
            start <= end <= s@.len(),
            forall|j: int| end <= j < s@.len() ==> is_white_space(#[trigger] s@[j]),
        decreases end,
    {
        end = end - 1;
    }
    let ghost t = s@.skip(start as int);
    proof {
        assert forall|j: int| end - start <= j < t.len() implies is_white_space(#[trigger] t[j]) by {
            assert(t[j] == s@[j + start]);
        }
        lemma_trim_end_take(t, end - start);
        let u = t.take(end - start);
        if u.len() > 0 {
            assert(u.last() == s@[end - 1]);
        }
        assert(trim_end(u) == u);
    }
    let mut r: Vec<char> = Vec::new();
    let mut i: usize = start;
    while i < end
        invariant
            start <= i <= end <= s@.len(),
            r@ == s@.subrange(start as int, i as int),
        decreases end - i,
    {
        r.push(s[i]);
        assert(s@.subrange(start as int, i + 1) == s@.subrange(start as int, i as int).push(s@[i as int]));
        i = i + 1;
    }
    assert(r@ == t.take(end - start));
    r
}

/// Whether `s` holds only whitespace (what `s.trim().is_empty()` tests).
pub fn blank_chars(s: &[char]) -> (r: bool)
    ensures
        r == is_blank(s@),
{
    let mut i: usize = 0;
    while i < s.len()
        invariant
            i <= s@.len(),
            forall|j: int| 0 <= j < i ==> is_white_space(#[trigger] s@[j]),
        decreases s@.len() - i,
    {
        if !char_is_whitespace(s[i]) {
            return false;
        }
        i = i + 1;
    }
    true
}

// ---------------------------------------------------------------------
// Joining words with single spaces (`[&str]::join(" ")`)
// ---------------------------------------------------------------------

/// The words joined by single spaces.
pub open spec fn join_words(ws: Seq<Seq<char>>) -> Seq<char>
    decreases ws.len(),
{
    if ws.len() == 0 {
        seq![]
    } else if ws.len() == 1 {
        ws[0]
    } else {
        join_words(ws.drop_last()) + seq![' '] + ws.last()
    }
}

/// Appends `b` to `out`.
pub fn extend_chars(out: &mut Vec<char>, b: &[char])
    ensures
        final(out)@ == old(out)@ + b@,
{
    let mut i: usize = 0;
    while i < b.len()
        invariant
            i <= b@.len(),
            out@ == old(out)@ + b@.take(i as int),
        decreases b@.len() - i,
    {
        out.push(b[i]);
        assert(b@.take(i as int + 1) == b@.take(i as int).push(b@[i as int]));
        i = i + 1;
    }
    assert(b@.take(b@.len() as int) == b@);
}

/// The words `ws[from..]` joined by single spaces.
pub fn join_words_from(ws: &Vec<Vec<char>>, from: usize) -> (r: Vec<char>)
    requires
        from <= ws@.len(),
    ensures
        r@ == join_words(ws.deep_view().skip(from as int)),
{
    let mut r: Vec<char> = Vec::new();
    let mut i: usize = from;
    while i < ws.len()
        invariant
            from <= i <= ws@.len(),
            r@ == join_words(ws.deep_view().subrange(from as int, i as int)),
        decreases ws@.len() - i,
    {
        let ghost prefix = ws.deep_view().subrange(from as int, i as int);
        let ghost next = ws.deep_view().subrange(from as int, i + 1);
        assert(next.drop_last() == prefix);
        assert(next.last() == ws[i as int]@);
        if i > from {
            r.push(' ');
        }
        extend_chars(&mut r, ws[i].as_slice());
        i = i + 1;
    }
    assert(ws.deep_view().subrange(from as int, ws@.len() as int) == ws.deep_view().skip(from as int));
    r
}


// ---------------------------------------------------------------------
// Splitting at and joining with one separator (`str::split`, `join`)
// ---------------------------------------------------------------------

/// The pieces of `s` between occurrences of `c`, where `cur` is the piece
/// read so far.
pub open spec fn split_acc(s: Seq<char>, c: char, cur: Seq<char>) -> Seq<Seq<char>>
    decreases s.len(),
{
    if s.len() == 0 {
        seq![cur]
    } else if s[0] == c {
        seq![cur] + split_acc(s.drop_first(), c, seq![])
    } else {
        split_acc(s.drop_first(), c, cur.push(s[0]))
    }
}

/// The pieces of `s` between occurrences of `c` (what `str::split` with a
/// character yields): one more piece than there are separators, possibly
/// empty ones.
pub open spec fn split_on(s: Seq<char>, c: char) -> Seq<Seq<char>> {
    split_acc(s, c, seq![])
}

/// The pieces joined with `c` between them.
pub open spec fn join_sep(ws: Seq<Seq<char>>, c: char) -> Seq<char>
    decreases ws.len(),
{
    if ws.len() == 0 {
        seq![]
    } else if ws.len() == 1 {
        ws[0]
    } else {
        join_sep(ws.drop_last(), c) + seq![c] + ws.last()
    }
}

/// Whether `c` occurs in `s`.
pub open spec fn has_char(s: Seq<char>, c: char) -> bool {
    exists|i: int| 0 <= i < s.len() && s[i] == c
}

/// The pieces of `s`, as character vectors.
pub fn split_chars(s: &[char], c: char) -> (out: Vec<Vec<char>>)
    ensures
        out.deep_view() == split_on(s@, c),
        out@.len() > 0,
{
    proof {
        lemma_split_nonempty(s@, c, seq![]);
    }
    let mut out: Vec<Vec<char>> = Vec::new();
    let mut cur: Vec<char> = Vec::new();
    let mut i: usize = 0;
    assert(s@.skip(0) == s@);
    assert(out.deep_view() =~= Seq::<Seq<char>>::empty());
    assert(cur@ =~= Seq::<char>::empty());
    while i < s.len()
        invariant
            i <= s@.len(),
            split_on(s@, c) == out.deep_view() + split_acc(s@.skip(i as int), c, cur@),
        decreases s@.len() - i,
    {
        let x = s[i];
        let ghost rest = s@.skip(i as int);
        assert(rest[0] == x);
        assert(rest.drop_first() == s@.skip(i as int + 1));
        if x == c {
            let ghost before = out.deep_view();
            let ghost piece = cur@;
            assert(cur.deep_view() =~= piece);
            out.push(cur);
            cur = Vec::new();
            assert(out.deep_view() =~= before.push(piece));
            assert(cur@ =~= Seq::<char>::empty());
            assert(before + (seq![piece] + split_acc(s@.skip(i as int + 1), c, seq![]))
                == before.push(piece) + split_acc(s@.skip(i as int + 1), c, seq![]));
        } else {
            cur.push(x);
        }
        i = i + 1;
    }
    assert(s@.skip(i as int) == Seq::<char>::empty());
    let ghost before = out.deep_view();
    let ghost piece = cur@;
    assert(cur.deep_view() =~= piece);
    out.push(cur);
    assert(out.deep_view() =~= before.push(piece));
    assert(before + seq![piece] == before.push(piece));
    out
}

/// The first piece is everything before the first separator.
pub proof fn lemma_split_prefix(s: Seq<char>, c: char, k: int)
    requires
        0 <= k <= s.len(),
        forall|j: int| 0 <= j < k ==> s[j] != c,
        k < s.len() ==> s[k] == c,
    ensures
        split_on(s, c)[0] == s.take(k),
        split_on(s, c).len() > 1 <==> k < s.len(),
{
    lemma_split_prefix_acc(s, c, k, seq![]);
    assert(seq![] + s.take(k) == s.take(k));
}

proof fn lemma_split_prefix_acc(s: Seq<char>, c: char, k: int, cur: Seq<char>)
    requires
        0 <= k <= s.len(),
        forall|j: int| 0 <= j < k ==> s[j] != c,
        k < s.len() ==> s[k] == c,
    ensures
        split_acc(s, c, cur)[0] == cur + s.take(k),
        split_acc(s, c, cur).len() > 1 <==> k < s.len(),
    decreases s.len(),
{
    if s.len() == 0 {
        assert(cur + s.take(k) == cur);
    } else if k == 0 {
        assert(s[0] == c);
        lemma_split_nonempty(s.drop_first(), c, seq![]);
        assert(cur + s.take(0) == cur);
    } else {
        assert(s[0] != c);
        let t = s.drop_first();
        assert forall|j: int| 0 <= j < k - 1 implies t[j] != c by {
            assert(t[j] == s[j + 1]);
        }
        if k < s.len() {
            assert(t[k - 1] == s[k]);
        }
        lemma_split_prefix_acc(t, c, k - 1, cur.push(s[0]));
        assert(cur.push(s[0]) + t.take(k - 1) == cur + s.take(k));
    }
}

/// Splitting always yields at least one piece.
pub proof fn lemma_split_nonempty(s: Seq<char>, c: char, cur: Seq<char>)
    ensures
        split_acc(s, c, cur).len() > 0,
    decreases s.len(),
{
    if s.len() > 0 {
        if s[0] == c {
            lemma_split_nonempty(s.drop_first(), c, seq![]);
        } else {
            lemma_split_nonempty(s.drop_first(), c, cur.push(s[0]));
        }
    }
}

/// The strings joined with `c` between them.
pub fn join_strings(ws: &Vec<String>, c: char) -> (r: Vec<char>)
    ensures
        r@ == join_sep(ws.deep_view(), c),
{
    let mut r: Vec<char> = Vec::new();
    let mut i: usize = 0;
    assert(ws.deep_view().take(0) =~= Seq::<Seq<char>>::empty());
    while i < ws.len()
        invariant
            i <= ws@.len(),
            r@ == join_sep(ws.deep_view().take(i as int), c),
        decreases ws@.len() - i,
    {
        let ghost prefix = ws.deep_view().take(i as int);
        let ghost next = ws.deep_view().take(i + 1);
        assert(next.drop_last() == prefix);
        assert(next.last() == ws[i as int]@);
        if i > 0 {
            r.push(c);
        }
        let w = chars_of(ws[i].as_str());
        extend_chars(&mut r, w.as_slice());
        i = i + 1;
    }
    assert(ws.deep_view().take(ws@.len() as int) == ws.deep_view());
    r
}

/// A piece free of the separator splits to itself.
pub proof fn lemma_split_without_sep(s: Seq<char>, c: char, cur: Seq<char>)
    requires
        !has_char(s, c),
    ensures
        split_acc(s, c, cur) == seq![cur + s],
    decreases s.len(),
{
    if s.len() == 0 {
        assert(cur + s == cur);
    } else {
        assert(s[0] != c);
        assert(!has_char(s.drop_first(), c)) by {
            if has_char(s.drop_first(), c) {
                let i = choose|i: int| 0 <= i < s.drop_first().len() && s.drop_first()[i] == c;
                assert(s[i + 1] == c);
            }
        }
        lemma_split_without_sep(s.drop_first(), c, cur.push(s[0]));
        assert(cur.push(s[0]) + s.drop_first() == cur + s);
    }
}

/// Splitting at a separator splits the two sides independently.
pub proof fn lemma_split_at_sep(x: Seq<char>, y: Seq<char>, c: char, cur: Seq<char>)
    ensures
        split_acc(x + seq![c] + y, c, cur) == split_acc(x, c, cur) + split_acc(y, c, seq![]),
    decreases x.len(),
{
    let s = x + seq![c] + y;
    if x.len() == 0 {
        assert(s[0] == c);
        assert(s.drop_first() == y);
    } else {
        assert(s[0] == x[0]);
        assert(s.drop_first() == x.drop_first() + seq![c] + y);
        if x[0] == c {
            lemma_split_at_sep(x.drop_first(), y, c, seq![]);
            assert(seq![cur] + (split_acc(x.drop_first(), c, seq![]) + split_acc(y, c, seq![]))
                == (seq![cur] + split_acc(x.drop_first(), c, seq![])) + split_acc(y, c, seq![]));
        } else {
            lemma_split_at_sep(x.drop_first(), y, c, cur.push(x[0]));
        }
    }
}

/// Joining pieces free of the separator, then splitting, gives the pieces
/// back (for at least one piece: nothing joins to one empty piece).
pub proof fn lemma_split_join(ws: Seq<Seq<char>>, c: char)
    requires
        ws.len() > 0,
        forall|i: int| 0 <= i < ws.len() ==> !has_char(#[trigger] ws[i], c),
    ensures
        split_on(join_sep(ws, c), c) == ws,
    decreases ws.len(),
{
    if ws.len() == 1 {
        lemma_split_without_sep(ws[0], c, seq![]);
        assert(seq![] + ws[0] == ws[0]);
        assert(ws == seq![ws[0]]);
    } else {
        let init = ws.drop_last();
        assert forall|i: int| 0 <= i < init.len() implies !has_char(#[trigger] init[i], c) by {
            assert(init[i] == ws[i]);
        }
        lemma_split_join(init, c);
        lemma_split_at_sep(join_sep(init, c), ws.last(), c, seq![]);
        assert(!has_char(ws[ws.len() - 1], c));
        lemma_split_without_sep(ws.last(), c, seq![]);
        assert(seq![] + ws.last() == ws.last());
        assert(init + seq![ws.last()] == ws);
    }
}

/// The pieces trimmed, the empty ones dropped, in order.
pub open spec fn kept_trimmed(ps: Seq<Seq<char>>) -> Seq<Seq<char>>
    decreases ps.len(),
{
    if ps.len() == 0 {
        seq![]
    } else if trim(ps.last()).len() > 0 {
        kept_trimmed(ps.drop_last()).push(trim(ps.last()))
    } else {
        kept_trimmed(ps.drop_last())
    }
}

/// The pieces trimmed, the empty ones dropped, in order, as strings.
pub fn keep_trimmed(ps: &Vec<Vec<char>>) -> (r: Vec<String>)
    ensures
        r.deep_view() == kept_trimmed(ps.deep_view()),
{
    let mut r: Vec<String> = Vec::new();
    let mut i: usize = 0;
    assert(ps.deep_view().take(0) =~= Seq::<Seq<char>>::empty());
    assert(r.deep_view() =~= Seq::<Seq<char>>::empty());
    while i < ps.len()
        invariant
            i <= ps@.len(),
            r.deep_view() == kept_trimmed(ps.deep_view().take(i as int)),
        decreases ps@.len() - i,
    {
        let t = trim_chars(ps[i].as_slice());
        let ghost next = ps.deep_view().take(i + 1);
        assert(next.drop_last() == ps.deep_view().take(i as int));
        assert(next.last() == ps[i as int]@);
        if t.len() > 0 {
            let ghost before = r.deep_view();
            let s = string_of(t.as_slice());
            r.push(s);
            assert(r.deep_view() =~= before.push(t@));
        }
        i = i + 1;
    }
    assert(ps.deep_view().take(ps@.len() as int) == ps.deep_view());
    r
}

/// A text with no whitespace at either end trims to itself.
pub proof fn lemma_trim_unchanged(s: Seq<char>)
    requires
        s.len() > 0,
        !is_white_space(s[0]),
        !is_white_space(s.last()),
    ensures
        trim(s) == s,
{
    assert(trim_start(s) == s);
    assert(trim_end(s) == s);
}

/// Pieces that are already trimmed and non-empty are all kept, unchanged.
pub proof fn lemma_kept_trimmed_unchanged(ps: Seq<Seq<char>>)
    requires
        forall|i: int| 0 <= i < ps.len() ==> (#[trigger] ps[i]).len() > 0 && trim(ps[i]) == ps[i],
    ensures
        kept_trimmed(ps) == ps,
    decreases ps.len(),
{
    if ps.len() > 0 {
        let init = ps.drop_last();
        assert forall|i: int| 0 <= i < init.len() implies (#[trigger] init[i]).len() > 0 && trim(
            init[i],
        ) == init[i] by {
            assert(init[i] == ps[i]);
        }
        lemma_kept_trimmed_unchanged(init);
        assert(ps[ps.len() - 1].len() > 0);
        assert(init.push(ps.last()) == ps);
    }
}

// ---------------------------------------------------------------------
// Lexicographic order of strings (by code point, as `str` compares)
// ---------------------------------------------------------------------

/// Whether `a` comes strictly before `b`: at the first difference `a` has
/// the smaller code point, or `a` is a proper prefix of `b`.
pub open spec fn chars_lt(a: Seq<char>, b: Seq<char>) -> bool
    decreases a.len(),
{
    if b.len() == 0 {
        false
    } else if a.len() == 0 {
        true
    } else if a[0] != b[0] {
        (a[0] as int) < (b[0] as int)
    } else {
        chars_lt(a.drop_first(), b.drop_first())
    }
}

/// No text comes strictly before itself.
pub proof fn lemma_chars_lt_irreflexive(a: Seq<char>)
    ensures
        !chars_lt(a, a),
    decreases a.len(),
{
    if a.len() > 0 {
        lemma_chars_lt_irreflexive(a.drop_first());
    }
}

/// Coming strictly before is transitive.
pub proof fn lemma_chars_lt_transitive(a: Seq<char>, b: Seq<char>, c: Seq<char>)
    requires
        chars_lt(a, b),
        chars_lt(b, c),
    ensures
        chars_lt(a, c),
    decreases a.len(),
{
    if a.len() > 0 && b.len() > 0 && c.len() > 0 && a[0] == b[0] && b[0] == c[0] {
        lemma_chars_lt_transitive(a.drop_first(), b.drop_first(), c.drop_first());
    }
}

/// Of two different texts, one comes strictly before the other.
pub proof fn lemma_chars_lt_total(a: Seq<char>, b: Seq<char>)
    requires
        a != b,
    ensures
        chars_lt(a, b) || chars_lt(b, a),
    decreases a.len(),
{
    if a.len() == 0 {
        if b.len() == 0 {
            assert(a =~= b);
        }
    } else if b.len() == 0 {
    } else if a[0] != b[0] {
        let x = a[0];
        let y = b[0];
        assert(x as int != y as int);
    } else {
        if a.drop_first() == b.drop_first() {
            assert(a == seq![a[0]] + a.drop_first());
            assert(b == seq![b[0]] + b.drop_first());
        }
        lemma_chars_lt_total(a.drop_first(), b.drop_first());
    }
}

/// Whether `a` comes strictly before `b`.
pub fn chars_less(a: &[char], b: &[char]) -> (r: bool)
    ensures
        r == chars_lt(a@, b@),
{
    let mut i: usize = 0;
    assert(a@.skip(0) == a@);
    assert(b@.skip(0) == b@);
    while i < a.len() && i < b.len()
        invariant
            i <= a@.len(),
            i <= b@.len(),
            chars_lt(a@, b@) == chars_lt(a@.skip(i as int), b@.skip(i as int)),
        decreases a@.len() - i,
    {
        let x = a[i];
        let y = b[i];
        let ghost sa = a@.skip(i as int);
        let ghost sb = b@.skip(i as int);
        assert(sa[0] == x && sb[0] == y);
        if x != y {
            return x < y;
        }
        assert(sa.drop_first() == a@.skip(i as int + 1));
        assert(sb.drop_first() == b@.skip(i as int + 1));
        i = i + 1;
    }
    i < b.len()
}

// ---------------------------------------------------------------------
// Decimal integers (`i64::to_string`, `str::parse::<i64>`)
// ---------------------------------------------------------------------

/// The ASCII digit for `d` (0..=9).
pub open spec fn digit_char(d: int) -> char {
    ((d + 48) as u8) as char
}

/// The decimal digits of `n`, most significant first, without leading zeros.
pub open spec fn digits_of(n: nat) -> Seq<char>
    decreases n,
{
    if n < 10 {
        seq![digit_char(n as int)]
    } else {
        digits_of(n / 10).push(digit_char((n % 10) as int))
    }
}

/// The decimal form of `v`: a minus sign for negative values, then its digits.
pub open spec fn decimal(v: int) -> Seq<char> {
    if v < 0 {
        seq!['-'] + digits_of((-v) as nat)
    } else {
        digits_of(v as nat)
    }
}

/// Whether `c` is an ASCII digit.
pub open spec fn is_digit(c: char) -> bool {
    '0' <= c <= '9'
}

/// The value of an ASCII digit.
pub open spec fn digit_value(c: char) -> int {
    (c as int) - 48
}

/// The value of a string of ASCII digits.
pub open spec fn digits_value(s: Seq<char>) -> int
    decreases s.len(),
{
    if s.len() == 0 {
        0
    } else {
        digits_value(s.drop_last()) * 10 + digit_value(s.last())
    }
}

/// Whether every character of `s` is an ASCII digit.
pub open spec fn all_digits(s: Seq<char>) -> bool {
    forall|i: int| 0 <= i < s.len() ==> is_digit(#[trigger] s[i])
}

/// `s` without a leading sign.
pub open spec fn unsigned_part(s: Seq<char>) -> Seq<char> {
    if s.len() > 0 && (s[0] == '-' || s[0] == '+') {
        s.drop_first()
    } else {
        s
    }
}

/// What `str::parse::<i64>` accepts: an optional `+` or `-`, then one or
/// more ASCII digits whose value fits in an `i64`.
pub open spec fn parse_i64_spec(s: Seq<char>) -> Option<i64> {
    let neg = s.len() > 0 && s[0] == '-';
    let body = unsigned_part(s);
    if body.len() == 0 || !all_digits(body) {
        None
    } else {
        let v = if neg {
            -digits_value(body)
        } else {
            digits_value(body)
        };
        if i64::MIN <= v <= i64::MAX {
            Some(v as i64)
        } else {
            None
        }
    }
}

/// The decimal digits of `n`.
pub fn digits_exec(n: u64) -> (r: Vec<char>)
    ensures
        r@ == digits_of(n as nat),
    decreases n,
{
    let d = (n % 10) as u8;
    let c = (d + 48) as char;
    if n < 10 {
        let mut v: Vec<char> = Vec::new();
        v.push(c);
        v
    } else {
        let mut v = digits_exec(n / 10);
        v.push(c);
        v
    }
}

/// The decimal form of `v`.
pub fn decimal_chars(v: i64) -> (r: Vec<char>)
    ensures
        r@ == decimal(v as int),
{
    if v < 0 {
        let m: u64 = if v == i64::MIN {
            9_223_372_036_854_775_808u64
        } else {
            (-v) as u64
        };
        let mut r: Vec<char> = Vec::new();
        r.push('-');
        let d = digits_exec(m);
        extend_chars(&mut r, d.as_slice());
        r
    } else {
        digits_exec(v as u64)
    }
}

/// Parses a decimal `i64` exactly as `str::parse::<i64>` does.
pub fn parse_i64(s: &[char]) -> (r: Option<i64>)
    ensures
        r == parse_i64_spec(s@),
{
    let neg = s.len() > 0 && s[0] == '-';
    let start: usize = if s.len() > 0 && (s[0] == '-' || s[0] == '+') {
        1
    } else {
        0
    };
    let ghost body = unsigned_part(s@);
    assert(body == s@.skip(start as int));
    if start == s.len() {
        assert(body.len() == 0);
        return None;
    }
    let cap: u128 = 18_446_744_073_709_551_616u128;
    let mut mag: u128 = 0;
    let mut i: usize = start;
    while i < s.len()
        invariant
            start <= i <= s@.len(),
            body == s@.skip(start as int),
            body == unsigned_part(s@),
            neg == (s@.len() > 0 && s@[0] == '-'),
            cap == 18_446_744_073_709_551_616u128,
            forall|k: int| 0 <= k < i - start ==> is_digit(#[trigger] body[k]),
            mag == (if digits_value(body.take(i - start)) < cap {
                digits_value(body.take(i - start))
            } else {
                cap as int
            }),
            digits_value(body.take(i - start)) >= 0,
        decreases s@.len() - i,
    {
        let c = s[i];
        assert(body[i - start] == s@[i as int]);
        if !('0' <= c && c <= '9') {
            assert(!is_digit(body[i - start]));
            assert(!all_digits(body));
            assert(body == unsigned_part(s@));
            assert(unsigned_part(s@).len() > 0);
            assert(!all_digits(unsigned_part(s@)));
            assert(parse_i64_spec(s@) is None);
            return None;
        }
        let ghost prefix = body.take(i - start);
        let ghost next = body.take(i - start + 1);
        assert(next.drop_last() == prefix);
        assert(next.last() == c);
        let d = (c as u32 - 48) as u128;
        let grown = mag * 10 + d;
        mag = if grown < cap {
            grown
        } else {
            cap
        };
        i = i + 1;
    }
    assert(body.take(body.len() as int) == body);
    if neg {
        if mag <= 9_223_372_036_854_775_808u128 {
            if mag == 9_223_372_036_854_775_808u128 {
                Some(i64::MIN)
            } else {
                Some(-(mag as i64))
            }
        } else {
            None
        }
    } else {
        if mag <= 9_223_372_036_854_775_807u128 {
            Some(mag as i64)
        } else {
            None
        }
    }
}

proof fn lemma_digit_char(d: nat)
    requires
        d < 10,
    ensures
        digit_value(digit_char(d as int)) == d,
        is_digit(digit_char(d as int)),
        digit_char(d as int) != ':',
{
    assert(((d + 48) as u8) as int == d + 48);
}

proof fn lemma_digits_of_are_digits(n: nat)
    ensures
        forall|i: int| 0 <= i < digits_of(n).len() ==> is_digit(#[trigger] digits_of(n)[i]),
        digits_of(n).len() > 0,
        digits_value(digits_of(n)) == n,
    decreases n,
{
    lemma_digit_char(n % 10);
    if n >= 10 {
        lemma_digits_of_are_digits(n / 10);
        let d = digits_of(n / 10).push(digit_char((n % 10) as int));
        assert(digits_of(n) == d);
        assert(d.drop_last() == digits_of(n / 10));
        assert(d.last() == digit_char((n % 10) as int));
        assert(digits_value(d) == digits_value(digits_of(n / 10)) * 10 + digit_value(d.last()));
        assert(digits_value(d) == (n / 10) * 10 + n % 10);
        assert(n == (n / 10) * 10 + n % 10) by (nonlinear_arith);
        assert forall|i: int| 0 <= i < d.len() implies is_digit(#[trigger] d[i]) by {
            if i < d.len() - 1 {
                assert(d[i] == digits_of(n / 10)[i]);
            }
        }
    } else {
        let d = seq![digit_char(n as int)];
        lemma_digit_char(n);
        assert(digits_of(n) == d);
        assert(d.drop_last() =~= Seq::<char>::empty());
        assert(digits_value(d.drop_last()) == 0);
        assert(digits_value(d) == digit_value(d.last()));
    }
}

/// Decimal forms parse back to the value they were made from.
pub proof fn law_decimal_parses_back(v: i64)
    ensures
        parse_i64_spec(decimal(v as int)) == Some(v),
        forall|i: int| 0 <= i < decimal(v as int).len() ==> (#[trigger] decimal(v as int)[i]) != ':',
{
    let m: nat = if v < 0 {
        (-v) as nat
    } else {
        v as nat
    };
    lemma_digits_of_are_digits(m);
    let s = decimal(v as int);
    if v < 0 {
        assert(s.drop_first() == digits_of(m));
        assert forall|i: int| 0 <= i < s.len() implies (#[trigger] s[i]) != ':' by {
            if i > 0 {
                assert(s[i] == digits_of(m)[i - 1]);
                assert(is_digit(digits_of(m)[i - 1]));
            }
        }
    } else {
        assert forall|i: int| 0 <= i < s.len() implies (#[trigger] s[i]) != ':' by {
            assert(is_digit(digits_of(m)[i]));
        }
        assert(is_digit(s[0]));
    }
}

} // verus!
