//! The dictionary's text exchange format: one entry per line,
//! `term;alias1|alias2`, read back by the import and written by the export.

use vstd::prelude::*;

use crate::storage::repositories::dictionary::{DictionaryEntry, NewDictionaryEntry};
use crate::text::{
    chars_of, extend_chars, has_char, is_white_space, join_sep, join_strings, keep_trimmed,
    kept_trimmed, lemma_kept_trimmed_unchanged, lemma_split_at_sep, lemma_split_join,
    lemma_split_without_sep, lemma_trim_unchanged, split_chars, split_on, string_of, trim,
    trim_chars,
};

verus! {

/// The term and aliases an imported line names, if it names an entry: a
/// blank line, a `#` comment or a line with a blank term names none. The
/// term is the trimmed text before the first `;`; the aliases are the
/// trimmed, non-empty `|`-separated pieces between the first and second `;`.
pub open spec fn csv_entry(line: Seq<char>) -> Option<(Seq<char>, Seq<Seq<char>>)> {
    let l = trim(line);
    if l.len() == 0 || l[0] == '#' {
        None
    } else {
        let parts = split_on(l, ';');
        let term = trim(parts[0]);
        if term.len() == 0 {
            None
        } else if parts.len() > 1 {
            Some((term, kept_trimmed(split_on(parts[1], '|'))))
        } else {
            Some((term, seq![]))
        }
    }
}

/// The entries named by the lines, in order.
pub open spec fn csv_entries(lines: Seq<Seq<char>>) -> Seq<(Seq<char>, Seq<Seq<char>>)>
    decreases lines.len(),
{
    if lines.len() == 0 {
        seq![]
    } else {
        match csv_entry(lines.last()) {
            Some(e) => csv_entries(lines.drop_last()).push(e),
            None => csv_entries(lines.drop_last()),
        }
    }
}

/// The entries an imported text names, line by line.
pub open spec fn parsed_csv(csv: Seq<char>) -> Seq<(Seq<char>, Seq<Seq<char>>)> {
    csv_entries(split_on(csv, '\n'))
}

/// The term and aliases of an entry to write.
pub open spec fn new_entry_view(e: NewDictionaryEntry) -> (Seq<char>, Seq<Seq<char>>) {
    (e.term@, e.aliases.deep_view())
}

/// The term and aliases of a stored entry.
pub open spec fn entry_view(e: DictionaryEntry) -> (Seq<char>, Seq<Seq<char>>) {
    (e.term@, e.aliases.deep_view())
}

/// The entry one line names, enabled.
fn parse_line(line: &[char]) -> (r: Option<NewDictionaryEntry>)
    ensures
        r matches Some(e) ==> csv_entry(line@) == Some(new_entry_view(e)) && e.enabled,
        r is None ==> csv_entry(line@) is None,
{
    let l = trim_chars(line);
    if l.len() == 0 || l[0] == '#' {
        return None;
    }
    let parts = split_chars(l.as_slice(), ';');
    assert(parts.deep_view()[0] == parts@[0]@);
    let term = trim_chars(parts[0].as_slice());
    if term.len() == 0 {
        return None;
    }
    let aliases = if parts.len() > 1 {
        assert(parts.deep_view()[1] == parts@[1]@);
        let pieces = split_chars(parts[1].as_slice(), '|');
        keep_trimmed(&pieces)
    } else {
        let v: Vec<String> = Vec::new();
        assert(v.deep_view() =~= Seq::<Seq<char>>::empty());
        v
    };
    Some(NewDictionaryEntry { term: string_of(term.as_slice()), aliases, enabled: true })
}

/// The entries an imported text names, in order, each enabled. The import
/// upserts each; their number is what it reports.
pub fn parse_dictionary_csv(csv: &str) -> (r: Vec<NewDictionaryEntry>)
    ensures
        r@.map_values(|e: NewDictionaryEntry| new_entry_view(e)) == parsed_csv(csv@),
        forall|i: int| 0 <= i < r@.len() ==> (#[trigger] r@[i]).enabled,
{
    let chars = chars_of(csv);
    let lines = split_chars(chars.as_slice(), '\n');
    let mut r: Vec<NewDictionaryEntry> = Vec::new();
    let mut i: usize = 0;
    assert(lines.deep_view().take(0) =~= Seq::<Seq<char>>::empty());
    assert(r@.map_values(|e: NewDictionaryEntry| new_entry_view(e)) =~= Seq::<
        (Seq<char>, Seq<Seq<char>>),
    >::empty());
    while i < lines.len()
        invariant
            i <= lines@.len(),
            r@.map_values(|e: NewDictionaryEntry| new_entry_view(e)) == csv_entries(
                lines.deep_view().take(i as int),
            ),
            forall|k: int| 0 <= k < r@.len() ==> (#[trigger] r@[k]).enabled,
        decreases lines@.len() - i,
    {
        let ghost next = lines.deep_view().take(i + 1);
        assert(next.drop_last() == lines.deep_view().take(i as int));
        assert(next.last() == lines[i as int]@);
        match parse_line(lines[i].as_slice()) {
            Some(e) => {
                let ghost before = r@;
                r.push(e);
                assert(r@.map_values(|e: NewDictionaryEntry| new_entry_view(e)) =~= before.map_values(
                    |e: NewDictionaryEntry| new_entry_view(e),
                ).push(new_entry_view(e)));
            },
            None => {},
        }
        i = i + 1;
    }
    assert(lines.deep_view().take(lines@.len() as int) == lines.deep_view());
    r
}

/// The line an entry is written as: `term`, or `term;alias1|alias2` when
/// the aliases join to something.
pub open spec fn export_line(term: Seq<char>, aliases: Seq<Seq<char>>) -> Seq<char> {
    let a = join_sep(aliases, '|');
    if a.len() == 0 {
        term
    } else {
        term + seq![';'] + a
    }
}

/// The lines the entries are written as, in order.
pub open spec fn export_lines(es: Seq<(Seq<char>, Seq<Seq<char>>)>) -> Seq<Seq<char>> {
    es.map_values(|e: (Seq<char>, Seq<Seq<char>>)| export_line(e.0, e.1))
}

/// The exported text: one line per entry, in the given order.
pub open spec fn exported_csv(es: Seq<(Seq<char>, Seq<Seq<char>>)>) -> Seq<char> {
    join_sep(export_lines(es), '\n')
}

/// The entries as exported text, one `term;alias1|alias2` line each.
pub fn export_dictionary_csv(entries: &Vec<DictionaryEntry>) -> (r: String)
    ensures
        r@ == exported_csv(entries@.map_values(|e: DictionaryEntry| entry_view(e))),
{
    let ghost es = entries@.map_values(|e: DictionaryEntry| entry_view(e));
    let mut out: Vec<char> = Vec::new();
    let mut i: usize = 0;
    assert(export_lines(es).take(0) =~= Seq::<Seq<char>>::empty());
    while i < entries.len()
        invariant
            i <= entries@.len(),
            es == entries@.map_values(|e: DictionaryEntry| entry_view(e)),
            out@ == join_sep(export_lines(es).take(i as int), '\n'),
        decreases entries@.len() - i,
    {
        let e = &entries[i];
        let a = join_strings(&e.aliases, '|');
        let term = chars_of(e.term.as_str());
        let mut line = term;
        if a.len() > 0 {
            line.push(';');
            extend_chars(&mut line, a.as_slice());
        }
        let ghost next = export_lines(es).take(i + 1);
        assert(next.drop_last() == export_lines(es).take(i as int));
        assert(es[i as int] == entry_view(entries@[i as int]));
        assert(next.last() == line@);
        if i > 0 {
            out.push('\n');
        }
        extend_chars(&mut out, line.as_slice());
        i = i + 1;
    }
    assert(export_lines(es).take(entries@.len() as int) == export_lines(es));
    string_of(out.as_slice())
}

// ---------------------------------------------------------------------
// What the export writes, the import reads back
// ---------------------------------------------------------------------

/// An entry the text format carries unchanged: a non-empty term with no
/// whitespace at its ends, not starting with `#`, without `;` or a line
/// break; aliases likewise non-empty and unpadded, without `;`, `|` or a
/// line break.
pub open spec fn exchangeable(e: (Seq<char>, Seq<Seq<char>>)) -> bool {
    &&& e.0.len() > 0
    &&& !is_white_space(e.0[0])
    &&& !is_white_space(e.0.last())
    &&& e.0[0] != '#'
    &&& !has_char(e.0, ';')
    &&& !has_char(e.0, '\n')
    &&& forall|j: int|
        0 <= j < e.1.len() ==> {
            &&& (#[trigger] e.1[j]).len() > 0
            &&& !is_white_space(e.1[j][0])
            &&& !is_white_space(e.1[j].last())
            &&& !has_char(e.1[j], ';')
            &&& !has_char(e.1[j], '|')
            &&& !has_char(e.1[j], '\n')
        }
}

proof fn lemma_join_without(ws: Seq<Seq<char>>, sep: char, x: char)
    requires
        sep != x,
        forall|i: int| 0 <= i < ws.len() ==> !has_char(#[trigger] ws[i], x),
    ensures
        !has_char(join_sep(ws, sep), x),
    decreases ws.len(),
{
    if ws.len() > 1 {
        let init = ws.drop_last();
        assert forall|i: int| 0 <= i < init.len() implies !has_char(#[trigger] init[i], x) by {
            assert(init[i] == ws[i]);
        }
        lemma_join_without(init, sep, x);
        let a = join_sep(init, sep);
        let b = ws.last();
        assert(!has_char(ws[ws.len() - 1], x));
        let s = a + seq![sep] + b;
        if has_char(s, x) {
            let k = choose|k: int| 0 <= k < s.len() && s[k] == x;
            if k < a.len() {
                assert(s[k] == a[k]);
            } else if k > a.len() {
                assert(s[k] == b[k - a.len() - 1]);
            }
        }
    }
}

proof fn lemma_join_last(ws: Seq<Seq<char>>, sep: char)
    requires
        ws.len() > 0,
        ws.last().len() > 0,
    ensures
        join_sep(ws, sep).len() > 0,
        join_sep(ws, sep).last() == ws.last().last(),
{
}

proof fn lemma_exported_line(e: (Seq<char>, Seq<Seq<char>>))
    requires
        exchangeable(e),
    ensures
        csv_entry(export_line(e.0, e.1)) == Some(e),
        !has_char(export_line(e.0, e.1), '\n'),
{
    let (t, al) = e;
    let a = join_sep(al, '|');
    let line = export_line(t, al);
    assert forall|i: int| 0 <= i < al.len() implies !has_char(#[trigger] al[i], ';') by {}
    assert forall|i: int| 0 <= i < al.len() implies !has_char(#[trigger] al[i], '\n') by {}
    lemma_join_without(al, '|', ';');
    lemma_join_without(al, '|', '\n');
    assert forall|i: int| 0 <= i < al.len() implies (#[trigger] al[i]).len() > 0 && trim(al[i])
        == al[i] by {
        lemma_trim_unchanged(al[i]);
    }
    lemma_kept_trimmed_unchanged(al);
    lemma_trim_unchanged(t);
    lemma_split_without_sep(t, ';', seq![]);
    assert(seq![] + t == t);
    if al.len() == 0 {
        assert(a.len() == 0);
        assert(line == t);
        assert(split_on(line, ';') == seq![t]);
    } else {
        assert(al[al.len() - 1].len() > 0);
        lemma_join_last(al, '|');
        assert(a.len() > 0);
        assert(line == t + seq![';'] + a);
        assert(line[0] == t[0]);
        assert(line.last() == a.last());
        assert(!is_white_space(al[al.len() - 1].last()));
        lemma_trim_unchanged(line);
        lemma_split_at_sep(t, a, ';', seq![]);
        lemma_split_without_sep(a, ';', seq![]);
        assert(seq![] + a == a);
        assert(split_on(line, ';') == seq![t, a]);
        assert forall|i: int| 0 <= i < al.len() implies !has_char(#[trigger] al[i], '|') by {}
        lemma_split_join(al, '|');
        if has_char(line, '\n') {
            let k = choose|k: int| 0 <= k < line.len() && line[k] == '\n';
            if k < t.len() {
                assert(line[k] == t[k]);
            } else if k > t.len() {
                assert(line[k] == a[k - t.len() - 1]);
            }
        }
    }
}

proof fn lemma_entries_of_exported(es: Seq<(Seq<char>, Seq<Seq<char>>)>)
    requires
        forall|i: int| 0 <= i < es.len() ==> exchangeable(#[trigger] es[i]),
    ensures
        csv_entries(export_lines(es)) == es,
        forall|i: int| 0 <= i < es.len() ==> !has_char(#[trigger] export_lines(es)[i], '\n'),
    decreases es.len(),
{
    if es.len() > 0 {
        let init = es.drop_last();
        assert forall|i: int| 0 <= i < init.len() implies exchangeable(#[trigger] init[i]) by {
            assert(init[i] == es[i]);
        }
        lemma_entries_of_exported(init);
        assert(export_lines(es).drop_last() == export_lines(init));
        assert(exchangeable(es[es.len() - 1]));
        lemma_exported_line(es.last());
        assert(init.push(es.last()) == es);
        assert forall|i: int| 0 <= i < es.len() implies !has_char(#[trigger] export_lines(es)[i], '\n') by {
            if i < init.len() {
                assert(export_lines(es)[i] == export_lines(init)[i]);
            }
        }
    }
}

/// What the export writes, the import reads back: for entries whose terms
/// and aliases the line format can carry, importing the exported text
/// names exactly those entries, in order.
pub proof fn law_csv_round_trip(es: Seq<(Seq<char>, Seq<Seq<char>>)>)
    requires
        forall|i: int| 0 <= i < es.len() ==> exchangeable(#[trigger] es[i]),
    ensures
        parsed_csv(exported_csv(es)) == es,
{
    lemma_entries_of_exported(es);
    let lines = export_lines(es);
    if es.len() == 0 {
        let empty = Seq::<char>::empty();
        assert(lines.len() == 0);
        assert(exported_csv(es) == empty);
        assert(split_on(empty, '\n') == seq![empty]);
        assert(trim(empty) == empty);
        assert(csv_entry(empty) is None);
        assert(seq![empty].drop_last() == Seq::<Seq<char>>::empty());
        assert(seq![empty].last() == empty);
        assert(csv_entries(Seq::<Seq<char>>::empty()) == Seq::<(Seq<char>, Seq<Seq<char>>)>::empty());
        assert(csv_entries(seq![empty]) == Seq::<(Seq<char>, Seq<Seq<char>>)>::empty());
        assert(es =~= Seq::<(Seq<char>, Seq<Seq<char>>)>::empty());
    } else {
        lemma_split_join(lines, '\n');
        assert(split_on(exported_csv(es), '\n') == lines);
    }
}

} // verus!
