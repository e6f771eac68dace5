//! Dictionary entries: durable terms with aliases and an explicit enabled
//! state. The enabled set feeds the deterministic correction; its snapshot
//! hash is recorded per attempt, so historical outputs stay interpretable
//! after edits.

use vstd::prelude::*;

use crate::storage::hashing::{hex_lower, sha256_hex, sha256_spec, utf8};
use crate::text::{
    chars_less, chars_lt, chars_of, lemma_chars_lt_irreflexive, lemma_chars_lt_total,
    lemma_chars_lt_transitive, string_of,
};

verus! {

#[derive(Clone, Debug)]
pub struct NewDictionaryEntry {
    pub term: String,
    pub aliases: Vec<String>,
    pub enabled: bool,
}

#[derive(Clone, Debug)]
pub struct DictionaryEntry {
    pub id: String,
    pub term: String,
    pub aliases: Vec<String>,
    pub enabled: bool,
    pub created_at_ms: i64,
    pub updated_at_ms: i64,
}

/// The correction terms of entries, in order: each entry's term, then its
/// aliases.
pub open spec fn terms_of(es: Seq<DictionaryEntry>) -> Seq<Seq<char>>
    decreases es.len(),
{
    if es.len() == 0 {
        seq![]
    } else {
        terms_of(es.drop_last()) + seq![es.last().term@] + es.last().aliases.deep_view()
    }
}

/// Flattened correction terms of the (enabled) entries: term and aliases of
/// each, the exact input the deterministic correction consumes.
pub fn correction_terms(entries: &Vec<DictionaryEntry>) -> (r: Vec<String>)
    ensures
        r.deep_view() == terms_of(entries@),
{
    let mut r: Vec<String> = Vec::new();
    let mut i: usize = 0;
    assert(entries@.take(0) =~= Seq::<DictionaryEntry>::empty());
    assert(r.deep_view() =~= Seq::<Seq<char>>::empty());
    while i < entries.len()
        invariant
            i <= entries@.len(),
            r.deep_view() == terms_of(entries@.take(i as int)),
        decreases entries@.len() - i,
    {
        let e = &entries[i];
        assert(entries@.take(i + 1).drop_last() == entries@.take(i as int));
        let ghost before = r.deep_view();
        r.push(e.term.clone());
        assert(r.deep_view() =~= before + seq![e.term@]);
        let mut j: usize = 0;
        while j < e.aliases.len()
            invariant
                j <= e.aliases@.len(),
                r.deep_view() == before + seq![e.term@] + e.aliases.deep_view().take(j as int),
            decreases e.aliases@.len() - j,
        {
            let ghost mid = r.deep_view();
            r.push(e.aliases[j].clone());
            assert(r.deep_view() =~= mid.push(e.aliases[j as int]@));
            assert(e.aliases.deep_view().take(j + 1) == e.aliases.deep_view().take(j as int).push(
                e.aliases[j as int]@,
            ));
            j = j + 1;
        }
        assert(e.aliases.deep_view().take(j as int) == e.aliases.deep_view());
        i = i + 1;
    }
    assert(entries@.take(entries@.len() as int) == entries@);
    r
}

// ---------------------------------------------------------------------
// The snapshot hash of the correction set
// ---------------------------------------------------------------------

/// `x` placed into `sorted` just before the first element it comes strictly
/// before (after any equal ones).
pub open spec fn sorted_insert(sorted: Seq<Seq<char>>, x: Seq<char>) -> Seq<Seq<char>>
    decreases sorted.len(),
{
    if sorted.len() == 0 {
        seq![x]
    } else if chars_lt(x, sorted[0]) {
        seq![x] + sorted
    } else {
        seq![sorted[0]] + sorted_insert(sorted.drop_first(), x)
    }
}

/// The strings in ascending lexicographic order.
pub open spec fn sort_strings(s: Seq<Seq<char>>) -> Seq<Seq<char>>
    decreases s.len(),
{
    if s.len() == 0 {
        seq![]
    } else {
        sorted_insert(sort_strings(s.drop_last()), s.last())
    }
}

/// The bytes hashed for a correction set: each term's UTF-8 bytes followed
/// by a zero byte, in order.
pub open spec fn snapshot_bytes(ts: Seq<Seq<char>>) -> Seq<u8>
    decreases ts.len(),
{
    if ts.len() == 0 {
        seq![]
    } else {
        snapshot_bytes(ts.drop_last()) + utf8(ts.last()) + seq![0u8]
    }
}

/// The snapshot hash of a correction set: SHA-256 over the sorted terms,
/// each terminated by a zero byte, in lowercase hex. It does not depend on
/// the order the terms come in.
pub open spec fn snapshot_hash(terms: Seq<Seq<char>>) -> Seq<char> {
    hex_lower(sha256_spec(snapshot_bytes(sort_strings(terms))))
}

/// Whether `s` ascends: no element comes strictly before an earlier one.
pub open spec fn ascending(s: Seq<Seq<char>>) -> bool {
    forall|i: int, j: int| 0 <= i < j < s.len() ==> !chars_lt(#[trigger] s[j], #[trigger] s[i])
}

proof fn lemma_sorted_insert(sorted: Seq<Seq<char>>, x: Seq<char>)
    requires
        ascending(sorted),
    ensures
        ascending(sorted_insert(sorted, x)),
        sorted_insert(sorted, x).to_multiset() == sorted.to_multiset().insert(x),
    decreases sorted.len(),
{
    broadcast use vstd::seq_lib::group_to_multiset_ensures;

    let r = sorted_insert(sorted, x);
    if sorted.len() == 0 {
        assert(r == seq![x]);
        assert(seq![x] == Seq::<Seq<char>>::empty().push(x));
        assert(sorted == Seq::<Seq<char>>::empty());
    } else if chars_lt(x, sorted[0]) {
        assert(r == sorted.insert(0, x));
        assert forall|i: int, j: int| 0 <= i < j < r.len() implies !chars_lt(#[trigger] r[j], #[trigger] r[i]) by {
            if i == 0 {
                assert(r[j] == sorted[j - 1]);
                if chars_lt(sorted[j - 1], x) {
                    lemma_chars_lt_transitive(sorted[j - 1], x, sorted[0]);
                    if j - 1 == 0 {
                        lemma_chars_lt_irreflexive(sorted[0]);
                    }
                }
            } else {
                assert(r[i] == sorted[i - 1] && r[j] == sorted[j - 1]);
            }
        }
    } else {
        let rest = sorted.drop_first();
        assert forall|i: int, j: int| 0 <= i < j < rest.len() implies !chars_lt(#[trigger] rest[j], #[trigger] rest[i]) by {
            assert(rest[i] == sorted[i + 1] && rest[j] == sorted[j + 1]);
        }
        lemma_sorted_insert(rest, x);
        let t = sorted_insert(rest, x);
        assert(r == seq![sorted[0]] + t);
        assert forall|i: int, j: int| 0 <= i < j < r.len() implies !chars_lt(#[trigger] r[j], #[trigger] r[i]) by {
            if i == 0 {
                let y = r[j];
                assert(y == t[j - 1]);
                assert(t.contains(y));
                assert(t.to_multiset().count(y) > 0);
                if y != x {
                    assert(rest.to_multiset().count(y) > 0);
                    assert(rest.contains(y));
                    let k = choose|k: int| 0 <= k < rest.len() && rest[k] == y;
                    assert(sorted[k + 1] == y);
                }
            } else {
                assert(r[i] == t[i - 1] && r[j] == t[j - 1]);
            }
        }
        assert(sorted == rest.insert(0, sorted[0]));
        assert(r == t.insert(0, sorted[0]));
        assert(r.to_multiset() == t.to_multiset().insert(sorted[0]));
        assert(sorted.to_multiset() == rest.to_multiset().insert(sorted[0]));
        assert(r.to_multiset() =~= sorted.to_multiset().insert(x));
    }
}

/// The sorted terms are the terms in ascending order: the same multiset
/// of terms, none before an earlier one.
pub proof fn law_sorted_terms(s: Seq<Seq<char>>)
    ensures
        ascending(sort_strings(s)),
        sort_strings(s).to_multiset() == s.to_multiset(),
    decreases s.len(),
{
    broadcast use vstd::seq_lib::group_to_multiset_ensures;

    if s.len() == 0 {
        assert(sort_strings(s) == Seq::<Seq<char>>::empty());
        assert(s == Seq::<Seq<char>>::empty());
    } else {
        law_sorted_terms(s.drop_last());
        lemma_sorted_insert(sort_strings(s.drop_last()), s.last());
        assert(s == s.drop_last().push(s.last()));
    }
}

proof fn lemma_ascending_unique(a: Seq<Seq<char>>, b: Seq<Seq<char>>)
    requires
        ascending(a),
        ascending(b),
        a.to_multiset() == b.to_multiset(),
    ensures
        a == b,
    decreases a.len(),
{
    broadcast use vstd::seq_lib::group_to_multiset_ensures;

    assert(a.len() == a.to_multiset().len());
    assert(b.len() == b.to_multiset().len());
    if a.len() == 0 {
        assert(a =~= b);
    } else {
        let a0 = a[0];
        let b0 = b[0];
        assert(a.contains(a0));
        assert(b.to_multiset().count(a0) > 0);
        assert(b.contains(a0));
        let k = choose|k: int| 0 <= k < b.len() && b[k] == a0;
        assert(b.contains(b0));
        assert(a.to_multiset().count(b0) > 0);
        assert(a.contains(b0));
        let m = choose|m: int| 0 <= m < a.len() && a[m] == b0;
        if k > 0 {
            assert(!chars_lt(b[k], b[0]));
        }
        if m > 0 {
            assert(!chars_lt(a[m], a[0]));
        }
        if k == 0 {
            assert(a0 == b0);
        } else if m == 0 {
            assert(a0 == b0);
        } else {
            if a0 != b0 {
                lemma_chars_lt_total(a0, b0);
            }
        }
        assert(a0 == b0);
        let ra = a.drop_first();
        let rb = b.drop_first();
        assert(a.remove(0) == ra);
        assert(b.remove(0) == rb);
        assert(ra.to_multiset() == a.to_multiset().remove(a0));
        assert(rb.to_multiset() == b.to_multiset().remove(b0));
        assert forall|i: int, j: int| 0 <= i < j < ra.len() implies !chars_lt(#[trigger] ra[j], #[trigger] ra[i]) by {
            assert(ra[i] == a[i + 1] && ra[j] == a[j + 1]);
        }
        assert forall|i: int, j: int| 0 <= i < j < rb.len() implies !chars_lt(#[trigger] rb[j], #[trigger] rb[i]) by {
            assert(rb[i] == b[i + 1] && rb[j] == b[j + 1]);
        }
        lemma_ascending_unique(ra, rb);
        assert(a =~= seq![a0] + ra);
        assert(b =~= seq![b0] + rb);
    }
}

/// The snapshot hash does not depend on the order the terms come in: any
/// two term lists holding the same terms, as many times each, hash alike.
pub proof fn law_snapshot_ignores_order(a: Seq<Seq<char>>, b: Seq<Seq<char>>)
    requires
        a.to_multiset() == b.to_multiset(),
    ensures
        snapshot_hash(a) == snapshot_hash(b),
{
    law_sorted_terms(a);
    law_sorted_terms(b);
    lemma_ascending_unique(sort_strings(a), sort_strings(b));
}

proof fn lemma_insert_at(sorted: Seq<Seq<char>>, x: Seq<char>, p: int)
    requires
        0 <= p <= sorted.len(),
        forall|j: int| 0 <= j < p ==> !chars_lt(x, #[trigger] sorted[j]),
        p < sorted.len() ==> chars_lt(x, sorted[p]),
    ensures
        sorted_insert(sorted, x) == sorted.insert(p, x),
    decreases sorted.len(),
{
    if sorted.len() == 0 {
        assert(sorted.insert(p, x) == seq![x]);
    } else if p == 0 {
        assert(sorted.insert(0, x) == seq![x] + sorted);
    } else {
        assert(!chars_lt(x, sorted[0]));
        let rest = sorted.drop_first();
        assert forall|j: int| 0 <= j < p - 1 implies !chars_lt(x, #[trigger] rest[j]) by {
            assert(rest[j] == sorted[j + 1]);
        }
        if p < sorted.len() {
            assert(rest[p - 1] == sorted[p]);
        }
        lemma_insert_at(rest, x, p - 1);
        assert(seq![sorted[0]] + rest.insert(p - 1, x) == sorted.insert(p, x));
    }
}

/// The character vectors in ascending lexicographic order.
fn sort_char_vecs(v: Vec<Vec<char>>) -> (r: Vec<Vec<char>>)
    ensures
        r.deep_view() == sort_strings(v.deep_view()),
{
    let mut out: Vec<Vec<char>> = Vec::new();
    let mut i: usize = 0;
    assert(v.deep_view().take(0) =~= Seq::<Seq<char>>::empty());
    assert(out.deep_view() =~= Seq::<Seq<char>>::empty());
    while i < v.len()
        invariant
            i <= v@.len(),
            out.deep_view() == sort_strings(v.deep_view().take(i as int)),
        decreases v@.len() - i,
    {
        let x = v[i].clone();
        assert(x@ == v.deep_view()[i as int]);
        let mut p: usize = 0;
        loop
            invariant_except_break
                p <= out@.len(),
                forall|j: int| 0 <= j < p ==> !chars_lt(x@, #[trigger] out.deep_view()[j]),
            ensures
                p <= out@.len(),
                forall|j: int| 0 <= j < p ==> !chars_lt(x@, #[trigger] out.deep_view()[j]),
                p < out@.len() ==> chars_lt(x@, out.deep_view()[p as int]),
            decreases out@.len() - p,
        {
            if p >= out.len() {
                break;
            }
            let lt = chars_less(x.as_slice(), out[p].as_slice());
            assert(out.deep_view()[p as int] == out@[p as int]@);
            if lt {
                break;
            }
            p = p + 1;
        }
        let ghost before = out.deep_view();
        proof {
            lemma_insert_at(before, x@, p as int);
            let t = v.deep_view().take(i + 1);
            assert(t.drop_last() == v.deep_view().take(i as int));
            assert(t.last() == x@);
        }
        out.insert(p, x);
        assert(out.deep_view() =~= before.insert(p as int, v.deep_view()[i as int]));
        i = i + 1;
    }
    assert(v.deep_view().take(v@.len() as int) == v.deep_view());
    out
}

/// The deterministic snapshot hash over a correction set, recorded per
/// attempt.
pub fn snapshot_sha256(terms: &Vec<String>) -> (r: String)
    ensures
        r@ == snapshot_hash(terms.deep_view()),
{
    let mut chars: Vec<Vec<char>> = Vec::new();
    let mut i: usize = 0;
    while i < terms.len()
        invariant
            i <= terms@.len(),
            chars.deep_view() == terms.deep_view().take(i as int),
        decreases terms@.len() - i,
    {
        let ghost before = chars.deep_view();
        let c = chars_of(terms[i].as_str());
        assert(c@ == terms[i as int]@);
        assert(c.deep_view() =~= c@);
        chars.push(c);
        assert(chars.deep_view() =~= before.push(terms[i as int]@));
        assert(terms.deep_view().take(i + 1) == terms.deep_view().take(i as int).push(
            terms[i as int]@,
        ));
        i = i + 1;
    }
    assert(terms.deep_view().take(terms@.len() as int) == terms.deep_view());
    let sorted = sort_char_vecs(chars);
    let mut bytes: Vec<u8> = Vec::new();
    let mut k: usize = 0;
    assert(sorted.deep_view().take(0) =~= Seq::<Seq<char>>::empty());
    while k < sorted.len()
        invariant
            k <= sorted@.len(),
            bytes@ == snapshot_bytes(sorted.deep_view().take(k as int)),
        decreases sorted@.len() - k,
    {
        let s = string_of(sorted[k].as_slice());
        let b = s.as_str().as_bytes();
        let ghost before = bytes@;
        let mut j: usize = 0;
        while j < b.len()
            invariant
                j <= b@.len(),
                bytes@ == before + b@.take(j as int),
            decreases b@.len() - j,
        {
            bytes.push(b[j]);
            assert(b@.take(j + 1) == b@.take(j as int).push(b@[j as int]));
            j = j + 1;
        }
        assert(b@.take(j as int) == b@);
        bytes.push(0u8);
        let ghost t = sorted.deep_view().take(k + 1);
        assert(t.drop_last() == sorted.deep_view().take(k as int));
        assert(t.last() == sorted[k as int]@);
        assert(bytes@ == before + utf8(t.last()) + seq![0u8]);
        k = k + 1;
    }
    assert(sorted.deep_view().take(sorted@.len() as int) == sorted.deep_view());
    sha256_hex(bytes.as_slice())
}

} // verus!
