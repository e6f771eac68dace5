//! The dictionary's domain rules beside its storage: which legacy words
//! become terms.

use vstd::prelude::*;

use crate::text::{chars_of, keep_trimmed, kept_trimmed};

verus! {

/// The terms a legacy plain word list imports as (enabled, without
/// aliases): each word trimmed, blank ones skipped, in order. The import
/// upserts each by term, so importing twice adds nothing; it reports their
/// number.
pub fn legacy_terms(words: &Vec<String>) -> (r: Vec<String>)
    ensures
        r.deep_view() == kept_trimmed(words.deep_view()),
{
    let mut pieces: Vec<Vec<char>> = Vec::new();
    let mut i: usize = 0;
    while i < words.len()
        invariant
            i <= words@.len(),
            pieces.deep_view() == words.deep_view().take(i as int),
        decreases words@.len() - i,
    {
        let ghost before = pieces.deep_view();
        let c = chars_of(words[i].as_str());
        assert(c.deep_view() =~= c@);
        pieces.push(c);
        assert(pieces.deep_view() =~= before.push(words[i as int]@));
        assert(words.deep_view().take(i + 1) == words.deep_view().take(i as int).push(
            words[i as int]@,
        ));
        i = i + 1;
    }
    assert(words.deep_view().take(words@.len() as int) == words.deep_view());
    keep_trimmed(&pieces)
}

} // verus!
