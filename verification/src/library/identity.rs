//! Names that stand for one artist: a name is known by its words and by its bare letters.

use crate::library::enrichment::LibraryEnrichmentManager;
use crate::library::matching::{compacted, normalized};
use crate::text::{collapse, text_equal, texts};
use vstd::prelude::*;

verus! {

/// The words of a name, one space between them.
pub open spec fn plain_name(name: Seq<char>) -> Seq<char> {
    normalized(collapse(name))
}

/// A list of distinct texts with one more text in it.
pub open spec fn with_text(list: Seq<Seq<char>>, text: Seq<char>) -> Seq<Seq<char>> {
    if text.len() == 0 || list.contains(text) {
        list
    } else {
        list.push(text)
    }
}

/// The names of a list that also stand for `value`.
pub open spec fn with_name(list: Seq<Seq<char>>, value: Seq<char>) -> Seq<Seq<char>> {
    let plain = plain_name(value);
    if plain.len() == 0 {
        list
    } else {
        with_text(with_text(list, plain), compacted(plain))
    }
}

/// A name that is known to a list, by its words or by its bare letters.
pub open spec fn is_known_name(list: Seq<Seq<char>>, name: Seq<char>) -> bool {
    let plain = plain_name(name);
    &&& plain.len() > 0
    &&& list.contains(plain) || (compacted(plain).len() > 0 && list.contains(compacted(plain)))
}

fn list_holds(list: &Vec<String>, text: &str) -> (r: bool)
    ensures
        r == texts(list@).contains(text@),
{
    let mut i: usize = 0;
    while i < list.len()
        invariant
            i <= list.len(),
            forall|k: int| 0 <= k < i ==> texts(list@)[k] != text@,
        decreases list.len() - i,
    {
        if text_equal(&list[i], text) {
            assert(texts(list@)[i as int] == text@);
            return true;
        }
        i += 1;
    }
    false
}

fn add_text(list: &mut Vec<String>, text: String)
    ensures
        texts(final(list)@) == with_text(texts(old(list)@), text@),
{
    if text.as_str().is_empty() {
        assert(text@.len() == 0);
        return;
    }
    assert(text@.len() > 0);
    if !list_holds(list, &text) {
        list.push(text);
        assert(texts(list@) =~= texts(old(list)@).push(text@));
    }
}

impl LibraryEnrichmentManager {
    /// Adds what a name is known by to a list of distinct texts.
    pub fn push_name_identity_variants(variants: &mut Vec<String>, value: &str)
        ensures
            texts(final(variants)@) == with_name(texts(old(variants)@), value@),
    {
        let plain = Self::normalize_text(&Self::collapse_whitespace(value));
        if plain.as_str().is_empty() {
            assert(plain@.len() == 0);
            return;
        }
        assert(plain@.len() > 0);
        let compact = Self::compact_text(&plain);
        add_text(variants, plain);
        add_text(variants, compact);
    }

    /// Whether a name is known to a list, by its words or by its bare letters.
    pub fn name_matches_identity_variants(name: &str, variants: &Vec<String>) -> (r: bool)
        ensures
            r == is_known_name(texts(variants@), name@),
    {
        let plain = Self::normalize_text(&Self::collapse_whitespace(name));
        if plain.as_str().is_empty() {
            assert(plain@.len() == 0);
            return false;
        }
        assert(plain@.len() > 0);
        if list_holds(variants, &plain) {
            return true;
        }
        let compact = Self::compact_text(&plain);
        if compact.as_str().is_empty() {
            assert(compact@.len() == 0);
            return false;
        }
        assert(compact@.len() > 0);
        list_holds(variants, &compact)
    }
}

/// A name that was added is known, as is every other name with the same bare letters; and
/// what was known before stays known.
pub proof fn added_names_are_known(list: Seq<Seq<char>>, value: Seq<char>, other: Seq<char>)
    requires
        plain_name(value).len() > 0,
    ensures
        is_known_name(with_name(list, value), value),
        plain_name(other).len() > 0 && compacted(plain_name(other)).len() > 0 && compacted(
            plain_name(other),
        ) == compacted(plain_name(value)) ==> is_known_name(with_name(list, value), other),
        is_known_name(list, other) ==> is_known_name(with_name(list, value), other),
{
    let plain = plain_name(value);
    let once = with_text(list, plain);
    let twice = with_text(once, compacted(plain));
    lemma_with_text(list, plain);
    lemma_with_text(once, compacted(plain));
    assert(twice.contains(plain));
}

proof fn lemma_with_text(list: Seq<Seq<char>>, text: Seq<char>)
    ensures
        text.len() > 0 ==> with_text(list, text).contains(text),
        forall|x: Seq<char>| list.contains(x) ==> #[trigger] with_text(list, text).contains(x),
{
    let out = with_text(list, text);
    assert forall|x: Seq<char>| list.contains(x) implies #[trigger] out.contains(x) by {
        let i = choose|i: int| 0 <= i < list.len() && list[i] == x;
        assert(out[i] == x);
    }
    if text.len() > 0 && !list.contains(text) {
        assert(out[list.len() as int] == text);
    }
}

} // verus!
