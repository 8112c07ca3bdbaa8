//! Laws of the order: texts are ordered by their first difference, keys by their first part
//! that differs.

use crate::library::order::{key_less, part_less, text_part};
use vstd::prelude::*;

verus! {

/// Nothing comes before itself.
pub proof fn nothing_comes_before_itself(a: Seq<u32>)
    ensures
        !part_less(a, a),
    decreases a.len(),
{
    if a.len() > 0 {
        nothing_comes_before_itself(a.skip(1));
    }
}

/// Of two texts that first differ at some place, the one with the smaller character there
/// comes first.
pub proof fn the_first_difference_decides(a: Seq<u32>, b: Seq<u32>, i: int)
    requires
        0 <= i < a.len(),
        i < b.len(),
        forall|k: int| 0 <= k < i ==> #[trigger] a[k] == b[k],
        a[i] < b[i],
    ensures
        part_less(a, b),
        !part_less(b, a),
    decreases i,
{
    if i > 0 {
        assert(a[0] == b[0]);
        let x = a.skip(1);
        let y = b.skip(1);
        assert forall|k: int| 0 <= k < i - 1 implies #[trigger] x[k] == y[k] by {
            assert(x[k] == a[k + 1]);
            assert(a[k + 1] == b[k + 1]);
        }
        the_first_difference_decides(x, y, i - 1);
    }
}

/// A text comes before each longer one that begins with it.
pub proof fn beginnings_come_first(a: Seq<u32>, b: Seq<u32>)
    requires
        a.len() < b.len(),
        forall|k: int| 0 <= k < a.len() ==> #[trigger] a[k] == b[k],
    ensures
        part_less(a, b),
        !part_less(b, a),
    decreases a.len(),
{
    if a.len() > 0 {
        assert(a[0] == b[0]);
        let x = a.skip(1);
        let y = b.skip(1);
        assert forall|k: int| 0 <= k < x.len() implies #[trigger] x[k] == y[k] by {
            assert(x[k] == a[k + 1]);
            assert(a[k + 1] == b[k + 1]);
        }
        beginnings_come_first(x, y);
    }
}

/// Of two keys that first differ in some part, the one with the smaller part comes first.
pub proof fn the_first_different_part_decides(a: Seq<Seq<u32>>, b: Seq<Seq<u32>>, i: int)
    requires
        0 <= i < a.len(),
        i < b.len(),
        forall|k: int| 0 <= k < i ==> #[trigger] a[k] == b[k],
        a[i] != b[i],
    ensures
        key_less(a, b) == part_less(a[i], b[i]),
    decreases i,
{
    if i > 0 {
        assert(a[0] == b[0]);
        let x = a.skip(1);
        let y = b.skip(1);
        assert forall|k: int| 0 <= k < i - 1 implies #[trigger] x[k] == y[k] by {
            assert(x[k] == a[k + 1]);
            assert(a[k + 1] == b[k + 1]);
        }
        the_first_different_part_decides(x, y, i - 1);
    }
}

proof fn lemma_same_number(a: char, b: char)
    requires
        a as u32 == b as u32,
    ensures
        a == b,
{
}

/// Texts are ordered by the numbers of their characters, and no two texts by the same.
pub proof fn texts_are_ordered_by_characters(s: Seq<char>, t: Seq<char>)
    ensures
        text_part(s).len() == s.len(),
        forall|i: int| 0 <= i < s.len() ==> #[trigger] text_part(s)[i] == s[i] as u32,
        text_part(s) == text_part(t) ==> s == t,
{
    if text_part(s) == text_part(t) {
        assert(text_part(s).len() == s.len() && text_part(t).len() == t.len());
        assert forall|i: int| 0 <= i < s.len() implies s[i] == t[i] by {
            assert(text_part(s)[i] == s[i] as u32);
            assert(text_part(t)[i] == t[i] as u32);
            lemma_same_number(s[i], t[i]);
        }
        assert(s =~= t);
    }
}

} // verus!
