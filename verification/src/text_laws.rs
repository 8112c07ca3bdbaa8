//! Laws of texts: trimming, words, numbers and separators.

use crate::text::{
    all_digits, ascii_digit, blank, collapse, decimal, digits_value, first_of, last_of, lower,
    pieces, spaced, trim, trim_back, trim_front, white_space, whole_number, word_len, words,
};
use vstd::prelude::*;

verus! {

proof fn lemma_front(s: Seq<char>)
    ensures
        trim_front(s).len() <= s.len(),
        trim_front(s) == s.skip(s.len() - trim_front(s).len()),
        forall|k: int| 0 <= k < s.len() - trim_front(s).len() ==> white_space(#[trigger] s[k]),
        trim_front(s).len() > 0 ==> !white_space(trim_front(s)[0]),
    decreases s.len(),
{
    if s.len() > 0 && white_space(s[0]) {
        let rest = s.drop_first();
        lemma_front(rest);
        assert(rest.skip(rest.len() - trim_front(rest).len()) =~= s.skip(
            s.len() - trim_front(s).len(),
        ));
        assert forall|k: int| 0 <= k < s.len() - trim_front(s).len() implies white_space(
            #[trigger] s[k],
        ) by {
            if k > 0 {
                assert(rest[k - 1] == s[k]);
            }
        }
    } else {
        assert(s.skip(0) =~= s);
    }
}

proof fn lemma_back(s: Seq<char>)
    ensures
        trim_back(s).len() <= s.len(),
        trim_back(s) == s.take(trim_back(s).len() as int),
        forall|k: int| trim_back(s).len() <= k < s.len() ==> white_space(#[trigger] s[k]),
        trim_back(s).len() > 0 ==> !white_space(trim_back(s).last()),
    decreases s.len(),
{
    if s.len() > 0 && white_space(s.last()) {
        let rest = s.drop_last();
        lemma_back(rest);
        assert(rest.take(trim_back(rest).len() as int) =~= s.take(trim_back(s).len() as int));
        assert forall|k: int| trim_back(s).len() <= k < s.len() implies white_space(
            #[trigger] s[k],
        ) by {
            if k < rest.len() {
                assert(rest[k] == s[k]);
            }
        }
    } else {
        assert(s.take(s.len() as int) =~= s);
    }
}

/// Trimming takes white space off the two ends, and nothing else: what is left is a part of
/// the text without white space at its ends.
pub proof fn trimming_takes_white_space_only(s: Seq<char>)
    ensures
        exists|i: int, j: int|
            {
                &&& 0 <= i <= j <= s.len()
                &&& trim(s) == #[trigger] s.subrange(i, j)
                &&& forall|k: int| 0 <= k < i ==> white_space(#[trigger] s[k])
                &&& forall|k: int| j <= k < s.len() ==> white_space(#[trigger] s[k])
            },
        trim(s).len() > 0 ==> !white_space(trim(s)[0]) && !white_space(trim(s).last()),
{
    lemma_front(s);
    let t = trim_front(s);
    lemma_back(t);
    let i = s.len() - t.len();
    let j = i + trim_back(t).len();
    assert(trim(s) =~= s.subrange(i, j));
    assert forall|k: int| j <= k < s.len() implies white_space(#[trigger] s[k]) by {
        assert(t[k - i] == s[k]);
    }
    if trim(s).len() > 0 {
        assert(trim(s)[0] == t[0]);
    }
}

/// A text is blank exactly where it holds nothing but white space.
pub proof fn blank_texts_are_white(s: Seq<char>)
    ensures
        blank(s) <==> forall|k: int| 0 <= k < s.len() ==> white_space(#[trigger] s[k]),
{
    trimming_takes_white_space_only(s);
    let (i, j) = choose|i: int, j: int|
        {
            &&& 0 <= i <= j <= s.len()
            &&& trim(s) == #[trigger] s.subrange(i, j)
            &&& forall|k: int| 0 <= k < i ==> white_space(#[trigger] s[k])
            &&& forall|k: int| j <= k < s.len() ==> white_space(#[trigger] s[k])
        };
    if blank(s) {
        assert(i == j);
    } else if forall|k: int| 0 <= k < s.len() ==> white_space(#[trigger] s[k]) {
        assert(s[i] == trim(s)[0]);
    }
}

/// A text without white space at its ends is left as it is.
pub proof fn trimmed_texts_stay(s: Seq<char>)
    requires
        s.len() == 0 || (!white_space(s[0]) && !white_space(s.last())),
    ensures
        trim(s) == s,
{
}

/// Spaces, tabs and line ends are white space; letters, digits and other signs of ASCII are
/// not.
pub proof fn ascii_white_space_is_known(c: char)
    ensures
        c == ' ' || c == '\t' || c == '\n' || c == '\r' ==> white_space(c),
        '!' <= c && c <= '~' ==> !white_space(c),
{
}

/// Lower case keeps a text's length, moves the letters from A to Z by 32 and leaves every
/// other character; done twice it changes nothing more.
pub proof fn lower_case_moves_capitals_only(s: Seq<char>)
    ensures
        lower(s).len() == s.len(),
        forall|i: int|
            0 <= i < s.len() && 'A' <= s[i] && s[i] <= 'Z' ==> (#[trigger] lower(s)[i]) as int
                == s[i] as int + 32,
        forall|i: int|
            0 <= i < s.len() && !('A' <= s[i] && s[i] <= 'Z') ==> #[trigger] lower(s)[i] == s[i],
        lower(lower(s)) == lower(s),
{
    assert(lower(lower(s)) =~= lower(s));
}

/// A text's words hold no white space and are not empty.
pub proof fn words_are_whole(s: Seq<char>)
    ensures
        forall|i: int| 0 <= i < words(s).len() ==> (#[trigger] words(s)[i]).len() > 0,
        forall|i: int, k: int|
            0 <= i < words(s).len() && 0 <= k < words(s)[i].len() ==> !white_space(
                #[trigger] words(s)[i][k],
            ),
    decreases s.len(),
{
    if s.len() > 0 {
        if white_space(s[0]) {
            words_are_whole(s.drop_first());
            assert(words(s) == words(s.drop_first()));
        } else {
            crate::text::lemma_word_len(s);
            let n = word_len(s) as int;
            words_are_whole(s.skip(n));
            let rest = words(s.skip(n));
            assert forall|i: int| 0 <= i < words(s).len() implies (#[trigger] words(s)[i]).len()
                > 0 by {
                if i > 0 {
                    assert(words(s)[i] == rest[i - 1]);
                }
            }
            assert forall|i: int, k: int|
                0 <= i < words(s).len() && 0 <= k < words(s)[i].len() implies !white_space(
                #[trigger] words(s)[i][k],
            ) by {
                if i > 0 {
                    assert(words(s)[i] == rest[i - 1]);
                } else {
                    assert(words(s)[0] == s.take(n));
                }
            }
        }
    }
}

/// What of a text is not white space.
pub open spec fn inked(s: Seq<char>) -> Seq<char>
    decreases s.len(),
{
    if s.len() == 0 {
        Seq::empty()
    } else if white_space(s[0]) {
        inked(s.drop_first())
    } else {
        seq![s[0]] + inked(s.drop_first())
    }
}

proof fn lemma_inked_sum(a: Seq<char>, b: Seq<char>)
    ensures
        inked(a + b) == inked(a) + inked(b),
    decreases a.len(),
{
    if a.len() == 0 {
        assert(a + b =~= b);
        assert(inked(a) + inked(b) =~= inked(b));
    } else {
        lemma_inked_sum(a.drop_first(), b);
        assert((a + b).drop_first() =~= a.drop_first() + b);
        assert((a + b)[0] == a[0]);
        if !white_space(a[0]) {
            assert(inked(a + b) =~= inked(a) + inked(b));
        }
    }
}

proof fn lemma_inked_whole(s: Seq<char>)
    requires
        forall|k: int| 0 <= k < s.len() ==> !white_space(#[trigger] s[k]),
    ensures
        inked(s) == s,
    decreases s.len(),
{
    if s.len() > 0 {
        let rest = s.drop_first();
        assert forall|k: int| 0 <= k < rest.len() implies !white_space(#[trigger] rest[k]) by {
            assert(rest[k] == s[k + 1]);
        }
        lemma_inked_whole(rest);
        assert(inked(s) =~= s);
    }
}

proof fn lemma_spaced_front(first: Seq<char>, rest: Seq<Seq<char>>)
    ensures
        rest.len() > 0 ==> spaced(seq![first] + rest) == first + seq![' '] + spaced(rest),
        rest.len() == 0 ==> spaced(seq![first] + rest) == first,
    decreases rest.len(),
{
    let all = seq![first] + rest;
    if rest.len() == 1 {
        assert(all.drop_last() =~= seq![first]);
        assert(spaced(seq![first]) == first);
    } else if rest.len() > 1 {
        lemma_spaced_front(first, rest.drop_last());
        assert(all.drop_last() =~= seq![first] + rest.drop_last());
        assert(all.last() == rest.last());
        assert(spaced(all) =~= first + seq![' '] + spaced(rest));
    }
}

/// Collapsing white space keeps every other character, in its order.
pub proof fn collapsing_keeps_the_ink(s: Seq<char>)
    ensures
        inked(collapse(s)) == inked(s),
    decreases s.len(),
{
    if s.len() > 0 {
        if white_space(s[0]) {
            collapsing_keeps_the_ink(s.drop_first());
        } else {
            crate::text::lemma_word_len(s);
            let n = word_len(s) as int;
            let rest = s.skip(n);
            collapsing_keeps_the_ink(rest);
            lemma_spaced_front(s.take(n), words(rest));
            lemma_inked_whole(s.take(n));
            assert(s =~= s.take(n) + rest);
            lemma_inked_sum(s.take(n), rest);
            assert(white_space(' '));
            if words(rest).len() > 0 {
                lemma_inked_sum(s.take(n) + seq![' '], spaced(words(rest)));
                lemma_inked_sum(s.take(n), seq![' ']);
                assert(inked(seq![' ']) =~= Seq::<char>::empty()) by {
                    let space = seq![' '];
                    assert(white_space(space[0]));
                    assert(space.drop_first() =~= Seq::<char>::empty());
                    assert(inked(space) == inked(space.drop_first()));
                    assert(inked(Seq::<char>::empty()) =~= Seq::<char>::empty());
                }
                assert(inked(collapse(s)) =~= inked(s));
            } else {
                assert(inked(Seq::<char>::empty()) =~= Seq::<char>::empty());
                assert(inked(collapse(s)) =~= inked(s));
            }
        }
    }
}

/// A number written in decimal reads back as the number.
pub proof fn decimals_read_back(n: nat)
    ensures
        decimal(n).len() > 0,
        all_digits(decimal(n)),
        digits_value(decimal(n)) == n,
        n <= u64::MAX ==> whole_number(decimal(n)) == Some(n as u64),
        trim(decimal(n)) == decimal(n),
        !blank(decimal(n)),
    decreases n,
{
    if n < 10 {
        let d = decimal(n);
        assert(d.drop_last() =~= Seq::<char>::empty());
        assert(digits_value(Seq::<char>::empty()) == 0);
        assert(ascii_digit(d[0]));
    } else {
        decimals_read_back(n / 10);
        let d = decimal(n);
        assert(d.drop_last() =~= decimal(n / 10));
        assert(ascii_digit(d.last()));
        assert(all_digits(d)) by {
            assert forall|i: int| 0 <= i < d.len() implies ascii_digit(#[trigger] d[i]) by {
                if i < d.len() - 1 {
                    assert(d[i] == decimal(n / 10)[i]);
                }
            }
        }
    }
    let d = decimal(n);
    assert(ascii_digit(d[0]));
    assert(ascii_digit(d.last()));
    trimmed_texts_stay(d);
}

/// Numbers written alike are alike.
pub proof fn decimals_differ(a: nat, b: nat)
    requires
        a != b,
    ensures
        decimal(a) != decimal(b),
{
    decimals_read_back(a);
    decimals_read_back(b);
}

/// The first place of a character: it stands there, and nowhere before.
pub proof fn first_places_come_first(s: Seq<char>, c: char)
    ensures
        first_of(s, c) <= s.len(),
        first_of(s, c) < s.len() ==> s[first_of(s, c) as int] == c,
        forall|k: int| 0 <= k < first_of(s, c) ==> #[trigger] s[k] != c,
    decreases s.len(),
{
    if s.len() > 0 && s[0] != c {
        let rest = s.drop_first();
        first_places_come_first(rest, c);
        assert forall|k: int| 0 <= k < first_of(s, c) implies #[trigger] s[k] != c by {
            if k > 0 {
                assert(rest[k - 1] == s[k]);
            }
        }
    }
}

/// The last place of a character: it stands there, and nowhere behind.
pub proof fn last_places_come_last(s: Seq<char>, c: char)
    ensures
        -1 <= last_of(s, c) < s.len(),
        last_of(s, c) >= 0 ==> s[last_of(s, c)] == c,
        forall|k: int| last_of(s, c) < k < s.len() ==> #[trigger] s[k] != c,
    decreases s.len(),
{
    if s.len() > 0 && s.last() != c {
        let rest = s.drop_last();
        last_places_come_last(rest, c);
        assert forall|k: int| last_of(s, c) < k < s.len() implies #[trigger] s[k] != c by {
            if k < rest.len() {
                assert(rest[k] == s[k]);
            }
        }
    }
}

/// Pieces put together again, with the separator between them.
pub open spec fn rejoined(parts: Seq<Seq<char>>, c: char) -> Seq<char>
    decreases parts.len(),
{
    if parts.len() == 0 {
        Seq::empty()
    } else if parts.len() == 1 {
        parts[0]
    } else {
        parts[0] + seq![c] + rejoined(parts.skip(1), c)
    }
}

/// Cutting a text at a separator loses nothing: put together again, the pieces are the text,
/// and none of them holds the separator.
pub proof fn pieces_make_the_text(s: Seq<char>, c: char)
    ensures
        pieces(s, c).len() > 0,
        rejoined(pieces(s, c), c) == s,
        forall|i: int, k: int|
            0 <= i < pieces(s, c).len() && 0 <= k < pieces(s, c)[i].len()
                ==> #[trigger] pieces(s, c)[i][k] != c,
    decreases s.len(),
{
    first_places_come_first(s, c);
    let n = first_of(s, c) as int;
    if n < s.len() {
        let rest = s.skip(n + 1);
        pieces_make_the_text(rest, c);
        let all = pieces(s, c);
        assert(all.skip(1) =~= pieces(rest, c));
        assert(all[0] == s.take(n));
        assert(rejoined(all, c) =~= s);
        assert forall|i: int, k: int|
            0 <= i < all.len() && 0 <= k < all[i].len() implies #[trigger] all[i][k] != c by {
            if i > 0 {
                assert(all[i] == pieces(rest, c)[i - 1]);
            }
        }
    } else {
        assert(pieces(s, c)[0] == s);
    }
}

} // verus!
