//! Laws of names in plain form: case and punctuation do not count.

use crate::library::matching::{
    compact_char, compact_chars, compacted, normal_char, normal_chars, normalized, parenthetical,
    title_head,
};
use crate::text::{last_of, lower, lower_char, trim};
use crate::text_laws::{first_places_come_first, last_places_come_last};
use vstd::prelude::*;

verus! {

proof fn lemma_lowered<B>(s: Seq<char>, f: spec_fn(char) -> Option<B>)
    requires
        forall|c: char| #[trigger] f(lower_char(c)) == f(c),
    ensures
        lower(s).filter_map(f) == s.filter_map(f),
    decreases s.len(),
{
    if s.len() > 0 {
        let rest = s.drop_last();
        lemma_lowered(rest, f);
        assert(lower(s).drop_last() =~= lower(rest));
        assert(lower(s).last() == lower_char(s.last()));
    } else {
        assert(lower(s) =~= s);
    }
}

/// The case of letters does not count.
pub proof fn case_does_not_count(s: Seq<char>)
    ensures
        normalized(lower(s)) == normalized(s),
        compacted(lower(s)) == compacted(s),
{
    assert forall|c: char| #[trigger] normal_chars()(lower_char(c)) == normal_chars()(c) by {
        assert(normal_char(lower_char(c)) == normal_char(c));
    }
    assert forall|c: char| #[trigger] compact_chars()(lower_char(c)) == compact_chars()(c) by {
        assert(compact_char(lower_char(c)) == compact_char(c));
    }
    lemma_lowered(s, normal_chars());
    lemma_lowered(s, compact_chars());
}

proof fn lemma_joined<B>(a: Seq<char>, b: Seq<char>, f: spec_fn(char) -> Option<B>)
    ensures
        (a + b).filter_map(f) == a.filter_map(f) + b.filter_map(f),
    decreases b.len(),
{
    if b.len() == 0 {
        assert(a + b =~= a);
        assert(a.filter_map(f) + b.filter_map(f) =~= a.filter_map(f));
    } else {
        lemma_joined(a, b.drop_last(), f);
        assert((a + b).drop_last() =~= a + b.drop_last());
        assert((a + b).last() == b.last());
        assert((a + b).filter_map(f) =~= a.filter_map(f) + b.filter_map(f));
    }
}

/// A sign such as an apostrophe, a dot or a comma does not count; in the compact form neither
/// does a space, a dash, an underscore or a slash, while in the plain form each of these is a
/// space.
pub proof fn punctuation_does_not_count(a: Seq<char>, b: Seq<char>, c: char)
    ensures
        c == '\'' || c == '.' || c == ',' || c == '!' || c == '?' || c == '(' || c == ')'
            ==> normalized(a + seq![c] + b) == normalized(a + b) && compacted(a + seq![c] + b)
            == compacted(a + b),
        c == ' ' || c == '-' || c == '_' || c == '/' ==> normalized(a + seq![c] + b)
            == normalized(a + seq![' '] + b) && compacted(a + seq![c] + b) == compacted(a + b),
{
    lemma_joined(a, b, normal_chars());
    lemma_joined(a, b, compact_chars());
    lemma_joined(a + seq![c], b, normal_chars());
    lemma_joined(a + seq![c], b, compact_chars());
    lemma_joined(a + seq![' '], b, normal_chars());
    lemma_joined(a, seq![c], normal_chars());
    lemma_joined(a, seq![c], compact_chars());
    lemma_joined(a, seq![' '], normal_chars());
    Seq::<char>::lemma_filter_map_singleton(c, normal_chars());
    Seq::<char>::lemma_filter_map_singleton(c, compact_chars());
    Seq::<char>::lemma_filter_map_singleton(' ', normal_chars());
    let none = Seq::<char>::empty();
    assert(a.filter_map(normal_chars()) + none =~= a.filter_map(normal_chars()));
    assert(a.filter_map(compact_chars()) + none =~= a.filter_map(compact_chars()));
}

/// Letters and digits count: the compact form of a text keeps them all, in lower case and in
/// their order.
pub proof fn letters_and_digits_count(s: Seq<char>, c: char)
    ensures
        'a' <= c && c <= 'z' || '0' <= c && c <= '9' ==> compacted(s.push(c)) == compacted(
            s,
        ).push(c),
        'A' <= c && c <= 'Z' ==> compacted(s.push(c)) == compacted(s).push(
            (c as u32 + 32) as char,
        ),
        compacted(Seq::empty()).len() == 0,
{
    assert(s.push(c).drop_last() =~= s);
    assert(s.push(c).last() == c);
    if 'a' <= c && c <= 'z' || '0' <= c && c <= '9' {
        assert(compacted(s.push(c)) =~= compacted(s).push(c));
    }
    if 'A' <= c && c <= 'Z' {
        assert(compacted(s.push(c)) =~= compacted(s).push((c as u32 + 32) as char));
    }
}

/// The head of a title is what stands before its first bracket; what stands in brackets is
/// read from the first opening to the last closing one.
pub proof fn titles_are_cut_at_brackets(head: Seq<char>, inner: Seq<char>)
    requires
        forall|i: int| 0 <= i < head.len() ==> #[trigger] head[i] != '(',
        forall|i: int| 0 <= i < inner.len() ==> #[trigger] inner[i] != ')',
        inner.len() > 0,
    ensures
        title_head(head + seq!['('] + inner + seq![')']) == normalized(trim(head)),
        title_head(head) == normalized(trim(head)),
        trim(inner).len() > 0 ==> parenthetical(head + seq!['('] + inner + seq![')']) == Some(
            normalized(trim(inner)),
        ),
        parenthetical(head) is None,
{
    let title = head + seq!['('] + inner + seq![')'];
    crate::text::lemma_first_of_concat(head, inner + seq![')'], '(');
    assert(title =~= head + seq!['('] + (inner + seq![')']));
    assert(title.take(head.len() as int) =~= head);
    assert(head.take(head.len() as int) =~= head);
    last_places_come_last(title, ')');
    let n = title.len() - 1;
    assert(title[n] == ')');
    let close = last_of(title, ')');
    if close < n {
        assert(title[n] != ')');
    }
    assert(title.subrange(head.len() as int + 1, n) =~= inner);
    first_places_come_first(head, '(');
}

} // verus!
