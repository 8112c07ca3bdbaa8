//! How well an online page or record matches an artist or album of the library.

use crate::single::{
    at_least, nearest_whole, product, quotient, single_of, Single,
};
use crate::text::{
    ascii_alphanumeric, ascii_white_space, char_texts, chars_equal, chars_occur_at, chars_of,
    collapse, collapse_chars, copy_range, find_char, find_last_char, first_of, has_part, has_prefix,
    is_ascii_alphanumeric, is_ascii_white_space, join_words, last_of, lower, lower_char, spaced,
    split_words, to_lower_char, to_upper_char, trim, trim_chars, upper_char, words,
};
use vstd::prelude::*;

verus! {

/// What becomes of a character when text is normalised for comparison.
pub open spec fn normal_char(c: char) -> Option<char> {
    if ascii_alphanumeric(c) {
        Some(lower_char(c))
    } else if ascii_white_space(c) || c == '-' || c == '_' || c == '/' {
        Some(' ')
    } else {
        None
    }
}

pub open spec fn normal_chars() -> spec_fn(char) -> Option<char> {
    |c: char| normal_char(c)
}

/// Lower-case words of ASCII letters and digits, one space between them.
pub open spec fn normalized(s: Seq<char>) -> Seq<char> {
    collapse(s.filter_map(normal_chars()))
}

pub open spec fn compact_char(c: char) -> Option<char> {
    if ascii_alphanumeric(c) {
        Some(lower_char(c))
    } else {
        None
    }
}

pub open spec fn compact_chars() -> spec_fn(char) -> Option<char> {
    |c: char| compact_char(c)
}

/// The ASCII letters and digits alone, in lower case.
pub open spec fn compacted(s: Seq<char>) -> Seq<char> {
    s.filter_map(compact_chars())
}

/// A word with its first letter in upper case and the rest in lower case.
pub open spec fn capitalized(w: Seq<char>) -> Seq<char> {
    if w.len() == 0 {
        w
    } else {
        seq![upper_char(w[0])] + lower(w.drop_first())
    }
}

pub open spec fn title_cased(s: Seq<char>) -> Seq<char> {
    spaced(words(collapse(s)).map_values(|w: Seq<char>| capitalized(w)))
}

/// The name key of an artist or album as the user wrote it.
pub open spec fn name_key(s: Seq<char>) -> Seq<char> {
    normalized(collapse(s))
}

pub open spec fn strip_front(s: Seq<char>) -> Seq<char>
    decreases s.len(),
{
    if s.len() > 0 && !ascii_alphanumeric(s[0]) {
        strip_front(s.drop_first())
    } else {
        s
    }
}

pub open spec fn strip_back(s: Seq<char>) -> Seq<char>
    decreases s.len(),
{
    if s.len() > 0 && !ascii_alphanumeric(s.last()) {
        strip_back(s.drop_last())
    } else {
        s
    }
}

/// A word without what is no letter or digit at its ends.
pub open spec fn bare_word(s: Seq<char>) -> Seq<char> {
    strip_back(strip_front(s))
}

/// `needle` is a word of `hay`, as written or bare.
pub open spec fn has_word(hay: Seq<char>, needle: Seq<char>) -> bool {
    exists|k: int|
        0 <= k < words(hay).len() && (#[trigger] words(hay)[k] == needle || bare_word(words(hay)[k])
            == needle)
}

/// `phrase` stands in `hay` between word boundaries; never true of empty text.
pub open spec fn has_phrase(hay: Seq<char>, phrase: Seq<char>) -> bool {
    hay.len() > 0 && phrase.len() > 0 && has_part(
        seq![' '] + hay + seq![' '],
        seq![' '] + phrase + seq![' '],
    )
}

/// The normalised text between the first `(` and the last `)`.
pub open spec fn parenthetical(title: Seq<char>) -> Option<Seq<char>> {
    let open = first_of(title, '(') as int;
    let close = last_of(title, ')');
    if open < title.len() && open + 1 < close < title.len() {
        let inner = trim(title.subrange(open + 1, close));
        if inner.len() == 0 {
            None
        } else {
            Some(normalized(inner))
        }
    } else {
        None
    }
}

pub open spec fn parenthetical_or_empty(title: Seq<char>) -> Seq<char> {
    match parenthetical(title) {
        Some(inner) => inner,
        None => Seq::empty(),
    }
}

/// The normalised text before the first `(`.
pub open spec fn title_head(title: Seq<char>) -> Seq<char> {
    let open = first_of(title, '(') as int;
    normalized(trim(title.take(if open <= title.len() { open } else { title.len() as int })))
}

/// The share of distinct words that two texts have in common, in single precision.
pub open spec fn overlap(left: Seq<char>, right: Seq<char>) -> (nat, int) {
    let l = words(left).to_set();
    let r = words(right).to_set();
    if l.len() == 0 || r.len() == 0 {
        (0, 0)
    } else {
        quotient(
            single_of(l.intersect(r).len()),
            single_of(if l.len() >= r.len() { l.len() } else { r.len() }),
        )
    }
}

/// 0.6 in single precision.
pub open spec fn six_tenths() -> (nat, int) {
    (10066330, -24)
}

/// 0.34 in single precision.
pub open spec fn about_a_third() -> (nat, int) {
    (11408507, -25)
}

pub open spec fn one_half() -> (nat, int) {
    (8388608, -24)
}

/// The whole number nearest to `factor` times the shared part of two texts, never more
/// than `factor`.
pub open spec fn overlap_points(left: Seq<char>, right: Seq<char>, factor: nat) -> nat {
    let points = nearest_whole(product(overlap(left, right), single_of(factor)));
    if points <= factor {
        points
    } else {
        factor
    }
}

fn keep_normal(v: &Vec<char>) -> (r: Vec<char>)
    ensures
        r@ == v@.filter_map(normal_chars()),
{
    let mut out: Vec<char> = Vec::new();
    let mut i: usize = 0;
    while i < v.len()
        invariant
            i <= v.len(),
            out@ == v@.take(i as int).filter_map(normal_chars()),
        decreases v.len() - i,
    {
        let c = v[i];
        proof {
            v@.lemma_filter_map_take_succ(normal_chars(), i as int);
            assert(normal_chars()(v@[i as int]) == normal_char(c));
        }
        if is_ascii_alphanumeric(c) {
            out.push(to_lower_char(c));
        } else if is_ascii_white_space(c) || c == '-' || c == '_' || c == '/' {
            out.push(' ');
        }
        i += 1;
    }
    assert(v@.take(v.len() as int) =~= v@);
    out
}

pub fn normalize_chars(v: &Vec<char>) -> (r: Vec<char>)
    ensures
        r@ == normalized(v@),
{
    collapse_chars(&keep_normal(v))
}

pub fn compact_of(v: &Vec<char>) -> (r: Vec<char>)
    ensures
        r@ == compacted(v@),
{
    let mut out: Vec<char> = Vec::new();
    let mut i: usize = 0;
    while i < v.len()
        invariant
            i <= v.len(),
            out@ == v@.take(i as int).filter_map(compact_chars()),
        decreases v.len() - i,
    {
        let c = v[i];
        proof {
            v@.lemma_filter_map_take_succ(compact_chars(), i as int);
            assert(compact_chars()(v@[i as int]) == compact_char(c));
        }
        if is_ascii_alphanumeric(c) {
            out.push(to_lower_char(c));
        }
        i += 1;
    }
    assert(v@.take(v.len() as int) =~= v@);
    out
}

fn capitalize(w: &Vec<char>) -> (r: Vec<char>)
    ensures
        r@ == capitalized(w@),
{
    let mut out: Vec<char> = Vec::new();
    if w.len() == 0 {
        assert(out@ =~= w@);
        return out;
    }
    out.push(to_upper_char(w[0]));
    let mut i: usize = 1;
    while i < w.len()
        invariant
            1 <= i <= w.len(),
            out.len() == i,
            out@[0] == upper_char(w@[0]),
            forall|k: int| 1 <= k < i ==> out@[k] == lower_char(w@[k]),
        decreases w.len() - i,
    {
        out.push(to_lower_char(w[i]));
        i += 1;
    }
    assert(out@ =~= capitalized(w@));
    out
}

pub fn title_case_chars(v: &Vec<char>) -> (r: Vec<char>)
    ensures
        r@ == title_cased(v@),
{
    let ws = split_words(&collapse_chars(v));
    let mut out: Vec<Vec<char>> = Vec::new();
    let mut i: usize = 0;
    while i < ws.len()
        invariant
            i <= ws.len(),
            out.len() == i,
            forall|k: int| 0 <= k < i ==> out@[k]@ == capitalized(ws@[k]@),
        decreases ws.len() - i,
    {
        out.push(capitalize(&ws[i]));
        i += 1;
    }
    proof {
        assert(char_texts(out@) =~= words(collapse(v@)).map_values(
            |w: Seq<char>| capitalized(w),
        )) by {
            assert(char_texts(ws@) == words(collapse(v@)));
            assert forall|k: int| 0 <= k < out.len() implies char_texts(out@)[k] == capitalized(
                #[trigger] words(collapse(v@))[k],
            ) by {
                assert(char_texts(ws@)[k] == ws@[k]@);
            }
        }
    }
    join_words(&out)
}

fn bare_word_of(v: &Vec<char>) -> (r: Vec<char>)
    ensures
        r@ == bare_word(v@),
{
    let mut from: usize = 0;
    assert(v@.skip(0) =~= v@);
    while from < v.len() && !is_ascii_alphanumeric(v[from])
        invariant
            from <= v.len(),
            strip_front(v@) == strip_front(v@.skip(from as int)),
        decreases v.len() - from,
    {
        proof {
            assert(v@.skip(from as int).drop_first() =~= v@.skip(from + 1));
        }
        from += 1;
    }
    let ghost front = v@.skip(from as int);
    assert(strip_front(v@) == front);
    let mut to: usize = v.len();
    while from < to && !is_ascii_alphanumeric(v[to - 1])
        invariant
            from <= to <= v.len(),
            front == v@.skip(from as int),
            strip_back(front) == strip_back(v@.subrange(from as int, to as int)),
        decreases to,
    {
        proof {
            assert(v@.subrange(from as int, to as int).drop_last() =~= v@.subrange(
                from as int,
                to - 1,
            ));
        }
        to -= 1;
    }
    copy_range(v, from, to)
}

pub fn chars_have_word(hay: &Vec<char>, needle: &Vec<char>) -> (r: bool)
    ensures
        r == has_word(hay@, needle@),
{
    let ws = split_words(hay);
    let mut i: usize = 0;
    while i < ws.len()
        invariant
            i <= ws.len(),
            char_texts(ws@) == words(hay@),
            forall|k: int|
                0 <= k < i ==> #[trigger] words(hay@)[k] != needle@ && bare_word(words(hay@)[k])
                    != needle@,
        decreases ws.len() - i,
    {
        assert(char_texts(ws@)[i as int] == ws@[i as int]@);
        if chars_equal(&ws[i], needle) || chars_equal(&bare_word_of(&ws[i]), needle) {
            return true;
        }
        i += 1;
    }
    false
}

/// The distinct words of a list, first occurrences in order.
fn distinct_words(ws: &Vec<Vec<char>>) -> (r: Vec<Vec<char>>)
    ensures
        char_texts(r@).no_duplicates(),
        char_texts(r@).to_set() == char_texts(ws@).to_set(),
        r.len() == char_texts(ws@).to_set().len(),
{
    let mut out: Vec<Vec<char>> = Vec::new();
    let mut i: usize = 0;
    while i < ws.len()
        invariant
            i <= ws.len(),
            char_texts(out@).no_duplicates(),
            char_texts(out@).to_set() == char_texts(ws@).take(i as int).to_set(),
        decreases ws.len() - i,
    {
        let ghost before = char_texts(out@);
        let ghost seen = char_texts(ws@).take(i as int);
        let ghost word = char_texts(ws@)[i as int];
        proof {
            assert(char_texts(ws@).take(i + 1) =~= seen.push(word));
            seen.lemma_push_to_set_commute(word);
        }
        if !word_listed(&out, &ws[i]) {
            let mut copy: Vec<char> = Vec::new();
            append_word(&mut copy, &ws[i]);
            out.push(copy);
            proof {
                assert(char_texts(out@) =~= before.push(word));
                before.lemma_push_to_set_commute(word);
                assert(!before.contains(word));
                assert(char_texts(out@).no_duplicates());
            }
        } else {
            proof {
                assert(before.to_set().contains(word));
                assert(before.to_set().insert(word) =~= before.to_set());
            }
        }
        i += 1;
    }
    proof {
        assert(char_texts(ws@).take(ws.len() as int) =~= char_texts(ws@));
        char_texts(out@).unique_seq_to_set();
    }
    out
}

fn append_word(out: &mut Vec<char>, w: &Vec<char>)
    requires
        old(out)@.len() == 0,
    ensures
        final(out)@ == w@,
{
    crate::text::append_chars(out, w);
    assert(out@ =~= w@);
}

fn word_listed(ws: &Vec<Vec<char>>, w: &Vec<char>) -> (r: bool)
    ensures
        r == char_texts(ws@).contains(w@),
{
    let mut i: usize = 0;
    while i < ws.len()
        invariant
            i <= ws.len(),
            forall|k: int| 0 <= k < i ==> #[trigger] char_texts(ws@)[k] != w@,
        decreases ws.len() - i,
    {
        assert(char_texts(ws@)[i as int] == ws@[i as int]@);
        if chars_equal(&ws[i], w) {
            return true;
        }
        i += 1;
    }
    false
}

/// Counts the words of `left` that `right` lists too.
fn shared_count(left: &Vec<Vec<char>>, right: &Vec<Vec<char>>) -> (r: usize)
    requires
        char_texts(left@).no_duplicates(),
    ensures
        r == char_texts(left@).to_set().intersect(char_texts(right@).to_set()).len(),
        r <= left.len(),
{
    let ghost l = char_texts(left@);
    let ghost rs = char_texts(right@).to_set();
    let mut count: usize = 0;
    let mut i: usize = 0;
    proof {
        assert(l.take(0).to_set().intersect(rs) =~= Set::empty());
    }
    while i < left.len()
        invariant
            i <= left.len(),
            count <= i,
            l == char_texts(left@),
            l.no_duplicates(),
            rs == char_texts(right@).to_set(),
            count == l.take(i as int).to_set().intersect(rs).len(),
            l.take(i as int).to_set().intersect(rs).finite(),
        decreases left.len() - i,
    {
        let ghost word = l[i as int];
        let ghost before = l.take(i as int).to_set().intersect(rs);
        proof {
            assert(l.take(i + 1) =~= l.take(i as int).push(word));
            l.take(i as int).lemma_push_to_set_commute(word);
            assert(!l.take(i as int).contains(word)) by {
                assert forall|k: int| 0 <= k < i implies l.take(i as int)[k] != word by {
                    assert(l[k] != l[i as int]);
                }
            }
        }
        if word_listed(right, &left[i]) {
            count += 1;
            proof {
                assert(l.take(i + 1).to_set().intersect(rs) =~= before.insert(word));
            }
        } else {
            proof {
                assert(l.take(i + 1).to_set().intersect(rs) =~= before);
            }
        }
        i += 1;
    }
    assert(l.take(left.len() as int) =~= l);
    count
}

/// The share of distinct words that two texts have in common.
pub fn word_overlap(left: &Vec<char>, right: &Vec<char>) -> (r: Single)
    ensures
        r.pair() == overlap(left@, right@),
        r.mantissa == 0 || r.normal(),
        -200 <= r.exponent <= 200,
{
    let l = distinct_words(&split_words(left));
    let rr = distinct_words(&split_words(right));
    if l.len() == 0 || rr.len() == 0 {
        return Single { mantissa: 0, exponent: 0 };
    }
    let shared: usize = shared_count(&l, &rr);
    let most: usize = if l.len() >= rr.len() {
        l.len()
    } else {
        rr.len()
    };
    Single::of(shared as u64).divided_by(Single::of(most as u64))
}

pub fn word_overlap_points(left: &Vec<char>, right: &Vec<char>, factor: u32) -> (r: u32)
    requires
        factor <= 1000,
    ensures
        r == overlap_points(left@, right@, factor as nat),
        r <= factor,
{
    let points: u64 = word_overlap(left, right).times(Single::of(factor as u64)).nearest();
    if points <= factor as u64 {
        points as u32
    } else {
        factor
    }
}

/// How a title matches a name.
#[derive(Debug, Clone, Copy, PartialEq, Eq, Structural)]
pub enum TitleMatchTier {
    NoMatch,
    Fuzzy,
    NearExact,
    Exact,
}

impl TitleMatchTier {
    /// Near exact or better.
    pub open spec fn near(self) -> bool {
        self == TitleMatchTier::NearExact || self == TitleMatchTier::Exact
    }

    pub fn is_near(self) -> (r: bool)
        ensures
            r == self.near(),
    {
        match self {
            TitleMatchTier::NearExact => true,
            TitleMatchTier::Exact => true,
            TitleMatchTier::Fuzzy => false,
            TitleMatchTier::NoMatch => false,
        }
    }
}

/// How well `title` matches the name `target`.
pub open spec fn match_tier(target: Seq<char>, title: Seq<char>) -> TitleMatchTier {
    let name = name_key(target);
    let whole = normalized(title);
    let head = title_head(title);
    let short = compacted(name);
    if name.len() == 0 || whole.len() == 0 {
        TitleMatchTier::NoMatch
    } else if whole == name || head == name || (short.len() > 0 && (compacted(whole) == short
        || compacted(head) == short)) {
        TitleMatchTier::Exact
    } else if has_prefix(whole, name) || has_prefix(head, name) || (short.len() > 0 && (has_prefix(
        compacted(whole),
        short,
    ) || has_prefix(compacted(head), short))) {
        TitleMatchTier::NearExact
    } else if at_least(overlap(name, whole), six_tenths()) {
        TitleMatchTier::Fuzzy
    } else {
        TitleMatchTier::NoMatch
    }
}

pub fn name_key_of(s: &str) -> (r: Vec<char>)
    ensures
        r@ == name_key(s@),
{
    normalize_chars(&collapse_chars(&chars_of(s)))
}

pub fn title_head_of(title: &str) -> (r: Vec<char>)
    ensures
        r@ == title_head(title@),
{
    let chars = chars_of(title);
    let end: usize = match find_char(&chars, '(') {
        Some(i) => i,
        None => chars.len(),
    };
    let head = copy_range(&chars, 0, end);
    assert(head@ =~= title@.take(end as int));
    normalize_chars(&trim_chars(&head))
}

pub fn parenthetical_of(title: &str) -> (r: Option<Vec<char>>)
    ensures
        match r {
            Some(inner) => parenthetical(title@) == Some(inner@),
            None => parenthetical(title@) is None,
        },
{
    let chars = chars_of(title);
    match find_char(&chars, '(') {
        None => None,
        Some(open) => match find_last_char(&chars, ')') {
            None => None,
            Some(close) => {
                if close <= open || close == open + 1 {
                    return None;
                }
                let inner = trim_chars(&copy_range(&chars, open + 1, close));
                if inner.len() == 0 {
                    None
                } else {
                    Some(normalize_chars(&inner))
                }
            },
        },
    }
}

pub fn title_match(target: &str, title: &str) -> (r: TitleMatchTier)
    ensures
        r == match_tier(target@, title@),
{
    let name = name_key_of(target);
    let whole = normalize_chars(&chars_of(title));
    if name.len() == 0 || whole.len() == 0 {
        return TitleMatchTier::NoMatch;
    }
    let head = title_head_of(title);
    let short = compact_of(&name);
    let short_whole = compact_of(&whole);
    let short_head = compact_of(&head);
    if chars_equal(&whole, &name) || chars_equal(&head, &name) || (short.len() > 0 && (chars_equal(
        &short_whole,
        &short,
    ) || chars_equal(&short_head, &short))) {
        return TitleMatchTier::Exact;
    }
    if chars_occur_at(&whole, &name, 0) || chars_occur_at(&head, &name, 0) || (short.len() > 0 && (
    chars_occur_at(&short_whole, &short, 0) || chars_occur_at(&short_head, &short, 0))) {
        return TitleMatchTier::NearExact;
    }
    let share = word_overlap(&name, &whole);
    if share.at_least(Single { mantissa: 10066330, exponent: -24 }) {
        TitleMatchTier::Fuzzy
    } else {
        TitleMatchTier::NoMatch
    }
}

} // verus!
