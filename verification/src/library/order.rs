//! Stable sorting by keys.
//!
//! A key is a list of parts, and a part a list of numbers: a text is the part of its code
//! points, and a number the part that holds it alone. Keys are compared part by part.

use vstd::prelude::*;

verus! {

/// `a` comes before `b` as a word comes before another one in a dictionary.
pub open spec fn part_less(a: Seq<u32>, b: Seq<u32>) -> bool
    decreases a.len(),
{
    if b.len() == 0 {
        false
    } else if a.len() == 0 {
        true
    } else if a[0] != b[0] {
        a[0] < b[0]
    } else {
        part_less(a.skip(1), b.skip(1))
    }
}

/// The first part in which two keys differ decides; a key that ends comes first.
pub open spec fn key_less(a: Seq<Seq<u32>>, b: Seq<Seq<u32>>) -> bool
    decreases a.len(),
{
    if b.len() == 0 {
        false
    } else if a.len() == 0 {
        true
    } else if a[0] != b[0] {
        part_less(a[0], b[0])
    } else {
        key_less(a.skip(1), b.skip(1))
    }
}

/// The first position whose key comes after `key`.
pub open spec fn slot(keys: Seq<Seq<Seq<u32>>>, key: Seq<Seq<u32>>) -> nat
    decreases keys.len(),
{
    if keys.len() == 0 {
        0
    } else if slot(keys.drop_last(), key) < keys.len() - 1 {
        slot(keys.drop_last(), key)
    } else if key_less(key, keys.last()) {
        (keys.len() - 1) as nat
    } else {
        keys.len()
    }
}

/// The keys in a given order.
pub open spec fn picked<A>(items: Seq<A>, order: Seq<int>) -> Seq<A> {
    order.map_values(|i: int| items[i])
}

/// The positions of the keys in ascending order; equal keys keep their order.
pub open spec fn sorted_indices(keys: Seq<Seq<Seq<u32>>>) -> Seq<int>
    decreases keys.len(),
{
    if keys.len() == 0 {
        Seq::empty()
    } else {
        let rest = sorted_indices(keys.drop_last());
        rest.insert(
            slot(picked(keys, rest), keys.last()) as int,
            keys.len() - 1,
        )
    }
}

/// No key comes before one that stands in front of it.
pub open spec fn ascending(keys: Seq<Seq<Seq<u32>>>) -> bool {
    forall|i: int, j: int| 0 <= i < j < keys.len() ==> !key_less(#[trigger] keys[j], #[trigger] keys[i])
}

proof fn lemma_part_order(a: Seq<u32>, b: Seq<u32>, c: Seq<u32>)
    ensures
        !part_less(a, a),
        part_less(a, b) || part_less(b, a) || a == b,
        part_less(a, b) && part_less(b, c) ==> part_less(a, c),
    decreases a.len() + b.len() + c.len(),
{
    if a.len() > 0 {
        lemma_part_irreflexive(a);
    }
    if a.len() > 0 && b.len() > 0 {
        if a[0] == b[0] {
            if c.len() > 0 {
                lemma_part_order(a.skip(1), b.skip(1), c.skip(1));
            } else {
                lemma_part_order(a.skip(1), b.skip(1), c);
            }
            if a.skip(1) == b.skip(1) {
                assert(a =~= seq![a[0]] + a.skip(1));
                assert(b =~= seq![b[0]] + b.skip(1));
            }
        } else if c.len() > 0 && b[0] == c[0] {
        }
    } else if a.len() == 0 && b.len() == 0 {
        assert(a =~= b);
    }
}

proof fn lemma_part_irreflexive(a: Seq<u32>)
    ensures
        !part_less(a, a),
    decreases a.len(),
{
    if a.len() > 0 {
        lemma_part_irreflexive(a.skip(1));
    }
}

proof fn lemma_key_irreflexive(a: Seq<Seq<u32>>)
    ensures
        !key_less(a, a),
    decreases a.len(),
{
    if a.len() > 0 {
        lemma_key_irreflexive(a.skip(1));
    }
}

/// The order of keys is a strict total order.
pub proof fn keys_are_totally_ordered(a: Seq<Seq<u32>>, b: Seq<Seq<u32>>, c: Seq<Seq<u32>>)
    ensures
        !key_less(a, a),
        key_less(a, b) || key_less(b, a) || a == b,
        key_less(a, b) && key_less(b, c) ==> key_less(a, c),
    decreases a.len() + b.len() + c.len(),
{
    lemma_key_irreflexive(a);
    if a.len() > 0 && b.len() > 0 {
        if a[0] == b[0] {
            if c.len() > 0 {
                keys_are_totally_ordered(a.skip(1), b.skip(1), c.skip(1));
            } else {
                keys_are_totally_ordered(a.skip(1), b.skip(1), c);
            }
            if a.skip(1) == b.skip(1) {
                assert(a =~= seq![a[0]] + a.skip(1));
                assert(b =~= seq![b[0]] + b.skip(1));
            }
        } else {
            if c.len() > 0 {
                lemma_part_order(a[0], b[0], c[0]);
                lemma_part_order(a[0], c[0], b[0]);
                lemma_part_order(b[0], a[0], c[0]);
            } else {
                lemma_part_order(a[0], b[0], a[0]);
            }
        }
    } else if a.len() == 0 && b.len() == 0 {
        assert(a =~= b);
    }
}

proof fn lemma_slot(keys: Seq<Seq<Seq<u32>>>, key: Seq<Seq<u32>>)
    ensures
        slot(keys, key) <= keys.len(),
        slot(keys, key) < keys.len() ==> key_less(key, keys[slot(keys, key) as int]),
        forall|i: int| 0 <= i < slot(keys, key) ==> !key_less(key, #[trigger] keys[i]),
    decreases keys.len(),
{
    if keys.len() > 0 {
        let rest = keys.drop_last();
        lemma_slot(rest, key);
        assert forall|i: int| 0 <= i < slot(keys, key) implies !key_less(
            key,
            #[trigger] keys[i],
        ) by {
            if i < rest.len() {
                assert(rest[i] == keys[i]);
            }
        }
    }
}

proof fn lemma_slot_is(keys: Seq<Seq<Seq<u32>>>, key: Seq<Seq<u32>>, at: nat)
    requires
        at <= keys.len(),
        at < keys.len() ==> key_less(key, keys[at as int]),
        forall|i: int| 0 <= i < at ==> !key_less(key, #[trigger] keys[i]),
    ensures
        slot(keys, key) == at,
{
    lemma_slot(keys, key);
    let s = slot(keys, key);
    if s < at {
        assert(!key_less(key, keys[s as int]));
    }
    if at < s {
        assert(!key_less(key, keys[at as int]));
    }
}

/// A key that comes before one of ascending keys comes before all behind it.
proof fn lemma_ascending_above(keys: Seq<Seq<Seq<u32>>>, key: Seq<Seq<u32>>, i: int, j: int)
    requires
        ascending(keys),
        0 <= i <= j < keys.len(),
        key_less(key, keys[i]),
    ensures
        key_less(key, keys[j]),
{
    if i < j {
        assert(!key_less(keys[j], keys[i]));
        keys_are_totally_ordered(keys[i], keys[j], keys[i]);
        keys_are_totally_ordered(key, keys[i], keys[j]);
    }
}

/// Sorting gives every position once, in ascending order of the keys, and in the old order
/// where keys are equal.
pub proof fn sorting_is_stable(keys: Seq<Seq<Seq<u32>>>)
    ensures
        sorted_indices(keys).len() == keys.len(),
        sorted_indices(keys).no_duplicates(),
        forall|i: int|
            0 <= i < keys.len() ==> 0 <= #[trigger] sorted_indices(keys)[i] < keys.len(),
        ascending(picked(keys, sorted_indices(keys))),
        forall|i: int, j: int|
            0 <= i < j < keys.len() && keys[sorted_indices(keys)[i]] == keys[sorted_indices(
                keys,
            )[j]] ==> #[trigger] sorted_indices(keys)[i] < #[trigger] sorted_indices(keys)[j],
    decreases keys.len(),
{
    if keys.len() > 0 {
        let before = keys.drop_last();
        sorting_is_stable(before);
        let rest = sorted_indices(before);
        let n = keys.len() - 1;
        let old_keys = picked(before, rest);
        assert(picked(keys, rest) =~= old_keys);
        let key = keys.last();
        let at = slot(old_keys, key) as int;
        lemma_slot(old_keys, key);
        let order = sorted_indices(keys);
        assert(order == rest.insert(at, n));
        let all = picked(keys, order);
        assert forall|i: int| 0 <= i < keys.len() implies #[trigger] all[i] == (if i < at {
            old_keys[i]
        } else if i == at {
            key
        } else {
            old_keys[i - 1]
        }) by {}
        assert forall|i: int, j: int| 0 <= i < j < all.len() implies !key_less(
            #[trigger] all[j],
            #[trigger] all[i],
        ) by {
            if i == at {
                lemma_ascending_above(old_keys, key, at, j - 1);
                keys_are_totally_ordered(key, old_keys[j - 1], key);
            } else if j == at {
                assert(!key_less(key, old_keys[i]));
            }
        }
        assert forall|i: int, j: int|
            0 <= i < j < keys.len() && keys[order[i]] == keys[order[j]] implies #[trigger] order[i]
            < #[trigger] order[j] by {
            assert(all[i] == keys[order[i]] && all[j] == keys[order[j]]);
            if i == at {
                lemma_ascending_above(old_keys, key, at, j - 1);
                keys_are_totally_ordered(key, key, key);
            } else if j == at {
                assert(order[j] == n);
            } else {
                let x = if i < at {
                    i
                } else {
                    i - 1
                };
                let y = if j < at {
                    j
                } else {
                    j - 1
                };
                assert(rest[x] == order[i] && rest[y] == order[j]);
                assert(before[rest[x]] == keys[rest[x]]);
                assert(before[rest[y]] == keys[rest[y]]);
            }
        }
    }
}

/// The contents of one key.
pub open spec fn key_view(key: Seq<Vec<u32>>) -> Seq<Seq<u32>> {
    key.map_values(|p: Vec<u32>| p@)
}

/// The contents of a list of keys.
pub open spec fn keys_view(keys: Seq<Vec<Vec<u32>>>) -> Seq<Seq<Seq<u32>>> {
    keys.map_values(|k: Vec<Vec<u32>>| key_view(k@))
}

pub open spec fn indices_view(order: Seq<usize>) -> Seq<int> {
    order.map_values(|i: usize| i as int)
}

fn is_part_less(a: &Vec<u32>, b: &Vec<u32>) -> (r: bool)
    ensures
        r == part_less(a@, b@),
{
    let mut i: usize = 0;
    assert(a@.skip(0) =~= a@);
    assert(b@.skip(0) =~= b@);
    while i < a.len() && i < b.len()
        invariant
            i <= a.len(),
            i <= b.len(),
            part_less(a@, b@) == part_less(a@.skip(i as int), b@.skip(i as int)),
        decreases a.len() - i,
    {
        if a[i] != b[i] {
            return a[i] < b[i];
        }
        assert(a@.skip(i as int).skip(1) =~= a@.skip(i + 1));
        assert(b@.skip(i as int).skip(1) =~= b@.skip(i + 1));
        i += 1;
    }
    i < b.len()
}

fn parts_equal(a: &Vec<u32>, b: &Vec<u32>) -> (r: bool)
    ensures
        r == (a@ == b@),
{
    if a.len() != b.len() {
        return false;
    }
    let mut i: usize = 0;
    while i < a.len()
        invariant
            i <= a.len(),
            a.len() == b.len(),
            forall|k: int| 0 <= k < i ==> a@[k] == b@[k],
        decreases a.len() - i,
    {
        if a[i] != b[i] {
            assert(a@[i as int] != b@[i as int]);
            return false;
        }
        i += 1;
    }
    assert(a@ =~= b@);
    true
}

pub fn is_key_less(a: &Vec<Vec<u32>>, b: &Vec<Vec<u32>>) -> (r: bool)
    ensures
        r == key_less(key_view(a@), key_view(b@)),
{
    let ghost x = key_view(a@);
    let ghost y = key_view(b@);
    let mut i: usize = 0;
    assert(x.skip(0) =~= x);
    assert(y.skip(0) =~= y);
    while i < a.len() && i < b.len()
        invariant
            i <= a.len(),
            i <= b.len(),
            x == key_view(a@),
            y == key_view(b@),
            key_less(x, y) == key_less(x.skip(i as int), y.skip(i as int)),
        decreases a.len() - i,
    {
        assert(x.skip(i as int)[0] == a@[i as int]@);
        assert(y.skip(i as int)[0] == b@[i as int]@);
        if !parts_equal(&a[i], &b[i]) {
            return is_part_less(&a[i], &b[i]);
        }
        assert(x.skip(i as int).skip(1) =~= x.skip(i + 1));
        assert(y.skip(i as int).skip(1) =~= y.skip(i + 1));
        i += 1;
    }
    i < b.len()
}

/// The positions of the keys in ascending order; equal keys keep their order.
pub fn sort_order(keys: &Vec<Vec<Vec<u32>>>) -> (r: Vec<usize>)
    ensures
        indices_view(r@) == sorted_indices(keys_view(keys@)),
        r.len() == keys.len(),
        forall|i: int| 0 <= i < r.len() ==> #[trigger] r@[i] < keys.len(),
{
    let ghost all = keys_view(keys@);
    let mut order: Vec<usize> = Vec::new();
    let mut n: usize = 0;
    assert(indices_view(order@) =~= Seq::empty());
    while n < keys.len()
        invariant
            n <= keys.len(),
            all == keys_view(keys@),
            order.len() == n,
            forall|i: int| 0 <= i < order.len() ==> #[trigger] order@[i] < n,
            indices_view(order@) == sorted_indices(all.take(n as int)),
        decreases keys.len() - n,
    {
        let ghost rest = indices_view(order@);
        let ghost sorted = picked(all, rest);
        let ghost key = all[n as int];
        proof {
            sorting_is_stable(all.take(n as int));
            assert(picked(all.take(n as int), rest) =~= sorted);
            assert(ascending(sorted));
        }
        let mut low: usize = 0;
        let mut high: usize = order.len();
        while low < high
            invariant
                low <= high <= order.len(),
                n < keys.len(),
                order.len() == n,
                all == keys_view(keys@),
                rest == indices_view(order@),
                sorted == picked(all, rest),
                key == all[n as int],
                ascending(sorted),
                forall|i: int| 0 <= i < order.len() ==> #[trigger] order@[i] < n,
                forall|i: int| 0 <= i < low ==> !key_less(key, #[trigger] sorted[i]),
                forall|i: int| high <= i < sorted.len() ==> key_less(key, #[trigger] sorted[i]),
            decreases high - low,
        {
            let middle: usize = low + (high - low) / 2;
            assert(sorted[middle as int] == all[order@[middle as int] as int]);
            if is_key_less(&keys[n], &keys[order[middle]]) {
                proof {
                    assert forall|i: int| middle <= i < sorted.len() implies key_less(
                        key,
                        #[trigger] sorted[i],
                    ) by {
                        lemma_ascending_above(sorted, key, middle as int, i);
                    }
                }
                high = middle;
            } else {
                proof {
                    assert forall|i: int| 0 <= i <= middle implies !key_less(
                        key,
                        #[trigger] sorted[i],
                    ) by {
                        if key_less(key, sorted[i]) {
                            lemma_ascending_above(sorted, key, i, middle as int);
                        }
                    }
                }
                low = middle + 1;
            }
        }
        proof {
            lemma_slot_is(sorted, key, low as nat);
            let more = all.take(n + 1);
            assert(more.drop_last() =~= all.take(n as int));
            assert(picked(more, rest) =~= sorted);
            assert(indices_view(order@.insert(low as int, n)) =~= rest.insert(low as int, n as int));
        }
        order.insert(low, n);
        n += 1;
    }
    assert(all.take(keys.len() as int) =~= all);
    order
}

/// The part of a text.
pub open spec fn text_part(s: Seq<char>) -> Seq<u32> {
    s.map_values(|c: char| c as u32)
}

pub fn text_part_of(v: &Vec<char>) -> (r: Vec<u32>)
    ensures
        r@ == text_part(v@),
{
    let mut out: Vec<u32> = Vec::new();
    let mut i: usize = 0;
    while i < v.len()
        invariant
            i <= v.len(),
            out.len() == i,
            forall|k: int| 0 <= k < i ==> out@[k] == v@[k] as u32,
        decreases v.len() - i,
    {
        out.push(v[i] as u32);
        i += 1;
    }
    assert(out@ =~= text_part(v@));
    out
}

} // verus!
