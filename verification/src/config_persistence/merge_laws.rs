//! What merging a layout into a document changes, and what it leaves alone.

use crate::config_persistence::laws::{
    entry_at, lemma_distinct_without, lemma_set_other, lemma_with_item_other, lemma_with_item_same,
    lemma_without_other,
};
use crate::config_persistence::merge::{
    follows, follows_entry, known_keys, lemma_merged_rows, lemma_plain_item, merged, merged_item,
    merged_keys, merged_rows, place_under, with_table, without_stale, LayoutPlace,
};
use crate::document::{
    distinct_keys, has_entry, item_at, kind_of, lemma_position, lemma_position_is, lemma_with_item,
    position, present_keys, set_item, sound, sound_entry, usual, without_key, EntryView, ItemView,
    RowView,
};
use vstd::prelude::*;

verus! {

proof fn lemma_merged_item_other(
    place: LayoutPlace,
    entries: Seq<EntryView>,
    key: Seq<char>,
    source: EntryView,
    other: Seq<char>,
)
    requires
        other != key,
    ensures
        entry_at(merged_item(place, entries, key, source), other) == entry_at(entries, other),
{
    match source.item {
        ItemView::Missing => {},
        ItemView::Table { entries: inner, .. } => {
            let ready = with_table(entries, key);
            lemma_with_item_other(
                entries,
                key,
                ItemView::Table { decor: usual(), entries: Seq::empty() },
                other,
            );
            match item_at(ready, key) {
                ItemView::Table { decor, entries: old_inner } => {
                    lemma_with_item_other(
                        ready,
                        key,
                        ItemView::Table { decor, entries: merged(place, old_inner, inner) },
                        other,
                    );
                },
                _ => {},
            }
        },
        ItemView::Rows { rows } => match item_at(entries, key) {
            ItemView::Rows { rows: old_rows } => {
                lemma_with_item_other(
                    entries,
                    key,
                    ItemView::Rows { rows: merged_rows(place, old_rows, rows, rows.len()) },
                    other,
                );
            },
            _ => {
                lemma_set_other(entries, key, source.item, other);
            },
        },
        ItemView::Value { .. } => {
            lemma_set_other(entries, key, source.item, other);
        },
    }
}

proof fn lemma_merged_keys_other(
    place: LayoutPlace,
    entries: Seq<EntryView>,
    source: Seq<EntryView>,
    keys: Seq<Seq<char>>,
    other: Seq<char>,
)
    requires
        !keys.contains(other),
    ensures
        entry_at(merged_keys(place, entries, source, keys), other) == entry_at(entries, other),
    decreases keys.len(),
{
    if keys.len() > 0 {
        let rest = keys.drop_last();
        assert(!rest.contains(other)) by {
            if rest.contains(other) {
                let i = choose|i: int| 0 <= i < rest.len() && rest[i] == other;
                assert(keys[i] == other);
            }
        }
        assert(keys[keys.len() - 1] == keys.last());
        lemma_merged_keys_other(place, entries, source, rest, other);
        let at = position(source, keys.last());
        if at < source.len() {
            lemma_merged_item_other(
                place_under(place, keys.last()),
                merged_keys(place, entries, source, rest),
                keys.last(),
                source[at as int],
                other,
            );
        }
    }
}

/// A key that the layout does not know and the merged table does not have keeps its value and its
/// comments.
pub proof fn merging_keeps_other_keys(
    place: LayoutPlace,
    entries: Seq<EntryView>,
    source: Seq<EntryView>,
    key: Seq<char>,
)
    requires
        !present_keys(source).contains(key),
        !known_keys(place).contains(key),
    ensures
        entry_at(merged(place, entries, source), key) == entry_at(entries, key),
{
    let start = without_stale(entries, source, known_keys(place));
    lemma_without_stale_other(entries, source, known_keys(place), key);
    lemma_merged_keys_other(place, start, source, present_keys(source), key);
}

proof fn lemma_merged_value(
    place: LayoutPlace,
    entries: Seq<EntryView>,
    source: Seq<EntryView>,
    keys: Seq<Seq<char>>,
    key: Seq<char>,
)
    requires
        keys.contains(key),
        item_at(source, key) is Value,
    ensures
        item_at(merged_keys(place, entries, source, keys), key) is Value,
        item_at(merged_keys(place, entries, source, keys), key)->Value_value == item_at(
            source,
            key,
        )->Value_value,
    decreases keys.len(),
{
    let rest = keys.drop_last();
    let now = merged_keys(place, entries, source, rest);
    let last = keys.last();
    let at = position(source, last);
    if last == key {
        let item = source[at as int].item;
        let current = item_at(now, key);
        lemma_with_item_same(now, key, item);
        if current is Value {
            lemma_with_item_same(
                now,
                key,
                ItemView::Value { value: item->Value_value, decor: current->Value_decor },
            );
        }
    } else {
        let i = choose|i: int| 0 <= i < keys.len() && keys[i] == key;
        assert(rest[i] == key);
        lemma_merged_value(place, entries, source, rest, key);
        if at < source.len() {
            lemma_merged_item_other(place_under(place, last), now, last, source[at as int], key);
        }
    }
}

/// The values of a merged table are taken over.
pub proof fn merging_takes_values(
    place: LayoutPlace,
    entries: Seq<EntryView>,
    source: Seq<EntryView>,
    key: Seq<char>,
)
    requires
        item_at(source, key) is Value,
    ensures
        item_at(merged(place, entries, source), key) is Value,
        item_at(merged(place, entries, source), key)->Value_value == item_at(source, key)->Value_value,
{
    lemma_present(source, key);
    let start = without_stale(entries, source, known_keys(place));
    lemma_merged_value(place, start, source, present_keys(source), key);
}

proof fn lemma_present(entries: Seq<EntryView>, key: Seq<char>)
    requires
        !(item_at(entries, key) is Missing),
    ensures
        present_keys(entries).contains(key),
    decreases entries.len(),
{
    lemma_position(entries, key);
    let rest = entries.drop_last();
    let last = entries.last();
    let p = position(entries, key);
    lemma_position(rest, key);
    if p < entries.len() - 1 {
        assert(rest[p as int] == entries[p as int]);
        lemma_position_is(rest, key, p);
        lemma_present(rest, key);
        let keys = present_keys(rest);
        let i = choose|i: int| 0 <= i < keys.len() && keys[i] == key;
        assert(present_keys(entries)[i] == key);
    } else {
        let keys = present_keys(entries);
        assert(keys[keys.len() - 1] == key);
    }
}

proof fn lemma_follows_itself(place: LayoutPlace, entries: Seq<EntryView>)
    ensures
        follows(place, entries, entries),
    decreases entries, 1nat,
{
    assert forall|key: Seq<char>| #[trigger] known_keys(place).contains(key) implies ({
        let at = position(entries, key);
        if at < entries.len() {
            follows_entry(place_under(place, key), item_at(entries, key), entries[at as int])
        } else {
            item_at(entries, key) is Missing
        }
    }) by {
        let at = position(entries, key);
        if at < entries.len() {
            lemma_entry_follows_itself(place_under(place, key), entries[at as int]);
        }
    }
}

proof fn lemma_entry_follows_itself(place: LayoutPlace, entry: EntryView)
    ensures
        follows_entry(place, entry.item, entry),
    decreases entry, 0nat,
{
    match entry.item {
        ItemView::Table { entries, .. } => {
            lemma_follows_itself(place, entries);
        },
        ItemView::Rows { rows } => {
            assert forall|i: int| 0 <= i < rows.len() implies follows(
                place,
                (#[trigger] rows[i]).entries,
                rows[i].entries,
            ) by {
                assert(decreases_to!(rows => rows[i]));
                lemma_follows_itself(place, rows[i].entries);
            }
        },
        _ => {},
    }
}

proof fn lemma_without_stale_other(
    entries: Seq<EntryView>,
    source: Seq<EntryView>,
    keys: Seq<Seq<char>>,
    key: Seq<char>,
)
    requires
        !keys.contains(key) || !(item_at(source, key) is Missing),
    ensures
        entry_at(without_stale(entries, source, keys), key) == entry_at(entries, key),
    decreases keys.len(),
{
    if keys.len() > 0 {
        let rest = keys.drop_last();
        if rest.contains(key) {
            let i = choose|i: int| 0 <= i < rest.len() && rest[i] == key;
            assert(keys[i] == key);
        }
        assert(keys[keys.len() - 1] == keys.last());
        lemma_without_stale_other(entries, source, rest, key);
        if key != keys.last() {
            lemma_without_other(without_stale(entries, source, rest), keys.last(), key);
        }
    }
}

proof fn lemma_stale_goes(
    entries: Seq<EntryView>,
    source: Seq<EntryView>,
    keys: Seq<Seq<char>>,
    key: Seq<char>,
)
    requires
        distinct_keys(entries),
    ensures
        distinct_keys(without_stale(entries, source, keys)),
        keys.contains(key) && item_at(source, key) is Missing ==> !has_entry(
            without_stale(entries, source, keys),
            key,
        ),
    decreases keys.len(),
{
    if keys.len() > 0 {
        let rest = keys.drop_last();
        let before = without_stale(entries, source, rest);
        if keys.contains(key) && key != keys.last() {
            let i = choose|i: int| 0 <= i < keys.len() && keys[i] == key;
            assert(rest[i] == key);
        }
        lemma_stale_goes(entries, source, rest, key);
        lemma_distinct_without(before, keys.last());
        if key != keys.last() {
            lemma_without_other(before, keys.last(), key);
        }
    }
}

/// The item that is set under a key.
proof fn lemma_set_same(entries: Seq<EntryView>, key: Seq<char>, item: ItemView)
    ensures
        item is Value ==> item_at(set_item(entries, key, item), key) is Value && item_at(
            set_item(entries, key, item),
            key,
        )->Value_value == item->Value_value,
        item is Rows ==> item_at(set_item(entries, key, item), key) == item,
{
    let current = item_at(entries, key);
    if item is Rows && !(current is Missing) && !(current is Rows) {
        lemma_with_item(without_key(entries, key), key, item);
    } else if item is Value && current is Value {
        lemma_with_item(
            entries,
            key,
            ItemView::Value { value: item->Value_value, decor: current->Value_decor },
        );
    } else {
        lemma_with_item(entries, key, item);
    }
}

/// What is sound about entries holds of the one under a key.
proof fn lemma_sound_at(entries: Seq<EntryView>, key: Seq<char>)
    requires
        sound(entries),
    ensures
        match item_at(entries, key) {
            ItemView::Table { entries: inner, .. } => sound(inner),
            ItemView::Rows { rows } => forall|i: int|
                0 <= i < rows.len() ==> sound((#[trigger] rows[i]).entries),
            _ => true,
        },
{
    let at = position(entries, key);
    if at < entries.len() {
        assert(sound_entry(entries[at as int]));
    }
}

proof fn lemma_merged_row(
    place: LayoutPlace,
    old_rows: Seq<RowView>,
    rows: Seq<RowView>,
    n: nat,
    i: int,
)
    requires
        0 <= i < n <= rows.len(),
    ensures
        merged_rows(place, old_rows, rows, n).len() == n,
        merged_rows(place, old_rows, rows, n)[i].entries == (if i < old_rows.len() {
            merged(place, old_rows[i].entries, rows[i].entries)
        } else {
            rows[i].entries
        }),
    decreases n,
{
    lemma_merged_rows(place, old_rows, rows, n);
    lemma_merged_rows(place, old_rows, rows, (n - 1) as nat);
    if i < n - 1 {
        lemma_merged_row(place, old_rows, rows, (n - 1) as nat, i);
    }
}

/// An entry that is merged in is followed.
proof fn lemma_merged_item_follows(
    place: LayoutPlace,
    entries: Seq<EntryView>,
    key: Seq<char>,
    source: EntryView,
)
    requires
        sound_entry(source),
        sound_entry(EntryView { item: item_at(entries, key), ..source }),
        !(source.item is Missing),
    ensures
        follows_entry(place, item_at(merged_item(place, entries, key, source), key), source),
    decreases source, 0nat, 0nat,
{
    match source.item {
        ItemView::Missing => {},
        ItemView::Value { .. } => {
            lemma_set_same(entries, key, source.item);
        },
        ItemView::Table { entries: inner, .. } => {
            let ready = with_table(entries, key);
            if !(item_at(entries, key) is Table) {
                lemma_plain_item(
                    entries,
                    key,
                    ItemView::Table { decor: usual(), entries: Seq::empty() },
                );
            }
            let old_inner = item_at(ready, key)->Table_entries;
            merging_follows_the_source(place, old_inner, inner);
            lemma_with_item(
                ready,
                key,
                ItemView::Table {
                    decor: item_at(ready, key)->Table_decor,
                    entries: merged(place, old_inner, inner),
                },
            );
        },
        ItemView::Rows { rows } => match item_at(entries, key) {
            ItemView::Rows { rows: old_rows } => {
                let after = merged_rows(place, old_rows, rows, rows.len());
                lemma_with_item(entries, key, ItemView::Rows { rows: after });
                lemma_merged_rows(place, old_rows, rows, rows.len());
                assert forall|i: int| 0 <= i < rows.len() implies follows(
                    place,
                    (#[trigger] after[i]).entries,
                    rows[i].entries,
                ) by {
                    assert(decreases_to!(rows => rows[i]));
                    lemma_merged_row(place, old_rows, rows, rows.len(), i);
                    if i < old_rows.len() {
                        merging_follows_the_source(place, old_rows[i].entries, rows[i].entries);
                    } else {
                        lemma_follows_itself(place, rows[i].entries);
                    }
                }
            },
            _ => {
                lemma_set_same(entries, key, source.item);
                lemma_entry_follows_itself(place, source);
            },
        },
    }
}

proof fn lemma_present_keys(entries: Seq<EntryView>)
    requires
        distinct_keys(entries),
    ensures
        present_keys(entries).no_duplicates(),
        forall|key: Seq<char>| #[trigger]
            present_keys(entries).contains(key) <==> !(item_at(entries, key) is Missing),
    decreases entries.len(),
{
    if entries.len() > 0 {
        let rest = entries.drop_last();
        let last = entries.last();
        let keys = present_keys(entries);
        assert forall|i: int, j: int| 0 <= i < j < rest.len() implies (#[trigger] rest[i]).key != (
        #[trigger] rest[j]).key by {
            assert(entries[i].key != entries[j].key);
        }
        lemma_present_keys(rest);
        lemma_position(rest, last.key);
        if position(rest, last.key) < rest.len() {
            assert(entries[position(rest, last.key) as int].key != entries[rest.len() as int].key);
        }
        assert(item_at(rest, last.key) is Missing);
        assert forall|key: Seq<char>| #[trigger] keys.contains(key) <==> !(item_at(
            entries,
            key,
        ) is Missing) by {
            lemma_position(rest, key);
            lemma_position(entries, key);
            let before = present_keys(rest);
            assert(before.contains(key) <==> !(item_at(rest, key) is Missing));
            if before.contains(key) {
                let i = choose|i: int| 0 <= i < before.len() && before[i] == key;
                assert(keys[i] == key);
            } else if key == last.key && !(last.item is Missing) {
                assert(keys[keys.len() - 1] == key);
            } else if keys.contains(key) {
                let i = choose|i: int| 0 <= i < keys.len() && keys[i] == key;
                if i < before.len() {
                    assert(before[i] == key);
                }
            }
        }
        if !(last.item is Missing) {
            assert forall|i: int, j: int| 0 <= i < keys.len() && 0 <= j < keys.len() && i
                != j implies keys[i] != keys[j] by {
                let before = present_keys(rest);
                assert(!before.contains(last.key));
                if i < before.len() {
                    assert(before.contains(before[i]));
                }
                if j < before.len() {
                    assert(before.contains(before[j]));
                }
            }
        }
    }
}

proof fn lemma_merged_keys_follow(
    place: LayoutPlace,
    entries: Seq<EntryView>,
    source: Seq<EntryView>,
    keys: Seq<Seq<char>>,
    key: Seq<char>,
)
    requires
        sound(source),
        sound_entry(EntryView { key, remark: usual(), item: item_at(entries, key) }),
        keys.no_duplicates(),
        keys.contains(key) ==> !(item_at(source, key) is Missing),
    ensures
        keys.contains(key) ==> follows_entry(
            place_under(place, key),
            item_at(merged_keys(place, entries, source, keys), key),
            source[position(source, key) as int],
        ),
        !keys.contains(key) ==> item_at(merged_keys(place, entries, source, keys), key) == item_at(
            entries,
            key,
        ),
    decreases source, 0nat, keys.len(),
{
    if keys.len() > 0 {
        let rest = keys.drop_last();
        let last = keys.last();
        let before = merged_keys(place, entries, source, rest);
        let at = position(source, last);
        if rest.contains(key) {
            let i = choose|i: int| 0 <= i < rest.len() && rest[i] == key;
            assert(keys[i] == key);
        }
        if keys.contains(key) && key != last {
            let i = choose|i: int| 0 <= i < keys.len() && keys[i] == key;
            assert(rest[i] == key);
        }
        assert(rest.no_duplicates());
        lemma_merged_keys_follow(place, entries, source, rest, key);
        if at < source.len() {
            let inner = place_under(place, last);
            if last == key {
                assert(keys[keys.len() - 1] == key);
                assert(!rest.contains(key));
                assert(sound_entry(source[at as int]));
                lemma_merged_item_follows_at(inner, before, key, source, at as int);
            } else {
                lemma_merged_item_other(inner, before, last, source[at as int], key);
            }
        }
    }
}

proof fn lemma_merged_item_follows_at(
    place: LayoutPlace,
    entries: Seq<EntryView>,
    key: Seq<char>,
    source: Seq<EntryView>,
    at: int,
)
    requires
        0 <= at < source.len(),
        sound_entry(source[at]),
        sound_entry(EntryView { key, remark: usual(), item: item_at(entries, key) }),
        !(source[at].item is Missing),
    ensures
        follows_entry(
            place,
            item_at(merged_item(place, entries, key, source[at]), key),
            source[at],
        ),
    decreases source, 0nat, 0nat,
{
    assert(decreases_to!(source => source[at]));
    lemma_merged_item_follows(place, entries, key, source[at]);
}

/// After a merge, what stands under the keys that a layout knows says what the source says.
pub proof fn merging_follows_the_source(
    place: LayoutPlace,
    entries: Seq<EntryView>,
    source: Seq<EntryView>,
)
    requires
        sound(entries),
        sound(source),
    ensures
        follows(place, merged(place, entries, source), source),
    decreases source, 1nat, 0nat,
{
    let known = known_keys(place);
    let start = without_stale(entries, source, known);
    let keys = present_keys(source);
    let after = merged(place, entries, source);
    lemma_present_keys(source);
    assert forall|key: Seq<char>| #[trigger] known.contains(key) implies ({
        let at = position(source, key);
        if at < source.len() {
            follows_entry(place_under(place, key), item_at(after, key), source[at as int])
        } else {
            item_at(after, key) is Missing
        }
    }) by {
        assert(keys.contains(key) <==> !(item_at(source, key) is Missing));
        lemma_sound_at(entries, key);
        if item_at(source, key) is Missing {
            lemma_stale_goes(entries, source, known, key);
        } else {
            lemma_without_stale_other(entries, source, known, key);
        }
        lemma_merged_keys_follow(place, start, source, keys, key);
    }
}

/// The comments around an entry stay as long as it is of the same kind: those around its key,
/// around its value or its header, and around the headers of its rows.
pub open spec fn same_comments(before: EntryView, after: EntryView) -> bool {
    &&& after.remark == before.remark
    &&& match before.item {
        ItemView::Missing => true,
        ItemView::Value { decor, .. } => after.item is Value && after.item->Value_decor == decor,
        ItemView::Table { decor, .. } => after.item is Table && after.item->Table_decor == decor,
        ItemView::Rows { rows } => after.item is Rows && forall|i: int|
            0 <= i < rows.len() && i < after.item->rows.len() ==> (
            #[trigger] after.item->rows[i]).decor == rows[i].decor,
    }
}

proof fn lemma_merged_row_decor(
    place: LayoutPlace,
    old_rows: Seq<RowView>,
    rows: Seq<RowView>,
    n: nat,
    i: int,
)
    requires
        0 <= i < n <= rows.len(),
        i < old_rows.len(),
    ensures
        merged_rows(place, old_rows, rows, n)[i].decor == old_rows[i].decor,
    decreases n,
{
    lemma_merged_rows(place, old_rows, rows, (n - 1) as nat);
    if i < n - 1 {
        lemma_merged_row_decor(place, old_rows, rows, (n - 1) as nat, i);
    }
}

proof fn lemma_merged_item_comments(
    place: LayoutPlace,
    entries: Seq<EntryView>,
    key: Seq<char>,
    source: EntryView,
)
    requires
        has_entry(entries, key),
        kind_of(source.item) == kind_of(item_at(entries, key)),
    ensures
        entry_at(merged_item(place, entries, key, source), key) is Some,
        same_comments(
            entry_at(entries, key)->Some_0,
            entry_at(merged_item(place, entries, key, source), key)->Some_0,
        ),
{
    let current = item_at(entries, key);
    match source.item {
        ItemView::Missing => {},
        ItemView::Value { value, .. } => {
            lemma_with_item_same(
                entries,
                key,
                ItemView::Value { value, decor: current->Value_decor },
            );
        },
        ItemView::Table { entries: inner, .. } => {
            lemma_with_item_same(
                entries,
                key,
                ItemView::Table {
                    decor: current->Table_decor,
                    entries: merged(place, current->Table_entries, inner),
                },
            );
        },
        ItemView::Rows { rows } => {
            let after = merged_rows(place, current->rows, rows, rows.len());
            lemma_with_item_same(entries, key, ItemView::Rows { rows: after });
            lemma_merged_rows(place, current->rows, rows, rows.len());
            assert forall|i: int| 0 <= i < current->rows.len() && i < after.len() implies (
            #[trigger] after[i]).decor == current->rows[i].decor by {
                lemma_merged_row_decor(place, current->rows, rows, rows.len(), i);
            }
        },
    }
}

proof fn lemma_merged_keys_comments(
    place: LayoutPlace,
    entries: Seq<EntryView>,
    source: Seq<EntryView>,
    keys: Seq<Seq<char>>,
    key: Seq<char>,
)
    requires
        keys.no_duplicates(),
        has_entry(entries, key),
        kind_of(item_at(source, key)) == kind_of(item_at(entries, key)),
    ensures
        entry_at(merged_keys(place, entries, source, keys), key) is Some,
        same_comments(
            entry_at(entries, key)->Some_0,
            entry_at(merged_keys(place, entries, source, keys), key)->Some_0,
        ),
    decreases keys.len(),
{
    if keys.len() > 0 {
        let rest = keys.drop_last();
        let last = keys.last();
        let before = merged_keys(place, entries, source, rest);
        let at = position(source, last);
        assert(rest.no_duplicates());
        lemma_merged_keys_comments(place, entries, source, rest, key);
        if at < source.len() {
            if last == key {
                if rest.contains(key) {
                    let i = choose|i: int| 0 <= i < rest.len() && rest[i] == key;
                    assert(keys[i] == keys[keys.len() - 1]);
                }
                lemma_merged_keys_other(place, entries, source, rest, key);
                lemma_merged_item_comments(place_under(place, key), before, key, source[at as int]);
            } else {
                lemma_merged_item_other(
                    place_under(place, last),
                    before,
                    last,
                    source[at as int],
                    key,
                );
            }
        }
    }
}

/// What is merged in keeps the comments of the entry that it takes the place of, where both are
/// of one kind.
pub proof fn merging_keeps_comments(
    place: LayoutPlace,
    entries: Seq<EntryView>,
    source: Seq<EntryView>,
    key: Seq<char>,
)
    requires
        distinct_keys(source),
        !(item_at(source, key) is Missing),
        kind_of(item_at(source, key)) == kind_of(item_at(entries, key)),
    ensures
        entry_at(merged(place, entries, source), key) is Some,
        same_comments(
            entry_at(entries, key)->Some_0,
            entry_at(merged(place, entries, source), key)->Some_0,
        ),
{
    let start = without_stale(entries, source, known_keys(place));
    lemma_without_stale_other(entries, source, known_keys(place), key);
    lemma_present_keys(source);
    lemma_merged_keys_comments(place, start, source, present_keys(source), key);
}

} // verus!
