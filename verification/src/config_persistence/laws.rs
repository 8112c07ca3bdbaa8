//! What writing settings changes, and what it leaves alone.

use crate::config::{BufferingConfig, Config, LibraryConfig, OutputConfig, UiConfig};
use crate::config_persistence::{
    all_changes, buffering_changes, changed, changed_by, changed_key, flag, gone, library_changes,
    name, output_changes, section_changed, sections_changed, text, ui_changes, whole,
    with_section, with_sections, written, Change,
};
use crate::document::{
    distinct_keys, has_entry, item_at, lemma_position, lemma_position_is, position, set_item, usual,
    with_item, with_plain_item, without_key, EntryView, ItemView,
};
use vstd::prelude::*;

verus! {

/// The first entry with a key.
pub open spec fn entry_at(entries: Seq<EntryView>, key: Seq<char>) -> Option<EntryView> {
    if has_entry(entries, key) {
        Some(entries[position(entries, key) as int])
    } else {
        None
    }
}

/// The entries of a section; none where there is no such table.
pub open spec fn section(doc: Seq<EntryView>, name: Seq<char>) -> Seq<EntryView> {
    match item_at(doc, name) {
        ItemView::Table { entries, .. } => entries,
        _ => Seq::empty(),
    }
}

pub proof fn lemma_with_item_other(
    entries: Seq<EntryView>,
    key: Seq<char>,
    item: ItemView,
    other: Seq<char>,
)
    requires
        other != key,
    ensures
        entry_at(with_item(entries, key, item), other) == entry_at(entries, other),
        entry_at(with_plain_item(entries, key, item), other) == entry_at(entries, other),
{
    lemma_position(entries, key);
    lemma_position(entries, other);
    lemma_other_kept(entries, with_item(entries, key, item), key, other);
    lemma_other_kept(entries, with_plain_item(entries, key, item), key, other);
}

proof fn lemma_other_kept(
    entries: Seq<EntryView>,
    after: Seq<EntryView>,
    key: Seq<char>,
    other: Seq<char>,
)
    requires
        other != key,
        entries.len() <= after.len(),
        forall|i: int|
            0 <= i < entries.len() ==> #[trigger] after[i] == entries[i] || (after[i].key == key
                && entries[i].key == key),
        forall|i: int| entries.len() <= i < after.len() ==> (#[trigger] after[i]).key == key,
    ensures
        entry_at(after, other) == entry_at(entries, other),
{
    lemma_position(entries, other);
    let p = position(entries, other);
    assert forall|i: int| 0 <= i < p implies (#[trigger] after[i]).key != other by {
        assert(entries[i].key != other);
    }
    if p < entries.len() {
        assert(after[p as int] == entries[p as int]);
        lemma_position_is(after, other, p);
    } else {
        lemma_position_is(after, other, after.len());
    }
}

pub proof fn lemma_without_other(entries: Seq<EntryView>, key: Seq<char>, other: Seq<char>)
    requires
        other != key,
    ensures
        entry_at(without_key(entries, key), other) == entry_at(entries, other),
{
    let after = without_key(entries, key);
    lemma_position(entries, key);
    lemma_position(entries, other);
    if has_entry(entries, key) {
        let hole = position(entries, key);
        let p = position(entries, other);
        assert forall|i: int| 0 <= i < after.len() implies #[trigger] after[i] == (if i < hole {
            entries[i]
        } else {
            entries[i + 1]
        }) by {}
        if p < entries.len() {
            let q: nat = if p < hole {
                p
            } else {
                (p - 1) as nat
            };
            lemma_position_is(after, other, q);
        } else {
            lemma_position_is(after, other, after.len());
        }
    }
}

/// The entry that an item is put into.
pub proof fn lemma_with_item_same(entries: Seq<EntryView>, key: Seq<char>, item: ItemView)
    ensures
        entry_at(with_item(entries, key, item), key) == Some(
            match entry_at(entries, key) {
                Some(e) => EntryView { item, ..e },
                None => EntryView { key, remark: usual(), item },
            },
        ),
{
    lemma_position(entries, key);
    lemma_position_is(with_item(entries, key, item), key, position(entries, key));
}

pub proof fn lemma_set_other(
    entries: Seq<EntryView>,
    key: Seq<char>,
    item: ItemView,
    other: Seq<char>,
)
    requires
        other != key,
    ensures
        entry_at(set_item(entries, key, item), other) == entry_at(entries, other),
{
    let current = item_at(entries, key);
    if item is Rows && !(current is Missing) && !(current is Rows) {
        lemma_without_other(entries, key, other);
        lemma_with_item_other(without_key(entries, key), key, item, other);
    } else if item is Value && current is Value {
        lemma_with_item_other(
            entries,
            key,
            ItemView::Value { value: item->Value_value, decor: current->Value_decor },
            other,
        );
    } else {
        lemma_with_item_other(entries, key, item, other);
    }
}

proof fn lemma_changed_other(entries: Seq<EntryView>, change: Change, other: Seq<char>)
    requires
        other != changed_key(change),
    ensures
        entry_at(changed(entries, change), other) == entry_at(entries, other),
{
    reveal(changed);
    match change {
        Change::Setting { key, value, .. } => {
            if value is Some {
                lemma_set_other(
                    entries,
                    key,
                    ItemView::Value { value: value->Some_0, decor: usual() },
                    other,
                );
            }
        },
        Change::Tables { key, rows, .. } => {
            lemma_set_other(entries, key, ItemView::Rows { rows }, other);
        },
        Change::Gone { key } => {
            lemma_without_other(entries, key, other);
        },
    }
}

/// A key that no change names keeps its value and its comments.
pub proof fn other_keys_stay(
    entries: Seq<EntryView>,
    changes: Seq<Change>,
    n: nat,
    key: Seq<char>,
)
    requires
        n <= changes.len(),
        forall|i: int| 0 <= i < n ==> changed_key(#[trigger] changes[i]) != key,
    ensures
        entry_at(changed_by(entries, changes, n), key) == entry_at(entries, key),
    decreases n,
{
    if n > 0 {
        other_keys_stay(entries, changes, (n - 1) as nat, key);
        lemma_changed_other(
            changed_by(entries, changes, (n - 1) as nat),
            changes[n - 1],
            key,
        );
    }
}

/// Everything that stands around a written setting stays: the text around its key, and the
/// text around its value where it had one.
pub proof fn comments_around_settings_stay(
    entries: Seq<EntryView>,
    changes: Seq<Change>,
    n: nat,
    key: Seq<char>,
)
    requires
        n <= changes.len(),
        has_entry(entries, key),
        forall|i: int|
            0 <= i < n && changed_key(#[trigger] changes[i]) == key ==> changes[i] is Setting,
    ensures
        ({
            let before = entry_at(entries, key)->Some_0;
            let after = entry_at(changed_by(entries, changes, n), key);
            &&& after is Some
            &&& after->Some_0.remark == before.remark
            &&& before.item is Value ==> after->Some_0.item is Value
                && after->Some_0.item->Value_decor == before.item->Value_decor
        }),
    decreases n,
{
    if n > 0 {
        comments_around_settings_stay(entries, changes, (n - 1) as nat, key);
        let now = changed_by(entries, changes, (n - 1) as nat);
        let change = changes[n - 1];
        if changed_key(change) != key {
            lemma_changed_other(now, change, key);
        } else {
            reveal(changed);
            match change {
                Change::Setting { value, .. } => {
                    if value is Some {
                        let current = item_at(now, key);
                        let item = ItemView::Value { value: value->Some_0, decor: usual() };
                        lemma_with_item_same(now, key, item);
                        if current is Value {
                            lemma_with_item_same(
                                now,
                                key,
                                ItemView::Value {
                                    value: value->Some_0,
                                    decor: current->Value_decor,
                                },
                            );
                        }
                    }
                },
                _ => {},
            }
        }
    }
}

proof fn lemma_with_section_other(doc: Seq<EntryView>, name: Seq<char>, other: Seq<char>)
    ensures
        other != name ==> entry_at(with_section(doc, name), other) == entry_at(doc, other),
        section(with_section(doc, name), other) == section(doc, other),
{
    let empty = ItemView::Table { decor: usual(), entries: Seq::empty() };
    if !(item_at(doc, name) is Table) {
        if other != name {
            lemma_with_item_other(doc, name, empty, other);
        } else {
            lemma_position(doc, name);
            lemma_position_is(with_plain_item(doc, name, empty), name, position(doc, name));
        }
    }
}

proof fn lemma_with_sections_other(
    doc: Seq<EntryView>,
    all: Seq<(Seq<char>, Seq<Change>)>,
    n: nat,
    other: Seq<char>,
)
    requires
        n <= all.len(),
    ensures
        section(with_sections(doc, all, n), other) == section(doc, other),
        (forall|i: int| 0 <= i < n ==> (#[trigger] all[i]).0 != other) ==> entry_at(
            with_sections(doc, all, n),
            other,
        ) == entry_at(doc, other),
    decreases n,
{
    if n > 0 {
        lemma_with_sections_other(doc, all, (n - 1) as nat, other);
        lemma_with_section_other(
            with_sections(doc, all, (n - 1) as nat),
            all[n - 1].0,
            other,
        );
    }
}

proof fn lemma_section_changed(
    doc: Seq<EntryView>,
    name: Seq<char>,
    changes: Seq<Change>,
    other: Seq<char>,
)
    ensures
        other != name ==> entry_at(section_changed(doc, name, changes), other) == entry_at(
            doc,
            other,
        ),
        item_at(doc, name) is Table ==> section(section_changed(doc, name, changes), name)
            == changed_by(section(doc, name), changes, changes.len()),
        !(item_at(doc, name) is Table) ==> section_changed(doc, name, changes) == doc,
{
    match item_at(doc, name) {
        ItemView::Table { decor, entries } => {
            let item = ItemView::Table {
                decor,
                entries: changed_by(entries, changes, changes.len()),
            };
            if other != name {
                lemma_with_item_other(doc, name, item, other);
            }
            lemma_with_item_same(doc, name, item);
        },
        _ => {},
    }
}

proof fn lemma_sections_changed_key(
    doc: Seq<EntryView>,
    all: Seq<(Seq<char>, Seq<Change>)>,
    n: nat,
    in_section: Seq<char>,
    key: Seq<char>,
)
    requires
        n <= all.len(),
        forall|i: int, j: int|
            0 <= i < n && (#[trigger] all[i]).0 == in_section && 0 <= j < all[i].1.len()
                ==> changed_key(#[trigger] all[i].1[j]) != key,
    ensures
        entry_at(section(sections_changed(doc, all, n), in_section), key) == entry_at(
            section(doc, in_section),
            key,
        ),
    decreases n,
{
    if n > 0 {
        let before = sections_changed(doc, all, (n - 1) as nat);
        lemma_sections_changed_key(doc, all, (n - 1) as nat, in_section, key);
        let part = all[n - 1];
        lemma_section_changed(before, part.0, part.1, in_section);
        if part.0 == in_section {
            other_keys_stay(section(before, in_section), part.1, part.1.len(), key);
        }
    }
}

/// A key of a section that no setting has keeps its value and its comments when the settings
/// are written.
pub proof fn unknown_keys_stay(
    doc: Seq<EntryView>,
    a: Config,
    b: Config,
    volume: Seq<char>,
    in_section: Seq<char>,
    key: Seq<char>,
)
    requires
        forall|i: int, j: int|
            0 <= i < all_changes(a, b, volume).len() && (#[trigger] all_changes(
                a,
                b,
                volume,
            )[i]).0 == in_section && 0 <= j < all_changes(a, b, volume)[i].1.len()
                ==> changed_key(#[trigger] all_changes(a, b, volume)[i].1[j]) != key,
    ensures
        entry_at(section(written(doc, a, b, volume), in_section), key) == entry_at(
            section(doc, in_section),
            key,
        ),
{
    let all = all_changes(a, b, volume);
    lemma_with_sections_other(doc, all, all.len(), in_section);
    lemma_sections_changed_key(
        with_sections(doc, all, all.len()),
        all,
        all.len(),
        in_section,
        key,
    );
}

proof fn lemma_sections_changed_other(
    doc: Seq<EntryView>,
    all: Seq<(Seq<char>, Seq<Change>)>,
    n: nat,
    other: Seq<char>,
)
    requires
        n <= all.len(),
        forall|i: int| 0 <= i < n ==> (#[trigger] all[i]).0 != other,
    ensures
        entry_at(sections_changed(doc, all, n), other) == entry_at(doc, other),
    decreases n,
{
    if n > 0 {
        lemma_sections_changed_other(doc, all, (n - 1) as nat, other);
        lemma_section_changed(
            sections_changed(doc, all, (n - 1) as nat),
            all[n - 1].0,
            all[n - 1].1,
            other,
        );
    }
}

/// What stands in the document beside the sections of the settings stays.
pub proof fn unknown_sections_stay(
    doc: Seq<EntryView>,
    a: Config,
    b: Config,
    volume: Seq<char>,
    other: Seq<char>,
)
    requires
        forall|i: int|
            0 <= i < all_changes(a, b, volume).len() ==> (#[trigger] all_changes(a, b, volume)[i]).0
                != other,
    ensures
        entry_at(written(doc, a, b, volume), other) == entry_at(doc, other),
{
    let all = all_changes(a, b, volume);
    lemma_with_sections_other(doc, all, all.len(), other);
    lemma_sections_changed_other(with_sections(doc, all, all.len()), all, all.len(), other);
}

proof fn lemma_distinct_with_item(entries: Seq<EntryView>, key: Seq<char>, item: ItemView)
    requires
        distinct_keys(entries),
    ensures
        distinct_keys(with_item(entries, key, item)),
{
    lemma_position(entries, key);
    let after = with_item(entries, key, item);
    assert forall|i: int, j: int| 0 <= i < j < after.len() implies (#[trigger] after[i]).key != (
    #[trigger] after[j]).key by {
        if j < entries.len() {
            assert(entries[i].key != entries[j].key);
        } else {
            assert(entries[i].key != key);
        }
    }
}

pub proof fn lemma_distinct_without(entries: Seq<EntryView>, key: Seq<char>)
    requires
        distinct_keys(entries),
    ensures
        distinct_keys(without_key(entries, key)),
        !has_entry(without_key(entries, key), key),
{
    lemma_position(entries, key);
    let after = without_key(entries, key);
    if has_entry(entries, key) {
        let hole = position(entries, key) as int;
        assert forall|i: int, j: int| 0 <= i < j < after.len() implies (#[trigger] after[i]).key
            != (#[trigger] after[j]).key by {
            let x = if i < hole {
                i
            } else {
                i + 1
            };
            let y = if j < hole {
                j
            } else {
                j + 1
            };
            assert(entries[x].key != entries[y].key);
        }
        assert forall|i: int| 0 <= i < after.len() implies (#[trigger] after[i]).key != key by {
            if i < hole {
                assert(entries[i].key != entries[hole].key);
            } else {
                assert(entries[hole].key != entries[i + 1].key);
            }
        }
        lemma_position_is(after, key, after.len());
    }
}

proof fn lemma_distinct_changed(entries: Seq<EntryView>, change: Change)
    requires
        distinct_keys(entries),
    ensures
        distinct_keys(changed(entries, change)),
{
    reveal(changed);
    match change {
        Change::Setting { key, value, .. } => {
            if value is Some {
                let current = item_at(entries, key);
                lemma_distinct_with_item(
                    entries,
                    key,
                    ItemView::Value { value: value->Some_0, decor: usual() },
                );
                if current is Value {
                    lemma_distinct_with_item(
                        entries,
                        key,
                        ItemView::Value { value: value->Some_0, decor: current->Value_decor },
                    );
                }
            }
        },
        Change::Tables { key, rows, .. } => {
            lemma_distinct_with_item(entries, key, ItemView::Rows { rows });
            lemma_distinct_without(entries, key);
            lemma_distinct_with_item(without_key(entries, key), key, ItemView::Rows { rows });
        },
        Change::Gone { key } => {
            lemma_distinct_without(entries, key);
        },
    }
}

proof fn lemma_distinct_changed_by(entries: Seq<EntryView>, changes: Seq<Change>, n: nat)
    requires
        distinct_keys(entries),
        n <= changes.len(),
    ensures
        distinct_keys(changed_by(entries, changes, n)),
    decreases n,
{
    if n > 0 {
        lemma_distinct_changed_by(entries, changes, (n - 1) as nat);
        lemma_distinct_changed(changed_by(entries, changes, (n - 1) as nat), changes[n - 1]);
    }
}

/// A key that goes is gone, unless a later change names it.
pub proof fn gone_keys_are_gone(
    entries: Seq<EntryView>,
    changes: Seq<Change>,
    n: nat,
    k: int,
    key: Seq<char>,
)
    requires
        distinct_keys(entries),
        0 <= k < n <= changes.len(),
        changes[k] == gone(key),
        forall|i: int| k < i < n ==> changed_key(#[trigger] changes[i]) != key,
    ensures
        !has_entry(changed_by(entries, changes, n), key),
    decreases n,
{
    let now = changed_by(entries, changes, (n - 1) as nat);
    if k == n - 1 {
        lemma_distinct_changed_by(entries, changes, (n - 1) as nat);
        reveal(changed);
        lemma_distinct_without(now, key);
    } else {
        gone_keys_are_gone(entries, changes, (n - 1) as nat, k, key);
        lemma_changed_other(now, changes[n - 1], key);
    }
}

/// The settings that belong to the layout do not stay in the section of the user interface.
pub proof fn layout_settings_are_not_kept(
    entries: Seq<EntryView>,
    a: UiConfig,
    b: UiConfig,
    volume: Seq<char>,
)
    requires
        distinct_keys(entries),
    ensures
        ({
            let changes = ui_changes(a, b, volume);
            let after = changed_by(entries, changes, changes.len());
            &&& !has_entry(after, "button_cluster_instances"@)
            &&& !has_entry(after, "playlist_columns"@)
            &&& !has_entry(after, "playlist_album_art_column_min_width_px"@)
            &&& !has_entry(after, "playlist_album_art_column_max_width_px"@)
            &&& !has_entry(after, "layout"@)
            &&& !has_entry(after, "viewer_panel_instances"@)
            &&& !has_entry(after, "dark_mode"@)
        }),
{
    let changes = ui_changes(a, b, volume);
    reveal(flag);
    reveal(whole);
    reveal(text);
    lemma_ui_key_lengths();
    let n = changes.len();
    assert(n == 15);
    gone_keys_are_gone(entries, changes, n, 3, "dark_mode"@);
    gone_keys_are_gone(entries, changes, n, 4, "button_cluster_instances"@);
    gone_keys_are_gone(entries, changes, n, 5, "playlist_columns"@);
    gone_keys_are_gone(entries, changes, n, 6, "playlist_album_art_column_min_width_px"@);
    gone_keys_are_gone(entries, changes, n, 7, "playlist_album_art_column_max_width_px"@);
    gone_keys_are_gone(entries, changes, n, 8, "layout"@);
    gone_keys_are_gone(entries, changes, n, 9, "viewer_panel_instances"@);
}

proof fn lemma_ui_key_lengths()
    ensures
        "dark_mode"@.len() == 9,
        "button_cluster_instances"@.len() == 24,
        "playlist_columns"@.len() == 16,
        "playlist_album_art_column_min_width_px"@.len() == 38,
        "playlist_album_art_column_max_width_px"@.len() == 38,
        "playlist_album_art_column_min_width_px"@ != "playlist_album_art_column_max_width_px"@,
        "layout"@.len() == 6,
        "viewer_panel_instances"@.len() == 22,
        "window_width"@.len() == 12,
        "window_height"@.len() == 13,
        "volume"@.len() == 6,
        "layout"@ != "volume"@,
        "playback_order"@.len() == 14,
        "repeat_mode"@.len() == 11,
{
    reveal_strlit("dark_mode");
    reveal_strlit("button_cluster_instances");
    reveal_strlit("playlist_columns");
    reveal_strlit("playlist_album_art_column_min_width_px");
    reveal_strlit("playlist_album_art_column_max_width_px");
    reveal_strlit("layout");
    reveal_strlit("viewer_panel_instances");
    reveal_strlit("window_width");
    reveal_strlit("window_height");
    reveal_strlit("volume");
    reveal_strlit("playback_order");
    reveal_strlit("repeat_mode");
    assert("playlist_album_art_column_min_width_px"@[27] == 'i');
    assert("playlist_album_art_column_max_width_px"@[27] == 'a');
    assert("layout"@[0] == 'l');
    assert("volume"@[0] == 'v');
}

/// Settings that are there and have not changed are not written again.
pub proof fn unchanged_settings_are_not_written(
    entries: Seq<EntryView>,
    changes: Seq<Change>,
    n: nat,
)
    requires
        n <= changes.len(),
        forall|i: int|
            0 <= i < n ==> match #[trigger] changes[i] {
                Change::Setting { key, changed, .. } => !changed && !(item_at(
                    entries,
                    key,
                ) is Missing),
                Change::Tables { key, changed, .. } => !changed && !(item_at(
                    entries,
                    key,
                ) is Missing),
                Change::Gone { key } => !has_entry(entries, key),
            },
    ensures
        changed_by(entries, changes, n) == entries,
    decreases n,
{
    if n > 0 {
        unchanged_settings_are_not_written(entries, changes, (n - 1) as nat);
        reveal(changed);
        assert(changes[n - 1] == changes[n - 1]);
    }
}

/// No two of the changes name the same key.
pub open spec fn different_keys(changes: Seq<Change>) -> bool {
    forall|j: int, k: int|
        0 <= j < k < changes.len() ==> changed_key(#[trigger] changes[j]) != changed_key(
            #[trigger] changes[k],
        )
}

proof fn lemma_output_keys(a: OutputConfig, b: OutputConfig)
    ensures
        different_keys(output_changes(a, b)),
{
    let changes = output_changes(a, b);
    reveal(name);
    reveal(flag);
    reveal(whole);
    reveal(text);
    reveal_strlit("output_device_name");
    reveal_strlit("output_device_auto");
    reveal_strlit("channel_count");
    reveal_strlit("sample_rate_khz");
    reveal_strlit("bits_per_sample");
    reveal_strlit("channel_count_auto");
    reveal_strlit("sample_rate_auto");
    reveal_strlit("bits_per_sample_auto");
    reveal_strlit("resampler_quality");
    reveal_strlit("dither_on_bitdepth_reduce");
    reveal_strlit("downmix_higher_channel_tracks");
    assert("output_device_name"@[14] != "output_device_auto"@[14]);
    assert("sample_rate_khz"@[0] != "bits_per_sample"@[0]);
    assert("output_device_name"@[0] != "channel_count_auto"@[0]);
    assert("output_device_auto"@[0] != "channel_count_auto"@[0]);
    assert(changed_key(changes[0]) == "output_device_name"@);
    assert("output_device_name"@.len() == 18);
    assert(changed_key(changes[1]) == "output_device_auto"@);
    assert("output_device_auto"@.len() == 18);
    assert(changed_key(changes[2]) == "channel_count"@);
    assert("channel_count"@.len() == 13);
    assert(changed_key(changes[3]) == "sample_rate_khz"@);
    assert("sample_rate_khz"@.len() == 15);
    assert(changed_key(changes[4]) == "bits_per_sample"@);
    assert("bits_per_sample"@.len() == 15);
    assert(changed_key(changes[5]) == "channel_count_auto"@);
    assert("channel_count_auto"@.len() == 18);
    assert(changed_key(changes[6]) == "sample_rate_auto"@);
    assert("sample_rate_auto"@.len() == 16);
    assert(changed_key(changes[7]) == "bits_per_sample_auto"@);
    assert("bits_per_sample_auto"@.len() == 20);
    assert(changed_key(changes[8]) == "resampler_quality"@);
    assert("resampler_quality"@.len() == 17);
    assert(changed_key(changes[9]) == "dither_on_bitdepth_reduce"@);
    assert("dither_on_bitdepth_reduce"@.len() == 25);
    assert(changed_key(changes[10]) == "downmix_higher_channel_tracks"@);
    assert("downmix_higher_channel_tracks"@.len() == 29);
}

proof fn lemma_ui_keys(a: UiConfig, b: UiConfig, volume: Seq<char>)
    ensures
        different_keys(ui_changes(a, b, volume)),
{
    let changes = ui_changes(a, b, volume);
    reveal(flag);
    reveal(whole);
    reveal(text);
    reveal_strlit("show_layout_edit_intro");
    reveal_strlit("show_tooltips");
    reveal_strlit("auto_scroll_to_playing_track");
    reveal_strlit("dark_mode");
    reveal_strlit("button_cluster_instances");
    reveal_strlit("playlist_columns");
    reveal_strlit("playlist_album_art_column_min_width_px");
    reveal_strlit("playlist_album_art_column_max_width_px");
    reveal_strlit("layout");
    reveal_strlit("viewer_panel_instances");
    reveal_strlit("window_width");
    reveal_strlit("window_height");
    reveal_strlit("volume");
    reveal_strlit("playback_order");
    reveal_strlit("repeat_mode");
    assert("playlist_album_art_column_min_width_px"@[27] == 'i');
    assert("playlist_album_art_column_max_width_px"@[27] == 'a');
    assert("show_layout_edit_intro"@[0] != "viewer_panel_instances"@[0]);
    assert("show_tooltips"@[0] != "window_height"@[0]);
    assert("layout"@[0] != "volume"@[0]);
    assert(changed_key(changes[0]) == "show_layout_edit_intro"@);
    assert("show_layout_edit_intro"@.len() == 22);
    assert(changed_key(changes[1]) == "show_tooltips"@);
    assert("show_tooltips"@.len() == 13);
    assert(changed_key(changes[2]) == "auto_scroll_to_playing_track"@);
    assert("auto_scroll_to_playing_track"@.len() == 28);
    assert(changed_key(changes[3]) == "dark_mode"@);
    assert("dark_mode"@.len() == 9);
    assert(changed_key(changes[4]) == "button_cluster_instances"@);
    assert("button_cluster_instances"@.len() == 24);
    assert(changed_key(changes[5]) == "playlist_columns"@);
    assert("playlist_columns"@.len() == 16);
    assert(changed_key(changes[6]) == "playlist_album_art_column_min_width_px"@);
    assert("playlist_album_art_column_min_width_px"@.len() == 38);
    assert(changed_key(changes[7]) == "playlist_album_art_column_max_width_px"@);
    assert("playlist_album_art_column_max_width_px"@.len() == 38);
    assert(changed_key(changes[8]) == "layout"@);
    assert("layout"@.len() == 6);
    assert(changed_key(changes[9]) == "viewer_panel_instances"@);
    assert("viewer_panel_instances"@.len() == 22);
    assert(changed_key(changes[10]) == "window_width"@);
    assert("window_width"@.len() == 12);
    assert(changed_key(changes[11]) == "window_height"@);
    assert("window_height"@.len() == 13);
    assert(changed_key(changes[12]) == "volume"@);
    assert("volume"@.len() == 6);
    assert(changed_key(changes[13]) == "playback_order"@);
    assert("playback_order"@.len() == 14);
    assert(changed_key(changes[14]) == "repeat_mode"@);
    assert("repeat_mode"@.len() == 11);
}

proof fn lemma_library_keys(a: LibraryConfig, b: LibraryConfig)
    ensures
        different_keys(library_changes(a, b)),
{
    let changes = library_changes(a, b);
    reveal(flag);
    reveal(whole);
    reveal(text);
    reveal_strlit("show_first_start_prompt");
    reveal_strlit("online_metadata_enabled");
    reveal_strlit("online_metadata_prompt_pending");
    reveal_strlit("include_playlist_tracks_in_library");
    reveal_strlit("list_image_max_edge_px");
    reveal_strlit("cover_art_cache_max_size_mb");
    reveal_strlit("cover_art_memory_cache_max_size_mb");
    reveal_strlit("artist_image_memory_cache_max_size_mb");
    reveal_strlit("image_memory_cache_ttl_secs");
    reveal_strlit("artist_image_cache_ttl_days");
    reveal_strlit("artist_image_cache_max_size_mb");
    reveal_strlit("folders");
    assert("show_first_start_prompt"@[0] == 's');
    assert("online_metadata_enabled"@[0] == 'o');
    assert("include_playlist_tracks_in_library"@[0] == 'i');
    assert("cover_art_memory_cache_max_size_mb"@[0] == 'c');
    assert("cover_art_cache_max_size_mb"@[0] == 'c');
    assert("image_memory_cache_ttl_secs"@[0] == 'i');
    assert("cover_art_cache_max_size_mb"@[0] == 'c');
    assert("artist_image_cache_ttl_days"@[0] == 'a');
    assert("image_memory_cache_ttl_secs"@[0] == 'i');
    assert("artist_image_cache_ttl_days"@[0] == 'a');
    assert("online_metadata_prompt_pending"@[0] == 'o');
    assert("artist_image_cache_max_size_mb"@[0] == 'a');
    assert(changed_key(changes[0]) == "show_first_start_prompt"@);
    assert("show_first_start_prompt"@.len() == 23);
    assert(changed_key(changes[1]) == "online_metadata_enabled"@);
    assert("online_metadata_enabled"@.len() == 23);
    assert(changed_key(changes[2]) == "online_metadata_prompt_pending"@);
    assert("online_metadata_prompt_pending"@.len() == 30);
    assert(changed_key(changes[3]) == "include_playlist_tracks_in_library"@);
    assert("include_playlist_tracks_in_library"@.len() == 34);
    assert(changed_key(changes[4]) == "list_image_max_edge_px"@);
    assert("list_image_max_edge_px"@.len() == 22);
    assert(changed_key(changes[5]) == "cover_art_cache_max_size_mb"@);
    assert("cover_art_cache_max_size_mb"@.len() == 27);
    assert(changed_key(changes[6]) == "cover_art_memory_cache_max_size_mb"@);
    assert("cover_art_memory_cache_max_size_mb"@.len() == 34);
    assert(changed_key(changes[7]) == "artist_image_memory_cache_max_size_mb"@);
    assert("artist_image_memory_cache_max_size_mb"@.len() == 37);
    assert(changed_key(changes[8]) == "image_memory_cache_ttl_secs"@);
    assert("image_memory_cache_ttl_secs"@.len() == 27);
    assert(changed_key(changes[9]) == "artist_image_cache_ttl_days"@);
    assert("artist_image_cache_ttl_days"@.len() == 27);
    assert(changed_key(changes[10]) == "artist_image_cache_max_size_mb"@);
    assert("artist_image_cache_max_size_mb"@.len() == 30);
    assert(changed_key(changes[11]) == "folders"@);
    assert("folders"@.len() == 7);
}

proof fn lemma_buffering_keys(a: BufferingConfig, b: BufferingConfig)
    ensures
        different_keys(buffering_changes(a, b)),
{
    let changes = buffering_changes(a, b);
    reveal(flag);
    reveal(whole);
    reveal(text);
    reveal_strlit("player_low_watermark_ms");
    reveal_strlit("player_target_buffer_ms");
    reveal_strlit("player_request_interval_ms");
    reveal_strlit("decoder_request_chunk_ms");
    assert("player_low_watermark_ms"@[7] != "player_target_buffer_ms"@[7]);
    assert(changed_key(changes[0]) == "player_low_watermark_ms"@);
    assert("player_low_watermark_ms"@.len() == 23);
    assert(changed_key(changes[1]) == "player_target_buffer_ms"@);
    assert("player_target_buffer_ms"@.len() == 23);
    assert(changed_key(changes[2]) == "player_request_interval_ms"@);
    assert("player_request_interval_ms"@.len() == 26);
    assert(changed_key(changes[3]) == "decoder_request_chunk_ms"@);
    assert("decoder_request_chunk_ms"@.len() == 24);
}

proof fn lemma_section_names(a: Config, b: Config, volume: Seq<char>)
    ensures
        forall|i: int, j: int|
            0 <= i < j < all_changes(a, b, volume).len() ==> (#[trigger] all_changes(
                a,
                b,
                volume,
            )[i]).0 != (#[trigger] all_changes(a, b, volume)[j]).0,
        forall|i: int|
            0 <= i < all_changes(a, b, volume).len() ==> different_keys(
                (#[trigger] all_changes(a, b, volume)[i]).1,
            ),
{
    reveal_strlit("output");
    reveal_strlit("cast");
    reveal_strlit("ui");
    reveal_strlit("library");
    reveal_strlit("buffering");
    reveal_strlit("integrations");
    assert("output"@.len() == 6 && "cast"@.len() == 4 && "ui"@.len() == 2);
    assert("library"@.len() == 7 && "buffering"@.len() == 9 && "integrations"@.len() == 12);
    lemma_output_keys(a.output, b.output);
    lemma_ui_keys(a.ui, b.ui, volume);
    lemma_library_keys(a.library, b.library);
    lemma_buffering_keys(a.buffering, b.buffering);
}

/// What one setting becomes depends on its own entry alone.
proof fn lemma_setting_alone(one: Seq<EntryView>, other: Seq<EntryView>, change: Change)
    requires
        change is Setting,
        entry_at(one, changed_key(change)) == entry_at(other, changed_key(change)),
    ensures
        entry_at(changed(one, change), changed_key(change)) == entry_at(
            changed(other, change),
            changed_key(change),
        ),
{
    reveal(changed);
    let key = changed_key(change);
    if let Some(value) = change->Setting_value {
        let decor = match item_at(one, key) {
            ItemView::Value { decor, .. } => decor,
            _ => usual(),
        };
        let item = ItemView::Value { value, decor };
        lemma_with_item_same(one, key, item);
        lemma_with_item_same(other, key, item);
    }
}

proof fn lemma_changed_once(entries: Seq<EntryView>, changes: Seq<Change>, n: nat, k: int)
    requires
        different_keys(changes),
        0 <= k < n <= changes.len(),
        changes[k] is Setting,
    ensures
        entry_at(changed_by(entries, changes, n), changed_key(changes[k])) == entry_at(
            changed(entries, changes[k]),
            changed_key(changes[k]),
        ),
    decreases n,
{
    let key = changed_key(changes[k]);
    let now = changed_by(entries, changes, (n - 1) as nat);
    if k == n - 1 {
        other_keys_stay(entries, changes, (n - 1) as nat, key);
        lemma_setting_alone(now, entries, changes[k]);
    } else {
        lemma_changed_once(entries, changes, (n - 1) as nat, k);
        lemma_changed_other(now, changes[n - 1], key);
    }
}

proof fn lemma_with_sections_table(
    doc: Seq<EntryView>,
    all: Seq<(Seq<char>, Seq<Change>)>,
    n: nat,
    i: int,
)
    requires
        0 <= i < n <= all.len(),
    ensures
        item_at(with_sections(doc, all, n), all[i].0) is Table,
        item_at(doc, all[i].0) is Table ==> entry_at(with_sections(doc, all, n), all[i].0)
            == entry_at(doc, all[i].0),
    decreases n,
{
    let before = with_sections(doc, all, (n - 1) as nat);
    let added = all[n - 1].0;
    let name = all[i].0;
    let empty = ItemView::Table { decor: usual(), entries: Seq::empty() };
    if i < n - 1 {
        lemma_with_sections_table(doc, all, (n - 1) as nat, i);
        if added != name {
            lemma_with_section_other(before, added, name);
        }
    } else {
        lemma_with_sections_kept(doc, all, (n - 1) as nat, name);
        if !(item_at(before, name) is Table) {
            lemma_position(before, name);
            lemma_position_is(with_plain_item(before, name, empty), name, position(before, name));
        }
    }
}

proof fn lemma_with_sections_kept(
    doc: Seq<EntryView>,
    all: Seq<(Seq<char>, Seq<Change>)>,
    n: nat,
    name: Seq<char>,
)
    requires
        n <= all.len(),
    ensures
        item_at(doc, name) is Table ==> entry_at(with_sections(doc, all, n), name) == entry_at(
            doc,
            name,
        ),
    decreases n,
{
    if n > 0 {
        lemma_with_sections_kept(doc, all, (n - 1) as nat, name);
        lemma_with_section_other(
            with_sections(doc, all, (n - 1) as nat),
            all[n - 1].0,
            name,
        );
    }
}

proof fn lemma_sections_changed_one(
    doc: Seq<EntryView>,
    all: Seq<(Seq<char>, Seq<Change>)>,
    n: nat,
    i: int,
)
    requires
        0 <= i < n <= all.len(),
        forall|j: int, k: int|
            0 <= j < k < all.len() ==> (#[trigger] all[j]).0 != (#[trigger] all[k]).0,
        item_at(doc, all[i].0) is Table,
    ensures
        ({
            let before = entry_at(doc, all[i].0)->Some_0;
            entry_at(sections_changed(doc, all, n), all[i].0) == Some(
                EntryView {
                    item: ItemView::Table {
                        decor: before.item->Table_decor,
                        entries: changed_by(
                            before.item->Table_entries,
                            all[i].1,
                            all[i].1.len(),
                        ),
                    },
                    ..before
                },
            )
        }),
    decreases n,
{
    let name = all[i].0;
    let part = all[n - 1];
    let before = sections_changed(doc, all, (n - 1) as nat);
    if i < n - 1 {
        lemma_sections_changed_one(doc, all, (n - 1) as nat, i);
        lemma_section_changed(before, part.0, part.1, name);
    } else {
        lemma_sections_changed_other(doc, all, (n - 1) as nat, name);
        lemma_with_item_same(
            before,
            name,
            ItemView::Table {
                decor: item_at(before, name)->Table_decor,
                entries: changed_by(
                    item_at(before, name)->Table_entries,
                    part.1,
                    part.1.len(),
                ),
            },
        );
    }
}

/// Writing the settings makes the changes of a section in that section, and a section that is
/// there keeps the comments around it.
pub proof fn sections_are_written(
    doc: Seq<EntryView>,
    a: Config,
    b: Config,
    volume: Seq<char>,
    i: int,
)
    requires
        0 <= i < all_changes(a, b, volume).len(),
    ensures
        ({
            let (name, changes) = all_changes(a, b, volume)[i];
            let after = written(doc, a, b, volume);
            &&& item_at(after, name) is Table
            &&& section(after, name) == changed_by(section(doc, name), changes, changes.len())
            &&& item_at(doc, name) is Table ==> {
                let entry = entry_at(doc, name)->Some_0;
                &&& entry_at(after, name)->Some_0.remark == entry.remark
                &&& item_at(after, name)->Table_decor == entry.item->Table_decor
            }
        }),
{
    let all = all_changes(a, b, volume);
    let placed = with_sections(doc, all, all.len());
    lemma_section_names(a, b, volume);
    lemma_with_sections_table(doc, all, all.len(), i);
    lemma_with_sections_other(doc, all, all.len(), all[i].0);
    lemma_sections_changed_one(placed, all, all.len(), i);
}

/// A setting that is new or has changed has its value once the settings are written, and keeps
/// the comments around its key and around its value. Every other setting stays as it is.
pub proof fn settings_are_written(
    doc: Seq<EntryView>,
    a: Config,
    b: Config,
    volume: Seq<char>,
    i: int,
    k: int,
)
    requires
        0 <= i < all_changes(a, b, volume).len(),
        0 <= k < all_changes(a, b, volume)[i].1.len(),
        all_changes(a, b, volume)[i].1[k] is Setting,
    ensures
        ({
            let (name, changes) = all_changes(a, b, volume)[i];
            let change = changes[k];
            let key = changed_key(change);
            let before = entry_at(section(doc, name), key);
            let after = entry_at(section(written(doc, a, b, volume), name), key);
            let is_new = item_at(section(doc, name), key) is Missing;
            if (is_new || change->Setting_changed) && change->Setting_value is Some {
                &&& after is Some
                &&& after->Some_0.item is Value
                &&& after->Some_0.item->Value_value == change->Setting_value->Some_0
                &&& before is Some ==> after->Some_0.remark == before->Some_0.remark
                &&& before is Some && before->Some_0.item is Value
                    ==> after->Some_0.item->Value_decor == before->Some_0.item->Value_decor
            } else {
                after == before
            }
        }),
{
    let (name, changes) = all_changes(a, b, volume)[i];
    let entries = section(doc, name);
    let change = changes[k];
    let key = changed_key(change);
    sections_are_written(doc, a, b, volume, i);
    lemma_section_names(a, b, volume);
    lemma_changed_once(entries, changes, changes.len(), k);
    reveal(changed);
    if let Some(value) = change->Setting_value {
        let decor = match item_at(entries, key) {
            ItemView::Value { decor, .. } => decor,
            _ => usual(),
        };
        lemma_with_item_same(entries, key, ItemView::Value { value, decor });
    }
}

} // verus!
