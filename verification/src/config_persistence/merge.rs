//! Merging one table into another that keeps its comments.

use crate::document::{
    child_table, child_table_mut, insert_table, item_at, item_kind, lemma_position,
    lemma_position_is, lemma_with_item, position, present_keys, push_row_copy, remove_key,
    remove_row, row, row_count, row_mut, set_copy, set_item, table_decor, table_entries, table_keys,
    usual, with_item, with_plain_item, without_key, EntryView, ItemView, RowView, TomlKind,
};
use crate::text::{owned, text_equal, texts};
use toml_edit::Table;
use vstd::prelude::*;

verus! {

/// Where a table stands in a layout.
#[derive(Clone, Copy, Debug, PartialEq, Eq, Structural)]
pub enum LayoutPlace {
    /// The whole layout.
    Layout,
    /// The colors of a custom theme.
    Colors,
    /// One playlist column.
    Column,
    /// The width of one column, as older layouts kept it.
    WidthOverride,
    /// One cluster of buttons.
    Cluster,
    /// One panel that shows a collection.
    CollectionPanel,
    /// One panel that shows text.
    TextPanel,
    /// One panel that shows images.
    ImagePanel,
    /// One text or image panel, as older layouts kept it.
    ViewerPanel,
    /// A node of the tree of panels.
    Node,
    /// A table that no layout has.
    Unknown,
}

/// The keys that a layout knows in a place, older spellings among them.
pub open spec fn known_keys(place: LayoutPlace) -> Seq<Seq<char>> {
    match place {
        LayoutPlace::Layout => seq![
            "version"@,
            "playlist_album_art_column_min_width_px"@,
            "playlist_album_art_column_max_width_px"@,
            "color_scheme"@,
            "custom_colors"@,
            "playlist_columns"@,
            "playlist_column_width_overrides"@,
            "button_cluster_instances"@,
            "collection_panel_instances"@,
            "text_panel_instances"@,
            "metadata_viewer_panel_instances"@,
            "image_panel_instances"@,
            "album_art_viewer_panel_instances"@,
            "viewer_panel_instances"@,
            "root"@,
        ],
        LayoutPlace::Colors => seq![
            "window_bg"@,
            "panel_bg"@,
            "panel_bg_alt"@,
            "border"@,
            "text_primary"@,
            "text_secondary"@,
            "text_muted"@,
            "accent"@,
            "accent_on"@,
            "warning"@,
            "danger"@,
            "success"@,
            "control_hover_bg"@,
            "selection_bg"@,
            "selection_border"@,
        ],
        LayoutPlace::Column => seq!["name"@, "format"@, "enabled"@, "custom"@, "width_px"@],
        LayoutPlace::WidthOverride => seq!["column_key"@, "width_px"@],
        LayoutPlace::Cluster => seq!["leaf_id"@, "actions"@],
        LayoutPlace::CollectionPanel => seq!["leaf_id"@, "mode"@],
        LayoutPlace::TextPanel => seq![
            "leaf_id"@,
            "display_priority"@,
            "text_source"@,
            "metadata_source"@,
            "text_format"@,
            "metadata_text_format"@,
        ],
        LayoutPlace::ImagePanel => seq!["leaf_id"@, "display_priority"@, "image_source"@],
        LayoutPlace::ViewerPanel => seq![
            "leaf_id"@,
            "display_priority"@,
            "metadata_source"@,
            "metadata_use_custom_text"@,
            "metadata_text_format"@,
            "image_source"@,
        ],
        LayoutPlace::Node => seq![
            "node_type"@,
            "id"@,
            "panel"@,
            "axis"@,
            "ratio"@,
            "min_first_px"@,
            "min_second_px"@,
            "first"@,
            "second"@,
        ],
        LayoutPlace::Unknown => Seq::empty(),
    }
}

/// The place of what stands under a key.
pub open spec fn place_under(place: LayoutPlace, key: Seq<char>) -> LayoutPlace {
    match place {
        LayoutPlace::Layout => if key == "custom_colors"@ {
            LayoutPlace::Colors
        } else if key == "playlist_columns"@ {
            LayoutPlace::Column
        } else if key == "playlist_column_width_overrides"@ {
            LayoutPlace::WidthOverride
        } else if key == "button_cluster_instances"@ {
            LayoutPlace::Cluster
        } else if key == "collection_panel_instances"@ {
            LayoutPlace::CollectionPanel
        } else if key == "text_panel_instances"@ || key == "metadata_viewer_panel_instances"@ {
            LayoutPlace::TextPanel
        } else if key == "image_panel_instances"@ || key == "album_art_viewer_panel_instances"@ {
            LayoutPlace::ImagePanel
        } else if key == "viewer_panel_instances"@ {
            LayoutPlace::ViewerPanel
        } else if key == "root"@ {
            LayoutPlace::Node
        } else {
            LayoutPlace::Unknown
        },
        LayoutPlace::Node => if key == "first"@ || key == "second"@ {
            LayoutPlace::Node
        } else {
            LayoutPlace::Unknown
        },
        _ => LayoutPlace::Unknown,
    }
}

/// The entries without those of some keys that the source does not have.
pub open spec fn without_stale(
    entries: Seq<EntryView>,
    source: Seq<EntryView>,
    keys: Seq<Seq<char>>,
) -> Seq<EntryView>
    decreases keys.len(),
{
    if keys.len() == 0 {
        entries
    } else {
        let before = without_stale(entries, source, keys.drop_last());
        if item_at(source, keys.last()) is Missing {
            without_key(before, keys.last())
        } else {
            before
        }
    }
}

/// The entries with those of `source` merged in. What a layout knows and `source` does not have
/// goes.
pub open spec fn merged(place: LayoutPlace, entries: Seq<EntryView>, source: Seq<EntryView>) -> Seq<
    EntryView,
>
    decreases source, 1nat, 0nat,
{
    merged_keys(
        place,
        without_stale(entries, source, known_keys(place)),
        source,
        present_keys(source),
    )
}

/// The entries with what `source` holds under some keys merged in, one key after the other.
pub open spec fn merged_keys(
    place: LayoutPlace,
    entries: Seq<EntryView>,
    source: Seq<EntryView>,
    keys: Seq<Seq<char>>,
) -> Seq<EntryView>
    decreases source, 0nat, keys.len(),
{
    if keys.len() == 0 {
        entries
    } else {
        let before = merged_keys(place, entries, source, keys.drop_last());
        let key = keys.last();
        let at = position(source, key);
        if at < source.len() {
            merged_item(place_under(place, key), before, key, source[at as int])
        } else {
            before
        }
    }
}

/// One entry merged in. Tables are merged entry by entry, arrays of tables row by row, and
/// everything else is replaced.
pub open spec fn merged_item(
    place: LayoutPlace,
    entries: Seq<EntryView>,
    key: Seq<char>,
    source: EntryView,
) -> Seq<EntryView>
    decreases source, 0nat, 0nat,
{
    match source.item {
        ItemView::Missing => entries,
        ItemView::Table { entries: inner, .. } => {
            let ready = with_table(entries, key);
            match item_at(ready, key) {
                ItemView::Table { decor, entries: old_inner } => with_item(
                    ready,
                    key,
                    ItemView::Table { decor, entries: merged(place, old_inner, inner) },
                ),
                _ => ready,
            }
        },
        ItemView::Rows { rows } => match item_at(entries, key) {
            ItemView::Rows { rows: old_rows } => with_item(
                entries,
                key,
                ItemView::Rows { rows: merged_rows(place, old_rows, rows, rows.len()) },
            ),
            _ => set_item(entries, key, source.item),
        },
        ItemView::Value { .. } => set_item(entries, key, source.item),
    }
}

/// The first `n` rows: those that both have are merged, and the others are taken over.
pub open spec fn merged_rows(
    place: LayoutPlace,
    old_rows: Seq<RowView>,
    rows: Seq<RowView>,
    n: nat,
) -> Seq<RowView>
    decreases rows, 0nat, n,
{
    if n == 0 || n > rows.len() {
        Seq::empty()
    } else {
        let i = n - 1;
        let next = if i < old_rows.len() {
            RowView {
                decor: old_rows[i].decor,
                entries: merged(place, old_rows[i].entries, rows[i].entries),
            }
        } else {
            rows[i]
        };
        merged_rows(place, old_rows, rows, (n - 1) as nat).push(next)
    }
}

/// The entries with a table under a key.
pub open spec fn with_table(entries: Seq<EntryView>, key: Seq<char>) -> Seq<EntryView> {
    if item_at(entries, key) is Table {
        entries
    } else {
        with_plain_item(entries, key, ItemView::Table { decor: usual(), entries: Seq::empty() })
    }
}

fn known_keys_of(place: LayoutPlace) -> (r: Vec<String>)
    ensures
        texts(r@) == known_keys(place),
{
    let keys: Vec<String> = match place {
        LayoutPlace::Layout => vec![
            owned("version"),
            owned("playlist_album_art_column_min_width_px"),
            owned("playlist_album_art_column_max_width_px"),
            owned("color_scheme"),
            owned("custom_colors"),
            owned("playlist_columns"),
            owned("playlist_column_width_overrides"),
            owned("button_cluster_instances"),
            owned("collection_panel_instances"),
            owned("text_panel_instances"),
            owned("metadata_viewer_panel_instances"),
            owned("image_panel_instances"),
            owned("album_art_viewer_panel_instances"),
            owned("viewer_panel_instances"),
            owned("root"),
        ],
        LayoutPlace::Colors => vec![
            owned("window_bg"),
            owned("panel_bg"),
            owned("panel_bg_alt"),
            owned("border"),
            owned("text_primary"),
            owned("text_secondary"),
            owned("text_muted"),
            owned("accent"),
            owned("accent_on"),
            owned("warning"),
            owned("danger"),
            owned("success"),
            owned("control_hover_bg"),
            owned("selection_bg"),
            owned("selection_border"),
        ],
        LayoutPlace::Column => vec![
            owned("name"),
            owned("format"),
            owned("enabled"),
            owned("custom"),
            owned("width_px"),
        ],
        LayoutPlace::WidthOverride => vec![
            owned("column_key"),
            owned("width_px"),
        ],
        LayoutPlace::Cluster => vec![
            owned("leaf_id"),
            owned("actions"),
        ],
        LayoutPlace::CollectionPanel => vec![
            owned("leaf_id"),
            owned("mode"),
        ],
        LayoutPlace::TextPanel => vec![
            owned("leaf_id"),
            owned("display_priority"),
            owned("text_source"),
            owned("metadata_source"),
            owned("text_format"),
            owned("metadata_text_format"),
        ],
        LayoutPlace::ImagePanel => vec![
            owned("leaf_id"),
            owned("display_priority"),
            owned("image_source"),
        ],
        LayoutPlace::ViewerPanel => vec![
            owned("leaf_id"),
            owned("display_priority"),
            owned("metadata_source"),
            owned("metadata_use_custom_text"),
            owned("metadata_text_format"),
            owned("image_source"),
        ],
        LayoutPlace::Node => vec![
            owned("node_type"),
            owned("id"),
            owned("panel"),
            owned("axis"),
            owned("ratio"),
            owned("min_first_px"),
            owned("min_second_px"),
            owned("first"),
            owned("second"),
        ],
        LayoutPlace::Unknown => Vec::new(),
    };
    assert(texts(keys@) =~= known_keys(place));
    keys
}

fn place_of(place: LayoutPlace, key: &str) -> (r: LayoutPlace)
    ensures
        r == place_under(place, key@),
{
    match place {
        LayoutPlace::Layout => if text_equal(key, "custom_colors") {
            LayoutPlace::Colors
        } else if text_equal(key, "playlist_columns") {
            LayoutPlace::Column
        } else if text_equal(key, "playlist_column_width_overrides") {
            LayoutPlace::WidthOverride
        } else if text_equal(key, "button_cluster_instances") {
            LayoutPlace::Cluster
        } else if text_equal(key, "collection_panel_instances") {
            LayoutPlace::CollectionPanel
        } else if text_equal(key, "text_panel_instances") || text_equal(
            key,
            "metadata_viewer_panel_instances",
        ) {
            LayoutPlace::TextPanel
        } else if text_equal(key, "image_panel_instances") || text_equal(
            key,
            "album_art_viewer_panel_instances",
        ) {
            LayoutPlace::ImagePanel
        } else if text_equal(key, "viewer_panel_instances") {
            LayoutPlace::ViewerPanel
        } else if text_equal(key, "root") {
            LayoutPlace::Node
        } else {
            LayoutPlace::Unknown
        },
        LayoutPlace::Node => if text_equal(key, "first") || text_equal(key, "second") {
            LayoutPlace::Node
        } else {
            LayoutPlace::Unknown
        },
        _ => LayoutPlace::Unknown,
    }
}

fn remove_stale(destination: &mut Table, source: &Table, place: LayoutPlace)
    ensures
        table_entries(*final(destination)) == without_stale(
            table_entries(*old(destination)),
            table_entries(*source),
            known_keys(place),
        ),
        table_decor(*final(destination)) == table_decor(*old(destination)),
{
    let keys = known_keys_of(place);
    let ghost all = known_keys(place);
    let mut i: usize = 0;
    assert(all.take(0) =~= Seq::empty());
    while i < keys.len()
        invariant
            i <= keys.len(),
            all == texts(keys@),
            table_decor(*destination) == table_decor(*old(destination)),
            table_entries(*destination) == without_stale(
                table_entries(*old(destination)),
                table_entries(*source),
                all.take(i as int),
            ),
        decreases keys.len() - i,
    {
        proof {
            assert(all.take(i + 1).drop_last() =~= all.take(i as int));
            assert(all.take(i + 1).last() == keys@[i as int]@);
        }
        if item_kind(source, &keys[i]) == TomlKind::Missing {
            remove_key(destination, &keys[i]);
        }
        i += 1;
    }
    assert(all.take(keys.len() as int) =~= all);
}

/// Merges a table into another one that stands in a place of a layout. Comments and the keys that
/// the layout does not know there stay.
pub fn merge_table_with_targeted_updates(
    destination: &mut Table,
    source: &Table,
    place: LayoutPlace,
)
    ensures
        table_entries(*final(destination)) == merged(
            place,
            table_entries(*old(destination)),
            table_entries(*source),
        ),
        table_decor(*final(destination)) == table_decor(*old(destination)),
    decreases table_entries(*source), 1nat, 0nat,
{
    remove_stale(destination, source, place);
    let ghost start = table_entries(*destination);
    let keys = table_keys(source);
    let ghost all = present_keys(table_entries(*source));
    let ghost from = table_entries(*source);
    let mut i: usize = 0;
    assert(all.take(0) =~= Seq::empty());
    while i < keys.len()
        invariant
            i <= keys.len(),
            from == table_entries(*source),
            all == texts(keys@),
            table_decor(*destination) == table_decor(*old(destination)),
            table_entries(*destination) == merged_keys(
                place,
                start,
                from,
                all.take(i as int),
            ),
        decreases keys.len() - i,
    {
        proof {
            assert(all.take(i + 1).drop_last() =~= all.take(i as int));
            assert(all.take(i + 1).last() == keys@[i as int]@);
        }
        merge_item(destination, &keys[i], source, place_of(place, &keys[i]));
        i += 1;
    }
    assert(all.take(keys.len() as int) =~= all);
}

fn merge_item(destination: &mut Table, key: &str, source: &Table, place: LayoutPlace)
    ensures
        ({
            let from = table_entries(*source);
            let at = position(from, key@);
            table_entries(*final(destination)) == (if at < from.len() {
                merged_item(place, table_entries(*old(destination)), key@, from[at as int])
            } else {
                table_entries(*old(destination))
            })
        }),
        table_decor(*final(destination)) == table_decor(*old(destination)),
    decreases table_entries(*source), 0nat, 1nat,
{
    let ghost from = table_entries(*source);
    let ghost at = position(from, key@);
    let ghost start = table_entries(*destination);
    match item_kind(source, key) {
        TomlKind::Missing => {},
        TomlKind::Value => {
            set_copy(destination, key, source);
        },
        TomlKind::Table => {
            let ready = item_kind(destination, key) == TomlKind::Table;
            if !ready {
                insert_table(destination, key);
                proof {
                    lemma_plain_item(
                        start,
                        key@,
                        ItemView::Table { decor: usual(), entries: Seq::empty() },
                    );
                }
            }
            assert(table_entries(*destination) == with_table(start, key@));
            let inner = child_table(source, key);
            assert(decreases_to!(from => from[at as int]));
            assert(decreases_to!(from[at as int] => from[at as int].item));
            merge_table_with_targeted_updates(child_table_mut(destination, key), inner, place);
        },
        TomlKind::Rows => {
            if item_kind(destination, key) != TomlKind::Rows {
                set_copy(destination, key, source);
                return;
            }
            merge_rows(destination, key, source, place);
        },
    }
}

pub proof fn lemma_plain_item(entries: Seq<EntryView>, key: Seq<char>, item: ItemView)
    ensures
        item_at(with_plain_item(entries, key, item), key) == item,
{
    lemma_position(entries, key);
    lemma_position_is(
        with_plain_item(entries, key, item),
        key,
        position(entries, key),
    );
}

pub proof fn lemma_merged_rows(
    place: LayoutPlace,
    old_rows: Seq<RowView>,
    rows: Seq<RowView>,
    n: nat,
)
    requires
        n <= rows.len(),
    ensures
        merged_rows(place, old_rows, rows, n).len() == n,
    decreases n,
{
    if n > 0 {
        lemma_merged_rows(place, old_rows, rows, (n - 1) as nat);
    }
}

fn merge_rows(destination: &mut Table, key: &str, source: &Table, place: LayoutPlace)
    requires
        item_at(table_entries(*source), key@) is Rows,
        item_at(table_entries(*old(destination)), key@) is Rows,
    ensures
        table_entries(*final(destination)) == with_item(
            table_entries(*old(destination)),
            key@,
            ItemView::Rows {
                rows: merged_rows(
                    place,
                    item_at(table_entries(*old(destination)), key@)->rows,
                    item_at(table_entries(*source), key@)->rows,
                    item_at(table_entries(*source), key@)->rows.len(),
                ),
            },
        ),
        table_decor(*final(destination)) == table_decor(*old(destination)),
    decreases table_entries(*source), 0nat, 0nat,
{
    let ghost start = table_entries(*destination);
    let ghost old_rows = item_at(start, key@)->rows;
    let ghost rows = item_at(table_entries(*source), key@)->rows;
    let ghost from = table_entries(*source);
    let ghost at = position(from, key@);
    let count: usize = row_count(source, key);
    let old_count: usize = row_count(destination, key);
    let mut i: usize = 0;
    proof {
        lemma_with_item(start, key@, ItemView::Rows { rows: old_rows });
        lemma_same_item(start, key@);
    }
    assert(old_rows =~= merged_rows(place, old_rows, rows, 0) + old_rows.skip(0));
    while i < count
        invariant
            i <= count,
            count == rows.len(),
            old_count == old_rows.len(),
            from == table_entries(*source),
            at == position(from, key@),
            at < from.len(),
            from[at as int].item == (ItemView::Rows { rows }),
            item_at(from, key@) == (ItemView::Rows { rows }),
            table_decor(*destination) == table_decor(*old(destination)),
            item_at(table_entries(*destination), key@) == (ItemView::Rows {
                rows: rows_so_far(place, old_rows, rows, i as int),
            }),
            table_entries(*destination) == with_item(
                start,
                key@,
                ItemView::Rows { rows: rows_so_far(place, old_rows, rows, i as int) },
            ),
        decreases count - i,
    {
        let ghost before = table_entries(*destination);
        let ghost now = rows_so_far(place, old_rows, rows, i as int);
        let ghost after = rows_so_far(place, old_rows, rows, i + 1);
        proof {
            lemma_merged_rows(place, old_rows, rows, i as nat);
            lemma_merged_rows(place, old_rows, rows, (i + 1) as nat);
            lemma_with_item(start, key@, ItemView::Rows { rows: now });
            lemma_with_item(before, key@, ItemView::Rows { rows: after });
        }
        let next = row(source, key, i);
        if i < old_count {
            assert(now[i as int] == old_rows[i as int]);
            assert(decreases_to!(from => from[at as int]));
            assert(decreases_to!(from[at as int] => from[at as int].item));
            assert(decreases_to!(rows => rows[i as int]));
            merge_table_with_targeted_updates(row_mut(destination, key, i), next, place);
            assert(now.update(i as int, merged_rows(place, old_rows, rows, (i + 1) as nat)[i as int])
                =~= after);
        } else {
            push_row_copy(destination, key, next);
            assert(now.push(rows[i as int]) =~= after);
        }
        i += 1;
    }
    let mut left: usize = if old_count > count {
        old_count
    } else {
        count
    };
    proof {
        lemma_merged_rows(place, old_rows, rows, count as nat);
    }
    while left > count
        invariant
            count <= left,
            count == rows.len(),
            merged_rows(place, old_rows, rows, count as nat).len() == count,
            left > count ==> left <= old_rows.len(),
            table_decor(*destination) == table_decor(*old(destination)),
            item_at(table_entries(*destination), key@) == (ItemView::Rows {
                rows: merged_rows(place, old_rows, rows, count as nat) + old_rows.skip(
                    old_rows.len() - (left - count),
                ),
            }),
            table_entries(*destination) == with_item(
                start,
                key@,
                ItemView::Rows {
                    rows: merged_rows(place, old_rows, rows, count as nat) + old_rows.skip(
                        old_rows.len() - (left - count),
                    ),
                },
            ),
        decreases left,
    {
        let ghost done = merged_rows(place, old_rows, rows, count as nat);
        let ghost now = done + old_rows.skip(old_rows.len() - (left - count));
        let ghost after = done + old_rows.skip(old_rows.len() - (left - 1 - count));
        let ghost before = table_entries(*destination);
        proof {
            lemma_with_item(start, key@, ItemView::Rows { rows: now });
            lemma_with_item(before, key@, ItemView::Rows { rows: after });
            assert(now.remove(count as int) =~= after);
        }
        remove_row(destination, key, count);
        left -= 1;
    }
    assert(merged_rows(place, old_rows, rows, count as nat) + old_rows.skip(old_rows.len() as int)
        =~= merged_rows(place, old_rows, rows, count as nat));
}

/// The rows after the first `i` are merged: those, and the old ones behind them.
spec fn rows_so_far(
    place: LayoutPlace,
    old_rows: Seq<RowView>,
    rows: Seq<RowView>,
    i: int,
) -> Seq<RowView> {
    if i < old_rows.len() {
        merged_rows(place, old_rows, rows, i as nat) + old_rows.skip(i)
    } else {
        merged_rows(place, old_rows, rows, i as nat)
    }
}

proof fn lemma_same_item(entries: Seq<EntryView>, key: Seq<char>)
    requires
        position(entries, key) < entries.len(),
    ensures
        with_item(entries, key, item_at(entries, key)) == entries,
{
    assert(with_item(entries, key, item_at(entries, key)) =~= entries);
}

/// What stands under the keys that a layout knows says what the source says: the same values, the
/// same tables with the same number of rows, and nothing where the source has nothing.
pub open spec fn follows(
    place: LayoutPlace,
    entries: Seq<EntryView>,
    source: Seq<EntryView>,
) -> bool
    decreases source, 1nat,
{
    forall|key: Seq<char>| #[trigger]
        known_keys(place).contains(key) ==> {
            let at = position(source, key);
            if at < source.len() {
                follows_entry(place_under(place, key), item_at(entries, key), source[at as int])
            } else {
                item_at(entries, key) is Missing
            }
        }
}

/// The same of one entry of the source.
pub open spec fn follows_entry(place: LayoutPlace, item: ItemView, source: EntryView) -> bool
    decreases source, 0nat,
{
    match source.item {
        ItemView::Missing => item is Missing,
        ItemView::Value { value, .. } => item is Value && item->Value_value == value,
        ItemView::Table { entries, .. } => item is Table && follows(
            place,
            item->Table_entries,
            entries,
        ),
        ItemView::Rows { rows } => {
            &&& item is Rows
            &&& item->rows.len() == rows.len()
            &&& forall|i: int|
                0 <= i < rows.len() ==> follows(
                    place,
                    (#[trigger] item->rows[i]).entries,
                    rows[i].entries,
                )
        },
    }
}

} // verus!
