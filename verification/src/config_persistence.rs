//! Writing settings into documents that keep their comments.

pub mod laws;
pub mod merge;
pub mod merge_laws;
pub mod read_back;

use crate::config::{
    backends_view, columns_view, BackendProfileConfig, BackendView, BufferingConfig, CastConfig,
    Config, IntegrationBackendKind, IntegrationsConfig, LibraryConfig, OutputConfig,
    ResamplerQuality, UiConfig, UiPlaybackOrder, UiRepeatMode,
};
use crate::config_persistence::merge::{
    follows, merge_table_with_targeted_updates, merged, LayoutPlace,
};
use crate::config_persistence::merge_laws::merging_follows_the_source;
use crate::document::{
    child_table_mut, document_entries, document_text, document_to_text, document_trailing,
    insert_table, item_at, item_kind, lemma_position, lemma_position_is, lemma_with_item,
    parse_document, parsed_document, parsed_value, push_new_row, put_flag, put_text, remove_key,
    root_table, root_table_mut, row_mut, set_flag, set_item, set_no_rows, set_parsed, set_text,
    set_texts, set_whole, table_decor, table_entries, usual, with_item, with_plain_item,
    without_key, EntryView, ItemView, RowView, ScalarView, TomlKind,
};
use crate::text::{append, owned, text_equal, texts};
use toml_edit::{DocumentMut, Table};
use vstd::prelude::*;

verus! {

/// One change of a section.
pub enum Change {
    /// A setting, written where it is new or has changed.
    Setting { key: Seq<char>, changed: bool, value: Option<ScalarView> },
    /// A list of tables, written where it is new or has changed.
    Tables { key: Seq<char>, changed: bool, rows: Seq<RowView> },
    /// A key that goes.
    Gone { key: Seq<char> },
}

pub open spec fn plain_value(value: ScalarView) -> ItemView {
    ItemView::Value { value, decor: usual() }
}

pub open spec fn changed_key(change: Change) -> Seq<char> {
    match change {
        Change::Setting { key, .. } => key,
        Change::Tables { key, .. } => key,
        Change::Gone { key } => key,
    }
}

/// The entries after one change. A setting whose text holds no value stays as it is.
#[verifier::opaque]
pub open spec fn changed(entries: Seq<EntryView>, change: Change) -> Seq<EntryView> {
    match change {
        Change::Setting { key, changed, value } => {
            if !(item_at(entries, key) is Missing) && !changed {
                entries
            } else {
                match value {
                    Some(v) => set_item(entries, key, plain_value(v)),
                    None => entries,
                }
            }
        },
        Change::Tables { key, changed, rows } => {
            if !(item_at(entries, key) is Missing) && !changed {
                entries
            } else {
                set_item(entries, key, ItemView::Rows { rows })
            }
        },
        Change::Gone { key } => without_key(entries, key),
    }
}

/// The entries after the first `n` changes.
pub open spec fn changed_by(entries: Seq<EntryView>, changes: Seq<Change>, n: nat) -> Seq<EntryView>
    decreases n,
{
    if n == 0 {
        entries
    } else {
        changed(changed_by(entries, changes, (n - 1) as nat), changes[n - 1])
    }
}

#[verifier::opaque]
pub open spec fn flag(key: Seq<char>, before: bool, after: bool) -> Change {
    Change::Setting { key, changed: before != after, value: Some(ScalarView::Flag(after)) }
}

#[verifier::opaque]
pub open spec fn whole(key: Seq<char>, before: int, after: int) -> Change {
    Change::Setting { key, changed: before != after, value: Some(ScalarView::Whole(after)) }
}

#[verifier::opaque]
pub open spec fn text(key: Seq<char>, changed: bool, after: Seq<char>) -> Change {
    Change::Setting { key, changed, value: Some(ScalarView::Text(after)) }
}

#[verifier::opaque]
pub open spec fn name(key: Seq<char>, before: Seq<char>, after: Seq<char>) -> Change {
    text(key, before != after, after)
}

pub open spec fn gone(key: Seq<char>) -> Change {
    Change::Gone { key }
}

pub open spec fn resampler_text(quality: ResamplerQuality) -> Seq<char> {
    match quality {
        ResamplerQuality::High => "high"@,
        ResamplerQuality::Highest => "highest"@,
    }
}

pub open spec fn order_text(order: UiPlaybackOrder) -> Seq<char> {
    match order {
        UiPlaybackOrder::Default => "default"@,
        UiPlaybackOrder::Shuffle => "shuffle"@,
        UiPlaybackOrder::Random => "random"@,
    }
}

pub open spec fn repeat_text(mode: UiRepeatMode) -> Seq<char> {
    match mode {
        UiRepeatMode::Off => "off"@,
        UiRepeatMode::Playlist => "playlist"@,
        UiRepeatMode::Track => "track"@,
    }
}

/// Two single-precision numbers, given by their bits, that are equal as numbers.
pub open spec fn same_number(a: u32, b: u32) -> bool {
    &&& a % 0x8000_0000 <= 0x7f80_0000
    &&& b % 0x8000_0000 <= 0x7f80_0000
    &&& a == b || (a % 0x8000_0000 == 0 && b % 0x8000_0000 == 0)
}

pub open spec fn output_changes(a: OutputConfig, b: OutputConfig) -> Seq<Change> {
    seq![
        name("output_device_name"@, a.output_device_name@, b.output_device_name@),
        flag("output_device_auto"@, a.output_device_auto, b.output_device_auto),
        whole("channel_count"@, a.channel_count as int, b.channel_count as int),
        whole("sample_rate_khz"@, a.sample_rate_khz as int, b.sample_rate_khz as int),
        whole("bits_per_sample"@, a.bits_per_sample as int, b.bits_per_sample as int),
        flag("channel_count_auto"@, a.channel_count_auto, b.channel_count_auto),
        flag("sample_rate_auto"@, a.sample_rate_auto, b.sample_rate_auto),
        flag("bits_per_sample_auto"@, a.bits_per_sample_auto, b.bits_per_sample_auto),
        text(
            "resampler_quality"@,
            a.resampler_quality != b.resampler_quality,
            resampler_text(b.resampler_quality),
        ),
        flag(
            "dither_on_bitdepth_reduce"@,
            a.dither_on_bitdepth_reduce,
            b.dither_on_bitdepth_reduce,
        ),
        flag(
            "downmix_higher_channel_tracks"@,
            a.downmix_higher_channel_tracks,
            b.downmix_higher_channel_tracks,
        ),
    ]
}

pub open spec fn cast_changes(a: CastConfig, b: CastConfig) -> Seq<Change> {
    seq![
        flag(
            "allow_transcode_fallback"@,
            a.allow_transcode_fallback,
            b.allow_transcode_fallback,
        ),
    ]
}

/// The layout-owned settings that older files kept in this section go.
pub open spec fn ui_changes(a: UiConfig, b: UiConfig, volume: Seq<char>) -> Seq<Change> {
    seq![
        flag("show_layout_edit_intro"@, a.show_layout_edit_intro, b.show_layout_edit_intro),
        flag("show_tooltips"@, a.show_tooltips, b.show_tooltips),
        flag(
            "auto_scroll_to_playing_track"@,
            a.auto_scroll_to_playing_track,
            b.auto_scroll_to_playing_track,
        ),
        gone("dark_mode"@),
        gone("button_cluster_instances"@),
        gone("playlist_columns"@),
        gone("playlist_album_art_column_min_width_px"@),
        gone("playlist_album_art_column_max_width_px"@),
        gone("layout"@),
        gone("viewer_panel_instances"@),
        whole("window_width"@, a.window_width as int, b.window_width as int),
        whole("window_height"@, a.window_height as int, b.window_height as int),
        Change::Setting {
            key: "volume"@,
            changed: !same_number(a.volume_bits, b.volume_bits),
            value: parsed_value(volume),
        },
        text("playback_order"@, a.playback_order != b.playback_order, order_text(b.playback_order)),
        text("repeat_mode"@, a.repeat_mode != b.repeat_mode, repeat_text(b.repeat_mode)),
    ]
}

pub open spec fn library_changes(a: LibraryConfig, b: LibraryConfig) -> Seq<Change> {
    seq![
        gone("show_first_start_prompt"@),
        flag("online_metadata_enabled"@, a.online_metadata_enabled, b.online_metadata_enabled),
        flag(
            "online_metadata_prompt_pending"@,
            a.online_metadata_prompt_pending,
            b.online_metadata_prompt_pending,
        ),
        flag(
            "include_playlist_tracks_in_library"@,
            a.include_playlist_tracks_in_library,
            b.include_playlist_tracks_in_library,
        ),
        whole(
            "list_image_max_edge_px"@,
            a.list_image_max_edge_px as int,
            b.list_image_max_edge_px as int,
        ),
        whole(
            "cover_art_cache_max_size_mb"@,
            a.cover_art_cache_max_size_mb as int,
            b.cover_art_cache_max_size_mb as int,
        ),
        whole(
            "cover_art_memory_cache_max_size_mb"@,
            a.cover_art_memory_cache_max_size_mb as int,
            b.cover_art_memory_cache_max_size_mb as int,
        ),
        whole(
            "artist_image_memory_cache_max_size_mb"@,
            a.artist_image_memory_cache_max_size_mb as int,
            b.artist_image_memory_cache_max_size_mb as int,
        ),
        whole(
            "image_memory_cache_ttl_secs"@,
            a.image_memory_cache_ttl_secs as int,
            b.image_memory_cache_ttl_secs as int,
        ),
        whole(
            "artist_image_cache_ttl_days"@,
            a.artist_image_cache_ttl_days as int,
            b.artist_image_cache_ttl_days as int,
        ),
        whole(
            "artist_image_cache_max_size_mb"@,
            a.artist_image_cache_max_size_mb as int,
            b.artist_image_cache_max_size_mb as int,
        ),
        Change::Setting {
            key: "folders"@,
            changed: texts(a.folders@) != texts(b.folders@),
            value: Some(ScalarView::Texts(texts(b.folders@))),
        },
    ]
}

pub open spec fn buffering_changes(a: BufferingConfig, b: BufferingConfig) -> Seq<Change> {
    seq![
        whole(
            "player_low_watermark_ms"@,
            a.player_low_watermark_ms as int,
            b.player_low_watermark_ms as int,
        ),
        whole(
            "player_target_buffer_ms"@,
            a.player_target_buffer_ms as int,
            b.player_target_buffer_ms as int,
        ),
        whole(
            "player_request_interval_ms"@,
            a.player_request_interval_ms as int,
            b.player_request_interval_ms as int,
        ),
        whole(
            "decoder_request_chunk_ms"@,
            a.decoder_request_chunk_ms as int,
            b.decoder_request_chunk_ms as int,
        ),
    ]
}

pub open spec fn backend_kind_text(kind: IntegrationBackendKind) -> Seq<char> {
    match kind {
        IntegrationBackendKind::OpenSubsonic => "open_subsonic"@,
    }
}

pub open spec fn with_text(entries: Seq<EntryView>, key: Seq<char>, value: Seq<char>) -> Seq<
    EntryView,
> {
    with_item(entries, key, plain_value(ScalarView::Text(value)))
}

/// The table of one profile.
pub open spec fn backend_row(b: BackendView) -> RowView {
    let e = with_text(Seq::empty(), "profile_id"@, b.profile_id);
    let e = with_text(e, "backend_kind"@, backend_kind_text(b.backend_kind));
    let e = with_text(e, "display_name"@, b.display_name);
    let e = with_text(e, "endpoint"@, b.endpoint);
    let e = with_text(e, "username"@, b.username);
    let e = with_item(e, "enabled"@, plain_value(ScalarView::Flag(b.enabled)));
    RowView { decor: usual(), entries: e }
}

pub open spec fn backend_rows(backends: Seq<BackendView>) -> Seq<RowView> {
    backends.map_values(|b: BackendView| backend_row(b))
}

pub open spec fn integrations_changes(a: IntegrationsConfig, b: IntegrationsConfig) -> Seq<Change> {
    seq![
        Change::Tables {
            key: "backends"@,
            changed: backends_view(a.backends@) != backends_view(b.backends@),
            rows: backend_rows(backends_view(b.backends@)),
        },
    ]
}

/// The document with a table under a key.
pub open spec fn with_section(doc: Seq<EntryView>, name: Seq<char>) -> Seq<EntryView> {
    if item_at(doc, name) is Table {
        doc
    } else {
        with_plain_item(doc, name, ItemView::Table { decor: usual(), entries: Seq::empty() })
    }
}

/// The document with changes in one section.
pub open spec fn section_changed(
    doc: Seq<EntryView>,
    name: Seq<char>,
    changes: Seq<Change>,
) -> Seq<EntryView> {
    match item_at(doc, name) {
        ItemView::Table { decor, entries } => with_item(
            doc,
            name,
            ItemView::Table { decor, entries: changed_by(entries, changes, changes.len()) },
        ),
        _ => doc,
    }
}

/// The changes of every section, in the order in which they are written.
pub open spec fn all_changes(a: Config, b: Config, volume: Seq<char>) -> Seq<
    (Seq<char>, Seq<Change>),
> {
    seq![
        ("output"@, output_changes(a.output, b.output)),
        ("cast"@, cast_changes(a.cast, b.cast)),
        ("ui"@, ui_changes(a.ui, b.ui, volume)),
        ("library"@, library_changes(a.library, b.library)),
        ("buffering"@, buffering_changes(a.buffering, b.buffering)),
        ("integrations"@, integrations_changes(a.integrations, b.integrations)),
    ]
}

/// The document with the first `n` sections in place.
pub open spec fn with_sections(
    doc: Seq<EntryView>,
    all: Seq<(Seq<char>, Seq<Change>)>,
    n: nat,
) -> Seq<EntryView>
    decreases n,
{
    if n == 0 {
        doc
    } else {
        with_section(with_sections(doc, all, (n - 1) as nat), all[n - 1].0)
    }
}

/// The document with the first `n` sections changed.
pub open spec fn sections_changed(
    doc: Seq<EntryView>,
    all: Seq<(Seq<char>, Seq<Change>)>,
    n: nat,
) -> Seq<EntryView>
    decreases n,
{
    if n == 0 {
        doc
    } else {
        section_changed(
            sections_changed(doc, all, (n - 1) as nat),
            all[n - 1].0,
            all[n - 1].1,
        )
    }
}

/// The document with the settings of `b`, where it held those of `a`.
pub open spec fn written(doc: Seq<EntryView>, a: Config, b: Config, volume: Seq<char>) -> Seq<
    EntryView,
> {
    let all = all_changes(a, b, volume);
    sections_changed(with_sections(doc, all, all.len()), all, all.len())
}

fn missing(table: &Table, key: &str) -> (r: bool)
    ensures
        r == item_at(table_entries(*table), key@) is Missing,
{
    item_kind(table, key) == TomlKind::Missing
}

fn refresh_flag(table: &mut Table, key: &str, before: bool, after: bool)
    ensures
        table_entries(*final(table)) == changed(
            table_entries(*old(table)),
            flag(key@, before, after),
        ),
        table_decor(*final(table)) == table_decor(*old(table)),
{
    proof {
        reveal(changed);
        reveal(flag);
    }
    if missing(table, key) || before != after {
        set_flag(table, key, after);
    }
}

fn refresh_whole(table: &mut Table, key: &str, before: u32, after: u32)
    ensures
        table_entries(*final(table)) == changed(
            table_entries(*old(table)),
            whole(key@, before as int, after as int),
        ),
        table_decor(*final(table)) == table_decor(*old(table)),
{
    proof {
        reveal(changed);
        reveal(whole);
    }
    if missing(table, key) || before != after {
        set_whole(table, key, after as i64);
    }
}

fn refresh_small(table: &mut Table, key: &str, before: u16, after: u16)
    ensures
        table_entries(*final(table)) == changed(
            table_entries(*old(table)),
            whole(key@, before as int, after as int),
        ),
        table_decor(*final(table)) == table_decor(*old(table)),
{
    refresh_whole(table, key, before as u32, after as u32);
}

fn refresh_text(table: &mut Table, key: &str, has_changed: bool, after: &str)
    ensures
        table_entries(*final(table)) == changed(
            table_entries(*old(table)),
            text(key@, has_changed, after@),
        ),
        table_decor(*final(table)) == table_decor(*old(table)),
{
    proof {
        reveal(changed);
        reveal(text);
    }
    if missing(table, key) || has_changed {
        set_text(table, key, after);
    }
}

fn refresh_name(table: &mut Table, key: &str, before: &str, after: &str)
    ensures
        table_entries(*final(table)) == changed(
            table_entries(*old(table)),
            name(key@, before@, after@),
        ),
        table_decor(*final(table)) == table_decor(*old(table)),
{
    proof {
        reveal(name);
    }
    refresh_text(table, key, !text_equal(before, after), after);
}

fn refresh_parsed(table: &mut Table, key: &str, has_changed: bool, after: &str)
    ensures
        table_entries(*final(table)) == changed(
            table_entries(*old(table)),
            Change::Setting { key: key@, changed: has_changed, value: parsed_value(after@) },
        ),
        table_decor(*final(table)) == table_decor(*old(table)),
{
    proof {
        reveal(changed);
    }
    if missing(table, key) || has_changed {
        set_parsed(table, key, after);
    }
}

fn refresh_texts(table: &mut Table, key: &str, has_changed: bool, after: &Vec<String>)
    ensures
        table_entries(*final(table)) == changed(
            table_entries(*old(table)),
            Change::Setting {
                key: key@,
                changed: has_changed,
                value: Some(ScalarView::Texts(texts(after@))),
            },
        ),
        table_decor(*final(table)) == table_decor(*old(table)),
{
    proof {
        reveal(changed);
    }
    if missing(table, key) || has_changed {
        set_texts(table, key, after);
    }
}

fn drop_key(table: &mut Table, key: &str)
    ensures
        table_entries(*final(table)) == changed(table_entries(*old(table)), gone(key@)),
        table_decor(*final(table)) == table_decor(*old(table)),
{
    proof {
        reveal(changed);
    }
    remove_key(table, key);
}

fn numbers_equal(a: u32, b: u32) -> (r: bool)
    ensures
        r == same_number(a, b),
{
    a % 0x8000_0000 <= 0x7f80_0000 && b % 0x8000_0000 <= 0x7f80_0000 && (a == b || (a % 0x8000_0000
        == 0 && b % 0x8000_0000 == 0))
}

fn lists_equal(a: &Vec<String>, b: &Vec<String>) -> (r: bool)
    ensures
        r == (texts(a@) == texts(b@)),
{
    if a.len() != b.len() {
        assert(texts(a@).len() != texts(b@).len());
        return false;
    }
    let mut i: usize = 0;
    while i < a.len()
        invariant
            i <= a.len(),
            a.len() == b.len(),
            forall|k: int| 0 <= k < i ==> #[trigger] texts(a@)[k] == texts(b@)[k],
        decreases a.len() - i,
    {
        assert(texts(a@)[i as int] == a@[i as int]@);
        assert(texts(b@)[i as int] == b@[i as int]@);
        if !text_equal(&a[i], &b[i]) {
            return false;
        }
        i += 1;
    }
    assert(texts(a@) =~= texts(b@));
    true
}

fn backends_equal(a: &Vec<BackendProfileConfig>, b: &Vec<BackendProfileConfig>) -> (r: bool)
    ensures
        r == (backends_view(a@) == backends_view(b@)),
{
    if a.len() != b.len() {
        assert(backends_view(a@).len() != backends_view(b@).len());
        return false;
    }
    let mut i: usize = 0;
    while i < a.len()
        invariant
            i <= a.len(),
            a.len() == b.len(),
            forall|k: int| 0 <= k < i ==> #[trigger] backends_view(a@)[k] == backends_view(b@)[k],
        decreases a.len() - i,
    {
        assert(backends_view(a@)[i as int] == a@[i as int]@);
        assert(backends_view(b@)[i as int] == b@[i as int]@);
        let x = &a[i];
        let y = &b[i];
        if !(text_equal(&x.profile_id, &y.profile_id) && x.backend_kind == y.backend_kind
            && text_equal(&x.display_name, &y.display_name) && text_equal(&x.endpoint, &y.endpoint)
            && text_equal(&x.username, &y.username) && x.enabled == y.enabled) {
            return false;
        }
        assert(x@ =~= y@);
        i += 1;
    }
    assert(backends_view(a@) =~= backends_view(b@));
    true
}

fn refresh_quality(table: &mut Table, before: ResamplerQuality, after: ResamplerQuality)
    ensures
        table_entries(*final(table)) == changed(
            table_entries(*old(table)),
            text("resampler_quality"@, before != after, resampler_text(after)),
        ),
        table_decor(*final(table)) == table_decor(*old(table)),
{
    let quality = match after {
        ResamplerQuality::High => "high",
        ResamplerQuality::Highest => "highest",
    };
    refresh_text(table, "resampler_quality", before != after, quality);
}

fn write_output(table: &mut Table, a: &OutputConfig, b: &OutputConfig)
    ensures
        table_entries(*final(table)) == changed_by(
            table_entries(*old(table)),
            output_changes(*a, *b),
            output_changes(*a, *b).len(),
        ),
        table_decor(*final(table)) == table_decor(*old(table)),
{
    refresh_name(table, "output_device_name", &a.output_device_name, &b.output_device_name);
    refresh_flag(table, "output_device_auto", a.output_device_auto, b.output_device_auto);
    refresh_small(table, "channel_count", a.channel_count, b.channel_count);
    refresh_whole(table, "sample_rate_khz", a.sample_rate_khz, b.sample_rate_khz);
    refresh_small(table, "bits_per_sample", a.bits_per_sample, b.bits_per_sample);
    refresh_flag(table, "channel_count_auto", a.channel_count_auto, b.channel_count_auto);
    refresh_flag(table, "sample_rate_auto", a.sample_rate_auto, b.sample_rate_auto);
    refresh_flag(table, "bits_per_sample_auto", a.bits_per_sample_auto, b.bits_per_sample_auto);
    refresh_quality(table, a.resampler_quality, b.resampler_quality);
    refresh_flag(
        table,
        "dither_on_bitdepth_reduce",
        a.dither_on_bitdepth_reduce,
        b.dither_on_bitdepth_reduce,
    );
    refresh_flag(
        table,
        "downmix_higher_channel_tracks",
        a.downmix_higher_channel_tracks,
        b.downmix_higher_channel_tracks,
    );
    proof {
        reveal_with_fuel(changed_by, 12);
        assert(output_changes(*a, *b).len() == 11);
    }
}

fn write_cast(table: &mut Table, a: &CastConfig, b: &CastConfig)
    ensures
        table_entries(*final(table)) == changed_by(
            table_entries(*old(table)),
            cast_changes(*a, *b),
            cast_changes(*a, *b).len(),
        ),
        table_decor(*final(table)) == table_decor(*old(table)),
{
    refresh_flag(
        table,
        "allow_transcode_fallback",
        a.allow_transcode_fallback,
        b.allow_transcode_fallback,
    );
    proof {
        reveal_with_fuel(changed_by, 2);
        assert(cast_changes(*a, *b).len() == 1);
    }
}

fn write_ui(table: &mut Table, a: &UiConfig, b: &UiConfig, volume: &str)
    ensures
        table_entries(*final(table)) == changed_by(
            table_entries(*old(table)),
            ui_changes(*a, *b, volume@),
            ui_changes(*a, *b, volume@).len(),
        ),
        table_decor(*final(table)) == table_decor(*old(table)),
{
    refresh_flag(
        table,
        "show_layout_edit_intro",
        a.show_layout_edit_intro,
        b.show_layout_edit_intro,
    );
    refresh_flag(table, "show_tooltips", a.show_tooltips, b.show_tooltips);
    refresh_flag(
        table,
        "auto_scroll_to_playing_track",
        a.auto_scroll_to_playing_track,
        b.auto_scroll_to_playing_track,
    );
    drop_key(table, "dark_mode");
    drop_key(table, "button_cluster_instances");
    drop_key(table, "playlist_columns");
    drop_key(table, "playlist_album_art_column_min_width_px");
    drop_key(table, "playlist_album_art_column_max_width_px");
    drop_key(table, "layout");
    drop_key(table, "viewer_panel_instances");
    refresh_whole(table, "window_width", a.window_width, b.window_width);
    refresh_whole(table, "window_height", a.window_height, b.window_height);
    refresh_parsed(table, "volume", !numbers_equal(a.volume_bits, b.volume_bits), volume);
    let order = match b.playback_order {
        UiPlaybackOrder::Default => "default",
        UiPlaybackOrder::Shuffle => "shuffle",
        UiPlaybackOrder::Random => "random",
    };
    refresh_text(table, "playback_order", a.playback_order != b.playback_order, order);
    let repeat = match b.repeat_mode {
        UiRepeatMode::Off => "off",
        UiRepeatMode::Playlist => "playlist",
        UiRepeatMode::Track => "track",
    };
    refresh_text(table, "repeat_mode", a.repeat_mode != b.repeat_mode, repeat);
    proof {
        reveal_with_fuel(changed_by, 16);
        let all = ui_changes(*a, *b, volume@);
        assert(all.len() == 15);
    }
}

fn write_library(table: &mut Table, a: &LibraryConfig, b: &LibraryConfig)
    ensures
        table_entries(*final(table)) == changed_by(
            table_entries(*old(table)),
            library_changes(*a, *b),
            library_changes(*a, *b).len(),
        ),
        table_decor(*final(table)) == table_decor(*old(table)),
{
    drop_key(table, "show_first_start_prompt");
    refresh_flag(
        table,
        "online_metadata_enabled",
        a.online_metadata_enabled,
        b.online_metadata_enabled,
    );
    refresh_flag(
        table,
        "online_metadata_prompt_pending",
        a.online_metadata_prompt_pending,
        b.online_metadata_prompt_pending,
    );
    refresh_flag(
        table,
        "include_playlist_tracks_in_library",
        a.include_playlist_tracks_in_library,
        b.include_playlist_tracks_in_library,
    );
    refresh_whole(
        table,
        "list_image_max_edge_px",
        a.list_image_max_edge_px,
        b.list_image_max_edge_px,
    );
    refresh_whole(
        table,
        "cover_art_cache_max_size_mb",
        a.cover_art_cache_max_size_mb,
        b.cover_art_cache_max_size_mb,
    );
    refresh_whole(
        table,
        "cover_art_memory_cache_max_size_mb",
        a.cover_art_memory_cache_max_size_mb,
        b.cover_art_memory_cache_max_size_mb,
    );
    refresh_whole(
        table,
        "artist_image_memory_cache_max_size_mb",
        a.artist_image_memory_cache_max_size_mb,
        b.artist_image_memory_cache_max_size_mb,
    );
    refresh_whole(
        table,
        "image_memory_cache_ttl_secs",
        a.image_memory_cache_ttl_secs,
        b.image_memory_cache_ttl_secs,
    );
    refresh_whole(
        table,
        "artist_image_cache_ttl_days",
        a.artist_image_cache_ttl_days,
        b.artist_image_cache_ttl_days,
    );
    refresh_whole(
        table,
        "artist_image_cache_max_size_mb",
        a.artist_image_cache_max_size_mb,
        b.artist_image_cache_max_size_mb,
    );
    refresh_texts(table, "folders", !lists_equal(&a.folders, &b.folders), &b.folders);
    proof {
        reveal_with_fuel(changed_by, 13);
        let all = library_changes(*a, *b);
        assert(all.len() == 12);
    }
}

fn write_buffering(table: &mut Table, a: &BufferingConfig, b: &BufferingConfig)
    ensures
        table_entries(*final(table)) == changed_by(
            table_entries(*old(table)),
            buffering_changes(*a, *b),
            buffering_changes(*a, *b).len(),
        ),
        table_decor(*final(table)) == table_decor(*old(table)),
{
    refresh_whole(
        table,
        "player_low_watermark_ms",
        a.player_low_watermark_ms,
        b.player_low_watermark_ms,
    );
    refresh_whole(
        table,
        "player_target_buffer_ms",
        a.player_target_buffer_ms,
        b.player_target_buffer_ms,
    );
    refresh_whole(
        table,
        "player_request_interval_ms",
        a.player_request_interval_ms,
        b.player_request_interval_ms,
    );
    refresh_whole(
        table,
        "decoder_request_chunk_ms",
        a.decoder_request_chunk_ms,
        b.decoder_request_chunk_ms,
    );
    proof {
        reveal_with_fuel(changed_by, 5);
        assert(buffering_changes(*a, *b).len() == 4);
    }
}

fn fill_row(table: &mut Table, backend: &BackendProfileConfig)
    requires
        table_entries(*old(table)) == Seq::<EntryView>::empty(),
    ensures
        table_entries(*final(table)) == backend_row(backend@).entries,
        table_decor(*final(table)) == table_decor(*old(table)),
{
    put_text(table, "profile_id", &backend.profile_id);
    let kind = match backend.backend_kind {
        IntegrationBackendKind::OpenSubsonic => "open_subsonic",
    };
    put_text(table, "backend_kind", kind);
    put_text(table, "display_name", &backend.display_name);
    put_text(table, "endpoint", &backend.endpoint);
    put_text(table, "username", &backend.username);
    put_flag(table, "enabled", backend.enabled);
}

fn write_integrations(table: &mut Table, a: &IntegrationsConfig, b: &IntegrationsConfig)
    ensures
        table_entries(*final(table)) == changed_by(
            table_entries(*old(table)),
            integrations_changes(*a, *b),
            integrations_changes(*a, *b).len(),
        ),
        table_decor(*final(table)) == table_decor(*old(table)),
{
    let ghost start = table_entries(*table);
    let ghost all = backends_view(b.backends@);
    let key = "backends";
    proof {
        reveal(changed);
        reveal_with_fuel(changed_by, 2);
        assert(integrations_changes(*a, *b).len() == 1);
    }
    if !missing(table, key) && backends_equal(&a.backends, &b.backends) {
        return;
    }
    set_no_rows(table, key);
    let ghost first = ItemView::Rows { rows: Seq::<RowView>::empty() };
    let ghost empty = table_entries(*table);
    proof {
        lemma_set_rows(start, key@, first->rows);
    }
    let mut i: usize = 0;
    assert(backend_rows(all).take(0) =~= Seq::empty());
    while i < b.backends.len()
        invariant
            i <= b.backends.len(),
            all == backends_view(b.backends@),
            table_decor(*table) == table_decor(*old(table)),
            item_at(table_entries(*table), key@) == (ItemView::Rows {
                rows: backend_rows(all).take(i as int),
            }),
            table_entries(*table) == with_item(
                empty,
                key@,
                ItemView::Rows { rows: backend_rows(all).take(i as int) },
            ),
        decreases b.backends.len() - i,
    {
        let ghost before = table_entries(*table);
        let ghost rows = backend_rows(all).take(i as int);
        push_new_row(table, key);
        proof {
            lemma_with_item(
                before,
                key@,
                ItemView::Rows { rows: rows.push(RowView { decor: usual(), entries: Seq::empty() }) },
            );
        }
        let ghost pushed = table_entries(*table);
        fill_row(row_mut(table, key, i), &b.backends[i]);
        proof {
            let full = backend_rows(all).take(i + 1);
            assert(backend_rows(all)[i as int] == backend_row(b.backends@[i as int]@));
            assert(rows.push(RowView { decor: usual(), entries: Seq::empty() }).update(
                i as int,
                backend_row(b.backends@[i as int]@),
            ) =~= full);
            lemma_with_item(empty, key@, ItemView::Rows { rows });
            lemma_with_item(pushed, key@, ItemView::Rows { rows: full });
        }
        i += 1;
    }
    proof {
        assert(backend_rows(all).take(b.backends.len() as int) =~= backend_rows(all));
        lemma_set_rows(start, key@, backend_rows(all));
    }
}

/// Rows that are set and then filled are rows that are set.
proof fn lemma_set_rows(entries: Seq<EntryView>, key: Seq<char>, rows: Seq<RowView>)
    ensures
        ({
            let none = Seq::<RowView>::empty();
            let empty = set_item(entries, key, ItemView::Rows { rows: none });
            &&& item_at(empty, key) == (ItemView::Rows { rows: none })
            &&& with_item(empty, key, ItemView::Rows { rows: none }) == empty
            &&& with_item(empty, key, ItemView::Rows { rows }) == set_item(
                entries,
                key,
                ItemView::Rows { rows },
            )
        }),
{
    let none = ItemView::Rows { rows: Seq::<RowView>::empty() };
    let current = item_at(entries, key);
    if !(current is Missing) && !(current is Rows) {
        lemma_with_item(without_key(entries, key), key, none);
    } else {
        lemma_with_item(entries, key, none);
    }
}

/// Sections that are in place stay in place.
proof fn lemma_sections_stay(doc: Seq<EntryView>, name: Seq<char>, other: Seq<char>)
    ensures
        item_at(with_section(doc, name), name) is Table,
        item_at(doc, other) is Table ==> item_at(with_section(doc, name), other) is Table,
{
    if !(item_at(doc, name) is Table) {
        lemma_with_plain_item(
            doc,
            name,
            ItemView::Table { decor: usual(), entries: Seq::empty() },
            other,
        );
    }
}

proof fn lemma_with_plain_item(
    entries: Seq<EntryView>,
    key: Seq<char>,
    item: ItemView,
    other: Seq<char>,
)
    ensures
        item_at(with_plain_item(entries, key, item), key) == item,
        other != key ==> item_at(with_plain_item(entries, key, item), other) == item_at(
            entries,
            other,
        ),
{
    let after = with_plain_item(entries, key, item);
    lemma_position(entries, key);
    lemma_position_is(after, key, position_of(entries, key));
    lemma_position(entries, other);
    if other != key {
        let p = position_of(entries, other);
        if p < entries.len() {
            lemma_position_is(after, other, p);
        } else {
            assert forall|i: int| 0 <= i < after.len() implies (#[trigger] after[i]).key
                != other by {
                if i < entries.len() {
                    assert(entries[i].key != other);
                }
            }
            lemma_position_is(after, other, after.len());
        }
    }
}

spec fn position_of(entries: Seq<EntryView>, key: Seq<char>) -> nat {
    crate::document::position(entries, key)
}

proof fn lemma_section_changed_stays(
    doc: Seq<EntryView>,
    name: Seq<char>,
    changes: Seq<Change>,
    other: Seq<char>,
)
    ensures
        item_at(doc, other) is Table ==> item_at(
            section_changed(doc, name, changes),
            other,
        ) is Table,
        other != name ==> item_at(section_changed(doc, name, changes), other) == item_at(doc, other),
{
    match item_at(doc, name) {
        ItemView::Table { decor, entries } => {
            lemma_with_item(
                doc,
                name,
                ItemView::Table { decor, entries: changed_by(entries, changes, changes.len()) },
            );
        },
        _ => {},
    }
}

fn ensure_section_table(root: &mut Table, name: &str)
    ensures
        table_entries(*final(root)) == with_section(table_entries(*old(root)), name@),
{
    if item_kind(root, name) != TomlKind::Table {
        insert_table(root, name);
    }
}

proof fn lemma_all_in_place(
    doc: Seq<EntryView>,
    all: Seq<(Seq<char>, Seq<Change>)>,
    n: nat,
    k: int,
)
    requires
        0 <= k < n <= all.len(),
    ensures
        item_at(with_sections(doc, all, n), all[k].0) is Table,
    decreases n,
{
    let before = with_sections(doc, all, (n - 1) as nat);
    lemma_sections_stay(before, all[n - 1].0, all[k].0);
    if k < n - 1 {
        lemma_all_in_place(doc, all, (n - 1) as nat, k);
    }
}

proof fn lemma_changed_in_place(
    doc: Seq<EntryView>,
    all: Seq<(Seq<char>, Seq<Change>)>,
    n: nat,
    name: Seq<char>,
)
    requires
        n <= all.len(),
        item_at(doc, name) is Table,
    ensures
        item_at(sections_changed(doc, all, n), name) is Table,
    decreases n,
{
    if n > 0 {
        lemma_changed_in_place(doc, all, (n - 1) as nat, name);
        lemma_section_changed_stays(
            sections_changed(doc, all, (n - 1) as nat),
            all[n - 1].0,
            all[n - 1].1,
            name,
        );
    }
}

/// Writes settings into a document that held those of `previous`. `volume` is the volume of
/// `config` as a TOML number.
pub fn write_config_to_document(
    document: &mut DocumentMut,
    previous: &Config,
    config: &Config,
    volume: &str,
)
    ensures
        document_entries(*final(document)) == written(
            document_entries(*old(document)),
            *previous,
            *config,
            volume@,
        ),
        document_trailing(*final(document)) == document_trailing(*old(document)),
{
    let ghost start = document_entries(*document);
    let ghost all = all_changes(*previous, *config, volume@);
    let root = root_table_mut(document);
    ensure_section_table(root, "output");
    ensure_section_table(root, "cast");
    ensure_section_table(root, "ui");
    ensure_section_table(root, "library");
    ensure_section_table(root, "buffering");
    ensure_section_table(root, "integrations");
    let ghost doc = table_entries(*root);
    proof {
        reveal_with_fuel(with_sections, 7);
        assert(all.len() == 6);
        assert(doc == with_sections(start, all, 6));
        assert forall|k: int| 0 <= k < 6 implies item_at(doc, #[trigger] all[k].0) is Table by {
            lemma_all_in_place(start, all, 6, k);
        }
        assert(all[0].0 == "output"@ && all[1].0 == "cast"@ && all[2].0 == "ui"@ && all[3].0
            == "library"@ && all[4].0 == "buffering"@ && all[5].0 == "integrations"@);
        reveal_with_fuel(sections_changed, 7);
    }
    write_output(child_table_mut(root, "output"), &previous.output, &config.output);
    proof {
        assert(table_entries(*root) == sections_changed(doc, all, 1));
        lemma_changed_in_place(doc, all, 1, "cast"@);
    }
    write_cast(child_table_mut(root, "cast"), &previous.cast, &config.cast);
    proof {
        assert(table_entries(*root) == sections_changed(doc, all, 2));
        lemma_changed_in_place(doc, all, 2, "ui"@);
    }
    write_ui(child_table_mut(root, "ui"), &previous.ui, &config.ui, volume);
    proof {
        assert(table_entries(*root) == sections_changed(doc, all, 3));
        lemma_changed_in_place(doc, all, 3, "library"@);
    }
    write_library(child_table_mut(root, "library"), &previous.library, &config.library);
    proof {
        assert(table_entries(*root) == sections_changed(doc, all, 4));
        lemma_changed_in_place(doc, all, 4, "buffering"@);
    }
    write_buffering(child_table_mut(root, "buffering"), &previous.buffering, &config.buffering);
    proof {
        assert(table_entries(*root) == sections_changed(doc, all, 5));
        lemma_changed_in_place(doc, all, 5, "integrations"@);
    }
    write_integrations(
        child_table_mut(root, "integrations"),
        &previous.integrations,
        &config.integrations,
    );
    assert(table_entries(*root) == sections_changed(doc, all, 6));
}

fn message(head: &str, detail: &str) -> (r: String)
    ensures
        r@ == head@ + detail@,
{
    let mut out = owned(head);
    append(&mut out, detail);
    out
}

/// Writes `config` into the text of a configuration file and keeps its comments and the keys
/// that are not known here. `previous` is what the text holds as a configuration, or why it
/// holds none, and `volume` the volume of `config` as a TOML number.
pub fn serialize_config_with_preserved_comments(
    existing_text: &str,
    previous: Result<Config, String>,
    config: &Config,
    volume: &str,
) -> (r: Result<String, String>)
    ensures
        match previous {
            Err(reason) => r is Err && r->Err_0@ == "failed to parse existing config as Config: "@
                + reason@,
            Ok(before) => match parsed_document(existing_text@) {
                Err(reason) => r is Err && r->Err_0@
                    == "failed to parse existing config as TOML document: "@ + reason,
                Ok((entries, behind)) => r is Ok && exists|d: DocumentMut| #[trigger]
                    document_text(d) == r->Ok_0@ && document_entries(d) == written(
                        entries,
                        before,
                        *config,
                        volume@,
                    ) && document_trailing(d) == behind,
            },
        },
{
    match previous {
        Err(reason) => Err(message("failed to parse existing config as Config: ", &reason)),
        Ok(before) => match parse_document(existing_text) {
            Err(reason) => Err(
                message("failed to parse existing config as TOML document: ", &reason),
            ),
            Ok(document) => {
                let mut document = document;
                write_config_to_document(&mut document, &before, config, volume);
                Ok(document_to_text(&document))
            },
        },
    }
}

/// Writes a layout into the text of a layout file and keeps its comments and the keys that
/// are not known here. The keys of a layout that the new one does not have go.
/// `next_layout_text` is the layout as TOML, or why it could not be written.
pub fn serialize_layout_with_preserved_comments(
    existing_text: &str,
    next_layout_text: Result<String, String>,
) -> (r: Result<String, String>)
    ensures
        match next_layout_text {
            Err(reason) => r is Err && r->Err_0@ == "failed to serialize layout to TOML: "@
                + reason@,
            Ok(text) => match parsed_document(text@) {
                Err(reason) => r is Err && r->Err_0@
                    == "failed to parse serialized layout TOML document: "@ + reason,
                Ok((next, _)) => match parsed_document(existing_text@) {
                    Err(reason) => r is Err && r->Err_0@
                        == "failed to parse existing layout as TOML document: "@ + reason,
                    Ok((entries, behind)) => r is Ok && exists|d: DocumentMut| #[trigger]
                        document_text(d) == r->Ok_0@ && document_entries(d) == merged(
                            LayoutPlace::Layout,
                            entries,
                            next,
                        ) && follows(LayoutPlace::Layout, document_entries(d), next)
                            && document_trailing(d) == behind,
                },
            },
        },
{
    let text = match next_layout_text {
        Err(reason) => {
            return Err(message("failed to serialize layout to TOML: ", &reason));
        },
        Ok(text) => text,
    };
    let next = match parse_document(&text) {
        Err(reason) => {
            return Err(message("failed to parse serialized layout TOML document: ", &reason));
        },
        Ok(next) => next,
    };
    match parse_document(existing_text) {
        Err(reason) => Err(
            message("failed to parse existing layout as TOML document: ", &reason),
        ),
        Ok(document) => {
            let mut document = document;
            proof {
                merging_follows_the_source(
                    LayoutPlace::Layout,
                    document_entries(document),
                    document_entries(next),
                );
            }
            merge_table_with_targeted_updates(
                root_table_mut(&mut document),
                root_table(&next),
                LayoutPlace::Layout,
            );
            Ok(document_to_text(&document))
        },
    }
}

/// Copies the column settings of the layout into the user interface settings.
pub fn hydrate_ui_columns_from_layout(config: &mut Config)
    ensures
        columns_view(final(config).ui.playlist_columns@) == columns_view(
            old(config).ui.layout.playlist_columns@,
        ),
        *final(config) == (Config {
            ui: UiConfig {
                playlist_album_art_column_min_width_px: old(
                    config,
                ).ui.layout.playlist_album_art_column_min_width_px,
                playlist_album_art_column_max_width_px: old(
                    config,
                ).ui.layout.playlist_album_art_column_max_width_px,
                playlist_columns: final(config).ui.playlist_columns,
                ..old(config).ui
            },
            ..*old(config)
        }),
{
    config.ui.playlist_album_art_column_min_width_px =
    config.ui.layout.playlist_album_art_column_min_width_px;
    config.ui.playlist_album_art_column_max_width_px =
    config.ui.layout.playlist_album_art_column_max_width_px;
    let columns = config.ui.layout.playlist_columns.clone();
    assert(columns@ =~= config.ui.layout.playlist_columns@);
    config.ui.playlist_columns = columns;
}

} // verus!
