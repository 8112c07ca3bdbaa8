//! Written settings read back.

use crate::config::{
    backends_view, BackendView, BufferingConfig, CastConfig, Config, IntegrationsConfig,
    LibraryConfig, OutputConfig, ResamplerQuality, UiConfig, UiPlaybackOrder, UiRepeatMode,
};
use crate::config_persistence::laws::{section, sections_are_written, settings_are_written};
use crate::config_persistence::{
    all_changes, backend_kind_text, backend_row, backend_rows, buffering_changes, cast_changes,
    changed, changed_by, flag, integrations_changes, library_changes, name, order_text,
    output_changes, plain_value, repeat_text, resampler_text, same_number, text, ui_changes, whole,
    with_text, written, Change,
};
use crate::document::{
    item_at, lemma_with_item, parsed_value, set_item, without_key, EntryView, ItemView, ScalarView,
};
use crate::text::texts;
use vstd::prelude::*;

verus! {

/// How a reader takes values of other kinds: as a single-precision number, by its bits, or as a
/// list of profiles.
pub struct Reader {
    pub number: spec_fn(ScalarView) -> u32,
    pub profiles: spec_fn(ScalarView) -> Seq<BackendView>,
}

/// What a setting is.
pub enum SettingView {
    Flag(bool),
    Whole(int),
    Text(Seq<char>),
    Quality(ResamplerQuality),
    Number(u32),
    Texts(Seq<Seq<char>>),
}

/// A value reads as a setting. The highest quality has an older name.
pub open spec fn reads_as(value: ScalarView, setting: SettingView, reader: Reader) -> bool {
    match setting {
        SettingView::Flag(on) => value == ScalarView::Flag(on),
        SettingView::Whole(n) => value == ScalarView::Whole(n),
        SettingView::Text(t) => value == ScalarView::Text(t),
        SettingView::Quality(q) => value == ScalarView::Text(resampler_text(q)) || (q
            == ResamplerQuality::Highest && value == ScalarView::Text("very_high"@)),
        SettingView::Number(bits) => same_number((reader.number)(value), bits),
        SettingView::Texts(list) => value == ScalarView::Texts(list),
    }
}

pub open spec fn output_settings(c: OutputConfig) -> Seq<(Seq<char>, SettingView)> {
    seq![
        ("output_device_name"@, SettingView::Text(c.output_device_name@)),
        ("output_device_auto"@, SettingView::Flag(c.output_device_auto)),
        ("channel_count"@, SettingView::Whole(c.channel_count as int)),
        ("sample_rate_khz"@, SettingView::Whole(c.sample_rate_khz as int)),
        ("bits_per_sample"@, SettingView::Whole(c.bits_per_sample as int)),
        ("channel_count_auto"@, SettingView::Flag(c.channel_count_auto)),
        ("sample_rate_auto"@, SettingView::Flag(c.sample_rate_auto)),
        ("bits_per_sample_auto"@, SettingView::Flag(c.bits_per_sample_auto)),
        ("resampler_quality"@, SettingView::Quality(c.resampler_quality)),
        ("dither_on_bitdepth_reduce"@, SettingView::Flag(c.dither_on_bitdepth_reduce)),
        ("downmix_higher_channel_tracks"@, SettingView::Flag(c.downmix_higher_channel_tracks)),
    ]
}

pub open spec fn cast_settings(c: CastConfig) -> Seq<(Seq<char>, SettingView)> {
    seq![("allow_transcode_fallback"@, SettingView::Flag(c.allow_transcode_fallback))]
}

pub open spec fn ui_settings(c: UiConfig) -> Seq<(Seq<char>, SettingView)> {
    seq![
        ("show_layout_edit_intro"@, SettingView::Flag(c.show_layout_edit_intro)),
        ("show_tooltips"@, SettingView::Flag(c.show_tooltips)),
        ("auto_scroll_to_playing_track"@, SettingView::Flag(c.auto_scroll_to_playing_track)),
        ("window_width"@, SettingView::Whole(c.window_width as int)),
        ("window_height"@, SettingView::Whole(c.window_height as int)),
        ("volume"@, SettingView::Number(c.volume_bits)),
        ("playback_order"@, SettingView::Text(order_text(c.playback_order))),
        ("repeat_mode"@, SettingView::Text(repeat_text(c.repeat_mode))),
    ]
}

pub open spec fn library_settings(c: LibraryConfig) -> Seq<(Seq<char>, SettingView)> {
    seq![
        ("online_metadata_enabled"@, SettingView::Flag(c.online_metadata_enabled)),
        ("online_metadata_prompt_pending"@, SettingView::Flag(c.online_metadata_prompt_pending)),
        (
            "include_playlist_tracks_in_library"@,
            SettingView::Flag(c.include_playlist_tracks_in_library),
        ),
        ("list_image_max_edge_px"@, SettingView::Whole(c.list_image_max_edge_px as int)),
        ("cover_art_cache_max_size_mb"@, SettingView::Whole(c.cover_art_cache_max_size_mb as int)),
        (
            "cover_art_memory_cache_max_size_mb"@,
            SettingView::Whole(c.cover_art_memory_cache_max_size_mb as int),
        ),
        (
            "artist_image_memory_cache_max_size_mb"@,
            SettingView::Whole(c.artist_image_memory_cache_max_size_mb as int),
        ),
        ("image_memory_cache_ttl_secs"@, SettingView::Whole(c.image_memory_cache_ttl_secs as int)),
        ("artist_image_cache_ttl_days"@, SettingView::Whole(c.artist_image_cache_ttl_days as int)),
        (
            "artist_image_cache_max_size_mb"@,
            SettingView::Whole(c.artist_image_cache_max_size_mb as int),
        ),
        ("folders"@, SettingView::Texts(texts(c.folders@))),
    ]
}

pub open spec fn buffering_settings(c: BufferingConfig) -> Seq<(Seq<char>, SettingView)> {
    seq![
        ("player_low_watermark_ms"@, SettingView::Whole(c.player_low_watermark_ms as int)),
        ("player_target_buffer_ms"@, SettingView::Whole(c.player_target_buffer_ms as int)),
        ("player_request_interval_ms"@, SettingView::Whole(c.player_request_interval_ms as int)),
        ("decoder_request_chunk_ms"@, SettingView::Whole(c.decoder_request_chunk_ms as int)),
    ]
}

/// The settings of the sections that hold nothing but values.
pub open spec fn all_settings(c: Config) -> Seq<(Seq<char>, Seq<(Seq<char>, SettingView)>)> {
    seq![
        ("output"@, output_settings(c.output)),
        ("cast"@, cast_settings(c.cast)),
        ("ui"@, ui_settings(c.ui)),
        ("library"@, library_settings(c.library)),
        ("buffering"@, buffering_settings(c.buffering)),
    ]
}

pub open spec fn text_or_nothing(item: ItemView, t: Seq<char>) -> bool {
    match item {
        ItemView::Missing => t.len() == 0,
        ItemView::Value { value, .. } => value == ScalarView::Text(t),
        _ => false,
    }
}

/// A row reads as a profile; of what is missing, texts are empty and flags are off.
pub open spec fn row_reads_as(row: Seq<EntryView>, b: BackendView) -> bool {
    &&& item_at(row, "profile_id"@) is Value
    &&& item_at(row, "profile_id"@)->Value_value == ScalarView::Text(b.profile_id)
    &&& item_at(row, "backend_kind"@) is Missing || text_or_nothing(
        item_at(row, "backend_kind"@),
        backend_kind_text(b.backend_kind),
    )
    &&& text_or_nothing(item_at(row, "display_name"@), b.display_name)
    &&& text_or_nothing(item_at(row, "endpoint"@), b.endpoint)
    &&& text_or_nothing(item_at(row, "username"@), b.username)
    &&& match item_at(row, "enabled"@) {
        ItemView::Missing => !b.enabled,
        ItemView::Value { value, .. } => value == ScalarView::Flag(b.enabled),
        _ => false,
    }
}

/// An item reads as a list of profiles.
pub open spec fn profiles_read_as(
    item: ItemView,
    profiles: Seq<BackendView>,
    reader: Reader,
) -> bool {
    match item {
        ItemView::Rows { rows } => {
            &&& rows.len() == profiles.len()
            &&& forall|i: int|
                0 <= i < rows.len() ==> row_reads_as((#[trigger] rows[i]).entries, profiles[i])
        },
        ItemView::Value { value, .. } => (reader.profiles)(value) == profiles,
        _ => false,
    }
}

/// A value stands under a key and reads as a setting.
pub open spec fn holds_setting(
    entries: Seq<EntryView>,
    setting: (Seq<char>, SettingView),
    reader: Reader,
) -> bool {
    let item = item_at(entries, setting.0);
    item is Value && reads_as(item->Value_value, setting.1, reader)
}

/// Whatever setting stands in the document reads as the one of `c`.
pub open spec fn agrees_with(doc: Seq<EntryView>, c: Config, reader: Reader) -> bool {
    let all = all_settings(c);
    let profiles = item_at(section(doc, "integrations"@), "backends"@);
    &&& forall|i: int, k: int|
        0 <= i < all.len() && 0 <= k < all[i].1.len() ==> item_at(
            section(doc, all[i].0),
            (#[trigger] all[i].1[k]).0,
        ) is Missing || holds_setting(section(doc, all[i].0), all[i].1[k], reader)
    &&& profiles is Missing || profiles_read_as(
        profiles,
        backends_view(c.integrations.backends@),
        reader,
    )
}

/// Every setting stands in the document, and reads as the one of `c`.
pub open spec fn holds(doc: Seq<EntryView>, c: Config, reader: Reader) -> bool {
    let all = all_settings(c);
    &&& forall|i: int, k: int|
        0 <= i < all.len() && 0 <= k < all[i].1.len() ==> holds_setting(
            section(doc, all[i].0),
            #[trigger] all[i].1[k],
            reader,
        )
    &&& profiles_read_as(
        item_at(section(doc, "integrations"@), "backends"@),
        backends_view(c.integrations.backends@),
        reader,
    )
}

/// A change writes a setting: its value reads as it, and what read as the old setting reads as
/// the new one where nothing is written.
spec fn writes(
    change: Change,
    before: (Seq<char>, SettingView),
    after: (Seq<char>, SettingView),
    reader: Reader,
) -> bool {
    &&& change is Setting
    &&& change->Setting_key == after.0
    &&& before.0 == after.0
    &&& change->Setting_value is Some
    &&& reads_as(change->Setting_value->Some_0, after.1, reader)
    &&& !change->Setting_changed ==> forall|v: ScalarView| #[trigger]
        reads_as(v, before.1, reader) ==> reads_as(v, after.1, reader)
}

/// The change that writes a setting.
spec fn change_of(i: int, k: int) -> int {
    if i == 2 && k >= 3 {
        k + 7
    } else if i == 3 {
        k + 1
    } else {
        k
    }
}

proof fn lemma_output_written(a: OutputConfig, b: OutputConfig, reader: Reader)
    ensures
        forall|k: int|
            0 <= k < output_settings(b).len() ==> writes(
                output_changes(a, b)[k],
                output_settings(a)[k],
                #[trigger] output_settings(b)[k],
                reader,
            ),
{
    reveal(flag);
    reveal(whole);
    reveal(text);
    reveal(name);
}

proof fn lemma_ui_written(a: UiConfig, b: UiConfig, volume: Seq<char>, reader: Reader)
    requires
        parsed_value(volume) is Some,
        same_number((reader.number)(parsed_value(volume)->Some_0), b.volume_bits),
    ensures
        forall|k: int|
            0 <= k < ui_settings(b).len() ==> writes(
                ui_changes(a, b, volume)[change_of(2, k)],
                ui_settings(a)[k],
                #[trigger] ui_settings(b)[k],
                reader,
            ),
{
    reveal(flag);
    reveal(whole);
    reveal(text);
}

proof fn lemma_library_written(a: LibraryConfig, b: LibraryConfig, reader: Reader)
    ensures
        forall|k: int|
            0 <= k < library_settings(b).len() ==> writes(
                library_changes(a, b)[k + 1],
                library_settings(a)[k],
                #[trigger] library_settings(b)[k],
                reader,
            ),
{
    reveal(flag);
    reveal(whole);
}

proof fn lemma_buffering_written(a: BufferingConfig, b: BufferingConfig, reader: Reader)
    ensures
        forall|k: int|
            0 <= k < buffering_settings(b).len() ==> writes(
                buffering_changes(a, b)[k],
                buffering_settings(a)[k],
                #[trigger] buffering_settings(b)[k],
                reader,
            ),
{
    reveal(whole);
}

proof fn lemma_cast_written(a: CastConfig, b: CastConfig, reader: Reader)
    ensures
        writes(cast_changes(a, b)[0], cast_settings(a)[0], cast_settings(b)[0], reader),
{
    reveal(flag);
}

proof fn lemma_all_written(
    a: Config,
    b: Config,
    volume: Seq<char>,
    reader: Reader,
    i: int,
    k: int,
)
    requires
        parsed_value(volume) is Some,
        same_number((reader.number)(parsed_value(volume)->Some_0), b.ui.volume_bits),
        0 <= i < all_settings(b).len(),
        0 <= k < all_settings(b)[i].1.len(),
    ensures
        all_settings(a).len() == all_settings(b).len() < all_changes(a, b, volume).len(),
        all_settings(a)[i].0 == all_settings(b)[i].0,
        all_settings(a)[i].1.len() == all_settings(b)[i].1.len(),
        all_changes(a, b, volume)[i].0 == all_settings(b)[i].0,
        0 <= change_of(i, k) < all_changes(a, b, volume)[i].1.len(),
        writes(
            all_changes(a, b, volume)[i].1[change_of(i, k)],
            all_settings(a)[i].1[k],
            all_settings(b)[i].1[k],
            reader,
        ),
{
    lemma_output_written(a.output, b.output, reader);
    lemma_cast_written(a.cast, b.cast, reader);
    lemma_ui_written(a.ui, b.ui, volume, reader);
    lemma_library_written(a.library, b.library, reader);
    lemma_buffering_written(a.buffering, b.buffering, reader);
    if i == 0 {
        assert(output_settings(b.output)[k] == all_settings(b)[0].1[k]);
    } else if i == 1 {
        assert(cast_settings(b.cast)[k] == all_settings(b)[1].1[k]);
    } else if i == 2 {
        assert(ui_settings(b.ui)[k] == all_settings(b)[2].1[k]);
    } else if i == 3 {
        assert(library_settings(b.library)[k] == all_settings(b)[3].1[k]);
    } else {
        assert(buffering_settings(b.buffering)[k] == all_settings(b)[4].1[k]);
    }
}

/// The table of a profile reads as the profile.
proof fn lemma_row_reads(b: BackendView)
    ensures
        row_reads_as(backend_row(b).entries, b),
{
    reveal_strlit("profile_id");
    reveal_strlit("backend_kind");
    reveal_strlit("display_name");
    reveal_strlit("endpoint");
    reveal_strlit("username");
    reveal_strlit("enabled");
    assert("profile_id"@.len() == 10 && "backend_kind"@.len() == 12);
    assert("display_name"@.len() == 12 && "endpoint"@.len() == 8);
    assert("username"@.len() == 8 && "enabled"@.len() == 7);
    assert("backend_kind"@[0] == 'b' && "display_name"@[0] == 'd');
    assert("endpoint"@[0] == 'e' && "username"@[0] == 'u');
    let e0 = Seq::<EntryView>::empty();
    let e1 = with_text(e0, "profile_id"@, b.profile_id);
    let e2 = with_text(e1, "backend_kind"@, backend_kind_text(b.backend_kind));
    let e3 = with_text(e2, "display_name"@, b.display_name);
    let e4 = with_text(e3, "endpoint"@, b.endpoint);
    let e5 = with_text(e4, "username"@, b.username);
    lemma_with_item(e0, "profile_id"@, plain_value(ScalarView::Text(b.profile_id)));
    lemma_with_item(
        e1,
        "backend_kind"@,
        plain_value(ScalarView::Text(backend_kind_text(b.backend_kind))),
    );
    lemma_with_item(e2, "display_name"@, plain_value(ScalarView::Text(b.display_name)));
    lemma_with_item(e3, "endpoint"@, plain_value(ScalarView::Text(b.endpoint)));
    lemma_with_item(e4, "username"@, plain_value(ScalarView::Text(b.username)));
    lemma_with_item(e5, "enabled"@, plain_value(ScalarView::Flag(b.enabled)));
    let e6 = backend_row(b).entries;
    assert(item_at(e6, "profile_id"@) == item_at(e1, "profile_id"@)) by {
        assert(item_at(e5, "profile_id"@) == item_at(e4, "profile_id"@));
        assert(item_at(e4, "profile_id"@) == item_at(e3, "profile_id"@));
        assert(item_at(e3, "profile_id"@) == item_at(e2, "profile_id"@));
        assert(item_at(e2, "profile_id"@) == item_at(e1, "profile_id"@));
    }
    assert(item_at(e6, "backend_kind"@) == item_at(e2, "backend_kind"@)) by {
        assert(item_at(e5, "backend_kind"@) == item_at(e4, "backend_kind"@));
        assert(item_at(e4, "backend_kind"@) == item_at(e3, "backend_kind"@));
        assert(item_at(e3, "backend_kind"@) == item_at(e2, "backend_kind"@));
    }
    assert(item_at(e6, "display_name"@) == item_at(e3, "display_name"@)) by {
        assert(item_at(e5, "display_name"@) == item_at(e4, "display_name"@));
        assert(item_at(e4, "display_name"@) == item_at(e3, "display_name"@));
    }
    assert(item_at(e6, "endpoint"@) == item_at(e4, "endpoint"@)) by {
        assert(item_at(e5, "endpoint"@) == item_at(e4, "endpoint"@));
    }
    assert(item_at(e6, "username"@) == item_at(e5, "username"@));
}

proof fn lemma_profiles_written(
    entries: Seq<EntryView>,
    a: IntegrationsConfig,
    b: IntegrationsConfig,
    reader: Reader,
)
    requires
        item_at(entries, "backends"@) is Missing || profiles_read_as(
            item_at(entries, "backends"@),
            backends_view(a.backends@),
            reader,
        ),
    ensures
        profiles_read_as(
            item_at(
                changed_by(entries, integrations_changes(a, b), integrations_changes(a, b).len()),
                "backends"@,
            ),
            backends_view(b.backends@),
            reader,
        ),
{
    let changes = integrations_changes(a, b);
    let profiles = backends_view(b.backends@);
    let rows = backend_rows(profiles);
    let item = ItemView::Rows { rows };
    let key = "backends"@;
    reveal(changed);
    reveal_with_fuel(changed_by, 2);
    assert(changes.len() == 1);
    let current = item_at(entries, key);
    if current is Missing || backends_view(a.backends@) != profiles {
        if !(current is Missing) && !(current is Rows) {
            lemma_with_item(without_key(entries, key), key, item);
        } else {
            lemma_with_item(entries, key, item);
        }
        assert(item_at(set_item(entries, key, item), key) == item);
        assert forall|i: int| 0 <= i < rows.len() implies row_reads_as(
            (#[trigger] rows[i]).entries,
            profiles[i],
        ) by {
            lemma_row_reads(profiles[i]);
        }
    }
}

/// Settings that are written read back: where what stands in a document reads as the settings
/// that it held, every setting stands there after the new ones are written, and reads as the new
/// one. The volume must read as its text says.
pub proof fn written_settings_read_back(
    doc: Seq<EntryView>,
    previous: Config,
    config: Config,
    volume: Seq<char>,
    reader: Reader,
)
    requires
        agrees_with(doc, previous, reader),
        parsed_value(volume) is Some,
        same_number((reader.number)(parsed_value(volume)->Some_0), config.ui.volume_bits),
    ensures
        holds(written(doc, previous, config, volume), config, reader),
{
    let after = written(doc, previous, config, volume);
    let all = all_settings(config);
    let old_all = all_settings(previous);
    assert forall|i: int, k: int|
        0 <= i < all.len() && 0 <= k < all[i].1.len() implies holds_setting(
        section(after, all[i].0),
        #[trigger] all[i].1[k],
        reader,
    ) by {
        lemma_all_written(previous, config, volume, reader, i, k);
        let j = change_of(i, k);
        let before = section(doc, all[i].0);
        settings_are_written(doc, previous, config, volume, i, j);
        let setting = old_all[i].1[k];
        assert(item_at(before, setting.0) is Missing || holds_setting(before, setting, reader));
    }
    sections_are_written(doc, previous, config, volume, 5);
    lemma_profiles_written(
        section(doc, "integrations"@),
        previous.integrations,
        config.integrations,
        reader,
    );
}

/// The words that settings with few values are written as.
pub proof fn settings_have_their_words()
    ensures
        order_text(UiPlaybackOrder::Default) == "default"@,
        order_text(UiPlaybackOrder::Shuffle) == "shuffle"@,
        order_text(UiPlaybackOrder::Random) == "random"@,
        repeat_text(UiRepeatMode::Off) == "off"@,
        repeat_text(UiRepeatMode::Playlist) == "playlist"@,
        repeat_text(UiRepeatMode::Track) == "track"@,
        resampler_text(ResamplerQuality::High) == "high"@,
        resampler_text(ResamplerQuality::Highest) == "highest"@,
{
}

} // verus!
