//! Writing settings into commented files.

use roqtune::config::{
    BackendProfileConfig, ButtonClusterInstanceConfig, Config, IntegrationBackendKind,
};
use roqtune::config_persistence::merge::{merge_table_with_targeted_updates, LayoutPlace};
use roqtune::config_persistence::{
    hydrate_ui_columns_from_layout, serialize_config_with_preserved_comments,
    serialize_layout_with_preserved_comments, write_config_to_document,
};

fn toml_volume(config: &Config) -> String {
    format!("{:?}", f64::from(f32::from_bits(config.ui.volume_bits)))
}

#[test]
fn test_serialize_config_with_preserved_comments_keeps_existing_comments() {
    let existing = r#"
# top comment
[output]
# output comment
output_device_name = ""
output_device_auto = true
channel_count = 2
sample_rate_khz = 44100
bits_per_sample = 24
channel_count_auto = true
sample_rate_auto = true
bits_per_sample_auto = true

[ui]
# ui comment
show_layout_edit_intro = true
playlist_album_art_column_min_width_px = 16
playlist_album_art_column_max_width_px = 480
window_width = 900
window_height = 650
volume = 1.0
button_cluster_instances = []

[[ui.playlist_columns]]
name = "Title"
format = "{title}"
enabled = true
custom = false

[buffering]
# buffering comment
player_low_watermark_ms = 12000
player_target_buffer_ms = 24000
player_request_interval_ms = 120
decoder_request_chunk_ms = 1500
"#;

    let mut config = Config::default();
    config.output.output_device_name = "My Device".to_string();
    config.ui.volume_bits = 0.55f32.to_bits();

    let serialized = serialize_config_with_preserved_comments(
        existing,
        Ok(Config::default()),
        &config,
        &toml_volume(&config),
    )
    .expect("comment-preserving serialization should succeed");

    assert!(serialized.contains("# top comment"));
    assert!(serialized.contains("# output comment"));
    assert!(serialized.contains("# ui comment"));
    assert!(serialized.contains("# buffering comment"));
    assert!(serialized.contains("output_device_name = \"My Device\""));
    assert!(serialized.contains("volume = 0.55"));
    assert!(
        !serialized.contains("button_cluster_instances"),
        "layout-owned button cluster settings should not be persisted in config.toml"
    );
}

#[test]
fn test_serialize_config_with_preserved_comments_rejects_invalid_toml() {
    let invalid = "[output\noutput_device_auto = true";
    let config = Config::default();
    let result = serialize_config_with_preserved_comments(
        invalid,
        Ok(Config::default()),
        &config,
        &toml_volume(&config),
    );
    assert!(result.is_err());
    assert!(result
        .unwrap_err()
        .starts_with("failed to parse existing config as TOML document: "));
    let unread = serialize_config_with_preserved_comments(
        "",
        Err("missing field".to_string()),
        &config,
        "1.0",
    );
    assert_eq!(
        unread,
        Err("failed to parse existing config as Config: missing field".to_string())
    );
}

#[test]
fn test_serialize_layout_with_preserved_comments_keeps_existing_comments() {
    let existing = r#"
# layout top comment
version = 1

# album art width comment
playlist_album_art_column_min_width_px = 16
playlist_album_art_column_max_width_px = 480

[[playlist_columns]]
name = "Title"
format = "{title}"
enabled = true
custom = false

[root]
# root comment
node_type = "leaf"
id = "l1"
panel = "track_list"
"#;
    let next = existing
        .replace("max_width_px = 480", "max_width_px = 512")
        .replace("# ", "")
        .replace("layout top comment", "")
        .replace("album art width comment", "")
        .replace("root comment", "")
        + "\n[[button_cluster_instances]]\nleaf_id = \"n8\"\nactions = [1, 2, 3]\n";

    let serialized = serialize_layout_with_preserved_comments(existing, Ok(next))
        .expect("comment-preserving layout serialization should succeed");

    assert!(serialized.contains("# layout top comment"));
    assert!(serialized.contains("# album art width comment"));
    assert!(serialized.contains("# root comment"));
    assert!(serialized.contains("playlist_album_art_column_max_width_px = 512"));
    assert!(serialized.contains("[[button_cluster_instances]]"));
}

#[test]
fn test_serialize_layout_with_preserved_comments_rejects_invalid_toml() {
    let invalid = "[root\nnode_type = \"leaf\"";
    let result = serialize_layout_with_preserved_comments(invalid, Ok("version = 1".to_string()));
    assert!(result.is_err());
    assert!(result
        .unwrap_err()
        .starts_with("failed to parse existing layout as TOML document: "));
    assert!(
        serialize_layout_with_preserved_comments("", Ok("[".to_string()))
            .unwrap_err()
            .starts_with("failed to parse serialized layout TOML document: ")
    );
    assert_eq!(
        serialize_layout_with_preserved_comments("", Err("unsupported".to_string())),
        Err("failed to serialize layout to TOML: unsupported".to_string())
    );
}

#[test]
fn test_serialize_layout_with_preserved_comments_keeps_unknown_keys() {
    let existing = r#"
version = 1
custom_layout_flag = "keep-me"

[root]
node_type = "leaf"
id = "l1"
panel = "track_list"
"#;
    let next = "version = 1\n[root]\nnode_type = \"empty\"\n".to_string();
    let serialized = serialize_layout_with_preserved_comments(existing, Ok(next))
        .expect("comment-preserving layout serialization should succeed");
    assert!(serialized.contains("custom_layout_flag = \"keep-me\""));
}

#[test]
fn test_serialize_config_with_preserved_comments_keeps_unknown_keys() {
    let existing = r#"
[output]
output_device_name = ""
output_device_auto = true
channel_count = 2
sample_rate_khz = 44100
bits_per_sample = 24
channel_count_auto = true
sample_rate_auto = true
bits_per_sample_auto = true

[ui]
show_layout_edit_intro = true
show_tooltips = true
window_width = 900
window_height = 650
volume = 1.0

[library]
folders = []
online_metadata_enabled = false
online_metadata_prompt_pending = true
artist_image_cache_ttl_days = 30
artist_image_cache_max_size_mb = 256
custom_library_key = "keep-me"

[buffering]
player_low_watermark_ms = 12000
player_target_buffer_ms = 24000
player_request_interval_ms = 120
decoder_request_chunk_ms = 1500
"#;
    let config = Config::default();

    let serialized = serialize_config_with_preserved_comments(
        existing,
        Ok(Config::default()),
        &config,
        &toml_volume(&config),
    )
    .expect("comment-preserving config serialization should succeed");
    assert!(serialized.contains("custom_library_key = \"keep-me\""));
}

#[test]
fn test_serialize_config_with_preserved_comments_persists_integrations_backends() {
    let existing = r#"
[output]
output_device_name = ""
output_device_auto = true
channel_count = 2
sample_rate_khz = 44100
bits_per_sample = 24
channel_count_auto = true
sample_rate_auto = true
bits_per_sample_auto = true

[cast]
allow_transcode_fallback = true

[ui]
show_layout_edit_intro = true
show_tooltips = true
auto_scroll_to_playing_track = true
dark_mode = true
window_width = 900
window_height = 650
volume = 0.8
playback_order = "default"
repeat_mode = "off"

[library]
folders = []
online_metadata_enabled = false
online_metadata_prompt_pending = true
artist_image_cache_ttl_days = 30
artist_image_cache_max_size_mb = 512

[buffering]
player_low_watermark_ms = 1500
player_target_buffer_ms = 12000
player_request_interval_ms = 120
decoder_request_chunk_ms = 1000

[integrations]
backends = []
"#;
    let mut previous = Config::default();
    previous.cast.allow_transcode_fallback = true;
    previous.ui.legacy_dark_mode = Some(true);
    previous.ui.volume_bits = 0.8f32.to_bits();
    previous.library.artist_image_cache_max_size_mb = 512;
    previous.buffering.player_low_watermark_ms = 1500;
    previous.buffering.player_target_buffer_ms = 12000;
    previous.buffering.decoder_request_chunk_ms = 1000;
    let mut config = Config::default();
    config.integrations.backends = vec![BackendProfileConfig {
        profile_id: "opensubsonic-default".to_string(),
        backend_kind: IntegrationBackendKind::OpenSubsonic,
        display_name: "OpenSubsonic".to_string(),
        endpoint: "https://music.example.com".to_string(),
        username: "alice".to_string(),
        enabled: true,
    }];

    let serialized = serialize_config_with_preserved_comments(
        existing,
        Ok(previous),
        &config,
        &toml_volume(&config),
    )
    .expect("integration backend should serialize");
    assert!(serialized.contains("[[integrations.backends]]"));
    assert!(serialized.contains("profile_id = \"opensubsonic-default\""));
    assert!(serialized.contains("backend_kind = \"open_subsonic\""));
    assert!(serialized.contains("endpoint = \"https://music.example.com\""));
    assert!(serialized.contains("username = \"alice\""));
    assert!(serialized.contains("enabled = true"));
    assert!(!serialized.contains("dark_mode"));
    assert!(serialized.contains("player_low_watermark_ms = 12000"));
}

#[test]
fn settings_are_written_into_an_empty_document() {
    let mut config = Config::default();
    config.library.folders = vec!["/a".to_string(), "/b \"x\"".to_string()];
    let mut document = toml_edit::DocumentMut::new();
    write_config_to_document(&mut document, &config, &config, "1.0");
    let parsed: toml_edit::DocumentMut = document.to_string().parse().unwrap();
    assert_eq!(parsed["output"]["channel_count"].as_integer(), Some(2));
    assert_eq!(parsed["output"]["resampler_quality"].as_str(), Some("high"));
    assert_eq!(parsed["cast"]["allow_transcode_fallback"].as_bool(), Some(false));
    assert_eq!(parsed["ui"]["volume"].as_float(), Some(1.0));
    assert_eq!(parsed["ui"]["playback_order"].as_str(), Some("default"));
    let folders = parsed["library"]["folders"].as_array().unwrap();
    assert_eq!(folders.get(1).unwrap().as_str(), Some("/b \"x\""));
    assert_eq!(parsed["buffering"]["decoder_request_chunk_ms"].as_integer(), Some(1500));
}

#[test]
fn unchanged_settings_keep_their_spelling_and_trailing_comments() {
    let existing = "[ui]\nwindow_width = 0x384 # hex\nvolume = 1 # loud\nlayout = 3\n";
    let mut document: toml_edit::DocumentMut = existing.parse().unwrap();
    let before = Config::default();
    let mut after = Config::default();
    after.ui.volume_bits = 0.5f32.to_bits();
    write_config_to_document(&mut document, &before, &after, "0.5");
    let text = document.to_string();
    assert!(text.contains("window_width = 0x384 # hex\n"));
    assert!(text.contains("volume = 0.5 # loud\n"));
    assert!(!text.contains("layout = 3"));
    write_config_to_document(&mut document, &after, &before, "no number");
    assert!(document.to_string().contains("volume = 0.5 # loud\n"));
}

#[test]
fn sections_that_are_no_tables_are_replaced() {
    let mut document: toml_edit::DocumentMut = "output = 3\nkept = true # yes\n".parse().unwrap();
    let config = Config::default();
    write_config_to_document(&mut document, &config, &config, "1.0");
    assert_eq!(document["output"]["bits_per_sample"].as_integer(), Some(24));
    assert!(document.to_string().contains("kept = true # yes"));
}

#[test]
fn rows_are_merged_one_by_one() {
    let mut table: toml_edit::DocumentMut =
        "[[r]] # one\na = 1 # a\n[[r]] # two\nb = 2\n[[r]]\nc = 3\n".parse().unwrap();
    let shorter: toml_edit::DocumentMut = "[[r]]\na = 5\n[[r]]\nd = 4\n".parse().unwrap();
    merge_table_with_targeted_updates(
        table.as_table_mut(),
        shorter.as_table(),
        LayoutPlace::Layout,
    );
    assert_eq!(
        table.to_string(),
        "[[r]] # one\na = 5 # a\n[[r]] # two\nb = 2\nd = 4\n"
    );
    let longer: toml_edit::DocumentMut = "[[r]]\n[[r]]\n[[r]]\nz = 9\n".parse().unwrap();
    merge_table_with_targeted_updates(
        table.as_table_mut(),
        longer.as_table(),
        LayoutPlace::Unknown,
    );
    assert_eq!(table["r"].as_array_of_tables().unwrap().len(), 3);
    assert_eq!(table["r"][2]["z"].as_integer(), Some(9));
    let mut scalar: toml_edit::DocumentMut = "r = 1\nq = 2\n".parse().unwrap();
    merge_table_with_targeted_updates(
        scalar.as_table_mut(),
        shorter.as_table(),
        LayoutPlace::Layout,
    );
    assert_eq!(scalar["r"].as_array_of_tables().unwrap().len(), 2);
    assert_eq!(scalar["q"].as_integer(), Some(2));

    let mut columns: toml_edit::DocumentMut = "[[playlist_columns]] # first\nname = \"Title\" # n\n\
         note = \"mine\"\nwidth_px = 300\n[[playlist_columns]]\nname = \"Old\"\n"
        .parse()
        .unwrap();
    let next: toml_edit::DocumentMut =
        "[[playlist_columns]]\nname = \"Artist\"\n".parse().unwrap();
    merge_table_with_targeted_updates(
        columns.as_table_mut(),
        next.as_table(),
        LayoutPlace::Layout,
    );
    assert_eq!(
        columns.to_string(),
        "[[playlist_columns]] # first\nname = \"Artist\" # n\nnote = \"mine\"\n"
    );
}

#[test]
fn cleared_widths_do_not_come_back() {
    let existing = "version = 1\n[[playlist_columns]]\nname = \"Title\"\nformat = \"{title}\"\n\
         width_px = 300\n[root]\nnode_type = \"leaf\"\nid = \"l1\"\npanel = \"track_list\"\n";
    let next = "version = 1\n[[playlist_columns]]\nname = \"Title\"\nformat = \"{title}\"\n\
         [root]\nnode_type = \"leaf\"\nid = \"l1\"\npanel = \"track_list\"\n";
    let text = serialize_layout_with_preserved_comments(existing, Ok(next.to_string())).unwrap();
    assert!(!text.contains("width_px"));
    assert_eq!(text, next);
}

#[test]
fn layout_keys_that_are_gone_do_not_stay() {
    let existing = "# mine\nversion = 1\nflag = 1\n[custom_colors]\naccent = \"#fff\"\n\
         [[metadata_viewer_panel_instances]]\nleaf_id = \"l2\"\n\
         [[viewer_panel_instances]]\nleaf_id = \"l1\"\n\
         [[collection_panel_instances]]\nleaf_id = \"l1\"\n\
         [[playlist_column_width_overrides]]\ncolumn_key = \"{title}\"\nwidth_px = 9\n\
         [root] # tree\nnode_type = \"split\"\nid = \"s1\"\nmemo = 2\n\
         [root.first]\nnode_type = \"empty\"\n";
    let next = "version = 1\n[root]\nnode_type = \"leaf\"\nid = \"l1\"\n".to_string();
    let text = serialize_layout_with_preserved_comments(existing, Ok(next)).unwrap();
    assert_eq!(
        text,
        "# mine\nversion = 1\nflag = 1\n[root] # tree\nnode_type = \"leaf\"\nid = \"l1\"\nmemo = 2\n"
    );
}

#[test]
fn comments_at_the_end_stay() {
    let layout = serialize_layout_with_preserved_comments(
        "version = 1\n# the end\n",
        Ok("version = 2\n".to_string()),
    );
    assert_eq!(layout, Ok("version = 2\n# the end\n".to_string()));
    let config = Config::default();
    let text = serialize_config_with_preserved_comments(
        "[cast]\nallow_transcode_fallback = false\n# the end\n",
        Ok(Config::default()),
        &config,
        "1.0",
    )
    .unwrap();
    assert!(text.ends_with("# the end\n"));
}

#[test]
fn playlist_tracks_setting_is_written() {
    let existing =
        "[output]\nchannel_count = 2\nsample_rate_khz = 44100\nbits_per_sample = 24\n";
    let mut config = Config::default();
    config.library.include_playlist_tracks_in_library = false;
    let text = serialize_config_with_preserved_comments(
        existing,
        Ok(Config::default()),
        &config,
        &toml_volume(&config),
    )
    .unwrap();
    let parsed: toml_edit::DocumentMut = text.parse().unwrap();
    assert_eq!(
        parsed["library"]["include_playlist_tracks_in_library"].as_bool(),
        Some(false)
    );
}

#[test]
fn test_serialize_config_with_preserved_comments_strips_layout_owned_ui_keys() {
    let existing = r#"
[output]
channel_count = 2
sample_rate_khz = 44100
bits_per_sample = 24

[ui]
playlist_album_art_column_min_width_px = 16
playlist_album_art_column_max_width_px = 480
window_width = 900

[[ui.button_cluster_instances]]
leaf_id = "n8"
actions = [4]

[[ui.playlist_columns]]
name = "Title"
format = "{title}"

[[ui.viewer_panel_instances]]
leaf_id = "n9"
"#;
    let mut config = Config::default();
    config.ui.layout.button_cluster_instances = vec![ButtonClusterInstanceConfig {
        leaf_id: "n8".to_string(),
        actions: vec![1, 2, 3],
    }];

    let serialized = serialize_config_with_preserved_comments(
        existing,
        Ok(Config::default()),
        &config,
        &toml_volume(&config),
    )
    .expect("comment-preserving serialization should succeed");

    assert!(
        !serialized.contains("button_cluster_instances"),
        "button cluster settings should not be persisted in config.toml.\nserialized=\n{}",
        serialized
    );
    assert!(
        !serialized.contains("[[ui.playlist_columns]]"),
        "playlist columns should not be persisted in config.toml"
    );
    assert!(
        !serialized.contains("playlist_album_art_column_min_width_px"),
        "playlist album art width fields should not be persisted in config.toml"
    );
    assert!(
        !serialized.contains("playlist_album_art_column_max_width_px"),
        "playlist album art width fields should not be persisted in config.toml"
    );
    assert!(
        !serialized.contains("viewer_panel_instances"),
        "viewer panel settings should not be persisted in config.toml"
    );
    let parsed_back: toml_edit::DocumentMut = serialized
        .parse()
        .expect("serialized config should remain valid TOML");
    for key in [
        "button_cluster_instances",
        "playlist_columns",
        "viewer_panel_instances",
    ] {
        assert!(parsed_back
            .get("ui")
            .and_then(|item| item.as_table())
            .and_then(|table| table.get(key))
            .is_none());
    }
}

#[test]
fn column_settings_follow_the_layout() {
    let mut config = Config::default();
    config.ui.layout.playlist_album_art_column_min_width_px = 33;
    config.ui.layout.playlist_album_art_column_max_width_px = 44;
    config.ui.layout.playlist_columns.truncate(1);
    hydrate_ui_columns_from_layout(&mut config);
    assert_eq!(config.ui.playlist_album_art_column_min_width_px, 33);
    assert_eq!(config.ui.playlist_album_art_column_max_width_px, 44);
    assert_eq!(config.ui.playlist_columns, config.ui.layout.playlist_columns);
}
