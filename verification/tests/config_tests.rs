use roqtune::config::{
    default_playlist_columns, sanitize_config, Config, ResamplerQuality, UiConfig, UiPlaybackOrder,
    UiRepeatMode, BUILTIN_TRACK_DETAILS_COLUMN_FORMAT,
};
use roqtune::layout::LayoutConfig;

#[test]
fn test_default_config_has_expected_values_and_auto_output_modes() {
    let config = Config::default();

    assert_eq!(config.output.channel_count, 2);
    assert_eq!(config.output.sample_rate_khz, 44_100);
    assert_eq!(config.output.bits_per_sample, 24);
    assert!(config.output.output_device_name.is_empty());
    assert!(config.output.output_device_auto);
    assert!(config.output.channel_count_auto);
    assert!(config.output.sample_rate_auto);
    assert!(config.output.bits_per_sample_auto);
    assert_eq!(config.output.resampler_quality, ResamplerQuality::High);
    assert!(config.output.dither_on_bitdepth_reduce);
    assert!(config.output.downmix_higher_channel_tracks);
    assert!(!config.cast.allow_transcode_fallback);

    assert!(config.ui.show_layout_edit_intro);
    assert!(config.ui.show_tooltips);
    assert!(config.ui.auto_scroll_to_playing_track);
    assert_eq!(config.ui.legacy_dark_mode, None);
    assert_eq!(config.ui.playlist_album_art_column_min_width_px, 16);
    assert_eq!(config.ui.playlist_album_art_column_max_width_px, 480);
    assert_eq!(config.ui.layout, LayoutConfig::default());
    assert_eq!(config.ui.playlist_columns, default_playlist_columns());
    assert_eq!(config.ui.window_width, 900);
    assert_eq!(config.ui.window_height, 650);
    assert!((f32::from_bits(config.ui.volume_bits) - 1.0).abs() < f32::EPSILON);
    assert_eq!(config.ui.playback_order, UiPlaybackOrder::Default);
    assert_eq!(config.ui.repeat_mode, UiRepeatMode::Off);
    assert!(config.library.folders.is_empty());
    assert!(!config.library.online_metadata_enabled);
    assert!(config.library.online_metadata_prompt_pending);
    assert_eq!(config.library.list_image_max_edge_px, 320);
    assert_eq!(config.library.cover_art_cache_max_size_mb, 512);
    assert_eq!(config.library.cover_art_memory_cache_max_size_mb, 50);
    assert_eq!(config.library.artist_image_memory_cache_max_size_mb, 50);
    assert_eq!(config.library.image_memory_cache_ttl_secs, 20);
    assert_eq!(config.library.artist_image_cache_ttl_days, 30);
    assert_eq!(config.library.artist_image_cache_max_size_mb, 256);
    assert_eq!(config.buffering.player_low_watermark_ms, 12_000);
    assert_eq!(config.buffering.player_target_buffer_ms, 24_000);
    assert_eq!(config.buffering.player_request_interval_ms, 120);
    assert_eq!(config.buffering.decoder_request_chunk_ms, 1_500);
    assert!(config.integrations.backends.is_empty());
}

#[test]
fn test_default_playlist_columns_include_album_art_builtin_disabled() {
    let columns = default_playlist_columns();
    let album_art_column = columns
        .iter()
        .find(|column| column.format == "{album_art}")
        .expect("album art built-in column should exist");

    assert_eq!(album_art_column.name, "Album Art");
    assert!(!album_art_column.enabled);
    assert!(!album_art_column.custom);
}

#[test]
fn test_default_playlist_columns_include_track_details_builtin_disabled() {
    let columns = default_playlist_columns();
    let track_details_column = columns
        .iter()
        .find(|column| column.name == "Track Details")
        .expect("track details built-in column should exist");

    assert_eq!(
        track_details_column.format,
        BUILTIN_TRACK_DETAILS_COLUMN_FORMAT
    );
    assert!(!track_details_column.enabled);
    assert!(!track_details_column.custom);
}

#[test]
fn test_sanitize_config_clamps_and_orders_album_art_width_bounds() {
    let input = Config {
        ui: UiConfig {
            playlist_album_art_column_min_width_px: 900,
            playlist_album_art_column_max_width_px: 20,
            ..Config::default().ui
        },
        ..Config::default()
    };

    let sanitized = sanitize_config(input);
    assert_eq!(sanitized.ui.playlist_album_art_column_min_width_px, 24);
    assert_eq!(sanitized.ui.playlist_album_art_column_max_width_px, 512);
}

#[test]
fn sanitizing_keeps_bounds_that_are_in_range() {
    let mut input = Config::default();
    input.ui.playlist_album_art_column_min_width_px = 30;
    input.ui.playlist_album_art_column_max_width_px = 31;
    let sanitized = sanitize_config(input);
    assert_eq!(sanitized.ui.playlist_album_art_column_min_width_px, 30);
    assert_eq!(sanitized.ui.playlist_album_art_column_max_width_px, 31);
}
