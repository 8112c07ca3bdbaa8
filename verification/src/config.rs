//! Persistent application configuration and its defaults.

use crate::layout::{default_layout, LayoutConfig};
use crate::text::owned;
use vstd::prelude::*;

verus! {

/// Resampler quality profile used when sample-rate conversion is required.
#[derive(Debug, Clone, Copy, PartialEq, Eq, Structural)]
pub enum ResamplerQuality {
    /// Good quality with lower CPU usage.
    High,
    /// Highest quality with higher CPU usage.
    Highest,
}

impl Default for ResamplerQuality {
    fn default() -> (r: Self)
        ensures
            r == ResamplerQuality::High,
    {
        ResamplerQuality::High
    }
}

/// Persisted playback-order preference for startup restore.
#[derive(Debug, Clone, Copy, PartialEq, Eq, Structural)]
pub enum UiPlaybackOrder {
    Default,
    Shuffle,
    Random,
}

impl Default for UiPlaybackOrder {
    fn default() -> (r: Self)
        ensures
            r == UiPlaybackOrder::Default,
    {
        UiPlaybackOrder::Default
    }
}

/// Persisted repeat preference for startup restore.
#[derive(Debug, Clone, Copy, PartialEq, Eq, Structural)]
pub enum UiRepeatMode {
    Off,
    Playlist,
    Track,
}

impl Default for UiRepeatMode {
    fn default() -> (r: Self)
        ensures
            r == UiRepeatMode::Off,
    {
        UiRepeatMode::Off
    }
}

/// Supported backend profile kinds persisted in config.
#[derive(Debug, Clone, Copy, PartialEq, Eq, Structural)]
pub enum IntegrationBackendKind {
    OpenSubsonic,
}

impl Default for IntegrationBackendKind {
    fn default() -> (r: Self)
        ensures
            r == IntegrationBackendKind::OpenSubsonic,
    {
        IntegrationBackendKind::OpenSubsonic
    }
}

/// Output device and format preferences.
#[derive(Debug, PartialEq)]
pub struct OutputConfig {
    pub output_device_name: String,
    pub output_device_auto: bool,
    pub channel_count: u16,
    pub sample_rate_khz: u32,
    pub bits_per_sample: u16,
    pub channel_count_auto: bool,
    pub sample_rate_auto: bool,
    pub bits_per_sample_auto: bool,
    pub resampler_quality: ResamplerQuality,
    pub dither_on_bitdepth_reduce: bool,
    pub downmix_higher_channel_tracks: bool,
}

impl Clone for OutputConfig {
    fn clone(&self) -> (r: Self)
        ensures
            r == *self,
    {
        OutputConfig {
            output_device_name: self.output_device_name.clone(),
            output_device_auto: self.output_device_auto,
            channel_count: self.channel_count,
            sample_rate_khz: self.sample_rate_khz,
            bits_per_sample: self.bits_per_sample,
            channel_count_auto: self.channel_count_auto,
            sample_rate_auto: self.sample_rate_auto,
            bits_per_sample_auto: self.bits_per_sample_auto,
            resampler_quality: self.resampler_quality,
            dither_on_bitdepth_reduce: self.dither_on_bitdepth_reduce,
            downmix_higher_channel_tracks: self.downmix_higher_channel_tracks,
        }
    }
}

impl Default for OutputConfig {
    fn default() -> (r: Self)
        ensures
            r.output_device_name@ == Seq::<char>::empty(),
            r.output_device_auto,
            r.channel_count == 2,
            r.sample_rate_khz == 44100,
            r.bits_per_sample == 24,
            r.channel_count_auto,
            r.sample_rate_auto,
            r.bits_per_sample_auto,
            r.resampler_quality == ResamplerQuality::High,
            r.dither_on_bitdepth_reduce,
            r.downmix_higher_channel_tracks,
    {
        OutputConfig {
            output_device_name: String::new(),
            output_device_auto: true,
            channel_count: 2,
            sample_rate_khz: 44100,
            bits_per_sample: 24,
            channel_count_auto: true,
            sample_rate_auto: true,
            bits_per_sample_auto: true,
            resampler_quality: ResamplerQuality::High,
            dither_on_bitdepth_reduce: true,
            downmix_higher_channel_tracks: true,
        }
    }
}

/// Cast playback preferences persisted between sessions.
#[derive(Debug, Clone, Copy, PartialEq, Eq, Structural)]
pub struct CastConfig {
    /// Enable sender-side transcoding fallback for receivers that reject direct source streams.
    pub allow_transcode_fallback: bool,
}

impl Default for CastConfig {
    fn default() -> (r: Self)
        ensures
            !r.allow_transcode_fallback,
    {
        CastConfig { allow_transcode_fallback: false }
    }
}

/// Library indexing preferences persisted between sessions.
#[derive(Debug, PartialEq)]
pub struct LibraryConfig {
    pub folders: Vec<String>,
    pub online_metadata_enabled: bool,
    pub online_metadata_prompt_pending: bool,
    pub include_playlist_tracks_in_library: bool,
    pub list_image_max_edge_px: u32,
    pub cover_art_cache_max_size_mb: u32,
    pub cover_art_memory_cache_max_size_mb: u32,
    pub artist_image_memory_cache_max_size_mb: u32,
    pub image_memory_cache_ttl_secs: u32,
    pub artist_image_cache_ttl_days: u32,
    pub artist_image_cache_max_size_mb: u32,
}

pub fn clone_strings(v: &Vec<String>) -> (r: Vec<String>)
    ensures
        r@ == v@,
{
    let mut out: Vec<String> = Vec::new();
    let mut i: usize = 0;
    while i < v.len()
        invariant
            i <= v.len(),
            out@ == v@.take(i as int),
        decreases v.len() - i,
    {
        out.push(v[i].clone());
        proof {
            assert(v@.take(i + 1) =~= v@.take(i as int).push(v@[i as int]));
        }
        i += 1;
    }
    assert(v@.take(v.len() as int) =~= v@);
    out
}

impl LibraryConfig {
    /// Equal but for the identity of the folder list.
    pub open spec fn same_as(self, other: LibraryConfig) -> bool {
        &&& self.folders@ == other.folders@
        &&& self.online_metadata_enabled == other.online_metadata_enabled
        &&& self.online_metadata_prompt_pending == other.online_metadata_prompt_pending
        &&& self.include_playlist_tracks_in_library == other.include_playlist_tracks_in_library
        &&& self.list_image_max_edge_px == other.list_image_max_edge_px
        &&& self.cover_art_cache_max_size_mb == other.cover_art_cache_max_size_mb
        &&& self.cover_art_memory_cache_max_size_mb == other.cover_art_memory_cache_max_size_mb
        &&& self.artist_image_memory_cache_max_size_mb
            == other.artist_image_memory_cache_max_size_mb
        &&& self.image_memory_cache_ttl_secs == other.image_memory_cache_ttl_secs
        &&& self.artist_image_cache_ttl_days == other.artist_image_cache_ttl_days
        &&& self.artist_image_cache_max_size_mb == other.artist_image_cache_max_size_mb
    }
}

impl Clone for LibraryConfig {
    fn clone(&self) -> (r: Self)
        ensures
            r.same_as(*self),
    {
        LibraryConfig {
            folders: clone_strings(&self.folders),
            online_metadata_enabled: self.online_metadata_enabled,
            online_metadata_prompt_pending: self.online_metadata_prompt_pending,
            include_playlist_tracks_in_library: self.include_playlist_tracks_in_library,
            list_image_max_edge_px: self.list_image_max_edge_px,
            cover_art_cache_max_size_mb: self.cover_art_cache_max_size_mb,
            cover_art_memory_cache_max_size_mb: self.cover_art_memory_cache_max_size_mb,
            artist_image_memory_cache_max_size_mb: self.artist_image_memory_cache_max_size_mb,
            image_memory_cache_ttl_secs: self.image_memory_cache_ttl_secs,
            artist_image_cache_ttl_days: self.artist_image_cache_ttl_days,
            artist_image_cache_max_size_mb: self.artist_image_cache_max_size_mb,
        }
    }
}

impl Default for LibraryConfig {
    fn default() -> (r: Self)
        ensures
            r.folders@.len() == 0,
            !r.online_metadata_enabled,
            r.online_metadata_prompt_pending,
            r.include_playlist_tracks_in_library,
            r.list_image_max_edge_px == 320,
            r.cover_art_cache_max_size_mb == 512,
            r.cover_art_memory_cache_max_size_mb == 50,
            r.artist_image_memory_cache_max_size_mb == 50,
            r.image_memory_cache_ttl_secs == 20,
            r.artist_image_cache_ttl_days == 30,
            r.artist_image_cache_max_size_mb == 256,
    {
        LibraryConfig {
            folders: Vec::new(),
            online_metadata_enabled: false,
            online_metadata_prompt_pending: true,
            include_playlist_tracks_in_library: true,
            list_image_max_edge_px: default_list_image_max_edge_px(),
            cover_art_cache_max_size_mb: default_cover_art_cache_max_size_mb(),
            cover_art_memory_cache_max_size_mb: default_cover_art_memory_cache_max_size_mb(),
            artist_image_memory_cache_max_size_mb: default_artist_image_memory_cache_max_size_mb(),
            image_memory_cache_ttl_secs: default_image_memory_cache_ttl_secs(),
            artist_image_cache_ttl_days: default_artist_image_cache_ttl_days(),
            artist_image_cache_max_size_mb: default_artist_image_cache_max_size_mb(),
        }
    }
}

/// Declarative playlist column definition.
#[derive(Debug, PartialEq, Eq)]
pub struct PlaylistColumnConfig {
    /// Header label.
    pub name: String,
    /// Format string used to render each row cell.
    pub format: String,
    pub enabled: bool,
    pub custom: bool,
}

/// The contents of a [`PlaylistColumnConfig`].
#[verifier::ext_equal]
pub struct ColumnView {
    pub name: Seq<char>,
    pub format: Seq<char>,
    pub enabled: bool,
    pub custom: bool,
}

impl View for PlaylistColumnConfig {
    type V = ColumnView;

    open spec fn view(&self) -> ColumnView {
        ColumnView {
            name: self.name@,
            format: self.format@,
            enabled: self.enabled,
            custom: self.custom,
        }
    }
}

impl Clone for PlaylistColumnConfig {
    fn clone(&self) -> (r: Self)
        ensures
            r == *self,
    {
        PlaylistColumnConfig {
            name: self.name.clone(),
            format: self.format.clone(),
            enabled: self.enabled,
            custom: self.custom,
        }
    }
}

/// The contents of a list of columns.
pub open spec fn columns_view(columns: Seq<PlaylistColumnConfig>) -> Seq<ColumnView> {
    columns.map_values(|c: PlaylistColumnConfig| c@)
}

/// Per-leaf button cluster configuration, kept in `layout.toml`.
#[derive(Debug, PartialEq, Eq)]
pub struct ButtonClusterInstanceConfig {
    /// Layout leaf identifier that owns this cluster instance.
    pub leaf_id: String,
    /// Ordered action ids rendered in the cluster.
    pub actions: Vec<i32>,
}

/// The contents of a [`ButtonClusterInstanceConfig`].
#[verifier::ext_equal]
pub struct ClusterView {
    pub leaf_id: Seq<char>,
    pub actions: Seq<i32>,
}

impl View for ButtonClusterInstanceConfig {
    type V = ClusterView;

    open spec fn view(&self) -> ClusterView {
        ClusterView { leaf_id: self.leaf_id@, actions: self.actions@ }
    }
}

/// The contents of a list of button clusters.
pub open spec fn clusters_view(v: Seq<ButtonClusterInstanceConfig>) -> Seq<ClusterView> {
    v.map_values(|c: ButtonClusterInstanceConfig| c@)
}

impl Clone for ButtonClusterInstanceConfig {
    fn clone(&self) -> (r: Self)
        ensures
            r@ == self@,
    {
        let actions = self.actions.clone();
        assert(actions@ =~= self.actions@);
        ButtonClusterInstanceConfig { leaf_id: self.leaf_id.clone(), actions }
    }
}

/// Tuning knobs for decode/playback buffering.
#[derive(Debug, Clone, Copy, PartialEq, Eq, Structural)]
pub struct BufferingConfig {
    pub player_low_watermark_ms: u32,
    pub player_target_buffer_ms: u32,
    pub player_request_interval_ms: u32,
    pub decoder_request_chunk_ms: u32,
}

impl Default for BufferingConfig {
    fn default() -> (r: Self)
        ensures
            r.player_low_watermark_ms == 12000,
            r.player_target_buffer_ms == 24000,
            r.player_request_interval_ms == 120,
            r.decoder_request_chunk_ms == 1500,
    {
        BufferingConfig {
            player_low_watermark_ms: default_player_low_watermark_ms(),
            player_target_buffer_ms: default_player_target_buffer_ms(),
            player_request_interval_ms: default_player_request_interval_ms(),
            decoder_request_chunk_ms: default_decoder_request_chunk_ms(),
        }
    }
}

/// Persisted backend profile metadata (non-secret fields only).
#[derive(Debug, PartialEq, Eq)]
pub struct BackendProfileConfig {
    pub profile_id: String,
    pub backend_kind: IntegrationBackendKind,
    pub display_name: String,
    pub endpoint: String,
    pub username: String,
    pub enabled: bool,
}

impl Clone for BackendProfileConfig {
    fn clone(&self) -> (r: Self)
        ensures
            r == *self,
    {
        BackendProfileConfig {
            profile_id: self.profile_id.clone(),
            backend_kind: self.backend_kind,
            display_name: self.display_name.clone(),
            endpoint: self.endpoint.clone(),
            username: self.username.clone(),
            enabled: self.enabled,
        }
    }
}

/// The contents of a [`BackendProfileConfig`].
#[verifier::ext_equal]
pub struct BackendView {
    pub profile_id: Seq<char>,
    pub backend_kind: IntegrationBackendKind,
    pub display_name: Seq<char>,
    pub endpoint: Seq<char>,
    pub username: Seq<char>,
    pub enabled: bool,
}

impl View for BackendProfileConfig {
    type V = BackendView;

    open spec fn view(&self) -> BackendView {
        BackendView {
            profile_id: self.profile_id@,
            backend_kind: self.backend_kind,
            display_name: self.display_name@,
            endpoint: self.endpoint@,
            username: self.username@,
            enabled: self.enabled,
        }
    }
}

/// The contents of a list of profiles.
pub open spec fn backends_view(v: Seq<BackendProfileConfig>) -> Seq<BackendView> {
    v.map_values(|b: BackendProfileConfig| b@)
}

/// Integration profile configuration persisted between sessions.
#[derive(Debug, PartialEq)]
pub struct IntegrationsConfig {
    pub backends: Vec<BackendProfileConfig>,
}

impl Default for IntegrationsConfig {
    fn default() -> (r: Self)
        ensures
            r.backends@.len() == 0,
    {
        IntegrationsConfig { backends: Vec::new() }
    }
}

impl Clone for IntegrationsConfig {
    fn clone(&self) -> (r: Self)
        ensures
            r.backends@ == self.backends@,
    {
        let backends = self.backends.clone();
        assert(backends@ =~= self.backends@);
        IntegrationsConfig { backends }
    }
}

/// UI preferences persisted between sessions.
///
/// Layout-owned settings live in [`LayoutConfig`] and are persisted in `layout.toml`.
#[derive(Debug, PartialEq)]
pub struct UiConfig {
    pub show_layout_edit_intro: bool,
    pub show_tooltips: bool,
    pub auto_scroll_to_playing_track: bool,
    /// Legacy dark-mode flag used only for one-time migration to layout-owned theme selection.
    pub legacy_dark_mode: Option<bool>,
    /// Runtime playlist-column width minimum loaded from `layout.toml`.
    pub playlist_album_art_column_min_width_px: u32,
    /// Runtime playlist-column width maximum loaded from `layout.toml`.
    pub playlist_album_art_column_max_width_px: u32,
    /// Runtime-only layout state loaded from `layout.toml`.
    pub layout: LayoutConfig,
    /// Runtime playlist column set loaded from `layout.toml`.
    pub playlist_columns: Vec<PlaylistColumnConfig>,
    pub window_width: u32,
    pub window_height: u32,
    /// The volume as the bits of a single-precision number.
    pub volume_bits: u32,
    pub playback_order: UiPlaybackOrder,
    pub repeat_mode: UiRepeatMode,
}

impl Default for UiConfig {
    fn default() -> (r: Self)
        ensures
            r.show_layout_edit_intro,
            r.show_tooltips,
            r.auto_scroll_to_playing_track,
            r.legacy_dark_mode == None::<bool>,
            r.playlist_album_art_column_min_width_px == 16,
            r.playlist_album_art_column_max_width_px == 480,
            r.layout@ == default_layout(),
            columns_view(r.playlist_columns@) == built_in_columns(),
            r.window_width == 900,
            r.window_height == 650,
            r.volume_bits == 0x3f80_0000,
            r.playback_order == UiPlaybackOrder::Default,
            r.repeat_mode == UiRepeatMode::Off,
    {
        UiConfig {
            show_layout_edit_intro: true,
            show_tooltips: true,
            auto_scroll_to_playing_track: true,
            legacy_dark_mode: None,
            playlist_album_art_column_min_width_px: default_playlist_album_art_column_min_width_px(
            ),
            playlist_album_art_column_max_width_px: default_playlist_album_art_column_max_width_px(
            ),
            layout: LayoutConfig::default(),
            playlist_columns: default_playlist_columns(),
            window_width: default_window_width(),
            window_height: default_window_height(),
            volume_bits: default_volume_bits(),
            playback_order: UiPlaybackOrder::Default,
            repeat_mode: UiRepeatMode::Off,
        }
    }
}

impl Clone for UiConfig {
    fn clone(&self) -> (r: Self)
        ensures
            r == (UiConfig {
                layout: r.layout,
                playlist_columns: r.playlist_columns,
                ..*self
            }),
            r.layout@ == self.layout@,
            r.playlist_columns@ == self.playlist_columns@,
    {
        let playlist_columns = self.playlist_columns.clone();
        assert(playlist_columns@ =~= self.playlist_columns@);
        UiConfig {
            show_layout_edit_intro: self.show_layout_edit_intro,
            show_tooltips: self.show_tooltips,
            auto_scroll_to_playing_track: self.auto_scroll_to_playing_track,
            legacy_dark_mode: self.legacy_dark_mode,
            playlist_album_art_column_min_width_px: self.playlist_album_art_column_min_width_px,
            playlist_album_art_column_max_width_px: self.playlist_album_art_column_max_width_px,
            layout: self.layout.clone(),
            playlist_columns,
            window_width: self.window_width,
            window_height: self.window_height,
            volume_bits: self.volume_bits,
            playback_order: self.playback_order,
            repeat_mode: self.repeat_mode,
        }
    }
}

/// Root configuration persisted to `config.toml`.
#[derive(Debug, PartialEq)]
pub struct Config {
    /// Audio output and device preferences.
    pub output: OutputConfig,
    /// Cast playback preferences.
    pub cast: CastConfig,
    /// UI preferences.
    pub ui: UiConfig,
    /// Library indexing preferences.
    pub library: LibraryConfig,
    /// Decoder/player buffering behavior.
    pub buffering: BufferingConfig,
    /// Remote integration profile configuration.
    pub integrations: IntegrationsConfig,
}

impl Default for Config {
    fn default() -> (r: Self)
        ensures
            call_ensures(<OutputConfig as Default>::default, (), r.output),
            call_ensures(<CastConfig as Default>::default, (), r.cast),
            call_ensures(<UiConfig as Default>::default, (), r.ui),
            call_ensures(<LibraryConfig as Default>::default, (), r.library),
            call_ensures(<BufferingConfig as Default>::default, (), r.buffering),
            call_ensures(<IntegrationsConfig as Default>::default, (), r.integrations),
    {
        Config {
            output: OutputConfig::default(),
            cast: CastConfig::default(),
            ui: UiConfig::default(),
            library: LibraryConfig::default(),
            buffering: BufferingConfig::default(),
            integrations: IntegrationsConfig::default(),
        }
    }
}

impl Clone for Config {
    fn clone(&self) -> (r: Self)
        ensures
            call_ensures(<OutputConfig as Clone>::clone, (&self.output,), r.output),
            r.cast == self.cast,
            call_ensures(<UiConfig as Clone>::clone, (&self.ui,), r.ui),
            call_ensures(<LibraryConfig as Clone>::clone, (&self.library,), r.library),
            r.buffering == self.buffering,
            r.integrations.backends@ == self.integrations.backends@,
    {
        Config {
            output: self.output.clone(),
            cast: self.cast,
            ui: self.ui.clone(),
            library: self.library.clone(),
            buffering: self.buffering,
            integrations: self.integrations.clone(),
        }
    }
}

fn clamp_column_width(width: u32) -> (r: u32)
    ensures
        r == (if width < 24 {
            24
        } else if width > 512 {
            512
        } else {
            width
        }),
{
    if width < 24 {
        24
    } else if width > 512 {
        512
    } else {
        width
    }
}

/// The two widths of the album art column as they are used: from 24 to 512 pixels, the smaller
/// one first.
pub open spec fn settled_widths(a: u32, b: u32) -> (u32, u32) {
    let low = if a <= b {
        a
    } else {
        b
    };
    let high = if a <= b {
        b
    } else {
        a
    };
    (settled_width(low), settled_width(high))
}

pub open spec fn settled_width(width: u32) -> u32 {
    if width < 24 {
        24
    } else if width > 512 {
        512
    } else {
        width
    }
}

/// The widths that are used are in range and in order, whichever way they are given. Widths
/// that are so already stay, and settling them again changes nothing.
pub proof fn settled_widths_are_in_range(a: u32, b: u32)
    ensures
        24 <= settled_widths(a, b).0 <= settled_widths(a, b).1 <= 512,
        settled_widths(a, b) == settled_widths(b, a),
        24 <= a <= b <= 512 ==> settled_widths(a, b) == (a, b),
        settled_widths(settled_widths(a, b).0, settled_widths(a, b).1) == settled_widths(a, b),
        a <= 24 && b <= 24 ==> settled_widths(a, b) == (24u32, 24u32),
        a >= 512 && b >= 512 ==> settled_widths(a, b) == (512u32, 512u32),
{
}

/// Brings the bounds of the album art column width into range and in order; everything else
/// stays.
pub fn sanitize_config(config: Config) -> (r: Config)
    ensures
        ({
            let a = config.ui.playlist_album_art_column_min_width_px;
            let b = config.ui.playlist_album_art_column_max_width_px;
            let low = if a <= b {
                a
            } else {
                b
            };
            let high = if a <= b {
                b
            } else {
                a
            };
            r == Config {
                ui: UiConfig {
                    playlist_album_art_column_min_width_px: if low < 24 {
                        24
                    } else if low > 512 {
                        512
                    } else {
                        low
                    },
                    playlist_album_art_column_max_width_px: if high < 24 {
                        24
                    } else if high > 512 {
                        512
                    } else {
                        high
                    },
                    ..config.ui
                },
                ..config
            }
        }),
        (
            r.ui.playlist_album_art_column_min_width_px,
            r.ui.playlist_album_art_column_max_width_px,
        ) == settled_widths(
            config.ui.playlist_album_art_column_min_width_px,
            config.ui.playlist_album_art_column_max_width_px,
        ),
{
    let mut config = config;
    let a: u32 = clamp_column_width(config.ui.playlist_album_art_column_min_width_px);
    let b: u32 = clamp_column_width(config.ui.playlist_album_art_column_max_width_px);
    if a <= b {
        config.ui.playlist_album_art_column_min_width_px = a;
        config.ui.playlist_album_art_column_max_width_px = b;
    } else {
        config.ui.playlist_album_art_column_min_width_px = b;
        config.ui.playlist_album_art_column_max_width_px = a;
    }
    config
}

pub fn default_player_low_watermark_ms() -> (r: u32)
    ensures
        r == 12000,
{
    12_000
}

pub fn default_player_target_buffer_ms() -> (r: u32)
    ensures
        r == 24000,
{
    24_000
}

pub fn default_player_request_interval_ms() -> (r: u32)
    ensures
        r == 120,
{
    120
}

pub fn default_decoder_request_chunk_ms() -> (r: u32)
    ensures
        r == 1500,
{
    1_500
}

pub fn default_window_width() -> (r: u32)
    ensures
        r == 900,
{
    900
}

pub fn default_window_height() -> (r: u32)
    ensures
        r == 650,
{
    650
}

/// Full volume, as the bits of a single-precision number.
pub fn default_volume_bits() -> (r: u32)
    ensures
        r == 0x3f80_0000,
{
    0x3f80_0000
}

pub fn default_artist_image_cache_ttl_days() -> (r: u32)
    ensures
        r == 30,
{
    30
}

pub fn default_image_memory_cache_ttl_secs() -> (r: u32)
    ensures
        r == 20,
{
    20
}

pub fn default_list_image_max_edge_px() -> (r: u32)
    ensures
        r == 320,
{
    320
}

pub fn default_cover_art_cache_max_size_mb() -> (r: u32)
    ensures
        r == 512,
{
    512
}

pub fn default_cover_art_memory_cache_max_size_mb() -> (r: u32)
    ensures
        r == 50,
{
    50
}

pub fn default_artist_image_memory_cache_max_size_mb() -> (r: u32)
    ensures
        r == 50,
{
    50
}

pub fn default_artist_image_cache_max_size_mb() -> (r: u32)
    ensures
        r == 256,
{
    256
}

pub fn default_playlist_album_art_column_min_width_px() -> (r: u32)
    ensures
        r == 16,
{
    16
}

pub fn default_playlist_album_art_column_max_width_px() -> (r: u32)
    ensures
        r == 480,
{
    480
}

pub const BUILTIN_TRACK_DETAILS_COLUMN_FORMAT: &'static str =
    "[size=body][color=text_primary]{title;file_name}[/color][/size]\\n[size=caption][color=text_secondary]{artist;album_artist} • {album}[/color][/size]";

pub open spec fn built_in_column(name: Seq<char>, format: Seq<char>, enabled: bool) -> ColumnView {
    ColumnView { name, format, enabled, custom: false }
}

/// The columns of a new playlist view, in order.
pub open spec fn built_in_columns() -> Seq<ColumnView> {
    seq![
        built_in_column("Title"@, "{title}"@, true),
        built_in_column("Track Details"@, BUILTIN_TRACK_DETAILS_COLUMN_FORMAT@, false),
        built_in_column("Artist"@, "{artist}"@, true),
        built_in_column("Album"@, "{album}"@, true),
        built_in_column("Album Artist"@, "{album_artist}"@, false),
        built_in_column("Genre"@, "{genre}"@, false),
        built_in_column("Year"@, "{year}"@, false),
        built_in_column("Track #"@, "{track_number}"@, false),
        built_in_column("Favorite"@, "{favorite}"@, false),
        built_in_column("Album Art"@, "{album_art}"@, false),
    ]
}

fn new_built_in_column(name: &str, format: &str, enabled: bool) -> (r: PlaylistColumnConfig)
    ensures
        r@ == built_in_column(name@, format@, enabled),
{
    PlaylistColumnConfig { name: owned(name), format: owned(format), enabled, custom: false }
}

/// Returns the built-in playlist column set used for new configs.
pub fn default_playlist_columns() -> (r: Vec<PlaylistColumnConfig>)
    ensures
        columns_view(r@) == built_in_columns(),
{
    let r = vec![
        new_built_in_column("Title", "{title}", true),
        new_built_in_column("Track Details", BUILTIN_TRACK_DETAILS_COLUMN_FORMAT, false),
        new_built_in_column("Artist", "{artist}", true),
        new_built_in_column("Album", "{album}", true),
        new_built_in_column("Album Artist", "{album_artist}", false),
        new_built_in_column("Genre", "{genre}", false),
        new_built_in_column("Year", "{year}", false),
        new_built_in_column("Track #", "{track_number}", false),
        new_built_in_column("Favorite", "{favorite}", false),
        new_built_in_column("Album Art", "{album_art}", false),
    ];
    assert(columns_view(r@) =~= built_in_columns());
    r
}

/// The columns that a playlist starts with: each shows what it is named after, and only title,
/// artist and album are shown at first.
pub proof fn playlists_start_with_these_columns(i: int)
    requires
        0 <= i < built_in_columns().len(),
    ensures
        built_in_columns().len() == 10,
        !built_in_columns()[i].custom,
        built_in_columns()[i].enabled <==> i == 0 || i == 2 || i == 3,
        built_in_columns()[0].name == "Title"@ && built_in_columns()[0].format == "{title}"@,
        built_in_columns()[2].name == "Artist"@ && built_in_columns()[2].format == "{artist}"@,
        built_in_columns()[3].name == "Album"@ && built_in_columns()[3].format == "{album}"@,
        built_in_columns()[4].name == "Album Artist"@ && built_in_columns()[4].format
            == "{album_artist}"@,
        built_in_columns()[5].name == "Genre"@ && built_in_columns()[5].format == "{genre}"@,
        built_in_columns()[6].name == "Year"@ && built_in_columns()[6].format == "{year}"@,
        built_in_columns()[7].name == "Track #"@ && built_in_columns()[7].format
            == "{track_number}"@,
        built_in_columns()[8].name == "Favorite"@ && built_in_columns()[8].format
            == "{favorite}"@,
        built_in_columns()[9].name == "Album Art"@ && built_in_columns()[9].format
            == "{album_art}"@,
{
}

} // verus!
