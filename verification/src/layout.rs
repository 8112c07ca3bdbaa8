//! Split-tree layout: data, editing and geometry.

pub mod defaults;
pub mod geometry;
pub mod geometry_laws;
pub mod laws;
pub mod tree;
pub mod wire;

use crate::config::{
    built_in_columns, clusters_view, columns_view, default_playlist_album_art_column_max_width_px,
    default_playlist_album_art_column_min_width_px, default_playlist_columns,
    ButtonClusterInstanceConfig, ClusterView, ColumnView, PlaylistColumnConfig,
};
use crate::layout::defaults::{build_default_layout_root, default_root};
use crate::protocol::clone_option_text;
use crate::text::{option_text, owned};
use vstd::prelude::*;

verus! {

/// Current persisted layout schema version.
pub const LAYOUT_VERSION: u32 = 1;

/// Divider thickness used between split-tree children.
pub const SPLITTER_THICKNESS_PX: i32 = 2;

/// Stable panel kind code for `LayoutPanelKind::NoPanel`.
pub const PANEL_CODE_NONE: i32 = 0;

/// Stable panel kind code for `LayoutPanelKind::ButtonCluster`.
pub const PANEL_CODE_BUTTON_CLUSTER: i32 = 1;

/// Stable panel kind code for `LayoutPanelKind::TransportButtonCluster`.
pub const PANEL_CODE_TRANSPORT_BUTTON_CLUSTER: i32 = 2;

/// Stable panel kind code for `LayoutPanelKind::UtilityButtonCluster`.
pub const PANEL_CODE_UTILITY_BUTTON_CLUSTER: i32 = 3;

/// Stable panel kind code for `LayoutPanelKind::VolumeSlider`.
pub const PANEL_CODE_VOLUME_SLIDER: i32 = 4;

/// Stable panel kind code for `LayoutPanelKind::SeekBar`.
pub const PANEL_CODE_SEEK_BAR: i32 = 5;

/// Stable panel kind code for `LayoutPanelKind::PlaylistSwitcher`.
pub const PANEL_CODE_PLAYLIST_SWITCHER: i32 = 6;

/// Stable panel kind code for `LayoutPanelKind::TrackList`.
pub const PANEL_CODE_TRACK_LIST: i32 = 7;

/// Stable panel kind code for `LayoutPanelKind::MetadataViewer` (Text Panel).
pub const PANEL_CODE_METADATA_VIEWER: i32 = 8;

/// Stable panel kind code for `LayoutPanelKind::AlbumArtViewer` (Image Panel).
pub const PANEL_CODE_ALBUM_ART_VIEWER: i32 = 9;

/// Stable panel kind code for `LayoutPanelKind::Spacer`.
pub const PANEL_CODE_SPACER: i32 = 10;

/// Stable panel kind code for `LayoutPanelKind::StatusBar`.
pub const PANEL_CODE_STATUS_BAR: i32 = 11;

/// Stable panel kind code for `LayoutPanelKind::ImportButtonCluster`.
pub const PANEL_CODE_IMPORT_BUTTON_CLUSTER: i32 = 12;

/// Stable ID for the built-in default color scheme.
pub const DEFAULT_COLOR_SCHEME_ID: &'static str = "roqtune_dark";

/// User-selectable panel kind assignable to a layout leaf.
#[derive(Debug, Clone, Copy, PartialEq, Eq, Hash, Structural)]
pub enum LayoutPanelKind {
    /// A leaf without a panel.
    NoPanel,
    ButtonCluster,
    ImportButtonCluster,
    TransportButtonCluster,
    UtilityButtonCluster,
    VolumeSlider,
    SeekBar,
    PlaylistSwitcher,
    TrackList,
    MetadataViewer,
    AlbumArtViewer,
    Spacer,
    StatusBar,
    ControlBar,
    AlbumArtPane,
}

/// The stable integer code of a panel kind.
pub open spec fn panel_code(panel: LayoutPanelKind) -> i32 {
    match panel {
        LayoutPanelKind::NoPanel => PANEL_CODE_NONE,
        LayoutPanelKind::ButtonCluster => PANEL_CODE_BUTTON_CLUSTER,
        LayoutPanelKind::TransportButtonCluster => PANEL_CODE_TRANSPORT_BUTTON_CLUSTER,
        LayoutPanelKind::UtilityButtonCluster => PANEL_CODE_UTILITY_BUTTON_CLUSTER,
        LayoutPanelKind::VolumeSlider => PANEL_CODE_VOLUME_SLIDER,
        LayoutPanelKind::SeekBar => PANEL_CODE_SEEK_BAR,
        LayoutPanelKind::PlaylistSwitcher => PANEL_CODE_PLAYLIST_SWITCHER,
        LayoutPanelKind::TrackList => PANEL_CODE_TRACK_LIST,
        LayoutPanelKind::MetadataViewer => PANEL_CODE_METADATA_VIEWER,
        LayoutPanelKind::AlbumArtViewer => PANEL_CODE_ALBUM_ART_VIEWER,
        LayoutPanelKind::Spacer => PANEL_CODE_SPACER,
        LayoutPanelKind::StatusBar => PANEL_CODE_STATUS_BAR,
        LayoutPanelKind::ImportButtonCluster => PANEL_CODE_IMPORT_BUTTON_CLUSTER,
        LayoutPanelKind::ControlBar => PANEL_CODE_TRANSPORT_BUTTON_CLUSTER,
        LayoutPanelKind::AlbumArtPane => PANEL_CODE_ALBUM_ART_VIEWER,
    }
}

/// A panel kind of older layouts, shown as one of today's.
pub open spec fn legacy_panel(panel: LayoutPanelKind) -> bool {
    panel == LayoutPanelKind::ControlBar || panel == LayoutPanelKind::AlbumArtPane
}

impl LayoutPanelKind {
    /// Converts this panel kind to a stable integer code.
    pub fn to_code(self) -> (r: i32)
        ensures
            r == panel_code(self),
    {
        match self {
            LayoutPanelKind::NoPanel => PANEL_CODE_NONE,
            LayoutPanelKind::ButtonCluster => PANEL_CODE_BUTTON_CLUSTER,
            LayoutPanelKind::TransportButtonCluster => PANEL_CODE_TRANSPORT_BUTTON_CLUSTER,
            LayoutPanelKind::UtilityButtonCluster => PANEL_CODE_UTILITY_BUTTON_CLUSTER,
            LayoutPanelKind::VolumeSlider => PANEL_CODE_VOLUME_SLIDER,
            LayoutPanelKind::SeekBar => PANEL_CODE_SEEK_BAR,
            LayoutPanelKind::PlaylistSwitcher => PANEL_CODE_PLAYLIST_SWITCHER,
            LayoutPanelKind::TrackList => PANEL_CODE_TRACK_LIST,
            LayoutPanelKind::MetadataViewer => PANEL_CODE_METADATA_VIEWER,
            LayoutPanelKind::AlbumArtViewer => PANEL_CODE_ALBUM_ART_VIEWER,
            LayoutPanelKind::Spacer => PANEL_CODE_SPACER,
            LayoutPanelKind::StatusBar => PANEL_CODE_STATUS_BAR,
            LayoutPanelKind::ImportButtonCluster => PANEL_CODE_IMPORT_BUTTON_CLUSTER,
            LayoutPanelKind::ControlBar => PANEL_CODE_TRANSPORT_BUTTON_CLUSTER,
            LayoutPanelKind::AlbumArtPane => PANEL_CODE_ALBUM_ART_VIEWER,
        }
    }

    /// Builds a panel kind from its integer code; an unknown code is `NoPanel`.
    pub fn from_code(code: i32) -> (r: LayoutPanelKind)
        ensures
            !legacy_panel(r),
            0 <= code <= 12 ==> panel_code(r) == code,
            !(0 <= code <= 12) ==> r == LayoutPanelKind::NoPanel,
    {
        if code == PANEL_CODE_BUTTON_CLUSTER {
            LayoutPanelKind::ButtonCluster
        } else if code == PANEL_CODE_TRANSPORT_BUTTON_CLUSTER {
            LayoutPanelKind::TransportButtonCluster
        } else if code == PANEL_CODE_UTILITY_BUTTON_CLUSTER {
            LayoutPanelKind::UtilityButtonCluster
        } else if code == PANEL_CODE_VOLUME_SLIDER {
            LayoutPanelKind::VolumeSlider
        } else if code == PANEL_CODE_SEEK_BAR {
            LayoutPanelKind::SeekBar
        } else if code == PANEL_CODE_PLAYLIST_SWITCHER {
            LayoutPanelKind::PlaylistSwitcher
        } else if code == PANEL_CODE_TRACK_LIST {
            LayoutPanelKind::TrackList
        } else if code == PANEL_CODE_METADATA_VIEWER {
            LayoutPanelKind::MetadataViewer
        } else if code == PANEL_CODE_ALBUM_ART_VIEWER {
            LayoutPanelKind::AlbumArtViewer
        } else if code == PANEL_CODE_SPACER {
            LayoutPanelKind::Spacer
        } else if code == PANEL_CODE_STATUS_BAR {
            LayoutPanelKind::StatusBar
        } else if code == PANEL_CODE_IMPORT_BUTTON_CLUSTER {
            LayoutPanelKind::ImportButtonCluster
        } else {
            LayoutPanelKind::NoPanel
        }
    }
}

/// Two panel kinds of today with the same code are the same kind.
pub proof fn panel_codes_are_distinct(a: LayoutPanelKind, b: LayoutPanelKind)
    requires
        !legacy_panel(a),
        !legacy_panel(b),
        panel_code(a) == panel_code(b),
    ensures
        a == b,
{
}

/// Split orientation.
#[derive(Debug, Clone, Copy, PartialEq, Eq, Hash, Structural)]
pub enum SplitAxis {
    Horizontal,
    Vertical,
}

impl SplitAxis {
    /// Converts this axis to a stable integer code.
    pub fn to_code(self) -> (r: i32)
        ensures
            r == (match self {
                SplitAxis::Horizontal => 0i32,
                SplitAxis::Vertical => 1i32,
            }),
    {
        match self {
            SplitAxis::Horizontal => 0,
            SplitAxis::Vertical => 1,
        }
    }
}

/// Display-target resolution strategy for text/image panels.
#[derive(Debug, Clone, Copy, PartialEq, Eq, Structural)]
pub enum ViewerPanelDisplayPriority {
    /// Follow the latest event source (selection or now playing).
    Default,
    /// Prefer current selection, then fallback to now playing.
    PreferSelection,
    /// Prefer now playing, then fallback to current selection.
    PreferNowPlaying,
    /// Only render selection context.
    SelectionOnly,
    /// Only render now-playing context.
    NowPlayingOnly,
}

/// Text payload source for text panels.
#[derive(Debug, Clone, Copy, PartialEq, Eq, Structural)]
pub enum ViewerPanelMetadataSource {
    /// Render track metadata (title, artist, album, and tags).
    Track,
    /// Render album internet description from enrichment payloads.
    AlbumDescription,
    /// Render artist internet biography from enrichment payloads.
    ArtistBio,
    /// Render custom template text using track metadata placeholders.
    CustomText,
}

/// Image payload source for image panels.
#[derive(Debug, Clone, Copy, PartialEq, Eq, Structural)]
pub enum ViewerPanelImageSource {
    /// Render track album art.
    AlbumArt,
    /// Render artist image from enrichment payloads.
    ArtistImage,
}

/// Mode policy for collection-aware panels (switcher + track list).
#[derive(Debug, Clone, Copy, PartialEq, Eq, Structural)]
pub enum CollectionPanelMode {
    /// Follow global collection mode (playlist/library).
    Both,
    /// Force playlist mode content only.
    PlaylistOnly,
    /// Force library mode content only.
    LibraryOnly,
}

/// Per-leaf configuration for collection-aware panels.
#[derive(Debug, PartialEq, Eq)]
pub struct CollectionPanelInstanceConfig {
    /// Layout leaf identifier that owns this panel.
    pub leaf_id: String,
    /// Content mode policy.
    pub mode: CollectionPanelMode,
}

impl Clone for CollectionPanelInstanceConfig {
    fn clone(&self) -> (r: Self)
        ensures
            r == *self,
    {
        CollectionPanelInstanceConfig { leaf_id: self.leaf_id.clone(), mode: self.mode }
    }
}

/// The contents of a [`CollectionPanelInstanceConfig`].
#[verifier::ext_equal]
pub struct CollectionPanelView {
    pub leaf_id: Seq<char>,
    pub mode: CollectionPanelMode,
}

impl View for CollectionPanelInstanceConfig {
    type V = CollectionPanelView;

    open spec fn view(&self) -> CollectionPanelView {
        CollectionPanelView { leaf_id: self.leaf_id@, mode: self.mode }
    }
}

pub open spec fn collection_panels_view(v: Seq<CollectionPanelInstanceConfig>) -> Seq<
    CollectionPanelView,
> {
    v.map_values(|c: CollectionPanelInstanceConfig| c@)
}

/// Per-leaf text-panel configuration persisted with layout preferences.
#[derive(Debug, PartialEq, Eq)]
pub struct MetadataViewerPanelInstanceConfig {
    /// Layout leaf identifier that owns this viewer.
    pub leaf_id: String,
    /// Display-target resolution strategy.
    pub display_priority: ViewerPanelDisplayPriority,
    /// Text source strategy for text panels.
    pub metadata_source: ViewerPanelMetadataSource,
    /// Custom text template string used with the custom text source.
    pub metadata_text_format: String,
}

impl Clone for MetadataViewerPanelInstanceConfig {
    fn clone(&self) -> (r: Self)
        ensures
            r == *self,
    {
        MetadataViewerPanelInstanceConfig {
            leaf_id: self.leaf_id.clone(),
            display_priority: self.display_priority,
            metadata_source: self.metadata_source,
            metadata_text_format: self.metadata_text_format.clone(),
        }
    }
}

/// The contents of a [`MetadataViewerPanelInstanceConfig`].
#[verifier::ext_equal]
pub struct TextPanelView {
    pub leaf_id: Seq<char>,
    pub display_priority: ViewerPanelDisplayPriority,
    pub source: ViewerPanelMetadataSource,
    pub format: Seq<char>,
}

impl View for MetadataViewerPanelInstanceConfig {
    type V = TextPanelView;

    open spec fn view(&self) -> TextPanelView {
        TextPanelView {
            leaf_id: self.leaf_id@,
            display_priority: self.display_priority,
            source: self.metadata_source,
            format: self.metadata_text_format@,
        }
    }
}

pub open spec fn text_panels_view(v: Seq<MetadataViewerPanelInstanceConfig>) -> Seq<TextPanelView> {
    v.map_values(|c: MetadataViewerPanelInstanceConfig| c@)
}

/// Per-leaf image-panel configuration persisted with layout preferences.
#[derive(Debug, PartialEq, Eq)]
pub struct AlbumArtViewerPanelInstanceConfig {
    /// Layout leaf identifier that owns this viewer.
    pub leaf_id: String,
    /// Display-target resolution strategy.
    pub display_priority: ViewerPanelDisplayPriority,
    /// Image source strategy for image panels.
    pub image_source: ViewerPanelImageSource,
}

impl Clone for AlbumArtViewerPanelInstanceConfig {
    fn clone(&self) -> (r: Self)
        ensures
            r == *self,
    {
        AlbumArtViewerPanelInstanceConfig {
            leaf_id: self.leaf_id.clone(),
            display_priority: self.display_priority,
            image_source: self.image_source,
        }
    }
}

/// The contents of an [`AlbumArtViewerPanelInstanceConfig`].
#[verifier::ext_equal]
pub struct ImagePanelView {
    pub leaf_id: Seq<char>,
    pub display_priority: ViewerPanelDisplayPriority,
    pub source: ViewerPanelImageSource,
}

impl View for AlbumArtViewerPanelInstanceConfig {
    type V = ImagePanelView;

    open spec fn view(&self) -> ImagePanelView {
        ImagePanelView {
            leaf_id: self.leaf_id@,
            display_priority: self.display_priority,
            source: self.image_source,
        }
    }
}

pub open spec fn image_panels_view(v: Seq<AlbumArtViewerPanelInstanceConfig>) -> Seq<
    ImagePanelView,
> {
    v.map_values(|c: AlbumArtViewerPanelInstanceConfig| c@)
}

/// Persistent per-column width override shared across playlists.
#[derive(Debug, PartialEq, Eq)]
pub struct PlaylistColumnWidthOverrideConfig {
    /// Stable column key (`{title}` or `custom:Name|Format`).
    pub column_key: String,
    /// Width override in logical pixels.
    pub width_px: u32,
}

impl Clone for PlaylistColumnWidthOverrideConfig {
    fn clone(&self) -> (r: Self)
        ensures
            r == *self,
    {
        PlaylistColumnWidthOverrideConfig {
            column_key: self.column_key.clone(),
            width_px: self.width_px,
        }
    }
}

/// Named theme color components used across the UI.
#[derive(Debug, PartialEq, Eq)]
pub struct ThemeColorComponents {
    pub window_bg: String,
    pub panel_bg: String,
    pub panel_bg_alt: String,
    pub border: String,
    pub text_primary: String,
    pub text_secondary: String,
    pub text_muted: String,
    pub accent: String,
    pub accent_on: String,
    pub warning: String,
    pub danger: String,
    pub success: String,
    pub control_hover_bg: String,
    pub selection_bg: String,
    pub selection_border: String,
}

impl Clone for ThemeColorComponents {
    fn clone(&self) -> (r: Self)
        ensures
            r == *self,
    {
        ThemeColorComponents {
            window_bg: self.window_bg.clone(),
            panel_bg: self.panel_bg.clone(),
            panel_bg_alt: self.panel_bg_alt.clone(),
            border: self.border.clone(),
            text_primary: self.text_primary.clone(),
            text_secondary: self.text_secondary.clone(),
            text_muted: self.text_muted.clone(),
            accent: self.accent.clone(),
            accent_on: self.accent_on.clone(),
            warning: self.warning.clone(),
            danger: self.danger.clone(),
            success: self.success.clone(),
            control_hover_bg: self.control_hover_bg.clone(),
            selection_bg: self.selection_bg.clone(),
            selection_border: self.selection_border.clone(),
        }
    }
}

/// One node in the recursive split-tree.
#[derive(Debug, PartialEq)]
pub enum LayoutNode {
    Empty,
    Leaf { id: String, panel: LayoutPanelKind },
    Split {
        id: String,
        axis: SplitAxis,
        /// Share of the first child, as the bits of a single-precision number.
        ratio_bits: u32,
        min_first_px: u32,
        min_second_px: u32,
        first: Box<LayoutNode>,
        second: Box<LayoutNode>,
    },
}

/// The contents of a [`LayoutNode`].
pub enum NodeView {
    Empty,
    Leaf { id: Seq<char>, panel: LayoutPanelKind },
    Split {
        id: Seq<char>,
        axis: SplitAxis,
        ratio: u32,
        min_first: u32,
        min_second: u32,
        first: Box<NodeView>,
        second: Box<NodeView>,
    },
}

impl LayoutNode {
    pub open spec fn tree(self) -> NodeView
        decreases self,
    {
        match self {
            LayoutNode::Empty => NodeView::Empty,
            LayoutNode::Leaf { id, panel } => NodeView::Leaf { id: id@, panel },
            LayoutNode::Split {
                id,
                axis,
                ratio_bits,
                min_first_px,
                min_second_px,
                first,
                second,
            } => NodeView::Split {
                id: id@,
                axis,
                ratio: ratio_bits,
                min_first: min_first_px,
                min_second: min_second_px,
                first: Box::new(first.tree()),
                second: Box::new(second.tree()),
            },
        }
    }
}

impl Clone for LayoutNode {
    fn clone(&self) -> (r: Self)
        ensures
            r.tree() == self.tree(),
        decreases self,
    {
        match self {
            LayoutNode::Empty => LayoutNode::Empty,
            LayoutNode::Leaf { id, panel } => LayoutNode::Leaf { id: id.clone(), panel: *panel },
            LayoutNode::Split {
                id,
                axis,
                ratio_bits,
                min_first_px,
                min_second_px,
                first,
                second,
            } => LayoutNode::Split {
                id: id.clone(),
                axis: *axis,
                ratio_bits: *ratio_bits,
                min_first_px: *min_first_px,
                min_second_px: *min_second_px,
                first: Box::new((&**first).clone()),
                second: Box::new((&**second).clone()),
            },
        }
    }
}

/// Persistent layout preferences, kept in `layout.toml`.
#[derive(Debug, PartialEq)]
pub struct LayoutConfig {
    /// Layout schema version.
    pub version: u32,
    /// Built-in Album Art playlist-column width minimum.
    pub playlist_album_art_column_min_width_px: u32,
    /// Built-in Album Art playlist-column width maximum.
    pub playlist_album_art_column_max_width_px: u32,
    /// Selected color scheme identifier from preset catalog, or `custom`.
    pub color_scheme: String,
    /// User-customized color component values used with the `custom` scheme.
    pub custom_colors: Option<ThemeColorComponents>,
    /// Ordered playlist column list (built-ins + custom columns), shared by all playlists.
    pub playlist_columns: Vec<PlaylistColumnConfig>,
    /// Global playlist column width overrides.
    pub playlist_column_width_overrides: Vec<PlaylistColumnWidthOverrideConfig>,
    /// Per-leaf button-cluster settings.
    pub button_cluster_instances: Vec<ButtonClusterInstanceConfig>,
    /// Per-leaf mode settings for collection-aware panels.
    pub collection_panel_instances: Vec<CollectionPanelInstanceConfig>,
    /// Per-leaf text-panel settings.
    pub metadata_viewer_panel_instances: Vec<MetadataViewerPanelInstanceConfig>,
    /// Per-leaf image-panel settings.
    pub album_art_viewer_panel_instances: Vec<AlbumArtViewerPanelInstanceConfig>,
    /// Root node of the split-tree.
    pub root: LayoutNode,
    /// Runtime-only leaf selection used in edit mode.
    pub selected_leaf_id: Option<String>,
}

/// The contents of a [`LayoutConfig`].
#[verifier::ext_equal]
pub struct LayoutView {
    pub version: u32,
    pub art_column_min_px: u32,
    pub art_column_max_px: u32,
    pub color_scheme: Seq<char>,
    pub custom_colors: Option<ThemeColorComponents>,
    pub playlist_columns: Seq<ColumnView>,
    pub width_overrides: Seq<(Seq<char>, u32)>,
    pub button_clusters: Seq<ClusterView>,
    pub collection_panels: Seq<CollectionPanelView>,
    pub text_panels: Seq<TextPanelView>,
    pub image_panels: Seq<ImagePanelView>,
    pub root: NodeView,
    pub selected_leaf_id: Option<Seq<char>>,
}

/// The keys and widths of column width overrides.
pub open spec fn overrides_view(v: Seq<PlaylistColumnWidthOverrideConfig>) -> Seq<(Seq<char>, u32)> {
    v.map_values(|o: PlaylistColumnWidthOverrideConfig| (o.column_key@, o.width_px))
}

impl View for LayoutConfig {
    type V = LayoutView;

    open spec fn view(&self) -> LayoutView {
        LayoutView {
            version: self.version,
            art_column_min_px: self.playlist_album_art_column_min_width_px,
            art_column_max_px: self.playlist_album_art_column_max_width_px,
            color_scheme: self.color_scheme@,
            custom_colors: self.custom_colors,
            playlist_columns: columns_view(self.playlist_columns@),
            width_overrides: overrides_view(self.playlist_column_width_overrides@),
            button_clusters: clusters_view(self.button_cluster_instances@),
            collection_panels: collection_panels_view(self.collection_panel_instances@),
            text_panels: text_panels_view(self.metadata_viewer_panel_instances@),
            image_panels: image_panels_view(self.album_art_viewer_panel_instances@),
            root: self.root.tree(),
            selected_leaf_id: option_text(self.selected_leaf_id),
        }
    }
}

pub fn clone_colors(colors: &Option<ThemeColorComponents>) -> (r: Option<ThemeColorComponents>)
    ensures
        r == *colors,
{
    match colors {
        Some(c) => Some(c.clone()),
        None => None,
    }
}

pub fn clone_clusters(v: &Vec<ButtonClusterInstanceConfig>) -> (r: Vec<ButtonClusterInstanceConfig>)
    ensures
        clusters_view(r@) == clusters_view(v@),
{
    let mut out: Vec<ButtonClusterInstanceConfig> = Vec::new();
    let mut i: usize = 0;
    while i < v.len()
        invariant
            i <= v.len(),
            out.len() == i,
            forall|k: int| 0 <= k < i ==> (#[trigger] out@[k])@ == v@[k]@,
        decreases v.len() - i,
    {
        out.push(v[i].clone());
        i += 1;
    }
    assert(clusters_view(out@) =~= clusters_view(v@));
    out
}

impl Clone for LayoutConfig {
    fn clone(&self) -> (r: Self)
        ensures
            r@ == self@,
    {
        let columns = self.playlist_columns.clone();
        let overrides = self.playlist_column_width_overrides.clone();
        let collections = self.collection_panel_instances.clone();
        let text_panels = self.metadata_viewer_panel_instances.clone();
        let image_panels = self.album_art_viewer_panel_instances.clone();
        assert(columns@ =~= self.playlist_columns@);
        assert(overrides@ =~= self.playlist_column_width_overrides@);
        assert(collections@ =~= self.collection_panel_instances@);
        assert(text_panels@ =~= self.metadata_viewer_panel_instances@);
        assert(image_panels@ =~= self.album_art_viewer_panel_instances@);
        LayoutConfig {
            version: self.version,
            playlist_album_art_column_min_width_px: self.playlist_album_art_column_min_width_px,
            playlist_album_art_column_max_width_px: self.playlist_album_art_column_max_width_px,
            color_scheme: self.color_scheme.clone(),
            custom_colors: clone_colors(&self.custom_colors),
            playlist_columns: columns,
            playlist_column_width_overrides: overrides,
            button_cluster_instances: clone_clusters(&self.button_cluster_instances),
            collection_panel_instances: collections,
            metadata_viewer_panel_instances: text_panels,
            album_art_viewer_panel_instances: image_panels,
            root: self.root.clone(),
            selected_leaf_id: clone_option_text(&self.selected_leaf_id),
        }
    }
}

/// The layout of a first start.
pub open spec fn default_layout() -> LayoutView {
    LayoutView {
        version: LAYOUT_VERSION,
        art_column_min_px: 16,
        art_column_max_px: 480,
        color_scheme: DEFAULT_COLOR_SCHEME_ID@,
        custom_colors: None,
        playlist_columns: built_in_columns(),
        width_overrides: Seq::empty(),
        button_clusters: Seq::empty(),
        collection_panels: Seq::empty(),
        text_panels: Seq::empty(),
        image_panels: Seq::empty(),
        root: default_root(),
        selected_leaf_id: None,
    }
}

impl Default for LayoutConfig {
    fn default() -> (r: Self)
        ensures
            r@ == default_layout(),
    {
        let r = LayoutConfig {
            version: LAYOUT_VERSION,
            playlist_album_art_column_min_width_px: default_playlist_album_art_column_min_width_px(
            ),
            playlist_album_art_column_max_width_px: default_playlist_album_art_column_max_width_px(
            ),
            color_scheme: owned(DEFAULT_COLOR_SCHEME_ID),
            custom_colors: None,
            playlist_columns: default_playlist_columns(),
            playlist_column_width_overrides: Vec::new(),
            button_cluster_instances: Vec::new(),
            collection_panel_instances: Vec::new(),
            metadata_viewer_panel_instances: Vec::new(),
            album_art_viewer_panel_instances: Vec::new(),
            root: build_default_layout_root(),
            selected_leaf_id: None,
        };
        assert(r@ =~= default_layout());
        r
    }
}

} // verus!
