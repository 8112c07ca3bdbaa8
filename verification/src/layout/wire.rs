//! The stored form of a layout.

use crate::config::{
    clusters_view, columns_view, ButtonClusterInstanceConfig, ClusterView, ColumnView,
    PlaylistColumnConfig,
};
use crate::layout::tree::{leaves, settle_scheme, settled_scheme};
use crate::layout::{
    collection_panels_view, image_panels_view, overrides_view, text_panels_view,
    AlbumArtViewerPanelInstanceConfig, CollectionPanelInstanceConfig, CollectionPanelView,
    ImagePanelView, LayoutConfig, LayoutNode, LayoutPanelKind, LayoutView,
    MetadataViewerPanelInstanceConfig, NodeView, PlaylistColumnWidthOverrideConfig, TextPanelView,
    ThemeColorComponents, ViewerPanelDisplayPriority, ViewerPanelImageSource,
    ViewerPanelMetadataSource, LAYOUT_VERSION,
};
use crate::text::{
    append, blank, is_blank, lower, lower_text, owned, text_equal, trim, trim_text,
};
use vstd::prelude::*;

verus! {

/// A playlist column with its width.
#[derive(Debug)]
pub struct LayoutPlaylistColumnWire {
    pub column: PlaylistColumnConfig,
    pub width_px: Option<u32>,
}

/// Settings of a text or image panel as older layouts kept them.
#[derive(Debug)]
pub struct LegacyViewerPanelInstanceConfig {
    pub leaf_id: String,
    pub display_priority: ViewerPanelDisplayPriority,
    pub metadata_source: ViewerPanelMetadataSource,
    pub metadata_use_custom_text: bool,
    pub metadata_text_format: String,
    pub image_source: ViewerPanelImageSource,
}

/// A layout as it is stored. The width overrides and the viewer panels stand there in older
/// files only.
#[derive(Debug)]
pub struct LayoutConfigWire {
    pub version: u32,
    pub playlist_album_art_column_min_width_px: u32,
    pub playlist_album_art_column_max_width_px: u32,
    pub color_scheme: String,
    pub custom_colors: Option<ThemeColorComponents>,
    pub playlist_columns: Vec<LayoutPlaylistColumnWire>,
    pub playlist_column_width_overrides: Vec<PlaylistColumnWidthOverrideConfig>,
    pub button_cluster_instances: Vec<ButtonClusterInstanceConfig>,
    pub collection_panel_instances: Vec<CollectionPanelInstanceConfig>,
    pub text_panel_instances: Vec<MetadataViewerPanelInstanceConfig>,
    pub image_panel_instances: Vec<AlbumArtViewerPanelInstanceConfig>,
    pub viewer_panel_instances: Vec<LegacyViewerPanelInstanceConfig>,
    pub root: LayoutNode,
}

/// The contents of a [`LegacyViewerPanelInstanceConfig`].
pub struct ViewerPanelView {
    pub leaf_id: Seq<char>,
    pub display_priority: ViewerPanelDisplayPriority,
    pub metadata_source: ViewerPanelMetadataSource,
    pub use_custom_text: bool,
    pub format: Seq<char>,
    pub image_source: ViewerPanelImageSource,
}

impl View for LegacyViewerPanelInstanceConfig {
    type V = ViewerPanelView;

    open spec fn view(&self) -> ViewerPanelView {
        ViewerPanelView {
            leaf_id: self.leaf_id@,
            display_priority: self.display_priority,
            metadata_source: self.metadata_source,
            use_custom_text: self.metadata_use_custom_text,
            format: self.metadata_text_format@,
            image_source: self.image_source,
        }
    }
}

/// The contents of a [`LayoutConfigWire`].
#[verifier::ext_equal]
pub struct WireView {
    pub version: u32,
    pub art_column_min_px: u32,
    pub art_column_max_px: u32,
    pub color_scheme: Seq<char>,
    pub custom_colors: Option<ThemeColorComponents>,
    pub playlist_columns: Seq<(ColumnView, Option<u32>)>,
    pub width_overrides: Seq<(Seq<char>, u32)>,
    pub button_clusters: Seq<ClusterView>,
    pub collection_panels: Seq<CollectionPanelView>,
    pub text_panels: Seq<TextPanelView>,
    pub image_panels: Seq<ImagePanelView>,
    pub viewer_panels: Seq<ViewerPanelView>,
    pub root: NodeView,
}

pub open spec fn wire_columns(v: Seq<LayoutPlaylistColumnWire>) -> Seq<(ColumnView, Option<u32>)> {
    v.map_values(|c: LayoutPlaylistColumnWire| (c.column@, c.width_px))
}

pub open spec fn viewer_panels_view(v: Seq<LegacyViewerPanelInstanceConfig>) -> Seq<
    ViewerPanelView,
> {
    v.map_values(|c: LegacyViewerPanelInstanceConfig| c@)
}

impl View for LayoutConfigWire {
    type V = WireView;

    open spec fn view(&self) -> WireView {
        WireView {
            version: self.version,
            art_column_min_px: self.playlist_album_art_column_min_width_px,
            art_column_max_px: self.playlist_album_art_column_max_width_px,
            color_scheme: self.color_scheme@,
            custom_colors: self.custom_colors,
            playlist_columns: wire_columns(self.playlist_columns@),
            width_overrides: overrides_view(self.playlist_column_width_overrides@),
            button_clusters: clusters_view(self.button_cluster_instances@),
            collection_panels: collection_panels_view(self.collection_panel_instances@),
            text_panels: text_panels_view(self.text_panel_instances@),
            image_panels: image_panels_view(self.image_panel_instances@),
            viewer_panels: viewer_panels_view(self.viewer_panel_instances@),
            root: self.root.tree(),
        }
    }
}

/// The stable key of a column.
pub open spec fn column_key(column: ColumnView) -> Seq<char> {
    if column.custom {
        "custom:"@ + trim(column.name) + "|"@ + trim(column.format)
    } else {
        lower(trim(column.format))
    }
}

/// The stable key of a column.
pub fn playlist_column_key(column: &PlaylistColumnConfig) -> (r: String)
    ensures
        r@ == column_key(column@),
{
    if column.custom {
        let mut key = owned("custom:");
        append(&mut key, &trim_text(&column.name));
        append(&mut key, "|");
        append(&mut key, &trim_text(&column.format));
        key
    } else {
        lower_text(&trim_text(&column.format))
    }
}

pub open spec fn has_key(widths: Seq<(Seq<char>, u32)>, key: Seq<char>) -> bool {
    exists|i: int| 0 <= i < widths.len() && (#[trigger] widths[i]).0 == key
}

/// Widths with one more, unless the key has one.
pub open spec fn with_width(
    widths: Seq<(Seq<char>, u32)>,
    key: Seq<char>,
    width: u32,
) -> Seq<(Seq<char>, u32)> {
    if has_key(widths, key) {
        widths
    } else {
        widths.push((key, width))
    }
}

/// The widths that stand with the columns.
pub open spec fn column_widths(columns: Seq<(ColumnView, Option<u32>)>) -> Seq<(Seq<char>, u32)>
    decreases columns.len(),
{
    if columns.len() == 0 {
        Seq::empty()
    } else {
        let before = column_widths(columns.drop_last());
        match columns.last().1 {
            Some(width) => with_width(before, column_key(columns.last().0), width),
            None => before,
        }
    }
}

/// Widths, and behind them those that stand apart from the columns and have a key of their
/// own.
pub open spec fn with_widths(
    widths: Seq<(Seq<char>, u32)>,
    apart: Seq<(Seq<char>, u32)>,
) -> Seq<(Seq<char>, u32)>
    decreases apart.len(),
{
    if apart.len() == 0 {
        widths
    } else {
        let before = with_widths(widths, apart.drop_last());
        let key = trim(apart.last().0);
        if key.len() == 0 {
            before
        } else {
            with_width(before, key, apart.last().1)
        }
    }
}

/// The panel of the last leaf with a name.
pub open spec fn last_panel(
    all: Seq<(Seq<char>, LayoutPanelKind)>,
    leaf_id: Seq<char>,
) -> Option<LayoutPanelKind>
    decreases all.len(),
{
    if all.len() == 0 {
        None
    } else if all.last().0 == leaf_id {
        Some(all.last().1)
    } else {
        last_panel(all.drop_last(), leaf_id)
    }
}

/// The settings of a text panel that an older layout gives.
pub open spec fn text_panel_of(viewer: ViewerPanelView, default_format: Seq<char>) -> TextPanelView {
    TextPanelView {
        leaf_id: trim(viewer.leaf_id),
        display_priority: viewer.display_priority,
        source: if viewer.use_custom_text {
            ViewerPanelMetadataSource::CustomText
        } else {
            viewer.metadata_source
        },
        format: if blank(viewer.format) {
            default_format
        } else {
            viewer.format
        },
    }
}

pub open spec fn image_panel_of(viewer: ViewerPanelView) -> ImagePanelView {
    ImagePanelView {
        leaf_id: trim(viewer.leaf_id),
        display_priority: viewer.display_priority,
        source: viewer.image_source,
    }
}

/// The panel that the settings are for; none where they name no leaf.
pub open spec fn viewer_target(viewer: ViewerPanelView, root: NodeView) -> Option<LayoutPanelKind> {
    if blank(viewer.leaf_id) {
        None
    } else {
        last_panel(leaves(root), trim(viewer.leaf_id))
    }
}

pub open spec fn viewer_text_panels(
    viewers: Seq<ViewerPanelView>,
    root: NodeView,
    default_format: Seq<char>,
) -> Seq<TextPanelView>
    decreases viewers.len(),
{
    if viewers.len() == 0 {
        Seq::empty()
    } else {
        let before = viewer_text_panels(viewers.drop_last(), root, default_format);
        if viewer_target(viewers.last(), root) == Some(LayoutPanelKind::MetadataViewer) {
            before.push(text_panel_of(viewers.last(), default_format))
        } else {
            before
        }
    }
}

pub open spec fn viewer_image_panels(viewers: Seq<ViewerPanelView>, root: NodeView) -> Seq<
    ImagePanelView,
>
    decreases viewers.len(),
{
    if viewers.len() == 0 {
        Seq::empty()
    } else {
        let before = viewer_image_panels(viewers.drop_last(), root);
        if viewer_target(viewers.last(), root) == Some(LayoutPanelKind::AlbumArtViewer) {
            before.push(image_panel_of(viewers.last()))
        } else {
            before
        }
    }
}

/// The columns without their widths.
pub open spec fn bare_columns(columns: Seq<(ColumnView, Option<u32>)>) -> Seq<ColumnView> {
    columns.map_values(|c: (ColumnView, Option<u32>)| c.0)
}

/// The layout that a stored form holds. The viewer panels of older files count only where
/// there are neither text nor image panels.
pub open spec fn layout_of(wire: WireView, default_format: Seq<char>) -> LayoutView {
    let older = wire.text_panels.len() == 0 && wire.image_panels.len() == 0;
    LayoutView {
        version: LAYOUT_VERSION,
        art_column_min_px: wire.art_column_min_px,
        art_column_max_px: wire.art_column_max_px,
        color_scheme: settled_scheme(trim(wire.color_scheme)),
        custom_colors: wire.custom_colors,
        playlist_columns: bare_columns(wire.playlist_columns),
        width_overrides: with_widths(column_widths(wire.playlist_columns), wire.width_overrides),
        button_clusters: wire.button_clusters,
        collection_panels: wire.collection_panels,
        text_panels: if older {
            viewer_text_panels(wire.viewer_panels, wire.root, default_format)
        } else {
            wire.text_panels
        },
        image_panels: if older {
            viewer_image_panels(wire.viewer_panels, wire.root)
        } else {
            wire.image_panels
        },
        root: wire.root,
        selected_leaf_id: None,
    }
}

/// The width that overrides give to a key: the first one whose trimmed key it is.
pub open spec fn width_for(widths: Seq<(Seq<char>, u32)>, key: Seq<char>) -> Option<u32>
    decreases widths.len(),
{
    if widths.len() == 0 {
        None
    } else if width_for(widths.drop_last(), key) is Some {
        width_for(widths.drop_last(), key)
    } else if key.len() > 0 && trim(widths.last().0) == key {
        Some(widths.last().1)
    } else {
        None
    }
}

/// Every column with its width.
pub open spec fn columns_with_widths(
    columns: Seq<ColumnView>,
    widths: Seq<(Seq<char>, u32)>,
) -> Seq<(ColumnView, Option<u32>)> {
    columns.map_values(|c: ColumnView| (c, width_for(widths, column_key(c))))
}

/// The stored form of a layout.
pub open spec fn wire_of(layout: LayoutView) -> WireView {
    WireView {
        version: LAYOUT_VERSION,
        art_column_min_px: layout.art_column_min_px,
        art_column_max_px: layout.art_column_max_px,
        color_scheme: settled_scheme(layout.color_scheme),
        custom_colors: layout.custom_colors,
        playlist_columns: columns_with_widths(layout.playlist_columns, layout.width_overrides),
        width_overrides: Seq::empty(),
        button_clusters: layout.button_clusters,
        collection_panels: layout.collection_panels,
        text_panels: layout.text_panels,
        image_panels: layout.image_panels,
        viewer_panels: Seq::empty(),
        root: layout.root,
    }
}

fn add_width(widths: &mut Vec<PlaylistColumnWidthOverrideConfig>, key: String, width: u32)
    ensures
        overrides_view(final(widths)@) == with_width(overrides_view(old(widths)@), key@, width),
{
    let mut i: usize = 0;
    while i < widths.len()
        invariant
            i <= widths.len(),
            widths@ == old(widths)@,
            forall|k: int| 0 <= k < i ==> (#[trigger] overrides_view(widths@)[k]).0 != key@,
        decreases widths.len() - i,
    {
        assert(overrides_view(widths@)[i as int].0 == widths@[i as int].column_key@);
        if text_equal(&widths[i].column_key, &key) {
            return;
        }
        i += 1;
    }
    let item = PlaylistColumnWidthOverrideConfig { column_key: key, width_px: width };
    assert(overrides_view(widths@.push(item)) =~= overrides_view(widths@).push((key@, width)));
    widths.push(item);
}

fn widths_of_columns(columns: &Vec<LayoutPlaylistColumnWire>) -> (r: Vec<
    PlaylistColumnWidthOverrideConfig,
>)
    ensures
        overrides_view(r@) == column_widths(wire_columns(columns@)),
{
    let ghost all = wire_columns(columns@);
    let mut out: Vec<PlaylistColumnWidthOverrideConfig> = Vec::new();
    let mut i: usize = 0;
    assert(overrides_view(out@) =~= Seq::empty());
    while i < columns.len()
        invariant
            i <= columns.len(),
            all == wire_columns(columns@),
            overrides_view(out@) == column_widths(all.take(i as int)),
        decreases columns.len() - i,
    {
        proof {
            assert(all.take(i + 1).drop_last() =~= all.take(i as int));
            assert(all.take(i + 1).last() == (columns@[i as int].column@, columns@[i as int].width_px));
        }
        if let Some(width) = columns[i].width_px {
            add_width(&mut out, playlist_column_key(&columns[i].column), width);
        }
        i += 1;
    }
    assert(all.take(columns.len() as int) =~= all);
    out
}

fn add_widths(
    widths: &mut Vec<PlaylistColumnWidthOverrideConfig>,
    apart: &Vec<PlaylistColumnWidthOverrideConfig>,
)
    ensures
        overrides_view(final(widths)@) == with_widths(
            overrides_view(old(widths)@),
            overrides_view(apart@),
        ),
{
    let ghost all = overrides_view(apart@);
    let mut i: usize = 0;
    while i < apart.len()
        invariant
            i <= apart.len(),
            all == overrides_view(apart@),
            overrides_view(widths@) == with_widths(
                overrides_view(old(widths)@),
                all.take(i as int),
            ),
        decreases apart.len() - i,
    {
        proof {
            assert(all.take(i + 1).drop_last() =~= all.take(i as int));
            assert(all.take(i + 1).last() == (apart@[i as int].column_key@, apart@[i as int].width_px));
        }
        let key = trim_text(&apart[i].column_key);
        if !key.as_str().is_empty() {
            add_width(widths, key, apart[i].width_px);
        }
        i += 1;
    }
    assert(all.take(apart.len() as int) =~= all);
}

fn last_panel_for_leaf_id(node: &LayoutNode, leaf_id: &str) -> (r: Option<LayoutPanelKind>)
    ensures
        r == last_panel(leaves(node.tree()), leaf_id@),
    decreases node,
{
    proof {
        reveal_with_fuel(last_panel, 2);
    }
    match node {
        LayoutNode::Empty => {
            assert(leaves(node.tree()) =~= Seq::empty());
            None
        },
        LayoutNode::Leaf { id, panel } => {
            assert(leaves(node.tree()).drop_last() =~= Seq::empty());
            if text_equal(id, leaf_id) {
                Some(*panel)
            } else {
                None
            }
        },
        LayoutNode::Split { first, second, .. } => {
            proof {
                lemma_last_panel_joined(leaves(first.tree()), leaves(second.tree()), leaf_id@);
            }
            let found = last_panel_for_leaf_id(second, leaf_id);
            if found.is_some() {
                found
            } else {
                last_panel_for_leaf_id(first, leaf_id)
            }
        },
    }
}

proof fn lemma_last_panel_joined(
    a: Seq<(Seq<char>, LayoutPanelKind)>,
    b: Seq<(Seq<char>, LayoutPanelKind)>,
    leaf_id: Seq<char>,
)
    ensures
        last_panel(a + b, leaf_id) == (if last_panel(b, leaf_id) is Some {
            last_panel(b, leaf_id)
        } else {
            last_panel(a, leaf_id)
        }),
    decreases b.len(),
{
    if b.len() == 0 {
        assert(a + b =~= a);
    } else {
        assert((a + b).drop_last() =~= a + b.drop_last());
        assert((a + b).last() == b.last());
        lemma_last_panel_joined(a, b.drop_last(), leaf_id);
    }
}

fn older_panels(
    viewers: &Vec<LegacyViewerPanelInstanceConfig>,
    root: &LayoutNode,
    default_format: &str,
) -> (r: (Vec<MetadataViewerPanelInstanceConfig>, Vec<AlbumArtViewerPanelInstanceConfig>))
    ensures
        text_panels_view(r.0@) == viewer_text_panels(
            viewer_panels_view(viewers@),
            root.tree(),
            default_format@,
        ),
        image_panels_view(r.1@) == viewer_image_panels(viewer_panels_view(viewers@), root.tree()),
{
    let ghost all = viewer_panels_view(viewers@);
    let mut text_panels: Vec<MetadataViewerPanelInstanceConfig> = Vec::new();
    let mut image_panels: Vec<AlbumArtViewerPanelInstanceConfig> = Vec::new();
    let mut i: usize = 0;
    assert(text_panels_view(text_panels@) =~= Seq::empty());
    assert(image_panels_view(image_panels@) =~= Seq::empty());
    while i < viewers.len()
        invariant
            i <= viewers.len(),
            all == viewer_panels_view(viewers@),
            text_panels_view(text_panels@) == viewer_text_panels(
                all.take(i as int),
                root.tree(),
                default_format@,
            ),
            image_panels_view(image_panels@) == viewer_image_panels(
                all.take(i as int),
                root.tree(),
            ),
        decreases viewers.len() - i,
    {
        let viewer = &viewers[i];
        proof {
            assert(all.take(i + 1).drop_last() =~= all.take(i as int));
            assert(all.take(i + 1).last() == viewer@);
        }
        let leaf_id = trim_text(&viewer.leaf_id);
        let target = if leaf_id.as_str().is_empty() {
            None
        } else {
            last_panel_for_leaf_id(root, &leaf_id)
        };
        match target {
            Some(LayoutPanelKind::MetadataViewer) => {
                let panel = MetadataViewerPanelInstanceConfig {
                    leaf_id,
                    display_priority: viewer.display_priority,
                    metadata_source: if viewer.metadata_use_custom_text {
                        ViewerPanelMetadataSource::CustomText
                    } else {
                        viewer.metadata_source
                    },
                    metadata_text_format: if is_blank(&viewer.metadata_text_format) {
                        owned(default_format)
                    } else {
                        viewer.metadata_text_format.clone()
                    },
                };
                assert(text_panels_view(text_panels@.push(panel)) =~= text_panels_view(
                    text_panels@,
                ).push(panel@));
                text_panels.push(panel);
            },
            Some(LayoutPanelKind::AlbumArtViewer) => {
                let panel = AlbumArtViewerPanelInstanceConfig {
                    leaf_id,
                    display_priority: viewer.display_priority,
                    image_source: viewer.image_source,
                };
                assert(image_panels_view(image_panels@.push(panel)) =~= image_panels_view(
                    image_panels@,
                ).push(panel@));
                image_panels.push(panel);
            },
            _ => {},
        }
        i += 1;
    }
    assert(all.take(viewers.len() as int) =~= all);
    (text_panels, image_panels)
}

fn take_columns(columns: Vec<LayoutPlaylistColumnWire>) -> (r: Vec<PlaylistColumnConfig>)
    ensures
        columns_view(r@) == bare_columns(wire_columns(columns@)),
{
    let mut out: Vec<PlaylistColumnConfig> = Vec::new();
    let mut i: usize = 0;
    while i < columns.len()
        invariant
            i <= columns.len(),
            out.len() == i,
            forall|k: int| 0 <= k < i ==> (#[trigger] out@[k])@ == columns@[k].column@,
        decreases columns.len() - i,
    {
        out.push(columns[i].column.clone());
        i += 1;
    }
    assert(columns_view(out@) =~= bare_columns(wire_columns(columns@)));
    out
}

fn stored_width(overrides: &Vec<PlaylistColumnWidthOverrideConfig>, key: &str) -> (r: Option<u32>)
    ensures
        r == width_for(overrides_view(overrides@), key@),
{
    let ghost all = overrides_view(overrides@);
    let mut i: usize = 0;
    if key.is_empty() {
        proof {
            lemma_no_width(all, key@);
        }
        return None;
    }
    while i < overrides.len()
        invariant
            i <= overrides.len(),
            key@.len() > 0,
            all == overrides_view(overrides@),
            width_for(all.take(i as int), key@) is None,
        decreases overrides.len() - i,
    {
        proof {
            assert(all.take(i + 1).drop_last() =~= all.take(i as int));
            assert(all.take(i + 1).last() == (
                overrides@[i as int].column_key@,
                overrides@[i as int].width_px,
            ));
        }
        if text_equal(&trim_text(&overrides[i].column_key), key) {
            proof {
                lemma_width_kept(all, key@, i + 1);
            }
            return Some(overrides[i].width_px);
        }
        i += 1;
    }
    assert(all.take(overrides.len() as int) =~= all);
    None
}

proof fn lemma_no_width(widths: Seq<(Seq<char>, u32)>, key: Seq<char>)
    requires
        key.len() == 0,
    ensures
        width_for(widths, key) is None,
    decreases widths.len(),
{
    if widths.len() > 0 {
        lemma_no_width(widths.drop_last(), key);
    }
}

/// A width that was found stays the one that is found.
proof fn lemma_width_kept(widths: Seq<(Seq<char>, u32)>, key: Seq<char>, n: int)
    requires
        0 <= n <= widths.len(),
        width_for(widths.take(n), key) is Some,
    ensures
        width_for(widths, key) == width_for(widths.take(n), key),
    decreases widths.len(),
{
    if n == widths.len() {
        assert(widths.take(n) =~= widths);
    } else {
        assert(widths.drop_last().take(n) =~= widths.take(n));
        lemma_width_kept(widths.drop_last(), key, n);
    }
}

impl LayoutConfig {
    /// The layout that a stored form holds. `default_text_format` is the text format of panels
    /// that have none of their own.
    pub fn from_wire(wire: LayoutConfigWire, default_text_format: &str) -> (r: LayoutConfig)
        ensures
            r@ == layout_of(wire@, default_text_format@),
    {
        let mut overrides = widths_of_columns(&wire.playlist_columns);
        add_widths(&mut overrides, &wire.playlist_column_width_overrides);
        let older = wire.text_panel_instances.len() == 0 && wire.image_panel_instances.len() == 0;
        let (text_panels, image_panels) = if older {
            older_panels(&wire.viewer_panel_instances, &wire.root, default_text_format)
        } else {
            (wire.text_panel_instances, wire.image_panel_instances)
        };
        let r = LayoutConfig {
            version: LAYOUT_VERSION,
            playlist_album_art_column_min_width_px: wire.playlist_album_art_column_min_width_px,
            playlist_album_art_column_max_width_px: wire.playlist_album_art_column_max_width_px,
            color_scheme: settle_scheme(&trim_text(&wire.color_scheme)),
            custom_colors: wire.custom_colors,
            playlist_columns: take_columns(wire.playlist_columns),
            playlist_column_width_overrides: overrides,
            button_cluster_instances: wire.button_cluster_instances,
            collection_panel_instances: wire.collection_panel_instances,
            metadata_viewer_panel_instances: text_panels,
            album_art_viewer_panel_instances: image_panels,
            root: wire.root,
            selected_leaf_id: None,
        };
        assert(r@ =~= layout_of(wire@, default_text_format@));
        r
    }

    /// The stored form of this layout.
    pub fn to_wire(&self) -> (r: LayoutConfigWire)
        ensures
            r@ == wire_of(self@),
    {
        let mut columns: Vec<LayoutPlaylistColumnWire> = Vec::new();
        let ghost widths = overrides_view(self.playlist_column_width_overrides@);
        let mut i: usize = 0;
        while i < self.playlist_columns.len()
            invariant
                i <= self.playlist_columns.len(),
                columns.len() == i,
                widths == overrides_view(self.playlist_column_width_overrides@),
                forall|k: int|
                    0 <= k < i ==> (#[trigger] columns@[k]).column@ == self.playlist_columns@[k]@
                        && columns@[k].width_px == width_for(
                        widths,
                        column_key(self.playlist_columns@[k]@),
                    ),
            decreases self.playlist_columns.len() - i,
        {
            let column = self.playlist_columns[i].clone();
            let key = playlist_column_key(&column);
            let width_px = stored_width(&self.playlist_column_width_overrides, &key);
            columns.push(LayoutPlaylistColumnWire { column, width_px });
            i += 1;
        }
        let copy = self.clone();
        let r = LayoutConfigWire {
            version: LAYOUT_VERSION,
            playlist_album_art_column_min_width_px: self.playlist_album_art_column_min_width_px,
            playlist_album_art_column_max_width_px: self.playlist_album_art_column_max_width_px,
            color_scheme: settle_scheme(&self.color_scheme),
            custom_colors: copy.custom_colors,
            playlist_columns: columns,
            playlist_column_width_overrides: Vec::new(),
            button_cluster_instances: copy.button_cluster_instances,
            collection_panel_instances: copy.collection_panel_instances,
            text_panel_instances: copy.metadata_viewer_panel_instances,
            image_panel_instances: copy.album_art_viewer_panel_instances,
            viewer_panel_instances: Vec::new(),
            root: copy.root,
        };
        assert(r@.playlist_columns =~= wire_of(self@).playlist_columns);
        assert(r@ =~= wire_of(self@));
        r
    }
}

proof fn lemma_column_width_found(columns: Seq<(ColumnView, Option<u32>)>, key: Seq<char>)
    requires
        forall|i: int, j: int|
            0 <= i < columns.len() && 0 <= j < columns.len() && column_key(
                (#[trigger] columns[i]).0,
            ) == column_key((#[trigger] columns[j]).0) ==> columns[i].1 == columns[j].1,
    ensures
        forall|i: int|
            0 <= i < columns.len() && column_key((#[trigger] columns[i]).0) == key
                && columns[i].1 is Some ==> column_widths(columns).contains(
                (key, columns[i].1->Some_0),
            ),
        forall|i: int|
            0 <= i < column_widths(columns).len() ==> exists|k: int|
                0 <= k < columns.len() && column_key((#[trigger] columns[k]).0)
                    == (#[trigger] column_widths(columns)[i]).0 && columns[k].1 == Some(
                    column_widths(columns)[i].1,
                ),
    decreases columns.len(),
{
    if columns.len() > 0 {
        let rest = columns.drop_last();
        let last = columns.last();
        lemma_column_width_found(rest, key);
        let before = column_widths(rest);
        let after = column_widths(columns);
        assert forall|i: int| 0 <= i < after.len() implies exists|k: int|
            0 <= k < columns.len() && column_key((#[trigger] columns[k]).0) == (
            #[trigger] after[i]).0 && columns[k].1 == Some(after[i].1) by {
            if i < before.len() {
                assert(after[i] == before[i]);
                let k = choose|k: int|
                    0 <= k < rest.len() && column_key((#[trigger] rest[k]).0) == before[i].0
                        && rest[k].1 == Some(before[i].1);
                assert(columns[k] == rest[k]);
            } else {
                assert(columns[columns.len() - 1] == last);
            }
        }
        assert forall|i: int|
            0 <= i < columns.len() && column_key((#[trigger] columns[i]).0) == key
                && columns[i].1 is Some implies after.contains((key, columns[i].1->Some_0)) by {
            let wanted = (key, columns[i].1->Some_0);
            if i < rest.len() {
                assert(rest[i] == columns[i]);
                assert(before.contains(wanted));
                let p = choose|p: int| 0 <= p < before.len() && before[p] == wanted;
                assert(after[p] == wanted);
            } else if has_key(before, key) {
                let p = choose|p: int| 0 <= p < before.len() && (#[trigger] before[p]).0 == key;
                assert(after[p] == before[p]);
                let k = choose|k: int|
                    0 <= k < columns.len() && column_key((#[trigger] columns[k]).0) == after[p].0
                        && columns[k].1 == Some(after[p].1);
                assert(columns[k].1 == columns[i].1);
                assert(after[p] == wanted);
            } else {
                assert(after[before.len() as int] == wanted);
            }
        }
    }
}

/// Storing a layout and reading it back keeps all but the selection and the spaces around the
/// color scheme, and every column keeps its width.
pub proof fn stored_layouts_come_back(layout: LayoutView, default_format: Seq<char>)
    ensures
        ({
            let back = layout_of(wire_of(layout), default_format);
            &&& back == LayoutView {
                version: LAYOUT_VERSION,
                color_scheme: settled_scheme(trim(settled_scheme(layout.color_scheme))),
                width_overrides: back.width_overrides,
                selected_leaf_id: None,
                ..layout
            }
            &&& forall|i: int|
                0 <= i < layout.playlist_columns.len() ==> {
                    let key = column_key(#[trigger] layout.playlist_columns[i]);
                    let width = width_for(layout.width_overrides, key);
                    &&& width is Some ==> back.width_overrides.contains((key, width->Some_0))
                    &&& width is None ==> !has_key(back.width_overrides, key)
                }
        }),
{
    let wire = wire_of(layout);
    let back = layout_of(wire, default_format);
    let columns = wire.playlist_columns;
    assert(bare_columns(columns) =~= layout.playlist_columns);
    assert(back.width_overrides == column_widths(columns));
    assert(back.text_panels =~= layout.text_panels);
    assert(back.image_panels =~= layout.image_panels);
    assert forall|i: int| 0 <= i < layout.playlist_columns.len() implies ({
        let key = column_key(#[trigger] layout.playlist_columns[i]);
        let width = width_for(layout.width_overrides, key);
        &&& width is Some ==> back.width_overrides.contains((key, width->Some_0))
        &&& width is None ==> !has_key(back.width_overrides, key)
    }) by {
        let key = column_key(layout.playlist_columns[i]);
        lemma_column_width_found(columns, key);
        assert(columns[i] == (
            layout.playlist_columns[i],
            width_for(layout.width_overrides, key),
        ));
    }
}

/// A layout is stored with each of its settings under its own name; a column's width beside the
/// column.
pub proof fn layouts_are_stored_by_name(layout: LayoutView, i: int)
    ensures
        ({
            let wire = wire_of(layout);
            &&& wire.art_column_min_px == layout.art_column_min_px
            &&& wire.art_column_max_px == layout.art_column_max_px
            &&& !blank(layout.color_scheme) ==> wire.color_scheme == layout.color_scheme
            &&& wire.custom_colors == layout.custom_colors
            &&& wire.button_clusters == layout.button_clusters
            &&& wire.collection_panels == layout.collection_panels
            &&& wire.text_panels == layout.text_panels
            &&& wire.image_panels == layout.image_panels
            &&& wire.viewer_panels.len() == 0
            &&& wire.width_overrides.len() == 0
            &&& wire.root == layout.root
            &&& wire.playlist_columns.len() == layout.playlist_columns.len()
            &&& 0 <= i < layout.playlist_columns.len() ==> wire.playlist_columns[i].0
                == layout.playlist_columns[i]
        }),
{
}

/// A stored layout is read by the names of its settings. Where it has panels of the older kind
/// only, these are taken for text or image panels, by what their leaf shows.
pub proof fn layouts_are_read_by_name(wire: WireView, default_format: Seq<char>, i: int)
    ensures
        ({
            let layout = layout_of(wire, default_format);
            let newer = wire.text_panels.len() > 0 || wire.image_panels.len() > 0;
            &&& layout.art_column_min_px == wire.art_column_min_px
            &&& layout.art_column_max_px == wire.art_column_max_px
            &&& !blank(trim(wire.color_scheme)) ==> layout.color_scheme == trim(wire.color_scheme)
            &&& layout.custom_colors == wire.custom_colors
            &&& layout.button_clusters == wire.button_clusters
            &&& layout.collection_panels == wire.collection_panels
            &&& newer ==> layout.text_panels == wire.text_panels && layout.image_panels
                == wire.image_panels
            &&& layout.root == wire.root
            &&& layout.selected_leaf_id is None
            &&& layout.playlist_columns.len() == wire.playlist_columns.len()
            &&& 0 <= i < wire.playlist_columns.len() ==> layout.playlist_columns[i]
                == wire.playlist_columns[i].0
        }),
{
}

/// A panel of the older kind becomes a text or an image panel of its leaf, with its own
/// priority and source; a text of its own counts as such, and a missing format is the usual
/// one.
pub proof fn older_panels_keep_their_settings(v: ViewerPanelView, default_format: Seq<char>)
    ensures
        ({
            let t = text_panel_of(v, default_format);
            &&& t.leaf_id == trim(v.leaf_id)
            &&& t.display_priority == v.display_priority
            &&& v.use_custom_text ==> t.source == ViewerPanelMetadataSource::CustomText
            &&& !v.use_custom_text ==> t.source == v.metadata_source
            &&& !blank(v.format) ==> t.format == v.format
            &&& blank(v.format) ==> t.format == default_format
        }),
        ({
            let p = image_panel_of(v);
            &&& p.leaf_id == trim(v.leaf_id)
            &&& p.display_priority == v.display_priority
            &&& p.source == v.image_source
        }),
{
}

/// A panel of the older kind goes to the texts where its leaf shows metadata, to the images
/// where it shows album art, and nowhere otherwise.
pub proof fn older_panels_go_where_their_leaf_is(
    viewers: Seq<ViewerPanelView>,
    v: ViewerPanelView,
    root: NodeView,
    default_format: Seq<char>,
)
    ensures
        viewer_target(v, root) == Some(LayoutPanelKind::MetadataViewer) ==> viewer_text_panels(
            viewers.push(v),
            root,
            default_format,
        ) == viewer_text_panels(viewers, root, default_format).push(
            text_panel_of(v, default_format),
        ) && viewer_image_panels(viewers.push(v), root) == viewer_image_panels(viewers, root),
        viewer_target(v, root) == Some(LayoutPanelKind::AlbumArtViewer) ==> viewer_image_panels(
            viewers.push(v),
            root,
        ) == viewer_image_panels(viewers, root).push(image_panel_of(v)) && viewer_text_panels(
            viewers.push(v),
            root,
            default_format,
        ) == viewer_text_panels(viewers, root, default_format),
        viewer_target(v, root) is None ==> viewer_text_panels(viewers.push(v), root, default_format)
            == viewer_text_panels(viewers, root, default_format) && viewer_image_panels(
            viewers.push(v),
            root,
        ) == viewer_image_panels(viewers, root),
        blank(v.leaf_id) ==> viewer_target(v, root) is None,
{
    assert(viewers.push(v).drop_last() =~= viewers);
}

/// A column is known by its format in lower case, and one of the user's by its name and format.
pub proof fn columns_are_known_by_format(column: ColumnView)
    ensures
        !column.custom ==> column_key(column) == lower(trim(column.format)),
        column.custom ==> column_key(column) == "custom:"@ + trim(column.name) + "|"@ + trim(
            column.format,
        ),
{
}

/// The width that stands beside a column counts before one that is listed apart, and of two
/// the first.
pub proof fn the_first_width_counts(
    widths: Seq<(Seq<char>, u32)>,
    key: Seq<char>,
    width: u32,
    later: u32,
)
    requires
        !has_key(widths, key),
    ensures
        with_width(widths, key, width).contains((key, width)),
        with_width(with_width(widths, key, width), key, later) == with_width(widths, key, width),
{
    let after = with_width(widths, key, width);
    assert(after[widths.len() as int] == (key, width));
    assert(has_key(after, key));
}

} // verus!
