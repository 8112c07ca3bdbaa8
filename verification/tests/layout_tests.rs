//! Layout editing and geometry.

use roqtune::config::{
    default_playlist_album_art_column_max_width_px, default_playlist_album_art_column_min_width_px,
    default_playlist_columns, ButtonClusterInstanceConfig,
};
use roqtune::layout::defaults::{
    RATIO_ALBUM, RATIO_BODY, RATIO_CONTROLS, RATIO_SIDEBAR, RATIO_TOP_ROW, RATIO_TRACKS,
    RATIO_TRANSPORT, RATIO_UTILITY_VOLUME,
};
use roqtune::layout::geometry::{
    compute_tree_layout_metrics, fits_viewport, LayoutSplitterItem, TreeLayoutMetrics,
};
use roqtune::layout::tree::{
    add_root_leaf_if_empty, delete_leaf, first_leaf_id, panel_for_leaf_id, replace_leaf_panel,
    sanitize_layout_config, set_split_ratio, split_leaf,
};
use roqtune::layout::wire::{
    playlist_column_key, LayoutConfigWire, LayoutPlaylistColumnWire,
    LegacyViewerPanelInstanceConfig,
};
use roqtune::layout::{
    LayoutConfig, LayoutNode, LayoutPanelKind, PlaylistColumnWidthOverrideConfig, SplitAxis,
    ViewerPanelDisplayPriority, ViewerPanelImageSource, ViewerPanelMetadataSource,
    DEFAULT_COLOR_SCHEME_ID, LAYOUT_VERSION, SPLITTER_THICKNESS_PX,
};

fn splitter_by_id<'a>(splitters: &'a [LayoutSplitterItem], id: &str) -> &'a LayoutSplitterItem {
    splitters
        .iter()
        .find(|splitter| splitter.id == id)
        .expect("splitter should exist")
}

fn leaf_id_for_panel(node: &LayoutNode, panel: LayoutPanelKind) -> Option<String> {
    match node {
        LayoutNode::Leaf {
            id,
            panel: existing_panel,
        } if *existing_panel == panel => Some(id.clone()),
        LayoutNode::Split { first, second, .. } => {
            leaf_id_for_panel(first, panel).or_else(|| leaf_id_for_panel(second, panel))
        }
        _ => None,
    }
}

fn leaf(id: &str, panel: LayoutPanelKind) -> LayoutNode {
    LayoutNode::Leaf {
        id: id.to_string(),
        panel,
    }
}

fn split(
    id: &str,
    axis: SplitAxis,
    ratio: f32,
    minimums: (u32, u32),
    first: LayoutNode,
    second: LayoutNode,
) -> LayoutNode {
    LayoutNode::Split {
        id: id.to_string(),
        axis,
        ratio_bits: ratio.to_bits(),
        min_first_px: minimums.0,
        min_second_px: minimums.1,
        first: Box::new(first),
        second: Box::new(second),
    }
}

fn layout_with_root(root: LayoutNode) -> LayoutConfig {
    LayoutConfig {
        version: LAYOUT_VERSION,
        playlist_album_art_column_min_width_px: default_playlist_album_art_column_min_width_px(),
        playlist_album_art_column_max_width_px: default_playlist_album_art_column_max_width_px(),
        color_scheme: DEFAULT_COLOR_SCHEME_ID.to_string(),
        custom_colors: None,
        playlist_columns: default_playlist_columns(),
        playlist_column_width_overrides: Vec::new(),
        button_cluster_instances: Vec::new(),
        collection_panel_instances: Vec::new(),
        metadata_viewer_panel_instances: Vec::new(),
        album_art_viewer_panel_instances: Vec::new(),
        root,
        selected_leaf_id: None,
    }
}

fn ids_of(node: &LayoutNode, out: &mut Vec<String>) {
    match node {
        LayoutNode::Empty => {}
        LayoutNode::Leaf { id, .. } => out.push(id.clone()),
        LayoutNode::Split {
            id, first, second, ..
        } => {
            out.push(id.clone());
            ids_of(first, out);
            ids_of(second, out);
        }
    }
}

#[test]
fn button_cluster_min_size_tracks_configured_action_count() {
    let mut config = layout_with_root(split(
        "split",
        SplitAxis::Vertical,
        0.1,
        (0, 0),
        leaf("cluster", LayoutPanelKind::ButtonCluster),
        leaf("spacer", LayoutPanelKind::Spacer),
    ));
    config.button_cluster_instances = vec![ButtonClusterInstanceConfig {
        leaf_id: "cluster".to_string(),
        actions: vec![1, 2, 3, 4],
    }];
    let metrics = compute_tree_layout_metrics(&config, 420, 120, SPLITTER_THICKNESS_PX);
    let cluster_leaf = metrics
        .leaves
        .iter()
        .find(|leaf| leaf.id == "cluster")
        .expect("cluster leaf should exist");

    // 4 buttons * 32 + 3 gaps * 8 + 16 horizontal padding.
    assert!(cluster_leaf.width >= 168);
    assert!(cluster_leaf.height >= 32);
    assert_eq!(cluster_leaf.width, 168);
    assert_eq!(cluster_leaf.height, 120);
}

#[test]
fn split_level_minimums_do_not_override_panel_adaptive_minimums() {
    let config = layout_with_root(split(
        "split",
        SplitAxis::Vertical,
        0.5,
        (500, 500),
        leaf("left", LayoutPanelKind::Spacer),
        leaf("right", LayoutPanelKind::Spacer),
    ));
    let metrics = compute_tree_layout_metrics(&config, 360, 120, SPLITTER_THICKNESS_PX);
    let splitter = metrics
        .splitters
        .first()
        .expect("splitter should exist for split layout");

    assert!(f32::from_bits(splitter.min_ratio_bits) < 0.25);
    assert!(f32::from_bits(splitter.max_ratio_bits) > 0.75);
    assert_eq!(f32::from_bits(splitter.ratio_bits), 179.0 / 358.0);
    assert_eq!(f32::from_bits(splitter.min_ratio_bits), 24.0 / 358.0);
    assert_eq!(f32::from_bits(splitter.max_ratio_bits), 334.0 / 358.0);
    assert_eq!(splitter.track_length_px, 358);
}

#[test]
fn default_layout_is_tree_version_one() {
    let config = LayoutConfig::default();
    assert_eq!(config.version, LAYOUT_VERSION);
    assert!(first_leaf_id(&config.root).is_some());
}

#[test]
fn split_leaf_creates_new_split_node() {
    let config = LayoutConfig::default();
    let leaf_id = first_leaf_id(&config.root).expect("leaf expected");
    let updated = split_leaf(
        &config,
        &leaf_id,
        SplitAxis::Vertical,
        LayoutPanelKind::Spacer,
    )
    .expect("split should succeed");
    let metrics = compute_tree_layout_metrics(&updated, 900, 650, SPLITTER_THICKNESS_PX);
    assert!(!metrics.splitters.is_empty());
    assert!(metrics.leaves.len() >= 2);
}

#[test]
fn delete_leaf_can_produce_empty_layout() {
    let mut config = LayoutConfig::default();
    // Repeatedly delete first leaf until empty.
    while let Some(id) = first_leaf_id(&config.root) {
        config = delete_leaf(&config, &id).expect("delete should succeed");
    }
    let metrics = compute_tree_layout_metrics(&config, 900, 650, SPLITTER_THICKNESS_PX);
    assert!(metrics.leaves.is_empty());
}

#[test]
fn replace_leaf_allows_duplicate_functional_panels() {
    let config = LayoutConfig::default();
    let transport_leaf = leaf_id_for_panel(&config.root, LayoutPanelKind::ButtonCluster)
        .expect("button cluster leaf should exist");
    let updated = replace_leaf_panel(&config, &transport_leaf, LayoutPanelKind::TrackList)
        .expect("replace should allow duplicate functional panels");
    let metrics = compute_tree_layout_metrics(&updated, 900, 650, SPLITTER_THICKNESS_PX);
    let track_count = metrics
        .leaves
        .iter()
        .filter(|leaf| leaf.panel == LayoutPanelKind::TrackList)
        .count();
    assert!(track_count >= 2);
}

#[test]
fn splitter_ratio_updates_are_clamped_by_solver() {
    let config = LayoutConfig::default();
    let metrics = compute_tree_layout_metrics(&config, 900, 650, SPLITTER_THICKNESS_PX);
    let splitter = metrics
        .splitters
        .first()
        .expect("default layout should have splitters");
    let updated =
        set_split_ratio(&config, &splitter.id, 0.99f32.to_bits()).expect("ratio update");
    let updated_metrics = compute_tree_layout_metrics(&updated, 900, 650, SPLITTER_THICKNESS_PX);
    let updated_splitter = splitter_by_id(&updated_metrics.splitters, &splitter.id);
    let ratio = f32::from_bits(updated_splitter.ratio_bits);
    assert!(ratio <= f32::from_bits(updated_splitter.max_ratio_bits) + f32::EPSILON);
    assert!(ratio >= f32::from_bits(updated_splitter.min_ratio_bits) - f32::EPSILON);
}

#[test]
fn sanitize_layout_config_preserves_duplicate_panels() {
    let config = layout_with_root(split(
        "split-root",
        SplitAxis::Vertical,
        0.5,
        (24, 24),
        leaf("leaf-a", LayoutPanelKind::TrackList),
        leaf("leaf-b", LayoutPanelKind::TrackList),
    ));
    let sanitized = sanitize_layout_config(&config, 900, 650);
    let metrics = compute_tree_layout_metrics(&sanitized, 900, 650, SPLITTER_THICKNESS_PX);
    let track_count = metrics
        .leaves
        .iter()
        .filter(|leaf| leaf.panel == LayoutPanelKind::TrackList)
        .count();
    assert_eq!(track_count, 2);
}

#[test]
fn test_layout_serializes_column_width_overrides_inline_with_columns() {
    let mut layout = LayoutConfig::default();
    layout
        .playlist_column_width_overrides
        .push(PlaylistColumnWidthOverrideConfig {
            column_key: "{title}".to_string(),
            width_px: 321,
        });
    let stored = layout.to_wire();
    assert!(stored
        .playlist_columns
        .iter()
        .any(|column| column.column.format == "{title}" && column.width_px == Some(321)));
    assert_eq!(
        stored
            .playlist_columns
            .iter()
            .filter(|column| column.width_px.is_some())
            .count(),
        1
    );
    assert!(
        stored.playlist_column_width_overrides.is_empty(),
        "legacy top-level width override key should not be emitted"
    );
}

#[test]
fn test_layout_deserializes_legacy_top_level_width_overrides() {
    let mut stored = LayoutConfig::default().to_wire();
    stored
        .playlist_column_width_overrides
        .push(PlaylistColumnWidthOverrideConfig {
            column_key: "{title}".to_string(),
            width_px: 222,
        });
    let parsed = LayoutConfig::from_wire(stored, "{title}");
    let title_width = parsed
        .playlist_column_width_overrides
        .iter()
        .find(|entry| entry.column_key == "{title}")
        .map(|entry| entry.width_px);
    assert_eq!(title_width, Some(222));
}

#[test]
fn built_in_ratios_are_the_documented_shares() {
    assert_eq!(RATIO_UTILITY_VOLUME, 0.70f32.to_bits());
    assert_eq!(RATIO_TRANSPORT, 0.62f32.to_bits());
    assert_eq!(RATIO_TOP_ROW, 0.08f32.to_bits());
    assert_eq!(RATIO_ALBUM, 0.32f32.to_bits());
    assert_eq!(RATIO_SIDEBAR, 0.28f32.to_bits());
    assert_eq!(RATIO_TRACKS, 0.68f32.to_bits());
    assert_eq!(RATIO_CONTROLS, 0.16f32.to_bits());
    assert_eq!(RATIO_BODY, 0.96f32.to_bits());
}

#[test]
fn default_tree_numbers_its_nodes() {
    let mut ids = Vec::new();
    ids_of(&LayoutConfig::default().root, &mut ids);
    let mut numbers: Vec<u32> = ids.iter().map(|id| id[1..].parse().unwrap()).collect();
    assert_eq!(ids[0], "n17");
    numbers.sort();
    assert_eq!(numbers, (1..=19).collect::<Vec<u32>>());
    assert_eq!(first_leaf_id(&LayoutConfig::default().root), Some("n8".to_string()));
}

#[test]
fn sanitizing_gives_every_node_a_name_of_its_own() {
    let config = layout_with_root(split(
        "x",
        SplitAxis::Horizontal,
        f32::NAN,
        (1, 2),
        split(
            "x",
            SplitAxis::Vertical,
            -3.0,
            (0, 0),
            leaf("  ", LayoutPanelKind::TransportButtonCluster),
            leaf("l1", LayoutPanelKind::SeekBar),
        ),
        split(
            "s2",
            SplitAxis::Vertical,
            0.25,
            (0, 0),
            leaf("gone", LayoutPanelKind::NoPanel),
            leaf("l1", LayoutPanelKind::Spacer),
        ),
    ));
    let tidy = sanitize_layout_config(&config, 10, 10);
    let mut ids = Vec::new();
    ids_of(&tidy.root, &mut ids);
    let mut unique = ids.clone();
    unique.sort();
    unique.dedup();
    assert_eq!(unique.len(), ids.len());
    match &tidy.root {
        LayoutNode::Split {
            ratio_bits,
            first,
            second,
            min_first_px,
            min_second_px,
            ..
        } => {
            assert_eq!(*ratio_bits, 0.5f32.to_bits());
            assert_eq!((*min_first_px, *min_second_px), (1, 2));
            match &**first {
                LayoutNode::Split {
                    id,
                    ratio_bits,
                    first,
                    second,
                    ..
                } => {
                    assert_eq!(id, "x");
                    assert_eq!(*ratio_bits, 0.0f32.to_bits());
                    assert_eq!(**first, leaf("l2", LayoutPanelKind::ButtonCluster));
                    assert_eq!(**second, leaf("l1", LayoutPanelKind::SeekBar));
                }
                _ => panic!("the first child should stay a split"),
            }
            assert_eq!(**second, leaf("l3", LayoutPanelKind::Spacer));
        }
        _ => panic!("the root should stay a split"),
    }
    assert_eq!(sanitize_layout_config(&tidy, 0, 0), tidy);
}

#[test]
fn sanitizing_expands_panels_of_older_layouts() {
    let mut config = layout_with_root(leaf("bar", LayoutPanelKind::ControlBar));
    config.selected_leaf_id = Some("bar".to_string());
    config.color_scheme = "  ".to_string();
    let tidy = sanitize_layout_config(&config, 0, 0);
    let mut ids = Vec::new();
    ids_of(&tidy.root, &mut ids);
    assert_eq!(ids.len(), 9);
    assert_eq!(ids[0], "l9");
    assert_eq!(panel_for_leaf_id(&tidy.root, "l5"), Some(LayoutPanelKind::SeekBar));
    assert_eq!(tidy.selected_leaf_id, None);
    assert_eq!(tidy.color_scheme, DEFAULT_COLOR_SCHEME_ID);

    let album = sanitize_layout_config(
        &layout_with_root(leaf("pane", LayoutPanelKind::AlbumArtPane)),
        0,
        0,
    );
    assert_eq!(panel_for_leaf_id(&album.root, "l2"), Some(LayoutPanelKind::MetadataViewer));
    assert_eq!(panel_for_leaf_id(&album.root, "l3"), Some(LayoutPanelKind::AlbumArtViewer));
}

#[test]
fn edits_of_missing_nodes_are_refused() {
    let config = LayoutConfig::default();
    assert!(delete_leaf(&config, "missing").is_none());
    assert!(replace_leaf_panel(&config, "missing", LayoutPanelKind::Spacer).is_none());
    assert!(replace_leaf_panel(&config, "missing", LayoutPanelKind::NoPanel).is_none());
    assert!(split_leaf(&config, "missing", SplitAxis::Vertical, LayoutPanelKind::Spacer).is_none());
    assert!(set_split_ratio(&config, "missing", 0.5f32.to_bits()).is_none());
}

#[test]
fn splitting_puts_the_new_leaf_behind_the_old_one() {
    let config = layout_with_root(leaf("l1", LayoutPanelKind::TrackList));
    let updated = split_leaf(&config, "l1", SplitAxis::Horizontal, LayoutPanelKind::Spacer)
        .expect("split should succeed");
    assert_eq!(
        updated.root,
        split(
            "s3",
            SplitAxis::Horizontal,
            0.5,
            (0, 0),
            leaf("l1", LayoutPanelKind::TrackList),
            leaf("l2", LayoutPanelKind::Spacer),
        )
    );
    let same = split_leaf(&config, "l1", SplitAxis::Horizontal, LayoutPanelKind::NoPanel)
        .expect("split should succeed");
    assert_eq!(same.root, config.root);
}

#[test]
fn ratios_that_are_no_numbers_are_not_taken() {
    let config = LayoutConfig::default();
    let same = set_split_ratio(&config, "n4", f32::INFINITY.to_bits()).expect("split exists");
    assert_eq!(same, config);
    let high = set_split_ratio(&config, "n4", 7.5f32.to_bits()).expect("split exists");
    let low = set_split_ratio(&config, "n4", (-7.5f32).to_bits()).expect("split exists");
    let metrics = |layout: &LayoutConfig| compute_tree_layout_metrics(layout, 900, 650, 2);
    let at_high: TreeLayoutMetrics = metrics(&high);
    let at_low: TreeLayoutMetrics = metrics(&low);
    let high_splitter = splitter_by_id(&at_high.splitters, "n4");
    let low_splitter = splitter_by_id(&at_low.splitters, "n4");
    assert_eq!(high_splitter.ratio_bits, high_splitter.max_ratio_bits);
    assert_eq!(low_splitter.ratio_bits, low_splitter.min_ratio_bits);
}

#[test]
fn empty_layouts_get_a_first_leaf() {
    let empty = layout_with_root(LayoutNode::Empty);
    assert_eq!(
        add_root_leaf_if_empty(&empty, LayoutPanelKind::NoPanel).root,
        leaf("l1", LayoutPanelKind::TrackList)
    );
    assert_eq!(
        add_root_leaf_if_empty(&empty, LayoutPanelKind::Spacer).root,
        leaf("l1", LayoutPanelKind::Spacer)
    );
    let config = LayoutConfig::default();
    assert_eq!(add_root_leaf_if_empty(&config, LayoutPanelKind::Spacer), config);
}

#[test]
fn shares_round_as_single_precision_does() {
    for ratio in [0.0f32, 0.1, 0.25, 1.0 / 3.0, 0.5, 0.61803, 0.9999999, 1.0, 1e-40, -0.5] {
        for width in [26u32, 100, 333, 1001, 65537, 16777217, 2147483000] {
            let config = layout_with_root(split(
                "s",
                SplitAxis::Vertical,
                ratio,
                (0, 0),
                leaf("a", LayoutPanelKind::Spacer),
                leaf("b", LayoutPanelKind::Spacer),
            ));
            let metrics = compute_tree_layout_metrics(&config, width, 50, 2);
            let total = width as i32 - 2;
            let most = (total - 24).max(0);
            let asked = (ratio.clamp(0.0, 1.0) * total as f32).round() as i32;
            let first = asked.clamp(24.min(most), most);
            let splitter = &metrics.splitters[0];
            assert_eq!(splitter.x, first);
            assert_eq!(f32::from_bits(splitter.ratio_bits), first as f32 / total as f32);
            assert_eq!(
                f32::from_bits(splitter.max_ratio_bits),
                (most as f32 / total as f32).clamp(0.0, 1.0)
            );
        }
    }
}

#[test]
fn placed_leaves_stay_in_the_viewport_and_do_not_overlap() {
    let config = LayoutConfig::default();
    for (width, height) in [(900u32, 650u32), (320, 240), (40, 30), (1, 1), (0, 0)] {
        assert!(fits_viewport(&config, width, height, SPLITTER_THICKNESS_PX));
        let metrics = compute_tree_layout_metrics(&config, width, height, SPLITTER_THICKNESS_PX);
        for (i, a) in metrics.leaves.iter().enumerate() {
            assert!(a.x >= 0 && a.x + a.width <= width.max(1) as i32);
            assert!(a.y >= 0 && a.y + a.height <= height.max(1) as i32);
            for b in &metrics.leaves[i + 1..] {
                assert!(
                    a.x + a.width <= b.x
                        || b.x + b.width <= a.x
                        || a.y + a.height <= b.y
                        || b.y + b.height <= a.y
                );
            }
        }
    }
    assert!(!fits_viewport(&config, u32::MAX, 100, 2));
    assert!(!fits_viewport(&config, 100, 100, i32::MAX));
}

#[test]
fn stored_layouts_can_be_read_back() {
    let mut layout = LayoutConfig::default();
    layout.color_scheme = " light ".to_string();
    layout.selected_leaf_id = Some("n8".to_string());
    layout.playlist_column_width_overrides = vec![
        PlaylistColumnWidthOverrideConfig {
            column_key: " {artist} ".to_string(),
            width_px: 99,
        },
        PlaylistColumnWidthOverrideConfig {
            column_key: "{artist}".to_string(),
            width_px: 77,
        },
        PlaylistColumnWidthOverrideConfig {
            column_key: "unknown".to_string(),
            width_px: 5,
        },
    ];
    let back = LayoutConfig::from_wire(layout.to_wire(), "format");
    assert_eq!(back.color_scheme, "light");
    assert_eq!(back.selected_leaf_id, None);
    assert_eq!(back.root, layout.root);
    assert_eq!(
        back.playlist_column_width_overrides,
        vec![PlaylistColumnWidthOverrideConfig {
            column_key: "{artist}".to_string(),
            width_px: 99,
        }]
    );
}

#[test]
fn viewer_panels_of_older_files_become_text_and_image_panels() {
    let mut stored: LayoutConfigWire = LayoutConfig::default().to_wire();
    let viewer = |leaf_id: &str, custom: bool, format: &str| LegacyViewerPanelInstanceConfig {
        leaf_id: leaf_id.to_string(),
        display_priority: ViewerPanelDisplayPriority::PreferSelection,
        metadata_source: ViewerPanelMetadataSource::ArtistBio,
        metadata_use_custom_text: custom,
        metadata_text_format: format.to_string(),
        image_source: ViewerPanelImageSource::ArtistImage,
    };
    stored.viewer_panel_instances = vec![
        viewer(" n2 ", true, " "),
        viewer("n3", false, "x"),
        viewer("n8", false, "x"),
        viewer(" ", false, "x"),
    ];
    let layout = LayoutConfig::from_wire(stored, "{title}");
    assert_eq!(layout.metadata_viewer_panel_instances.len(), 1);
    let text = &layout.metadata_viewer_panel_instances[0];
    assert_eq!(text.leaf_id, "n2");
    assert_eq!(text.metadata_source, ViewerPanelMetadataSource::CustomText);
    assert_eq!(text.metadata_text_format, "{title}");
    assert_eq!(layout.album_art_viewer_panel_instances.len(), 1);
    assert_eq!(layout.album_art_viewer_panel_instances[0].leaf_id, "n3");
    assert_eq!(
        layout.album_art_viewer_panel_instances[0].image_source,
        ViewerPanelImageSource::ArtistImage
    );
}

#[test]
fn column_keys_are_trimmed() {
    let mut columns = default_playlist_columns();
    let mut column = columns.remove(0);
    column.format = " {TITLE} ".to_string();
    assert_eq!(playlist_column_key(&column), "{title}");
    column.custom = true;
    column.name = " My ".to_string();
    assert_eq!(playlist_column_key(&column), "custom:My|{TITLE}");
    let wire = LayoutPlaylistColumnWire {
        column,
        width_px: Some(3),
    };
    assert_eq!(wire.width_px, Some(3));
}

#[test]
fn panel_codes_round_trip() {
    for code in -3..40 {
        let panel = LayoutPanelKind::from_code(code);
        let expected = if (0..=12).contains(&code) { code } else { 0 };
        assert_eq!(panel.to_code(), expected);
    }
    assert_eq!(LayoutPanelKind::ControlBar.to_code(), 2);
    assert_eq!(LayoutPanelKind::AlbumArtPane.to_code(), 9);
    assert_eq!(SplitAxis::Horizontal.to_code(), 0);
    assert_eq!(SplitAxis::Vertical.to_code(), 1);
}

#[test]
fn deleting_a_new_leaf_undoes_the_split() {
    let layout = sanitize_layout_config(&LayoutConfig::default(), 0, 0);
    let leaf = first_leaf_id(&layout.root).expect("default layout has leaves");
    let split = split_leaf(&layout, &leaf, SplitAxis::Vertical, LayoutPanelKind::Spacer)
        .expect("leaf should split");
    let mut before = Vec::new();
    ids_of(&layout.root, &mut before);
    let mut after = Vec::new();
    ids_of(&split.root, &mut after);
    let added = after
        .iter()
        .find(|id| {
            !before.contains(id)
                && panel_for_leaf_id(&split.root, id) == Some(LayoutPanelKind::Spacer)
        })
        .expect("split adds a leaf");
    assert!(delete_leaf(&layout, added).is_none());
    assert_eq!(delete_leaf(&split, added), Some(layout));
}
