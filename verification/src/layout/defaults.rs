//! The trees that a new or older layout starts from.

use crate::layout::{LayoutNode, LayoutPanelKind, NodeView, SplitAxis};
use crate::text::{append_chars, chars_of, decimal, decimal_chars, string_of, texts};
use vstd::prelude::*;

verus! {

/// Shares of the first child in the built-in splits, as the bits of single-precision numbers.
pub const RATIO_UTILITY_VOLUME: u32 = 0x3f33_3333;

pub const RATIO_TRANSPORT: u32 = 0x3f1e_b852;

pub const RATIO_TOP_ROW: u32 = 0x3da3_d70a;

pub const RATIO_ALBUM: u32 = 0x3ea3_d70a;

pub const RATIO_SIDEBAR: u32 = 0x3e8f_5c29;

pub const RATIO_TRACKS: u32 = 0x3f2e_147b;

pub const RATIO_CONTROLS: u32 = 0x3e23_d70a;

pub const RATIO_BODY: u32 = 0x3f75_c28f;

pub open spec fn leaf(id: Seq<char>, panel: LayoutPanelKind) -> NodeView {
    NodeView::Leaf { id, panel }
}

pub open spec fn split(
    id: Seq<char>,
    axis: SplitAxis,
    ratio: u32,
    minimums: (u32, u32),
    first: NodeView,
    second: NodeView,
) -> NodeView {
    NodeView::Split {
        id,
        axis,
        ratio,
        min_first: minimums.0,
        min_second: minimums.1,
        first: Box::new(first),
        second: Box::new(second),
    }
}

/// The button row over the seek bar. The five panels take the first five names, and the
/// splits, from the inside out, the other four.
pub open spec fn control_stack(ids: Seq<Seq<char>>) -> NodeView {
    let utility_volume = split(
        ids[5],
        SplitAxis::Vertical,
        RATIO_UTILITY_VOLUME,
        (120, 90),
        leaf(ids[2], LayoutPanelKind::ButtonCluster),
        leaf(ids[3], LayoutPanelKind::VolumeSlider),
    );
    let transport_right = split(
        ids[6],
        SplitAxis::Vertical,
        RATIO_TRANSPORT,
        (180, 110),
        leaf(ids[1], LayoutPanelKind::ButtonCluster),
        utility_volume,
    );
    let top_row = split(
        ids[7],
        SplitAxis::Vertical,
        RATIO_TOP_ROW,
        (32, 240),
        leaf(ids[0], LayoutPanelKind::ButtonCluster),
        transport_right,
    );
    split(
        ids[8],
        SplitAxis::Horizontal,
        RATIO_TRANSPORT,
        (32, 28),
        top_row,
        leaf(ids[4], LayoutPanelKind::SeekBar),
    )
}

/// The text panel over the image panel.
pub open spec fn album_stack(ids: Seq<Seq<char>>) -> NodeView {
    split(
        ids[0],
        SplitAxis::Horizontal,
        RATIO_ALBUM,
        (72, 120),
        leaf(ids[1], LayoutPanelKind::MetadataViewer),
        leaf(ids[2], LayoutPanelKind::AlbumArtViewer),
    )
}

/// The name of a node of the built-in tree.
pub open spec fn numbered(k: nat) -> Seq<char> {
    "n"@ + decimal(k)
}

/// The names from `n<from>` on.
pub open spec fn numbered_from(from: nat, count: nat) -> Seq<Seq<char>> {
    Seq::new(count, |k: int| numbered((from + k) as nat))
}

/// The tree of a new layout.
pub open spec fn default_root() -> NodeView {
    let tracks = split(
        numbered(6),
        SplitAxis::Vertical,
        RATIO_TRACKS,
        (220, 140),
        leaf(numbered(7), LayoutPanelKind::TrackList),
        album_stack(numbered_from(1, 3)),
    );
    let middle = split(
        numbered(4),
        SplitAxis::Vertical,
        RATIO_SIDEBAR,
        (140, 220),
        leaf(numbered(5), LayoutPanelKind::PlaylistSwitcher),
        tracks,
    );
    let body = split(
        numbered(18),
        SplitAxis::Horizontal,
        RATIO_BODY,
        (120, 20),
        middle,
        leaf(numbered(19), LayoutPanelKind::StatusBar),
    );
    split(
        numbered(17),
        SplitAxis::Horizontal,
        RATIO_CONTROLS,
        (64, 120),
        control_stack(numbered_from(8, 9)),
        body,
    )
}

fn new_leaf(id: &String, panel: LayoutPanelKind) -> (r: LayoutNode)
    ensures
        r.tree() == leaf(id@, panel),
{
    LayoutNode::Leaf { id: id.clone(), panel }
}

fn new_split(
    id: &String,
    axis: SplitAxis,
    ratio_bits: u32,
    minimums: (u32, u32),
    first: LayoutNode,
    second: LayoutNode,
) -> (r: LayoutNode)
    ensures
        r.tree() == split(id@, axis, ratio_bits, minimums, first.tree(), second.tree()),
{
    LayoutNode::Split {
        id: id.clone(),
        axis,
        ratio_bits,
        min_first_px: minimums.0,
        min_second_px: minimums.1,
        first: Box::new(first),
        second: Box::new(second),
    }
}

/// The button row over the seek bar, with the given names.
pub fn default_control_stack_subtree(ids: &Vec<String>) -> (r: LayoutNode)
    requires
        ids.len() == 9,
    ensures
        r.tree() == control_stack(texts(ids@)),
{
    let utility_volume = new_split(
        &ids[5],
        SplitAxis::Vertical,
        RATIO_UTILITY_VOLUME,
        (120, 90),
        new_leaf(&ids[2], LayoutPanelKind::ButtonCluster),
        new_leaf(&ids[3], LayoutPanelKind::VolumeSlider),
    );
    let transport_right = new_split(
        &ids[6],
        SplitAxis::Vertical,
        RATIO_TRANSPORT,
        (180, 110),
        new_leaf(&ids[1], LayoutPanelKind::ButtonCluster),
        utility_volume,
    );
    let top_row = new_split(
        &ids[7],
        SplitAxis::Vertical,
        RATIO_TOP_ROW,
        (32, 240),
        new_leaf(&ids[0], LayoutPanelKind::ButtonCluster),
        transport_right,
    );
    new_split(
        &ids[8],
        SplitAxis::Horizontal,
        RATIO_TRANSPORT,
        (32, 28),
        top_row,
        new_leaf(&ids[4], LayoutPanelKind::SeekBar),
    )
}

/// The text panel over the image panel, with the given names.
pub fn default_album_subtree(ids: &Vec<String>) -> (r: LayoutNode)
    requires
        ids.len() == 3,
    ensures
        r.tree() == album_stack(texts(ids@)),
{
    new_split(
        &ids[0],
        SplitAxis::Horizontal,
        RATIO_ALBUM,
        (72, 120),
        new_leaf(&ids[1], LayoutPanelKind::MetadataViewer),
        new_leaf(&ids[2], LayoutPanelKind::AlbumArtViewer),
    )
}

/// A name made of a prefix and a number.
pub fn numbered_id(prefix: &str, number: u64) -> (r: String)
    ensures
        r@ == prefix@ + decimal(number as nat),
{
    let mut chars = chars_of(prefix);
    append_chars(&mut chars, &decimal_chars(number));
    string_of(&chars)
}

fn numbered_ids(from: u64, count: usize) -> (r: Vec<String>)
    requires
        from + count <= u64::MAX,
    ensures
        r.len() == count,
        texts(r@) == numbered_from(from as nat, count as nat),
{
    let mut out: Vec<String> = Vec::new();
    let mut i: usize = 0;
    while i < count
        invariant
            i <= count,
            out.len() == i,
            from + count <= u64::MAX,
            forall|k: int| 0 <= k < i ==> (#[trigger] out@[k])@ == numbered((from + k) as nat),
        decreases count - i,
    {
        out.push(numbered_id("n", from + i as u64));
        i += 1;
    }
    assert(texts(out@) =~= numbered_from(from as nat, count as nat));
    out
}

/// The tree of a new layout.
pub fn build_default_layout_root() -> (r: LayoutNode)
    ensures
        r.tree() == default_root(),
{
    let album = default_album_subtree(&numbered_ids(1, 3));
    let tracks = new_split(
        &numbered_id("n", 6),
        SplitAxis::Vertical,
        RATIO_TRACKS,
        (220, 140),
        new_leaf(&numbered_id("n", 7), LayoutPanelKind::TrackList),
        album,
    );
    let middle = new_split(
        &numbered_id("n", 4),
        SplitAxis::Vertical,
        RATIO_SIDEBAR,
        (140, 220),
        new_leaf(&numbered_id("n", 5), LayoutPanelKind::PlaylistSwitcher),
        tracks,
    );
    let controls = default_control_stack_subtree(&numbered_ids(8, 9));
    let body = new_split(
        &numbered_id("n", 18),
        SplitAxis::Horizontal,
        RATIO_BODY,
        (120, 20),
        middle,
        new_leaf(&numbered_id("n", 19), LayoutPanelKind::StatusBar),
    );
    new_split(
        &numbered_id("n", 17),
        SplitAxis::Horizontal,
        RATIO_CONTROLS,
        (64, 120),
        controls,
        body,
    )
}

} // verus!
