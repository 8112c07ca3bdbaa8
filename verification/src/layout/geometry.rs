//! Placement of the leaves and splitters of a layout in a viewport.

use crate::config::{clusters_view, ButtonClusterInstanceConfig, ClusterView};
use crate::layout::tree::{HALF_BITS, ONE_BITS};
use crate::layout::{LayoutConfig, LayoutNode, LayoutPanelKind, NodeView, SplitAxis};
use crate::single::{
    nearest_whole, product, quotient, rounded, single_of, Single, HIGH_MANTISSA, LOW_MANTISSA,
};
use crate::text::{text_equal, trim, trim_text};
use vstd::arithmetic::power2::{lemma_pow2_unfold, pow2};
use vstd::prelude::*;

verus! {

/// The most actions of one button cluster.
pub const MAX_CLUSTER_ACTIONS: usize = 536870912;

/// One flattened leaf placement.
#[derive(Debug, PartialEq)]
pub struct LayoutLeafItem {
    pub id: String,
    pub panel: LayoutPanelKind,
    pub x: i32,
    pub y: i32,
    pub width: i32,
    pub height: i32,
}

/// One flattened splitter placement. The ratios are the bits of single-precision numbers.
#[derive(Debug, PartialEq)]
pub struct LayoutSplitterItem {
    pub id: String,
    pub axis: SplitAxis,
    pub x: i32,
    pub y: i32,
    pub width: i32,
    pub height: i32,
    pub ratio_bits: u32,
    pub min_ratio_bits: u32,
    pub max_ratio_bits: u32,
    pub track_start_px: i32,
    pub track_length_px: i32,
}

/// Flattened layout geometry output for rendering/editing.
#[derive(Debug, PartialEq)]
pub struct TreeLayoutMetrics {
    pub leaves: Vec<LayoutLeafItem>,
    pub splitters: Vec<LayoutSplitterItem>,
}

/// An area of the viewport.
pub struct Area {
    pub x: int,
    pub y: int,
    pub width: int,
    pub height: int,
}

/// The contents of a [`LayoutLeafItem`].
pub struct LeafItemView {
    pub id: Seq<char>,
    pub panel: LayoutPanelKind,
    pub area: Area,
}

/// The contents of a [`LayoutSplitterItem`].
pub struct SplitterView {
    pub id: Seq<char>,
    pub axis: SplitAxis,
    pub area: Area,
    pub ratio: u32,
    pub min_ratio: u32,
    pub max_ratio: u32,
    pub track_start: int,
    pub track_length: int,
}

impl View for LayoutLeafItem {
    type V = LeafItemView;

    open spec fn view(&self) -> LeafItemView {
        LeafItemView {
            id: self.id@,
            panel: self.panel,
            area: Area {
                x: self.x as int,
                y: self.y as int,
                width: self.width as int,
                height: self.height as int,
            },
        }
    }
}

impl View for LayoutSplitterItem {
    type V = SplitterView;

    open spec fn view(&self) -> SplitterView {
        SplitterView {
            id: self.id@,
            axis: self.axis,
            area: Area {
                x: self.x as int,
                y: self.y as int,
                width: self.width as int,
                height: self.height as int,
            },
            ratio: self.ratio_bits,
            min_ratio: self.min_ratio_bits,
            max_ratio: self.max_ratio_bits,
            track_start: self.track_start_px as int,
            track_length: self.track_length_px as int,
        }
    }
}

pub open spec fn leaf_items(v: Seq<LayoutLeafItem>) -> Seq<LeafItemView> {
    v.map_values(|l: LayoutLeafItem| l@)
}

pub open spec fn splitter_items(v: Seq<LayoutSplitterItem>) -> Seq<SplitterView> {
    v.map_values(|s: LayoutSplitterItem| s@)
}

pub open spec fn larger(a: int, b: int) -> int {
    if a >= b {
        a
    } else {
        b
    }
}

pub open spec fn smaller(a: int, b: int) -> int {
    if a <= b {
        a
    } else {
        b
    }
}

pub open spec fn clamped(v: int, low: int, high: int) -> int {
    if v < low {
        low
    } else if v > high {
        high
    } else {
        v
    }
}

/// The number of actions configured for a leaf; the last entry for it counts.
pub open spec fn action_count(clusters: Seq<ClusterView>, leaf_id: Seq<char>) -> nat
    decreases clusters.len(),
{
    if clusters.len() == 0 {
        0
    } else if leaf_id.len() > 0 && trim(clusters.last().leaf_id) == leaf_id {
        clusters.last().actions.len()
    } else {
        action_count(clusters.drop_last(), leaf_id)
    }
}

pub open spec fn button_cluster_kind(panel: LayoutPanelKind) -> bool {
    panel == LayoutPanelKind::ButtonCluster || panel == LayoutPanelKind::ImportButtonCluster
        || panel == LayoutPanelKind::TransportButtonCluster || panel
        == LayoutPanelKind::UtilityButtonCluster
}

/// The least width of a button cluster: buttons of 32 pixels, 8 between them, and 16 around.
pub open spec fn cluster_width(actions: nat) -> int {
    let buttons = larger(actions as int, 1);
    smaller(buttons * 32 + (buttons - 1) * 8 + 16, u32::MAX as int)
}

/// The least width and height of a leaf.
pub open spec fn leaf_min(
    id: Seq<char>,
    panel: LayoutPanelKind,
    clusters: Seq<ClusterView>,
) -> (int, int) {
    if button_cluster_kind(panel) {
        (cluster_width(action_count(clusters, id)), 32)
    } else if panel == LayoutPanelKind::StatusBar {
        (24, 20)
    } else if panel == LayoutPanelKind::NoPanel {
        (0, 0)
    } else {
        (24, 24)
    }
}

pub open spec fn stacked(a: int, b: int, splitter: int) -> int {
    smaller(a + b + splitter, u32::MAX as int)
}

/// The least width and height of a tree.
pub open spec fn node_min(n: NodeView, splitter: int, clusters: Seq<ClusterView>) -> (int, int)
    decreases n,
{
    match n {
        NodeView::Empty => (0, 0),
        NodeView::Leaf { id, panel } => leaf_min(id, panel, clusters),
        NodeView::Split { axis, first, second, .. } => {
            let a = node_min(*first, splitter, clusters);
            let b = node_min(*second, splitter, clusters);
            match axis {
                SplitAxis::Vertical => (stacked(a.0, b.0, splitter), larger(a.1, b.1)),
                SplitAxis::Horizontal => (larger(a.0, b.0), stacked(a.1, b.1, splitter)),
            }
        },
    }
}

/// A ratio brought into the range from zero to one, as mantissa and exponent; zero where it
/// is no number.
pub open spec fn ratio_value(bits: u32) -> (nat, int) {
    if bits > 0x7f80_0000 {
        (0, 0)
    } else if bits >= ONE_BITS {
        (8388608, -23)
    } else if bits < 8388608 {
        (bits as nat, -149)
    } else {
        ((8388608 + bits % 8388608) as nat, bits / 8388608 - 150)
    }
}

/// The pixels of the first child that a ratio asks for, in single precision.
pub open spec fn share(bits: u32, total: int) -> int {
    nearest_whole(product(ratio_value(bits), single_of(total as nat))) as int
}

/// The pixels of the first child. The minimum of the second one goes before that of the
/// first.
pub open spec fn first_px(bits: u32, total: int, min_first: int, min_second: int) -> int {
    if total <= 0 {
        0
    } else {
        let most = total - smaller(min_second, total);
        clamped(share(bits, total), smaller(min_first, most), most)
    }
}

/// The bits of a single-precision number.
pub open spec fn single_bits(v: (nat, int)) -> u32 {
    if v.0 == 0 {
        0
    } else {
        ((v.1 + 150) * 8388608 + v.0 - 8388608) as u32
    }
}

/// A part of a whole as the bits of a single-precision number.
pub open spec fn part_bits(part: int, whole: int) -> u32 {
    single_bits(quotient(single_of(part as nat), single_of(whole as nat)))
}

pub open spec fn at_most_one(bits: u32) -> u32 {
    if bits > ONE_BITS {
        ONE_BITS
    } else {
        bits
    }
}

/// The ratio that a placement has, and the least and greatest that the minimums leave.
pub open spec fn track_ratios(
    first: int,
    total: int,
    min_first: int,
    min_second: int,
) -> (u32, u32, u32) {
    if total <= 0 {
        (HALF_BITS, 0, ONE_BITS)
    } else {
        (
            part_bits(first, total),
            at_most_one(part_bits(min_first, total)),
            at_most_one(part_bits(larger(total - min_second, 0), total)),
        )
    }
}

/// The areas of the two children, and the splitter between them.
pub open spec fn divided(
    n: NodeView,
    area: Area,
    splitter: int,
    clusters: Seq<ClusterView>,
) -> (Area, Area, SplitterView)
    recommends
        n is Split,
{
    let id = n->Split_id;
    let axis = n->axis;
    let a = node_min(*n->first, splitter, clusters);
    let b = node_min(*n->second, splitter, clusters);
    match axis {
        SplitAxis::Vertical => {
            let total = larger(area.width - splitter, 0);
            let first = first_px(n->ratio, total, a.0, b.0);
            let ratios = track_ratios(first, total, a.0, b.0);
            (
                Area { width: first, ..area },
                Area { x: area.x + first + splitter, width: total - first, ..area },
                SplitterView {
                    id,
                    axis,
                    area: Area { x: area.x + first, width: splitter, ..area },
                    ratio: ratios.0,
                    min_ratio: ratios.1,
                    max_ratio: ratios.2,
                    track_start: area.x,
                    track_length: larger(total, 1),
                },
            )
        },
        SplitAxis::Horizontal => {
            let total = larger(area.height - splitter, 0);
            let first = first_px(n->ratio, total, a.1, b.1);
            let ratios = track_ratios(first, total, a.1, b.1);
            (
                Area { height: first, ..area },
                Area { y: area.y + first + splitter, height: total - first, ..area },
                SplitterView {
                    id,
                    axis,
                    area: Area { y: area.y + first, height: splitter, ..area },
                    ratio: ratios.0,
                    min_ratio: ratios.1,
                    max_ratio: ratios.2,
                    track_start: area.y,
                    track_length: larger(total, 1),
                },
            )
        },
    }
}

/// The leaves that are shown in an area, in depth-first order.
pub open spec fn placed_leaves(
    n: NodeView,
    area: Area,
    splitter: int,
    clusters: Seq<ClusterView>,
) -> Seq<LeafItemView>
    decreases n,
{
    match n {
        NodeView::Empty => Seq::empty(),
        NodeView::Leaf { id, panel } => if panel == LayoutPanelKind::NoPanel || area.width <= 0
            || area.height <= 0 {
            Seq::empty()
        } else {
            seq![LeafItemView { id, panel, area }]
        },
        NodeView::Split { first, second, .. } => {
            let parts = divided(n, area, splitter, clusters);
            placed_leaves(*first, parts.0, splitter, clusters) + placed_leaves(
                *second,
                parts.1,
                splitter,
                clusters,
            )
        },
    }
}

/// The splitters of an area, a split before its children.
pub open spec fn placed_splitters(
    n: NodeView,
    area: Area,
    splitter: int,
    clusters: Seq<ClusterView>,
) -> Seq<SplitterView>
    decreases n,
{
    match n {
        NodeView::Split { first, second, .. } => {
            let parts = divided(n, area, splitter, clusters);
            seq![parts.2] + placed_splitters(*first, parts.0, splitter, clusters)
                + placed_splitters(*second, parts.1, splitter, clusters)
        },
        _ => Seq::empty(),
    }
}

/// The most times that one goes to a second child on the way down.
pub open spec fn reach(n: NodeView) -> int
    decreases n,
{
    match n {
        NodeView::Split { first, second, .. } => larger(reach(*first), reach(*second) + 1),
        _ => 0,
    }
}

pub open spec fn viewport(width: u32, height: u32) -> Area {
    Area { x: 0, y: 0, width: larger(width as int, 1), height: larger(height as int, 1) }
}

/// Every coordinate of an area fits in an `i32`.
pub open spec fn placeable(
    n: NodeView,
    area: Area,
    splitter: int,
    clusters: Seq<ClusterView>,
) -> bool {
    &&& area.x >= 0 && area.y >= 0 && area.width >= 0 && area.height >= 0
    &&& area.x + area.width + reach(n) * splitter <= i32::MAX
    &&& area.y + area.height + reach(n) * splitter <= i32::MAX
    &&& node_min(n, splitter, clusters).0 <= i32::MAX
    &&& node_min(n, splitter, clusters).1 <= i32::MAX
}

fn action_count_of(clusters: &Vec<ButtonClusterInstanceConfig>, leaf_id: &str) -> (r: usize)
    ensures
        r == action_count(clusters_view(clusters@), leaf_id@),
        countable(clusters@) ==> r <= MAX_CLUSTER_ACTIONS,
{
    let mut i: usize = clusters.len();
    let ghost all = clusters_view(clusters@);
    assert(all.take(i as int) =~= all);
    if leaf_id.is_empty() {
        proof {
            lemma_no_actions(all, leaf_id@);
        }
        return 0;
    }
    while i > 0
        invariant
            i <= clusters.len(),
            leaf_id@.len() > 0,
            all == clusters_view(clusters@),
            action_count(all, leaf_id@) == action_count(all.take(i as int), leaf_id@),
        decreases i,
    {
        let entry = &clusters[i - 1];
        proof {
            assert(all.take(i as int).drop_last() =~= all.take(i - 1));
            assert(all.take(i as int).last() == entry@);
        }
        if text_equal(&trim_text(&entry.leaf_id), leaf_id) {
            return entry.actions.len();
        }
        i -= 1;
    }
    0
}

proof fn lemma_no_actions(clusters: Seq<ClusterView>, leaf_id: Seq<char>)
    requires
        leaf_id.len() == 0,
    ensures
        action_count(clusters, leaf_id) == 0,
    decreases clusters.len(),
{
    if clusters.len() > 0 {
        lemma_no_actions(clusters.drop_last(), leaf_id);
    }
}

/// No cluster has more actions than can be laid out.
pub open spec fn countable(clusters: Seq<ButtonClusterInstanceConfig>) -> bool {
    forall|k: int|
        0 <= k < clusters.len() ==> (#[trigger] clusters[k]).actions@.len() <= MAX_CLUSTER_ACTIONS
}

fn button_cluster_panel_min_size_px(action_count: usize) -> (r: (u32, u32))
    requires
        action_count <= MAX_CLUSTER_ACTIONS,
    ensures
        r.0 == cluster_width(action_count as nat),
        r.1 == 32,
{
    let buttons: u64 = if action_count >= 1 {
        action_count as u64
    } else {
        1
    };
    let width: u64 = buttons * 32 + (buttons - 1) * 8 + 16;
    if width > u32::MAX as u64 {
        (u32::MAX, 32)
    } else {
        (width as u32, 32)
    }
}

fn panel_min_size_for_leaf(
    leaf_id: &str,
    panel: LayoutPanelKind,
    clusters: &Vec<ButtonClusterInstanceConfig>,
) -> (r: (u32, u32))
    requires
        countable(clusters@),
    ensures
        (r.0 as int, r.1 as int) == leaf_min(leaf_id@, panel, clusters_view(clusters@)),
{
    match panel {
        LayoutPanelKind::ButtonCluster
        | LayoutPanelKind::ImportButtonCluster
        | LayoutPanelKind::TransportButtonCluster
        | LayoutPanelKind::UtilityButtonCluster => {
            button_cluster_panel_min_size_px(action_count_of(clusters, leaf_id))
        },
        LayoutPanelKind::StatusBar => (24, 20),
        LayoutPanelKind::NoPanel => (0, 0),
        _ => (24, 24),
    }
}

fn max_u32(a: u32, b: u32) -> (r: u32)
    ensures
        r == larger(a as int, b as int),
{
    if a >= b {
        a
    } else {
        b
    }
}

fn min_size_for_node(
    node: &LayoutNode,
    splitter: u32,
    clusters: &Vec<ButtonClusterInstanceConfig>,
) -> (r: (u32, u32))
    requires
        countable(clusters@),
    ensures
        (r.0 as int, r.1 as int) == node_min(
            node.tree(),
            splitter as int,
            clusters_view(clusters@),
        ),
    decreases node,
{
    match node {
        LayoutNode::Empty => (0, 0),
        LayoutNode::Leaf { id, panel } => panel_min_size_for_leaf(id, *panel, clusters),
        LayoutNode::Split { axis, first, second, .. } => {
            let a = min_size_for_node(first, splitter, clusters);
            let b = min_size_for_node(second, splitter, clusters);
            match axis {
                SplitAxis::Vertical => (
                    a.0.saturating_add(b.0).saturating_add(splitter),
                    max_u32(a.1, b.1),
                ),
                SplitAxis::Horizontal => (
                    max_u32(a.0, b.0),
                    a.1.saturating_add(b.1).saturating_add(splitter),
                ),
            }
        },
    }
}

fn single_of_ratio(bits: u32) -> (r: Single)
    ensures
        r.pair() == ratio_value(bits),
        r.mantissa <= HIGH_MANTISSA,
        -300 <= r.exponent <= 300,
{
    if bits > 0x7f80_0000 {
        Single { mantissa: 0, exponent: 0 }
    } else if bits >= ONE_BITS {
        Single { mantissa: 8388608, exponent: -23 }
    } else if bits < 8388608 {
        Single { mantissa: bits as u64, exponent: -149 }
    } else {
        Single {
            mantissa: 8388608 + (bits % 8388608) as u64,
            exponent: (bits / 8388608) as i32 - 150,
        }
    }
}

/// The pixels of the first of two children.
fn clamp_ratio(bits: u32, total: i32, min_first: i32, min_second: i32) -> (r: i32)
    requires
        total >= 0,
        min_first >= 0,
        min_second >= 0,
    ensures
        r == first_px(bits, total as int, min_first as int, min_second as int),
        0 <= r <= total,
{
    if total == 0 {
        return 0;
    }
    let most: i32 = total - (if min_second <= total {
        min_second
    } else {
        total
    });
    let low: i32 = if min_first <= most {
        min_first
    } else {
        most
    };
    let asked: u64 = single_of_ratio(bits).times(Single::of(total as u64)).nearest();
    if asked < low as u64 {
        low
    } else if asked > most as u64 {
        most
    } else {
        asked as i32
    }
}

proof fn lemma_rounded_up(n: nat, d: nat, e: int, j: nat)
    requires
        0 < n < HIGH_MANTISSA * d,
        d > 0,
        n * pow2(j) >= LOW_MANTISSA * d,
    ensures
        e - j <= rounded(n, d, e).1 <= e,
        LOW_MANTISSA <= rounded(n, d, e).0 <= HIGH_MANTISSA,
    decreases j,
{
    if n < LOW_MANTISSA * d {
        if j == 0 {
            vstd::arithmetic::power2::lemma2_to64();
            assert(n * pow2(0) == n) by (nonlinear_arith)
                requires
                    pow2(0) == 1,
            ;
        } else {
            lemma_pow2_unfold(j);
            let p = pow2((j - 1) as nat);
            assert((2 * n) * p == n * (2 * p)) by (nonlinear_arith);
            lemma_rounded_up(2 * n, d, e - 1, (j - 1) as nat);
        }
    } else {
        assert(8388608 <= n / d < 16777216) by (nonlinear_arith)
            requires
                d > 0,
                8388608 * d <= n < 16777216 * d,
        ;
    }
}

/// Rounding a number of so many bits drops them from the exponent at most.
proof fn lemma_rounded_down(n: nat, d: nat, e: int, j: nat)
    requires
        d > 0,
        n >= LOW_MANTISSA * d,
        n < HIGH_MANTISSA * d * pow2(j),
    ensures
        e <= rounded(n, d, e).1 <= e + j,
        LOW_MANTISSA <= rounded(n, d, e).0 <= HIGH_MANTISSA,
    decreases j,
{
    if n >= HIGH_MANTISSA * d {
        if j == 0 {
            vstd::arithmetic::power2::lemma2_to64();
            assert(HIGH_MANTISSA * d * pow2(0) == HIGH_MANTISSA * d) by (nonlinear_arith)
                requires
                    pow2(0) == 1,
            ;
        } else {
            lemma_pow2_unfold(j);
            let p = pow2((j - 1) as nat);
            assert(16777216 * d * (2 * p) == 16777216 * (2 * d) * p) by (nonlinear_arith);
            lemma_rounded_down(n, 2 * d, e + 1, (j - 1) as nat);
        }
    } else {
        assert(8388608 <= n / d < 16777216) by (nonlinear_arith)
            requires
                d > 0,
                8388608 * d <= n < 16777216 * d,
        ;
    }
}

/// A pixel count in single precision has an exponent from -23 to 8.
proof fn lemma_single_exponent(n: nat)
    requires
        0 < n <= i32::MAX,
    ensures
        -23 <= single_of(n).1 <= 8,
        LOW_MANTISSA <= single_of(n).0 <= HIGH_MANTISSA,
{
    vstd::arithmetic::power2::lemma2_to64();
    if n >= LOW_MANTISSA {
        lemma_rounded_down(n, 1, 0, 8);
    } else {
        assert(pow2(23) == 8388608);
        lemma_rounded_up(n, 1, 0, 23);
    }
}

/// The bits of a part of a whole are in range.
pub proof fn lemma_part_range(part: nat, whole: nat)
    requires
        part <= i32::MAX,
        0 < whole <= i32::MAX,
    ensures
        ({
            let q = quotient(single_of(part), single_of(whole));
            q.0 > 0 ==> -149 <= q.1 <= 100 && LOW_MANTISSA <= q.0 <= HIGH_MANTISSA
        }),
{
    lemma_single_exponent(whole);
    if part > 0 {
        lemma_single_exponent(part);
        vstd::arithmetic::power2::lemma2_to64();
        let a = single_of(part);
        let b = single_of(whole);
        assert(pow2(24) == 16777216);
        assert(a.0 * pow2(24) >= 8388608 * b.0) by (nonlinear_arith)
            requires
                a.0 >= 8388608,
                b.0 <= 16777216,
                pow2(24) == 16777216,
        ;
        lemma_rounded_up(a.0, b.0, a.1 - b.1, 24);
    }
}

fn part_ratio_bits(part: i32, whole: i32) -> (r: u32)
    requires
        part >= 0,
        whole > 0,
    ensures
        r == part_bits(part as int, whole as int),
{
    let q = Single::of(part as u64).divided_by(Single::of(whole as u64));
    proof {
        lemma_part_range(part as nat, whole as nat);
    }
    if q.mantissa == 0 {
        0
    } else {
        let high: i64 = (q.exponent as i64 + 150) * 8388608;
        (high + q.mantissa as i64 - 8388608) as u32
    }
}

fn clamp_to_one(bits: u32) -> (r: u32)
    ensures
        r == at_most_one(bits),
{
    if bits > ONE_BITS {
        ONE_BITS
    } else {
        bits
    }
}

fn ratios_of(first: i32, total: i32, min_first: i32, min_second: i32) -> (r: (u32, u32, u32))
    requires
        0 <= first <= total,
        min_first >= 0,
        min_second >= 0,
    ensures
        r == track_ratios(first as int, total as int, min_first as int, min_second as int),
{
    if total == 0 {
        (HALF_BITS, 0, ONE_BITS)
    } else {
        let rest: i32 = if total >= min_second {
            total - min_second
        } else {
            0
        };
        (
            part_ratio_bits(first, total),
            clamp_to_one(part_ratio_bits(min_first, total)),
            clamp_to_one(part_ratio_bits(rest, total)),
        )
    }
}

#[derive(Clone, Copy)]
struct Rect {
    x: i32,
    y: i32,
    width: i32,
    height: i32,
}

impl Rect {
    spec fn area(self) -> Area {
        Area {
            x: self.x as int,
            y: self.y as int,
            width: self.width as int,
            height: self.height as int,
        }
    }
}

proof fn lemma_reach_positive(n: NodeView)
    ensures
        reach(n) >= 0,
    decreases n,
{
    match n {
        NodeView::Split { first, second, .. } => {
            lemma_reach_positive(*first);
            lemma_reach_positive(*second);
        },
        _ => {},
    }
}

pub proof fn lemma_min_positive(n: NodeView, splitter: int, clusters: Seq<ClusterView>)
    requires
        splitter >= 0,
    ensures
        0 <= node_min(n, splitter, clusters).0 <= u32::MAX,
        0 <= node_min(n, splitter, clusters).1 <= u32::MAX,
    decreases n,
{
    match n {
        NodeView::Split { first, second, .. } => {
            lemma_min_positive(*first, splitter, clusters);
            lemma_min_positive(*second, splitter, clusters);
        },
        _ => {},
    }
}

/// What holds of an area holds of its parts.
proof fn lemma_parts_placeable(n: NodeView, area: Area, splitter: int, clusters: Seq<ClusterView>)
    requires
        n is Split,
        splitter >= 0,
        placeable(n, area, splitter, clusters),
    ensures
        ({
            let parts = divided(n, area, splitter, clusters);
            &&& placeable(*n->first, parts.0, splitter, clusters)
            &&& placeable(*n->second, parts.1, splitter, clusters)
            &&& 0 <= node_min(*n->first, splitter, clusters).0 <= i32::MAX
            &&& 0 <= node_min(*n->first, splitter, clusters).1 <= i32::MAX
            &&& 0 <= node_min(*n->second, splitter, clusters).0 <= i32::MAX
            &&& 0 <= node_min(*n->second, splitter, clusters).1 <= i32::MAX
            &&& splitter <= i32::MAX
            &&& area.x + larger(area.width - splitter, 0) + splitter <= i32::MAX
            &&& area.y + larger(area.height - splitter, 0) + splitter <= i32::MAX
        }),
{
    let f = *n->first;
    let s = *n->second;
    lemma_reach_positive(f);
    lemma_reach_positive(s);
    lemma_min_positive(f, splitter, clusters);
    lemma_min_positive(s, splitter, clusters);
    let rn = reach(n);
    let rf = reach(f);
    let rs = reach(s);
    assert(rf * splitter <= rn * splitter && rs * splitter + splitter <= rn * splitter && 0 <= rf
        * splitter && 0 <= rs * splitter) by (nonlinear_arith)
        requires
            0 <= rf <= rn,
            0 <= rs,
            rs + 1 <= rn,
            splitter >= 0,
    ;
}

fn layout_node_recursive(
    node: &LayoutNode,
    rect: Rect,
    splitter: i32,
    clusters: &Vec<ButtonClusterInstanceConfig>,
    out: &mut TreeLayoutMetrics,
)
    requires
        splitter >= 0,
        countable(clusters@),
        placeable(node.tree(), rect.area(), splitter as int, clusters_view(clusters@)),
    ensures
        leaf_items(final(out).leaves@) == leaf_items(old(out).leaves@) + placed_leaves(
            node.tree(),
            rect.area(),
            splitter as int,
            clusters_view(clusters@),
        ),
        splitter_items(final(out).splitters@) == splitter_items(old(out).splitters@)
            + placed_splitters(
            node.tree(),
            rect.area(),
            splitter as int,
            clusters_view(clusters@),
        ),
    decreases node,
{
    let ghost all = clusters_view(clusters@);
    let ghost n = node.tree();
    let ghost leaves0 = leaf_items(out.leaves@);
    let ghost splitters0 = splitter_items(out.splitters@);
    match node {
        LayoutNode::Empty => {
            assert(leaves0 =~= leaves0 + placed_leaves(n, rect.area(), splitter as int, all));
            assert(splitters0 =~= splitters0 + placed_splitters(
                n,
                rect.area(),
                splitter as int,
                all,
            ));
        },
        LayoutNode::Leaf { id, panel } => {
            assert(splitters0 =~= splitters0 + placed_splitters(
                n,
                rect.area(),
                splitter as int,
                all,
            ));
            if *panel == LayoutPanelKind::NoPanel || rect.width <= 0 || rect.height <= 0 {
                assert(leaves0 =~= leaves0 + placed_leaves(n, rect.area(), splitter as int, all));
                return;
            }
            out.leaves.push(
                LayoutLeafItem {
                    id: id.clone(),
                    panel: *panel,
                    x: rect.x,
                    y: rect.y,
                    width: rect.width,
                    height: rect.height,
                },
            );
            assert(leaf_items(out.leaves@) =~= leaves0 + placed_leaves(
                n,
                rect.area(),
                splitter as int,
                all,
            ));
        },
        LayoutNode::Split { id, axis, ratio_bits, first, second, .. } => {
            proof {
                lemma_parts_placeable(n, rect.area(), splitter as int, all);
            }
            let ghost parts = divided(n, rect.area(), splitter as int, all);
            let a = min_size_for_node(first, splitter as u32, clusters);
            let b = min_size_for_node(second, splitter as u32, clusters);
            let (item, first_rect, second_rect) = match axis {
                SplitAxis::Vertical => {
                    let total: i32 = if rect.width > splitter {
                        rect.width - splitter
                    } else {
                        0
                    };
                    let min_first: i32 = a.0 as i32;
                    let min_second: i32 = b.0 as i32;
                    let first_w: i32 = clamp_ratio(*ratio_bits, total, min_first, min_second);
                    let ratios = ratios_of(first_w, total, min_first, min_second);
                    let split_x: i32 = rect.x + first_w;
                    (
                        LayoutSplitterItem {
                            id: id.clone(),
                            axis: *axis,
                            x: split_x,
                            y: rect.y,
                            width: splitter,
                            height: rect.height,
                            ratio_bits: ratios.0,
                            min_ratio_bits: ratios.1,
                            max_ratio_bits: ratios.2,
                            track_start_px: rect.x,
                            track_length_px: if total >= 1 {
                                total
                            } else {
                                1
                            },
                        },
                        Rect { x: rect.x, y: rect.y, width: first_w, height: rect.height },
                        Rect {
                            x: split_x + splitter,
                            y: rect.y,
                            width: total - first_w,
                            height: rect.height,
                        },
                    )
                },
                SplitAxis::Horizontal => {
                    let total: i32 = if rect.height > splitter {
                        rect.height - splitter
                    } else {
                        0
                    };
                    let min_first: i32 = a.1 as i32;
                    let min_second: i32 = b.1 as i32;
                    let first_h: i32 = clamp_ratio(*ratio_bits, total, min_first, min_second);
                    let ratios = ratios_of(first_h, total, min_first, min_second);
                    let split_y: i32 = rect.y + first_h;
                    (
                        LayoutSplitterItem {
                            id: id.clone(),
                            axis: *axis,
                            x: rect.x,
                            y: split_y,
                            width: rect.width,
                            height: splitter,
                            ratio_bits: ratios.0,
                            min_ratio_bits: ratios.1,
                            max_ratio_bits: ratios.2,
                            track_start_px: rect.y,
                            track_length_px: if total >= 1 {
                                total
                            } else {
                                1
                            },
                        },
                        Rect { x: rect.x, y: rect.y, width: rect.width, height: first_h },
                        Rect {
                            x: rect.x,
                            y: split_y + splitter,
                            width: rect.width,
                            height: total - first_h,
                        },
                    )
                },
            };
            assert(item@ == parts.2);
            assert(first_rect.area() == parts.0);
            assert(second_rect.area() == parts.1);
            out.splitters.push(item);
            assert(splitter_items(out.splitters@) =~= splitters0.push(parts.2));
            layout_node_recursive(first, first_rect, splitter, clusters, out);
            layout_node_recursive(second, second_rect, splitter, clusters, out);
            assert(leaf_items(out.leaves@) =~= leaves0 + placed_leaves(
                n,
                rect.area(),
                splitter as int,
                all,
            ));
            assert(splitter_items(out.splitters@) =~= splitters0 + placed_splitters(
                n,
                rect.area(),
                splitter as int,
                all,
            ));
        },
    }
}

fn reach_within(node: &LayoutNode, limit: u32) -> (r: bool)
    ensures
        r == (reach(node.tree()) <= limit),
    decreases node,
{
    match node {
        LayoutNode::Split { first, second, .. } => {
            proof {
                lemma_reach_positive(second.tree());
            }
            limit >= 1 && reach_within(second, limit - 1) && reach_within(first, limit)
        },
        _ => true,
    }
}

/// Whether all coordinates of a layout in a viewport fit in an `i32`.
pub fn fits_viewport(
    layout: &LayoutConfig,
    viewport_width_px: u32,
    viewport_height_px: u32,
    splitter_thickness_px: i32,
) -> (r: bool)
    ensures
        r == (countable(layout.button_cluster_instances@) && placeable(
            layout@.root,
            viewport(viewport_width_px, viewport_height_px),
            larger(splitter_thickness_px as int, 0),
            layout@.button_clusters,
        )),
{
    let clusters = &layout.button_cluster_instances;
    let mut i: usize = 0;
    while i < clusters.len()
        invariant
            i <= clusters.len(),
            clusters@ == layout.button_cluster_instances@,
            forall|k: int|
                0 <= k < i ==> (#[trigger] clusters@[k]).actions@.len() <= MAX_CLUSTER_ACTIONS,
        decreases clusters.len() - i,
    {
        if clusters[i].actions.len() > MAX_CLUSTER_ACTIONS {
            return false;
        }
        i += 1;
    }
    let splitter: u32 = if splitter_thickness_px > 0 {
        splitter_thickness_px as u32
    } else {
        0
    };
    proof {
        lemma_reach_positive(layout@.root);
        assert(reach(layout@.root) * splitter >= 0) by (nonlinear_arith)
            requires
                reach(layout@.root) >= 0,
                splitter >= 0,
        ;
    }
    let least = min_size_for_node(&layout.root, splitter, clusters);
    let size: u32 = max_u32(max_u32(viewport_width_px, viewport_height_px), 1);
    if size > 0x7fff_ffff || least.0 > 0x7fff_ffff || least.1 > 0x7fff_ffff {
        return false;
    }
    let room: u32 = 0x7fff_ffff - size;
    if splitter == 0 {
        assert(reach(layout@.root) * 0 == 0);
        return true;
    }
    proof {
        let deep = reach(layout@.root);
        assert(deep * splitter <= room <==> deep <= room as int / splitter as int)
            by (nonlinear_arith)
            requires
                splitter > 0,
                room >= 0,
                deep >= 0,
        ;
    }
    reach_within(&layout.root, room / splitter)
}

/// Computes flattened leaf/splitter geometry from the split-tree.
pub fn compute_tree_layout_metrics(
    layout: &LayoutConfig,
    viewport_width_px: u32,
    viewport_height_px: u32,
    splitter_thickness_px: i32,
) -> (r: TreeLayoutMetrics)
    requires
        countable(layout.button_cluster_instances@),
        placeable(
            layout@.root,
            viewport(viewport_width_px, viewport_height_px),
            larger(splitter_thickness_px as int, 0),
            layout@.button_clusters,
        ),
    ensures
        leaf_items(r.leaves@) == placed_leaves(
            layout@.root,
            viewport(viewport_width_px, viewport_height_px),
            larger(splitter_thickness_px as int, 0),
            layout@.button_clusters,
        ),
        splitter_items(r.splitters@) == placed_splitters(
            layout@.root,
            viewport(viewport_width_px, viewport_height_px),
            larger(splitter_thickness_px as int, 0),
            layout@.button_clusters,
        ),
{
    let mut out = TreeLayoutMetrics { leaves: Vec::new(), splitters: Vec::new() };
    let splitter: i32 = if splitter_thickness_px > 0 {
        splitter_thickness_px
    } else {
        0
    };
    proof {
        lemma_reach_positive(layout@.root);
        assert(reach(layout@.root) * splitter >= 0) by (nonlinear_arith)
            requires
                reach(layout@.root) >= 0,
                splitter >= 0,
        ;
    }
    let rect = Rect {
        x: 0,
        y: 0,
        width: max_u32(viewport_width_px, 1) as i32,
        height: max_u32(viewport_height_px, 1) as i32,
    };
    assert(rect.area() == viewport(viewport_width_px, viewport_height_px));
    assert(leaf_items(out.leaves@) =~= Seq::empty());
    assert(splitter_items(out.splitters@) =~= Seq::empty());
    layout_node_recursive(
        &layout.root,
        rect,
        splitter,
        &layout.button_cluster_instances,
        &mut out,
    );
    assert(leaf_items(out.leaves@) =~= placed_leaves(
        layout@.root,
        rect.area(),
        splitter as int,
        layout@.button_clusters,
    ));
    assert(splitter_items(out.splitters@) =~= placed_splitters(
        layout@.root,
        rect.area(),
        splitter as int,
        layout@.button_clusters,
    ));
    out
}

} // verus!
