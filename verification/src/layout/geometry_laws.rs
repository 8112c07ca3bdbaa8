//! What holds of every placement.

use crate::config::ClusterView;
use crate::layout::geometry::{
    action_count, cluster_width, divided, first_px, larger, leaf_min, lemma_min_positive,
    lemma_part_range, node_min, part_bits, placed_leaves, placed_splitters, ratio_value, share,
    track_ratios, viewport, Area, LeafItemView,
};
use crate::layout::tree::{leaves, ONE_BITS};
use crate::layout::{LayoutPanelKind, NodeView, SplitAxis};
use crate::single::{
    fractions_keep_their_order, lemma_rounded, product, quotient, single_of,
    whole_divided_by_itself,
};
use crate::single_laws::fractions_are_near;
use crate::text::trim;
use vstd::arithmetic::power2::{lemma_pow2_pos, pow2};
use vstd::prelude::*;

verus! {

/// `a` lies in `b`.
pub open spec fn inside(a: Area, b: Area) -> bool {
    &&& b.x <= a.x && a.x + a.width <= b.x + b.width
    &&& b.y <= a.y && a.y + a.height <= b.y + b.height
}

/// Two areas that have no pixel in common.
pub open spec fn apart(a: Area, b: Area) -> bool {
    a.x + a.width <= b.x || b.x + b.width <= a.x || a.y + a.height <= b.y || b.y + b.height <= a.y
}

/// The first child gets no negative width and no more than there is. Where there is room for
/// both minimums, both are kept.
pub proof fn shares_keep_the_minimums(bits: u32, total: int, min_first: int, min_second: int)
    requires
        min_first >= 0,
        min_second >= 0,
        total >= 0,
    ensures
        0 <= first_px(bits, total, min_first, min_second) <= total,
        min_first + min_second <= total ==> min_first <= first_px(
            bits,
            total,
            min_first,
            min_second,
        ) <= total - min_second,
{
}

proof fn lemma_no_room(n: NodeView, area: Area, splitter: int, clusters: Seq<ClusterView>)
    requires
        splitter >= 0,
        area.width <= 0 || area.height <= 0,
    ensures
        placed_leaves(n, area, splitter, clusters).len() == 0,
    decreases n,
{
    match n {
        NodeView::Split { axis, ratio, first, second, .. } => {
            let parts = divided(n, area, splitter, clusters);
            lemma_min_positive(*first, splitter, clusters);
            lemma_min_positive(*second, splitter, clusters);
            lemma_no_room(*first, parts.0, splitter, clusters);
            lemma_no_room(*second, parts.1, splitter, clusters);
        },
        _ => {},
    }
}

/// Every leaf that is shown lies in the area and has a size.
pub proof fn leaves_lie_inside(n: NodeView, area: Area, splitter: int, clusters: Seq<ClusterView>)
    requires
        splitter >= 0,
    ensures
        forall|i: int|
            0 <= i < placed_leaves(n, area, splitter, clusters).len() ==> {
                let item = #[trigger] placed_leaves(n, area, splitter, clusters)[i];
                inside(item.area, area) && item.area.width > 0 && item.area.height > 0
            },
    decreases n,
{
    match n {
        NodeView::Split { axis, ratio, first, second, .. } => {
            let parts = divided(n, area, splitter, clusters);
            let a = placed_leaves(*first, parts.0, splitter, clusters);
            let b = placed_leaves(*second, parts.1, splitter, clusters);
            lemma_min_positive(*first, splitter, clusters);
            lemma_min_positive(*second, splitter, clusters);
            if area.width <= 0 || area.height <= 0 {
                lemma_no_room(n, area, splitter, clusters);
            } else if parts.0.width + parts.1.width <= 0 || parts.0.height + parts.1.height <= 0 {
                lemma_no_room(*first, parts.0, splitter, clusters);
                lemma_no_room(*second, parts.1, splitter, clusters);
            } else {
                leaves_lie_inside(*first, parts.0, splitter, clusters);
                leaves_lie_inside(*second, parts.1, splitter, clusters);
                assert(inside(parts.0, area));
                assert(inside(parts.1, area));
                let all = placed_leaves(n, area, splitter, clusters);
                assert forall|i: int| 0 <= i < all.len() implies ({
                    let item = #[trigger] all[i];
                    inside(item.area, area) && item.area.width > 0 && item.area.height > 0
                }) by {
                    if i < a.len() {
                        assert(all[i] == a[i]);
                    } else {
                        assert(all[i] == b[i - a.len()]);
                    }
                }
            }
        },
        _ => {},
    }
}

/// No two leaves that are shown overlap.
pub proof fn leaves_do_not_overlap(
    n: NodeView,
    area: Area,
    splitter: int,
    clusters: Seq<ClusterView>,
    i: int,
    j: int,
)
    requires
        splitter >= 0,
        0 <= i < j < placed_leaves(n, area, splitter, clusters).len(),
    ensures
        apart(
            placed_leaves(n, area, splitter, clusters)[i].area,
            placed_leaves(n, area, splitter, clusters)[j].area,
        ),
    decreases n,
{
    match n {
        NodeView::Split { first, second, .. } => {
            let parts = divided(n, area, splitter, clusters);
            let a = placed_leaves(*first, parts.0, splitter, clusters);
            let b = placed_leaves(*second, parts.1, splitter, clusters);
            let all = placed_leaves(n, area, splitter, clusters);
            lemma_min_positive(*first, splitter, clusters);
            lemma_min_positive(*second, splitter, clusters);
            if j < a.len() {
                assert(all[i] == a[i] && all[j] == a[j]);
                leaves_do_not_overlap(*first, parts.0, splitter, clusters, i, j);
            } else if i >= a.len() {
                assert(all[i] == b[i - a.len()] && all[j] == b[j - a.len()]);
                leaves_do_not_overlap(
                    *second,
                    parts.1,
                    splitter,
                    clusters,
                    i - a.len(),
                    j - a.len(),
                );
            } else {
                assert(all[i] == a[i] && all[j] == b[j - a.len()]);
                leaves_lie_inside(*first, parts.0, splitter, clusters);
                leaves_lie_inside(*second, parts.1, splitter, clusters);
                assert(apart(parts.0, parts.1));
            }
        },
        _ => {},
    }
}

/// A leaf that has something to show.
pub open spec fn shows() -> spec_fn((Seq<char>, LayoutPanelKind)) -> bool {
    |l: (Seq<char>, LayoutPanelKind)| l.1 != LayoutPanelKind::NoPanel
}

/// The names and panels of placed leaves.
pub open spec fn placed_panels(items: Seq<LeafItemView>) -> Seq<(Seq<char>, LayoutPanelKind)> {
    items.map_values(|l: LeafItemView| (l.id, l.panel))
}

/// Where the minimum size of the tree fits, every leaf with a panel is shown, in order, and
/// has at least the minimum size of its panel.
pub proof fn every_panel_gets_its_room(
    n: NodeView,
    area: Area,
    splitter: int,
    clusters: Seq<ClusterView>,
)
    requires
        splitter >= 0,
        node_min(n, splitter, clusters).0 <= area.width,
        node_min(n, splitter, clusters).1 <= area.height,
        node_min(n, splitter, clusters).0 < u32::MAX,
        node_min(n, splitter, clusters).1 < u32::MAX,
    ensures
        placed_panels(placed_leaves(n, area, splitter, clusters)) == leaves(n).filter(shows()),
        forall|i: int|
            0 <= i < placed_leaves(n, area, splitter, clusters).len() ==> {
                let item = #[trigger] placed_leaves(n, area, splitter, clusters)[i];
                item.area.width >= leaf_min(item.id, item.panel, clusters).0 && item.area.height
                    >= leaf_min(item.id, item.panel, clusters).1
            },
    decreases n,
{
    let all = placed_leaves(n, area, splitter, clusters);
    match n {
        NodeView::Empty => {
            reveal(Seq::filter);
            assert(placed_panels(all) =~= leaves(n).filter(shows()));
        },
        NodeView::Leaf { id, panel } => {
            reveal_with_fuel(Seq::filter, 2);
            let one = leaves(n);
            assert(one.drop_last() =~= Seq::empty());
            assert(one.last() == (id, panel));
            assert(placed_panels(all) =~= one.filter(shows()));
        },
        NodeView::Split { first, second, .. } => {
            let parts = divided(n, area, splitter, clusters);
            let a = placed_leaves(*first, parts.0, splitter, clusters);
            let b = placed_leaves(*second, parts.1, splitter, clusters);
            lemma_min_positive(*first, splitter, clusters);
            lemma_min_positive(*second, splitter, clusters);
            every_panel_gets_its_room(*first, parts.0, splitter, clusters);
            every_panel_gets_its_room(*second, parts.1, splitter, clusters);
            Seq::filter_distributes_over_add(leaves(*first), leaves(*second), shows());
            assert(placed_panels(all) =~= placed_panels(a) + placed_panels(b));
            assert forall|i: int| 0 <= i < all.len() implies ({
                let item = #[trigger] all[i];
                item.area.width >= leaf_min(item.id, item.panel, clusters).0 && item.area.height
                    >= leaf_min(item.id, item.panel, clusters).1
            }) by {
                if i < a.len() {
                    assert(all[i] == a[i]);
                } else {
                    assert(all[i] == b[i - a.len()]);
                }
            }
        },
    }
}

proof fn lemma_part_bits_grow(a: int, b: int, whole: int)
    requires
        0 <= a <= b <= i32::MAX,
        0 < whole <= i32::MAX,
    ensures
        part_bits(a, whole) <= part_bits(b, whole),
        a <= whole ==> part_bits(a, whole) <= ONE_BITS,
{
    lemma_part_range(a as nat, whole as nat);
    lemma_part_range(b as nat, whole as nat);
    if a > 0 {
        fractions_keep_their_order(a as nat, b as nat, whole as nat);
        lemma_part_positive(a as nat, whole as nat);
        lemma_part_positive(b as nat, whole as nat);
        if a <= whole {
            fractions_keep_their_order(a as nat, whole as nat, whole as nat);
            whole_divided_by_itself(whole as nat);
        }
    }
}

proof fn lemma_part_positive(part: nat, whole: nat)
    requires
        part > 0,
        whole > 0,
    ensures
        quotient(single_of(part), single_of(whole)).0 > 0,
{
    lemma_rounded(part, 1, 0);
    lemma_rounded(whole, 1, 0);
    let a = single_of(part);
    let b = single_of(whole);
    lemma_rounded(a.0, b.0, a.1 - b.1);
}

/// The ratio of a splitter is at most the greatest that the minimums leave, and at least the
/// least where there is room for both minimums.
pub proof fn ratios_stay_in_their_track(bits: u32, total: int, min_first: int, min_second: int)
    requires
        0 < total <= i32::MAX,
        0 <= min_first <= i32::MAX,
        0 <= min_second,
    ensures
        ({
            let first = first_px(bits, total, min_first, min_second);
            let ratios = track_ratios(first, total, min_first, min_second);
            &&& ratios.0 <= ratios.2 <= ONE_BITS
            &&& min_first + min_second <= total ==> ratios.1 <= ratios.0
        }),
{
    let first = first_px(bits, total, min_first, min_second);
    let most = larger(total - min_second, 0);
    lemma_part_bits_grow(first, most, total);
    if min_first + min_second <= total {
        lemma_part_bits_grow(min_first, first, total);
    }
}

/// A splitter that is as far to the front as the first minimum allows has the least ratio, and
/// one that is as far to the back as the second allows has the greatest; without minimums the
/// ratios go from nothing to the whole.
pub proof fn tracks_end_at_the_minimums(first: int, total: int, min_first: int, min_second: int)
    requires
        0 < total <= i32::MAX,
        0 <= min_first,
        0 <= min_second,
        min_first + min_second <= total,
    ensures
        ({
            let ratios = track_ratios(first, total, min_first, min_second);
            &&& ratios.1 == track_ratios(min_first, total, min_first, min_second).0
            &&& ratios.2 == track_ratios(total - min_second, total, min_first, min_second).0
            &&& ratios.0 == track_ratios(first, total, 0, 0).0
            &&& min_first == 0 ==> ratios.1 == 0
            &&& min_second == 0 ==> ratios.2 == ONE_BITS
        }),
{
    lemma_part_bits_grow(min_first, total, total);
    lemma_part_bits_grow(total - min_second, total, total);
    lemma_part_range(0, total as nat);
    whole_divided_by_itself(total as nat);
    lemma_part_positive(total as nat, total as nat);
}

/// `px` is the fraction `m / 2^g` of a length, rounded to a whole pixel: at most half a pixel
/// off, and one part in four millions of the fraction, which single precision may lose.
pub open spec fn near_share(px: int, m: nat, g: nat, total: int) -> bool {
    let slack = pow2(g) * 2097152 + m * total;
    -slack <= 2 * (px * pow2(g) - m * total) * 2097152 <= slack
}

/// The fraction `m / 2^g` of a length leaves both children their minimums, with a pixel to
/// spare.
pub open spec fn roomy_share(m: nat, g: nat, total: int, min_first: int, min_second: int) -> bool {
    &&& (min_first + 1) * pow2(g) * 2097152 + m * total <= m * total * 2097152
    &&& m * total * 2097152 + m * total <= (total - min_second - 1) * pow2(g) * 2097152
}

proof fn lemma_share_is_near(bits: u32, m: nat, g: nat, total: int)
    requires
        8388608 <= m < 16777216,
        23 <= g <= 149,
        bits == (150 - g) * 8388608 + m - 8388608,
        bits <= 0x3f80_0000,
        total > 0,
    ensures
        near_share(share(bits, total), m, g, total),
{
    assert(bits >= 8388608);
    if bits < ONE_BITS {
        vstd::arithmetic::div_mod::lemma_fundamental_div_mod_converse(
            bits as int,
            8388608,
            150 - g,
            m - 8388608,
        );
        assert(ratio_value(bits) == (m, -(g as int)));
    } else {
        assert(m == 8388608 && g == 23);
        assert(ratio_value(bits) == (8388608nat, -23int));
    }
    fractions_are_near(m, g, total as nat);
}

proof fn lemma_roomy_share(px: int, m: nat, g: nat, total: int, min_first: int, min_second: int)
    requires
        near_share(px, m, g, total),
        roomy_share(m, g, total, min_first, min_second),
        total >= 0,
    ensures
        min_first <= px <= total - min_second,
{
    lemma_pow2_pos(g);
    let d = pow2(g) as int;
    let n = m * total;
    let u = px * d;
    let low = min_first * d;
    let high = (total - min_second) * d;
    assert(n >= 0) by (nonlinear_arith)
        requires
            n == m * total,
            total >= 0,
    ;
    assert((min_first + 1) * d == low + d) by (nonlinear_arith)
        requires
            low == min_first * d,
    ;
    assert((total - min_second - 1) * d == high - d) by (nonlinear_arith)
        requires
            high == (total - min_second) * d,
    ;
    assert(low <= u <= high);
    assert(min_first <= px) by (nonlinear_arith)
        requires
            d >= 1,
            min_first * d <= px * d,
    ;
    assert(px <= total - min_second) by (nonlinear_arith)
        requires
            d >= 1,
            px * d <= (total - min_second) * d,
    ;
}

/// A split follows its ratio along its own axis. Where the ratio's share of the length between
/// the two edges, less the splitter, leaves both children their minimums, the first child's
/// length is that share, rounded to a whole pixel. The ratio is given as single precision
/// holds it, `m / 2^g`.
pub proof fn splits_follow_their_ratio(
    n: NodeView,
    area: Area,
    splitter: int,
    clusters: Seq<ClusterView>,
    m: nat,
    g: nat,
)
    requires
        n is Split,
        8388608 <= m < 16777216,
        23 <= g <= 149,
        n->ratio == (150 - g) * 8388608 + m - 8388608,
        n->ratio <= 0x3f80_0000,
        splitter >= 0,
    ensures
        n->axis == SplitAxis::Vertical && area.width > splitter && roomy_share(
            m,
            g,
            area.width - splitter,
            node_min(*n->first, splitter, clusters).0,
            node_min(*n->second, splitter, clusters).0,
        ) ==> near_share(
            divided(n, area, splitter, clusters).0.width,
            m,
            g,
            area.width - splitter,
        ),
        n->axis == SplitAxis::Horizontal && area.height > splitter && roomy_share(
            m,
            g,
            area.height - splitter,
            node_min(*n->first, splitter, clusters).1,
            node_min(*n->second, splitter, clusters).1,
        ) ==> near_share(
            divided(n, area, splitter, clusters).0.height,
            m,
            g,
            area.height - splitter,
        ),
{
    let a = node_min(*n->first, splitter, clusters);
    let b = node_min(*n->second, splitter, clusters);
    lemma_min_positive(*n->first, splitter, clusters);
    lemma_min_positive(*n->second, splitter, clusters);
    match n->axis {
        SplitAxis::Vertical => {
            let total = area.width - splitter;
            if total > 0 && roomy_share(m, g, total, a.0, b.0) {
                lemma_share_is_near(n->ratio, m, g, total);
                lemma_roomy_share(share(n->ratio, total), m, g, total, a.0, b.0);
            }
        },
        SplitAxis::Horizontal => {
            let total = area.height - splitter;
            if total > 0 && roomy_share(m, g, total, a.1, b.1) {
                lemma_share_is_near(n->ratio, m, g, total);
                lemma_roomy_share(share(n->ratio, total), m, g, total, a.1, b.1);
            }
        },
    }
}

/// Where the ratio's share is too small for the first child, it gets its minimum; where it is
/// too large for the second, that one gets its minimum. A ratio of zero is always too small.
pub proof fn tight_splits_keep_the_minimum(
    n: NodeView,
    area: Area,
    splitter: int,
    clusters: Seq<ClusterView>,
    m: nat,
    g: nat,
)
    requires
        n is Split,
        8388608 <= m < 16777216,
        23 <= g <= 149,
        splitter >= 0,
        n->ratio == 0 || (n->ratio == (150 - g) * 8388608 + m - 8388608 && n->ratio
            <= 0x3f80_0000),
    ensures
        ({
            let a = node_min(*n->first, splitter, clusters);
            let b = node_min(*n->second, splitter, clusters);
            let parts = divided(n, area, splitter, clusters);
            let wide = area.width - splitter;
            let high = area.height - splitter;
            &&& n->axis == SplitAxis::Vertical && 0 < wide && a.0 + b.0 <= wide && (n->ratio == 0
                || m * wide * 2097152 + m * wide + pow2(g) * 2097152 <= a.0 * pow2(g) * 2097152)
                ==> parts.0.width == a.0
            &&& n->axis == SplitAxis::Horizontal && 0 < high && a.1 + b.1 <= high && (n->ratio
                == 0 || m * high * 2097152 + m * high + pow2(g) * 2097152 <= a.1 * pow2(g)
                * 2097152) ==> parts.0.height == a.1
            &&& n->axis == SplitAxis::Vertical && n->ratio != 0 && 0 < wide && a.0 + b.0 <= wide
                && (wide - b.0) * pow2(g) * 2097152 + m * wide + pow2(g) * 2097152 <= m * wide
                * 2097152 ==> parts.1.width == b.0
            &&& n->axis == SplitAxis::Horizontal && n->ratio != 0 && 0 < high && a.1 + b.1
                <= high && (high - b.1) * pow2(g) * 2097152 + m * high + pow2(g) * 2097152 <= m
                * high * 2097152 ==> parts.1.height == b.1
        }),
{
    let a = node_min(*n->first, splitter, clusters);
    let b = node_min(*n->second, splitter, clusters);
    lemma_min_positive(*n->first, splitter, clusters);
    lemma_min_positive(*n->second, splitter, clusters);
    let wide = area.width - splitter;
    let high = area.height - splitter;
    match n->axis {
        SplitAxis::Vertical => {
            if wide > 0 {
                lemma_tight_share(n->ratio, m, g, wide, a.0, b.0);
            }
        },
        SplitAxis::Horizontal => {
            if high > 0 {
                lemma_tight_share(n->ratio, m, g, high, a.1, b.1);
            }
        },
    }
}

proof fn lemma_tight_share(
    bits: u32,
    m: nat,
    g: nat,
    total: int,
    min_first: int,
    min_second: int,
)
    requires
        8388608 <= m < 16777216,
        23 <= g <= 149,
        bits == 0 || (bits == (150 - g) * 8388608 + m - 8388608 && bits <= 0x3f80_0000),
        total > 0,
        min_first >= 0,
        min_second >= 0,
    ensures
        bits == 0 ==> share(bits, total) == 0,
        bits != 0 && m * total * 2097152 + m * total + pow2(g) * 2097152 <= min_first * pow2(g)
            * 2097152 ==> share(bits, total) <= min_first,
        bits != 0 && (total - min_second) * pow2(g) * 2097152 + m * total + pow2(g) * 2097152 <= m
            * total * 2097152 ==> share(bits, total) >= total - min_second,
{
    if bits == 0 {
        assert(ratio_value(bits) == (0nat, -149int));
        assert(product(ratio_value(bits), single_of(total as nat)) == (0nat, 0int));
        assert(0 * pow2(0) == 0) by (nonlinear_arith);
    } else {
        lemma_share_is_near(bits, m, g, total);
        lemma_pow2_pos(g);
        let d = pow2(g) as int;
        let n = m * total;
        let px = share(bits, total);
        if n * 2097152 + n + d * 2097152 <= min_first * d * 2097152 {
            assert(px <= min_first) by (nonlinear_arith)
                requires
                    d >= 1,
                    n >= 0,
                    2 * (px * d - n) * 2097152 <= d * 2097152 + n,
                    n * 2097152 + n + d * 2097152 <= min_first * d * 2097152,
            ;
        }
        if (total - min_second) * d * 2097152 + n + d * 2097152 <= n * 2097152 {
            assert(px >= total - min_second) by (nonlinear_arith)
                requires
                    d >= 1,
                    n >= 0,
                    -(d * 2097152 + n) <= 2 * (px * d - n) * 2097152,
                    (total - min_second) * d * 2097152 + n + d * 2097152 <= n * 2097152,
            ;
        }
    }
}

/// The two children and the splitter between them fill the area along the split's axis, one
/// behind the other, and keep its size across it. The splitter can be moved along the length
/// that the children share.
pub proof fn children_fill_the_area(
    n: NodeView,
    area: Area,
    splitter: int,
    clusters: Seq<ClusterView>,
)
    requires
        n is Split,
        splitter >= 0,
    ensures
        ({
            let (first, second, bar) = divided(n, area, splitter, clusters);
            &&& bar.id == n->Split_id
            &&& bar.axis == n->axis
            &&& n->axis == SplitAxis::Vertical && area.width > splitter ==> {
                &&& first.x == area.x && bar.area.x == first.x + first.width && second.x
                    == bar.area.x + bar.area.width
                &&& second.x + second.width == area.x + area.width
                &&& bar.area.width == splitter
                &&& first.y == area.y && second.y == area.y && bar.area.y == area.y
                &&& first.height == area.height && second.height == area.height
                    && bar.area.height == area.height
                &&& bar.track_start == area.x && bar.track_length == area.width - splitter
            }
            &&& n->axis == SplitAxis::Horizontal && area.height > splitter ==> {
                &&& first.y == area.y && bar.area.y == first.y + first.height && second.y
                    == bar.area.y + bar.area.height
                &&& second.y + second.height == area.y + area.height
                &&& bar.area.height == splitter
                &&& first.x == area.x && second.x == area.x && bar.area.x == area.x
                &&& first.width == area.width && second.width == area.width && bar.area.width
                    == area.width
                &&& bar.track_start == area.y && bar.track_length == area.height - splitter
            }
        }),
{
}

/// What each panel needs: a status bar 24 by 20 pixels, no panel none, other panels 24 by 24,
/// and buttons 32 pixels of height and a width that grows by 40 pixels with each button, from
/// 48 for one or none.
pub proof fn panels_need_room(id: Seq<char>, panel: LayoutPanelKind, clusters: Seq<ClusterView>)
    ensures
        leaf_min(id, LayoutPanelKind::StatusBar, clusters) == (24int, 20int),
        leaf_min(id, LayoutPanelKind::NoPanel, clusters) == (0int, 0int),
        panel != LayoutPanelKind::StatusBar && panel != LayoutPanelKind::NoPanel && panel
            != LayoutPanelKind::ButtonCluster && panel != LayoutPanelKind::ImportButtonCluster
            && panel != LayoutPanelKind::TransportButtonCluster && panel
            != LayoutPanelKind::UtilityButtonCluster ==> leaf_min(id, panel, clusters) == (
            24int,
            24int,
        ),
        panel == LayoutPanelKind::ButtonCluster || panel == LayoutPanelKind::ImportButtonCluster
            || panel == LayoutPanelKind::TransportButtonCluster || panel
            == LayoutPanelKind::UtilityButtonCluster ==> leaf_min(id, panel, clusters).1 == 32
            && leaf_min(id, panel, clusters).0 == cluster_width(action_count(clusters, id)),
        cluster_width(0) == 48,
        cluster_width(1) == 48,
        forall|k: nat|
            1 <= k < 100000000 ==> #[trigger] cluster_width(k + 1) == cluster_width(k) + 40,
{
}

/// The buttons of a panel are those of the last cluster that names it.
pub proof fn the_last_cluster_counts(clusters: Seq<ClusterView>, cluster: ClusterView, id: Seq<char>)
    requires
        id.len() > 0,
    ensures
        trim(cluster.leaf_id) == id ==> action_count(clusters.push(cluster), id)
            == cluster.actions.len(),
        trim(cluster.leaf_id) != id ==> action_count(clusters.push(cluster), id) == action_count(
            clusters,
            id,
        ),
        action_count(Seq::empty(), id) == 0,
{
    assert(clusters.push(cluster).drop_last() =~= clusters);
}

/// A split needs room for both children and the splitter along its axis, and for the larger
/// child across it.
pub proof fn splits_need_room_for_both(
    n: NodeView,
    splitter: int,
    clusters: Seq<ClusterView>,
)
    requires
        n is Split,
        splitter >= 0,
    ensures
        ({
            let a = node_min(*n->first, splitter, clusters);
            let b = node_min(*n->second, splitter, clusters);
            let all = node_min(n, splitter, clusters);
            &&& n->axis == SplitAxis::Vertical && a.0 + b.0 + splitter <= u32::MAX ==> all.0
                == a.0 + b.0 + splitter
            &&& n->axis == SplitAxis::Vertical ==> all.1 >= a.1 && all.1 >= b.1 && (all.1 == a.1
                || all.1 == b.1)
            &&& n->axis == SplitAxis::Horizontal && a.1 + b.1 + splitter <= u32::MAX ==> all.1
                == a.1 + b.1 + splitter
            &&& n->axis == SplitAxis::Horizontal ==> all.0 >= a.0 && all.0 >= b.0 && (all.0
                == a.0 || all.0 == b.0)
        }),
{
}

/// Every split has its splitter: the one of the split itself first, then those of its first
/// child, then those of its second.
pub proof fn every_split_has_its_splitter(
    n: NodeView,
    area: Area,
    splitter: int,
    clusters: Seq<ClusterView>,
)
    requires
        n is Split,
    ensures
        ({
            let (first, second, bar) = divided(n, area, splitter, clusters);
            let a = placed_splitters(*n->first, first, splitter, clusters);
            let b = placed_splitters(*n->second, second, splitter, clusters);
            let all = placed_splitters(n, area, splitter, clusters);
            &&& all.len() == 1 + a.len() + b.len()
            &&& all[0] == bar
            &&& all.subrange(1, 1 + a.len() as int) == a
            &&& all.skip(1 + a.len() as int) == b
        }),
{
    let (first, second, bar) = divided(n, area, splitter, clusters);
    let a = placed_splitters(*n->first, first, splitter, clusters);
    let b = placed_splitters(*n->second, second, splitter, clusters);
    let all = placed_splitters(n, area, splitter, clusters);
    assert(all == seq![bar] + a + b);
    assert(all.subrange(1, 1 + a.len() as int) =~= a);
    assert(all.skip(1 + a.len() as int) =~= b);
}

/// The window is filled from its corner, and is at least one pixel wide and high.
pub proof fn the_window_is_filled(width: u32, height: u32)
    ensures
        viewport(width, height).x == 0,
        viewport(width, height).y == 0,
        width > 0 ==> viewport(width, height).width == width,
        height > 0 ==> viewport(width, height).height == height,
        viewport(0, height).width == 1,
        viewport(width, 0).height == 1,
{
}

} // verus!
