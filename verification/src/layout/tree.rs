//! Reading, tidying and editing the split-tree.

use crate::layout::defaults::{
    album_stack, control_stack, default_album_subtree, default_control_stack_subtree, numbered_id,
};
use crate::layout::{
    LayoutConfig, LayoutNode, LayoutPanelKind, LayoutView, NodeView, SplitAxis,
    DEFAULT_COLOR_SCHEME_ID, LAYOUT_VERSION,
};
use crate::text::{blank, decimal, is_blank, option_text, owned, text_equal, texts};
use vstd::prelude::*;

verus! {

/// One half, as the bits of a single-precision number.
pub const HALF_BITS: u32 = 0x3f00_0000;

/// One, as the bits of a single-precision number.
pub const ONE_BITS: u32 = 0x3f80_0000;

/// The bits of a number that is neither infinite nor undefined.
pub open spec fn finite_bits(bits: u32) -> bool {
    bits % 0x8000_0000 < 0x7f80_0000
}

/// A number brought into the range from zero to one; a negative zero stays.
pub open spec fn unit_bits(bits: u32) -> u32 {
    if bits > 0x8000_0000 {
        0
    } else if bits < 0x8000_0000 && bits > ONE_BITS {
        ONE_BITS
    } else {
        bits
    }
}

/// The ratio of a tidy split: in range, and one half where it is no number.
pub open spec fn settled_ratio(bits: u32) -> u32 {
    if finite_bits(bits) {
        unit_bits(bits)
    } else {
        HALF_BITS
    }
}

fn is_finite_bits(bits: u32) -> (r: bool)
    ensures
        r == finite_bits(bits),
{
    bits % 0x8000_0000 < 0x7f80_0000
}

fn clamp_unit_bits(bits: u32) -> (r: u32)
    ensures
        r == unit_bits(bits),
{
    if bits > 0x8000_0000 {
        0
    } else if bits < 0x8000_0000 && bits > ONE_BITS {
        ONE_BITS
    } else {
        bits
    }
}

/// The names of all nodes, a split before its children.
pub open spec fn node_ids(n: NodeView) -> Seq<Seq<char>>
    decreases n,
{
    match n {
        NodeView::Empty => Seq::empty(),
        NodeView::Leaf { id, .. } => seq![id],
        NodeView::Split { id, first, second, .. } => seq![id] + node_ids(*first) + node_ids(
            *second,
        ),
    }
}

/// The leaves in depth-first order.
pub open spec fn leaves(n: NodeView) -> Seq<(Seq<char>, LayoutPanelKind)>
    decreases n,
{
    match n {
        NodeView::Empty => Seq::empty(),
        NodeView::Leaf { id, panel } => seq![(id, panel)],
        NodeView::Split { first, second, .. } => leaves(*first) + leaves(*second),
    }
}

/// The panel of the first leaf with a name.
pub open spec fn leaf_panel(n: NodeView, leaf_id: Seq<char>) -> Option<LayoutPanelKind>
    decreases n,
{
    match n {
        NodeView::Empty => None,
        NodeView::Leaf { id, panel } => if id == leaf_id {
            Some(panel)
        } else {
            None
        },
        NodeView::Split { first, second, .. } => if leaf_panel(*first, leaf_id) is Some {
            leaf_panel(*first, leaf_id)
        } else {
            leaf_panel(*second, leaf_id)
        },
    }
}

pub open spec fn has_leaf(n: NodeView, leaf_id: Seq<char>) -> bool {
    leaf_panel(n, leaf_id) is Some
}

/// The tree with `new` in place of the first leaf with a name.
pub open spec fn with_leaf(n: NodeView, leaf_id: Seq<char>, new: NodeView) -> NodeView
    decreases n,
{
    match n {
        NodeView::Empty => n,
        NodeView::Leaf { id, panel } => if id == leaf_id {
            new
        } else {
            n
        },
        NodeView::Split { id, axis, ratio, min_first, min_second, first, second } => if has_leaf(
            *first,
            leaf_id,
        ) {
            NodeView::Split {
                id,
                axis,
                ratio,
                min_first,
                min_second,
                first: Box::new(with_leaf(*first, leaf_id, new)),
                second,
            }
        } else {
            NodeView::Split {
                id,
                axis,
                ratio,
                min_first,
                min_second,
                first,
                second: Box::new(with_leaf(*second, leaf_id, new)),
            }
        },
    }
}

pub open spec fn has_split(n: NodeView, split_id: Seq<char>) -> bool
    decreases n,
{
    match n {
        NodeView::Split { id, first, second, .. } => id == split_id || has_split(*first, split_id)
            || has_split(*second, split_id),
        _ => false,
    }
}

/// The tree with a new ratio at the first split with a name, a split before its children. A
/// ratio that is no number changes nothing.
pub open spec fn with_ratio(n: NodeView, split_id: Seq<char>, bits: u32) -> NodeView
    decreases n,
{
    match n {
        NodeView::Split { id, axis, ratio, min_first, min_second, first, second } => {
            if id == split_id {
                NodeView::Split {
                    id,
                    axis,
                    ratio: if finite_bits(bits) {
                        unit_bits(bits)
                    } else {
                        ratio
                    },
                    min_first,
                    min_second,
                    first,
                    second,
                }
            } else if has_split(*first, split_id) {
                NodeView::Split {
                    id,
                    axis,
                    ratio,
                    min_first,
                    min_second,
                    first: Box::new(with_ratio(*first, split_id, bits)),
                    second,
                }
            } else {
                NodeView::Split {
                    id,
                    axis,
                    ratio,
                    min_first,
                    min_second,
                    first,
                    second: Box::new(with_ratio(*second, split_id, bits)),
                }
            }
        },
        _ => n,
    }
}

/// A split, or its only child where the other one is empty.
pub open spec fn joined_split(
    id: Seq<char>,
    axis: SplitAxis,
    ratio: u32,
    min_first: u32,
    min_second: u32,
    first: NodeView,
    second: NodeView,
) -> NodeView {
    if first is Empty {
        second
    } else if second is Empty {
        first
    } else {
        NodeView::Split {
            id,
            axis,
            ratio,
            min_first,
            min_second,
            first: Box::new(first),
            second: Box::new(second),
        }
    }
}

/// The tree without empty nodes below its root.
pub open spec fn without_gaps(n: NodeView) -> NodeView
    decreases n,
{
    match n {
        NodeView::Split { id, axis, ratio, min_first, min_second, first, second } => joined_split(
            id,
            axis,
            ratio,
            min_first,
            min_second,
            without_gaps(*first),
            without_gaps(*second),
        ),
        _ => n,
    }
}

/// The names that are taken: `used` occur in the tree or were handed out, `valid` stand in
/// the part that is tidy already, and new numbers start at `next`.
#[verifier::ext_equal]
pub struct Naming {
    pub next: nat,
    pub used: Set<Seq<char>>,
    pub valid: Set<Seq<char>>,
}

/// `n` is the first number from `from` on whose name is free.
pub open spec fn first_free(
    used: Set<Seq<char>>,
    prefix: Seq<char>,
    from: nat,
    n: nat,
) -> bool {
    &&& from <= n
    &&& !used.contains(prefix + decimal(n))
    &&& forall|m: nat| from <= m < n ==> used.contains(prefix + #[trigger] decimal(m))
}

pub open spec fn free_number(used: Set<Seq<char>>, prefix: Seq<char>, from: nat) -> nat {
    choose|n: nat| first_free(used, prefix, from, n)
}

impl Naming {
    /// A new name, and what is taken then.
    pub open spec fn fresh(self, prefix: Seq<char>) -> (Seq<char>, Naming) {
        let n = free_number(self.used, prefix, self.next);
        let id = prefix + decimal(n);
        let next: nat = if n >= u64::MAX {
            u64::MAX as nat
        } else {
            n + 1
        };
        (id, Naming { next, used: self.used.insert(id), valid: self.valid })
    }

    /// So many new names, in order.
    pub open spec fn several(self, prefix: Seq<char>, count: nat) -> (Seq<Seq<char>>, Naming)
        decreases count,
    {
        if count == 0 {
            (Seq::empty(), self)
        } else {
            let (ids, taken) = self.several(prefix, (count - 1) as nat);
            let (id, after) = taken.fresh(prefix);
            (ids.push(id), after)
        }
    }

    pub open spec fn marked(self, ids: Seq<Seq<char>>) -> Naming {
        Naming { valid: self.valid.union(ids.to_set()), ..self }
    }

    /// The name a node keeps, or a new one where its own is blank or stands elsewhere.
    pub open spec fn named(self, id: Seq<char>, prefix: Seq<char>) -> (Seq<char>, Naming) {
        if blank(id) || self.valid.contains(id) {
            let (name, after) = self.fresh(prefix);
            (name, Naming { valid: after.valid.insert(name), ..after })
        } else {
            (id, Naming { valid: self.valid.insert(id), ..self })
        }
    }
}

/// The three special button clusters of older layouts became one.
pub open spec fn settled_panel(panel: LayoutPanelKind) -> LayoutPanelKind {
    match panel {
        LayoutPanelKind::ImportButtonCluster => LayoutPanelKind::ButtonCluster,
        LayoutPanelKind::TransportButtonCluster => LayoutPanelKind::ButtonCluster,
        LayoutPanelKind::UtilityButtonCluster => LayoutPanelKind::ButtonCluster,
        other => other,
    }
}

/// The tidy form of a tree. Panels of older layouts become the trees that replaced them,
/// leaves without a panel go, every node gets a name of its own, and a split with one child
/// left gives way to it.
pub open spec fn normalized(n: NodeView, names: Naming) -> (NodeView, Naming)
    decreases n,
{
    match n {
        NodeView::Empty => (n, names),
        NodeView::Leaf { id, panel } => match panel {
            LayoutPanelKind::NoPanel => (NodeView::Empty, names),
            LayoutPanelKind::ControlBar => {
                let (ids, after) = names.several("l"@, 9);
                (control_stack(ids), after.marked(ids))
            },
            LayoutPanelKind::AlbumArtPane => {
                let (ids, after) = names.several("l"@, 3);
                (album_stack(ids), after.marked(ids))
            },
            _ => {
                let (name, after) = names.named(id, "l"@);
                (NodeView::Leaf { id: name, panel: settled_panel(panel) }, after)
            },
        },
        NodeView::Split { id, axis, ratio, min_first, min_second, first, second } => {
            let (tidy_first, after_first) = normalized(*first, names);
            let (tidy_second, after_second) = normalized(*second, after_first);
            let (name, after) = after_second.named(id, "s"@);
            (
                joined_split(
                    name,
                    axis,
                    settled_ratio(ratio),
                    min_first,
                    min_second,
                    tidy_first,
                    tidy_second,
                ),
                after,
            )
        },
    }
}

/// What is taken before a tree is tidied.
pub open spec fn naming_of(n: NodeView) -> Naming {
    Naming { next: 1, used: node_ids(n).to_set(), valid: Set::empty() }
}

pub open spec fn sanitized_root(n: NodeView) -> NodeView {
    normalized(n, naming_of(n)).0
}

pub open spec fn settled_scheme(scheme: Seq<char>) -> Seq<char> {
    if blank(scheme) {
        DEFAULT_COLOR_SCHEME_ID@
    } else {
        scheme
    }
}

/// A layout with a tidy tree, a color scheme, and a selection that exists.
pub open spec fn sanitized(layout: LayoutView) -> LayoutView {
    let root = sanitized_root(layout.root);
    LayoutView {
        version: LAYOUT_VERSION,
        color_scheme: settled_scheme(layout.color_scheme),
        root,
        selected_leaf_id: if layout.selected_leaf_id is Some && has_leaf(
            root,
            layout.selected_leaf_id->Some_0,
        ) {
            layout.selected_leaf_id
        } else {
            None
        },
        ..layout
    }
}

/// The set of the texts of a list.
pub open spec fn name_set(v: Seq<String>) -> Set<Seq<char>> {
    texts(v).to_set()
}

fn has_name(v: &Vec<String>, name: &str) -> (r: bool)
    ensures
        r == name_set(v@).contains(name@),
{
    let mut i: usize = 0;
    while i < v.len()
        invariant
            i <= v.len(),
            forall|k: int| 0 <= k < i ==> #[trigger] texts(v@)[k] != name@,
        decreases v.len() - i,
    {
        assert(texts(v@)[i as int] == v@[i as int]@);
        if text_equal(&v[i], name) {
            return true;
        }
        i += 1;
    }
    false
}

proof fn lemma_push_name(v: Seq<String>, name: String)
    ensures
        name_set(v.push(name)) == name_set(v).insert(name@),
{
    let a = texts(v.push(name));
    let b = texts(v);
    assert(a =~= b.push(name@));
    assert forall|x: Seq<char>| a.to_set().contains(x) == b.to_set().insert(name@).contains(x) by {
        if b.contains(x) {
            let i = choose|i: int| 0 <= i < b.len() && b[i] == x;
            assert(a[i] == x);
        }
        if x == name@ {
            assert(a[b.len() as int] == x);
        }
    }
    assert(a.to_set() =~= b.to_set().insert(name@));
}

/// Hands out node names that are not taken.
struct IdGenerator {
    next: u64,
    used: Vec<String>,
    valid: Vec<String>,
}

impl View for IdGenerator {
    type V = Naming;

    closed spec fn view(&self) -> Naming {
        Naming {
            next: self.next as nat,
            used: name_set(self.used@),
            valid: name_set(self.valid@),
        }
    }
}

impl IdGenerator {
    fn from_root(root: &LayoutNode) -> (r: IdGenerator)
        ensures
            r@ == naming_of(root.tree()),
    {
        let mut used: Vec<String> = Vec::new();
        collect_ids(root, &mut used);
        assert(texts(used@) =~= node_ids(root.tree()));
        let valid: Vec<String> = Vec::new();
        assert(name_set(valid@) =~= Set::empty());
        IdGenerator { next: 1, used, valid }
    }

    fn next_id(&mut self, prefix: &str) -> (r: String)
        ensures
            (r@, final(self)@) == old(self)@.fresh(prefix@),
    {
        let ghost start = self@;
        loop
            invariant
                start == old(self)@,
                self.valid@ == old(self).valid@,
                name_set(self.used@) == start.used,
                start.next <= self.next,
                forall|m: nat|
                    start.next <= m < self.next ==> start.used.contains(
                        prefix@ + #[trigger] decimal(m),
                    ),
            decreases usize::MAX - self.used.len(),
        {
            let number: u64 = self.next;
            let candidate = numbered_id(prefix, number);
            let taken = has_name(&self.used, &candidate);
            self.next = number.saturating_add(1);
            proof {
                lemma_push_name(self.used@, candidate);
            }
            self.used.push(candidate.clone());
            if !taken {
                proof {
                    assert(first_free(start.used, prefix@, start.next, number as nat));
                    let n = free_number(start.used, prefix@, start.next);
                    assert(first_free(start.used, prefix@, start.next, n));
                    assert(decimal(n) == decimal(n) && decimal(number as nat) == decimal(
                        number as nat,
                    ));
                    assert(n == number);
                    assert(self@ =~= start.fresh(prefix@).1);
                }
                return candidate;
            }
            assert(start.used.insert(candidate@) =~= start.used);
        }
    }

    fn next_ids(&mut self, prefix: &str, count: usize) -> (r: Vec<String>)
        ensures
            r.len() == count,
            (texts(r@), final(self)@) == old(self)@.several(prefix@, count as nat),
    {
        let mut out: Vec<String> = Vec::new();
        let mut i: usize = 0;
        assert(texts(out@) =~= Seq::empty());
        while i < count
            invariant
                i <= count,
                out.len() == i,
                (texts(out@), self@) == old(self)@.several(prefix@, i as nat),
            decreases count - i,
        {
            let id = self.next_id(prefix);
            assert(texts(out@.push(id)) =~= texts(out@).push(id@));
            out.push(id);
            i += 1;
        }
        out
    }

    fn mark(&mut self, ids: &Vec<String>)
        ensures
            final(self)@ == old(self)@.marked(texts(ids@)),
    {
        let ghost before = self@;
        let mut i: usize = 0;
        assert(texts(ids@).take(0).to_set() =~= Set::empty());
        assert(before.valid.union(Set::empty()) =~= before.valid);
        while i < ids.len()
            invariant
                i <= ids.len(),
                before == old(self)@,
                self.next == old(self).next,
                self.used@ == old(self).used@,
                self@.valid == before.valid.union(texts(ids@).take(i as int).to_set()),
            decreases ids.len() - i,
        {
            proof {
                lemma_push_name(self.valid@, ids@[i as int]);
                let all = texts(ids@);
                let name = all[i as int];
                assert(name == ids@[i as int]@);
                assert(all.take(i + 1) =~= all.take(i as int).push(name));
                assert forall|x: Seq<char>|
                    all.take(i + 1).to_set().contains(x) == all.take(i as int).to_set().insert(
                        name,
                    ).contains(x) by {
                    if all.take(i as int).contains(x) {
                        let k = choose|k: int|
                            0 <= k < all.take(i as int).len() && all.take(i as int)[k] == x;
                        assert(all.take(i + 1)[k] == x);
                    }
                    if x == name {
                        assert(all.take(i + 1)[i as int] == x);
                    }
                }
                assert(all.take(i + 1).to_set() =~= all.take(i as int).to_set().insert(name));
                assert(before.valid.union(all.take(i + 1).to_set()) =~= before.valid.union(
                    all.take(i as int).to_set(),
                ).insert(name));
            }
            self.valid.push(ids[i].clone());
            i += 1;
        }
        assert(texts(ids@).take(ids.len() as int) =~= texts(ids@));
    }

    fn name_node(&mut self, id: String, prefix: &str) -> (r: String)
        ensures
            (r@, final(self)@) == old(self)@.named(id@, prefix@),
    {
        let name = if is_blank(&id) || has_name(&self.valid, &id) {
            self.next_id(prefix)
        } else {
            id
        };
        proof {
            lemma_push_name(self.valid@, name);
        }
        self.valid.push(name.clone());
        name
    }
}

fn collect_ids(node: &LayoutNode, out: &mut Vec<String>)
    ensures
        texts(final(out)@) == texts(old(out)@) + node_ids(node.tree()),
    decreases node,
{
    match node {
        LayoutNode::Empty => {
            assert(texts(out@) =~= texts(out@) + node_ids(node.tree()));
        },
        LayoutNode::Leaf { id, .. } => {
            out.push(id.clone());
            assert(texts(out@) =~= texts(old(out)@) + node_ids(node.tree()));
        },
        LayoutNode::Split { id, first, second, .. } => {
            out.push(id.clone());
            assert(texts(out@) =~= texts(old(out)@).push(id@));
            collect_ids(first, out);
            collect_ids(second, out);
            assert(texts(out@) =~= texts(old(out)@) + node_ids(node.tree()));
        },
    }
}

fn join_split(
    id: String,
    axis: SplitAxis,
    ratio_bits: u32,
    min_first_px: u32,
    min_second_px: u32,
    first: LayoutNode,
    second: LayoutNode,
) -> (r: LayoutNode)
    ensures
        r.tree() == joined_split(
            id@,
            axis,
            ratio_bits,
            min_first_px,
            min_second_px,
            first.tree(),
            second.tree(),
        ),
{
    if let LayoutNode::Empty = &first {
        return second;
    }
    if let LayoutNode::Empty = &second {
        return first;
    }
    LayoutNode::Split {
        id,
        axis,
        ratio_bits,
        min_first_px,
        min_second_px,
        first: Box::new(first),
        second: Box::new(second),
    }
}

/// Drops the empty nodes below the root.
pub fn compact_node(node: LayoutNode) -> (r: LayoutNode)
    ensures
        r.tree() == without_gaps(node.tree()),
    decreases node,
{
    match node {
        LayoutNode::Split {
            id,
            axis,
            ratio_bits,
            min_first_px,
            min_second_px,
            first,
            second,
        } => {
            let first = compact_node(*first);
            let second = compact_node(*second);
            join_split(id, axis, ratio_bits, min_first_px, min_second_px, first, second)
        },
        other => other,
    }
}

fn normalize_node(node: LayoutNode, names: &mut IdGenerator) -> (r: LayoutNode)
    ensures
        (r.tree(), final(names)@) == normalized(node.tree(), old(names)@),
    decreases node,
{
    match node {
        LayoutNode::Empty => LayoutNode::Empty,
        LayoutNode::Leaf { id, panel } => {
            let settled = match panel {
                LayoutPanelKind::NoPanel => {
                    return LayoutNode::Empty;
                },
                LayoutPanelKind::ControlBar => {
                    let ids = names.next_ids("l", 9);
                    names.mark(&ids);
                    return default_control_stack_subtree(&ids);
                },
                LayoutPanelKind::AlbumArtPane => {
                    let ids = names.next_ids("l", 3);
                    names.mark(&ids);
                    return default_album_subtree(&ids);
                },
                LayoutPanelKind::ImportButtonCluster => LayoutPanelKind::ButtonCluster,
                LayoutPanelKind::TransportButtonCluster => LayoutPanelKind::ButtonCluster,
                LayoutPanelKind::UtilityButtonCluster => LayoutPanelKind::ButtonCluster,
                other => other,
            };
            let name = names.name_node(id, "l");
            LayoutNode::Leaf { id: name, panel: settled }
        },
        LayoutNode::Split {
            id,
            axis,
            ratio_bits,
            min_first_px,
            min_second_px,
            first,
            second,
        } => {
            let first = normalize_node(*first, names);
            let second = normalize_node(*second, names);
            let name = names.name_node(id, "s");
            let ratio: u32 = if is_finite_bits(ratio_bits) {
                clamp_unit_bits(ratio_bits)
            } else {
                HALF_BITS
            };
            join_split(name, axis, ratio, min_first_px, min_second_px, first, second)
        },
    }
}

pub fn settle_scheme(scheme: &String) -> (r: String)
    ensures
        r@ == settled_scheme(scheme@),
{
    if is_blank(scheme) {
        owned(DEFAULT_COLOR_SCHEME_ID)
    } else {
        scheme.clone()
    }
}

/// Sanitizes persisted layout configuration and resolves invalid nodes. The size of the
/// viewport has no bearing on it.
pub fn sanitize_layout_config(
    config: &LayoutConfig,
    _viewport_width_px: u32,
    _viewport_height_px: u32,
) -> (r: LayoutConfig)
    ensures
        r@ == sanitized(config@),
{
    let mut names = IdGenerator::from_root(&config.root);
    let root = normalize_node(config.root.clone(), &mut names);
    let selected = match &config.selected_leaf_id {
        Some(id) => match panel_for_leaf_id(&root, id) {
            Some(_) => Some(id.clone()),
            None => None,
        },
        None => None,
    };
    let mut next = config.clone();
    next.version = LAYOUT_VERSION;
    next.color_scheme = settle_scheme(&config.color_scheme);
    next.root = root;
    next.selected_leaf_id = selected;
    assert(next@ =~= sanitized(config@));
    next
}

/// The panel of the first leaf with a name.
pub fn panel_for_leaf_id(node: &LayoutNode, leaf_id: &str) -> (r: Option<LayoutPanelKind>)
    ensures
        r == leaf_panel(node.tree(), leaf_id@),
    decreases node,
{
    match node {
        LayoutNode::Empty => None,
        LayoutNode::Leaf { id, panel } => {
            if text_equal(id, leaf_id) {
                Some(*panel)
            } else {
                None
            }
        },
        LayoutNode::Split { first, second, .. } => {
            let found = panel_for_leaf_id(first, leaf_id);
            if found.is_some() {
                found
            } else {
                panel_for_leaf_id(second, leaf_id)
            }
        },
    }
}

fn replace_leaf(node: LayoutNode, leaf_id: &str, new: LayoutNode) -> (r: LayoutNode)
    ensures
        r.tree() == with_leaf(node.tree(), leaf_id@, new.tree()),
    decreases node,
{
    match node {
        LayoutNode::Empty => LayoutNode::Empty,
        LayoutNode::Leaf { id, panel } => {
            if text_equal(&id, leaf_id) {
                new
            } else {
                LayoutNode::Leaf { id, panel }
            }
        },
        LayoutNode::Split {
            id,
            axis,
            ratio_bits,
            min_first_px,
            min_second_px,
            first,
            second,
        } => {
            if panel_for_leaf_id(&first, leaf_id).is_some() {
                let first = Box::new(replace_leaf(*first, leaf_id, new));
                LayoutNode::Split {
                    id,
                    axis,
                    ratio_bits,
                    min_first_px,
                    min_second_px,
                    first,
                    second,
                }
            } else {
                let second = Box::new(replace_leaf(*second, leaf_id, new));
                LayoutNode::Split {
                    id,
                    axis,
                    ratio_bits,
                    min_first_px,
                    min_second_px,
                    first,
                    second,
                }
            }
        },
    }
}

fn with_root(layout: &LayoutConfig, root: LayoutNode) -> (r: LayoutConfig)
    ensures
        r@ == (LayoutView { root: root.tree(), ..layout@ }),
{
    let mut next = layout.clone();
    next.root = root;
    next
}

/// The layout without a leaf.
pub open spec fn after_delete(layout: LayoutView, leaf_id: Seq<char>) -> LayoutView {
    sanitized(
        LayoutView {
            root: without_gaps(with_leaf(layout.root, leaf_id, NodeView::Empty)),
            ..layout
        },
    )
}

/// Deletes one leaf from the tree; `None` where there is no such leaf.
pub fn delete_leaf(layout: &LayoutConfig, leaf_id: &str) -> (r: Option<LayoutConfig>)
    ensures
        r is Some <==> has_leaf(layout@.root, leaf_id@),
        r is Some ==> r->Some_0@ == after_delete(layout@, leaf_id@),
{
    match panel_for_leaf_id(&layout.root, leaf_id) {
        None => None,
        Some(_) => {
            let root = replace_leaf(layout.root.clone(), leaf_id, LayoutNode::Empty);
            Some(sanitize_layout_config(&with_root(layout, compact_node(root)), 0, 0))
        },
    }
}

/// The layout with another panel in a leaf; without a panel the leaf goes.
pub open spec fn after_replace(
    layout: LayoutView,
    leaf_id: Seq<char>,
    panel: LayoutPanelKind,
) -> LayoutView {
    if panel == LayoutPanelKind::NoPanel {
        after_delete(layout, leaf_id)
    } else {
        sanitized(
            LayoutView {
                root: with_leaf(layout.root, leaf_id, NodeView::Leaf { id: leaf_id, panel }),
                ..layout
            },
        )
    }
}

/// A leaf that gets the panel it has leaves the tree as it is.
pub proof fn lemma_same_panel(n: NodeView, leaf_id: Seq<char>, panel: LayoutPanelKind)
    requires
        leaf_panel(n, leaf_id) == Some(panel),
    ensures
        with_leaf(n, leaf_id, NodeView::Leaf { id: leaf_id, panel }) == n,
    decreases n,
{
    match n {
        NodeView::Split { first, second, .. } => {
            if has_leaf(*first, leaf_id) {
                lemma_same_panel(*first, leaf_id, panel);
            } else {
                lemma_same_panel(*second, leaf_id, panel);
            }
        },
        _ => {},
    }
}

/// Replaces one leaf panel; `None` where there is no such leaf.
pub fn replace_leaf_panel(
    layout: &LayoutConfig,
    leaf_id: &str,
    panel: LayoutPanelKind,
) -> (r: Option<LayoutConfig>)
    ensures
        r is Some <==> has_leaf(layout@.root, leaf_id@),
        r is Some ==> r->Some_0@ == after_replace(layout@, leaf_id@, panel),
{
    if panel == LayoutPanelKind::NoPanel {
        return delete_leaf(layout, leaf_id);
    }
    match panel_for_leaf_id(&layout.root, leaf_id) {
        None => None,
        Some(existing) => {
            if existing == panel {
                proof {
                    lemma_same_panel(layout@.root, leaf_id@, panel);
                }
                return Some(sanitize_layout_config(layout, 0, 0));
            }
            let new = LayoutNode::Leaf { id: owned(leaf_id), panel };
            let root = replace_leaf(layout.root.clone(), leaf_id, new);
            Some(sanitize_layout_config(&with_root(layout, root), 0, 0))
        },
    }
}

/// What stands in place of a leaf that was split.
pub open spec fn split_node(
    n: NodeView,
    leaf_id: Seq<char>,
    axis: SplitAxis,
    new_panel: LayoutPanelKind,
) -> NodeView {
    let names = naming_of(n);
    let (sibling, after) = if new_panel == LayoutPanelKind::NoPanel {
        (NodeView::Empty, names)
    } else {
        let (id, taken) = names.fresh("l"@);
        (NodeView::Leaf { id, panel: new_panel }, taken)
    };
    NodeView::Split {
        id: after.fresh("s"@).0,
        axis,
        ratio: HALF_BITS,
        min_first: 0,
        min_second: 0,
        first: Box::new(NodeView::Leaf { id: leaf_id, panel: leaf_panel(n, leaf_id)->Some_0 }),
        second: Box::new(sibling),
    }
}

/// The layout with a leaf split in halves, the new panel behind the old one.
pub open spec fn after_split(
    layout: LayoutView,
    leaf_id: Seq<char>,
    axis: SplitAxis,
    new_panel: LayoutPanelKind,
) -> LayoutView {
    sanitized(
        LayoutView {
            root: with_leaf(
                layout.root,
                leaf_id,
                split_node(layout.root, leaf_id, axis, new_panel),
            ),
            ..layout
        },
    )
}

/// Splits one leaf into two children; `None` where there is no such leaf.
pub fn split_leaf(
    layout: &LayoutConfig,
    leaf_id: &str,
    axis: SplitAxis,
    new_panel: LayoutPanelKind,
) -> (r: Option<LayoutConfig>)
    ensures
        r is Some <==> has_leaf(layout@.root, leaf_id@),
        r is Some ==> r->Some_0@ == after_split(layout@, leaf_id@, axis, new_panel),
{
    match panel_for_leaf_id(&layout.root, leaf_id) {
        None => None,
        Some(panel) => {
            let mut names = IdGenerator::from_root(&layout.root);
            let sibling = if new_panel == LayoutPanelKind::NoPanel {
                LayoutNode::Empty
            } else {
                LayoutNode::Leaf { id: names.next_id("l"), panel: new_panel }
            };
            let kept = LayoutNode::Leaf { id: owned(leaf_id), panel };
            assert(kept.tree() == (NodeView::Leaf { id: leaf_id@, panel }));
            assert(sibling.tree() == (if new_panel == LayoutPanelKind::NoPanel {
                NodeView::Empty
            } else {
                NodeView::Leaf {
                    id: naming_of(layout@.root).fresh("l"@).0,
                    panel: new_panel,
                }
            }));
            let split = LayoutNode::Split {
                id: names.next_id("s"),
                axis,
                ratio_bits: HALF_BITS,
                min_first_px: 0,
                min_second_px: 0,
                first: Box::new(kept),
                second: Box::new(sibling),
            };
            assert(split.tree() == split_node(layout@.root, leaf_id@, axis, new_panel));
            let root = replace_leaf(layout.root.clone(), leaf_id, split);
            Some(sanitize_layout_config(&with_root(layout, root), 0, 0))
        },
    }
}

fn contains_split(node: &LayoutNode, split_id: &str) -> (r: bool)
    ensures
        r == has_split(node.tree(), split_id@),
    decreases node,
{
    match node {
        LayoutNode::Split { id, first, second, .. } => {
            text_equal(id, split_id) || contains_split(first, split_id) || contains_split(
                second,
                split_id,
            )
        },
        _ => false,
    }
}

fn replace_ratio(node: LayoutNode, split_id: &str, new_bits: u32) -> (r: LayoutNode)
    ensures
        r.tree() == with_ratio(node.tree(), split_id@, new_bits),
    decreases node,
{
    match node {
        LayoutNode::Split {
            id,
            axis,
            ratio_bits,
            min_first_px,
            min_second_px,
            first,
            second,
        } => {
            if text_equal(&id, split_id) {
                let ratio_bits: u32 = if is_finite_bits(new_bits) {
                    clamp_unit_bits(new_bits)
                } else {
                    ratio_bits
                };
                LayoutNode::Split {
                    id,
                    axis,
                    ratio_bits,
                    min_first_px,
                    min_second_px,
                    first,
                    second,
                }
            } else if contains_split(&first, split_id) {
                let first = Box::new(replace_ratio(*first, split_id, new_bits));
                LayoutNode::Split {
                    id,
                    axis,
                    ratio_bits,
                    min_first_px,
                    min_second_px,
                    first,
                    second,
                }
            } else {
                let second = Box::new(replace_ratio(*second, split_id, new_bits));
                LayoutNode::Split {
                    id,
                    axis,
                    ratio_bits,
                    min_first_px,
                    min_second_px,
                    first,
                    second,
                }
            }
        },
        other => other,
    }
}

/// The layout with another ratio at a split.
pub open spec fn after_ratio(layout: LayoutView, split_id: Seq<char>, bits: u32) -> LayoutView {
    sanitized(LayoutView { root: with_ratio(layout.root, split_id, bits), ..layout })
}

/// Sets one splitter ratio by id, given as the bits of a single-precision number; `None`
/// where there is no such split.
pub fn set_split_ratio(layout: &LayoutConfig, split_id: &str, ratio_bits: u32) -> (r: Option<
    LayoutConfig,
>)
    ensures
        r is Some <==> has_split(layout@.root, split_id@),
        r is Some ==> r->Some_0@ == after_ratio(layout@, split_id@, ratio_bits),
{
    if !contains_split(&layout.root, split_id) {
        return None;
    }
    let root = replace_ratio(layout.root.clone(), split_id, ratio_bits);
    Some(sanitize_layout_config(&with_root(layout, root), 0, 0))
}

/// The name of the first leaf in depth-first order.
pub fn first_leaf_id(node: &LayoutNode) -> (r: Option<String>)
    ensures
        option_text(r) == (if leaves(node.tree()).len() > 0 {
            Some(leaves(node.tree())[0].0)
        } else {
            None
        }),
    decreases node,
{
    match node {
        LayoutNode::Empty => None,
        LayoutNode::Leaf { id, .. } => Some(id.clone()),
        LayoutNode::Split { first, second, .. } => {
            let found = first_leaf_id(first);
            if found.is_some() {
                found
            } else {
                assert(leaves(node.tree()) =~= leaves(second.tree()));
                first_leaf_id(second)
            }
        },
    }
}

/// An empty layout with one leaf, the track list where no panel is asked for.
pub open spec fn with_first_leaf(layout: LayoutView, panel: LayoutPanelKind) -> LayoutView {
    if layout.root is Empty {
        sanitized(
            LayoutView {
                root: NodeView::Leaf {
                    id: "l1"@,
                    panel: if panel == LayoutPanelKind::NoPanel {
                        LayoutPanelKind::TrackList
                    } else {
                        panel
                    },
                },
                selected_leaf_id: None,
                ..layout
            },
        )
    } else {
        layout
    }
}

/// Creates a one-leaf root when layout is currently empty.
pub fn add_root_leaf_if_empty(layout: &LayoutConfig, panel: LayoutPanelKind) -> (r: LayoutConfig)
    ensures
        r@ == with_first_leaf(layout@, panel),
{
    if let LayoutNode::Empty = &layout.root {
        let panel = if panel == LayoutPanelKind::NoPanel {
            LayoutPanelKind::TrackList
        } else {
            panel
        };
        let mut next = with_root(layout, LayoutNode::Leaf { id: owned("l1"), panel });
        next.selected_leaf_id = None;
        assert(next@ =~= (LayoutView {
            root: NodeView::Leaf { id: "l1"@, panel },
            selected_leaf_id: None,
            ..layout@
        }));
        sanitize_layout_config(&next, 0, 0)
    } else {
        layout.clone()
    }
}

} // verus!
