//! What tidying and editing do to a layout.

use crate::layout::defaults::{album_stack, control_stack};
use crate::layout::tree::{
    after_delete, after_ratio, after_replace, after_split, first_free, free_number, has_leaf,
    leaf_panel, leaves, lemma_same_panel, naming_of, node_ids, normalized, sanitized,
    sanitized_root, settled_panel, settled_ratio, split_node, unit_bits, with_leaf, with_ratio,
    without_gaps, Naming, ONE_BITS,
};
use crate::layout::{legacy_panel, LayoutPanelKind, LayoutView, NodeView, SplitAxis};
use crate::text::{blank, decimal, trim_back, trim_front, white_space};
use vstd::prelude::*;

verus! {

/// A panel that a tidy leaf can hold.
pub open spec fn current_panel(panel: LayoutPanelKind) -> bool {
    panel != LayoutPanelKind::NoPanel && !legacy_panel(panel) && settled_panel(panel) == panel
}

/// A ratio from zero to one.
pub open spec fn unit_ratio(bits: u32) -> bool {
    bits <= ONE_BITS || bits == 0x8000_0000
}

/// Named nodes, current panels, ratios in range, and nothing empty below the root.
pub open spec fn neat(n: NodeView) -> bool
    decreases n,
{
    match n {
        NodeView::Empty => true,
        NodeView::Leaf { id, panel } => !blank(id) && current_panel(panel),
        NodeView::Split { id, ratio, first, second, .. } => {
            &&& !blank(id)
            &&& unit_ratio(ratio)
            &&& neat(*first)
            &&& neat(*second)
            &&& !(*first is Empty)
            &&& !(*second is Empty)
        },
    }
}

/// A neat tree in which every name stands once.
pub open spec fn tidy(n: NodeView) -> bool {
    neat(n) && node_ids(n).no_duplicates()
}

proof fn lemma_decimal_distinct(a: nat, b: nat)
    requires
        decimal(a) == decimal(b),
    ensures
        a == b,
    decreases a,
{
    lemma_decimal_nonempty(a);
    lemma_decimal_nonempty(b);
    assert(decimal(a).last() == (a % 10 + 48) as char);
    assert(decimal(b).last() == (b % 10 + 48) as char);
    assert(((a % 10 + 48) as char) as int == a % 10 + 48);
    assert(((b % 10 + 48) as char) as int == b % 10 + 48);
    assert(a % 10 == b % 10);
    if a < 10 {
        if b >= 10 {
            lemma_decimal_nonempty(b / 10);
            assert(decimal(b).len() >= 2);
        }
    } else {
        if b < 10 {
            lemma_decimal_nonempty(a / 10);
            assert(decimal(a).len() >= 2);
        } else {
            assert(decimal(a).drop_last() =~= decimal(a / 10));
            assert(decimal(b).drop_last() =~= decimal(b / 10));
            lemma_decimal_distinct(a / 10, b / 10);
        }
    }
}

proof fn lemma_decimal_nonempty(a: nat)
    ensures
        decimal(a).len() >= 1,
{
}

proof fn lemma_numbered_distinct(prefix: Seq<char>, a: nat, b: nat)
    requires
        prefix + decimal(a) == prefix + decimal(b),
    ensures
        a == b,
{
    let n = prefix.len() as int;
    assert((prefix + decimal(a)).skip(n) =~= decimal(a));
    assert((prefix + decimal(b)).skip(n) =~= decimal(b));
    lemma_decimal_distinct(a, b);
}

/// A finite set holds at most as many numbered names as it has elements.
proof fn lemma_names_counted(used: Set<Seq<char>>, prefix: Seq<char>, from: nat, k: nat)
    requires
        used.finite(),
        forall|n: nat| from <= n < from + k ==> used.contains(prefix + #[trigger] decimal(n)),
    ensures
        k <= used.len(),
    decreases k,
{
    if k > 0 {
        let last = (from + k - 1) as nat;
        let x = prefix + decimal(last);
        assert(used.contains(x));
        assert forall|n: nat| from <= n < from + (k - 1) implies used.remove(x).contains(
            prefix + #[trigger] decimal(n),
        ) by {
            if prefix + decimal(n) == x {
                lemma_numbered_distinct(prefix, n, last);
            }
        }
        lemma_names_counted(used.remove(x), prefix, from, (k - 1) as nat);
    }
}

proof fn lemma_least_free(used: Set<Seq<char>>, prefix: Seq<char>, from: nat, n: nat)
    requires
        from <= n,
        !used.contains(prefix + decimal(n)),
    ensures
        exists|m: nat| first_free(used, prefix, from, m),
    decreases n - from,
{
    if used.contains(prefix + decimal(from)) {
        let rest = from + 1;
        lemma_least_free(used, prefix, rest, n);
        let m = choose|m: nat| first_free(used, prefix, rest, m);
        assert(first_free(used, prefix, from, m));
    } else {
        assert(first_free(used, prefix, from, from));
    }
}

/// Some number is always free.
proof fn lemma_some_free(used: Set<Seq<char>>, prefix: Seq<char>, from: nat)
    requires
        used.finite(),
    ensures
        first_free(used, prefix, from, free_number(used, prefix, from)),
{
    let k = used.len() + 1;
    if forall|n: nat| from <= n < from + k ==> used.contains(prefix + #[trigger] decimal(n)) {
        lemma_names_counted(used, prefix, from, k);
    }
    let n = choose|n: nat|
        from <= n < from + k && !used.contains(prefix + #[trigger] decimal(n));
    lemma_least_free(used, prefix, from, n);
}

proof fn lemma_not_blank(s: Seq<char>)
    requires
        s.len() > 0,
        !white_space(s[0]),
    ensures
        !blank(s),
{
    assert(trim_front(s) == s);
    lemma_trim_back_keeps(s);
}

proof fn lemma_trim_back_keeps(s: Seq<char>)
    requires
        s.len() > 0,
        !white_space(s[0]),
    ensures
        trim_back(s).len() > 0,
    decreases s.len(),
{
    if white_space(s.last()) {
        lemma_trim_back_keeps(s.drop_last());
    }
}

/// Every valid name is a used one, and there are finitely many.
spec fn sound(names: Naming) -> bool {
    names.used.finite() && names.valid.subset_of(names.used)
}

/// `after` knows the names of `before` and perhaps more.
spec fn grown(before: Naming, after: Naming) -> bool {
    before.used.subset_of(after.used) && before.valid.subset_of(after.valid)
}

spec fn letter(prefix: Seq<char>) -> bool {
    prefix.len() > 0 && !white_space(prefix[0])
}

proof fn lemma_fresh(names: Naming, prefix: Seq<char>)
    requires
        sound(names),
        letter(prefix),
    ensures
        !names.used.contains(names.fresh(prefix).0),
        names.fresh(prefix).1.used.contains(names.fresh(prefix).0),
        !blank(names.fresh(prefix).0),
        sound(names.fresh(prefix).1),
        grown(names, names.fresh(prefix).1),
        names.fresh(prefix).1.valid == names.valid,
{
    lemma_some_free(names.used, prefix, names.next);
    lemma_not_blank(names.fresh(prefix).0);
}

proof fn lemma_several(names: Naming, prefix: Seq<char>, count: nat)
    requires
        sound(names),
        letter(prefix),
    ensures
        names.several(prefix, count).0.len() == count,
        names.several(prefix, count).0.no_duplicates(),
        forall|i: int|
            0 <= i < count ==> {
                let id = #[trigger] names.several(prefix, count).0[i];
                !names.used.contains(id) && names.several(prefix, count).1.used.contains(id)
                    && !blank(id)
            },
        sound(names.several(prefix, count).1),
        grown(names, names.several(prefix, count).1),
        names.several(prefix, count).1.valid == names.valid,
    decreases count,
{
    if count > 0 {
        lemma_several(names, prefix, (count - 1) as nat);
        lemma_fresh(names.several(prefix, (count - 1) as nat).1, prefix);
    }
}

proof fn lemma_named(names: Naming, id: Seq<char>, prefix: Seq<char>)
    requires
        sound(names),
        letter(prefix),
        names.used.contains(id),
    ensures
        !names.valid.contains(names.named(id, prefix).0),
        names.named(id, prefix).1.valid == names.valid.insert(names.named(id, prefix).0),
        !blank(names.named(id, prefix).0),
        sound(names.named(id, prefix).1),
        grown(names, names.named(id, prefix).1),
{
    if blank(id) || names.valid.contains(id) {
        lemma_fresh(names, prefix);
    }
}

/// The names of a tree are new in `after`, and each stands once.
spec fn named_between(n: NodeView, before: Naming, after: Naming) -> bool {
    &&& node_ids(n).no_duplicates()
    &&& forall|x: Seq<char>| #[trigger]
        node_ids(n).contains(x) ==> after.valid.contains(x) && !before.valid.contains(x)
}

proof fn lemma_join_unique(id: Seq<char>, a: Seq<Seq<char>>, b: Seq<Seq<char>>)
    requires
        a.no_duplicates(),
        b.no_duplicates(),
        forall|x: Seq<char>| #[trigger] a.contains(x) ==> !b.contains(x) && x != id,
        forall|x: Seq<char>| #[trigger] b.contains(x) ==> x != id,
    ensures
        (seq![id] + a + b).no_duplicates(),
        forall|x: Seq<char>| #[trigger]
            (seq![id] + a + b).contains(x) ==> x == id || a.contains(x) || b.contains(x),
{
    let all = seq![id] + a + b;
    let m = a.len() as int;
    assert forall|i: int, j: int| 0 <= i < all.len() && 0 <= j < all.len() && i != j implies all[i]
        != all[j] by {
        lemma_where(id, a, b, i);
        lemma_where(id, a, b, j);
    }
    assert forall|x: Seq<char>| #[trigger] all.contains(x) implies x == id || a.contains(x)
        || b.contains(x) by {
        let i = choose|i: int| 0 <= i < all.len() && all[i] == x;
        lemma_where(id, a, b, i);
    }
}

proof fn lemma_where(id: Seq<char>, a: Seq<Seq<char>>, b: Seq<Seq<char>>, i: int)
    requires
        0 <= i < 1 + a.len() + b.len(),
    ensures
        ({
            let x = (seq![id] + a + b)[i];
            if i == 0 {
                x == id
            } else if i <= a.len() {
                x == a[i - 1] && a.contains(x)
            } else {
                x == b[i - 1 - a.len()] && b.contains(x)
            }
        }),
{
    let all = seq![id] + a + b;
    if i == 0 {
    } else if i <= a.len() {
        assert(all[i] == a[i - 1]);
    } else {
        assert(all[i] == b[i - 1 - a.len()]);
    }
}

proof fn lemma_control_stack(ids: Seq<Seq<char>>)
    requires
        ids.len() == 9,
        ids.no_duplicates(),
        forall|i: int| 0 <= i < 9 ==> !blank(#[trigger] ids[i]),
    ensures
        neat(control_stack(ids)),
        !(control_stack(ids) is Empty),
        node_ids(control_stack(ids)).no_duplicates(),
        forall|x: Seq<char>| #[trigger]
            node_ids(control_stack(ids)).contains(x) ==> ids.contains(x),
{
    reveal_with_fuel(node_ids, 6);
    reveal_with_fuel(neat, 6);
    let all = node_ids(control_stack(ids));
    assert(all =~= seq![
        ids[8],
        ids[7],
        ids[0],
        ids[6],
        ids[1],
        ids[5],
        ids[2],
        ids[3],
        ids[4],
    ]);
    assert forall|x: Seq<char>| #[trigger] all.contains(x) implies ids.contains(x) by {
        let i = choose|i: int| 0 <= i < all.len() && all[i] == x;
    }
}

proof fn lemma_album_stack(ids: Seq<Seq<char>>)
    requires
        ids.len() == 3,
        ids.no_duplicates(),
        forall|i: int| 0 <= i < 3 ==> !blank(#[trigger] ids[i]),
    ensures
        neat(album_stack(ids)),
        !(album_stack(ids) is Empty),
        node_ids(album_stack(ids)).no_duplicates(),
        forall|x: Seq<char>| #[trigger] node_ids(album_stack(ids)).contains(x) ==> ids.contains(x),
{
    reveal_with_fuel(node_ids, 3);
    reveal_with_fuel(neat, 3);
    let all = node_ids(album_stack(ids));
    assert(all =~= ids);
}

proof fn lemma_letters()
    ensures
        letter("l"@),
        letter("s"@),
{
    reveal_strlit("l");
    reveal_strlit("s");
}

proof fn lemma_settled_ratio(bits: u32)
    ensures
        unit_ratio(settled_ratio(bits)),
        unit_ratio(bits) ==> settled_ratio(bits) == bits,
        unit_ratio(unit_bits(bits)),
{
}

proof fn lemma_marked(
    names: Naming,
    before: Naming,
    n: NodeView,
    ids: Seq<Seq<char>>,
)
    requires
        sound(before),
        sound(names),
        grown(before, names),
        names.valid == before.valid,
        node_ids(n).no_duplicates(),
        forall|x: Seq<char>| #[trigger] node_ids(n).contains(x) ==> ids.contains(x),
        forall|i: int|
            0 <= i < ids.len() ==> !before.used.contains(#[trigger] ids[i]) && names.used.contains(
                ids[i],
            ),
    ensures
        sound(names.marked(ids)),
        grown(before, names.marked(ids)),
        named_between(n, before, names.marked(ids)),
{
    let after = names.marked(ids);
    assert forall|x: Seq<char>| #[trigger] node_ids(n).contains(x) implies after.valid.contains(x)
        && !before.valid.contains(x) by {
        let i = choose|i: int| 0 <= i < ids.len() && ids[i] == x;
        assert(!before.used.contains(ids[i]));
        assert(ids.to_set().contains(x));
    }
    assert(after.valid.subset_of(after.used)) by {
        assert forall|x: Seq<char>| after.valid.contains(x) implies after.used.contains(x) by {
            if !names.valid.contains(x) {
                assert(ids.contains(x));
                let i = choose|i: int| 0 <= i < ids.len() && ids[i] == x;
                assert(names.used.contains(ids[i]));
            }
        }
    }
}

proof fn lemma_normalized(n: NodeView, names: Naming)
    requires
        sound(names),
        forall|x: Seq<char>| #[trigger] node_ids(n).contains(x) ==> names.used.contains(x),
    ensures
        neat(normalized(n, names).0),
        named_between(normalized(n, names).0, names, normalized(n, names).1),
        sound(normalized(n, names).1),
        grown(names, normalized(n, names).1),
    decreases n,
{
    lemma_letters();
    match n {
        NodeView::Empty => {
            assert(node_ids(n) =~= Seq::empty());
        },
        NodeView::Leaf { id, panel } => {
            assert(node_ids(n)[0] == id);
            assert(node_ids(n).contains(id));
            if panel == LayoutPanelKind::NoPanel {
                assert(node_ids(NodeView::Empty) =~= Seq::empty());
            } else if panel == LayoutPanelKind::ControlBar {
                lemma_several(names, "l"@, 9);
                let (ids, after) = names.several("l"@, 9);
                lemma_control_stack(ids);
                lemma_marked(after, names, control_stack(ids), ids);
            } else if panel == LayoutPanelKind::AlbumArtPane {
                lemma_several(names, "l"@, 3);
                let (ids, after) = names.several("l"@, 3);
                lemma_album_stack(ids);
                lemma_marked(after, names, album_stack(ids), ids);
            } else {
                lemma_named(names, id, "l"@);
                let tidied = normalized(n, names).0;
                assert(node_ids(tidied) =~= seq![names.named(id, "l"@).0]);
            }
        },
        NodeView::Split { id, axis, ratio, min_first, min_second, first, second } => {
            let all = node_ids(n);
            assert(all[0] == id);
            assert(all.contains(id));
            assert forall|x: Seq<char>| #[trigger]
                node_ids(*first).contains(x) implies names.used.contains(x) by {
                let i = choose|i: int| 0 <= i < node_ids(*first).len() && node_ids(*first)[i] == x;
                assert(all[i + 1] == x);
                assert(all.contains(x));
            }
            lemma_normalized(*first, names);
            let (f, after_first) = normalized(*first, names);
            assert forall|x: Seq<char>| #[trigger]
                node_ids(*second).contains(x) implies after_first.used.contains(x) by {
                let i = choose|i: int|
                    0 <= i < node_ids(*second).len() && node_ids(*second)[i] == x;
                assert(all[i + 1 + node_ids(*first).len()] == x);
                assert(all.contains(x));
            }
            lemma_normalized(*second, after_first);
            let (s, after_second) = normalized(*second, after_first);
            lemma_named(after_second, id, "s"@);
            let (name, after) = after_second.named(id, "s"@);
            lemma_settled_ratio(ratio);
            lemma_join_unique(name, node_ids(f), node_ids(s));
            let tidied = normalized(n, names).0;
            if !(f is Empty) && !(s is Empty) {
                assert(node_ids(tidied) =~= seq![name] + node_ids(f) + node_ids(s));
            }
        },
    }
}

/// Tidying a tree gives a tidy tree.
pub proof fn sanitizing_tidies(n: NodeView)
    ensures
        tidy(sanitized_root(n)),
{
    let names = naming_of(n);
    vstd::seq_lib::seq_to_set_is_finite(node_ids(n));
    lemma_normalized(n, names);
}

/// Names, ratios and panels as in a neat tree, but perhaps with gaps and with button
/// clusters of the older kinds.
pub open spec fn usable(n: NodeView) -> bool
    decreases n,
{
    match n {
        NodeView::Empty => true,
        NodeView::Leaf { id, panel } => !blank(id) && panel != LayoutPanelKind::NoPanel
            && !legacy_panel(panel),
        NodeView::Split { id, ratio, first, second, .. } => !blank(id) && unit_ratio(ratio)
            && usable(*first) && usable(*second),
    }
}

/// The tree with the button clusters of today.
pub open spec fn settled_tree(n: NodeView) -> NodeView
    decreases n,
{
    match n {
        NodeView::Empty => n,
        NodeView::Leaf { id, panel } => NodeView::Leaf { id, panel: settled_panel(panel) },
        NodeView::Split { id, axis, ratio, min_first, min_second, first, second } => {
            NodeView::Split {
                id,
                axis,
                ratio,
                min_first,
                min_second,
                first: Box::new(settled_tree(*first)),
                second: Box::new(settled_tree(*second)),
            }
        },
    }
}

/// The names of a split are unique only if those of its children are, and stand apart.
proof fn lemma_split_unique(id: Seq<char>, a: Seq<Seq<char>>, b: Seq<Seq<char>>)
    requires
        (seq![id] + a + b).no_duplicates(),
    ensures
        a.no_duplicates(),
        b.no_duplicates(),
        forall|x: Seq<char>| #[trigger] a.contains(x) ==> !b.contains(x) && x != id,
        forall|x: Seq<char>| #[trigger] b.contains(x) ==> x != id,
{
    let all = seq![id] + a + b;
    let m = a.len() as int;
    assert forall|i: int, j: int| 0 <= i < a.len() && 0 <= j < a.len() && i != j implies a[i]
        != a[j] by {
        assert(all[i + 1] == a[i] && all[j + 1] == a[j]);
    }
    assert forall|i: int, j: int| 0 <= i < b.len() && 0 <= j < b.len() && i != j implies b[i]
        != b[j] by {
        assert(all[i + 1 + m] == b[i] && all[j + 1 + m] == b[j]);
    }
    assert forall|x: Seq<char>| #[trigger] a.contains(x) implies !b.contains(x) && x != id by {
        let i = choose|i: int| 0 <= i < a.len() && a[i] == x;
        assert(all[i + 1] == x && all[0] == id);
        if b.contains(x) {
            let j = choose|j: int| 0 <= j < b.len() && b[j] == x;
            assert(all[j + 1 + m] == x);
        }
    }
    assert forall|x: Seq<char>| #[trigger] b.contains(x) implies x != id by {
        let j = choose|j: int| 0 <= j < b.len() && b[j] == x;
        assert(all[j + 1 + m] == x && all[0] == id);
    }
}

proof fn lemma_split_contains(id: Seq<char>, a: Seq<Seq<char>>, b: Seq<Seq<char>>, x: Seq<char>)
    ensures
        (seq![id] + a + b).contains(x) <==> x == id || a.contains(x) || b.contains(x),
{
    let all = seq![id] + a + b;
    let m = a.len() as int;
    if all.contains(x) {
        let i = choose|i: int| 0 <= i < all.len() && all[i] == x;
        lemma_where(id, a, b, i);
    }
    if x == id {
        assert(all[0] == x);
    }
    if a.contains(x) {
        let i = choose|i: int| 0 <= i < a.len() && a[i] == x;
        assert(all[i + 1] == x);
    }
    if b.contains(x) {
        let i = choose|i: int| 0 <= i < b.len() && b[i] == x;
        assert(all[i + 1 + m] == x);
    }
}

/// Where no name has to change, tidying closes gaps and settles panels, and nothing else.
proof fn lemma_keeps_names(n: NodeView, names: Naming)
    requires
        usable(n),
        node_ids(n).no_duplicates(),
        forall|x: Seq<char>| #[trigger] node_ids(n).contains(x) ==> !names.valid.contains(x),
    ensures
        normalized(n, names).0 == without_gaps(settled_tree(n)),
        normalized(n, names).1.used == names.used,
        normalized(n, names).1.next == names.next,
        forall|x: Seq<char>| #[trigger]
            normalized(n, names).1.valid.contains(x) <==> names.valid.contains(x) || node_ids(
                n,
            ).contains(x),
    decreases n,
{
    match n {
        NodeView::Empty => {},
        NodeView::Leaf { id, panel } => {
            assert(node_ids(n)[0] == id);
            assert(node_ids(n).contains(id));
        },
        NodeView::Split { id, axis, ratio, min_first, min_second, first, second } => {
            let a = node_ids(*first);
            let b = node_ids(*second);
            lemma_split_unique(id, a, b);
            assert forall|x: Seq<char>|
                node_ids(n).contains(x) <==> x == id || a.contains(x) || b.contains(x) by {
                lemma_split_contains(id, a, b, x);
            }
            lemma_keeps_names(*first, names);
            let (f, after_first) = normalized(*first, names);
            lemma_keeps_names(*second, after_first);
            let (s, after_second) = normalized(*second, after_first);
            lemma_settled_ratio(ratio);
            lemma_split_contains(id, a, b, id);
            assert(!names.valid.contains(id));
            assert(!after_second.valid.contains(id));
        },
    }
}

proof fn lemma_neat_usable(n: NodeView)
    requires
        neat(n),
    ensures
        usable(n),
        settled_tree(n) == n,
        without_gaps(n) == n,
    decreases n,
{
    match n {
        NodeView::Split { first, second, .. } => {
            lemma_neat_usable(*first);
            lemma_neat_usable(*second);
        },
        _ => {},
    }
}

proof fn lemma_usable_sanitized(n: NodeView)
    requires
        usable(n),
        node_ids(n).no_duplicates(),
    ensures
        sanitized_root(n) == without_gaps(settled_tree(n)),
{
    lemma_keeps_names(n, naming_of(n));
}

/// A tidy tree is not changed by tidying it.
pub proof fn tidy_trees_stay(n: NodeView)
    requires
        tidy(n),
    ensures
        sanitized_root(n) == n,
{
    lemma_neat_usable(n);
    lemma_usable_sanitized(n);
}

/// Sanitizing twice is sanitizing once.
pub proof fn sanitizing_twice_changes_nothing(layout: LayoutView)
    ensures
        sanitized(sanitized(layout)) == sanitized(layout),
{
    sanitizing_tidies(layout.root);
    tidy_trees_stay(sanitized_root(layout.root));
    reveal_strlit("roqtune_dark");
    lemma_not_blank("roqtune_dark"@);
    assert(sanitized(sanitized(layout)) =~= sanitized(layout));
}

proof fn lemma_gaps(n: NodeView)
    ensures
        leaves(without_gaps(n)) == leaves(n),
        usable(n) ==> usable(without_gaps(n)),
        node_ids(n).no_duplicates() ==> node_ids(without_gaps(n)).no_duplicates(),
        forall|x: Seq<char>| #[trigger]
            node_ids(without_gaps(n)).contains(x) ==> node_ids(n).contains(x),
        without_gaps(without_gaps(n)) == without_gaps(n),
    decreases n,
{
    match n {
        NodeView::Split { id, axis, ratio, min_first, min_second, first, second } => {
            lemma_gaps(*first);
            lemma_gaps(*second);
            let f = without_gaps(*first);
            let s = without_gaps(*second);
            let m = without_gaps(n);
            let a = node_ids(*first);
            let b = node_ids(*second);
            if node_ids(n).no_duplicates() {
                lemma_split_unique(id, a, b);
                lemma_join_unique(id, node_ids(f), node_ids(s));
            }
            assert forall|x: Seq<char>| #[trigger] node_ids(m).contains(x) implies node_ids(
                n,
            ).contains(x) by {
                lemma_split_contains(id, a, b, x);
                lemma_split_contains(id, node_ids(f), node_ids(s), x);
            }
            if f is Empty {
                assert(leaves(f) =~= Seq::empty());
                assert(leaves(m) =~= leaves(n));
            } else if s is Empty {
                assert(leaves(s) =~= Seq::empty());
                assert(leaves(m) =~= leaves(n));
            }
        },
        _ => {},
    }
}

/// A leaf with the panel of today.
pub open spec fn settled_leaf() -> spec_fn((Seq<char>, LayoutPanelKind)) -> (
    Seq<char>,
    LayoutPanelKind,
) {
    |l: (Seq<char>, LayoutPanelKind)| (l.0, settled_panel(l.1))
}

proof fn lemma_settled_leaves(n: NodeView)
    ensures
        leaves(settled_tree(n)) == leaves(n).map_values(settled_leaf()),
        node_ids(settled_tree(n)) == node_ids(n),
    decreases n,
{
    match n {
        NodeView::Split { first, second, .. } => {
            lemma_settled_leaves(*first);
            lemma_settled_leaves(*second);
        },
        _ => {},
    }
    assert(leaves(settled_tree(n)) =~= leaves(n).map_values(settled_leaf()));
}

/// Edited trees with unique names have the leaves that the edit gives them.
proof fn lemma_sanitized_leaves(n: NodeView)
    requires
        usable(n),
        node_ids(n).no_duplicates(),
    ensures
        leaves(sanitized_root(n)) == leaves(n).map_values(settled_leaf()),
        tidy(sanitized_root(n)),
{
    lemma_usable_sanitized(n);
    lemma_gaps(settled_tree(n));
    lemma_settled_leaves(n);
    sanitizing_tidies(n);
}

/// The leaves with one of them replaced by others.
pub open spec fn spliced(
    all: Seq<(Seq<char>, LayoutPanelKind)>,
    i: int,
    new: Seq<(Seq<char>, LayoutPanelKind)>,
) -> Seq<(Seq<char>, LayoutPanelKind)> {
    all.take(i) + new + all.skip(i + 1)
}

/// The position of the first leaf with a name.
pub open spec fn leaf_position(n: NodeView, leaf_id: Seq<char>) -> int
    decreases n,
{
    match n {
        NodeView::Split { first, second, .. } => if has_leaf(*first, leaf_id) {
            leaf_position(*first, leaf_id)
        } else {
            leaves(*first).len() + leaf_position(*second, leaf_id)
        },
        _ => 0,
    }
}

/// Editing a leaf and settling the panels can be done in either order, and the edit opens no
/// gap unless the leaf goes.
proof fn lemma_edit_shape(n: NodeView, leaf_id: Seq<char>, new: NodeView)
    requires
        neat(n),
        has_leaf(n, leaf_id),
        usable(new),
    ensures
        usable(with_leaf(n, leaf_id, new)),
        settled_tree(with_leaf(n, leaf_id, new)) == with_leaf(n, leaf_id, settled_tree(new)),
        !(new is Empty) && without_gaps(settled_tree(new)) == settled_tree(new) ==> without_gaps(
            with_leaf(n, leaf_id, settled_tree(new)),
        ) == with_leaf(n, leaf_id, settled_tree(new)) && !(with_leaf(
            n,
            leaf_id,
            settled_tree(new),
        ) is Empty),
    decreases n,
{
    match n {
        NodeView::Split { first, second, .. } => {
            lemma_neat_usable(*first);
            lemma_neat_usable(*second);
            if has_leaf(*first, leaf_id) {
                lemma_edit_shape(*first, leaf_id, new);
            } else {
                lemma_edit_shape(*second, leaf_id, new);
            }
        },
        _ => {},
    }
}

/// The leaves after an edit.
proof fn lemma_edit_leaves(n: NodeView, leaf_id: Seq<char>, new: NodeView)
    requires
        has_leaf(n, leaf_id),
    ensures
        0 <= leaf_position(n, leaf_id) < leaves(n).len(),
        leaves(n)[leaf_position(n, leaf_id)] == (leaf_id, leaf_panel(n, leaf_id)->Some_0),
        leaves(with_leaf(n, leaf_id, new)) == spliced(
            leaves(n),
            leaf_position(n, leaf_id),
            leaves(new),
        ),
    decreases n,
{
    let m = with_leaf(n, leaf_id, new);
    let p = leaf_position(n, leaf_id);
    match n {
        NodeView::Empty => {},
        NodeView::Leaf { id, panel } => {
            assert(spliced(leaves(n), 0, leaves(new)) =~= leaves(new));
        },
        NodeView::Split { first, second, .. } => {
            let l = leaves(*first);
            let r = leaves(*second);
            if has_leaf(*first, leaf_id) {
                lemma_edit_leaves(*first, leaf_id, new);
                assert(spliced(l + r, p, leaves(new)) =~= spliced(l, p, leaves(new)) + r);
            } else {
                lemma_edit_leaves(*second, leaf_id, new);
                let q = leaf_position(*second, leaf_id);
                assert((l + r).take(p) =~= l + r.take(q));
                assert((l + r).skip(p + 1) =~= r.skip(q + 1));
                assert(spliced(l + r, p, leaves(new)) =~= l + spliced(r, q, leaves(new)));
            }
        },
    }
}

/// The names after an edit.
proof fn lemma_edit_names(n: NodeView, leaf_id: Seq<char>, new: NodeView)
    requires
        node_ids(n).no_duplicates(),
        has_leaf(n, leaf_id),
        node_ids(new).no_duplicates(),
        forall|x: Seq<char>| #[trigger]
            node_ids(new).contains(x) ==> x == leaf_id || !node_ids(n).contains(x),
    ensures
        node_ids(with_leaf(n, leaf_id, new)).no_duplicates(),
        forall|x: Seq<char>| #[trigger]
            node_ids(with_leaf(n, leaf_id, new)).contains(x) ==> node_ids(n).contains(x)
                || node_ids(new).contains(x),
    decreases n,
{
    match n {
        NodeView::Split { id, first, second, .. } => {
            let a = node_ids(*first);
            let b = node_ids(*second);
            lemma_split_unique(id, a, b);
            assert forall|x: Seq<char>| #[trigger] a.contains(x) || #[trigger] b.contains(x) || x
                == id implies node_ids(n).contains(x) by {
                lemma_split_contains(id, a, b, x);
            }
            lemma_split_contains(id, a, b, id);
            assert(node_ids(n).contains(id));
            if has_leaf(*first, leaf_id) {
                lemma_edit_contains(*first, leaf_id);
                assert forall|x: Seq<char>| #[trigger] node_ids(new).contains(x) implies x
                    == leaf_id || !a.contains(x) by {
                    lemma_split_contains(id, a, b, x);
                }
                lemma_edit_names(*first, leaf_id, new);
                let f = node_ids(with_leaf(*first, leaf_id, new));
                assert forall|x: Seq<char>| #[trigger] f.contains(x) implies !b.contains(x) && x
                    != id by {
                    lemma_split_contains(id, a, b, x);
                    if !a.contains(x) {
                        assert(node_ids(new).contains(x));
                    }
                }
                lemma_join_unique(id, f, b);
                assert forall|x: Seq<char>| #[trigger]
                    node_ids(with_leaf(n, leaf_id, new)).contains(x) implies node_ids(n).contains(x)
                    || node_ids(new).contains(x) by {
                    lemma_split_contains(id, f, b, x);
                    lemma_split_contains(id, a, b, x);
                }
            } else {
                lemma_edit_contains(*second, leaf_id);
                assert forall|x: Seq<char>| #[trigger] node_ids(new).contains(x) implies x
                    == leaf_id || !b.contains(x) by {
                    lemma_split_contains(id, a, b, x);
                }
                lemma_edit_names(*second, leaf_id, new);
                let s = node_ids(with_leaf(*second, leaf_id, new));
                assert forall|x: Seq<char>| #[trigger] s.contains(x) implies !a.contains(x) && x
                    != id by {
                    lemma_split_contains(id, a, b, x);
                    if !b.contains(x) {
                        assert(node_ids(new).contains(x));
                    }
                }
                lemma_join_unique(id, a, s);
                assert forall|x: Seq<char>| #[trigger]
                    node_ids(with_leaf(n, leaf_id, new)).contains(x) implies node_ids(n).contains(x)
                    || node_ids(new).contains(x) by {
                    lemma_split_contains(id, a, s, x);
                    lemma_split_contains(id, a, b, x);
                }
            }
        },
        _ => {},
    }
}

proof fn lemma_edit(n: NodeView, leaf_id: Seq<char>, new: NodeView)
    requires
        neat(n),
        node_ids(n).no_duplicates(),
        has_leaf(n, leaf_id),
        usable(new),
        node_ids(new).no_duplicates(),
        forall|x: Seq<char>| #[trigger]
            node_ids(new).contains(x) ==> x == leaf_id || !node_ids(n).contains(x),
    ensures
        usable(with_leaf(n, leaf_id, new)),
        node_ids(with_leaf(n, leaf_id, new)).no_duplicates(),
        0 <= leaf_position(n, leaf_id) < leaves(n).len(),
        leaves(n)[leaf_position(n, leaf_id)] == (leaf_id, leaf_panel(n, leaf_id)->Some_0),
        leaves(with_leaf(n, leaf_id, new)) == spliced(
            leaves(n),
            leaf_position(n, leaf_id),
            leaves(new),
        ),
        settled_tree(with_leaf(n, leaf_id, new)) == with_leaf(n, leaf_id, settled_tree(new)),
        !(new is Empty) && without_gaps(settled_tree(new)) == settled_tree(new) ==> without_gaps(
            with_leaf(n, leaf_id, settled_tree(new)),
        ) == with_leaf(n, leaf_id, settled_tree(new)),
{
    lemma_edit_shape(n, leaf_id, new);
    lemma_edit_leaves(n, leaf_id, new);
    lemma_edit_names(n, leaf_id, new);
}

/// Every leaf of a neat tree has its panel of today.
proof fn lemma_neat_leaves(n: NodeView)
    requires
        neat(n),
    ensures
        leaves(n).map_values(settled_leaf()) == leaves(n),
{
    lemma_neat_usable(n);
    lemma_settled_leaves(n);
}

/// Deleting a leaf of a tidy layout takes this one leaf away and keeps the order of the
/// others.
pub proof fn deleting_removes_one_leaf(layout: LayoutView, leaf_id: Seq<char>)
    requires
        tidy(layout.root),
        has_leaf(layout.root, leaf_id),
    ensures
        tidy(after_delete(layout, leaf_id).root),
        ({
            let i = leaf_position(layout.root, leaf_id);
            &&& 0 <= i < leaves(layout.root).len()
            &&& leaves(layout.root)[i].0 == leaf_id
            &&& leaves(after_delete(layout, leaf_id).root) == leaves(layout.root).remove(i)
        }),
{
    let n = layout.root;
    let i = leaf_position(n, leaf_id);
    let empty = NodeView::Empty;
    assert(node_ids(empty) =~= Seq::empty());
    lemma_edit(n, leaf_id, empty);
    let m = with_leaf(n, leaf_id, empty);
    lemma_gaps(m);
    lemma_sanitized_leaves(without_gaps(m));
    lemma_neat_leaves(n);
    assert(leaves(m) =~= leaves(n).remove(i));
    assert(leaves(m).map_values(settled_leaf()) =~= leaves(n).map_values(settled_leaf()).remove(i));
}

/// Another panel in a leaf of a tidy layout changes this leaf alone.
pub proof fn replacing_changes_one_leaf(
    layout: LayoutView,
    leaf_id: Seq<char>,
    panel: LayoutPanelKind,
)
    requires
        tidy(layout.root),
        has_leaf(layout.root, leaf_id),
        panel != LayoutPanelKind::NoPanel,
        !legacy_panel(panel),
    ensures
        after_replace(layout, leaf_id, panel).root == with_leaf(
            layout.root,
            leaf_id,
            NodeView::Leaf { id: leaf_id, panel: settled_panel(panel) },
        ),
        leaves(after_replace(layout, leaf_id, panel).root) == leaves(layout.root).update(
            leaf_position(layout.root, leaf_id),
            (leaf_id, settled_panel(panel)),
        ),
{
    let n = layout.root;
    let i = leaf_position(n, leaf_id);
    let new = NodeView::Leaf { id: leaf_id, panel };
    lemma_leaf_named(n, leaf_id);
    assert(node_ids(new) =~= seq![leaf_id]);
    lemma_edit(n, leaf_id, new);
    let m = with_leaf(n, leaf_id, new);
    lemma_usable_sanitized(m);
    lemma_sanitized_leaves(m);
    lemma_neat_leaves(n);
    assert(leaves(m) =~= leaves(n).update(i, (leaf_id, panel)));
    assert(leaves(m).map_values(settled_leaf()) =~= leaves(n).map_values(settled_leaf()).update(
        i,
        (leaf_id, settled_panel(panel)),
    ));
}

/// The leaves of a neat tree have names.
proof fn lemma_leaf_named(n: NodeView, leaf_id: Seq<char>)
    requires
        neat(n),
        has_leaf(n, leaf_id),
    ensures
        !blank(leaf_id),
        current_panel(leaf_panel(n, leaf_id)->Some_0),
    decreases n,
{
    match n {
        NodeView::Split { first, second, .. } => {
            if has_leaf(*first, leaf_id) {
                lemma_leaf_named(*first, leaf_id);
            } else {
                lemma_leaf_named(*second, leaf_id);
            }
        },
        _ => {},
    }
}

/// Splitting a leaf of a tidy layout puts one new leaf, with a new name, behind it.
pub proof fn splitting_adds_one_leaf(
    layout: LayoutView,
    leaf_id: Seq<char>,
    axis: SplitAxis,
    new_panel: LayoutPanelKind,
)
    requires
        tidy(layout.root),
        has_leaf(layout.root, leaf_id),
        new_panel != LayoutPanelKind::NoPanel,
        !legacy_panel(new_panel),
    ensures
        ({
            let i = leaf_position(layout.root, leaf_id);
            let new_id = naming_of(layout.root).fresh("l"@).0;
            let after = after_split(layout, leaf_id, axis, new_panel).root;
            &&& tidy(after)
            &&& !node_ids(layout.root).contains(new_id)
            &&& leaves(after) == leaves(layout.root).insert(
                i + 1,
                (new_id, settled_panel(new_panel)),
            )
            &&& after == with_leaf(
                layout.root,
                leaf_id,
                settled_tree(split_node(layout.root, leaf_id, axis, new_panel)),
            )
        }),
{
    let n = layout.root;
    let i = leaf_position(n, leaf_id);
    let names = naming_of(n);
    vstd::seq_lib::seq_to_set_is_finite(node_ids(n));
    lemma_letters();
    lemma_fresh(names, "l"@);
    let (new_id, taken) = names.fresh("l"@);
    lemma_fresh(taken, "s"@);
    let split_id = taken.fresh("s"@).0;
    lemma_leaf_named(n, leaf_id);
    let panel = leaf_panel(n, leaf_id)->Some_0;
    let new = split_node(n, leaf_id, axis, new_panel);
    let kept = NodeView::Leaf { id: leaf_id, panel };
    let sibling = NodeView::Leaf { id: new_id, panel: new_panel };
    let nothing = NodeView::Empty;
    lemma_edit_contains(n, leaf_id);
    assert(node_ids(kept) =~= seq![leaf_id]);
    assert(node_ids(sibling) =~= seq![new_id]);
    assert(node_ids(new) =~= seq![split_id, leaf_id, new_id]);
    assert(leaves(kept) =~= seq![(leaf_id, panel)]);
    assert(leaves(sibling) =~= seq![(new_id, new_panel)]);
    assert(leaves(new) =~= seq![(leaf_id, panel), (new_id, new_panel)]);
    assert(!node_ids(n).contains(new_id)) by {
        assert(!node_ids(n).to_set().contains(new_id));
    }
    assert(!node_ids(n).contains(split_id)) by {
        assert(!names.used.contains(split_id));
    }
    assert(split_id != new_id);
    assert(usable(kept) && usable(sibling));
    assert(usable(new));
    lemma_edit(n, leaf_id, new);
    let m = with_leaf(n, leaf_id, new);
    lemma_usable_sanitized(m);
    lemma_sanitized_leaves(m);
    lemma_neat_leaves(n);
    assert(leaves(m) =~= leaves(n).insert(i + 1, (new_id, new_panel)));
    assert(leaves(m).map_values(settled_leaf()) =~= leaves(n).map_values(settled_leaf()).insert(
        i + 1,
        (new_id, settled_panel(new_panel)),
    ));
    assert(settled_tree(kept) == kept);
    let settled_sibling = settled_tree(sibling);
    assert(without_gaps(settled_sibling) == settled_sibling);
    assert(without_gaps(kept) == kept);
    assert(without_gaps(settled_tree(new)) == settled_tree(new));
}

/// Closing the gaps of what is put in place of a leaf is closing those of the whole tree.
proof fn lemma_gaps_inside(n: NodeView, leaf_id: Seq<char>, new: NodeView)
    requires
        neat(n),
        has_leaf(n, leaf_id),
        !(without_gaps(new) is Empty),
    ensures
        without_gaps(with_leaf(n, leaf_id, new)) == with_leaf(n, leaf_id, without_gaps(new)),
        !(with_leaf(n, leaf_id, without_gaps(new)) is Empty),
    decreases n,
{
    match n {
        NodeView::Split { first, second, .. } => {
            lemma_neat_usable(*first);
            lemma_neat_usable(*second);
            if has_leaf(*first, leaf_id) {
                lemma_gaps_inside(*first, leaf_id, new);
            } else {
                lemma_gaps_inside(*second, leaf_id, new);
            }
        },
        _ => {},
    }
}

/// Splitting a leaf of a tidy layout without a panel to add leaves the tree as it is.
pub proof fn splitting_without_a_panel_changes_nothing(
    layout: LayoutView,
    leaf_id: Seq<char>,
    axis: SplitAxis,
)
    requires
        tidy(layout.root),
        has_leaf(layout.root, leaf_id),
    ensures
        after_split(layout, leaf_id, axis, LayoutPanelKind::NoPanel).root == layout.root,
{
    let n = layout.root;
    let names = naming_of(n);
    vstd::seq_lib::seq_to_set_is_finite(node_ids(n));
    lemma_letters();
    lemma_fresh(names, "s"@);
    let split_id = names.fresh("s"@).0;
    lemma_leaf_named(n, leaf_id);
    lemma_edit_contains(n, leaf_id);
    let panel = leaf_panel(n, leaf_id)->Some_0;
    let kept = NodeView::Leaf { id: leaf_id, panel };
    let empty = NodeView::Empty;
    let new = split_node(n, leaf_id, axis, LayoutPanelKind::NoPanel);
    assert(node_ids(kept) =~= seq![leaf_id]);
    assert(node_ids(empty) =~= Seq::empty());
    assert(node_ids(new) =~= seq![split_id, leaf_id]);
    assert(!node_ids(n).to_set().contains(split_id));
    assert(usable(kept) && usable(empty));
    assert(usable(new));
    lemma_edit(n, leaf_id, new);
    assert(settled_tree(kept) == kept);
    assert(without_gaps(kept) == kept);
    assert(settled_tree(empty) == empty && without_gaps(empty) == empty);
    assert(settled_tree(new) == new);
    assert(without_gaps(new) == kept);
    lemma_gaps_inside(n, leaf_id, new);
    lemma_usable_sanitized(with_leaf(n, leaf_id, new));
    lemma_same_panel(n, leaf_id, panel);
}

proof fn lemma_edit_contains(n: NodeView, leaf_id: Seq<char>)
    requires
        has_leaf(n, leaf_id),
    ensures
        node_ids(n).contains(leaf_id),
    decreases n,
{
    match n {
        NodeView::Leaf { id, .. } => {
            assert(node_ids(n)[0] == leaf_id);
        },
        NodeView::Split { id, first, second, .. } => {
            lemma_split_contains(id, node_ids(*first), node_ids(*second), leaf_id);
            if has_leaf(*first, leaf_id) {
                lemma_edit_contains(*first, leaf_id);
            } else {
                lemma_edit_contains(*second, leaf_id);
            }
        },
        _ => {},
    }
}

proof fn lemma_ratio_edit(n: NodeView, split_id: Seq<char>, bits: u32)
    requires
        neat(n),
    ensures
        neat(with_ratio(n, split_id, bits)),
        node_ids(with_ratio(n, split_id, bits)) == node_ids(n),
        leaves(with_ratio(n, split_id, bits)) == leaves(n),
        with_ratio(n, split_id, bits) is Empty == n is Empty,
    decreases n,
{
    lemma_settled_ratio(bits);
    match n {
        NodeView::Split { id, first, second, .. } => {
            lemma_ratio_edit(*first, split_id, bits);
            lemma_ratio_edit(*second, split_id, bits);
        },
        _ => {},
    }
}

/// A new ratio in a tidy layout changes nothing else, neither leaves nor names.
pub proof fn setting_a_ratio_keeps_the_rest(layout: LayoutView, split_id: Seq<char>, bits: u32)
    requires
        tidy(layout.root),
    ensures
        after_ratio(layout, split_id, bits).root == with_ratio(layout.root, split_id, bits),
        leaves(after_ratio(layout, split_id, bits).root) == leaves(layout.root),
        node_ids(after_ratio(layout, split_id, bits).root) == node_ids(layout.root),
{
    lemma_ratio_edit(layout.root, split_id, bits);
    tidy_trees_stay(with_ratio(layout.root, split_id, bits));
}

/// Replacing a leaf inside of what was put in place of another one is replacing it in the whole
/// tree.
proof fn lemma_leaf_inside(
    n: NodeView,
    leaf_id: Seq<char>,
    new: NodeView,
    inner_id: Seq<char>,
    inner: NodeView,
)
    requires
        has_leaf(n, leaf_id),
        !has_leaf(n, inner_id),
        has_leaf(new, inner_id),
    ensures
        has_leaf(with_leaf(n, leaf_id, new), inner_id),
        with_leaf(with_leaf(n, leaf_id, new), inner_id, inner) == with_leaf(
            n,
            leaf_id,
            with_leaf(new, inner_id, inner),
        ),
    decreases n,
{
    match n {
        NodeView::Split { first, second, .. } => {
            if has_leaf(*first, leaf_id) {
                lemma_leaf_inside(*first, leaf_id, new, inner_id, inner);
            } else {
                lemma_leaf_inside(*second, leaf_id, new, inner_id, inner);
            }
        },
        _ => {},
    }
}

/// What is put in place of a leaf and holds that leaf takes no leaf away.
proof fn lemma_leaf_stays(n: NodeView, leaf_id: Seq<char>, new: NodeView, other: Seq<char>)
    requires
        has_leaf(n, leaf_id),
        has_leaf(new, leaf_id),
        has_leaf(n, other),
    ensures
        has_leaf(with_leaf(n, leaf_id, new), other),
    decreases n,
{
    match n {
        NodeView::Split { first, second, .. } => {
            if has_leaf(*first, leaf_id) {
                if has_leaf(*first, other) {
                    lemma_leaf_stays(*first, leaf_id, new, other);
                }
            } else if has_leaf(*second, other) {
                lemma_leaf_stays(*second, leaf_id, new, other);
            }
        },
        _ => {},
    }
}

/// Deleting the leaf that a split has added gives the layout back as it was. The layout that was
/// split does not have that leaf.
pub proof fn deleting_undoes_splitting(
    layout: LayoutView,
    leaf_id: Seq<char>,
    axis: SplitAxis,
    new_panel: LayoutPanelKind,
)
    requires
        layout == sanitized(layout),
        has_leaf(layout.root, leaf_id),
        new_panel != LayoutPanelKind::NoPanel,
        !legacy_panel(new_panel),
    ensures
        ({
            let new_id = naming_of(layout.root).fresh("l"@).0;
            let split = after_split(layout, leaf_id, axis, new_panel);
            &&& !has_leaf(layout.root, new_id)
            &&& has_leaf(split.root, new_id)
            &&& after_delete(split, new_id) == layout
        }),
{
    let n = layout.root;
    let new_id = naming_of(n).fresh("l"@).0;
    let split = after_split(layout, leaf_id, axis, new_panel);
    sanitizing_tidies(n);
    splitting_adds_one_leaf(layout, leaf_id, axis, new_panel);
    lemma_leaf_named(n, leaf_id);
    lemma_edit_contains(n, leaf_id);
    if has_leaf(n, new_id) {
        lemma_edit_contains(n, new_id);
    }
    let panel = leaf_panel(n, leaf_id)->Some_0;
    let kept = NodeView::Leaf { id: leaf_id, panel };
    let sibling = NodeView::Leaf { id: new_id, panel: settled_panel(new_panel) };
    let unsettled = NodeView::Leaf { id: new_id, panel: new_panel };
    let empty = NodeView::Empty;
    let new = split_node(n, leaf_id, axis, new_panel);
    let put = settled_tree(new);
    assert(settled_tree(kept) == kept);
    assert(settled_tree(unsettled) == sibling);
    assert(leaf_panel(kept, leaf_id) is Some && leaf_panel(kept, new_id) is None);
    assert(leaf_panel(sibling, new_id) is Some);
    assert(has_leaf(put, new_id));
    assert(has_leaf(put, leaf_id));
    lemma_leaf_inside(n, leaf_id, put, new_id, empty);
    let gap = with_leaf(put, new_id, empty);
    assert(with_leaf(sibling, new_id, empty) == empty);
    assert(without_gaps(kept) == kept && without_gaps(empty) == empty);
    assert(without_gaps(gap) == kept);
    lemma_gaps_inside(n, leaf_id, gap);
    lemma_same_panel(n, leaf_id, panel);
    tidy_trees_stay(n);
    if let Some(selected) = layout.selected_leaf_id {
        lemma_leaf_stays(n, leaf_id, put, selected);
    }
    assert(after_delete(split, new_id) =~= layout);
}

/// The axis, the ratio and the two minimums of the split with an id.
pub open spec fn find_split(n: NodeView, split_id: Seq<char>) -> Option<(SplitAxis, u32, u32, u32)>
    decreases n,
{
    match n {
        NodeView::Split { id, axis, ratio, min_first, min_second, first, second } => if id
            == split_id {
            Some((axis, ratio, min_first, min_second))
        } else if find_split(*first, split_id) is Some {
            find_split(*first, split_id)
        } else {
            find_split(*second, split_id)
        },
        _ => None,
    }
}

proof fn lemma_find_has(n: NodeView, split_id: Seq<char>)
    ensures
        crate::layout::tree::has_split(n, split_id) <==> find_split(n, split_id) is Some,
        find_split(n, split_id) is Some ==> node_ids(n).contains(split_id),
    decreases n,
{
    match n {
        NodeView::Split { id, first, second, .. } => {
            lemma_find_has(*first, split_id);
            lemma_find_has(*second, split_id);
            let all = node_ids(n);
            let a = node_ids(*first);
            let b = node_ids(*second);
            if id == split_id {
                assert(all[0] == split_id);
            } else if find_split(*first, split_id) is Some {
                let k = choose|k: int| 0 <= k < a.len() && a[k] == split_id;
                assert(all[1 + k] == split_id);
            } else if find_split(*second, split_id) is Some {
                let k = choose|k: int| 0 <= k < b.len() && b[k] == split_id;
                assert(all[1 + a.len() + k] == split_id);
            }
        },
        _ => {},
    }
}

proof fn lemma_ratio_found(n: NodeView, split_id: Seq<char>, bits: u32, other: Seq<char>)
    ensures
        other != split_id ==> find_split(with_ratio(n, split_id, bits), other) == find_split(
            n,
            other,
        ),
        find_split(n, split_id) matches Some((axis, ratio, a, b)) ==> find_split(
            with_ratio(n, split_id, bits),
            split_id,
        ) == Some(
            (
                axis,
                if crate::layout::tree::finite_bits(bits) {
                    unit_bits(bits)
                } else {
                    ratio
                },
                a,
                b,
            ),
        ),
        find_split(n, split_id) is None ==> find_split(
            with_ratio(n, split_id, bits),
            split_id,
        ) is None,
    decreases n,
{
    match n {
        NodeView::Split { id, first, second, .. } => {
            lemma_find_has(*first, split_id);
            lemma_find_has(*second, split_id);
            lemma_ratio_found(*first, split_id, bits, other);
            lemma_ratio_found(*second, split_id, bits, other);
        },
        _ => {},
    }
}

/// Setting the ratio of a split sets that ratio and no other, and keeps the split's axis and
/// minimums. A ratio below zero counts as zero and one above one as one; what is no number
/// changes nothing.
pub proof fn ratios_change_alone(
    layout: LayoutView,
    split_id: Seq<char>,
    bits: u32,
    other: Seq<char>,
)
    requires
        tidy(layout.root),
        find_split(layout.root, split_id) is Some,
        other != split_id,
    ensures
        ({
            let before = find_split(layout.root, split_id)->Some_0;
            let after = find_split(after_ratio(layout, split_id, bits).root, split_id);
            &&& after is Some
            &&& after->Some_0.0 == before.0
            &&& after->Some_0.2 == before.2
            &&& after->Some_0.3 == before.3
            &&& bits <= 0x3f80_0000 ==> after->Some_0.1 == bits
            &&& 0x3f80_0000 < bits < 0x7f80_0000 ==> after->Some_0.1 == 0x3f80_0000
            &&& 0x8000_0000 < bits < 0xff80_0000 ==> after->Some_0.1 == 0
            &&& 0x7f80_0000 <= bits < 0x8000_0000 || 0xff80_0000 <= bits ==> after->Some_0.1
                == before.1
        }),
        find_split(after_ratio(layout, split_id, bits).root, other) == find_split(
            layout.root,
            other,
        ),
{
    setting_a_ratio_keeps_the_rest(layout, split_id, bits);
    lemma_ratio_found(layout.root, split_id, bits, other);
}

proof fn lemma_found_in_edit(n: NodeView, leaf_id: Seq<char>, new: NodeView, split_id: Seq<char>)
    requires
        has_leaf(n, leaf_id),
    ensures
        find_split(n, split_id) is None ==> find_split(with_leaf(n, leaf_id, new), split_id)
            == find_split(new, split_id),
        find_split(new, split_id) is None ==> find_split(with_leaf(n, leaf_id, new), split_id)
            == find_split(n, split_id),
    decreases n,
{
    match n {
        NodeView::Split { id, first, second, .. } => {
            if has_leaf(*first, leaf_id) {
                lemma_found_in_edit(*first, leaf_id, new, split_id);
            } else {
                lemma_found_in_edit(*second, leaf_id, new, split_id);
            }
        },
        _ => {},
    }
}

/// Splitting a leaf adds one split, along the axis that was asked for and in two equal parts,
/// and leaves every other split as it is.
pub proof fn splitting_adds_one_split(
    layout: LayoutView,
    leaf_id: Seq<char>,
    axis: SplitAxis,
    new_panel: LayoutPanelKind,
)
    requires
        tidy(layout.root),
        has_leaf(layout.root, leaf_id),
        new_panel != LayoutPanelKind::NoPanel,
        !legacy_panel(new_panel),
    ensures
        exists|id: Seq<char>|
            {
                &&& find_split(layout.root, id) is None
                &&& #[trigger] find_split(
                    after_split(layout, leaf_id, axis, new_panel).root,
                    id,
                ) == Some((axis, 0x3f00_0000u32, 0u32, 0u32))
                &&& forall|other: Seq<char>|
                    other != id ==> #[trigger] find_split(
                        after_split(layout, leaf_id, axis, new_panel).root,
                        other,
                    ) == find_split(layout.root, other)
            },
{
    let n = layout.root;
    splitting_adds_one_leaf(layout, leaf_id, axis, new_panel);
    let names = naming_of(n);
    vstd::seq_lib::seq_to_set_is_finite(node_ids(n));
    lemma_letters();
    lemma_fresh(names, "l"@);
    let (new_id, taken) = names.fresh("l"@);
    lemma_fresh(taken, "s"@);
    let id = taken.fresh("s"@).0;
    let new = split_node(n, leaf_id, axis, new_panel);
    let after = after_split(layout, leaf_id, axis, new_panel).root;
    let settled = settled_tree(new);
    assert(!node_ids(n).contains(id)) by {
        assert(!names.used.contains(id));
    }
    lemma_find_has(n, id);
    lemma_found_in_edit(n, leaf_id, settled, id);
    assert(settled == (NodeView::Split {
        id,
        axis,
        ratio: 0x3f00_0000,
        min_first: 0,
        min_second: 0,
        first: Box::new(settled_tree(*new->first)),
        second: Box::new(settled_tree(*new->second)),
    }));
    assert(find_split(settled, id) == Some((axis, 0x3f00_0000u32, 0u32, 0u32)));
    assert forall|other: Seq<char>| other != id implies #[trigger] find_split(after, other)
        == find_split(n, other) by {
        assert(find_split(settled_tree(*new->first), other) is None);
        assert(find_split(settled_tree(*new->second), other) is None);
        lemma_found_in_edit(n, leaf_id, settled, other);
    }
}

/// The panel that stands for a panel: the button clusters of the older kinds are one.
pub open spec fn clustered(panel: LayoutPanelKind) -> LayoutPanelKind {
    if panel == LayoutPanelKind::ImportButtonCluster || panel
        == LayoutPanelKind::TransportButtonCluster || panel
        == LayoutPanelKind::UtilityButtonCluster {
        LayoutPanelKind::ButtonCluster
    } else {
        panel
    }
}

/// The panels of a tree that are shown, from first to last.
pub open spec fn shown_panels(n: NodeView) -> Seq<LayoutPanelKind>
    decreases n,
{
    match n {
        NodeView::Empty => Seq::empty(),
        NodeView::Leaf { panel, .. } => if panel == LayoutPanelKind::NoPanel {
            Seq::empty()
        } else if panel == LayoutPanelKind::ControlBar {
            seq![
                LayoutPanelKind::ButtonCluster,
                LayoutPanelKind::ButtonCluster,
                LayoutPanelKind::ButtonCluster,
                LayoutPanelKind::VolumeSlider,
                LayoutPanelKind::SeekBar,
            ]
        } else if panel == LayoutPanelKind::AlbumArtPane {
            seq![LayoutPanelKind::MetadataViewer, LayoutPanelKind::AlbumArtViewer]
        } else {
            seq![clustered(panel)]
        },
        NodeView::Split { first, second, .. } => shown_panels(*first) + shown_panels(*second),
    }
}

proof fn lemma_normalized_panels(n: NodeView, names: Naming)
    ensures
        shown_panels(normalized(n, names).0) == shown_panels(n),
    decreases n,
{
    reveal_with_fuel(shown_panels, 6);
    match n {
        NodeView::Leaf { id, panel } => {
            if panel == LayoutPanelKind::ControlBar {
                let (ids, after) = names.several("l"@, 9);
                assert(shown_panels(control_stack(ids)) =~= shown_panels(n));
            } else if panel == LayoutPanelKind::AlbumArtPane {
                let (ids, after) = names.several("l"@, 3);
                assert(shown_panels(album_stack(ids)) =~= shown_panels(n));
            }
        },
        NodeView::Split { id, axis, ratio, min_first, min_second, first, second } => {
            lemma_normalized_panels(*first, names);
            let (tidy_first, after_first) = normalized(*first, names);
            lemma_normalized_panels(*second, after_first);
            let (tidy_second, after_second) = normalized(*second, after_first);
            let all = shown_panels(*first) + shown_panels(*second);
            if tidy_first is Empty {
                assert(all =~= shown_panels(tidy_second));
            } else if tidy_second is Empty {
                assert(all =~= shown_panels(tidy_first));
            }
        },
        _ => {},
    }
}

/// Sanitizing keeps the panels that are shown, in their order: leaves without a panel go, the
/// older button clusters become plain ones, and the older bars become the panels that they
/// held.
pub proof fn sanitizing_keeps_the_panels(layout: LayoutView)
    ensures
        shown_panels(sanitized(layout).root) == shown_panels(layout.root),
{
    lemma_normalized_panels(layout.root, naming_of(layout.root));
}

/// Beside the tree, sanitizing settles the version, the color scheme and the selection, and
/// keeps everything else.
pub proof fn sanitizing_keeps_the_settings(layout: LayoutView)
    ensures
        ({
            let r = sanitized(layout);
            &&& r.art_column_min_px == layout.art_column_min_px
            &&& r.art_column_max_px == layout.art_column_max_px
            &&& r.custom_colors == layout.custom_colors
            &&& r.playlist_columns == layout.playlist_columns
            &&& r.width_overrides == layout.width_overrides
            &&& r.button_clusters == layout.button_clusters
            &&& r.collection_panels == layout.collection_panels
            &&& r.text_panels == layout.text_panels
            &&& r.image_panels == layout.image_panels
            &&& !blank(layout.color_scheme) ==> r.color_scheme == layout.color_scheme
            &&& blank(layout.color_scheme) ==> r.color_scheme == "roqtune_dark"@
            &&& r.selected_leaf_id matches Some(id) ==> layout.selected_leaf_id == Some(id)
                && has_leaf(r.root, id)
            &&& layout.selected_leaf_id matches Some(id) ==> (has_leaf(r.root, id)
                ==> r.selected_leaf_id == Some(id))
        }),
{
}

/// A ratio from zero to one stays; one below becomes zero, one above becomes one, and what is
/// no finite number becomes a half.
pub proof fn ratios_are_settled(bits: u32)
    ensures
        bits <= 0x3f80_0000 ==> settled_ratio(bits) == bits,
        0x3f80_0000 < bits < 0x7f80_0000 ==> settled_ratio(bits) == 0x3f80_0000,
        0x8000_0000 < bits < 0xff80_0000 ==> settled_ratio(bits) == 0,
        0x7f80_0000 <= bits < 0x8000_0000 || 0xff80_0000 <= bits ==> settled_ratio(bits)
            == 0x3f00_0000,
{
}

/// The panel of a leaf is the one of the first leaf with its id.
pub proof fn leaves_hold_their_panel(n: NodeView, leaf_id: Seq<char>)
    ensures
        leaf_panel(n, leaf_id) matches Some(panel) ==> exists|i: int|
            0 <= i < leaves(n).len() && #[trigger] leaves(n)[i] == (leaf_id, panel) && forall|j: int|
                0 <= j < i ==> (#[trigger] leaves(n)[j]).0 != leaf_id,
        leaf_panel(n, leaf_id) is None ==> forall|j: int|
            0 <= j < leaves(n).len() ==> (#[trigger] leaves(n)[j]).0 != leaf_id,
    decreases n,
{
    match n {
        NodeView::Leaf { id, panel } => {
            assert(leaves(n) =~= seq![(id, panel)]);
            assert(leaves(n)[0] == (id, panel));
        },
        NodeView::Split { first, second, .. } => {
            leaves_hold_their_panel(*first, leaf_id);
            leaves_hold_their_panel(*second, leaf_id);
            let a = leaves(*first);
            let b = leaves(*second);
            let all = leaves(n);
            match leaf_panel(*first, leaf_id) {
                Some(panel) => {
                    let i = choose|i: int|
                        0 <= i < a.len() && #[trigger] a[i] == (leaf_id, panel) && forall|j: int|
                            0 <= j < i ==> (#[trigger] a[j]).0 != leaf_id;
                    assert(all[i] == a[i]);
                    assert forall|j: int| 0 <= j < i implies (#[trigger] all[j]).0 != leaf_id by {
                        assert(all[j] == a[j]);
                    }
                },
                None => {
                    if let Some(panel) = leaf_panel(*second, leaf_id) {
                        let i = choose|i: int|
                            0 <= i < b.len() && #[trigger] b[i] == (leaf_id, panel)
                                && forall|j: int|
                                0 <= j < i ==> (#[trigger] b[j]).0 != leaf_id;
                        assert(all[a.len() + i] == b[i]);
                        assert forall|j: int| 0 <= j < a.len() + i implies (
                        #[trigger] all[j]).0 != leaf_id by {
                            if j < a.len() {
                                assert(all[j] == a[j]);
                            } else {
                                assert(all[j] == b[j - a.len()]);
                            }
                        }
                    } else {
                        assert forall|j: int| 0 <= j < all.len() implies (
                        #[trigger] all[j]).0 != leaf_id by {
                            if j < a.len() {
                                assert(all[j] == a[j]);
                            } else {
                                assert(all[j] == b[j - a.len()]);
                            }
                        }
                    }
                },
            }
        },
        _ => {},
    }
}

/// An empty layout gets one leaf, with the panel that was asked for or else the track list; a
/// layout with a leaf stays as it is.
pub proof fn empty_layouts_get_a_leaf(layout: LayoutView, panel: LayoutPanelKind)
    ensures
        !(layout.root is Empty) ==> crate::layout::tree::with_first_leaf(layout, panel) == layout,
        layout.root is Empty && panel == LayoutPanelKind::NoPanel ==> shown_panels(
            crate::layout::tree::with_first_leaf(layout, panel).root,
        ) == seq![LayoutPanelKind::TrackList],
        layout.root is Empty && panel != LayoutPanelKind::NoPanel && !legacy_panel(panel)
            ==> shown_panels(crate::layout::tree::with_first_leaf(layout, panel).root) == seq![
            clustered(panel),
        ],
{
    if layout.root is Empty {
        let start = NodeView::Leaf {
            id: "l1"@,
            panel: if panel == LayoutPanelKind::NoPanel {
                LayoutPanelKind::TrackList
            } else {
                panel
            },
        };
        lemma_normalized_panels(start, naming_of(start));
    }
}

/// The layout that the player starts with shows the buttons, volume and seek bar above, then
/// the playlists, the tracks and what is known of the track that plays, and the status bar
/// below.
pub proof fn the_first_layout_shows_everything()
    ensures
        shown_panels(crate::layout::defaults::default_root()) == seq![
            LayoutPanelKind::ButtonCluster,
            LayoutPanelKind::ButtonCluster,
            LayoutPanelKind::ButtonCluster,
            LayoutPanelKind::VolumeSlider,
            LayoutPanelKind::SeekBar,
            LayoutPanelKind::PlaylistSwitcher,
            LayoutPanelKind::TrackList,
            LayoutPanelKind::MetadataViewer,
            LayoutPanelKind::AlbumArtViewer,
            LayoutPanelKind::StatusBar,
        ],
{
    reveal_with_fuel(shown_panels, 8);
    assert(shown_panels(crate::layout::defaults::default_root()) =~= seq![
        LayoutPanelKind::ButtonCluster,
        LayoutPanelKind::ButtonCluster,
        LayoutPanelKind::ButtonCluster,
        LayoutPanelKind::VolumeSlider,
        LayoutPanelKind::SeekBar,
        LayoutPanelKind::PlaylistSwitcher,
        LayoutPanelKind::TrackList,
        LayoutPanelKind::MetadataViewer,
        LayoutPanelKind::AlbumArtViewer,
        LayoutPanelKind::StatusBar,
    ]);
}

/// Two panels that are not of the older bars have the same code only where they are the same.
pub proof fn panels_have_their_own_code(a: LayoutPanelKind, b: LayoutPanelKind)
    requires
        !legacy_panel(a),
        !legacy_panel(b),
        a != b,
    ensures
        crate::layout::panel_code(a) != crate::layout::panel_code(b),
{
}

} // verus!
