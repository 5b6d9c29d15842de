//! The window's tab groups and its split layout kept in step: every tab group has
//! exactly one pane, and moving tabs between groups, tearing a tab off into a new
//! pane or clearing out empty groups changes both together.

use vstd::prelude::*;

use crate::split_pane::{
    leaves, lemma_first_index_bound, lemma_leaves_nonempty, lemma_remove_leaves,
    lemma_split_leaves, lemma_swap_leaves, first_index, remove_tree, split_tree, swap_id,
    swapped_tree, DropSide, SplitPane, SplitPaneManager,
};
use crate::keybindings::ShortcutAction;
use crate::tabs::{
    closing_where, group_index, has_group, lemma_wrap, next_group_after, next_pos,
    prev_group_before, prev_pos, TabGroup, TabManager,
};

verus! {

/// The panes are the tab groups: no group has two panes, and a group has a pane
/// exactly when the tab manager has it.
pub open spec fn in_step<T, R: Copy>(tabs: TabManager<T>, panes: SplitPaneManager<R>) -> bool {
    &&& tabs.wf()
    &&& leaves(panes.tree()).no_duplicates()
    &&& forall|x: usize|
        #![trigger leaves(panes.tree()).contains(x)]
        #![trigger has_group(tabs.groups_view(), x)]
        leaves(panes.tree()).contains(x) <==> has_group(tabs.groups_view(), x)
}

/// Splitting a pane of the layout for a group not in it adds that group, once.
proof fn lemma_split_adds<R>(t: SplitPane<R>, target: usize, new_group: usize, horizontal: bool, ratio: R)
    requires
        leaves(t).contains(target),
        !leaves(t).contains(new_group),
        leaves(t).no_duplicates(),
    ensures
        leaves(split_tree(t, target, new_group, horizontal, ratio).0).no_duplicates(),
        forall|x: usize|
            #[trigger] leaves(split_tree(t, target, new_group, horizontal, ratio).0).contains(x)
                <==> leaves(t).contains(x) || x == new_group,
{
    lemma_split_leaves(t, target, new_group, horizontal, ratio);
    lemma_first_index_bound(leaves(t), target);
    let l = leaves(t);
    let k = first_index(l, target);
    let n = leaves(split_tree(t, target, new_group, horizontal, ratio).0);
    assert(n =~= l.subrange(0, k + 1) + seq![new_group] + l.subrange(k + 1, l.len() as int));
    assert forall|x: usize| #[trigger] n.contains(x) <==> l.contains(x) || x == new_group by {
        if n.contains(x) {
            let i = choose|i: int| 0 <= i < n.len() && n[i] == x;
            if i <= k {
                assert(l[i] == x);
            } else if i > k + 1 {
                assert(l[i - 1] == x);
            }
        }
        if l.contains(x) {
            let i = choose|i: int| 0 <= i < l.len() && l[i] == x;
            if i <= k {
                assert(n[i] == x);
            } else {
                assert(n[i + 1] == x);
            }
        }
        if x == new_group {
            assert(n[k + 1] == x);
        }
    }
    assert forall|i: int, j: int| 0 <= i < n.len() && 0 <= j < n.len() && i != j implies n[i]
        != n[j] by {
        let oi = if i <= k { i } else { i - 1 };
        let oj = if j <= k { j } else { j - 1 };
        if i != k + 1 && j != k + 1 {
            assert(n[i] == l[oi]);
            assert(n[j] == l[oj]);
        } else if i == k + 1 {
            assert(n[j] == l[oj]);
        } else {
            assert(n[i] == l[oi]);
        }
    }
}

/// Removing a group's pane from a layout of more than that pane drops exactly that
/// group.
proof fn lemma_remove_drops<R>(t: SplitPane<R>, target: usize)
    requires
        leaves(t).contains(target),
        t != SplitPane::<R>::Single(target),
        leaves(t).no_duplicates(),
    ensures
        leaves(remove_tree(t, target).0).no_duplicates(),
        forall|x: usize|
            #[trigger] leaves(remove_tree(t, target).0).contains(x) <==> leaves(t).contains(x)
                && x != target,
{
    lemma_remove_leaves(t, target);
    lemma_first_index_bound(leaves(t), target);
    let l = leaves(t);
    let k = first_index(l, target);
    let n = leaves(remove_tree(t, target).0);
    assert(n =~= l.remove(k));
    assert forall|x: usize| #[trigger] n.contains(x) <==> l.contains(x) && x != target by {
        if n.contains(x) {
            let i = choose|i: int| 0 <= i < n.len() && n[i] == x;
            if i < k {
                assert(l[i] == x);
                assert(i != k);
            } else {
                assert(l[i + 1] == x);
                assert(i + 1 != k);
            }
        }
        if l.contains(x) && x != target {
            let i = choose|i: int| 0 <= i < l.len() && l[i] == x;
            assert(i != k);
            if i < k {
                assert(n[i] == x);
            } else {
                assert(n[i - 1] == x);
            }
        }
    }
    assert forall|i: int, j: int| 0 <= i < n.len() && 0 <= j < n.len() && i != j implies n[i]
        != n[j] by {
        let oi = if i < k { i } else { i + 1 };
        let oj = if j < k { j } else { j + 1 };
        assert(n[i] == l[oi]);
        assert(n[j] == l[oj]);
    }
}


/// Groups with the same identifiers, position by position, have the same set of
/// identifiers.
proof fn lemma_same_ids<T>(a: Seq<TabGroup<T>>, b: Seq<TabGroup<T>>)
    requires
        a.len() == b.len(),
        forall|j: int| 0 <= j < a.len() ==> (#[trigger] b[j]).group_id() == a[j].group_id(),
    ensures
        forall|x: usize| #[trigger] has_group(b, x) <==> has_group(a, x),
{
    assert forall|x: usize| #[trigger] has_group(b, x) <==> has_group(a, x) by {
        if has_group(b, x) {
            let j = choose|j: int| 0 <= j < b.len() && (#[trigger] b[j]).group_id() == x;
            assert(a[j].group_id() == x);
        }
        if has_group(a, x) {
            let j = choose|j: int| 0 <= j < a.len() && (#[trigger] a[j]).group_id() == x;
            assert(b[j].group_id() == x);
        }
    }
}

/// Removing the group at a position removes exactly its identifier, when the
/// identifiers are distinct.
proof fn lemma_remove_ids<T>(gs: Seq<TabGroup<T>>, idx: int)
    requires
        0 <= idx < gs.len(),
        forall|i: int, j: int|
            0 <= i < gs.len() && 0 <= j < gs.len() && i != j ==> (#[trigger] gs[i]).group_id()
                != (#[trigger] gs[j]).group_id(),
    ensures
        forall|x: usize| #[trigger] has_group(gs.remove(idx), x) <==> has_group(gs, x) && x
            != gs[idx].group_id(),
{
    let r = gs.remove(idx);
    assert forall|x: usize| #[trigger] has_group(r, x) <==> has_group(gs, x) && x != gs[idx].group_id() by {
        if has_group(r, x) {
            let j = choose|j: int| 0 <= j < r.len() && (#[trigger] r[j]).group_id() == x;
            let oj = if j < idx { j } else { j + 1 };
            assert(r[j] == gs[oj]);
            assert(oj != idx);
        }
        if has_group(gs, x) && x != gs[idx].group_id() {
            let j = choose|j: int| 0 <= j < gs.len() && (#[trigger] gs[j]).group_id() == x;
            assert(j != idx);
            if j < idx {
                assert(r[j] == gs[j]);
            } else {
                assert(r[j - 1] == gs[j]);
            }
        }
    }
}

/// A layout with two different groups in it is more than one pane.
proof fn lemma_two_leaves<R>(t: SplitPane<R>, a: usize, b: usize)
    requires
        leaves(t).contains(a),
        leaves(t).contains(b),
        a != b,
    ensures
        t != SplitPane::<R>::Single(a),
{
    if t == SplitPane::<R>::Single(a) {
        assert(leaves(t) =~= seq![a]);
        let i = choose|i: int| 0 <= i < leaves(t).len() && leaves(t)[i] == b;
    }
}

/// Tear a tab off into a new group whose pane splits the source group's pane in
/// two, the new one to the right (or below); the new group gets the focus. A source
/// group left empty goes, with its pane. The groups and panes stay in step when the
/// source group exists.
pub fn tear_tab_to_new_group<T, R: Copy>(
    tabs: &mut TabManager<T>,
    panes: &mut SplitPaneManager<R>,
    source_group_id: usize,
    tab_idx: usize,
    horizontal: bool,
    ratio: R,
)
    requires
        old(tabs).wf(),
        old(tabs).next_id() < usize::MAX,
    ensures
        final(tabs).wf(),
        final(tabs).next_id() == old(tabs).next_id() + 1,
        final(tabs).focused_id() == old(tabs).next_id(),
        final(panes).focus() == old(tabs).next_id(),
        has_group(final(tabs).groups_view(), old(tabs).next_id()),
        ({
            let gs = old(tabs).groups_view();
            let moved = has_group(gs, source_group_id) && tab_idx < gs[group_index(
                gs,
                source_group_id,
            )].entries().len();
            let g = final(tabs).groups_view()[group_index(
                final(tabs).groups_view(),
                old(tabs).next_id(),
            )];
            &&& moved ==> g.entries() == seq![
                gs[group_index(gs, source_group_id)].entries()[tab_idx as int],
            ] && g.active_pos() == 0
            &&& !moved ==> g.entries().len() == 0
        }),
        in_step(*old(tabs), *old(panes)) && has_group(old(tabs).groups_view(), source_group_id)
            ==> in_step(*final(tabs), *final(panes)),
{
    let ghost gs0 = tabs.groups_view();
    let ghost t0 = panes.tree();
    let new_group_id = tabs.new_group();
    let ghost gs1 = tabs.groups_view();
    proof {
        assert forall|x: usize| #[trigger] has_group(gs1, x) <==> has_group(gs0, x) || x == new_group_id by {
            if has_group(gs1, x) {
                let j = choose|j: int| 0 <= j < gs1.len() && (#[trigger] gs1[j]).group_id() == x;
                if j < gs0.len() {
                    assert(gs1[j] == gs0[j]);
                }
            }
            if has_group(gs0, x) {
                let j = choose|j: int| 0 <= j < gs0.len() && (#[trigger] gs0[j]).group_id() == x;
                assert(gs1[j] == gs0[j]);
            }
            if x == new_group_id {
                assert(gs1[gs1.len() - 1].group_id() == x);
            }
        }
        assert(!has_group(gs0, new_group_id)) by {
            if has_group(gs0, new_group_id) {
                let j = choose|j: int| 0 <= j < gs0.len() && (#[trigger] gs0[j]).group_id() == new_group_id;
            }
        }
        let ni = group_index(gs1, new_group_id);
        assert(gs1[gs1.len() - 1].group_id() == new_group_id);
        assert(ni == gs1.len() - 1);
    }
    let src_empty = tabs.move_tab(source_group_id, tab_idx, new_group_id);
    let ghost gs2 = tabs.groups_view();
    proof {
        assert forall|j: int| 0 <= j < gs1.len() implies (#[trigger] gs2[j]).group_id()
            == gs1[j].group_id() by {
            if has_group(gs1, source_group_id) && j == group_index(gs1, source_group_id) {
            } else if j == group_index(gs1, new_group_id) {
            }
        }
        lemma_same_ids(gs1, gs2);
    }
    if horizontal {
        panes.split_group_horizontal(source_group_id, new_group_id, ratio);
    } else {
        panes.split_group_vertical(source_group_id, new_group_id, ratio);
    }
    let ghost t1 = panes.tree();
    proof {
        if in_step(*old(tabs), *old(panes)) && has_group(gs0, source_group_id) {
            assert(leaves(t0).contains(source_group_id));
            assert(!leaves(t0).contains(new_group_id));
            lemma_split_adds(t0, source_group_id, new_group_id, horizontal, ratio);
        }
    }
    tabs.set_focused_group(new_group_id);
    panes.set_focused_group(new_group_id);
    let ghost gs3 = tabs.groups_view();
    if src_empty {
        let ghost gi = group_index(gs3, source_group_id);
        proof {
            if in_step(*old(tabs), *old(panes)) && has_group(gs0, source_group_id) {
                assert(leaves(t1).contains(new_group_id));
                assert(leaves(t1).contains(source_group_id));
                lemma_two_leaves(t1, source_group_id, new_group_id);
                lemma_remove_drops(t1, source_group_id);
            }
        }
        panes.on_group_removed(source_group_id);
        let removed = tabs.remove_group(source_group_id);
        proof {
            if removed {
                assert(gs3[gi].group_id() == source_group_id);
                lemma_remove_ids(gs3, gi);
            }
        }
    }
    proof {
        let gsf = tabs.groups_view();
        assert(has_group(gsf, new_group_id)) by {
            if src_empty {
                if has_group(gs3, source_group_id) {
                    lemma_remove_ids(gs3, group_index(gs3, source_group_id));
                }
            }
        }
    }
}

/// Exchanging two groups of a layout keeps which groups it has, each once.
proof fn lemma_swap_keeps<R>(t: SplitPane<R>, a: usize, b: usize)
    requires
        leaves(t).contains(a),
        leaves(t).contains(b),
        leaves(t).no_duplicates(),
    ensures
        leaves(swapped_tree(t, a, b)).no_duplicates(),
        forall|x: usize| #[trigger] leaves(swapped_tree(t, a, b)).contains(x) <==> leaves(t).contains(x),
{
    lemma_swap_leaves(t, a, b);
    let l = leaves(t);
    let n = leaves(swapped_tree(t, a, b));
    assert(n.len() == l.len());
    assert forall|x: usize| #[trigger] n.contains(x) <==> l.contains(x) by {
        if n.contains(x) {
            let i = choose|i: int| 0 <= i < n.len() && n[i] == x;
            assert(n[i] == swap_id(l[i], a, b));
        }
        if l.contains(x) {
            let i = choose|i: int| 0 <= i < l.len() && l[i] == x;
            if x == a {
                let j = choose|j: int| 0 <= j < l.len() && l[j] == b;
                assert(n[j] == swap_id(l[j], a, b));
            } else if x == b {
                let j = choose|j: int| 0 <= j < l.len() && l[j] == a;
                assert(n[j] == swap_id(l[j], a, b));
            } else {
                assert(n[i] == swap_id(l[i], a, b));
            }
        }
    }
    assert forall|i: int, j: int| 0 <= i < n.len() && 0 <= j < n.len() && i != j implies n[i]
        != n[j] by {
        assert(n[i] == swap_id(l[i], a, b));
        assert(n[j] == swap_id(l[j], a, b));
    }
}

/// The layout after a tab dropped on an edge of the target's pane made a new
/// group: the target's pane split in two, side by side for Left and Right, one
/// above the other for Top and Bottom, the new pane first for Left and Top.
pub open spec fn placed_tree<R>(
    t: SplitPane<R>,
    target: usize,
    new_group: usize,
    side: DropSide,
    ratio: R,
) -> SplitPane<R> {
    match side {
        DropSide::Left => swapped_tree(
            split_tree(t, target, new_group, true, ratio).0,
            target,
            new_group,
        ),
        DropSide::Right => split_tree(t, target, new_group, true, ratio).0,
        DropSide::Top => swapped_tree(
            split_tree(t, target, new_group, false, ratio).0,
            target,
            new_group,
        ),
        DropSide::Bottom => split_tree(t, target, new_group, false, ratio).0,
        DropSide::Center => t,
    }
}

/// Whether moving the tab out leaves the source group empty (or there is no such
/// group), so that it goes.
pub open spec fn source_emptied<T>(gs: Seq<TabGroup<T>>, source: usize, tab_idx: usize) -> bool {
    !has_group(gs, source) || gs[group_index(gs, source)].entries().len() == (if tab_idx
        < gs[group_index(gs, source)].entries().len() {
        1nat
    } else {
        0nat
    })
}

/// Drop a dragged tab on an edge of a pane: the tab moves into a new group whose
/// pane splits the target group's pane (see `placed_tree`), and the new group gets
/// the focus. A source group left empty goes, with its pane.
pub fn drop_tab_on_edge<T, R: Copy>(
    tabs: &mut TabManager<T>,
    panes: &mut SplitPaneManager<R>,
    source_group_id: usize,
    tab_idx: usize,
    target_group_id: usize,
    side: DropSide,
    ratio: R,
)
    requires
        old(tabs).wf(),
        old(tabs).next_id() < usize::MAX,
        side != DropSide::Center,
    ensures
        final(tabs).wf(),
        final(tabs).next_id() == old(tabs).next_id() + 1,
        final(tabs).focused_id() == old(tabs).next_id(),
        final(panes).focus() == old(tabs).next_id(),
        has_group(final(tabs).groups_view(), old(tabs).next_id()),
        ({
            let gs = old(tabs).groups_view();
            let moved = has_group(gs, source_group_id) && tab_idx < gs[group_index(
                gs,
                source_group_id,
            )].entries().len();
            let g = final(tabs).groups_view()[group_index(
                final(tabs).groups_view(),
                old(tabs).next_id(),
            )];
            let placed = placed_tree(
                old(panes).tree(),
                target_group_id,
                old(tabs).next_id(),
                side,
                ratio,
            );
            &&& moved ==> g.entries() == seq![
                gs[group_index(gs, source_group_id)].entries()[tab_idx as int],
            ] && g.active_pos() == 0
            &&& !moved ==> g.entries().len() == 0
            &&& final(panes).tree() == (if source_emptied(gs, source_group_id, tab_idx)
                && source_group_id != old(tabs).next_id() {
                remove_tree(placed, source_group_id).0
            } else {
                placed
            })
        }),
        in_step(*old(tabs), *old(panes)) && has_group(old(tabs).groups_view(), source_group_id)
            && has_group(old(tabs).groups_view(), target_group_id) ==> in_step(
            *final(tabs),
            *final(panes),
        ),
{
    let ghost gs0 = tabs.groups_view();
    let ghost t0 = panes.tree();
    let new_group_id = tabs.new_group();
    let ghost gs1 = tabs.groups_view();
    proof {
        assert forall|x: usize| #[trigger] has_group(gs1, x) <==> has_group(gs0, x) || x == new_group_id by {
            if has_group(gs1, x) {
                let j = choose|j: int| 0 <= j < gs1.len() && (#[trigger] gs1[j]).group_id() == x;
                if j < gs0.len() {
                    assert(gs1[j] == gs0[j]);
                }
            }
            if has_group(gs0, x) {
                let j = choose|j: int| 0 <= j < gs0.len() && (#[trigger] gs0[j]).group_id() == x;
                assert(gs1[j] == gs0[j]);
            }
            if x == new_group_id {
                assert(gs1[gs1.len() - 1].group_id() == x);
            }
        }
        assert(!has_group(gs0, new_group_id)) by {
            if has_group(gs0, new_group_id) {
                let j = choose|j: int| 0 <= j < gs0.len() && (#[trigger] gs0[j]).group_id() == new_group_id;
            }
        }
        let ni = group_index(gs1, new_group_id);
        assert(gs1[gs1.len() - 1].group_id() == new_group_id);
        assert(ni == gs1.len() - 1);
        if has_group(gs0, source_group_id) {
            let si = group_index(gs0, source_group_id);
            assert(gs0[si].group_id() == source_group_id);
            assert(gs1[si] == gs0[si]);
            assert(group_index(gs1, source_group_id) == si) by {
                let k = group_index(gs1, source_group_id);
                assert(gs1[k].group_id() == source_group_id);
                if k != si {
                    assert(k < gs0.len());
                    assert(gs1[k] == gs0[k]);
                }
            }
        }
    }
    let src_empty = tabs.move_tab(source_group_id, tab_idx, new_group_id);
    let ghost gs2 = tabs.groups_view();
    proof {
        assert forall|j: int| 0 <= j < gs1.len() implies (#[trigger] gs2[j]).group_id()
            == gs1[j].group_id() by {
            if has_group(gs1, source_group_id) && j == group_index(gs1, source_group_id) {
            } else if j == group_index(gs1, new_group_id) {
            }
        }
        lemma_same_ids(gs1, gs2);
        if source_group_id != new_group_id {
            if has_group(gs0, source_group_id) {
                let si = group_index(gs0, source_group_id);
                assert(gs1[si] == gs0[si]);
            }
            assert(src_empty == source_emptied(gs0, source_group_id, tab_idx));
        }
    }
    let horizontal = side == DropSide::Left || side == DropSide::Right;
    if horizontal {
        panes.split_group_horizontal(target_group_id, new_group_id, ratio);
    } else {
        panes.split_group_vertical(target_group_id, new_group_id, ratio);
    }
    let ghost t1 = panes.tree();
    if side == DropSide::Left || side == DropSide::Top {
        panes.swap_groups(target_group_id, new_group_id);
    }
    let ghost t2 = panes.tree();
    proof {
        assert(t2 == placed_tree(t0, target_group_id, new_group_id, side, ratio));
        if in_step(*old(tabs), *old(panes)) && has_group(gs0, source_group_id) && has_group(
            gs0,
            target_group_id,
        ) {
            assert(leaves(t0).contains(target_group_id));
            assert(!leaves(t0).contains(new_group_id));
            lemma_split_adds(t0, target_group_id, new_group_id, horizontal, ratio);
            if side == DropSide::Left || side == DropSide::Top {
                assert(leaves(t1).contains(target_group_id));
                assert(leaves(t1).contains(new_group_id));
                lemma_swap_keeps(t1, target_group_id, new_group_id);
            }
        }
    }
    tabs.set_focused_group(new_group_id);
    panes.set_focused_group(new_group_id);
    let ghost gs3 = tabs.groups_view();
    if src_empty {
        let ghost gi = group_index(gs3, source_group_id);
        proof {
            if in_step(*old(tabs), *old(panes)) && has_group(gs0, source_group_id) && has_group(
                gs0,
                target_group_id,
            ) {
                assert(leaves(t2).contains(new_group_id));
                assert(leaves(t2).contains(source_group_id));
                lemma_two_leaves(t2, source_group_id, new_group_id);
                lemma_remove_drops(t2, source_group_id);
            }
        }
        panes.on_group_removed(source_group_id);
        let removed = tabs.remove_group(source_group_id);
        proof {
            if removed {
                assert(gs3[gi].group_id() == source_group_id);
                lemma_remove_ids(gs3, gi);
                lemma_remove_lookup(gs3, gi, new_group_id);
            }
        }
    }
}

/// Drop a dragged tab on the centre of a pane: the tab moves to the end of the
/// target group, where it becomes the active tab, and the target group gets the
/// focus. A source group left empty goes, with its pane.
pub fn drop_tab_in_center<T, R: Copy>(
    tabs: &mut TabManager<T>,
    panes: &mut SplitPaneManager<R>,
    source_group_id: usize,
    tab_idx: usize,
    target_group_id: usize,
)
    requires
        old(tabs).wf(),
    ensures
        final(tabs).wf(),
        final(tabs).next_id() == old(tabs).next_id(),
        final(panes).focus() == target_group_id,
        ({
            let gs = old(tabs).groups_view();
            let ns = final(tabs).groups_view();
            let moved = has_group(gs, source_group_id) && tab_idx < gs[group_index(
                gs,
                source_group_id,
            )].entries().len();
            let dst = gs[group_index(gs, target_group_id)];
            let nd = ns[group_index(ns, target_group_id)];
            &&& has_group(gs, target_group_id) ==> {
                &&& final(tabs).focused_id() == target_group_id
                &&& has_group(ns, target_group_id)
                &&& source_group_id == target_group_id ==> ns == gs
                &&& source_group_id != target_group_id && moved ==> nd.entries()
                    == dst.entries().push(
                    gs[group_index(gs, source_group_id)].entries()[tab_idx as int],
                ) && nd.active_pos() == dst.entries().len()
                &&& source_group_id != target_group_id && !moved ==> nd == dst
            }
            &&& final(panes).tree() == (if source_group_id != target_group_id && source_emptied(
                gs,
                source_group_id,
                tab_idx,
            ) {
                remove_tree(old(panes).tree(), source_group_id).0
            } else {
                old(panes).tree()
            })
        }),
        in_step(*old(tabs), *old(panes)) && has_group(old(tabs).groups_view(), source_group_id)
            && has_group(old(tabs).groups_view(), target_group_id) ==> in_step(
            *final(tabs),
            *final(panes),
        ),
{
    let ghost gs0 = tabs.groups_view();
    let src_empty = tabs.move_tab(source_group_id, tab_idx, target_group_id);
    let ghost gs1 = tabs.groups_view();
    proof {
        if source_group_id != target_group_id {
            let fi = group_index(gs0, source_group_id);
            let ti = group_index(gs0, target_group_id);
            assert forall|j: int| 0 <= j < gs0.len() implies (#[trigger] gs1[j]).group_id()
                == gs0[j].group_id() by {
                if has_group(gs0, source_group_id) && j == fi {
                } else if has_group(gs0, target_group_id) && j == ti {
                }
            }
            lemma_same_ids(gs0, gs1);
            if has_group(gs0, target_group_id) {
                assert(gs0[ti].group_id() == target_group_id);
                assert(gs1[ti].group_id() == target_group_id);
                assert(group_index(gs1, target_group_id) == ti) by {
                    let k = group_index(gs1, target_group_id);
                    assert(gs1[k].group_id() == target_group_id);
                    assert(gs0[k].group_id() == target_group_id);
                }
            }
            assert(src_empty == source_emptied(gs0, source_group_id, tab_idx));
        }
    }
    tabs.set_focused_group(target_group_id);
    panes.set_focused_group(target_group_id);
    if src_empty {
        let ghost t1 = panes.tree();
        proof {
            if in_step(*old(tabs), *old(panes)) && has_group(gs0, source_group_id) && has_group(
                gs0,
                target_group_id,
            ) {
                assert(leaves(t1).contains(source_group_id));
                assert(leaves(t1).contains(target_group_id));
                lemma_two_leaves(t1, source_group_id, target_group_id);
                lemma_remove_drops(t1, source_group_id);
            }
        }
        panes.on_group_removed(source_group_id);
        let removed = tabs.remove_group(source_group_id);
        proof {
            if removed {
                let gi = group_index(gs1, source_group_id);
                assert(gs1[gi].group_id() == source_group_id);
                lemma_remove_ids(gs1, gi);
                if has_group(gs0, target_group_id) {
                    lemma_remove_lookup(gs1, gi, target_group_id);
                }
            }
        }
    }
}

/// After a group is removed, every other group is found as it was.
proof fn lemma_remove_lookup<T>(gs: Seq<TabGroup<T>>, idx: int, id: usize)
    requires
        0 <= idx < gs.len(),
        forall|i: int, j: int|
            0 <= i < gs.len() && 0 <= j < gs.len() && i != j ==> (#[trigger] gs[i]).group_id()
                != (#[trigger] gs[j]).group_id(),
        has_group(gs, id),
        gs[idx].group_id() != id,
    ensures
        has_group(gs.remove(idx), id),
        gs.remove(idx)[group_index(gs.remove(idx), id)] == gs[group_index(gs, id)],
{
    lemma_remove_ids(gs, idx);
    let r = gs.remove(idx);
    let k = group_index(gs, id);
    assert(gs[k].group_id() == id);
    assert(has_group(r, id));
    let kr = group_index(r, id);
    assert(r[kr].group_id() == id);
    let ok = if kr < idx { kr } else { kr + 1 };
    assert(r[kr] == gs[ok]);
}

/// The group after (or before) the focused one, the way the focus moves.
pub open spec fn adjacent_group<T>(gs: Seq<TabGroup<T>>, focused: usize, next: bool) -> Option<usize> {
    if next {
        next_group_after(gs, focused)
    } else {
        prev_group_before(gs, focused)
    }
}

/// The adjacent group is another group.
proof fn lemma_adjacent_group<T>(gs: Seq<TabGroup<T>>, focused: usize, next: bool)
    requires
        forall|i: int, j: int|
            0 <= i < gs.len() && 0 <= j < gs.len() && i != j ==> (#[trigger] gs[i]).group_id()
                != (#[trigger] gs[j]).group_id(),
    ensures
        adjacent_group(gs, focused, next) matches Some(t) ==> has_group(gs, t) && t != focused
            && has_group(gs, focused),
{
    if let Some(t) = adjacent_group(gs, focused, next) {
        let n = gs.len() as int;
        let p = group_index(gs, focused);
        assert(gs[p].group_id() == focused);
        lemma_wrap(p, n);
        let q = if next { next_pos(p, n) } else { prev_pos(p, n) };
        assert(gs[q].group_id() == t);
        assert(q != p);
    }
}

/// Move the focus to the group after (or before) the focused one, in the tabs and
/// in the panes; with fewer than two groups nothing changes.
pub fn focus_adjacent_group<T, R: Copy>(
    tabs: &mut TabManager<T>,
    panes: &mut SplitPaneManager<R>,
    next: bool,
)
    requires
        old(tabs).wf(),
    ensures
        final(tabs).wf(),
        final(tabs).groups_view() == old(tabs).groups_view(),
        final(tabs).next_id() == old(tabs).next_id(),
        final(panes).tree() == old(panes).tree(),
        match adjacent_group(old(tabs).groups_view(), old(tabs).focused_id(), next) {
            Some(t) => final(tabs).focused_id() == t && final(panes).focus() == t,
            None => final(tabs).focused_id() == old(tabs).focused_id() && final(panes).focus()
                == old(panes).focus(),
        },
        in_step(*old(tabs), *old(panes)) ==> in_step(*final(tabs), *final(panes)),
{
    proof {
        lemma_adjacent_group(tabs.groups_view(), tabs.focused_id(), next);
    }
    let target = if next {
        tabs.next_group_id_from_focused()
    } else {
        tabs.prev_group_id_from_focused()
    };
    if let Some(id) = target {
        tabs.set_focused_group(id);
        panes.set_focused_group(id);
    }
}

/// Move the focused group's active tab to the end of the group after (or before)
/// it, where it becomes the active tab, and focus that group. A source group left
/// empty goes, with its pane. With fewer than two groups nothing changes.
pub fn move_active_tab_to_adjacent_group<T, R: Copy>(
    tabs: &mut TabManager<T>,
    panes: &mut SplitPaneManager<R>,
    next: bool,
)
    requires
        old(tabs).wf(),
    ensures
        final(tabs).wf(),
        final(tabs).next_id() == old(tabs).next_id(),
        ({
            let gs = old(tabs).groups_view();
            let f = old(tabs).focused_id();
            match adjacent_group(gs, f, next) {
                None => final(tabs).groups_view() == gs && final(tabs).focused_id() == f && final(panes).tree() == old(panes).tree() && final(panes).focus() == old(panes).focus(),
                Some(t) => {
                    let src = gs[group_index(gs, f)];
                    let dst = gs[group_index(gs, t)];
                    let ns = final(tabs).groups_view();
                    let nd = ns[group_index(ns, t)];
                    &&& final(tabs).focused_id() == t
                    &&& final(panes).focus() == t
                    &&& has_group(ns, t)
                    &&& src.entries().len() > 0 ==> nd.entries() == dst.entries().push(
                        src.entries()[src.active_pos()],
                    ) && nd.active_pos() == dst.entries().len()
                },
            }
        }),
        in_step(*old(tabs), *old(panes)) ==> in_step(*final(tabs), *final(panes)),
{
    let ghost gs0 = tabs.groups_view();
    let ghost t0 = panes.tree();
    proof {
        lemma_adjacent_group(gs0, tabs.focused_id(), next);
    }
    let target = if next {
        tabs.next_group_id_from_focused()
    } else {
        tabs.prev_group_id_from_focused()
    };
    if let Some(target_id) = target {
        let src_id = tabs.focused_group_id();
        let tab_idx = match tabs.focused_group() {
            Some(g) => g.active_index(),
            None => 0,
        };
        let src_empty = tabs.move_tab(src_id, tab_idx, target_id);
        let ghost gs1 = tabs.groups_view();
        proof {
            let fi = group_index(gs0, src_id);
            let ti = group_index(gs0, target_id);
            assert(gs0[fi].group_id() == src_id);
            assert(gs0[ti].group_id() == target_id);
            assert forall|j: int| 0 <= j < gs0.len() implies (#[trigger] gs1[j]).group_id()
                == gs0[j].group_id() by {
                if j == fi {
                } else if j == ti {
                }
            }
            lemma_same_ids(gs0, gs1);
            assert(gs1[ti].group_id() == target_id);
            assert(group_index(gs1, target_id) == ti) by {
                let k = group_index(gs1, target_id);
                assert(gs1[k].group_id() == target_id);
                assert(gs0[k].group_id() == target_id);
            }
        }
        tabs.set_focused_group(target_id);
        panes.set_focused_group(target_id);
        if src_empty {
            let ghost t1 = panes.tree();
            proof {
                if in_step(*old(tabs), *old(panes)) {
                    assert(leaves(t1).contains(src_id));
                    assert(leaves(t1).contains(target_id));
                    lemma_two_leaves(t1, src_id, target_id);
                    lemma_remove_drops(t1, src_id);
                }
            }
            panes.on_group_removed(src_id);
            let removed = tabs.remove_group(src_id);
            proof {
                if removed {
                    let gi = group_index(gs1, src_id);
                    assert(gs1[gi].group_id() == src_id);
                    lemma_remove_ids(gs1, gi);
                    lemma_remove_lookup(gs1, gi, target_id);
                }
            }
        }
    }
}

/// The identifiers of the groups without tabs, in layout order.
pub open spec fn empty_ids<T>(gs: Seq<TabGroup<T>>) -> Seq<usize>
    decreases gs.len(),
{
    if gs.len() == 0 {
        Seq::empty()
    } else if gs.last().entries().len() == 0 {
        empty_ids(gs.drop_last()).push(gs.last().group_id())
    } else {
        empty_ids(gs.drop_last())
    }
}

/// How many empty groups a clean-up removes: all of them, but never the last
/// group left.
pub open spec fn removable_count<T>(gs: Seq<TabGroup<T>>) -> int {
    let e = empty_ids(gs).len() as int;
    let cap = if gs.len() > 0 {
        gs.len() - 1
    } else {
        0
    };
    if e < cap {
        e
    } else {
        cap
    }
}

proof fn lemma_empty_ids<T>(gs: Seq<TabGroup<T>>)
    requires
        forall|i: int, j: int|
            0 <= i < gs.len() && 0 <= j < gs.len() && i != j ==> (#[trigger] gs[i]).group_id()
                != (#[trigger] gs[j]).group_id(),
    ensures
        empty_ids(gs).no_duplicates(),
        empty_ids(gs).len() <= gs.len(),
        forall|x: usize|
            #[trigger] empty_ids(gs).contains(x) <==> has_group(gs, x) && gs[group_index(
                gs,
                x,
            )].entries().len() == 0,
    decreases gs.len(),
{
    if gs.len() > 0 {
        let p = gs.drop_last();
        lemma_empty_ids(p);
        let e = empty_ids(p);
        let last = gs.last();
        assert forall|x: usize| #[trigger] has_group(gs, x) <==> has_group(p, x) || x == last.group_id() by {
            if has_group(gs, x) {
                let j = choose|j: int| 0 <= j < gs.len() && (#[trigger] gs[j]).group_id() == x;
                if j < p.len() {
                    assert(p[j] == gs[j]);
                }
            }
            if has_group(p, x) {
                let j = choose|j: int| 0 <= j < p.len() && (#[trigger] p[j]).group_id() == x;
                assert(gs[j] == p[j]);
            }
            if x == last.group_id() {
                assert(gs[gs.len() - 1].group_id() == x);
            }
        }
        assert(!has_group(p, last.group_id())) by {
            if has_group(p, last.group_id()) {
                let j = choose|j: int| 0 <= j < p.len() && (#[trigger] p[j]).group_id() == last.group_id();
                assert(gs[j].group_id() == gs[gs.len() - 1].group_id());
            }
        }
        assert forall|x: usize| has_group(p, x) implies #[trigger] gs[group_index(gs, x)] == p[group_index(p, x)] by {
            let k = group_index(p, x);
            assert(p[k].group_id() == x);
            assert(gs[k] == p[k]);
            let kg = group_index(gs, x);
            assert(gs[kg].group_id() == x);
        }
        if last.entries().len() == 0 {
            let e2 = e.push(last.group_id());
            assert forall|x: usize| #[trigger] e2.contains(x) <==> e.contains(x) || x == last.group_id() by {
                if e2.contains(x) {
                    let j = choose|j: int| 0 <= j < e2.len() && e2[j] == x;
                    if j < e.len() {
                        assert(e[j] == x);
                    }
                }
                if e.contains(x) {
                    let j = choose|j: int| 0 <= j < e.len() && e[j] == x;
                    assert(e2[j] == x);
                }
                if x == last.group_id() {
                    assert(e2[e.len() as int] == x);
                }
            }
            assert(!e.contains(last.group_id()));
            assert forall|i: int, j: int| 0 <= i < e2.len() && 0 <= j < e2.len() && i != j implies e2[i] != e2[j] by {
                if i < e.len() && j < e.len() {
                } else if i < e.len() {
                    assert(e.contains(e2[i]));
                } else if j < e.len() {
                    assert(e.contains(e2[j]));
                }
            }
            let lk = group_index(gs, last.group_id());
            assert(gs[lk].group_id() == last.group_id());
            assert(lk == gs.len() - 1);
        } else {
            let lk = group_index(gs, last.group_id());
            assert(gs[lk].group_id() == last.group_id());
            assert(lk == gs.len() - 1);
        }
    }
}

/// Remove the groups without tabs, and their panes, but never the last group: of
/// the empty groups, in layout order, as many as leave one group. The groups and
/// panes stay in step.
pub fn cleanup_empty_groups<T, R: Copy>(tabs: &mut TabManager<T>, panes: &mut SplitPaneManager<R>)
    requires
        old(tabs).wf(),
    ensures
        final(tabs).wf(),
        final(tabs).next_id() == old(tabs).next_id(),
        ({
            let gs = old(tabs).groups_view();
            let ns = final(tabs).groups_view();
            let removed = empty_ids(gs).take(removable_count(gs));
            &&& ns.len() == gs.len() - removable_count(gs)
            &&& forall|x: usize| #[trigger]
                has_group(ns, x) <==> has_group(gs, x) && !removed.contains(x)
            &&& forall|x: usize|
                has_group(ns, x) ==> #[trigger] ns[group_index(ns, x)] == gs[group_index(gs, x)]
        }),
        in_step(*old(tabs), *old(panes)) ==> in_step(*final(tabs), *final(panes)),
{
    let ghost gs0 = tabs.groups_view();
    proof {
        lemma_empty_ids(gs0);
    }
    let groups = tabs.groups_ref();
    let mut empties: Vec<usize> = Vec::new();
    let mut k: usize = 0;
    while k < groups.len()
        invariant
            groups@ == gs0,
            k <= gs0.len(),
            empties@ == empty_ids(gs0.subrange(0, k as int)),
        decreases gs0.len() - k,
    {
        assert(gs0.subrange(0, k + 1).drop_last() =~= gs0.subrange(0, k as int));
        if groups[k].is_empty() {
            empties.push(groups[k].id());
        }
        k += 1;
    }
    assert(gs0.subrange(0, k as int) =~= gs0);
    let total = tabs.group_count();
    let can_remove = if total > 0 {
        total - 1
    } else {
        0
    };
    let ghost e = empties@;
    let ghost cnt = removable_count(gs0);
    let mut i: usize = 0;
    while i < empties.len() && i < can_remove
        invariant
            e == empties@,
            e == empty_ids(gs0),
            cnt == removable_count(gs0),
            can_remove == (if gs0.len() > 0 { gs0.len() - 1 } else { 0 }),
            e.no_duplicates(),
            forall|x: usize|
                #[trigger] e.contains(x) <==> has_group(gs0, x) && gs0[group_index(
                    gs0,
                    x,
                )].entries().len() == 0,
            i <= e.len(),
            i <= can_remove,
            tabs.wf(),
            tabs.next_id() == old(tabs).next_id(),
            tabs.groups_view().len() == gs0.len() - i,
            forall|x: usize| #[trigger]
                has_group(tabs.groups_view(), x) <==> has_group(gs0, x) && !e.take(i as int).contains(x),
            forall|x: usize|
                has_group(tabs.groups_view(), x) ==> #[trigger] tabs.groups_view()[group_index(
                    tabs.groups_view(),
                    x,
                )] == gs0[group_index(gs0, x)],
            in_step(*old(tabs), *old(panes)) ==> in_step(*tabs, *panes),
        decreases e.len() - i,
    {
        let id = empties[i];
        let ghost cur = tabs.groups_view();
        let ghost t = panes.tree();
        proof {
            assert(e.contains(id));
            assert(!e.take(i as int).contains(id)) by {
                if e.take(i as int).contains(id) {
                    let j = choose|j: int| 0 <= j < i && #[trigger] e.take(i as int)[j] == id;
                    assert(e[j] == e[i as int]);
                }
            }
            assert(has_group(cur, id));
            let gi = group_index(cur, id);
            assert(cur[gi].group_id() == id);
            assert(cur.len() >= 2);
            let other = if gi == 0 { 1int } else { 0int };
            assert(cur[other].group_id() != id);
            assert(has_group(cur, cur[other].group_id()));
            if in_step(*old(tabs), *old(panes)) {
                assert(leaves(t).contains(id));
                assert(leaves(t).contains(cur[other].group_id()));
                lemma_two_leaves(t, id, cur[other].group_id());
                lemma_remove_drops(t, id);
            }
        }
        panes.on_group_removed(id);
        let removed = tabs.remove_group(id);
        proof {
            let gi = group_index(cur, id);
            assert(cur[gi].group_id() == id);
            lemma_remove_ids(cur, gi);
            let nw = tabs.groups_view();
            assert(e.take(i + 1) =~= e.take(i as int).push(id));
            assert(nw == cur.remove(gi));
            assert forall|x: usize| #[trigger] has_group(nw, x) <==> has_group(gs0, x) && !e.take(i + 1).contains(x) by {
                assert(has_group(nw, x) == (has_group(cur, x) && x != id));
                if x == id {
                    assert(e.take(i + 1)[i as int] == id);
                }
                if e.take(i + 1).contains(x) && !e.take(i as int).contains(x) {
                    let j = choose|j: int| 0 <= j < i + 1 && #[trigger] e.take(i + 1)[j] == x;
                    if j < i {
                        assert(e.take(i as int)[j] == x);
                    }
                }
                if e.take(i as int).contains(x) {
                    let j = choose|j: int| 0 <= j < i && #[trigger] e.take(i as int)[j] == x;
                    assert(e.take(i + 1)[j] == x);
                }
            }
            assert forall|x: usize| has_group(nw, x) implies #[trigger] nw[group_index(nw, x)] == gs0[group_index(gs0, x)] by {
                lemma_remove_lookup(cur, gi, x);
            }
        }
        i += 1;
    }
    proof {
        assert(i == cnt);
    }
}

/// A window of one group in one pane starts in step.
pub proof fn lemma_single_group_in_step<T, R: Copy>(tabs: TabManager<T>, panes: SplitPaneManager<R>)
    requires
        tabs.wf(),
        tabs.groups_view().len() == 1,
        panes.tree() == SplitPane::<R>::Single(tabs.groups_view()[0].group_id()),
    ensures
        in_step(tabs, panes),
{
    let id = tabs.groups_view()[0].group_id();
    assert(leaves(panes.tree()) =~= seq![id]);
    assert forall|x: usize| #[trigger] leaves(panes.tree()).contains(x) <==> has_group(tabs.groups_view(), x) by {
        if has_group(tabs.groups_view(), x) {
            let j = choose|j: int| 0 <= j < tabs.groups_view().len() && (#[trigger] tabs.groups_view()[j]).group_id() == x;
            assert(j == 0);
            assert(leaves(panes.tree())[0] == x);
        }
        if leaves(panes.tree()).contains(x) {
            assert(tabs.groups_view()[0].group_id() == x);
        }
    }
}

/// What the application still has to do after a shortcut, beyond the tabs and panes.
#[derive(Debug, Clone, Copy, PartialEq, Eq, Structural)]
pub enum ShortcutEffect {
    /// Nothing more.
    Nothing,
    /// Open a tab with the preferred profile in the focused group.
    OpenTab,
    /// Open the preferred profile in a new group whose pane splits the focused one.
    OpenSplit { horizontal: bool },
    /// Show or hide the settings window.
    ToggleSettings,
    /// Save the active tab's session to a file.
    SaveSession,
    /// Show or hide the active tab's find overlay.
    ToggleFind,
    /// Show or hide the active tab's command query overlay.
    ToggleCommandQuery,
    /// Reload the shader and particle plugins.
    ReloadPlugins,
}

/// The outcome of a shortcut: what is left to do, and whether the active terminal
/// takes the keyboard focus afterwards.
#[derive(Debug, Clone, Copy, PartialEq, Eq, Structural)]
pub struct ShortcutOutcome {
    pub effect: ShortcutEffect,
    pub refocus: bool,
}

/// Only the group with the identifier changed, as `change` says; every other
/// group is as it was, and nothing changed without such a group.
pub open spec fn group_changed<T>(
    gs: Seq<TabGroup<T>>,
    ns: Seq<TabGroup<T>>,
    f: usize,
    change: spec_fn(TabGroup<T>, TabGroup<T>) -> bool,
) -> bool {
    &&& ns.len() == gs.len()
    &&& forall|j: int|
        0 <= j < gs.len() ==> if has_group(gs, f) && j == group_index(gs, f) {
            (#[trigger] ns[j]).group_id() == gs[j].group_id() && ns[j].wf() && change(gs[j], ns[j])
        } else {
            ns[j] == gs[j]
        }
}

/// Apply a change to the focused group, whose identifier and well-formedness it
/// keeps.
proof fn lemma_focused_change<T>(gs: Seq<TabGroup<T>>, ns: Seq<TabGroup<T>>, f: usize)
    requires
        has_group(gs, f) ==> ns == gs.update(group_index(gs, f), ns[group_index(gs, f)])
            && ns[group_index(gs, f)].group_id() == f,
        !has_group(gs, f) ==> ns == gs,
    ensures
        forall|j: int| 0 <= j < gs.len() ==> (#[trigger] ns[j]).group_id() == gs[j].group_id(),
        ns.len() == gs.len(),
{
    if has_group(gs, f) {
        let i = group_index(gs, f);
        assert(gs[i].group_id() == f);
    }
}

/// Carry out a shortcut on the tabs and panes: closing the focused group's active
/// tab or all its tabs, switching tabs within it, moving the focus or the active
/// tab to the adjacent group. What needs a profile, a file, a window or the
/// plugins is handed back as an effect, with the tabs and panes unchanged.
pub fn handle_shortcut<T, R: Copy>(
    tabs: &mut TabManager<T>,
    panes: &mut SplitPaneManager<R>,
    action: ShortcutAction,
) -> (r: ShortcutOutcome)
    requires
        old(tabs).wf(),
    ensures
        final(tabs).wf(),
        final(tabs).next_id() == old(tabs).next_id(),
        in_step(*old(tabs), *old(panes)) ==> in_step(*final(tabs), *final(panes)),
        ({
            let gs = old(tabs).groups_view();
            let ns = final(tabs).groups_view();
            let f = old(tabs).focused_id();
            let unchanged = ns == gs && final(tabs).focused_id() == f && final(panes).tree()
                == old(panes).tree() && final(panes).focus() == old(panes).focus();
            match action {
                ShortcutAction::NewTab => unchanged && r == (ShortcutOutcome {
                    effect: ShortcutEffect::OpenTab,
                    refocus: true,
                }),
                ShortcutAction::SplitHorizontal => unchanged && r == (ShortcutOutcome {
                    effect: ShortcutEffect::OpenSplit { horizontal: true },
                    refocus: true,
                }),
                ShortcutAction::SplitVertical => unchanged && r == (ShortcutOutcome {
                    effect: ShortcutEffect::OpenSplit { horizontal: false },
                    refocus: true,
                }),
                ShortcutAction::OpenSettings => unchanged && r == (ShortcutOutcome {
                    effect: ShortcutEffect::ToggleSettings,
                    refocus: false,
                }),
                ShortcutAction::SaveSession => unchanged && r == (ShortcutOutcome {
                    effect: ShortcutEffect::SaveSession,
                    refocus: false,
                }),
                ShortcutAction::FindInSession => unchanged && r == (ShortcutOutcome {
                    effect: ShortcutEffect::ToggleFind,
                    refocus: false,
                }),
                ShortcutAction::AiCommandQuery => unchanged && r == (ShortcutOutcome {
                    effect: ShortcutEffect::ToggleCommandQuery,
                    refocus: false,
                }),
                ShortcutAction::ReloadPlugins => unchanged && r == (ShortcutOutcome {
                    effect: ShortcutEffect::ReloadPlugins,
                    refocus: false,
                }),
                ShortcutAction::CloseTab => {
                    &&& r == (ShortcutOutcome { effect: ShortcutEffect::Nothing, refocus: false })
                    &&& final(tabs).focused_id() == f
                    &&& final(panes).tree() == old(panes).tree()
                    &&& final(panes).focus() == old(panes).focus()
                    &&& group_changed(
                        gs,
                        ns,
                        f,
                        |a: TabGroup<T>, b: TabGroup<T>|
                            b.entries() == closing_where(
                                a.entries(),
                                |k: int| k == a.active_pos(),
                            ) && b.active_pos() == a.active_pos(),
                    )
                },
                ShortcutAction::ClosePane => {
                    &&& r == (ShortcutOutcome { effect: ShortcutEffect::Nothing, refocus: false })
                    &&& final(tabs).focused_id() == f
                    &&& final(panes).tree() == old(panes).tree()
                    &&& final(panes).focus() == old(panes).focus()
                    &&& group_changed(
                        gs,
                        ns,
                        f,
                        |a: TabGroup<T>, b: TabGroup<T>|
                            b.entries() == closing_where(a.entries(), |k: int| true)
                                && b.active_pos() == a.active_pos(),
                    )
                },
                ShortcutAction::NextTab => {
                    &&& r == (ShortcutOutcome { effect: ShortcutEffect::Nothing, refocus: true })
                    &&& final(tabs).focused_id() == f
                    &&& final(panes).tree() == old(panes).tree()
                    &&& final(panes).focus() == old(panes).focus()
                    &&& group_changed(
                        gs,
                        ns,
                        f,
                        |a: TabGroup<T>, b: TabGroup<T>|
                            b.entries() == a.entries() && b.active_pos() == (if a.entries().len()
                                > 0 {
                                next_pos(a.active_pos(), a.entries().len() as int)
                            } else {
                                a.active_pos()
                            }),
                    )
                },
                ShortcutAction::PrevTab => {
                    &&& r == (ShortcutOutcome { effect: ShortcutEffect::Nothing, refocus: true })
                    &&& final(tabs).focused_id() == f
                    &&& final(panes).tree() == old(panes).tree()
                    &&& final(panes).focus() == old(panes).focus()
                    &&& group_changed(
                        gs,
                        ns,
                        f,
                        |a: TabGroup<T>, b: TabGroup<T>|
                            b.entries() == a.entries() && b.active_pos() == (if a.entries().len()
                                > 0 {
                                prev_pos(a.active_pos(), a.entries().len() as int)
                            } else {
                                a.active_pos()
                            }),
                    )
                },
                ShortcutAction::FocusNextGroup | ShortcutAction::FocusPrevGroup => {
                    let next = action == ShortcutAction::FocusNextGroup;
                    &&& r == (ShortcutOutcome { effect: ShortcutEffect::Nothing, refocus: true })
                    &&& ns == gs
                    &&& final(panes).tree() == old(panes).tree()
                    &&& match adjacent_group(gs, f, next) {
                        Some(t) => final(tabs).focused_id() == t && final(panes).focus() == t,
                        None => final(tabs).focused_id() == f && final(panes).focus() == old(
                            panes,
                        ).focus(),
                    }
                },
                ShortcutAction::MoveTabNextGroup | ShortcutAction::MoveTabPrevGroup => {
                    let next = action == ShortcutAction::MoveTabNextGroup;
                    &&& r == (ShortcutOutcome { effect: ShortcutEffect::Nothing, refocus: true })
                    &&& match adjacent_group(gs, f, next) {
                        None => unchanged,
                        Some(t) => {
                            let src = gs[group_index(gs, f)];
                            let dst = gs[group_index(gs, t)];
                            let nd = ns[group_index(ns, t)];
                            &&& final(tabs).focused_id() == t
                            &&& final(panes).focus() == t
                            &&& has_group(ns, t)
                            &&& src.entries().len() > 0 ==> nd.entries() == dst.entries().push(
                                src.entries()[src.active_pos()],
                            ) && nd.active_pos() == dst.entries().len()
                        },
                    }
                },
            }
        }),
{
    let ghost gs = tabs.groups_view();
    let ghost f = tabs.focused_id();
    match action {
        ShortcutAction::NewTab => ShortcutOutcome { effect: ShortcutEffect::OpenTab, refocus: true },
        ShortcutAction::SplitHorizontal => ShortcutOutcome {
            effect: ShortcutEffect::OpenSplit { horizontal: true },
            refocus: true,
        },
        ShortcutAction::SplitVertical => ShortcutOutcome {
            effect: ShortcutEffect::OpenSplit { horizontal: false },
            refocus: true,
        },
        ShortcutAction::OpenSettings => ShortcutOutcome {
            effect: ShortcutEffect::ToggleSettings,
            refocus: false,
        },
        ShortcutAction::SaveSession => ShortcutOutcome {
            effect: ShortcutEffect::SaveSession,
            refocus: false,
        },
        ShortcutAction::FindInSession => ShortcutOutcome {
            effect: ShortcutEffect::ToggleFind,
            refocus: false,
        },
        ShortcutAction::AiCommandQuery => ShortcutOutcome {
            effect: ShortcutEffect::ToggleCommandQuery,
            refocus: false,
        },
        ShortcutAction::ReloadPlugins => ShortcutOutcome {
            effect: ShortcutEffect::ReloadPlugins,
            refocus: false,
        },
        ShortcutAction::CloseTab | ShortcutAction::ClosePane | ShortcutAction::NextTab
        | ShortcutAction::PrevTab => {
            if let Some(g) = tabs.focused_group_mut() {
                let ghost g0 = *g;
                match action {
                    ShortcutAction::CloseTab => g.close_active_tab(),
                    ShortcutAction::ClosePane => g.close_all_tabs(),
                    ShortcutAction::NextTab => g.next_tab(),
                    _ => g.prev_tab(),
                }
            }
            proof {
                let ns = tabs.groups_view();
                lemma_focused_change(gs, ns, f);
                lemma_same_ids(gs, ns);
            }
            let refocus = match action {
                ShortcutAction::NextTab | ShortcutAction::PrevTab => true,
                _ => false,
            };
            ShortcutOutcome { effect: ShortcutEffect::Nothing, refocus }
        },
        ShortcutAction::FocusNextGroup => {
            focus_adjacent_group(tabs, panes, true);
            ShortcutOutcome { effect: ShortcutEffect::Nothing, refocus: true }
        },
        ShortcutAction::FocusPrevGroup => {
            focus_adjacent_group(tabs, panes, false);
            ShortcutOutcome { effect: ShortcutEffect::Nothing, refocus: true }
        },
        ShortcutAction::MoveTabNextGroup => {
            move_active_tab_to_adjacent_group(tabs, panes, true);
            ShortcutOutcome { effect: ShortcutEffect::Nothing, refocus: true }
        },
        ShortcutAction::MoveTabPrevGroup => {
            move_active_tab_to_adjacent_group(tabs, panes, false);
            ShortcutOutcome { effect: ShortcutEffect::Nothing, refocus: true }
        },
    }
}

/// What a group's tab bar asks for.
#[derive(Debug, Clone, PartialEq, Eq)]
pub enum TabBarAction {
    ClickTab(usize),
    CloseTab(usize),
    CloseOtherTabs(usize),
    CloseTabsToRight(usize),
    /// A tab drag starts (the pointer position stays with the application).
    DragStart { tab_idx: usize },
    NewTab { profile_key: String },
    SplitRight(usize),
    SplitDown(usize),
    TearOff(usize),
    CloseGroup,
}

/// What the application still has to do after a tab bar action.
#[derive(Debug, Clone, PartialEq, Eq)]
pub enum TabBarEffect {
    /// Nothing more.
    Nothing,
    /// Give the keyboard focus to the terminal with this identifier.
    FocusTerminal(u64),
    /// Start dragging the tab from the pointer's position.
    StartDrag { tab_idx: usize },
    /// Open a tab with the profile in the group (when the profile exists).
    OpenTab { profile_key: String },
}

/// Carry out what a group's tab bar asks for on the tabs and panes: activating,
/// closing or tearing off tabs, closing the group. Clicking a tab or asking for a
/// new one focuses the group. Splitting a tab off or tearing it off moves it into a
/// new group beside (or below) its own, with the given split ratio.
pub fn apply_tab_bar_action<T, R: Copy>(
    tabs: &mut TabManager<T>,
    panes: &mut SplitPaneManager<R>,
    group_id: usize,
    action: TabBarAction,
    ratio: R,
) -> (r: TabBarEffect)
    requires
        old(tabs).wf(),
        old(tabs).next_id() < usize::MAX,
    ensures
        final(tabs).wf(),
        in_step(*old(tabs), *old(panes)) && (has_group(old(tabs).groups_view(), group_id)
            || !(action is SplitRight || action is SplitDown || action is TearOff)) ==> in_step(
            *final(tabs),
            *final(panes),
        ),
        ({
            let gs = old(tabs).groups_view();
            let ns = final(tabs).groups_view();
            let f = old(tabs).focused_id();
            let same_panes = final(panes).tree() == old(panes).tree() && final(panes).focus()
                == old(panes).focus();
            let focused_here = final(tabs).focused_id() == (if has_group(gs, group_id) {
                group_id
            } else {
                f
            }) && final(panes).tree() == old(panes).tree() && final(panes).focus() == group_id;
            match action {
                TabBarAction::ClickTab(idx) => {
                    &&& focused_here
                    &&& group_changed(
                        gs,
                        ns,
                        group_id,
                        |a: TabGroup<T>, b: TabGroup<T>|
                            b.entries() == a.entries() && b.active_pos() == (if idx
                                < a.entries().len() {
                                idx as int
                            } else {
                                a.active_pos()
                            }),
                    )
                    &&& r == (if has_group(gs, group_id) && ns[group_index(
                        gs,
                        group_id,
                    )].entries().len() > 0 {
                        let g = ns[group_index(gs, group_id)];
                        TabBarEffect::FocusTerminal(g.entries()[g.active_pos()].terminal_id)
                    } else {
                        TabBarEffect::Nothing
                    })
                },
                TabBarAction::CloseTab(idx) => {
                    &&& r == TabBarEffect::Nothing
                    &&& final(tabs).focused_id() == f && same_panes
                    &&& group_changed(
                        gs,
                        ns,
                        group_id,
                        |a: TabGroup<T>, b: TabGroup<T>|
                            b.entries() == closing_where(a.entries(), |k: int| k == idx)
                                && b.active_pos() == a.active_pos(),
                    )
                },
                TabBarAction::CloseOtherTabs(idx) => {
                    &&& r == TabBarEffect::Nothing
                    &&& final(tabs).focused_id() == f && same_panes
                    &&& group_changed(
                        gs,
                        ns,
                        group_id,
                        |a: TabGroup<T>, b: TabGroup<T>|
                            b.entries() == closing_where(a.entries(), |k: int| k != idx)
                                && b.active_pos() == a.active_pos(),
                    )
                },
                TabBarAction::CloseTabsToRight(idx) => {
                    &&& r == TabBarEffect::Nothing
                    &&& final(tabs).focused_id() == f && same_panes
                    &&& group_changed(
                        gs,
                        ns,
                        group_id,
                        |a: TabGroup<T>, b: TabGroup<T>|
                            b.entries() == closing_where(a.entries(), |k: int| k > idx)
                                && b.active_pos() == a.active_pos(),
                    )
                },
                TabBarAction::CloseGroup => {
                    &&& r == TabBarEffect::Nothing
                    &&& final(tabs).focused_id() == f && same_panes
                    &&& group_changed(
                        gs,
                        ns,
                        group_id,
                        |a: TabGroup<T>, b: TabGroup<T>|
                            b.entries() == closing_where(a.entries(), |k: int| true)
                                && b.active_pos() == a.active_pos(),
                    )
                },
                TabBarAction::DragStart { tab_idx } => {
                    &&& r == (TabBarEffect::StartDrag { tab_idx })
                    &&& ns == gs && final(tabs).focused_id() == f && same_panes
                },
                TabBarAction::NewTab { profile_key } => {
                    &&& r == (TabBarEffect::OpenTab { profile_key })
                    &&& ns == gs && focused_here
                },
                TabBarAction::SplitRight(_) | TabBarAction::SplitDown(_) | TabBarAction::TearOff(
                    _,
                ) => {
                    &&& r == TabBarEffect::Nothing
                    &&& final(tabs).focused_id() == old(tabs).next_id()
                    &&& final(panes).focus() == old(tabs).next_id()
                    &&& has_group(ns, old(tabs).next_id())
                },
            }
        }),
{
    let ghost gs = tabs.groups_view();
    let ghost f = tabs.focused_id();
    match action {
        TabBarAction::ClickTab(idx) => {
            let mut effect = TabBarEffect::Nothing;
            if let Some(g) = tabs.group_by_id_mut(group_id) {
                g.set_active(idx);
                if let Some(tab) = g.active_tab() {
                    effect = TabBarEffect::FocusTerminal(tab.terminal_id);
                }
            }
            proof {
                let ns = tabs.groups_view();
                lemma_focused_change(gs, ns, group_id);
                lemma_same_ids(gs, ns);
            }
            tabs.set_focused_group(group_id);
            panes.set_focused_group(group_id);
            effect
        },
        TabBarAction::CloseTab(idx) | TabBarAction::CloseOtherTabs(idx)
        | TabBarAction::CloseTabsToRight(idx) => {
            if let Some(g) = tabs.group_by_id_mut(group_id) {
                match action {
                    TabBarAction::CloseTab(_) => g.close_tab(idx),
                    TabBarAction::CloseOtherTabs(_) => g.close_other_tabs(idx),
                    _ => g.close_tabs_to_right(idx),
                }
            }
            proof {
                let ns = tabs.groups_view();
                lemma_focused_change(gs, ns, group_id);
                lemma_same_ids(gs, ns);
            }
            TabBarEffect::Nothing
        },
        TabBarAction::CloseGroup => {
            if let Some(g) = tabs.group_by_id_mut(group_id) {
                g.close_all_tabs();
            }
            proof {
                let ns = tabs.groups_view();
                lemma_focused_change(gs, ns, group_id);
                lemma_same_ids(gs, ns);
            }
            TabBarEffect::Nothing
        },
        TabBarAction::DragStart { tab_idx } => TabBarEffect::StartDrag { tab_idx },
        TabBarAction::NewTab { profile_key } => {
            tabs.set_focused_group(group_id);
            panes.set_focused_group(group_id);
            TabBarEffect::OpenTab { profile_key }
        },
        TabBarAction::SplitRight(tab_idx) | TabBarAction::TearOff(tab_idx) => {
            tear_tab_to_new_group(tabs, panes, group_id, tab_idx, true, ratio);
            TabBarEffect::Nothing
        },
        TabBarAction::SplitDown(tab_idx) => {
            tear_tab_to_new_group(tabs, panes, group_id, tab_idx, false, ratio);
            TabBarEffect::Nothing
        },
    }
}
} // verus!
