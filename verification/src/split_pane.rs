//! The tree of split panes: each leaf is a tab group, each inner node splits its
//! area between two subtrees side by side or stacked.
//!
//! The tree carries each split's ratio without looking at it; the ratio's type is
//! left to the caller.

use vstd::prelude::*;

verus! {

/// Which edge/region a drop target represents.
#[derive(Debug, Clone, Copy, PartialEq, Eq, Structural)]
pub enum DropSide {
    Left,
    Right,
    Top,
    Bottom,
    Center,
}

/// What removing a group did to a subtree.
#[derive(Debug, PartialEq, Eq, Structural)]
pub enum RemoveResult {
    /// The subtree is the group's leaf: its parent must drop it.
    RemoveSelf,
    /// The group was removed inside the subtree.
    Modified,
    /// The group is not in the subtree.
    NoChange,
}

/// A node of the split tree.
#[derive(Debug)]
pub enum SplitPane<R> {
    /// A tab group (ID into the tab manager's groups).
    Single(usize),
    /// Two panes side-by-side. `ratio` = fraction of width given to `left`.
    Horizontal { left: Box<SplitPane<R>>, right: Box<SplitPane<R>>, ratio: R },
    /// Two panes stacked. `ratio` = fraction of height given to `top`.
    Vertical { top: Box<SplitPane<R>>, bottom: Box<SplitPane<R>>, ratio: R },
}

/// The group IDs of the leaves, left to right and top to bottom.
pub open spec fn leaves<R>(t: SplitPane<R>) -> Seq<usize>
    decreases t,
{
    match t {
        SplitPane::Single(id) => seq![id],
        SplitPane::Horizontal { left, right, .. } => leaves(*left) + leaves(*right),
        SplitPane::Vertical { top, bottom, .. } => leaves(*top) + leaves(*bottom),
    }
}

/// The tree after the first leaf of `target` (in leaf order) is split in two, the
/// old leaf first and `new_group` second, and whether there was such a leaf.
pub open spec fn split_tree<R>(
    t: SplitPane<R>,
    target: usize,
    new_group: usize,
    horizontal: bool,
    ratio: R,
) -> (SplitPane<R>, bool)
    decreases t,
{
    match t {
        SplitPane::Single(id) => if id == target {
            (
                if horizontal {
                    SplitPane::Horizontal {
                        left: Box::new(SplitPane::Single(id)),
                        right: Box::new(SplitPane::Single(new_group)),
                        ratio,
                    }
                } else {
                    SplitPane::Vertical {
                        top: Box::new(SplitPane::Single(id)),
                        bottom: Box::new(SplitPane::Single(new_group)),
                        ratio,
                    }
                },
                true,
            )
        } else {
            (t, false)
        },
        SplitPane::Horizontal { left, right, ratio: r0 } => {
            let (l2, done) = split_tree(*left, target, new_group, horizontal, ratio);
            if done {
                (SplitPane::Horizontal { left: Box::new(l2), right, ratio: r0 }, true)
            } else {
                let (r2, done2) = split_tree(*right, target, new_group, horizontal, ratio);
                (SplitPane::Horizontal { left, right: Box::new(r2), ratio: r0 }, done2)
            }
        },
        SplitPane::Vertical { top, bottom, ratio: r0 } => {
            let (t2, done) = split_tree(*top, target, new_group, horizontal, ratio);
            if done {
                (SplitPane::Vertical { top: Box::new(t2), bottom, ratio: r0 }, true)
            } else {
                let (b2, done2) = split_tree(*bottom, target, new_group, horizontal, ratio);
                (SplitPane::Vertical { top, bottom: Box::new(b2), ratio: r0 }, done2)
            }
        },
    }
}

/// The tree after the first leaf of `target` is removed, its sibling taking its
/// parent's place, and what happened.
pub open spec fn remove_tree<R>(t: SplitPane<R>, target: usize) -> (SplitPane<R>, RemoveResult)
    decreases t,
{
    match t {
        SplitPane::Single(id) => if id == target {
            (t, RemoveResult::RemoveSelf)
        } else {
            (t, RemoveResult::NoChange)
        },
        SplitPane::Horizontal { left, right, ratio } => {
            let (l2, rl) = remove_tree(*left, target);
            match rl {
                RemoveResult::RemoveSelf => (*right, RemoveResult::Modified),
                RemoveResult::Modified => (
                    SplitPane::Horizontal { left: Box::new(l2), right, ratio },
                    RemoveResult::Modified,
                ),
                RemoveResult::NoChange => {
                    let (r2, rr) = remove_tree(*right, target);
                    match rr {
                        RemoveResult::RemoveSelf => (*left, RemoveResult::Modified),
                        RemoveResult::Modified => (
                            SplitPane::Horizontal { left, right: Box::new(r2), ratio },
                            RemoveResult::Modified,
                        ),
                        RemoveResult::NoChange => (t, RemoveResult::NoChange),
                    }
                },
            }
        },
        SplitPane::Vertical { top, bottom, ratio } => {
            let (t2, rt) = remove_tree(*top, target);
            match rt {
                RemoveResult::RemoveSelf => (*bottom, RemoveResult::Modified),
                RemoveResult::Modified => (
                    SplitPane::Vertical { top: Box::new(t2), bottom, ratio },
                    RemoveResult::Modified,
                ),
                RemoveResult::NoChange => {
                    let (b2, rb) = remove_tree(*bottom, target);
                    match rb {
                        RemoveResult::RemoveSelf => (*top, RemoveResult::Modified),
                        RemoveResult::Modified => (
                            SplitPane::Vertical { top, bottom: Box::new(b2), ratio },
                            RemoveResult::Modified,
                        ),
                        RemoveResult::NoChange => (t, RemoveResult::NoChange),
                    }
                },
            }
        },
    }
}

/// Splits the owned tree.
fn split_owned<R: Copy>(
    t: SplitPane<R>,
    target: usize,
    new_group: usize,
    horizontal: bool,
    ratio: R,
) -> (r: (SplitPane<R>, bool))
    ensures
        r == split_tree(t, target, new_group, horizontal, ratio),
    decreases t,
{
    match t {
        SplitPane::Single(id) => {
            if id == target {
                let node = if horizontal {
                    SplitPane::Horizontal {
                        left: Box::new(SplitPane::Single(id)),
                        right: Box::new(SplitPane::Single(new_group)),
                        ratio,
                    }
                } else {
                    SplitPane::Vertical {
                        top: Box::new(SplitPane::Single(id)),
                        bottom: Box::new(SplitPane::Single(new_group)),
                        ratio,
                    }
                };
                (node, true)
            } else {
                (SplitPane::Single(id), false)
            }
        },
        SplitPane::Horizontal { left, right, ratio: r0 } => {
            let (l2, done) = split_owned(*left, target, new_group, horizontal, ratio);
            if done {
                (SplitPane::Horizontal { left: Box::new(l2), right, ratio: r0 }, true)
            } else {
                proof {
                    lemma_split_missing_keeps(*left, target, new_group, horizontal, ratio);
                }
                let (r2, done2) = split_owned(*right, target, new_group, horizontal, ratio);
                (SplitPane::Horizontal { left: Box::new(l2), right: Box::new(r2), ratio: r0 }, done2)
            }
        },
        SplitPane::Vertical { top, bottom, ratio: r0 } => {
            let (t2, done) = split_owned(*top, target, new_group, horizontal, ratio);
            if done {
                (SplitPane::Vertical { top: Box::new(t2), bottom, ratio: r0 }, true)
            } else {
                proof {
                    lemma_split_missing_keeps(*top, target, new_group, horizontal, ratio);
                }
                let (b2, done2) = split_owned(*bottom, target, new_group, horizontal, ratio);
                (SplitPane::Vertical { top: Box::new(t2), bottom: Box::new(b2), ratio: r0 }, done2)
            }
        },
    }
}

/// Removes from the owned tree.
fn remove_owned<R>(t: SplitPane<R>, target: usize) -> (r: (SplitPane<R>, RemoveResult))
    ensures
        r == remove_tree(t, target),
    decreases t,
{
    match t {
        SplitPane::Single(id) => {
            if id == target {
                (SplitPane::Single(id), RemoveResult::RemoveSelf)
            } else {
                (SplitPane::Single(id), RemoveResult::NoChange)
            }
        },
        SplitPane::Horizontal { left, right, ratio } => {
            let (l2, rl) = remove_owned(*left, target);
            match rl {
                RemoveResult::RemoveSelf => (*right, RemoveResult::Modified),
                RemoveResult::Modified => (
                    SplitPane::Horizontal { left: Box::new(l2), right, ratio },
                    RemoveResult::Modified,
                ),
                RemoveResult::NoChange => {
                    proof {
                        lemma_remove_missing_keeps(*left, target);
                    }
                    let (r2, rr) = remove_owned(*right, target);
                    match rr {
                        RemoveResult::RemoveSelf => (l2, RemoveResult::Modified),
                        RemoveResult::Modified => (
                            SplitPane::Horizontal { left: Box::new(l2), right: Box::new(r2), ratio },
                            RemoveResult::Modified,
                        ),
                        RemoveResult::NoChange => {
                            proof {
                                lemma_remove_missing_keeps(*right, target);
                            }
                            (
                                SplitPane::Horizontal {
                                    left: Box::new(l2),
                                    right: Box::new(r2),
                                    ratio,
                                },
                                RemoveResult::NoChange,
                            )
                        },
                    }
                },
            }
        },
        SplitPane::Vertical { top, bottom, ratio } => {
            let (t2, rt) = remove_owned(*top, target);
            match rt {
                RemoveResult::RemoveSelf => (*bottom, RemoveResult::Modified),
                RemoveResult::Modified => (
                    SplitPane::Vertical { top: Box::new(t2), bottom, ratio },
                    RemoveResult::Modified,
                ),
                RemoveResult::NoChange => {
                    proof {
                        lemma_remove_missing_keeps(*top, target);
                    }
                    let (b2, rb) = remove_owned(*bottom, target);
                    match rb {
                        RemoveResult::RemoveSelf => (t2, RemoveResult::Modified),
                        RemoveResult::Modified => (
                            SplitPane::Vertical { top: Box::new(t2), bottom: Box::new(b2), ratio },
                            RemoveResult::Modified,
                        ),
                        RemoveResult::NoChange => {
                            proof {
                                lemma_remove_missing_keeps(*bottom, target);
                            }
                            (
                                SplitPane::Vertical { top: Box::new(t2), bottom: Box::new(b2), ratio },
                                RemoveResult::NoChange,
                            )
                        },
                    }
                },
            }
        },
    }
}

impl<R: Copy> SplitPane<R> {
    pub fn new_single(group_id: usize) -> (r: Self)
        ensures
            r == SplitPane::<R>::Single(group_id),
    {
        SplitPane::Single(group_id)
    }

    /// Split a leaf (matching `target_group`) horizontally, inserting `new_group`
    /// on the right with the given ratio.
    pub fn split_horizontal(&mut self, target_group: usize, new_group: usize, ratio: R) -> (r:
        bool)
        ensures
            (*final(self), r) == split_tree(*old(self), target_group, new_group, true, ratio),
    {
        let mut t = SplitPane::Single(0);
        std::mem::swap(&mut t, self);
        let (t2, done) = split_owned(t, target_group, new_group, true, ratio);
        *self = t2;
        done
    }

    /// Split a leaf vertically, inserting `new_group` below with the given ratio.
    pub fn split_vertical(&mut self, target_group: usize, new_group: usize, ratio: R) -> (r: bool)
        ensures
            (*final(self), r) == split_tree(*old(self), target_group, new_group, false, ratio),
    {
        let mut t = SplitPane::Single(0);
        std::mem::swap(&mut t, self);
        let (t2, done) = split_owned(t, target_group, new_group, false, ratio);
        *self = t2;
        done
    }

    /// Remove a group leaf, replacing this subtree with the sibling.
    pub fn remove_group(&mut self, target_group: usize) -> (r: RemoveResult)
        ensures
            (*final(self), r) == remove_tree(*old(self), target_group),
    {
        let mut t = SplitPane::Single(0);
        std::mem::swap(&mut t, self);
        let (t2, res) = remove_owned(t, target_group);
        *self = t2;
        res
    }

    /// Collect all leaf group IDs.
    pub fn leaf_group_ids(&self) -> (r: Vec<usize>)
        ensures
            r@ == leaves(*self),
        decreases self,
    {
        match self {
            SplitPane::Single(id) => {
                let mut v = Vec::new();
                v.push(*id);
                assert(v@ =~= seq![*id]);
                v
            },
            SplitPane::Horizontal { left, right, .. } => {
                let mut v = left.leaf_group_ids();
                let mut w = right.leaf_group_ids();
                v.append(&mut w);
                v
            },
            SplitPane::Vertical { top, bottom, .. } => {
                let mut v = top.leaf_group_ids();
                let mut w = bottom.leaf_group_ids();
                v.append(&mut w);
                v
            },
        }
    }
}

/// `x` with `a` and `b` exchanged.
pub open spec fn swap_id(x: usize, a: usize, b: usize) -> usize {
    if x == a {
        b
    } else if x == b {
        a
    } else {
        x
    }
}

/// The tree with the group IDs `a` and `b` exchanged in every leaf.
pub open spec fn swapped_tree<R>(t: SplitPane<R>, a: usize, b: usize) -> SplitPane<R>
    decreases t,
{
    match t {
        SplitPane::Single(id) => SplitPane::Single(swap_id(id, a, b)),
        SplitPane::Horizontal { left, right, ratio } => SplitPane::Horizontal {
            left: Box::new(swapped_tree(*left, a, b)),
            right: Box::new(swapped_tree(*right, a, b)),
            ratio,
        },
        SplitPane::Vertical { top, bottom, ratio } => SplitPane::Vertical {
            top: Box::new(swapped_tree(*top, a, b)),
            bottom: Box::new(swapped_tree(*bottom, a, b)),
            ratio,
        },
    }
}

/// Swap two group IDs in the tree.
fn swap_owned<R>(t: SplitPane<R>, a: usize, b: usize) -> (r: SplitPane<R>)
    ensures
        r == swapped_tree(t, a, b),
    decreases t,
{
    match t {
        SplitPane::Single(id) => {
            if id == a {
                SplitPane::Single(b)
            } else if id == b {
                SplitPane::Single(a)
            } else {
                SplitPane::Single(id)
            }
        },
        SplitPane::Horizontal { left, right, ratio } => SplitPane::Horizontal {
            left: Box::new(swap_owned(*left, a, b)),
            right: Box::new(swap_owned(*right, a, b)),
            ratio,
        },
        SplitPane::Vertical { top, bottom, ratio } => SplitPane::Vertical {
            top: Box::new(swap_owned(*top, a, b)),
            bottom: Box::new(swap_owned(*bottom, a, b)),
            ratio,
        },
    }
}

/// Swap two group IDs in the tree.
fn swap_in_tree<R>(node: &mut SplitPane<R>, a: usize, b: usize)
    ensures
        *final(node) == swapped_tree(*old(node), a, b),
{
    let mut t = SplitPane::Single(0);
    std::mem::swap(&mut t, node);
    *node = swap_owned(t, a, b);
}

/// Swapping two IDs exchanges them in the leaf order and moves nothing.
pub proof fn lemma_swap_leaves<R>(t: SplitPane<R>, a: usize, b: usize)
    ensures
        leaves(swapped_tree(t, a, b)) == leaves(t).map_values(|x: usize| swap_id(x, a, b)),
    decreases t,
{
    match t {
        SplitPane::Single(id) => {
            assert(leaves(swapped_tree(t, a, b)) =~= leaves(t).map_values(
                |x: usize| swap_id(x, a, b),
            ));
        },
        SplitPane::Horizontal { left, right, ratio } => {
            lemma_swap_leaves(*left, a, b);
            lemma_swap_leaves(*right, a, b);
            assert(leaves(swapped_tree(t, a, b)) =~= leaves(t).map_values(
                |x: usize| swap_id(x, a, b),
            ));
        },
        SplitPane::Vertical { top, bottom, ratio } => {
            lemma_swap_leaves(*top, a, b);
            lemma_swap_leaves(*bottom, a, b);
            assert(leaves(swapped_tree(t, a, b)) =~= leaves(t).map_values(
                |x: usize| swap_id(x, a, b),
            ));
        },
    }
}

/// Manages the split pane tree for one window.
pub struct SplitPaneManager<R> {
    root: SplitPane<R>,
    /// Group ID of the currently focused pane.
    pub focused_group_id: usize,
}

impl<R: Copy> SplitPaneManager<R> {
    /// The tree.
    pub closed spec fn tree(&self) -> SplitPane<R> {
        self.root
    }

    /// The focused group.
    pub closed spec fn focus(&self) -> usize {
        self.focused_group_id
    }

    pub fn new(initial_group_id: usize) -> (r: Self)
        ensures
            r.tree() == SplitPane::<R>::Single(initial_group_id),
            r.focus() == initial_group_id,
    {
        SplitPaneManager { root: SplitPane::Single(initial_group_id), focused_group_id: initial_group_id }
    }

    pub fn root(&self) -> (r: &SplitPane<R>)
        ensures
            *r == self.tree(),
    {
        &self.root
    }

    /// Split the focused group horizontally; new_group appears on the right and
    /// takes the focus.
    pub fn split_horizontal(&mut self, new_group_id: usize, ratio: R)
        ensures
            final(self).tree() == split_tree(
                old(self).tree(),
                old(self).focus(),
                new_group_id,
                true,
                ratio,
            ).0,
            final(self).focus() == new_group_id,
    {
        let target = self.focused_group_id;
        self.root.split_horizontal(target, new_group_id, ratio);
        self.focused_group_id = new_group_id;
    }

    /// Split the focused group vertically; new_group appears at the bottom and takes
    /// the focus.
    pub fn split_vertical(&mut self, new_group_id: usize, ratio: R)
        ensures
            final(self).tree() == split_tree(
                old(self).tree(),
                old(self).focus(),
                new_group_id,
                false,
                ratio,
            ).0,
            final(self).focus() == new_group_id,
    {
        let target = self.focused_group_id;
        self.root.split_vertical(target, new_group_id, ratio);
        self.focused_group_id = new_group_id;
    }

    /// Split a specific group (not necessarily focused).
    pub fn split_group_horizontal(&mut self, target_group_id: usize, new_group_id: usize, ratio: R)
        ensures
            final(self).tree() == split_tree(
                old(self).tree(),
                target_group_id,
                new_group_id,
                true,
                ratio,
            ).0,
            final(self).focus() == old(self).focus(),
    {
        self.root.split_horizontal(target_group_id, new_group_id, ratio);
    }

    pub fn split_group_vertical(&mut self, target_group_id: usize, new_group_id: usize, ratio: R)
        ensures
            final(self).tree() == split_tree(
                old(self).tree(),
                target_group_id,
                new_group_id,
                false,
                ratio,
            ).0,
            final(self).focus() == old(self).focus(),
    {
        self.root.split_vertical(target_group_id, new_group_id, ratio);
    }

    /// Called after a group is removed from the tab manager: its pane goes, and if
    /// it had the focus, the first remaining pane gets it.
    pub fn on_group_removed(&mut self, group_id: usize)
        ensures
            final(self).tree() == remove_tree(old(self).tree(), group_id).0,
            final(self).focus() == (if old(self).focus() == group_id {
                leaves(remove_tree(old(self).tree(), group_id).0)[0]
            } else {
                old(self).focus()
            }),
    {
        self.root.remove_group(group_id);
        let leaves = self.root.leaf_group_ids();
        proof {
            lemma_leaves_nonempty(self.root);
        }
        if self.focused_group_id == group_id {
            self.focused_group_id = if leaves.len() > 0 {
                leaves[0]
            } else {
                0
            };
        }
    }

    pub fn set_focused_group(&mut self, group_id: usize)
        ensures
            final(self).tree() == old(self).tree(),
            final(self).focus() == group_id,
    {
        self.focused_group_id = group_id;
    }

    /// Swap two group IDs in the tree (and in the focus).
    pub fn swap_groups(&mut self, a: usize, b: usize)
        ensures
            final(self).tree() == swapped_tree(old(self).tree(), a, b),
            final(self).focus() == swap_id(old(self).focus(), a, b),
    {
        swap_in_tree(&mut self.root, a, b);
        if self.focused_group_id == a {
            self.focused_group_id = b;
        } else if self.focused_group_id == b {
            self.focused_group_id = a;
        }
    }

    /// Get all leaf group IDs.
    pub fn leaf_group_ids(&self) -> (r: Vec<usize>)
        ensures
            r@ == leaves(self.tree()),
    {
        self.root.leaf_group_ids()
    }
}

/// Every tree has at least one leaf.
pub proof fn lemma_leaves_nonempty<R>(t: SplitPane<R>)
    ensures
        leaves(t).len() >= 1,
    decreases t,
{
    match t {
        SplitPane::Single(id) => {},
        SplitPane::Horizontal { left, right, .. } => {
            lemma_leaves_nonempty(*left);
        },
        SplitPane::Vertical { top, bottom, .. } => {
            lemma_leaves_nonempty(*top);
        },
    }
}

// ── Laws ───────────────────────────────────────────────────────────────

/// Splitting or removing a group that is not a leaf leaves the tree as it is.
pub proof fn lemma_split_missing_keeps<R>(
    t: SplitPane<R>,
    target: usize,
    new_group: usize,
    horizontal: bool,
    ratio: R,
)
    ensures
        split_tree(t, target, new_group, horizontal, ratio).1 == leaves(t).contains(target),
        !split_tree(t, target, new_group, horizontal, ratio).1 ==> split_tree(
            t,
            target,
            new_group,
            horizontal,
            ratio,
        ).0 == t,
    decreases t,
{
    match t {
        SplitPane::Single(id) => {
            assert(leaves(t) =~= seq![id]);
            assert(leaves(t).contains(target) <==> id == target) by {
                if id == target {
                    assert(leaves(t)[0] == target);
                }
            }
        },
        SplitPane::Horizontal { left, right, ratio: r0 } => {
            lemma_split_missing_keeps(*left, target, new_group, horizontal, ratio);
            lemma_split_missing_keeps(*right, target, new_group, horizontal, ratio);
            lemma_concat_contains(leaves(*left), leaves(*right), target);
        },
        SplitPane::Vertical { top, bottom, ratio: r0 } => {
            lemma_split_missing_keeps(*top, target, new_group, horizontal, ratio);
            lemma_split_missing_keeps(*bottom, target, new_group, horizontal, ratio);
            lemma_concat_contains(leaves(*top), leaves(*bottom), target);
        },
    }
}

proof fn lemma_concat_contains(a: Seq<usize>, b: Seq<usize>, x: usize)
    ensures
        (a + b).contains(x) <==> a.contains(x) || b.contains(x),
{
    if a.contains(x) {
        let i = choose|i: int| 0 <= i < a.len() && a[i] == x;
        assert((a + b)[i] == x);
    }
    if b.contains(x) {
        let i = choose|i: int| 0 <= i < b.len() && b[i] == x;
        assert((a + b)[a.len() + i] == x);
    }
    if (a + b).contains(x) {
        let i = choose|i: int| 0 <= i < (a + b).len() && (a + b)[i] == x;
        if i < a.len() {
            assert(a[i] == x);
        } else {
            assert(b[i - a.len()] == x);
        }
    }
}

/// Removing a group that is not a leaf changes nothing and says so.
pub proof fn lemma_remove_missing_keeps<R>(t: SplitPane<R>, target: usize)
    ensures
        (remove_tree(t, target).1 == RemoveResult::NoChange) <==> !leaves(t).contains(target),
        remove_tree(t, target).1 == RemoveResult::NoChange ==> remove_tree(t, target).0 == t,
        remove_tree(t, target).1 == RemoveResult::RemoveSelf <==> t == SplitPane::<R>::Single(
            target,
        ),
    decreases t,
{
    match t {
        SplitPane::Single(id) => {
            assert(leaves(t) =~= seq![id]);
            if id == target {
                assert(leaves(t)[0] == target);
            }
        },
        SplitPane::Horizontal { left, right, ratio } => {
            lemma_remove_missing_keeps(*left, target);
            lemma_remove_missing_keeps(*right, target);
            lemma_concat_contains(leaves(*left), leaves(*right), target);
        },
        SplitPane::Vertical { top, bottom, ratio } => {
            lemma_remove_missing_keeps(*top, target);
            lemma_remove_missing_keeps(*bottom, target);
            lemma_concat_contains(leaves(*top), leaves(*bottom), target);
        },
    }
}

/// The first index of `x` in `s`.
pub open spec fn first_index(s: Seq<usize>, x: usize) -> int
    decreases s.len(),
{
    if s.len() == 0 {
        0
    } else if s[0] == x {
        0
    } else {
        1 + first_index(s.drop_first(), x)
    }
}

/// Splitting a group's leaf puts the new group right after the first leaf of that
/// group in leaf order, and changes nothing else.
pub proof fn lemma_split_leaves<R>(
    t: SplitPane<R>,
    target: usize,
    new_group: usize,
    horizontal: bool,
    ratio: R,
)
    requires
        leaves(t).contains(target),
    ensures
        ({
            let l = leaves(t);
            let k = first_index(l, target);
            leaves(split_tree(t, target, new_group, horizontal, ratio).0) == l.subrange(0, k + 1)
                + seq![new_group] + l.subrange(k + 1, l.len() as int)
        }),
    decreases t,
{
    match t {
        SplitPane::Single(id) => {
            assert(leaves(t) =~= seq![id]);
            assert(leaves(t)[0] == target);
            let l = leaves(t);
            assert(first_index(l, target) == 0);
            let a = SplitPane::<R>::Single(id);
            let b = SplitPane::<R>::Single(new_group);
            assert(leaves(a) =~= seq![id]);
            assert(leaves(b) =~= seq![new_group]);
            let r = split_tree(t, target, new_group, horizontal, ratio).0;
            assert(leaves(r) =~= leaves(a) + leaves(b));
            assert(l.subrange(0, 1) + seq![new_group] + l.subrange(1, 1) =~= seq![id, new_group]);
        },
        SplitPane::Horizontal { left, right, ratio: r0 } => {
            lemma_split_missing_keeps(*left, target, new_group, horizontal, ratio);
            lemma_first_index_concat(leaves(*left), leaves(*right), target);
            if leaves(*left).contains(target) {
                lemma_split_leaves(*left, target, new_group, horizontal, ratio);
                lemma_first_index_bound(leaves(*left), target);
            } else {
                lemma_concat_contains(leaves(*left), leaves(*right), target);
                lemma_split_leaves(*right, target, new_group, horizontal, ratio);
                lemma_first_index_bound(leaves(*right), target);
            }
            let l = leaves(t);
            let k = first_index(l, target);
            let a = leaves(*left);
            let b = leaves(*right);
            if a.contains(target) {
                assert(l.subrange(0, k + 1) + seq![new_group] + l.subrange(k + 1, l.len() as int)
                    =~= (a.subrange(0, k + 1) + seq![new_group] + a.subrange(k + 1, a.len() as int))
                    + b);
            } else {
                let kb = first_index(b, target);
                assert(l.subrange(0, k + 1) + seq![new_group] + l.subrange(k + 1, l.len() as int)
                    =~= a + (b.subrange(0, kb + 1) + seq![new_group] + b.subrange(
                    kb + 1,
                    b.len() as int,
                )));
            }
        },
        SplitPane::Vertical { top, bottom, ratio: r0 } => {
            lemma_split_missing_keeps(*top, target, new_group, horizontal, ratio);
            lemma_first_index_concat(leaves(*top), leaves(*bottom), target);
            if leaves(*top).contains(target) {
                lemma_split_leaves(*top, target, new_group, horizontal, ratio);
                lemma_first_index_bound(leaves(*top), target);
            } else {
                lemma_concat_contains(leaves(*top), leaves(*bottom), target);
                lemma_split_leaves(*bottom, target, new_group, horizontal, ratio);
                lemma_first_index_bound(leaves(*bottom), target);
            }
            let l = leaves(t);
            let k = first_index(l, target);
            let a = leaves(*top);
            let b = leaves(*bottom);
            if a.contains(target) {
                assert(l.subrange(0, k + 1) + seq![new_group] + l.subrange(k + 1, l.len() as int)
                    =~= (a.subrange(0, k + 1) + seq![new_group] + a.subrange(k + 1, a.len() as int))
                    + b);
            } else {
                let kb = first_index(b, target);
                assert(l.subrange(0, k + 1) + seq![new_group] + l.subrange(k + 1, l.len() as int)
                    =~= a + (b.subrange(0, kb + 1) + seq![new_group] + b.subrange(
                    kb + 1,
                    b.len() as int,
                )));
            }
        },
    }
}

pub(crate) proof fn lemma_first_index_bound(s: Seq<usize>, x: usize)
    requires
        s.contains(x),
    ensures
        0 <= first_index(s, x) < s.len(),
        s[first_index(s, x)] == x,
    decreases s.len(),
{
    if s[0] != x {
        let i = choose|i: int| 0 <= i < s.len() && s[i] == x;
        assert(s.drop_first()[i - 1] == x);
        lemma_first_index_bound(s.drop_first(), x);
    }
}

proof fn lemma_first_index_concat(a: Seq<usize>, b: Seq<usize>, x: usize)
    ensures
        a.contains(x) ==> first_index(a + b, x) == first_index(a, x),
        !a.contains(x) ==> first_index(a + b, x) == a.len() + first_index(b, x),
    decreases a.len(),
{
    if a.len() > 0 {
        assert((a + b).drop_first() =~= a.drop_first() + b);
        if a[0] != x {
            if a.contains(x) {
                let i = choose|i: int| 0 <= i < a.len() && a[i] == x;
                assert(a.drop_first()[i - 1] == x);
            }
            if a.drop_first().contains(x) {
                let i = choose|i: int| 0 <= i < a.drop_first().len() && a.drop_first()[i] == x;
                assert(a[i + 1] == x);
            }
        }
        lemma_first_index_concat(a.drop_first(), b, x);
    } else {
        assert(a + b =~= b);
    }
}

/// Removing a group drops the first leaf of that group from the leaf order and
/// changes nothing else (unless the tree is that one leaf).
#[verifier::spinoff_prover]
#[verifier::rlimit(40)]
pub proof fn lemma_remove_leaves<R>(t: SplitPane<R>, target: usize)
    requires
        leaves(t).contains(target),
        t != SplitPane::<R>::Single(target),
    ensures
        remove_tree(t, target).1 == RemoveResult::Modified,
        leaves(remove_tree(t, target).0) == leaves(t).remove(first_index(leaves(t), target)),
    decreases t,
{
    lemma_remove_missing_keeps(t, target);
    match t {
        SplitPane::Single(id) => {
            assert(leaves(t) =~= seq![id]);
            assert(leaves(t)[0] == target);
        },
        SplitPane::Horizontal { left, right, ratio } => {
            let a = leaves(*left);
            let b = leaves(*right);
            lemma_remove_missing_keeps(*left, target);
            lemma_remove_missing_keeps(*right, target);
            lemma_first_index_concat(a, b, target);
            lemma_concat_contains(a, b, target);
            if a.contains(target) {
                lemma_first_index_bound(a, target);
                let k = first_index(a, target);
                if *left == SplitPane::<R>::Single(target) {
                    assert(a =~= seq![target]);
                    assert((a + b).remove(0) =~= b);
                } else {
                    lemma_remove_leaves(*left, target);
                    assert((a + b).remove(k) =~= a.remove(k) + b);
                }
            } else {
                lemma_first_index_bound(b, target);
                let k = first_index(b, target);
                if *right == SplitPane::<R>::Single(target) {
                    assert(b =~= seq![target]);
                    assert((a + b).remove(a.len() as int) =~= a);
                } else {
                    lemma_remove_leaves(*right, target);
                    assert((a + b).remove(a.len() + k) =~= a + b.remove(k));
                }
            }
        },
        SplitPane::Vertical { top, bottom, ratio } => {
            let a = leaves(*top);
            let b = leaves(*bottom);
            lemma_remove_missing_keeps(*top, target);
            lemma_remove_missing_keeps(*bottom, target);
            lemma_first_index_concat(a, b, target);
            lemma_concat_contains(a, b, target);
            if a.contains(target) {
                lemma_first_index_bound(a, target);
                let k = first_index(a, target);
                if *top == SplitPane::<R>::Single(target) {
                    assert(a =~= seq![target]);
                    assert((a + b).remove(0) =~= b);
                } else {
                    lemma_remove_leaves(*top, target);
                    assert((a + b).remove(k) =~= a.remove(k) + b);
                }
            } else {
                lemma_first_index_bound(b, target);
                let k = first_index(b, target);
                if *bottom == SplitPane::<R>::Single(target) {
                    assert(b =~= seq![target]);
                    assert((a + b).remove(a.len() as int) =~= a);
                } else {
                    lemma_remove_leaves(*bottom, target);
                    assert((a + b).remove(a.len() + k) =~= a + b.remove(k));
                }
            }
        },
    }
}

} // verus!
