//! Dragging tabs between groups.

use vstd::prelude::*;

verus! {

/// Identifies which tab is being dragged and from where.
#[derive(Debug, Clone)]
pub struct DragSource {
    pub group_id: usize,
    pub tab_idx: usize,
}

} // verus!
