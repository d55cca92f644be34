//! The application state handed over for one benchmark iteration.
use vstd::prelude::*;

verus! {

/// One table row: its identity, whether it is highlighted, and its cells' text.
pub struct TableItemState {
    pub id: u32,
    pub active: bool,
    pub props: Vec<String>,
}

/// The rows of the table workload, in order.
pub struct TableState {
    pub items: Vec<TableItemState>,
}

/// One animated box.
///
/// The box's clock is a floating-point value; the two numbers derived from it,
/// `radius = time mod 10` and `alpha = radius / 10 + 0.5`, are computed where
/// the state is decoded and are held here as their decimal text.
pub struct AnimBoxState {
    pub id: u32,
    pub radius: String,
    pub alpha: String,
}

/// The boxes of the animation workload, in order.
pub struct AnimState {
    pub items: Vec<AnimBoxState>,
}

/// A node of the tree workload. Only a container's children are rendered.
pub struct TreeNodeState {
    pub id: u32,
    pub container: bool,
    pub children: Option<Vec<TreeNodeState>>,
}

/// The tree workload.
pub struct TreeState {
    pub root: TreeNodeState,
}

/// The whole state; `location` selects which workload is rendered.
pub struct AppState {
    pub location: String,
    pub table: TableState,
    pub anim: AnimState,
    pub tree: TreeState,
}

} // verus!
