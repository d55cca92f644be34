//! The rendering rules: the view that each part of the state is shown as.
//! Both renderers are proved against these.
use vstd::prelude::*;
use crate::state::{
    AnimBoxState, AnimState, AppState, TableItemState, TableState, TreeNodeState, TreeState,
};
use crate::text::decimal;
use crate::view::{bare, with_class, with_style, Tag, VNode};

verus! {

broadcast use {
    vstd::seq::axiom_seq_index_decreases,
    vstd::seq::axiom_seq_subrange_decreases,
    vstd::std_specs::vec::axiom_vec_decreases_to_view,
};

/// A table cell: its text is both its content and its `data-text` attribute.
pub open spec fn cell_node(text: Seq<char>) -> VNode {
    VNode { attrs: seq![("data-text"@, text)], text, ..bare(Tag::Td, "TableCell"@) }
}

/// A row's classes: `TableRow`, and `active` after it when the row is active.
pub open spec fn row_class(active: bool) -> Seq<char> {
    if active {
        with_class("TableRow"@, "active"@)
    } else {
        "TableRow"@
    }
}

/// A row: its `data-id`, a first cell `#id`, then one cell per entry of `props`.
pub open spec fn row_node(item: TableItemState) -> VNode {
    VNode {
        attrs: seq![("data-id"@, decimal(item.id as nat))],
        children: seq![cell_node("#"@ + decimal(item.id as nat))] + item.props@.map_values(
            |p: String| cell_node(p@),
        ),
        ..bare(Tag::Tr, row_class(item.active))
    }
}

/// The body of the table: one row per item, in order.
pub open spec fn tbody_node(t: TableState) -> VNode {
    VNode {
        children: t.items@.map_values(|item: TableItemState| row_node(item)),
        ..bare(Tag::Tbody, seq![])
    }
}

/// The table: a `Table` element around its body.
pub open spec fn table_node(t: TableState) -> VNode {
    VNode { children: seq![tbody_node(t)], ..bare(Tag::Table, "Table"@) }
}

/// The style of an animated box: its corner radius in pixels and a black
/// background of opacity `alpha`.
pub open spec fn anim_style(radius: Seq<char>, alpha: Seq<char>) -> Seq<char> {
    with_style(
        with_style(seq![], "border-radius"@, radius + "px"@),
        "background"@,
        "rgba(0,0,0,"@ + alpha + ")"@,
    )
}

/// An animated box: its style and its `data-id`.
pub open spec fn anim_box_node(b: AnimBoxState) -> VNode {
    VNode {
        style: anim_style(b.radius@, b.alpha@),
        attrs: seq![("data-id"@, decimal(b.id as nat))],
        ..bare(Tag::Div, "AnimBox"@)
    }
}

/// The animation: one box per item, in order.
pub open spec fn anim_node(a: AnimState) -> VNode {
    VNode {
        children: a.items@.map_values(|b: AnimBoxState| anim_box_node(b)),
        ..bare(Tag::Div, "Anim"@)
    }
}

/// A leaf of the tree shows its id.
pub open spec fn leaf_node(n: TreeNodeState) -> VNode {
    VNode { text: decimal(n.id as nat), ..bare(Tag::Li, "TreeLeaf"@) }
}

/// An inner node of the tree: a list of its children, each shown as an inner
/// node when it is a container and as a leaf otherwise.
pub open spec fn inner_node(n: TreeNodeState) -> VNode
    decreases n,
{
    VNode {
        children: match n.children {
            Some(v) => tree_children(v@),
            None => seq![],
        },
        ..bare(Tag::Ul, "TreeNode"@)
    }
}

/// The views of a sequence of tree nodes.
pub open spec fn tree_children(s: Seq<TreeNodeState>) -> Seq<VNode>
    decreases s,
{
    if s.len() == 0 {
        seq![]
    } else {
        let c = s[s.len() - 1];
        tree_children(s.subrange(0, s.len() - 1)).push(
            if c.container {
                inner_node(c)
            } else {
                leaf_node(c)
            },
        )
    }
}

pub proof fn lemma_tree_children(s: Seq<TreeNodeState>)
    ensures
        tree_children(s).len() == s.len(),
        forall|i: int|
            0 <= i < s.len() ==> #[trigger] tree_children(s)[i] == if s[i].container {
                inner_node(s[i])
            } else {
                leaf_node(s[i])
            },
    decreases s.len(),
{
    if s.len() > 0 {
        lemma_tree_children(s.subrange(0, s.len() - 1));
    }
}

/// A leaf never contributes child nodes, whatever its `children` field holds:
/// among the views of a node's children, a non-container child is shown as a
/// leaf, and a leaf has none.
pub proof fn lemma_leaf_has_no_children(s: Seq<TreeNodeState>, i: int)
    requires
        0 <= i < s.len(),
        !s[i].container,
    ensures
        tree_children(s)[i] == leaf_node(s[i]),
        tree_children(s)[i].children.len() == 0,
{
    lemma_tree_children(s);
}

/// A node shown by its own kind: an inner node when it is a container, a
/// leaf otherwise.
pub open spec fn node_view(n: TreeNodeState) -> VNode {
    if n.container {
        inner_node(n)
    } else {
        leaf_node(n)
    }
}

/// The tree: a `Tree` element around its root, shown by the root's kind.
pub open spec fn tree_node(t: TreeState) -> VNode {
    VNode { children: seq![node_view(t.root)], ..bare(Tag::Div, "Tree"@) }
}

/// A leaf root contributes no child nodes either: the tree shows it as a
/// single leaf with its id, whatever its `children` field holds.
pub proof fn lemma_leaf_root_has_no_children(t: TreeState)
    requires
        !t.root.container,
    ensures
        tree_node(t).children == seq![leaf_node(t.root)],
        tree_node(t).children[0].children.len() == 0,
{
}

/// The whole view: a `Main` element around the workload `location` names,
/// or around nothing when it names none.
pub open spec fn main_node(s: AppState) -> VNode {
    VNode {
        children: if s.location@ == "table"@ {
            seq![table_node(s.table)]
        } else if s.location@ == "anim"@ {
            seq![anim_node(s.anim)]
        } else if s.location@ == "tree"@ {
            seq![tree_node(s.tree)]
        } else {
            seq![]
        },
        ..bare(Tag::Div, "Main"@)
    }
}

} // verus!
