//! The template-clone renderer: builds the view of the state as live
//! elements, each a copy of a cached template changed in place.
use vstd::prelude::*;
use vstd::string::StringExecFns;
use crate::rules::{
    anim_box_node, anim_node, cell_node, inner_node, leaf_node, lemma_tree_children, main_node, node_view,
    row_node, table_node, tbody_node, tree_children, tree_node,
};
use crate::state::{
    AnimBoxState, AnimState, AppState, TableItemState, TableState, TreeNodeState, TreeState,
};
use crate::template::{Context, Shape};
use crate::text::{decimal, decimal_string, escape, lemma_escape_is_inert, str_eq};
use crate::view::{bare, markup, Element, Tag, VNode};

verus! {

/// `after` is a well-formed cache that holds every template `before` held.
pub open spec fn grows(before: Context, after: Context) -> bool {
    after.wf() && before.cached().subset_of(after.cached())
}

/// A table cell showing `props`.
pub fn render_table_cell(ctx: &mut Context, props: &str) -> (r: Element)
    requires
        old(ctx).wf(),
    ensures
        grows(*old(ctx), *final(ctx)),
        r@ == cell_node(props@),
{
    let mut el = ctx.get_template(Shape::TableCell);
    el.set_attribute("data-text", props);
    el.set_text_content(props);
    proof {
        assert(el@.attrs =~= seq![("data-text"@, props@)]);
    }
    el
}

/// One table row.
pub fn render_table_row(ctx: &mut Context, data: &TableItemState) -> (r: Element)
    requires
        old(ctx).wf(),
    ensures
        grows(*old(ctx), *final(ctx)),
        r@ == row_node(*data),
{
    let ghost n = row_node(*data);
    let mut el = ctx.get_template(Shape::TableRow);
    if data.active {
        el.add_class("active");
    }
    let id = decimal_string(data.id);
    el.set_attribute("data-id", id.as_str());
    let mut pound_id = String::from_str("#");
    pound_id.append(id.as_str());
    let cell = render_table_cell(ctx, pound_id.as_str());
    el.append_child(cell);
    proof {
        assert(el@.attrs =~= n.attrs);
        assert(el@.children =~= n.children.subrange(0, 1));
    }
    let len = data.props.len();
    let mut i: usize = 0;
    while i < len
        invariant
            len == data.props@.len(),
            i <= len,
            n == row_node(*data),
            n.children.len() == len + 1,
            grows(*old(ctx), *ctx),
            el@ == (VNode { children: n.children.subrange(0, i + 1), ..n }),
        decreases len - i,
    {
        let cell = render_table_cell(ctx, data.props[i].as_str());
        el.append_child(cell);
        proof {
            assert(n.children[i + 1] == cell_node(data.props@[i as int]@));
            assert(el@.children =~= n.children.subrange(0, i + 2));
        }
        i = i + 1;
    }
    proof {
        assert(el@.children =~= n.children);
    }
    el
}

/// The table.
pub fn render_table(ctx: &mut Context, data: &TableState) -> (r: Element)
    requires
        old(ctx).wf(),
    ensures
        grows(*old(ctx), *final(ctx)),
        r@ == table_node(*data),
{
    let ghost rows = tbody_node(*data).children;
    let mut el = ctx.get_template(Shape::Table);
    let mut tbody = el.remove_last_child().unwrap();
    proof {
        assert(tbody@ == bare(Tag::Tbody, seq![]));
        assert(rows.subrange(0, 0) =~= seq![]);
    }
    let len = data.items.len();
    let mut i: usize = 0;
    while i < len
        invariant
            len == data.items@.len(),
            i <= len,
            rows == tbody_node(*data).children,
            rows.len() == len,
            grows(*old(ctx), *ctx),
            tbody@ == (VNode { children: rows.subrange(0, i as int), ..bare(Tag::Tbody, seq![]) }),
        decreases len - i,
    {
        let row = render_table_row(ctx, &data.items[i]);
        tbody.append_child(row);
        proof {
            assert(tbody@.children =~= rows.subrange(0, i + 1));
        }
        i = i + 1;
    }
    el.append_child(tbody);
    proof {
        assert(tbody@.children =~= rows);
        assert(el@.children =~= seq![tbody_node(*data)]);
    }
    el
}

/// One animated box.
pub fn render_anim_box(ctx: &mut Context, props: &AnimBoxState) -> (r: Element)
    requires
        old(ctx).wf(),
    ensures
        grows(*old(ctx), *final(ctx)),
        r@ == anim_box_node(*props),
{
    let mut el = ctx.get_template(Shape::AnimBox);
    let mut radius = String::from_str(props.radius.as_str());
    radius.append("px");
    el.set_style_property("border-radius", radius.as_str());
    let mut background = String::from_str("rgba(0,0,0,");
    background.append(props.alpha.as_str());
    background.append(")");
    el.set_style_property("background", background.as_str());
    let id = decimal_string(props.id);
    el.set_attribute("data-id", id.as_str());
    proof {
        assert(el@.attrs =~= seq![("data-id"@, decimal(props.id as nat))]);
    }
    el
}

/// The animation.
pub fn render_anim(ctx: &mut Context, props: &AnimState) -> (r: Element)
    requires
        old(ctx).wf(),
    ensures
        grows(*old(ctx), *final(ctx)),
        r@ == anim_node(*props),
{
    let ghost n = anim_node(*props);
    let mut el = ctx.get_template(Shape::Anim);
    proof {
        assert(n.children.subrange(0, 0) =~= seq![]);
    }
    let len = props.items.len();
    let mut i: usize = 0;
    while i < len
        invariant
            len == props.items@.len(),
            i <= len,
            n == anim_node(*props),
            n.children.len() == len,
            grows(*old(ctx), *ctx),
            el@ == (VNode { children: n.children.subrange(0, i as int), ..n }),
        decreases len - i,
    {
        let b = render_anim_box(ctx, &props.items[i]);
        el.append_child(b);
        proof {
            assert(el@.children =~= n.children.subrange(0, i + 1));
        }
        i = i + 1;
    }
    proof {
        assert(el@.children =~= n.children);
    }
    el
}

/// A tree leaf.
pub fn render_tree_leaf(ctx: &mut Context, props: &TreeNodeState) -> (r: Element)
    requires
        old(ctx).wf(),
    ensures
        grows(*old(ctx), *final(ctx)),
        r@ == leaf_node(*props),
{
    let mut el = ctx.get_template(Shape::TreeLeaf);
    let id = decimal_string(props.id);
    el.set_text_content(id.as_str());
    el
}

/// An inner tree node and, recursively, its children.
pub fn render_tree_node(ctx: &mut Context, props: &TreeNodeState) -> (r: Element)
    requires
        old(ctx).wf(),
    ensures
        grows(*old(ctx), *final(ctx)),
        r@ == inner_node(*props),
    decreases props,
{
    let ghost n = inner_node(*props);
    let mut el = ctx.get_template(Shape::TreeNode);
    if let Some(children) = &props.children {
        proof {
            lemma_tree_children(children@);
            assert(n.children.subrange(0, 0) =~= seq![]);
        }
        let len = children.len();
        let mut i: usize = 0;
        while i < len
            invariant
                props.children == Some(*children),
                len == children@.len(),
                i <= len,
                n == inner_node(*props),
                n.children == tree_children(children@),
                n.children.len() == len,
                grows(*old(ctx), *ctx),
                el@ == (VNode { children: n.children.subrange(0, i as int), ..n }),
            decreases len - i,
        {
            let child = &children[i];
            let c = if child.container {
                render_tree_node(ctx, child)
            } else {
                render_tree_leaf(ctx, child)
            };
            el.append_child(c);
            proof {
                lemma_tree_children(children@);
                assert(el@.children =~= n.children.subrange(0, i + 1));
            }
            i = i + 1;
        }
        proof {
            assert(el@.children =~= n.children);
        }
    } else {
        proof {
            assert(el@.children =~= n.children);
        }
    }
    el
}

/// The tree.
pub fn render_tree(ctx: &mut Context, props: &TreeState) -> (r: Element)
    requires
        old(ctx).wf(),
    ensures
        grows(*old(ctx), *final(ctx)),
        r@ == tree_node(*props),
{
    let mut el = ctx.get_template(Shape::Tree);
    let root = if props.root.container {
        render_tree_node(ctx, &props.root)
    } else {
        render_tree_leaf(ctx, &props.root)
    };
    el.append_child(root);
    proof {
        assert(el@.children =~= seq![node_view(props.root)]);
    }
    el
}

/// The whole view: the `Main` element around the workload that `location`
/// selects, or around nothing when it selects none.
pub fn render_main(ctx: &mut Context, data: &AppState) -> (r: Element)
    requires
        old(ctx).wf(),
    ensures
        grows(*old(ctx), *final(ctx)),
        r@ == main_node(*data),
{
    let mut el = ctx.get_template(Shape::Main);
    let loc = data.location.as_str();
    if str_eq(loc, "table") {
        let t = render_table(ctx, &data.table);
        el.append_child(t);
    } else if str_eq(loc, "anim") {
        let a = render_anim(ctx, &data.anim);
        el.append_child(a);
    } else if str_eq(loc, "tree") {
        let t = render_tree(ctx, &data.tree);
        el.append_child(t);
    }
    proof {
        assert(el@.children =~= main_node(*data).children);
    }
    el
}

/// The two renderers agree on every table: the markup that the markup
/// renderer writes for it is the markup of the element that the
/// template-clone renderer builds for it, with each cell's text escaped, so
/// that no cell's text can end its attribute or open a tag.
pub proof fn lemma_table_renderers_agree(t: TableState, html: Seq<char>, el: VNode)
    requires
        html == markup(table_node(t)),
        el == table_node(t),
    ensures
        markup(el) == html,
        forall|i: int, j: int, k: int|
            0 <= i < el.children[0].children.len() && 0 <= j
                < el.children[0].children[i].children.len() && 0 <= k < escape(
                el.children[0].children[i].children[j].text,
            ).len() ==> #[trigger] escape(el.children[0].children[i].children[j].text)[k] != '<'
                && escape(el.children[0].children[i].children[j].text)[k] != '\'',
{
    assert forall|i: int, j: int, k: int|
        0 <= i < el.children[0].children.len() && 0 <= j
            < el.children[0].children[i].children.len() && 0 <= k < escape(
            el.children[0].children[i].children[j].text,
        ).len() implies #[trigger] escape(el.children[0].children[i].children[j].text)[k] != '<'
        && escape(el.children[0].children[i].children[j].text)[k] != '\'' by {
        lemma_escape_is_inert(el.children[0].children[i].children[j].text);
    }
}

/// The two renderers agree on every state: the markup string of the whole
/// view is the markup of the element tree the template-clone renderer builds.
pub proof fn lemma_renderers_agree(s: AppState, html: Seq<char>, el: VNode)
    requires
        html == markup(main_node(s)),
        el == main_node(s),
    ensures
        markup(el) == html,
{
}

} // verus!
