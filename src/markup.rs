//! The markup renderer: writes the view of the state as a markup string.
use vstd::prelude::*;
use vstd::string::StringExecFns;
use crate::rules::{
    anim_box_node, anim_node, anim_style, cell_node, inner_node, leaf_node, lemma_tree_children,
    main_node, node_view, row_class, row_node, table_node, tbody_node, tree_children, tree_node,
};
use crate::state::{
    AnimBoxState, AnimState, AppState, TableItemState, TableState, TreeNodeState, TreeState,
};
use crate::text::{decimal, decimal_string, escape, lemma_escape_concat, push_escaped, str_eq};
use crate::view::{
    attrs_markup, bare, close_tag, lemma_attrs_markup_one, lemma_markup_all_empty,
    lemma_markup_all_one, lemma_markup_all_push, markup, markup_all, open_tag, tag_name,
    with_style, Tag,
};

verus! {

/// Appends `<tag class='class'`, the start of an opening tag.
fn push_open_start(html: &mut String, tag: Tag, class_name: &str)
    ensures
        final(html)@ == old(html)@ + "<"@ + tag_name(tag) + " class='"@ + escape(class_name@)
            + "'"@,
{
    html.append("<");
    html.append(tag.name());
    html.append(" class='");
    push_escaped(html, class_name);
    html.append("'");
}

/// Appends the opening tag of an element with a class and nothing else.
fn push_open(html: &mut String, tag: Tag, class_name: &str)
    requires
        class_name@.len() > 0,
    ensures
        final(html)@ == old(html)@ + open_tag(bare(tag, class_name@)),
{
    let ghost start = html@;
    push_open_start(html, tag, class_name);
    html.append(">");
    proof {
        assert(attrs_markup(seq![]) =~= seq![]);
        assert(html@ =~= start + open_tag(bare(tag, class_name@)));
    }
}

/// Appends the attribute ` name='value'`, the value escaped.
fn push_attr(html: &mut String, name: &str, value: &str)
    ensures
        final(html)@ == old(html)@ + " "@ + name@ + "='"@ + escape(value@) + "'"@,
{
    html.append(" ");
    html.append(name);
    html.append("='");
    push_escaped(html, value);
    html.append("'");
}

/// Appends the closing tag of `tag`.
fn push_close(html: &mut String, tag: Tag)
    ensures
        final(html)@ == old(html)@ + close_tag(tag),
{
    html.append("</");
    html.append(tag.name());
    html.append(">");
}

/// Appends the markup of a table cell showing `props`.
pub fn render_table_cell(html: &mut String, props: &str)
    ensures
        final(html)@ == old(html)@ + markup(cell_node(props@)),
{
    let ghost start = html@;
    push_open_start(html, Tag::Td, "TableCell");
    push_attr(html, "data-text", props);
    html.append(">");
    push_escaped(html, props);
    push_close(html, Tag::Td);
    proof {
        reveal_strlit("TableCell");
        reveal_strlit(">");
        let n = cell_node(props@);
        lemma_attrs_markup_one("data-text"@, props@);
        lemma_markup_all_empty();
        assert(open_tag(n) =~= "<"@ + tag_name(Tag::Td) + " class='"@ + escape("TableCell"@)
            + "'"@ + " "@ + "data-text"@ + "='"@ + escape(props@) + "'"@ + ">"@);
        assert(html@ =~= start + markup(n));
    }
}

/// Appends the markup of one table row.
pub fn render_table_row(html: &mut String, data: &TableItemState)
    ensures
        final(html)@ == old(html)@ + markup(row_node(*data)),
{
    let ghost start = html@;
    let ghost n = row_node(*data);
    html.append("<");
    html.append(Tag::Tr.name());
    html.append(" class='");
    push_escaped(html, "TableRow");
    if data.active {
        push_escaped(html, " active");
    }
    html.append("'");
    let ghost extra = if data.active {
        " active"@
    } else {
        seq![]
    };
    assert(html@ =~= start + "<"@ + tag_name(Tag::Tr) + " class='"@ + escape("TableRow"@)
        + escape(extra) + "'"@);
    let id = decimal_string(data.id);
    push_attr(html, "data-id", id.as_str());
    html.append(">");
    proof {
        reveal_strlit(" active");
        reveal_strlit(" ");
        reveal_strlit("active");
        reveal_strlit("TableRow");
        reveal_strlit(">");
        lemma_attrs_markup_one("data-id"@, decimal(data.id as nat));
        assert(row_class(data.active) =~= "TableRow"@ + extra);
        lemma_escape_concat("TableRow"@, extra);
        assert(open_tag(n) =~= "<"@ + tag_name(Tag::Tr) + " class='"@ + escape("TableRow"@)
            + escape(extra) + "'"@ + " "@ + "data-id"@ + "='"@ + escape(decimal(data.id as nat))
            + "'"@ + ">"@);
        assert(html@ =~= start + open_tag(n) + escape(n.text));
    }
    let mut pound_id = String::from_str("#");
    pound_id.append(id.as_str());
    render_table_cell(html, pound_id.as_str());
    proof {
        assert(n.children.subrange(0, 0) =~= seq![]);
        lemma_markup_all_empty();
        lemma_markup_all_push(n.children.subrange(0, 0), n.children[0]);
        assert(n.children.subrange(0, 0).push(n.children[0]) =~= n.children.subrange(0, 1));
        assert(html@ =~= start + open_tag(n) + escape(n.text) + markup_all(
            n.children.subrange(0, 1),
        ));
    }
    let len = data.props.len();
    let mut i: usize = 0;
    while i < len
        invariant
            len == data.props@.len(),
            i <= len,
            n == row_node(*data),
            n.children.len() == len + 1,
            html@ == start + open_tag(n) + escape(n.text) + markup_all(
                n.children.subrange(0, i + 1),
            ),
        decreases len - i,
    {
        render_table_cell(html, data.props[i].as_str());
        proof {
            assert(n.children[i + 1] == cell_node(data.props@[i as int]@));
            lemma_markup_all_push(n.children.subrange(0, i + 1), n.children[i + 1]);
            assert(n.children.subrange(0, i + 1).push(n.children[i + 1]) =~= n.children.subrange(
                0,
                i + 2,
            ));
        }
        i = i + 1;
    }
    push_close(html, Tag::Tr);
    proof {
        assert(n.children.subrange(0, len + 1) =~= n.children);
        assert(html@ =~= start + markup(n));
    }
}

/// Appends the markup of the table.
pub fn render_table(html: &mut String, data: &TableState)
    ensures
        final(html)@ == old(html)@ + markup(table_node(*data)),
{
    let ghost start = html@;
    let ghost rows = tbody_node(*data).children;
    let ghost tb = tbody_node(*data);
    let ghost n = table_node(*data);
    proof {
        reveal_strlit("Table");
    }
    push_open(html, Tag::Table, "Table");
    html.append("<tbody>");
    proof {
        reveal_strlit("<tbody>");
        reveal_strlit("<");
        reveal_strlit("tbody");
        reveal_strlit(">");
        assert(attrs_markup(seq![]) =~= seq![]);
        assert(open_tag(tb) =~= "<tbody>"@);
        assert(open_tag(n) == open_tag(bare(Tag::Table, "Table"@)));
        assert(rows.subrange(0, 0) =~= seq![]);
        lemma_markup_all_empty();
        assert(html@ =~= start + open_tag(n) + open_tag(tb) + markup_all(rows.subrange(0, 0)));
    }
    let len = data.items.len();
    let mut i: usize = 0;
    while i < len
        invariant
            len == data.items@.len(),
            i <= len,
            rows == tbody_node(*data).children,
            tb == tbody_node(*data),
            n == table_node(*data),
            rows.len() == len,
            html@ == start + open_tag(n) + open_tag(tb) + markup_all(rows.subrange(0, i as int)),
        decreases len - i,
    {
        render_table_row(html, &data.items[i]);
        proof {
            lemma_markup_all_push(rows.subrange(0, i as int), rows[i as int]);
            assert(rows.subrange(0, i as int).push(rows[i as int]) =~= rows.subrange(0, i + 1));
        }
        i = i + 1;
    }
    push_close(html, Tag::Tbody);
    push_close(html, Tag::Table);
    proof {
        assert(rows.subrange(0, len as int) =~= rows);
        lemma_markup_all_one(tb);
        assert(markup(tb) =~= open_tag(tb) + markup_all(rows) + close_tag(Tag::Tbody));
        assert(html@ =~= start + markup(n));
    }
}

/// Appends the escaped style of an animated box.
fn push_anim_style(html: &mut String, radius: &str, alpha: &str)
    ensures
        final(html)@ == old(html)@ + escape(anim_style(radius@, alpha@)),
{
    let ghost start = html@;
    let ghost r = radius@;
    let ghost a = alpha@;
    push_escaped(html, "border-radius:");
    push_escaped(html, radius);
    push_escaped(html, "px;background:rgba(0,0,0,");
    push_escaped(html, alpha);
    push_escaped(html, ")");
    proof {
        reveal_strlit("border-radius:");
        reveal_strlit("px;background:rgba(0,0,0,");
        reveal_strlit("border-radius");
        reveal_strlit(":");
        reveal_strlit("px");
        reveal_strlit(";");
        reveal_strlit("background");
        reveal_strlit("rgba(0,0,0,");
        reveal_strlit(")");
        let x1 = "border-radius:"@;
        let x2 = "px;background:rgba(0,0,0,"@;
        let x3 = ")"@;
        assert(with_style(seq![], "border-radius"@, r + "px"@) =~= x1 + r + "px"@);
        assert(anim_style(r, a) =~= x1 + r + x2 + a + x3);
        lemma_escape_concat(x1 + r + x2 + a, x3);
        lemma_escape_concat(x1 + r + x2, a);
        lemma_escape_concat(x1 + r, x2);
        lemma_escape_concat(x1, r);
        assert(html@ =~= start + escape(anim_style(r, a)));
    }
}

/// Appends the markup of one animated box.
pub fn render_anim_box(html: &mut String, props: &AnimBoxState)
    ensures
        final(html)@ == old(html)@ + markup(anim_box_node(*props)),
{
    let ghost start = html@;
    let ghost st = anim_style(props.radius@, props.alpha@);
    push_open_start(html, Tag::Div, "AnimBox");
    html.append(" style='");
    push_anim_style(html, props.radius.as_str(), props.alpha.as_str());
    html.append("'");
    let id = decimal_string(props.id);
    push_attr(html, "data-id", id.as_str());
    html.append(">");
    push_close(html, Tag::Div);
    proof {
        reveal_strlit("border-radius");
        reveal_strlit(":");
        reveal_strlit("background");
        reveal_strlit(">");
        reveal_strlit("AnimBox");
        let n = anim_box_node(*props);
        assert(st.len() > 0);
        lemma_attrs_markup_one("data-id"@, decimal(props.id as nat));
        lemma_markup_all_empty();
        assert(open_tag(n) =~= "<"@ + tag_name(Tag::Div) + " class='"@ + escape("AnimBox"@)
            + "'"@ + " style='"@ + escape(st) + "'"@ + " "@ + "data-id"@ + "='"@ + escape(
            decimal(props.id as nat),
        ) + "'"@ + ">"@);
        assert(html@ =~= start + markup(n));
    }
}

/// Appends the markup of the animation.
pub fn render_anim(html: &mut String, props: &AnimState)
    ensures
        final(html)@ == old(html)@ + markup(anim_node(*props)),
{
    let ghost start = html@;
    let ghost n = anim_node(*props);
    let ghost boxes = n.children;
    proof {
        reveal_strlit("Anim");
    }
    push_open(html, Tag::Div, "Anim");
    proof {
        assert(open_tag(n) == open_tag(bare(Tag::Div, "Anim"@)));
        assert(boxes.subrange(0, 0) =~= seq![]);
        lemma_markup_all_empty();
        assert(html@ =~= start + open_tag(n) + escape(n.text) + markup_all(boxes.subrange(0, 0)));
    }
    let len = props.items.len();
    let mut i: usize = 0;
    while i < len
        invariant
            len == props.items@.len(),
            i <= len,
            n == anim_node(*props),
            boxes == n.children,
            boxes.len() == len,
            html@ == start + open_tag(n) + escape(n.text) + markup_all(boxes.subrange(0, i as int)),
        decreases len - i,
    {
        render_anim_box(html, &props.items[i]);
        proof {
            lemma_markup_all_push(boxes.subrange(0, i as int), boxes[i as int]);
            assert(boxes.subrange(0, i as int).push(boxes[i as int]) =~= boxes.subrange(0, i + 1));
        }
        i = i + 1;
    }
    push_close(html, Tag::Div);
    proof {
        assert(boxes.subrange(0, len as int) =~= boxes);
        assert(html@ =~= start + markup(n));
    }
}

/// Appends the markup of a tree leaf.
pub fn render_tree_leaf(html: &mut String, props: &TreeNodeState)
    ensures
        final(html)@ == old(html)@ + markup(leaf_node(*props)),
{
    let ghost start = html@;
    let ghost n = leaf_node(*props);
    proof {
        reveal_strlit("TreeLeaf");
    }
    push_open(html, Tag::Li, "TreeLeaf");
    let id = decimal_string(props.id);
    push_escaped(html, id.as_str());
    push_close(html, Tag::Li);
    proof {
        assert(open_tag(n) == open_tag(bare(Tag::Li, "TreeLeaf"@)));
        lemma_markup_all_empty();
        assert(html@ =~= start + markup(n));
    }
}

/// Appends the markup of an inner tree node and, recursively, of its children.
pub fn render_tree_node(html: &mut String, props: &TreeNodeState)
    ensures
        final(html)@ == old(html)@ + markup(inner_node(*props)),
    decreases props,
{
    let ghost start = html@;
    let ghost n = inner_node(*props);
    let ghost kids = n.children;
    proof {
        reveal_strlit("TreeNode");
    }
    push_open(html, Tag::Ul, "TreeNode");
    proof {
        assert(open_tag(n) == open_tag(bare(Tag::Ul, "TreeNode"@)));
        assert(kids.subrange(0, 0) =~= seq![]);
        lemma_markup_all_empty();
        assert(html@ =~= start + open_tag(n) + escape(n.text) + markup_all(kids.subrange(0, 0)));
    }
    if let Some(children) = &props.children {
        proof {
            assert(kids == tree_children(children@));
            lemma_tree_children(children@);
        }
        let len = children.len();
        let mut i: usize = 0;
        while i < len
            invariant
                props.children == Some(*children),
                len == children@.len(),
                i <= len,
                n == inner_node(*props),
                kids == n.children,
                kids == tree_children(children@),
                kids.len() == len,
                html@ == start + open_tag(n) + escape(n.text) + markup_all(
                    kids.subrange(0, i as int),
                ),
            decreases len - i,
        {
            proof {
                lemma_tree_children(children@);
            }
            let child = &children[i];
            if child.container {
                render_tree_node(html, child);
            } else {
                render_tree_leaf(html, child);
            }
            proof {
                lemma_tree_children(children@);
                lemma_markup_all_push(kids.subrange(0, i as int), kids[i as int]);
                assert(kids.subrange(0, i as int).push(kids[i as int]) =~= kids.subrange(0, i + 1));
            }
            i = i + 1;
        }
        proof {
            assert(kids.subrange(0, len as int) =~= kids);
        }
    }
    push_close(html, Tag::Ul);
    proof {
        assert(html@ =~= start + markup(n));
    }
}

/// Appends the markup of the tree; its root is shown by its own kind.
pub fn render_tree(html: &mut String, props: &TreeState)
    ensures
        final(html)@ == old(html)@ + markup(tree_node(*props)),
{
    let ghost start = html@;
    let ghost n = tree_node(*props);
    proof {
        reveal_strlit("Tree");
    }
    push_open(html, Tag::Div, "Tree");
    if props.root.container {
        render_tree_node(html, &props.root);
    } else {
        render_tree_leaf(html, &props.root);
    }
    push_close(html, Tag::Div);
    proof {
        assert(open_tag(n) == open_tag(bare(Tag::Div, "Tree"@)));
        lemma_markup_all_one(node_view(props.root));
        assert(html@ =~= start + markup(n));
    }
}

/// Appends the markup of the whole view: the `Main` wrapper around the
/// workload that `location` selects, or around nothing when it selects none.
pub fn render_main(html: &mut String, data: &AppState)
    ensures
        final(html)@ == old(html)@ + markup(main_node(*data)),
{
    let ghost start = html@;
    let ghost n = main_node(*data);
    proof {
        reveal_strlit("Main");
    }
    push_open(html, Tag::Div, "Main");
    let loc = data.location.as_str();
    if str_eq(loc, "table") {
        render_table(html, &data.table);
    } else if str_eq(loc, "anim") {
        render_anim(html, &data.anim);
    } else if str_eq(loc, "tree") {
        render_tree(html, &data.tree);
    }
    push_close(html, Tag::Div);
    proof {
        assert(open_tag(n) == open_tag(bare(Tag::Div, "Main"@)));
        lemma_markup_all_empty();
        if n.children.len() == 1 {
            lemma_markup_all_one(n.children[0]);
            assert(n.children =~= seq![n.children[0]]);
        }
        assert(html@ =~= start + markup(n));
    }
}

/// The markup of the whole view of `data`.
pub fn render(data: &AppState) -> (r: String)
    ensures
        r@ == markup(main_node(*data)),
{
    let mut html = String::new();
    render_main(&mut html, data);
    proof {
        assert(Seq::<char>::empty() + markup(main_node(*data)) =~= markup(main_node(*data)));
    }
    html
}

} // verus!
