use uibench::bridge::finish_markup;
use uibench::cloning;
use uibench::events::{dispatch_click, handle_click};
use uibench::markup;
use uibench::state::{
    AnimBoxState, AnimState, AppState, TableItemState, TableState, TreeNodeState, TreeState,
};
use uibench::template::{Context, Shape};
use uibench::text::{push_decimal, str_eq};
use uibench::view::{Element, Tag};

fn s(x: &str) -> String {
    x.to_string()
}

fn leaf(id: u32) -> TreeNodeState {
    TreeNodeState { id, container: false, children: None }
}

fn state(location: &str, table: TableState, anim: AnimState, tree: TreeState) -> AppState {
    AppState { location: s(location), table, anim, tree }
}

fn empty_table() -> TableState {
    TableState { items: vec![] }
}

fn empty_anim() -> AnimState {
    AnimState { items: vec![] }
}

fn small_tree() -> TreeState {
    TreeState { root: TreeNodeState { id: 0, container: true, children: None } }
}

fn example_table() -> TableState {
    TableState { items: vec![TableItemState { id: 1, active: true, props: vec![s("a"), s("b")] }] }
}

fn example_tree() -> TreeState {
    TreeState {
        root: TreeNodeState {
            id: 1,
            container: true,
            children: Some(vec![
                leaf(2),
                TreeNodeState { id: 3, container: true, children: Some(vec![]) },
            ]),
        },
    }
}

fn both(st: &AppState) -> (String, String) {
    let html = markup::render(st);
    let mut ctx = Context::new();
    let el = cloning::render_main(&mut ctx, st);
    (html, el.outer_html())
}

const TABLE_EXAMPLE: &str = "<div class='Main'><table class='Table'><tbody><tr class='TableRow active' data-id='1'><td class='TableCell' data-text='#1'>#1</td><td class='TableCell' data-text='a'>a</td><td class='TableCell' data-text='b'>b</td></tr></tbody></table></div>";

#[test]
fn table_example_markup() {
    let st = state("table", example_table(), empty_anim(), small_tree());
    assert_eq!(markup::render(&st), TABLE_EXAMPLE);
}

#[test]
fn table_example_clone() {
    let st = state("table", example_table(), empty_anim(), small_tree());
    let mut ctx = Context::new();
    let main = cloning::render_main(&mut ctx, &st);
    assert_eq!(main.children.len(), 1);
    let table = &main.children[0];
    assert_eq!(table.class_name, "Table");
    let row = &table.children[0].children[0];
    assert_eq!(row.tag, Tag::Tr);
    assert_eq!(row.class_name, "TableRow active");
    assert_eq!(row.get_attribute("data-id"), Some(s("1")));
    let texts: Vec<&str> = row.children.iter().map(|c| c.text.as_str()).collect();
    assert_eq!(texts, vec!["#1", "a", "b"]);
    assert_eq!(main.outer_html(), TABLE_EXAMPLE);
}

#[test]
fn inactive_row_has_no_modifier() {
    let t = TableState { items: vec![TableItemState { id: 40, active: false, props: vec![] }] };
    let st = state("table", t, empty_anim(), small_tree());
    let (html, cloned) = both(&st);
    assert_eq!(
        html,
        "<div class='Main'><table class='Table'><tbody><tr class='TableRow' data-id='40'><td class='TableCell' data-text='#40'>#40</td></tr></tbody></table></div>"
    );
    assert_eq!(cloned, html);
}

#[test]
fn renderers_agree_on_tables() {
    for n in 0..5u32 {
        let items = (0..n)
            .map(|i| TableItemState {
                id: i * 1000 + 7,
                active: i % 2 == 0,
                props: (0..i).map(|k| format!("p{}", k)).collect(),
            })
            .collect();
        let st = state("table", TableState { items }, empty_anim(), small_tree());
        let (html, cloned) = both(&st);
        assert_eq!(html, cloned);
    }
}

#[test]
fn anim_example() {
    let radius = 13.5f32 % 10.0;
    assert_eq!(radius.to_string(), "3.5");
    let a = AnimState {
        items: vec![AnimBoxState { id: 7, radius: radius.to_string(), alpha: s("0.85") }],
    };
    let st = state("anim", empty_table(), a, small_tree());
    let (html, cloned) = both(&st);
    assert_eq!(
        html,
        "<div class='Main'><div class='Anim'><div class='AnimBox' style='border-radius:3.5px;background:rgba(0,0,0,0.85)' data-id='7'></div></div></div>"
    );
    assert_eq!(cloned, html);
}

#[test]
fn anim_box_clone_carries_id_and_style() {
    let mut ctx = Context::new();
    let b = AnimBoxState { id: 7, radius: s("3.5"), alpha: s("0.85") };
    let el = cloning::render_anim_box(&mut ctx, &b);
    assert_eq!(el.get_attribute("data-id"), Some(s("7")));
    assert_eq!(el.style, "border-radius:3.5px;background:rgba(0,0,0,0.85)");
}

#[test]
fn tree_example() {
    let st = state("tree", empty_table(), empty_anim(), example_tree());
    let (html, cloned) = both(&st);
    assert_eq!(
        html,
        "<div class='Main'><div class='Tree'><ul class='TreeNode'><li class='TreeLeaf'>2</li><ul class='TreeNode'></ul></ul></div></div>"
    );
    assert_eq!(cloned, html);
}

#[test]
fn leaf_children_are_not_rendered() {
    let mut l = leaf(5);
    l.children = Some(vec![leaf(6), leaf(7)]);
    let t = TreeState { root: TreeNodeState { id: 1, container: true, children: Some(vec![l]) } };
    let st = state("tree", empty_table(), empty_anim(), t);
    let (html, cloned) = both(&st);
    assert_eq!(
        html,
        "<div class='Main'><div class='Tree'><ul class='TreeNode'><li class='TreeLeaf'>5</li></ul></div></div>"
    );
    assert_eq!(cloned, html);
    let mut ctx = Context::new();
    let mut l2 = leaf(5);
    l2.children = Some(vec![leaf(6)]);
    assert!(cloning::render_tree_leaf(&mut ctx, &l2).children.is_empty());
}

#[test]
fn unknown_location_renders_empty_wrapper() {
    let st = state("nowhere", example_table(), empty_anim(), example_tree());
    let (html, cloned) = both(&st);
    assert_eq!(html, "<div class='Main'></div>");
    assert_eq!(cloned, html);
}

#[test]
fn markup_appends_to_existing_text() {
    let mut html = s("x");
    markup::render_table_cell(&mut html, "q");
    assert_eq!(html, "x<td class='TableCell' data-text='q'>q</td>");
}

#[test]
fn template_cache_is_idempotent() {
    let mut ctx = Context::new();
    assert!(!ctx.is_cached(Shape::TableCell));
    let mut first = ctx.get_template(Shape::TableCell);
    assert!(ctx.is_cached(Shape::TableCell));
    assert!(!ctx.is_cached(Shape::TableRow));
    let second = ctx.get_template(Shape::TableCell);
    assert_eq!(first.outer_html(), second.outer_html());
    first.set_attribute("data-text", "changed");
    assert_eq!(second.get_attribute("data-text"), None);
    let third = ctx.get_template(Shape::TableCell);
    assert_eq!(third.outer_html(), "<td class='TableCell'></td>");
    assert_eq!(first.outer_html(), "<td class='TableCell' data-text='changed'></td>");
}

#[test]
fn table_template_holds_a_body() {
    let mut ctx = Context::new();
    let t = ctx.get_template(Shape::Table);
    assert_eq!(t.outer_html(), "<table class='Table'><tbody></tbody></table>");
    assert_eq!(Shape::Table.snippet(), "<table class=Table><tbody></tbody></table>");
}

#[test]
fn click_on_table_cell_reports_text() {
    let r = handle_click("TableCell", Some("a")).expect("a report");
    assert_eq!(r.tag, "Click");
    assert_eq!(r.text, "a");
}

#[test]
fn click_elsewhere_reports_nothing() {
    assert!(handle_click("TableRow", Some("a")).is_none());
    assert!(handle_click("", None).is_none());
    assert!(handle_click("TableCell active", Some("a")).is_none());
}

#[test]
fn click_on_rendered_cell() {
    let mut ctx = Context::new();
    let cell = cloning::render_table_cell(&mut ctx, "#12");
    let r = dispatch_click(&cell).expect("a report");
    assert_eq!(r.text, "#12");
    let row_item = TableItemState { id: 3, active: false, props: vec![] };
    let row = cloning::render_table_row(&mut ctx, &row_item);
    assert!(dispatch_click(&row).is_none());
}

#[test]
fn finish_wraps_result() {
    assert_eq!(finish_markup("{\"ok\":true,\"n\":42}"), "<pre>{\"ok\":true,\"n\":42}</pre>");
}

#[test]
fn decimal_numerals() {
    let mut out = String::new();
    push_decimal(&mut out, 0);
    out.push(' ');
    push_decimal(&mut out, 4294967295);
    out.push(' ');
    push_decimal(&mut out, 100);
    assert_eq!(out, "0 4294967295 100");
}

#[test]
fn string_equality() {
    assert!(str_eq("table", "table"));
    assert!(!str_eq("table", "tables"));
    assert!(!str_eq("anim", "tree"));
    assert!(str_eq("", ""));
}

#[test]
fn attributes_are_replaced_in_place() {
    let mut el = Element::new(Tag::Div, "");
    el.set_attribute("data-a", "1");
    el.set_attribute("data-b", "2");
    el.set_attribute("data-a", "3");
    assert_eq!(el.outer_html(), "<div data-a='3' data-b='2'></div>");
    el.add_class("x");
    el.add_class("y");
    el.set_style_property("color", "red");
    assert_eq!(el.outer_html(), "<div class='x y' style='color:red' data-a='3' data-b='2'></div>");
    let mut parent = Element::new(Tag::Ul, "P");
    parent.append_child(el);
    parent.set_text_content("t");
    assert_eq!(parent.outer_html(), "<ul class='P'>t</ul>");
}

#[test]
fn snippets_name_their_shapes() {
    assert_eq!(Shape::from_snippet("<td class=TableCell></td>"), Some(Shape::TableCell));
    assert_eq!(Shape::from_snippet("<div class=Main></div>"), Some(Shape::Main));
    assert_eq!(Shape::from_snippet("<div class=Main> </div>"), None);
    for k in [Shape::Table, Shape::AnimBox, Shape::TreeNode, Shape::Tree] {
        assert_eq!(Shape::from_snippet(k.snippet()), Some(k));
    }
}

#[test]
fn leaf_root_renders_as_leaf() {
    let mut root = leaf(9);
    root.children = Some(vec![leaf(10), leaf(11)]);
    let st = state("tree", empty_table(), empty_anim(), TreeState { root });
    let (html, cloned) = both(&st);
    assert_eq!(html, "<div class='Main'><div class='Tree'><li class='TreeLeaf'>9</li></div></div>");
    assert_eq!(cloned, html);
}

#[test]
fn cell_text_is_escaped_in_markup() {
    let t = TableState {
        items: vec![TableItemState { id: 2, active: false, props: vec![s("a'b"), s("<x>&")] }],
    };
    let st = state("table", t, empty_anim(), small_tree());
    let (html, cloned) = both(&st);
    assert_eq!(
        html,
        "<div class='Main'><table class='Table'><tbody><tr class='TableRow' data-id='2'><td class='TableCell' data-text='#2'>#2</td><td class='TableCell' data-text='a&#39;b'>a&#39;b</td><td class='TableCell' data-text='&lt;x>&amp;'>&lt;x>&amp;</td></tr></tbody></table></div>"
    );
    assert_eq!(cloned, html);
    let mut ctx = Context::new();
    let cell = cloning::render_table_cell(&mut ctx, "a'b");
    assert_eq!(cell.text, "a'b");
    assert_eq!(cell.get_attribute("data-text"), Some(s("a'b")));
}

#[test]
fn finish_escapes_result() {
    assert_eq!(
        finish_markup("{\"s\":\"<b>&'\"}"),
        "<pre>{\"s\":\"&lt;b>&amp;&#39;\"}</pre>"
    );
}

#[test]
fn templates_by_snippet() {
    let mut ctx = Context::new();
    let el = ctx.get_template_by_snippet("<li class=TreeLeaf></li>").expect("a template");
    assert_eq!(el.outer_html(), "<li class='TreeLeaf'></li>");
    assert!(ctx.is_cached(Shape::TreeLeaf));
    assert!(ctx.get_template_by_snippet("<li></li>").is_none());
    assert!(!ctx.is_cached(Shape::TreeNode));
}
