//! The template cache: one compiled template per structural shape of the
//! view, handed out as deep copies.
use vstd::prelude::*;
use crate::text::str_eq;
use crate::view::{bare, Element, Tag, VNode};

verus! {

/// The structural shapes the views are built from.
#[derive(Clone, Copy, PartialEq, Eq, Structural, Debug)]
pub enum Shape {
    TableCell,
    TableRow,
    Table,
    AnimBox,
    Anim,
    TreeLeaf,
    TreeNode,
    Tree,
    Main,
}

/// The markup snippet of each shape: a fixed element without data attributes.
pub open spec fn snippet_of(s: Shape) -> Seq<char> {
    match s {
        Shape::TableCell => "<td class=TableCell></td>"@,
        Shape::TableRow => "<tr class=TableRow></tr>"@,
        Shape::Table => "<table class=Table><tbody></tbody></table>"@,
        Shape::AnimBox => "<div class=AnimBox></div>"@,
        Shape::Anim => "<div class=Anim></div>"@,
        Shape::TreeLeaf => "<li class=TreeLeaf></li>"@,
        Shape::TreeNode => "<ul class=TreeNode></ul>"@,
        Shape::Tree => "<div class=Tree></div>"@,
        Shape::Main => "<div class=Main></div>"@,
    }
}

/// The element each shape's snippet compiles to.
pub open spec fn template_of(s: Shape) -> VNode {
    match s {
        Shape::TableCell => bare(Tag::Td, "TableCell"@),
        Shape::TableRow => bare(Tag::Tr, "TableRow"@),
        Shape::Table => VNode {
            children: seq![bare(Tag::Tbody, seq![])],
            ..bare(Tag::Table, "Table"@)
        },
        Shape::AnimBox => bare(Tag::Div, "AnimBox"@),
        Shape::Anim => bare(Tag::Div, "Anim"@),
        Shape::TreeLeaf => bare(Tag::Li, "TreeLeaf"@),
        Shape::TreeNode => bare(Tag::Ul, "TreeNode"@),
        Shape::Tree => bare(Tag::Div, "Tree"@),
        Shape::Main => bare(Tag::Div, "Main"@),
    }
}

impl Shape {
    /// The markup snippet of this shape.
    pub fn snippet(&self) -> (r: &'static str)
        ensures
            r@ == snippet_of(*self),
    {
        match self {
            Shape::TableCell => "<td class=TableCell></td>",
            Shape::TableRow => "<tr class=TableRow></tr>",
            Shape::Table => "<table class=Table><tbody></tbody></table>",
            Shape::AnimBox => "<div class=AnimBox></div>",
            Shape::Anim => "<div class=Anim></div>",
            Shape::TreeLeaf => "<li class=TreeLeaf></li>",
            Shape::TreeNode => "<ul class=TreeNode></ul>",
            Shape::Tree => "<div class=Tree></div>",
            Shape::Main => "<div class=Main></div>",
        }
    }

    /// The shape whose snippet is exactly `s`, if there is one.
    pub fn from_snippet(s: &str) -> (r: Option<Shape>)
        ensures
            match r {
                Some(k) => snippet_of(k) == s@,
                None => forall|k: Shape| snippet_of(k) != s@,
            },
    {
        let shapes = [
            Shape::TableCell,
            Shape::TableRow,
            Shape::Table,
            Shape::AnimBox,
            Shape::Anim,
            Shape::TreeLeaf,
            Shape::TreeNode,
            Shape::Tree,
            Shape::Main,
        ];
        let mut i: usize = 0;
        while i < 9
            invariant
                i <= 9,
                shapes@ == seq![
                    Shape::TableCell,
                    Shape::TableRow,
                    Shape::Table,
                    Shape::AnimBox,
                    Shape::Anim,
                    Shape::TreeLeaf,
                    Shape::TreeNode,
                    Shape::Tree,
                    Shape::Main,
                ],
                forall|j: int| 0 <= j < i ==> snippet_of(#[trigger] shapes@[j]) != s@,
            decreases 9 - i,
        {
            let k = shapes[i];
            if str_eq(s, k.snippet()) {
                return Some(k);
            }
            i = i + 1;
        }
        proof {
            assert forall|k: Shape| snippet_of(k) != s@ by {
                match k {
                    Shape::TableCell => assert(shapes@[0] == k),
                    Shape::TableRow => assert(shapes@[1] == k),
                    Shape::Table => assert(shapes@[2] == k),
                    Shape::AnimBox => assert(shapes@[3] == k),
                    Shape::Anim => assert(shapes@[4] == k),
                    Shape::TreeLeaf => assert(shapes@[5] == k),
                    Shape::TreeNode => assert(shapes@[6] == k),
                    Shape::Tree => assert(shapes@[7] == k),
                    Shape::Main => assert(shapes@[8] == k),
                }
            }
        }
        None
    }

    /// Builds the template element of this shape.
    pub fn compile(&self) -> (r: Element)
        ensures
            r@ == template_of(*self),
    {
        match self {
            Shape::TableCell => Element::new(Tag::Td, "TableCell"),
            Shape::TableRow => Element::new(Tag::Tr, "TableRow"),
            Shape::Table => {
                let mut table = Element::new(Tag::Table, "Table");
                let body = Element::new(Tag::Tbody, "");
                proof {
                    reveal_strlit("");
                    assert(""@ =~= Seq::<char>::empty());
                }
                table.append_child(body);
                proof {
                    assert(table@.children =~= seq![bare(Tag::Tbody, seq![])]);
                }
                table
            },
            Shape::AnimBox => Element::new(Tag::Div, "AnimBox"),
            Shape::Anim => Element::new(Tag::Div, "Anim"),
            Shape::TreeLeaf => Element::new(Tag::Li, "TreeLeaf"),
            Shape::TreeNode => Element::new(Tag::Ul, "TreeNode"),
            Shape::Tree => Element::new(Tag::Div, "Tree"),
            Shape::Main => Element::new(Tag::Div, "Main"),
        }
    }
}

/// Asking the cache for the same shape twice gives copies of one template,
/// and the second request leaves the set of compiled templates as it was.
pub proof fn lemma_get_template_idempotent(
    c0: Context,
    c1: Context,
    c2: Context,
    k: Shape,
    r1: VNode,
    r2: VNode,
)
    requires
        c0.wf(),
        c1.wf(),
        c1.cached() == c0.cached().insert(k),
        r1 == template_of(k),
        c2.wf(),
        c2.cached() == c1.cached().insert(k),
        r2 == template_of(k),
    ensures
        r1 == r2,
        c1.cached().contains(k),
        c2.cached() == c1.cached(),
{
    assert(c1.cached().insert(k) =~= c1.cached());
}

/// The renderer's context: the cache of compiled templates, keyed by shape
/// (and so by snippet). Entries are added on first use and never removed.
/// The cache is meant for one thread: it takes `&mut self` to be read.
pub struct Context {
    templates: Vec<(Shape, Element)>,
}

impl Context {
    /// Every entry holds its shape's template, and no shape has two entries.
    pub closed spec fn wf(&self) -> bool {
        &&& forall|i: int|
            0 <= i < self.templates@.len() ==> (#[trigger] self.templates@[i]).1@ == template_of(
                self.templates@[i].0,
            )
        &&& forall|i: int, j: int|
            0 <= i < j < self.templates@.len() ==> (#[trigger] self.templates@[i]).0
                != (#[trigger] self.templates@[j]).0
    }

    /// The shapes whose template has been compiled.
    pub closed spec fn cached(&self) -> Set<Shape> {
        Set::new(
            |s: Shape| exists|i: int| 0 <= i < self.templates@.len() && self.templates@[i].0 == s,
        )
    }

    /// An empty cache.
    pub fn new() -> (r: Context)
        ensures
            r.wf(),
            r.cached() == Set::<Shape>::empty(),
    {
        let r = Context { templates: Vec::new() };
        proof {
            assert(r.cached() =~= Set::<Shape>::empty());
        }
        r
    }

    fn find(&self, shape: Shape) -> (r: usize)
        ensures
            r <= self.templates@.len(),
            forall|j: int| 0 <= j < r ==> self.templates@[j].0 != shape,
            r < self.templates@.len() ==> self.templates@[r as int].0 == shape,
    {
        let n = self.templates.len();
        let mut i: usize = 0;
        while i < n
            invariant
                n == self.templates@.len(),
                i <= n,
                forall|j: int| 0 <= j < i ==> self.templates@[j].0 != shape,
            decreases n - i,
        {
            if self.templates[i].0 == shape {
                return i;
            }
            i = i + 1;
        }
        i
    }

    /// Whether the template of `shape` has been compiled.
    pub fn is_cached(&self, shape: Shape) -> (r: bool)
        ensures
            r == self.cached().contains(shape),
    {
        let i = self.find(shape);
        i < self.templates.len()
    }

    /// A fresh deep copy of the template whose snippet is `snippet`, compiled
    /// and stored on first use; `None` when no shape has that snippet.
    pub fn get_template_by_snippet(&mut self, snippet: &str) -> (r: Option<Element>)
        requires
            old(self).wf(),
        ensures
            final(self).wf(),
            match r {
                Some(e) => exists|k: Shape|
                    snippet_of(k) == snippet@ && e@ == template_of(k) && final(self).cached()
                        == old(self).cached().insert(k),
                None => (forall|k: Shape| snippet_of(k) != snippet@) && final(self).cached()
                    == old(self).cached(),
            },
    {
        match Shape::from_snippet(snippet) {
            Some(k) => Some(self.get_template(k)),
            None => None,
        }
    }

    /// A fresh deep copy of the template of `shape`. The template is compiled
    /// and stored the first time its shape is asked for; the stored template
    /// itself is never handed out.
    pub fn get_template(&mut self, shape: Shape) -> (r: Element)
        requires
            old(self).wf(),
        ensures
            final(self).wf(),
            final(self).cached() == old(self).cached().insert(shape),
            r@ == template_of(shape),
    {
        let i = self.find(shape);
        if i < self.templates.len() {
            let r = self.templates[i].1.clone_node();
            proof {
                assert(self.cached() =~= self.cached().insert(shape));
            }
            r
        } else {
            let template = shape.compile();
            let r = template.clone_node();
            let ghost before = *self;
            self.templates.push((shape, template));
            proof {
                assert forall|j: int| 0 <= j < self.templates@.len() implies (
                #[trigger] self.templates@[j]).1@ == template_of(self.templates@[j].0) by {
                    if j < before.templates@.len() {
                        assert(self.templates@[j] == before.templates@[j]);
                    }
                }
                assert forall|s: Shape| #[trigger]
                    self.cached().contains(s) == before.cached().insert(shape).contains(s) by {
                    if before.cached().contains(s) {
                        let k = choose|k: int|
                            0 <= k < before.templates@.len() && before.templates@[k].0 == s;
                        assert(self.templates@[k] == before.templates@[k]);
                    }
                    if s == shape {
                        assert(self.templates@[i as int].0 == shape);
                    }
                }
                assert(self.cached() =~= before.cached().insert(shape));
            }
            r
        }
    }
}

} // verus!
