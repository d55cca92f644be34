//! View nodes: the element tree both renderers describe, and its markup.
use vstd::prelude::*;
use vstd::string::{StrSliceExecFns, StringExecFns};
use crate::text::{escape, push_escaped};

verus! {

broadcast use {
    vstd::seq::axiom_seq_index_decreases,
    vstd::seq::axiom_seq_subrange_decreases,
    vstd::std_specs::vec::axiom_vec_decreases_to_view,
    vstd::std_specs::vec::axiom_vec_index_decreases,
};

/// The element kinds the views are made of.
#[derive(Clone, Copy, PartialEq, Eq, Structural, Debug)]
pub enum Tag {
    Div,
    Table,
    Tbody,
    Tr,
    Td,
    Ul,
    Li,
}

pub open spec fn tag_name(t: Tag) -> Seq<char> {
    match t {
        Tag::Div => "div"@,
        Tag::Table => "table"@,
        Tag::Tbody => "tbody"@,
        Tag::Tr => "tr"@,
        Tag::Td => "td"@,
        Tag::Ul => "ul"@,
        Tag::Li => "li"@,
    }
}

impl Tag {
    /// The element name of this kind.
    pub fn name(&self) -> (r: &'static str)
        ensures
            r@ == tag_name(*self),
    {
        match self {
            Tag::Div => "div",
            Tag::Table => "table",
            Tag::Tbody => "tbody",
            Tag::Tr => "tr",
            Tag::Td => "td",
            Tag::Ul => "ul",
            Tag::Li => "li",
        }
    }
}

/// The mathematical value of an element: its kind, class list (space
/// separated), inline style (`name:value` declarations separated by `;`),
/// attributes in order, text, and children in order.
pub struct VNode {
    pub tag: Tag,
    pub class_name: Seq<char>,
    pub style: Seq<char>,
    pub attrs: Seq<(Seq<char>, Seq<char>)>,
    pub text: Seq<char>,
    pub children: Seq<VNode>,
}

/// A node of the given kind and class with nothing else set.
pub open spec fn bare(tag: Tag, class_name: Seq<char>) -> VNode {
    VNode {
        tag,
        class_name,
        style: seq![],
        attrs: seq![],
        text: seq![],
        children: seq![],
    }
}

/// The markup of the attribute list: ` name='value'` for each, in order,
/// with each value escaped.
pub open spec fn attrs_markup(a: Seq<(Seq<char>, Seq<char>)>) -> Seq<char>
    decreases a.len(),
{
    if a.len() == 0 {
        seq![]
    } else {
        attrs_markup(a.drop_last()) + " "@ + a.last().0 + "='"@ + escape(a.last().1) + "'"@
    }
}

/// `<tag class='..' style='..' name='value'..>`, with the class list and the
/// style escaped; an empty class or style is left out.
pub open spec fn open_tag(n: VNode) -> Seq<char> {
    "<"@ + tag_name(n.tag) + (if n.class_name.len() > 0 {
        " class='"@ + escape(n.class_name) + "'"@
    } else {
        seq![]
    }) + (if n.style.len() > 0 {
        " style='"@ + escape(n.style) + "'"@
    } else {
        seq![]
    }) + attrs_markup(n.attrs) + ">"@
}

pub open spec fn close_tag(t: Tag) -> Seq<char> {
    "</"@ + tag_name(t) + ">"@
}

/// The markup of a node: its opening tag, its escaped text, its children,
/// its closing tag.
pub open spec fn markup(n: VNode) -> Seq<char>
    decreases n,
{
    open_tag(n) + escape(n.text) + markup_all(n.children) + close_tag(n.tag)
}

/// The markup of a sequence of nodes, one after the other.
pub open spec fn markup_all(s: Seq<VNode>) -> Seq<char>
    decreases s,
{
    if s.len() == 0 {
        seq![]
    } else {
        markup_all(s.subrange(0, s.len() - 1)) + markup(s[s.len() - 1])
    }
}

/// A live element of a view. `children` hold the element's child elements;
/// `text` is its own text, which comes before them.
pub struct Element {
    pub tag: Tag,
    pub class_name: String,
    pub style: String,
    pub attrs: Vec<(String, String)>,
    pub text: String,
    pub children: Vec<Element>,
}

pub open spec fn attrs_of(a: Seq<(String, String)>) -> Seq<(Seq<char>, Seq<char>)> {
    a.map_values(|p: (String, String)| (p.0@, p.1@))
}

pub open spec fn node_of(e: Element) -> VNode
    decreases e,
{
    VNode {
        tag: e.tag,
        class_name: e.class_name@,
        style: e.style@,
        attrs: attrs_of(e.attrs@),
        text: e.text@,
        children: nodes_of(e.children@),
    }
}

pub open spec fn nodes_of(s: Seq<Element>) -> Seq<VNode>
    decreases s,
{
    if s.len() == 0 {
        seq![]
    } else {
        nodes_of(s.subrange(0, s.len() - 1)).push(node_of(s[s.len() - 1]))
    }
}

impl View for Element {
    type V = VNode;

    open spec fn view(&self) -> VNode {
        node_of(*self)
    }
}

/// The attribute list with `name` set to `value`: the first attribute of that
/// name takes the value, or, where there is none, the pair is added at the end.
pub open spec fn with_attr(
    a: Seq<(Seq<char>, Seq<char>)>,
    name: Seq<char>,
    value: Seq<char>,
) -> Seq<(Seq<char>, Seq<char>)>
    decreases a.len(),
{
    if a.len() == 0 {
        seq![(name, value)]
    } else if a[0].0 == name {
        a.update(0, (name, value))
    } else {
        seq![a[0]] + with_attr(a.drop_first(), name, value)
    }
}

/// The value of the first attribute called `name`, if any.
pub open spec fn attr_value(a: Seq<(Seq<char>, Seq<char>)>, name: Seq<char>) -> Option<Seq<char>>
    decreases a.len(),
{
    if a.len() == 0 {
        None
    } else if a[0].0 == name {
        Some(a[0].1)
    } else {
        attr_value(a.drop_first(), name)
    }
}

/// The class list with `c` added as its last token.
pub open spec fn with_class(class_name: Seq<char>, c: Seq<char>) -> Seq<char> {
    if class_name.len() == 0 {
        c
    } else {
        class_name + " "@ + c
    }
}

/// The inline style with the declaration `name:value` added at the end.
pub open spec fn with_style(style: Seq<char>, name: Seq<char>, value: Seq<char>) -> Seq<char> {
    if style.len() == 0 {
        name + ":"@ + value
    } else {
        style + ";"@ + name + ":"@ + value
    }
}

pub proof fn lemma_nodes_of(s: Seq<Element>)
    ensures
        nodes_of(s).len() == s.len(),
        forall|i: int| 0 <= i < s.len() ==> #[trigger] nodes_of(s)[i] == node_of(s[i]),
    decreases s.len(),
{
    if s.len() > 0 {
        lemma_nodes_of(s.subrange(0, s.len() - 1));
    }
}

pub proof fn lemma_nodes_of_push(s: Seq<Element>, e: Element)
    ensures
        nodes_of(s.push(e)) == nodes_of(s).push(node_of(e)),
{
    assert(s.push(e).subrange(0, s.len() as int) =~= s);
}

pub proof fn lemma_attrs_markup_one(name: Seq<char>, value: Seq<char>)
    ensures
        attrs_markup(seq![(name, value)]) == " "@ + name + "='"@ + escape(value) + "'"@,
{
    let a = seq![(name, value)];
    assert(a.drop_last() =~= seq![]);
    assert(attrs_markup(a.drop_last()) =~= seq![]);
    assert(a.last() == (name, value));
    assert(seq![] + " "@ + name + "='"@ + escape(value) + "'"@ =~= " "@ + name + "='"@ + escape(
        value,
    ) + "'"@);
}

pub proof fn lemma_markup_all_empty()
    ensures
        markup_all(seq![]) == Seq::<char>::empty(),
{
}

pub proof fn lemma_markup_all_one(n: VNode)
    ensures
        markup_all(seq![n]) == markup(n),
{
    lemma_markup_all_push(seq![], n);
    assert(seq![].push(n) =~= seq![n]);
    assert(Seq::<char>::empty() + markup(n) =~= markup(n));
}

pub proof fn lemma_markup_all_push(s: Seq<VNode>, n: VNode)
    ensures
        markup_all(s.push(n)) == markup_all(s) + markup(n),
{
    assert(s.push(n).subrange(0, s.len() as int) =~= s);
}

proof fn lemma_with_attr_at(
    a: Seq<(Seq<char>, Seq<char>)>,
    name: Seq<char>,
    value: Seq<char>,
    i: int,
)
    requires
        0 <= i <= a.len(),
        forall|j: int| 0 <= j < i ==> a[j].0 != name,
        i < a.len() ==> a[i].0 == name,
    ensures
        with_attr(a, name, value) == if i < a.len() {
            a.update(i, (name, value))
        } else {
            a.push((name, value))
        },
        attr_value(a, name) == if i < a.len() {
            Some(a[i].1)
        } else {
            None::<Seq<char>>
        },
    decreases a.len(),
{
    if a.len() > 0 && i > 0 {
        lemma_with_attr_at(a.drop_first(), name, value, i - 1);
        if i < a.len() {
            assert(seq![a[0]] + a.drop_first().update(i - 1, (name, value)) =~= a.update(
                i,
                (name, value),
            ));
        } else {
            assert(seq![a[0]] + a.drop_first().push((name, value)) =~= a.push((name, value)));
        }
    }
}

/// The number of characters of `s`.
fn char_len(s: &String) -> (r: usize)
    ensures
        r == s@.len(),
{
    s.as_str().unicode_len()
}

fn copy_string(s: &String) -> (r: String)
    ensures
        r@ == s@,
{
    s.clone()
}

/// The index of the first attribute called `name`, or the list's length.
fn find_attr(attrs: &Vec<(String, String)>, name: &str) -> (r: usize)
    ensures
        r <= attrs@.len(),
        forall|j: int| 0 <= j < r ==> attrs_of(attrs@)[j].0 != name@,
        r < attrs@.len() ==> attrs_of(attrs@)[r as int].0 == name@,
{
    let n = attrs.len();
    let mut i: usize = 0;
    while i < n
        invariant
            n == attrs@.len(),
            i <= n,
            forall|j: int| 0 <= j < i ==> attrs_of(attrs@)[j].0 != name@,
        decreases n - i,
    {
        if crate::text::str_eq(attrs[i].0.as_str(), name) {
            return i;
        }
        i = i + 1;
    }
    i
}

impl Element {
    /// A fresh element of the given kind and class, with nothing else set.
    pub fn new(tag: Tag, class_name: &str) -> (r: Element)
        ensures
            r@ == bare(tag, class_name@),
    {
        let r = Element {
            tag,
            class_name: String::from_str(class_name),
            style: String::new(),
            attrs: Vec::new(),
            text: String::new(),
            children: Vec::new(),
        };
        proof {
            assert(attrs_of(r.attrs@) =~= seq![]);
        }
        r
    }

    /// A deep copy: every attribute and every descendant is copied, so that
    /// changing the copy leaves this element as it is.
    pub fn clone_node(&self) -> (r: Element)
        ensures
            r@ == self@,
        decreases self,
    {
        let mut attrs: Vec<(String, String)> = Vec::new();
        let n = self.attrs.len();
        let mut i: usize = 0;
        while i < n
            invariant
                n == self.attrs@.len(),
                i <= n,
                attrs_of(attrs@) =~= attrs_of(self.attrs@).subrange(0, i as int),
            decreases n - i,
        {
            let p = (copy_string(&self.attrs[i].0), copy_string(&self.attrs[i].1));
            let ghost before = attrs@;
            attrs.push(p);
            proof {
                assert(attrs_of(attrs@) =~= attrs_of(before).push((p.0@, p.1@)));
                assert(attrs_of(self.attrs@).subrange(0, i + 1) =~= attrs_of(self.attrs@).subrange(
                    0,
                    i as int,
                ).push(attrs_of(self.attrs@)[i as int]));
            }
            i = i + 1;
        }
        let mut children: Vec<Element> = Vec::new();
        let m = self.children.len();
        for i in 0..m
            invariant
                m == self.children@.len(),
                nodes_of(children@) == nodes_of(self.children@.subrange(0, i as int)),
        {
            let c = self.children[i].clone_node();
            proof {
                lemma_nodes_of_push(children@, c);
                lemma_nodes_of_push(self.children@.subrange(0, i as int), self.children@[i as int]);
                assert(self.children@.subrange(0, i as int).push(self.children@[i as int])
                    =~= self.children@.subrange(0, i + 1));
            }
            children.push(c);
        }
        let r = Element {
            tag: self.tag,
            class_name: copy_string(&self.class_name),
            style: copy_string(&self.style),
            attrs,
            text: copy_string(&self.text),
            children,
        };
        proof {
            assert(attrs_of(self.attrs@).subrange(0, n as int) =~= attrs_of(self.attrs@));
            assert(self.children@.subrange(0, m as int) =~= self.children@);
        }
        r
    }

    /// Sets the attribute `name` to `value`.
    pub fn set_attribute(&mut self, name: &str, value: &str)
        ensures
            final(self)@ == (VNode { attrs: with_attr(old(self)@.attrs, name@, value@), ..old(self)@ }),
    {
        let n = self.attrs.len();
        let i = find_attr(&self.attrs, name);
        let ghost a = attrs_of(self.attrs@);
        proof {
            lemma_with_attr_at(a, name@, value@, i as int);
        }
        let p = (String::from_str(name), String::from_str(value));
        if i < n {
            self.attrs.set(i, p);
        } else {
            self.attrs.push(p);
        }
        proof {
            assert(attrs_of(self.attrs@) =~= with_attr(a, name@, value@));
        }
    }

    /// The value of the attribute `name`, if the element has one.
    pub fn get_attribute(&self, name: &str) -> (r: Option<String>)
        ensures
            match r {
                Some(v) => attr_value(self@.attrs, name@) == Some(v@),
                None => attr_value(self@.attrs, name@) == None::<Seq<char>>,
            },
    {
        let n = self.attrs.len();
        let i = find_attr(&self.attrs, name);
        proof {
            lemma_with_attr_at(attrs_of(self.attrs@), name@, name@, i as int);
        }
        if i < n {
            Some(copy_string(&self.attrs[i].1))
        } else {
            None
        }
    }

    /// Adds `c` as the last token of the class list.
    pub fn add_class(&mut self, c: &str)
        ensures
            final(self)@ == (VNode { class_name: with_class(old(self)@.class_name, c@), ..old(self)@ }),
    {
        if char_len(&self.class_name) > 0 {
            self.class_name.append(" ");
        }
        self.class_name.append(c);
    }

    /// Adds the declaration `name:value` at the end of the inline style.
    pub fn set_style_property(&mut self, name: &str, value: &str)
        ensures
            final(self)@ == (VNode { style: with_style(old(self)@.style, name@, value@), ..old(self)@ }),
    {
        if char_len(&self.style) > 0 {
            self.style.append(";");
        }
        self.style.append(name);
        self.style.append(":");
        self.style.append(value);
    }

    /// Makes `t` the element's whole content: its text, with no children.
    pub fn set_text_content(&mut self, t: &str)
        ensures
            final(self)@ == (VNode { text: t@, children: seq![], ..old(self)@ }),
    {
        self.text = String::from_str(t);
        self.children = Vec::new();
        proof {
            assert(nodes_of(self.children@) =~= seq![]);
        }
    }

    fn write_attrs(&self, out: &mut String)
        ensures
            final(out)@ == old(out)@ + attrs_markup(self@.attrs),
    {
        let ghost head = out@;
        let ghost a = attrs_of(self.attrs@);
        proof {
            assert(a.subrange(0, 0) =~= seq![]);
            assert(out@ =~= head + attrs_markup(a.subrange(0, 0)));
        }
        let len = self.attrs.len();
        let mut i: usize = 0;
        while i < len
            invariant
                len == self.attrs@.len(),
                a == attrs_of(self.attrs@),
                i <= len,
                out@ == head + attrs_markup(a.subrange(0, i as int)),
            decreases len - i,
        {
            out.append(" ");
            out.append(self.attrs[i].0.as_str());
            out.append("='");
            push_escaped(out, self.attrs[i].1.as_str());
            out.append("'");
            proof {
                assert(a.subrange(0, i + 1).drop_last() =~= a.subrange(0, i as int));
                assert(out@ =~= head + attrs_markup(a.subrange(0, i + 1)));
            }
            i = i + 1;
        }
        proof {
            assert(a.subrange(0, len as int) =~= a);
        }
    }

    fn write_open_tag(&self, out: &mut String)
        ensures
            final(out)@ == old(out)@ + open_tag(self@),
    {
        let ghost start = out@;
        let ghost n = self@;
        out.append("<");
        out.append(self.tag.name());
        let ghost c = if n.class_name.len() > 0 {
            " class='"@ + escape(n.class_name) + "'"@
        } else {
            seq![]
        };
        if char_len(&self.class_name) > 0 {
            out.append(" class='");
            push_escaped(out, self.class_name.as_str());
            out.append("'");
        }
        assert(out@ =~= start + "<"@ + tag_name(n.tag) + c);
        let ghost st = if n.style.len() > 0 {
            " style='"@ + escape(n.style) + "'"@
        } else {
            seq![]
        };
        if char_len(&self.style) > 0 {
            out.append(" style='");
            push_escaped(out, self.style.as_str());
            out.append("'");
        }
        assert(out@ =~= start + "<"@ + tag_name(n.tag) + c + st);
        self.write_attrs(out);
        out.append(">");
        assert(out@ =~= start + open_tag(n));
    }

    /// Appends the markup of this element and its descendants to `out`.
    pub fn write_markup(&self, out: &mut String)
        ensures
            final(out)@ == old(out)@ + markup(self@),
        decreases self,
    {
        let ghost start = out@;
        let ghost n = self@;
        self.write_open_tag(out);
        push_escaped(out, self.text.as_str());
        proof {
            assert(out@ =~= start + open_tag(n) + escape(n.text));
            lemma_nodes_of(self.children@);
            assert(n.children.subrange(0, 0) =~= seq![]);
            assert(out@ =~= start + open_tag(n) + escape(n.text) + markup_all(n.children.subrange(0, 0)));
        }
        let m = self.children.len();
        let mut j: usize = 0;
        while j < m
            invariant
                m == self.children@.len(),
                n == self@,
                n.children.len() == m,
                j <= m,
                out@ == start + open_tag(n) + escape(n.text) + markup_all(n.children.subrange(0, j as int)),
            decreases m - j,
        {
            self.children[j].write_markup(out);
            proof {
                lemma_nodes_of(self.children@);
                lemma_markup_all_push(n.children.subrange(0, j as int), n.children[j as int]);
                assert(n.children.subrange(0, j as int).push(n.children[j as int])
                    =~= n.children.subrange(0, j + 1));
            }
            j = j + 1;
        }
        out.append("</");
        out.append(self.tag.name());
        out.append(">");
        proof {
            assert(n.children.subrange(0, m as int) =~= n.children);
            assert(out@ =~= start + markup(n));
        }
    }

    /// The markup of this element and its descendants.
    pub fn outer_html(&self) -> (r: String)
        ensures
            r@ == markup(self@),
    {
        let mut out = String::new();
        self.write_markup(&mut out);
        proof {
            assert(Seq::<char>::empty() + markup(self@) =~= markup(self@));
        }
        out
    }

    /// Takes the element's last child out, if it has children.
    pub fn remove_last_child(&mut self) -> (r: Option<Element>)
        ensures
            old(self)@.children.len() == 0 ==> r.is_none() && final(self)@ == old(self)@,
            old(self)@.children.len() > 0 ==> r.is_some() && r.unwrap()@ == old(self)@.children.last()
                && final(self)@ == (VNode {
                children: old(self)@.children.drop_last(),
                ..old(self)@
            }),
    {
        let ghost before = self.children@;
        let r = self.children.pop();
        proof {
            if before.len() > 0 {
                let prefix = before.subrange(0, before.len() - 1);
                assert(before.drop_last() =~= prefix);
                assert(nodes_of(before) == nodes_of(prefix).push(node_of(before[before.len() - 1])));
                assert(nodes_of(before).drop_last() =~= nodes_of(prefix));
            }
        }
        r
    }

    /// Adds `child` as the element's last child.
    pub fn append_child(&mut self, child: Element)
        ensures
            final(self)@ == (VNode {
                children: old(self)@.children.push(child@),
                ..old(self)@
            }),
    {
        proof {
            lemma_nodes_of_push(self.children@, child);
        }
        self.children.push(child);
    }
}

} // verus!
