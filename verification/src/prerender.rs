//! Prerendering: the element tree kept in memory without a DOM, and written
//! out as an HTML segment (for server side rendering).
use vstd::prelude::*;

use crate::text::{str_eq, to_owned_string};

verus! {

/// The escape of one character in HTML text: `&` and `<` only.
pub open spec fn text_escape_char(c: char) -> Seq<char> {
    if c == '&' {
        seq!['&', 'a', 'm', 'p', ';']
    } else if c == '<' {
        seq!['&', 'l', 't', ';']
    } else {
        seq![c]
    }
}

/// HTML text with `&` and `<` escaped.
pub open spec fn text_escaped(s: Seq<char>) -> Seq<char>
    decreases s.len(),
{
    if s.len() == 0 {
        Seq::empty()
    } else {
        text_escaped(s.drop_last()) + text_escape_char(s.last())
    }
}

/// The escape of one character in a double-quoted attribute value.
pub open spec fn attr_escape_char(c: char) -> Seq<char> {
    if c == '&' {
        seq!['&', 'a', 'm', 'p', ';']
    } else if c == '<' {
        seq!['&', 'l', 't', ';']
    } else if c == '>' {
        seq!['&', 'g', 't', ';']
    } else if c == '"' {
        seq!['&', 'q', 'u', 'o', 't', ';']
    } else {
        seq![c]
    }
}

/// A double-quoted attribute value with `&`, `<`, `>` and `"` escaped.
pub open spec fn attr_escaped(s: Seq<char>) -> Seq<char>
    decreases s.len(),
{
    if s.len() == 0 {
        Seq::empty()
    } else {
        attr_escaped(s.drop_last()) + attr_escape_char(s.last())
    }
}

/// Appends `text` escaped as HTML text.
///
/// Calls `html_escape::encode_text_minimal_to_string`, which appends `text` to
/// `out` with every `&` written as `&amp;` and every `<` as `&lt;`, all other
/// characters unchanged.
#[verifier::external_body]
fn push_text_escaped(out: &mut String, text: &str)
    ensures
        final(out)@ == old(out)@ + text_escaped(text@),
{
    html_escape::encode_text_minimal_to_string(text, out);
}

/// Appends `value` escaped for a double-quoted attribute.
///
/// Calls `html_escape::encode_double_quoted_attribute_to_string`, which appends
/// `value` to `out` with `&`, `<`, `>` and `"` written as `&amp;`, `&lt;`,
/// `&gt;` and `&quot;`, all other characters unchanged.
#[verifier::external_body]
fn push_attr_escaped(out: &mut String, value: &str)
    ensures
        final(out)@ == old(out)@ + attr_escaped(value@),
{
    html_escape::encode_double_quoted_attribute_to_string(value, out);
}

/// An element of the prerendering tree: its tag name, class slots and attributes.
pub struct PrerenderingElement {
    tag_name: &'static str,
    classes: Vec<&'static str>,
    attrs: Vec<(&'static str, String)>,
}

/// The abstract value of a `PrerenderingElement`.
pub struct ElementView {
    pub tag_name: Seq<char>,
    /// Class slots in order; an empty slot holds no class.
    pub classes: Seq<Seq<char>>,
    /// Attributes in order, as name and value.
    pub attrs: Seq<(Seq<char>, Seq<char>)>,
}

impl View for PrerenderingElement {
    type V = ElementView;

    closed spec fn view(&self) -> ElementView {
        ElementView {
            tag_name: self.tag_name@,
            classes: self.classes@.map_values(|c: &'static str| c@),
            attrs: self.attrs@.map_values(|a: (&'static str, String)| (a.0@, a.1@)),
        }
    }
}

/// `i` is the first position of an attribute named `name`.
pub open spec fn is_first_attr(attrs: Seq<(Seq<char>, Seq<char>)>, name: Seq<char>, i: int) -> bool {
    &&& 0 <= i < attrs.len()
    &&& attrs[i].0 == name
    &&& forall|j: int| 0 <= j < i ==> attrs[j].0 != name
}

/// The first position of an attribute named `name`, or -1 where there is none.
pub open spec fn attr_pos(attrs: Seq<(Seq<char>, Seq<char>)>, name: Seq<char>) -> int {
    if exists|i: int| is_first_attr(attrs, name, i) {
        choose|i: int| is_first_attr(attrs, name, i)
    } else {
        -1
    }
}

/// The attributes after setting `name` to `value`: the first attribute of
/// that name gets the value, or the attribute is appended.
pub open spec fn attrs_set(
    attrs: Seq<(Seq<char>, Seq<char>)>,
    name: Seq<char>,
    value: Seq<char>,
) -> Seq<(Seq<char>, Seq<char>)> {
    let p = attr_pos(attrs, name);
    if p >= 0 {
        attrs.update(p, (name, value))
    } else {
        attrs.push((name, value))
    }
}

/// The attributes after removing `name`: its first occurrence is replaced by
/// the last attribute, which is then dropped (the order is not kept).
pub open spec fn attrs_removed(
    attrs: Seq<(Seq<char>, Seq<char>)>,
    name: Seq<char>,
) -> Seq<(Seq<char>, Seq<char>)> {
    let p = attr_pos(attrs, name);
    if p >= 0 {
        attrs.update(p, attrs.last()).drop_last()
    } else {
        attrs
    }
}

/// The first attribute position is unique.
proof fn lemma_first_attr_unique(attrs: Seq<(Seq<char>, Seq<char>)>, name: Seq<char>, i: int)
    requires
        is_first_attr(attrs, name, i),
    ensures
        attr_pos(attrs, name) == i,
{
    let k = attr_pos(attrs, name);
    assert(is_first_attr(attrs, name, k));
    if k < i {
        assert(attrs[k].0 != name);
    } else if k > i {
        assert(attrs[i].0 != name);
    }
}

/// Where no attribute has the name, its position is -1.
proof fn lemma_no_attr(attrs: Seq<(Seq<char>, Seq<char>)>, name: Seq<char>)
    requires
        forall|j: int| 0 <= j < attrs.len() ==> attrs[j].0 != name,
    ensures
        attr_pos(attrs, name) == -1,
{
    assert(!exists|i: int| is_first_attr(attrs, name, i));
}

/// Joins the non-empty class names with single spaces.
pub open spec fn class_names_joined(cs: Seq<Seq<char>>) -> Seq<char>
    decreases cs.len(),
{
    if cs.len() == 0 {
        Seq::empty()
    } else {
        let prev = class_names_joined(cs.drop_last());
        let c = cs.last();
        if c.len() == 0 {
            prev
        } else if prev.len() == 0 {
            c
        } else {
            prev + seq![' '] + c
        }
    }
}

/// The ` class="..."` part of a start tag; empty where no slot holds a class.
pub open spec fn class_attr_text(cs: Seq<Seq<char>>) -> Seq<char> {
    let j = class_names_joined(cs);
    if j.len() == 0 {
        Seq::empty()
    } else {
        class_attr_head() + j + seq!['"']
    }
}

/// The text that opens a class attribute: ` class="`.
pub open spec fn class_attr_head() -> Seq<char> {
    seq![' ', 'c', 'l', 'a', 's', 's', '=', '"']
}

/// The ` name="value"` parts of a start tag, values escaped.
pub open spec fn attrs_text(attrs: Seq<(Seq<char>, Seq<char>)>) -> Seq<char>
    decreases attrs.len(),
{
    if attrs.len() == 0 {
        Seq::empty()
    } else {
        let a = attrs.last();
        attrs_text(attrs.drop_last()) + seq![' '] + a.0 + seq!['=', '"'] + attr_escaped(a.1)
            + seq!['"']
    }
}

/// The start tag of an element.
pub open spec fn start_tag(e: ElementView) -> Seq<char> {
    seq!['<'] + e.tag_name + class_attr_text(e.classes) + attrs_text(e.attrs) + seq!['>']
}

/// The end tag of an element.
pub open spec fn end_tag(e: ElementView) -> Seq<char> {
    seq!['<', '/'] + e.tag_name + seq!['>']
}

impl PrerenderingElement {
    /// An element with no class slots and no attributes.
    pub fn new(tag_name: &'static str) -> (r: Self)
        ensures
            r@.tag_name == tag_name@,
            r@.classes == Seq::<Seq<char>>::empty(),
            r@.attrs == Seq::<(Seq<char>, Seq<char>)>::empty(),
    {
        let r = Self { tag_name, classes: Vec::new(), attrs: Vec::new() };
        assert(r@.classes =~= Seq::<Seq<char>>::empty());
        assert(r@.attrs =~= Seq::<(Seq<char>, Seq<char>)>::empty());
        r
    }

    pub fn tag_name(&self) -> (r: &'static str)
        ensures
            r@ == self@.tag_name,
    {
        self.tag_name
    }

    /// The position of the first attribute named `name`.
    fn find_attr(&self, name: &str) -> (r: Option<usize>)
        ensures
            match r {
                Some(i) => i < self@.attrs.len() && attr_pos(self@.attrs, name@) == i,
                None => attr_pos(self@.attrs, name@) == -1,
            },
    {
        let ghost a0 = self@.attrs;
        let n = self.attrs.len();
        let mut i: usize = 0;
        while i < n
            invariant
                n == self.attrs.len(),
                i <= n,
                a0 == self@.attrs,
                forall|j: int| 0 <= j < i ==> a0[j].0 != name@,
            decreases n - i,
        {
            let found = str_eq(self.attrs[i].0, name);
            proof {
                assert(a0[i as int].0 == self.attrs@[i as int].0@);
            }
            if found {
                proof {
                    assert(is_first_attr(a0, name@, i as int));
                    lemma_first_attr_unique(a0, name@, i as int);
                }
                return Some(i);
            }
            i = i + 1;
        }
        proof {
            lemma_no_attr(a0, name@);
        }
        None
    }

    /// Sets an attribute: the first attribute of that name takes the value,
    /// or a new attribute is appended.
    pub fn set_attribute(&mut self, name: &'static str, value: String)
        ensures
            final(self)@.tag_name == old(self)@.tag_name,
            final(self)@.classes == old(self)@.classes,
            final(self)@.attrs == attrs_set(old(self)@.attrs, name@, value@),
    {
        let ghost a0 = self@.attrs;
        let ghost before = self.attrs@;
        match self.find_attr(name) {
            Some(i) => {
                self.attrs.set(i, (name, value));
                assert(self@.attrs =~= a0.update(i as int, (name@, value@))) by {
                    assert forall|j: int| 0 <= j < self.attrs@.len() implies
                        #[trigger] self@.attrs[j] == a0.update(i as int, (name@, value@))[j] by {
                        if j != i {
                            assert(self.attrs@[j] == before[j]);
                        }
                    }
                }
            },
            None => {
                self.attrs.push((name, value));
                assert(self@.attrs =~= a0.push((name@, value@))) by {
                    assert forall|j: int| 0 <= j < self.attrs@.len() implies #[trigger] self@.attrs[j]
                        == a0.push((name@, value@))[j] by {
                        if j < before.len() {
                            assert(self.attrs@[j] == before[j]);
                        }
                    }
                }
            },
        }
    }

    /// Removes the first attribute of that name, moving the last attribute
    /// into its place.
    pub fn remove_attribute(&mut self, name: &'static str)
        ensures
            final(self)@.tag_name == old(self)@.tag_name,
            final(self)@.classes == old(self)@.classes,
            final(self)@.attrs == attrs_removed(old(self)@.attrs, name@),
    {
        let ghost a0 = self@.attrs;
        let ghost before = self.attrs@;
        if let Some(i) = self.find_attr(name) {
            let _ = self.attrs.swap_remove(i);
            assert(self@.attrs =~= a0.update(i as int, a0.last()).drop_last()) by {
                assert forall|j: int| 0 <= j < self.attrs@.len() implies #[trigger] self@.attrs[j]
                    == a0.update(i as int, a0.last()).drop_last()[j] by {
                    if j != i {
                        assert(self.attrs@[j] == before[j]);
                    } else {
                        assert(self.attrs@[j] == before.last());
                    }
                }
            }
        }
    }

    /// Resizes the class slots: extra slots are dropped, new slots are empty.
    pub fn set_class_count(&mut self, count: usize)
        ensures
            final(self)@.tag_name == old(self)@.tag_name,
            final(self)@.attrs == old(self)@.attrs,
            final(self)@.classes.len() == count,
            forall|i: int|
                0 <= i < count ==> #[trigger] final(self)@.classes[i] == (if i < old(
                    self,
                )@.classes.len() {
                    old(self)@.classes[i]
                } else {
                    Seq::<char>::empty()
                }),
    {
        let ghost c0 = self@.classes;
        if count <= self.classes.len() {
            self.classes.truncate(count);
        } else {
            while self.classes.len() < count
                invariant
                    self.tag_name == old(self).tag_name,
                    self.attrs == old(self).attrs,
                    self.classes@.len() <= count,
                    self.classes@.len() >= c0.len(),
                    forall|i: int|
                        0 <= i < self.classes@.len() ==> #[trigger] self@.classes[i] == (if i
                            < c0.len() {
                            c0[i]
                        } else {
                            Seq::<char>::empty()
                        }),
                decreases count - self.classes@.len(),
            {
                let ghost before = self.classes@;
                let ghost vb = self@;
                let empty: &'static str = "";
                proof {
                    reveal_strlit("");
                }
                self.classes.push(empty);
                assert forall|i: int| 0 <= i < self.classes@.len() implies #[trigger] self@.classes[i]
                    == (if i < c0.len() {
                    c0[i]
                } else {
                    Seq::<char>::empty()
                }) by {
                    if i < before.len() {
                        assert(self.classes@[i] == before[i]);
                        assert(vb.classes[i] == (if i < c0.len() {
                            c0[i]
                        } else {
                            Seq::<char>::empty()
                        }));
                    } else {
                        assert(self.classes@[i]@ =~= Seq::<char>::empty());
                    }
                }
            }
        }
    }

    /// Puts a class name in a slot.
    pub fn set_class(&mut self, index: usize, class_name: &'static str)
        requires
            index < old(self)@.classes.len(),
        ensures
            final(self)@.tag_name == old(self)@.tag_name,
            final(self)@.attrs == old(self)@.attrs,
            final(self)@.classes == old(self)@.classes.update(index as int, class_name@),
    {
        let ghost before = self.classes@;
        self.classes.set(index, class_name);
        assert(self@.classes =~= old(self)@.classes.update(index as int, class_name@)) by {
            assert forall|j: int| 0 <= j < self.classes@.len() implies #[trigger] self@.classes[j]
                == old(self)@.classes.update(index as int, class_name@)[j] by {
                if j != index {
                    assert(self.classes@[j] == before[j]);
                }
            }
        }
    }

    /// Appends the start tag.
    fn write_start_tag(&self, out: &mut String)
        ensures
            final(out)@ == old(out)@ + start_tag(self@),
    {
        let ghost o0 = out@;
        out.append("<");
        out.append(self.tag_name);
        let ghost after_tag = out@;
        let mut has_class = false;
        let n = self.classes.len();
        let mut i: usize = 0;
        while i < n
            invariant
                n == self.classes.len(),
                i <= n,
                has_class == (class_names_joined(self@.classes.take(i as int)).len() > 0),
                out@ == after_tag + (if has_class {
                    class_attr_head() + class_names_joined(self@.classes.take(i as int))
                } else {
                    Seq::empty()
                }),
            decreases n - i,
        {
            let c = self.classes[i];
            proof {
                reveal_strlit(" class=\"");
                reveal_strlit(" ");
                assert(self@.classes.take(i + 1).drop_last() =~= self@.classes.take(i as int));
                assert(self@.classes.take(i + 1).last() == c@);
            }
            if c.unicode_len() == 0 {
            } else {
                if !has_class {
                    has_class = true;
                    out.append(" class=\"");
                } else {
                    out.append(" ");
                }
                out.append(c);
            }
            i = i + 1;
        }
        assert(self@.classes.take(n as int) =~= self@.classes);
        if has_class {
            out.append("\"");
        }
        let ghost after_classes = out@;
        proof {
            reveal_strlit("\"");
            reveal_strlit(" class=\"");
            assert(after_classes =~= after_tag + class_attr_text(self@.classes));
        }
        let m = self.attrs.len();
        let mut k: usize = 0;
        while k < m
            invariant
                m == self.attrs.len(),
                k <= m,
                out@ == after_classes + attrs_text(self@.attrs.take(k as int)),
            decreases m - k,
        {
            let (name, value) = (&self.attrs[k].0, &self.attrs[k].1);
            out.append(" ");
            out.append(*name);
            out.append("=\"");
            push_attr_escaped(out, value.as_str());
            out.append("\"");
            proof {
                reveal_strlit(" ");
                reveal_strlit("=\"");
                reveal_strlit("\"");
                assert(self@.attrs.take(k + 1).drop_last() =~= self@.attrs.take(k as int));
            }
            k = k + 1;
        }
        assert(self@.attrs.take(m as int) =~= self@.attrs);
        out.append(">");
        proof {
            reveal_strlit("<");
            reveal_strlit(">");
        }
        assert(out@ =~= o0 + start_tag(self@));
    }

    /// Appends the end tag.
    fn write_end_tag(&self, out: &mut String)
        ensures
            final(out)@ == old(out)@ + end_tag(self@),
    {
        let ghost o0 = out@;
        out.append("</");
        out.append(self.tag_name);
        out.append(">");
        proof {
            reveal_strlit("</");
            reveal_strlit(">");
        }
        assert(out@ =~= o0 + end_tag(self@));
    }
}

/// A text node of the prerendering tree.
pub struct DomTextNode {
    content: String,
}

impl View for DomTextNode {
    type V = Seq<char>;

    closed spec fn view(&self) -> Seq<char> {
        self.content@
    }
}

impl DomTextNode {
    pub fn new(content: &str) -> (r: Self)
        ensures
            r@ == content@,
    {
        Self { content: to_owned_string(content) }
    }

    pub fn text_content(&self) -> (r: &str)
        ensures
            r@ == self@,
    {
        self.content.as_str()
    }

    /// Sets the text; returns whether it changed (and the DOM text needs an update).
    pub fn set_text(&mut self, content: &str) -> (changed: bool)
        ensures
            final(self)@ == content@,
            changed == (old(self)@ != content@),
    {
        if str_eq(self.content.as_str(), content) {
            false
        } else {
            self.content = to_owned_string(content);
            true
        }
    }
}

/// The writer state carried through a prerendered HTML output.
pub struct WriteHtmlState {
    /// The last thing written was a text node (so a following text node
    /// needs an empty comment between them to stay a separate node).
    pub prev_is_text_node: bool,
}

impl WriteHtmlState {
    pub fn new() -> (r: Self)
        ensures
            !r.prev_is_text_node,
    {
        Self { prev_is_text_node: false }
    }
}

/// What a node of the prerendering tree is.
pub enum DomGeneralElement {
    /// A node that is not written itself; only its children are.
    Virtual,
    Text(DomTextNode),
    Element(PrerenderingElement),
}

/// A node of the prerendering tree with its children in order.
pub struct DomNode {
    pub value: DomGeneralElement,
    pub children: Vec<DomNode>,
}

/// The empty comment written between two adjacent text nodes.
pub open spec fn text_separator() -> Seq<char> {
    seq!['<', '!', '-', '-', '-', '-', '>']
}

/// The HTML of a text node, and the state after it.
pub open spec fn text_html(content: Seq<char>, prev_is_text: bool) -> (Seq<char>, bool) {
    (
        (if prev_is_text {
            text_separator()
        } else {
            Seq::empty()
        }) + text_escaped(content),
        true,
    )
}

/// The outer HTML of a node written after a state `prev_is_text`, and the state after it.
pub open spec fn node_html(n: DomNode, prev_is_text: bool) -> (Seq<char>, bool)
    decreases n,
{
    match n.value {
        DomGeneralElement::Virtual => nodes_html(n.children@, prev_is_text),
        DomGeneralElement::Text(t) => text_html(t@, prev_is_text),
        DomGeneralElement::Element(e) => (
            start_tag(e@) + nodes_html(n.children@, false).0 + end_tag(e@),
            false,
        ),
    }
}

/// The outer HTML of a sequence of nodes, one after another, and the state after them.
pub open spec fn nodes_html(ns: Seq<DomNode>, prev_is_text: bool) -> (Seq<char>, bool)
    decreases ns,
{
    if ns.len() == 0 {
        (Seq::empty(), prev_is_text)
    } else {
        let init = nodes_html(ns.subrange(0, ns.len() - 1), prev_is_text);
        let last = node_html(ns[ns.len() - 1], init.1);
        (init.0 + last.0, last.1)
    }
}

/// The inner HTML of a node: the children of an element or a virtual node,
/// the text of a text node.
pub open spec fn node_inner_html(n: DomNode, prev_is_text: bool) -> (Seq<char>, bool) {
    match n.value {
        DomGeneralElement::Text(t) => text_html(t@, prev_is_text),
        _ => nodes_html(n.children@, prev_is_text),
    }
}

impl DomTextNode {
    /// Appends the text of this node as prerendered HTML.
    pub fn write_inner_html(&self, out: &mut String, state: &mut WriteHtmlState)
        ensures
            final(out)@ == old(out)@ + text_html(self@, old(state).prev_is_text_node).0,
            final(state).prev_is_text_node == text_html(self@, old(state).prev_is_text_node).1,
    {
        let ghost o0 = out@;
        if state.prev_is_text_node {
            out.append("<!---->");
            proof {
                reveal_strlit("<!---->");
            }
        } else {
            state.prev_is_text_node = true;
        }
        push_text_escaped(out, self.content.as_str());
        assert(out@ =~= o0 + text_html(self@, old(state).prev_is_text_node).0);
    }
}

impl DomGeneralElement {
    /// Appends the children of `this`, one after another.
    fn write_children_html(this: &DomNode, out: &mut String, state: &mut WriteHtmlState)
        ensures
            final(out)@ == old(out)@ + nodes_html(this.children@, old(state).prev_is_text_node).0,
            final(state).prev_is_text_node == nodes_html(
                this.children@,
                old(state).prev_is_text_node,
            ).1,
        decreases this, 0nat,
    {
        let ghost o0 = out@;
        let ghost p0 = state.prev_is_text_node;
        let cs = &this.children;
        let n = cs.len();
        let mut i: usize = 0;
        while i < n
            invariant
                n == cs@.len(),
                cs == &this.children,
                i <= n,
                out@ == o0 + nodes_html(cs@.take(i as int), p0).0,
                state.prev_is_text_node == nodes_html(cs@.take(i as int), p0).1,
            decreases n - i,
        {
            proof {
                assert(cs@.take(i + 1).subrange(0, i as int) =~= cs@.take(i as int));
                assert(decreases_to!(this => this.children));
            }
            Self::write_outer_html(&cs[i], out, state);
            i = i + 1;
        }
        assert(cs@.take(n as int) =~= cs@);
    }

    /// Appends the outer HTML of `this`.
    pub fn write_outer_html(this: &DomNode, out: &mut String, state: &mut WriteHtmlState)
        ensures
            final(out)@ == old(out)@ + node_html(*this, old(state).prev_is_text_node).0,
            final(state).prev_is_text_node == node_html(*this, old(state).prev_is_text_node).1,
        decreases this, 1nat,
    {
        match &this.value {
            DomGeneralElement::Virtual => {
                Self::write_children_html(this, out, state);
            },
            DomGeneralElement::Text(t) => {
                t.write_inner_html(out, state);
            },
            DomGeneralElement::Element(e) => {
                let ghost o0 = out@;
                e.write_start_tag(out);
                state.prev_is_text_node = false;
                Self::write_children_html(this, out, state);
                e.write_end_tag(out);
                state.prev_is_text_node = false;
                assert(out@ =~= o0 + node_html(*this, old(state).prev_is_text_node).0);
            },
        }
    }

    /// Appends the inner HTML of `this`.
    pub fn write_inner_html(this: &DomNode, out: &mut String, state: &mut WriteHtmlState)
        ensures
            final(out)@ == old(out)@ + node_inner_html(*this, old(state).prev_is_text_node).0,
            final(state).prev_is_text_node == node_inner_html(
                *this,
                old(state).prev_is_text_node,
            ).1,
    {
        match &this.value {
            DomGeneralElement::Text(t) => {
                t.write_inner_html(out, state);
            },
            _ => {
                Self::write_children_html(this, out, state);
            },
        }
    }

    /// The inner HTML of the node.
    pub fn inner_html(this: &DomNode) -> (r: String)
        ensures
            r@ == node_inner_html(*this, false).0,
    {
        let mut out = String::new();
        let mut state = WriteHtmlState::new();
        Self::write_inner_html(this, &mut out, &mut state);
        assert(out@ =~= node_inner_html(*this, false).0);
        out
    }

    /// The outer HTML of the node.
    pub fn outer_html(this: &DomNode) -> (r: String)
        ensures
            r@ == node_html(*this, false).0,
    {
        let mut out = String::new();
        let mut state = WriteHtmlState::new();
        Self::write_outer_html(this, &mut out, &mut state);
        assert(out@ =~= node_html(*this, false).0);
        out
    }
}

/// Two text nodes next to each other are written with an empty comment
/// between them, so that they stay two nodes when the HTML is read back.
pub proof fn lemma_adjacent_texts(a: DomNode, b: DomNode, ta: DomTextNode, tb: DomTextNode)
    requires
        a.value == DomGeneralElement::Text(ta),
        b.value == DomGeneralElement::Text(tb),
    ensures
        nodes_html(seq![a, b], false).0 == text_escaped(ta@) + text_separator() + text_escaped(
            tb@,
        ),
{
    let s = seq![a, b];
    assert(s.subrange(0, 1) =~= seq![a]);
    assert(seq![a].subrange(0, 0) =~= Seq::<DomNode>::empty());
    assert(s[1] == b);
    assert(seq![a][0] == a);
    assert(nodes_html(Seq::<DomNode>::empty(), false) == (Seq::<char>::empty(), false));
    assert(node_html(a, false) == text_html(ta@, false));
    assert(node_html(b, true) == text_html(tb@, true));
    let first = nodes_html(seq![a], false);
    assert(first.1 == true);
    assert(first.0 =~= text_escaped(ta@));
    assert(nodes_html(s, false).0 =~= first.0 + (text_separator() + text_escaped(tb@)));
}

/// No two attributes have the same name.
pub open spec fn names_unique(attrs: Seq<(Seq<char>, Seq<char>)>) -> bool {
    forall|i: int, j: int| 0 <= i < j < attrs.len() ==> attrs[i].0 != attrs[j].0
}

/// Setting and removing attributes keep their names unique, and an
/// attribute removed after being set is gone.
pub proof fn lemma_attr_names(attrs: Seq<(Seq<char>, Seq<char>)>, name: Seq<char>, value: Seq<char>)
    requires
        names_unique(attrs),
    ensures
        names_unique(attrs_set(attrs, name, value)),
        names_unique(attrs_removed(attrs, name)),
        attrs_set(attrs, name, value).contains((name, value)),
        forall|i: int|
            0 <= i < attrs_removed(attrs_set(attrs, name, value), name).len() ==> (
            #[trigger] attrs_removed(attrs_set(attrs, name, value), name)[i]).0 != name,
{
    let p = attr_pos(attrs, name);
    if p >= 0 {
        assert(is_first_attr(attrs, name, p));
    } else {
        assert forall|i: int| 0 <= i < attrs.len() implies attrs[i].0 != name by {
            if attrs[i].0 == name {
                assert(forall|j: int| 0 <= j < i && attrs[j].0 == name ==> false) by {
                    assert forall|j: int| 0 <= j < i && attrs[j].0 == name implies false by {
                        assert(attrs[j].0 == attrs[i].0);
                    }
                }
                assert(is_first_attr(attrs, name, i));
            }
        }
    }
    let set = attrs_set(attrs, name, value);
    lemma_removed_unique(attrs, name);
    let q = if p >= 0 { p } else { attrs.len() as int };
    assert(set[q] == (name, value));
    assert(is_first_attr(set, name, q)) by {
        assert forall|j: int| 0 <= j < q implies set[j].0 != name by {
            if p >= 0 {
                assert(set[j] == attrs[j]);
            } else {
                assert(set[j] == attrs[j]);
            }
        }
    }
    lemma_first_attr_unique(set, name, q);
    lemma_removed_unique(set, name);
    let r = attrs_removed(set, name);
    assert forall|i: int| 0 <= i < r.len() implies (#[trigger] r[i]).0 != name by {
        if i == q {
            assert(r[i] == set.last());
            if set.len() - 1 != q {
                assert(set[set.len() - 1].0 != set[q].0);
            }
        } else {
            assert(r[i] == set[i]);
            assert(set[i].0 != set[q].0);
        }
    }
}

proof fn lemma_removed_unique(attrs: Seq<(Seq<char>, Seq<char>)>, name: Seq<char>)
    ensures
        names_unique(attrs) ==> names_unique(attrs_removed(attrs, name)),
{
    let p = attr_pos(attrs, name);
    if names_unique(attrs) && p >= 0 {
        assert(is_first_attr(attrs, name, p));
        let r = attrs_removed(attrs, name);
        let last = attrs.len() - 1;
        assert forall|i: int, j: int| 0 <= i < j < r.len() implies r[i].0 != r[j].0 by {
            let oi = if i == p { last } else { i };
            let oj = if j == p { last } else { j };
            assert(r[i] == attrs[oi]);
            assert(r[j] == attrs[oj]);
            assert(oi != oj);
            if oi < oj {
                assert(attrs[oi].0 != attrs[oj].0);
            } else {
                assert(attrs[oj].0 != attrs[oi].0);
            }
        }
    }
}

} // verus!
