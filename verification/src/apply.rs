//! Attaching a tree of nodes to the DOM that the browser made of its
//! prerendered HTML: each text node and element of the tree is matched, in
//! tree order, with the DOM node written for it.
//!
//! A DOM node is named by its path: the index among the DOM nodes given at
//! the top, then the index of a child at each level.
use vstd::prelude::*;

use crate::composing::{concat_path, paths_view};
use crate::prerender::{node_html, nodes_html, DomGeneralElement, DomNode, WriteHtmlState};

verus! {

/// What a DOM node made from prerendered HTML is.
#[derive(Debug, Clone, Copy, PartialEq, Eq, Structural)]
pub enum ShapeKind {
    Element,
    Text,
    Comment,
}

/// A DOM node with its children in order.
pub struct DomShape {
    pub kind: ShapeKind,
    pub children: Vec<DomShape>,
}

/// Why a tree cannot be attached: a node of the tree has no DOM node left
/// to match.
#[derive(Debug, Clone, Copy, PartialEq, Eq, Structural)]
pub enum ApplyError {
    MissingNode,
}

/// Matching the node `n` with the DOM nodes of `list` (the children of the
/// DOM node at `pre`) from index `i` on, after a text node or not
/// (`prev`): the index after what it took, whether it ended with a text
/// node, and the paths of the DOM nodes matched, in tree order. A text node
/// after a text node skips one DOM node (the comment written between them);
/// a virtual node matches its children; `None` where a DOM node is missing.
pub open spec fn rematch(n: DomNode, list: Seq<DomShape>, pre: Seq<usize>, i: int, prev: bool) -> Option<
    (int, bool, Seq<Seq<usize>>),
>
    decreases n,
{
    match n.value {
        DomGeneralElement::Text(_) => {
            let j = if prev {
                i + 1
            } else {
                i
            };
            if 0 <= i < list.len() && j < list.len() {
                Some((j + 1, true, seq![pre.push(j as usize)]))
            } else {
                None
            }
        },
        DomGeneralElement::Element(_) => {
            if 0 <= i < list.len() {
                match rematch_in(n.children@, list[i].children@, pre.push(i as usize), 0, false) {
                    Some(r) => Some((i + 1, false, seq![pre.push(i as usize)] + r.2)),
                    None => None,
                }
            } else {
                None
            }
        },
        DomGeneralElement::Virtual => rematch_in(n.children@, list, pre, i, prev),
    }
}

/// `rematch` of sibling nodes, one after another.
pub open spec fn rematch_in(
    ns: Seq<DomNode>,
    list: Seq<DomShape>,
    pre: Seq<usize>,
    i: int,
    prev: bool,
) -> Option<(int, bool, Seq<Seq<usize>>)>
    decreases ns,
{
    if ns.len() == 0 {
        Some((i, prev, Seq::empty()))
    } else {
        match rematch_in(ns.subrange(0, ns.len() - 1), list, pre, i, prev) {
            Some(r) => match rematch(ns[ns.len() - 1], list, pre, r.0, r.1) {
                Some(s) => Some((s.0, s.1, r.2 + s.2)),
                None => None,
            },
            None => None,
        }
    }
}

/// Matches the node `n` with the DOM nodes of `list` from index `i` on,
/// appending the paths matched to `out`; the index after what it took.
fn rematch_dom(
    n: &DomNode,
    list: &Vec<DomShape>,
    pre: &mut Vec<usize>,
    i: usize,
    state: &mut WriteHtmlState,
    out: &mut Vec<Vec<usize>>,
) -> (r: Result<usize, ApplyError>)
    ensures
        final(pre)@ == old(pre)@,
        match rematch(*n, list@, old(pre)@, i as int, old(state).prev_is_text_node) {
            Some(t) => {
                &&& r matches Ok(j) && j == t.0
                &&& final(state).prev_is_text_node == t.1
                &&& paths_view(final(out)@) == paths_view(old(out)@) + t.2
            },
            None => r is Err,
        },
    decreases n, 1nat,
{
    let ghost o0 = paths_view(out@);
    match &n.value {
        DomGeneralElement::Text(_) => {
            if i >= list.len() {
                return Err(ApplyError::MissingNode);
            }
            let mut j = i;
            if state.prev_is_text_node {
                if i + 1 >= list.len() {
                    return Err(ApplyError::MissingNode);
                }
                j = i + 1;
            } else {
                state.prev_is_text_node = true;
            }
            assert(pre@.take(pre@.len() as int) =~= pre@);
            out.push(concat_path(pre, pre.len(), Some(j)));
            assert(paths_view(out@) =~= o0 + seq![pre@.push(j)]);
            Ok(j + 1)
        },
        DomGeneralElement::Element(_) => {
            if i >= list.len() {
                return Err(ApplyError::MissingNode);
            }
            assert(pre@.take(pre@.len() as int) =~= pre@);
            out.push(concat_path(pre, pre.len(), Some(i)));
            let ghost o1 = paths_view(out@);
            assert(o1 =~= o0 + seq![pre@.push(i)]);
            state.prev_is_text_node = false;
            let ghost pre0 = pre@;
            pre.push(i);
            let r = rematch_children(n, &list[i].children, pre, 0, state, out);
            pre.pop();
            assert(pre@ =~= pre0);
            match r {
                Err(e) => {
                    return Err(e);
                },
                Ok(_) => {},
            }
            state.prev_is_text_node = false;
            proof {
                let t = rematch_in(n.children@, list@[i as int].children@, pre0.push(i), 0, false)->0;
                assert(paths_view(out@) =~= o0 + (seq![pre0.push(i)] + t.2));
            }
            Ok(i + 1)
        },
        DomGeneralElement::Virtual => rematch_children(n, list, pre, i, state, out),
    }
}

/// Matches the children of `n`, one after another, from index `i` of
/// `list` on.
fn rematch_children(
    n: &DomNode,
    list: &Vec<DomShape>,
    pre: &mut Vec<usize>,
    i: usize,
    state: &mut WriteHtmlState,
    out: &mut Vec<Vec<usize>>,
) -> (r: Result<usize, ApplyError>)
    ensures
        final(pre)@ == old(pre)@,
        match rematch_in(n.children@, list@, old(pre)@, i as int, old(state).prev_is_text_node) {
            Some(t) => {
                &&& r matches Ok(j) && j == t.0
                &&& final(state).prev_is_text_node == t.1
                &&& paths_view(final(out)@) == paths_view(old(out)@) + t.2
            },
            None => r is Err,
        },
    decreases n, 0nat,
{
    let ghost o0 = paths_view(out@);
    let ghost p0 = old(state).prev_is_text_node;
    let ghost pre0 = pre@;
    let cs = &n.children;
    let len = cs.len();
    let mut k: usize = 0;
    let mut pos = i;
    while k < len
        invariant
            len == cs@.len(),
            cs == &n.children,
            k <= len,
            pre@ == pre0,
            pre0 == old(pre)@,
            p0 == old(state).prev_is_text_node,
            rematch_in(cs@.take(k as int), list@, pre0, i as int, p0) matches Some(t) && t.0
                == pos && t.1 == state.prev_is_text_node && paths_view(out@) == o0 + t.2,
        decreases len - k,
    {
        proof {
            assert(cs@.take(k + 1).subrange(0, k as int) =~= cs@.take(k as int));
            assert(decreases_to!(n => n.children));
        }
        let ghost before = paths_view(out@);
        let ghost t = rematch_in(cs@.take(k as int), list@, pre0, i as int, p0)->0;
        match rematch_dom(&cs[k], list, pre, pos, state, out) {
            Err(e) => {
                assert(rematch_in(cs@.take(k + 1), list@, pre0, i as int, p0) is None);
                assert(cs@.take(len as int) =~= cs@);
                proof {
                    lemma_rematch_in_stops(cs@, list@, pre0, i as int, p0, k + 1);
                }
                return Err(e);
            },
            Ok(next) => {
                pos = next;
            },
        }
        proof {
            let s = rematch(cs@[k as int], list@, pre0, t.0, t.1)->0;
            assert(paths_view(out@) =~= o0 + (t.2 + s.2));
        }
        k = k + 1;
    }
    assert(cs@.take(len as int) =~= cs@);
    Ok(pos)
}

/// Once matching fails on a prefix of the siblings, it fails on all of them.
proof fn lemma_rematch_in_stops(
    ns: Seq<DomNode>,
    list: Seq<DomShape>,
    pre: Seq<usize>,
    i: int,
    prev: bool,
    k: int,
)
    requires
        0 <= k <= ns.len(),
        rematch_in(ns.take(k), list, pre, i, prev) is None,
    ensures
        rematch_in(ns, list, pre, i, prev) is None,
    decreases ns.len() - k,
{
    if k < ns.len() {
        assert(ns.take(k + 1).subrange(0, k) =~= ns.take(k));
        lemma_rematch_in_stops(ns, list, pre, i, prev, k + 1);
    } else {
        assert(ns.take(k) =~= ns);
    }
}

/// Attaches the tree `tree` to the DOM nodes `dom` (the DOM element to
/// attach to, as a list of one): the paths of the DOM nodes matched with
/// the text nodes and elements of the tree, in tree order.
pub fn apply_prerendered(tree: &DomNode, dom: &Vec<DomShape>) -> (r: Result<
    Vec<Vec<usize>>,
    ApplyError,
>)
    ensures
        match rematch(*tree, dom@, Seq::empty(), 0, false) {
            Some(t) => r matches Ok(v) && paths_view(v@) == t.2,
            None => r is Err,
        },
{
    let mut pre: Vec<usize> = Vec::new();
    let mut state = WriteHtmlState::new();
    let mut out: Vec<Vec<usize>> = Vec::new();
    assert(paths_view(out@) =~= Seq::<Seq<usize>>::empty());
    match rematch_dom(tree, dom, &mut pre, 0, &mut state, &mut out) {
        Ok(_) => {
            let ghost t = rematch(*tree, dom@, Seq::empty(), 0, false)->0;
            assert(paths_view(out@) =~= t.2);
            Ok(out)
        },
        Err(e) => Err(e),
    }
}

/// The number of DOM nodes, side by side, that the browser makes of the
/// HTML written for `n` after a text node or not (`node_html`): an empty
/// comment and a text node for a text node after a text node, one node for
/// another text node or an element, those of the children for a virtual
/// node.
pub open spec fn shape_count(n: DomNode, prev: bool) -> int
    decreases n,
{
    match n.value {
        DomGeneralElement::Text(_) => if prev {
            2
        } else {
            1
        },
        DomGeneralElement::Element(_) => 1,
        DomGeneralElement::Virtual => shape_count_in(n.children@, prev),
    }
}

/// `shape_count` of sibling nodes written one after another (`nodes_html`).
pub open spec fn shape_count_in(ns: Seq<DomNode>, prev: bool) -> int
    decreases ns,
{
    if ns.len() == 0 {
        0
    } else {
        let init = ns.subrange(0, ns.len() - 1);
        shape_count_in(init, prev) + shape_count(ns[ns.len() - 1], nodes_html(init, prev).1)
    }
}

/// Whether the DOM nodes of `list` from index `i` on are those that the
/// browser makes of the HTML written for `n` after a text node or not: the
/// comment and the text node of a text node, an element whose children are
/// those of the element's children, the nodes of a virtual node's children.
pub open spec fn shapes_of(n: DomNode, prev: bool, list: Seq<DomShape>, i: int) -> bool
    decreases n,
{
    match n.value {
        DomGeneralElement::Text(_) => {
            &&& 0 <= i
            &&& i + shape_count(n, prev) <= list.len()
            &&& prev ==> list[i].kind == ShapeKind::Comment
            &&& list[i + shape_count(n, prev) - 1].kind == ShapeKind::Text
        },
        DomGeneralElement::Element(_) => {
            &&& 0 <= i < list.len()
            &&& list[i].kind == ShapeKind::Element
            &&& list[i].children@.len() == shape_count_in(n.children@, false)
            &&& shapes_in(n.children@, false, list[i].children@, 0)
        },
        DomGeneralElement::Virtual => shapes_in(n.children@, prev, list, i),
    }
}

/// `shapes_of` for sibling nodes written one after another.
pub open spec fn shapes_in(ns: Seq<DomNode>, prev: bool, list: Seq<DomShape>, i: int) -> bool
    decreases ns,
{
    if ns.len() == 0 {
        0 <= i <= list.len()
    } else {
        let init = ns.subrange(0, ns.len() - 1);
        &&& shapes_in(init, prev, list, i)
        &&& shapes_of(
            ns[ns.len() - 1],
            nodes_html(init, prev).1,
            list,
            i + shape_count_in(init, prev),
        )
    }
}

/// Matching a node with the DOM nodes made of its HTML succeeds, takes
/// exactly those nodes and ends as the writing did.
pub proof fn lemma_rematch_written(
    n: DomNode,
    prev: bool,
    list: Seq<DomShape>,
    pre: Seq<usize>,
    i: int,
)
    requires
        shapes_of(n, prev, list, i),
    ensures
        rematch(n, list, pre, i, prev) matches Some(t) && t.0 == i + shape_count(n, prev) && t.1
            == node_html(n, prev).1,
    decreases n,
{
    match n.value {
        DomGeneralElement::Element(_) => {
            lemma_rematch_in_written(n.children@, false, list[i].children@, pre.push(i as usize), 0);
        },
        DomGeneralElement::Virtual => {
            lemma_rematch_in_written(n.children@, prev, list, pre, i);
        },
        _ => {},
    }
}

/// `lemma_rematch_written` for sibling nodes written one after another.
pub proof fn lemma_rematch_in_written(
    ns: Seq<DomNode>,
    prev: bool,
    list: Seq<DomShape>,
    pre: Seq<usize>,
    i: int,
)
    requires
        shapes_in(ns, prev, list, i),
    ensures
        rematch_in(ns, list, pre, i, prev) matches Some(t) && t.0 == i + shape_count_in(ns, prev)
            && t.1 == nodes_html(ns, prev).1,
    decreases ns,
{
    if ns.len() > 0 {
        let init = ns.subrange(0, ns.len() - 1);
        lemma_rematch_in_written(init, prev, list, pre, i);
        lemma_rematch_written(
            ns[ns.len() - 1],
            nodes_html(init, prev).1,
            list,
            pre,
            i + shape_count_in(init, prev),
        );
    }
}

/// The DOM nodes under the DOM node at `pre` (the top nodes for an empty
/// path).
pub open spec fn children_at(dom: Seq<DomShape>, pre: Seq<usize>) -> Seq<DomShape>
    decreases pre.len(),
{
    if pre.len() == 0 {
        dom
    } else {
        children_at(dom[pre[0] as int].children@, pre.drop_first())
    }
}

/// The DOM node at the path `p`.
pub open spec fn shape_at(dom: Seq<DomShape>, p: Seq<usize>) -> DomShape {
    children_at(dom, p.drop_last())[p.last() as int]
}

/// The kinds of the text nodes and elements of `n`, in tree order.
pub open spec fn node_kinds(n: DomNode) -> Seq<ShapeKind>
    decreases n,
{
    match n.value {
        DomGeneralElement::Text(_) => seq![ShapeKind::Text],
        DomGeneralElement::Element(_) => seq![ShapeKind::Element] + node_kinds_in(n.children@),
        DomGeneralElement::Virtual => node_kinds_in(n.children@),
    }
}

/// `node_kinds` of sibling nodes, one after another.
pub open spec fn node_kinds_in(ns: Seq<DomNode>) -> Seq<ShapeKind>
    decreases ns,
{
    if ns.len() == 0 {
        Seq::empty()
    } else {
        node_kinds_in(ns.subrange(0, ns.len() - 1)) + node_kinds(ns[ns.len() - 1])
    }
}

/// One step further down: the children of the DOM node `i` under `pre`.
proof fn lemma_children_at_push(dom: Seq<DomShape>, pre: Seq<usize>, i: usize)
    ensures
        children_at(dom, pre.push(i)) == children_at(dom, pre)[i as int].children@,
    decreases pre.len(),
{
    let q = pre.push(i);
    if pre.len() == 0 {
        assert(q.drop_first() =~= Seq::<usize>::empty());
        assert(q[0] == i);
        assert(children_at(dom[i as int].children@, q.drop_first()) == dom[i as int].children@);
    } else {
        lemma_children_at_push(dom[pre[0] as int].children@, pre.drop_first(), i);
        assert(q[0] == pre[0]);
        assert(q.drop_first() =~= pre.drop_first().push(i));
    }
}

/// Matching a node with the DOM nodes made of its HTML matches each text
/// node of it with a DOM text node and each element with a DOM element, in
/// tree order.
pub proof fn lemma_rematch_kinds(
    n: DomNode,
    prev: bool,
    dom: Seq<DomShape>,
    pre: Seq<usize>,
    i: int,
)
    requires
        shapes_of(n, prev, children_at(dom, pre), i),
        children_at(dom, pre).len() <= usize::MAX,
    ensures
        rematch(n, children_at(dom, pre), pre, i, prev) matches Some(t) && t.2.len()
            == node_kinds(n).len() && forall|k: int|
            0 <= k < t.2.len() ==> shape_at(dom, #[trigger] t.2[k]).kind == node_kinds(n)[k],
    decreases n,
{
    let list = children_at(dom, pre);
    lemma_rematch_written(n, prev, list, pre, i);
    let t = rematch(n, list, pre, i, prev)->0;
    match n.value {
        DomGeneralElement::Text(_) => {
            let j = if prev {
                i + 1
            } else {
                i
            };
            let p = pre.push(j as usize);
            assert(p.drop_last() =~= pre);
            assert(t.2[0] == p);
            assert(shape_at(dom, p) == list[j]);
        },
        DomGeneralElement::Element(_) => {
            let c = pre.push(i as usize);
            lemma_children_at_push(dom, pre, i as usize);
            assert(list[i].children.len() == list[i].children@.len());
            lemma_rematch_in_kinds(n.children@, false, dom, c, 0);
            let r = rematch_in(n.children@, list[i].children@, c, 0, false)->0;
            assert(c.drop_last() =~= pre);
            assert(t.2 == seq![c] + r.2);
            assert forall|k: int| 0 <= k < t.2.len() implies shape_at(dom, #[trigger] t.2[k]).kind
                == node_kinds(n)[k] by {
                if k > 0 {
                    assert(t.2[k] == r.2[k - 1]);
                }
            }
        },
        DomGeneralElement::Virtual => {
            lemma_rematch_in_kinds(n.children@, prev, dom, pre, i);
        },
    }
}

/// `lemma_rematch_kinds` for sibling nodes written one after another.
pub proof fn lemma_rematch_in_kinds(
    ns: Seq<DomNode>,
    prev: bool,
    dom: Seq<DomShape>,
    pre: Seq<usize>,
    i: int,
)
    requires
        shapes_in(ns, prev, children_at(dom, pre), i),
        children_at(dom, pre).len() <= usize::MAX,
    ensures
        rematch_in(ns, children_at(dom, pre), pre, i, prev) matches Some(t) && t.2.len()
            == node_kinds_in(ns).len() && forall|k: int|
            0 <= k < t.2.len() ==> shape_at(dom, #[trigger] t.2[k]).kind == node_kinds_in(ns)[k],
    decreases ns,
{
    let list = children_at(dom, pre);
    lemma_rematch_in_written(ns, prev, list, pre, i);
    if ns.len() > 0 {
        let init = ns.subrange(0, ns.len() - 1);
        let last = ns[ns.len() - 1];
        lemma_rematch_in_kinds(init, prev, dom, pre, i);
        lemma_rematch_in_written(init, prev, list, pre, i);
        let r = rematch_in(init, list, pre, i, prev)->0;
        lemma_rematch_kinds(last, r.1, dom, pre, r.0);
        let s = rematch(last, list, pre, r.0, r.1)->0;
        let t = rematch_in(ns, list, pre, i, prev)->0;
        assert(t.2 == r.2 + s.2);
        assert forall|k: int| 0 <= k < t.2.len() implies shape_at(dom, #[trigger] t.2[k]).kind
            == node_kinds_in(ns)[k] by {
            if k < r.2.len() {
                assert(t.2[k] == r.2[k]);
            } else {
                assert(t.2[k] == s.2[k - r.2.len()]);
            }
        }
    }
}

/// Attaching a tree to the DOM that the browser made of the HTML written
/// for it succeeds, and matches each text node of the tree with a DOM text
/// node and each element with a DOM element, in tree order.
pub proof fn lemma_apply_written(tree: DomNode, dom: Seq<DomShape>)
    requires
        shapes_of(tree, false, dom, 0),
        dom.len() <= usize::MAX,
    ensures
        rematch(tree, dom, Seq::empty(), 0, false) matches Some(t) && t.2.len() == node_kinds(
            tree,
        ).len() && forall|k: int|
            0 <= k < t.2.len() ==> shape_at(dom, #[trigger] t.2[k]).kind == node_kinds(tree)[k],
{
    assert(children_at(dom, Seq::empty()) == dom);
    lemma_rematch_kinds(tree, false, dom, Seq::empty(), 0);
}

} // verus!
