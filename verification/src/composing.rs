//! Where the DOM nodes of a tree of nodes stand, when some of its nodes are
//! virtual: a virtual node has no DOM node of its own, and its children are
//! composed into the DOM node of its nearest ancestor that has one.
//!
//! A node of the tree is named by its path from the root: the index of a
//! child at each level.
use vstd::prelude::*;

use crate::prerender::{DomGeneralElement, DomNode};

verus! {

/// Whether the node has a DOM node of its own (an element or a text node).
pub open spec fn is_dom(n: DomNode) -> bool {
    !(n.value is Virtual)
}

/// The node at `path` below `n`.
pub open spec fn node_at(n: DomNode, path: Seq<usize>) -> DomNode
    decreases path.len(),
{
    if path.len() == 0 {
        n
    } else {
        node_at(n.children@[path[0] as int], path.drop_first())
    }
}

/// Whether `path` names a node below `n`.
pub open spec fn valid_path(n: DomNode, path: Seq<usize>) -> bool
    decreases path.len(),
{
    path.len() == 0 || (path[0] < n.children@.len() && valid_path(
        n.children@[path[0] as int],
        path.drop_first(),
    ))
}

/// Going one step further down a path: the child `i` of the node at `path`.
pub proof fn lemma_node_at_push(n: DomNode, path: Seq<usize>, i: usize)
    ensures
        node_at(n, path.push(i)) == node_at(n, path).children@[i as int],
        valid_path(n, path.push(i)) == (valid_path(n, path) && i < node_at(
            n,
            path,
        ).children@.len()),
    decreases path.len(),
{
    if path.len() == 0 {
        let q = path.push(i);
        assert(q.drop_first() =~= Seq::<usize>::empty());
        assert(q[0] == i);
        assert(node_at(n.children@[i as int], q.drop_first()) == n.children@[i as int]);
        assert(valid_path(n.children@[i as int], q.drop_first()));
    } else {
        let c = n.children@[path[0] as int];
        lemma_node_at_push(c, path.drop_first(), i);
        assert(path.push(i)[0] == path[0]);
        assert(path.push(i).drop_first() =~= path.drop_first().push(i));
    }
}

/// The path, below `n`, of the first node in tree order that has a DOM node,
/// not looking inside such a node: `n` itself when it has one.
pub open spec fn first_dom(n: DomNode) -> Option<Seq<usize>>
    decreases n,
{
    if is_dom(n) {
        Some(Seq::empty())
    } else {
        first_dom_in(n.children@)
    }
}

/// `first_dom` over a sequence of sibling nodes, the path starting with the
/// index of the sibling.
pub open spec fn first_dom_in(ns: Seq<DomNode>) -> Option<Seq<usize>>
    decreases ns,
{
    if ns.len() == 0 {
        None
    } else {
        match first_dom_in(ns.subrange(0, ns.len() - 1)) {
            Some(p) => Some(p),
            None => match first_dom(ns[ns.len() - 1]) {
                Some(p) => Some(seq![(ns.len() - 1) as usize] + p),
                None => None,
            },
        }
    }
}

/// The path of the first node of `n`, in tree order, that has a DOM node
/// (`n` itself when it has one); `None` when `n` and all below it are
/// virtual.
pub fn find_first_dom_child(n: &DomNode) -> (r: Option<Vec<usize>>)
    ensures
        r matches Some(p) ==> Some(p@) == first_dom(*n),
        r is None ==> first_dom(*n) is None,
    decreases n,
{
    match &n.value {
        DomGeneralElement::Virtual => {},
        _ => {
            return Some(Vec::new());
        },
    }
    let cs = &n.children;
    let len = cs.len();
    let mut i: usize = 0;
    while i < len
        invariant
            len == cs@.len(),
            cs == &n.children,
            !is_dom(*n),
            i <= len,
            first_dom_in(cs@.take(i as int)) is None,
        decreases len - i,
    {
        proof {
            assert(cs@.take(i + 1).subrange(0, i as int) =~= cs@.take(i as int));
            assert(decreases_to!(n => n.children));
        }
        match find_first_dom_child(&cs[i]) {
            Some(p) => {
                let mut r: Vec<usize> = Vec::new();
                r.push(i);
                let mut k: usize = 0;
                while k < p.len()
                    invariant
                        k <= p@.len(),
                        r@ == seq![i] + p@.take(k as int),
                    decreases p@.len() - k,
                {
                    r.push(p[k]);
                    k = k + 1;
                    assert(r@ =~= seq![i] + p@.take(k as int));
                }
                proof {
                    assert(p@.take(k as int) =~= p@);
                    lemma_first_dom_in_prefix(cs@, i as int);
                }
                return Some(r);
            },
            None => {},
        }
        i = i + 1;
    }
    assert(cs@.take(len as int) =~= cs@);
    None
}

/// Where the first `i` siblings hold no DOM node and sibling `i` does, the
/// first DOM node among all the siblings is that of sibling `i`.
proof fn lemma_first_dom_in_prefix(ns: Seq<DomNode>, i: int)
    requires
        0 <= i < ns.len(),
        first_dom_in(ns.take(i)) is None,
        first_dom(ns[i]) is Some,
    ensures
        first_dom_in(ns) == Some(seq![i as usize] + first_dom(ns[i])->0),
    decreases ns.len(),
{
    if i == ns.len() - 1 {
        assert(ns.subrange(0, ns.len() - 1) =~= ns.take(i));
    } else {
        let init = ns.subrange(0, ns.len() - 1);
        assert(init.take(i) =~= ns.take(i));
        lemma_first_dom_in_prefix(init, i);
    }
}


/// Paths held in vectors, as sequences.
pub open spec fn paths_view(v: Seq<Vec<usize>>) -> Seq<Seq<usize>> {
    v.map_values(|p: Vec<usize>| p@)
}

/// Each path of `ps` with `pre` in front of it.
pub open spec fn prefixed(pre: Seq<usize>, ps: Seq<Seq<usize>>) -> Seq<Seq<usize>> {
    ps.map_values(|p: Seq<usize>| pre + p)
}

/// The paths, below `n` and in tree order, of the nodes whose DOM nodes make
/// up what `n` puts into the DOM: `n` itself when it has a DOM node, else
/// those of its children, one after another.
pub open spec fn composing_paths(n: DomNode) -> Seq<Seq<usize>>
    decreases n,
{
    if is_dom(n) {
        seq![Seq::empty()]
    } else {
        composing_in(n.children@)
    }
}

/// `composing_paths` over a sequence of siblings, each path starting with
/// the index of the sibling.
pub open spec fn composing_in(ns: Seq<DomNode>) -> Seq<Seq<usize>>
    decreases ns,
{
    if ns.len() == 0 {
        Seq::empty()
    } else {
        composing_in(ns.subrange(0, ns.len() - 1)) + prefixed(
            seq![(ns.len() - 1) as usize],
            composing_paths(ns[ns.len() - 1]),
        )
    }
}

/// A copy of a path.
fn copy_path(p: &Vec<usize>) -> (r: Vec<usize>)
    ensures
        r@ == p@,
{
    let mut r: Vec<usize> = Vec::new();
    let mut k: usize = 0;
    while k < p.len()
        invariant
            k <= p@.len(),
            r@ == p@.take(k as int),
        decreases p@.len() - k,
    {
        r.push(p[k]);
        k = k + 1;
        assert(r@ =~= p@.take(k as int));
    }
    assert(p@.take(k as int) =~= p@);
    r
}

/// Appends to `out` the paths of the DOM nodes that `n` puts into the DOM,
/// each with `prefix` in front of it.
fn composing_nodes_into(n: &DomNode, prefix: &mut Vec<usize>, out: &mut Vec<Vec<usize>>)
    ensures
        final(prefix)@ == old(prefix)@,
        paths_view(final(out)@) == paths_view(old(out)@) + prefixed(
            old(prefix)@,
            composing_paths(*n),
        ),
    decreases n,
{
    let ghost pre = prefix@;
    let ghost o0 = paths_view(out@);
    match &n.value {
        DomGeneralElement::Virtual => {},
        _ => {
            let p = copy_path(prefix);
            out.push(p);
            assert(paths_view(out@) =~= o0 + prefixed(pre, composing_paths(*n)));
            return ;
        },
    }
    let cs = &n.children;
    let len = cs.len();
    let mut i: usize = 0;
    while i < len
        invariant
            len == cs@.len(),
            cs == &n.children,
            !is_dom(*n),
            i <= len,
            prefix@ == pre,
            paths_view(out@) == o0 + prefixed(pre, composing_in(cs@.take(i as int))),
        decreases len - i,
    {
        proof {
            assert(cs@.take(i + 1).subrange(0, i as int) =~= cs@.take(i as int));
            assert(decreases_to!(n => n.children));
        }
        let ghost before = paths_view(out@);
        prefix.push(i);
        composing_nodes_into(&cs[i], prefix, out);
        prefix.pop();
        proof {
            let c = composing_paths(cs@[i as int]);
            assert(prefixed(pre.push(i), c) =~= prefixed(pre, prefixed(seq![i], c))) by {
                assert forall|k: int| 0 <= k < c.len() implies pre.push(i) + c[k] =~= pre + (
                seq![i] + c[k]) by {}
            }
            let a = composing_in(cs@.take(i as int));
            assert(prefixed(pre, a + prefixed(seq![i], c)) =~= prefixed(pre, a) + prefixed(
                pre,
                prefixed(seq![i], c),
            ));
            assert(prefix@ =~= pre);
        }
        i = i + 1;
    }
    assert(cs@.take(len as int) =~= cs@);
}

/// The paths, below `n` and in tree order, of the DOM nodes that leave the
/// DOM when `n` is removed from its parent: `n` itself when it has a DOM
/// node, else those of its children, one after another.
pub fn remove_all_children(n: &DomNode) -> (r: Vec<Vec<usize>>)
    ensures
        paths_view(r@) == composing_paths(*n),
{
    let mut prefix: Vec<usize> = Vec::new();
    let mut out: Vec<Vec<usize>> = Vec::new();
    composing_nodes_into(n, &mut prefix, &mut out);
    proof {
        let c = composing_paths(*n);
        assert(prefixed(Seq::empty(), c) =~= c) by {
            assert forall|k: int| 0 <= k < c.len() implies Seq::<usize>::empty() + c[k] =~= c[k] by {}
        }
        assert(paths_view(out@) =~= composing_paths(*n));
    }
    out
}

/// The DOM nodes to insert for a subtree: none, one, or several gathered in
/// a fragment.
pub enum ChildFrag {
    Empty,
    Single(Vec<usize>),
    Multi(Vec<Vec<usize>>),
}

impl View for ChildFrag {
    type V = Seq<Seq<usize>>;

    /// The paths of the nodes gathered, in order.
    open spec fn view(&self) -> Seq<Seq<usize>> {
        match self {
            ChildFrag::Empty => Seq::empty(),
            ChildFrag::Single(p) => seq![p@],
            ChildFrag::Multi(ps) => paths_view(ps@),
        }
    }
}

impl ChildFrag {
    /// Whether the shape fits the number of nodes: a fragment only for two
    /// or more.
    pub open spec fn wf(&self) -> bool {
        self is Multi ==> self@.len() >= 2
    }

    /// No node yet.
    pub fn new() -> (r: Self)
        ensures
            r@ == Seq::<Seq<usize>>::empty(),
            r is Empty,
    {
        ChildFrag::Empty
    }

    /// Adds a node after those gathered: the first is held alone, the
    /// second starts a fragment.
    pub fn add(&mut self, n: Vec<usize>)
        requires
            old(self).wf(),
        ensures
            final(self)@ == old(self)@.push(n@),
            final(self).wf(),
            (*final(self) is Single) <==> (*old(self) is Empty),
    {
        let mut cur = ChildFrag::Empty;
        std::mem::swap(&mut cur, self);
        match cur {
            ChildFrag::Empty => {
                *self = ChildFrag::Single(n);
            },
            ChildFrag::Single(prev) => {
                let mut v: Vec<Vec<usize>> = Vec::new();
                v.push(prev);
                v.push(n);
                *self = ChildFrag::Multi(v);
                assert(self@ =~= seq![prev@, n@]);
            },
            ChildFrag::Multi(v) => {
                let mut v = v;
                let ghost v0 = v@;
                v.push(n);
                *self = ChildFrag::Multi(v);
                assert(paths_view(v@) =~= paths_view(v0).push(n@));
            },
        }
    }

    /// The nodes to insert, `None` when there is none.
    pub fn dom(&self) -> (r: Option<Vec<Vec<usize>>>)
        requires
            self.wf(),
        ensures
            r is None <==> self@.len() == 0,
            r matches Some(v) ==> paths_view(v@) == self@,
    {
        match self {
            ChildFrag::Empty => None,
            ChildFrag::Single(p) => {
                let mut v: Vec<Vec<usize>> = Vec::new();
                v.push(copy_path(p));
                assert(paths_view(v@) =~= self@);
                Some(v)
            },
            ChildFrag::Multi(ps) => {
                let mut v: Vec<Vec<usize>> = Vec::new();
                let mut k: usize = 0;
                while k < ps.len()
                    invariant
                        k <= ps@.len(),
                        paths_view(v@) == paths_view(ps@.take(k as int)),
                    decreases ps@.len() - k,
                {
                    let ghost v0 = v@;
                    v.push(copy_path(&ps[k]));
                    assert(ps@.take(k + 1) =~= ps@.take(k as int).push(ps@[k as int]));
                    assert(paths_view(v@) =~= paths_view(v0).push(ps@[k as int]@));
                    k = k + 1;
                    assert(paths_view(v@) =~= paths_view(ps@.take(k as int)));
                }
                assert(ps@.take(k as int) =~= ps@);
                Some(v)
            },
        }
    }
}

/// The DOM nodes that `n` puts into the DOM, gathered for one insertion.
pub fn collect_child_frag(n: &DomNode) -> (r: ChildFrag)
    ensures
        r@ == composing_paths(*n),
        r.wf(),
{
    let nodes = remove_all_children(n);
    let mut r = ChildFrag::new();
    let mut k: usize = 0;
    while k < nodes.len()
        invariant
            k <= nodes@.len(),
            r@ == paths_view(nodes@.take(k as int)),
            r.wf(),
        decreases nodes@.len() - k,
    {
        r.add(copy_path(&nodes[k]));
        k = k + 1;
        assert(r@ =~= paths_view(nodes@.take(k as int)));
    }
    assert(nodes@.take(k as int) =~= nodes@);
    r
}

/// A prefix of a path that names a node names a node too.
pub proof fn lemma_valid_prefix(n: DomNode, path: Seq<usize>, k: int)
    requires
        valid_path(n, path),
        0 <= k <= path.len(),
    ensures
        valid_path(n, path.take(k)),
    decreases path.len(),
{
    if k > 0 {
        let c = n.children@[path[0] as int];
        lemma_valid_prefix(c, path.drop_first(), k - 1);
        assert(path.take(k).drop_first() =~= path.drop_first().take(k - 1));
    }
}

/// The node at the first `k` steps of `path` below `root`.
fn node_ref<'a>(root: &'a DomNode, path: &Vec<usize>, k: usize) -> (r: &'a DomNode)
    requires
        valid_path(*root, path@),
        k <= path@.len(),
    ensures
        *r == node_at(*root, path@.take(k as int)),
        valid_path(*root, path@.take(k as int)),
{
    let mut cur = root;
    let mut i: usize = 0;
    proof {
        assert(path@.take(0) =~= Seq::<usize>::empty());
    }
    while i < k
        invariant
            i <= k <= path@.len(),
            valid_path(*root, path@),
            *cur == node_at(*root, path@.take(i as int)),
            valid_path(*root, path@.take(i as int)),
        decreases k - i,
    {
        proof {
            lemma_valid_prefix(*root, path@, i + 1);
            lemma_node_at_push(*root, path@.take(i as int), path@[i as int]);
            assert(path@.take(i + 1) =~= path@.take(i as int).push(path@[i as int]));
        }
        cur = &cur.children[path[i]];
        i = i + 1;
    }
    cur
}

/// The length of the longest prefix of `path` (`path` itself included) that
/// names a node with a DOM node; `None` when there is none.
pub open spec fn nearest_dom_ancestor(root: DomNode, path: Seq<usize>) -> Option<int>
    decreases path.len(),
{
    if is_dom(node_at(root, path)) {
        Some(path.len() as int)
    } else if path.len() == 0 {
        None
    } else {
        nearest_dom_ancestor(root, path.drop_last())
    }
}

/// The path of the nearest node, from the node at `path` up to `root`, that
/// has a DOM node: that DOM node is where the DOM nodes of the node at
/// `path` are composed into. `None` when all of them are virtual.
pub fn find_nearest_dom_ancestor(root: &DomNode, path: &Vec<usize>) -> (r: Option<Vec<usize>>)
    requires
        valid_path(*root, path@),
    ensures
        r is None <==> nearest_dom_ancestor(*root, path@) is None,
        r matches Some(p) ==> p@ == path@.take(nearest_dom_ancestor(*root, path@)->0),
{
    let len = path.len();
    let mut k: usize = len;
    assert(path@.take(len as int) =~= path@);
    loop
        invariant
            k <= len == path@.len(),
            valid_path(*root, path@),
            nearest_dom_ancestor(*root, path@) == nearest_dom_ancestor(
                *root,
                path@.take(k as int),
            ),
        decreases k,
    {
        let n = node_ref(root, path, k);
        assert(path@.take(k as int).len() == k);
        match &n.value {
            DomGeneralElement::Virtual => {},
            _ => {
                let mut r: Vec<usize> = Vec::new();
                let mut i: usize = 0;
                while i < k
                    invariant
                        k <= len == path@.len(),
                        i <= k,
                        r@ == path@.take(i as int),
                    decreases k - i,
                {
                    r.push(path[i]);
                    i = i + 1;
                    assert(r@ =~= path@.take(i as int));
                }
                return Some(r);
            },
        }
        if k == 0 {
            return None;
        }
        assert(path@.take(k as int).drop_last() =~= path@.take(k - 1));
        k = k - 1;
    }
}

/// Searching forward from child `i` of the node at `pp`: the first DOM
/// node in the children from `i` on; past the last child, the search goes on
/// after the node at `pp` itself, unless that node has a DOM node of its own
/// (then what follows it is outside) or is `root`.
pub open spec fn next_dom_from(root: DomNode, pp: Seq<usize>, i: int) -> Option<Seq<usize>>
    decreases pp.len(), node_at(root, pp).children@.len() - i,
{
    let parent = node_at(root, pp);
    if 0 <= i < parent.children@.len() {
        match first_dom(parent.children@[i]) {
            Some(x) => Some(pp.push(i as usize) + x),
            None => next_dom_from(root, pp, i + 1),
        }
    } else if is_dom(parent) || pp.len() == 0 {
        None
    } else {
        next_dom_from(root, pp.drop_last(), pp.last() + 1)
    }
}

/// The path of the DOM node that follows, in the DOM, those of the node at
/// `path`: the first DOM node among its next siblings, then among those of
/// its virtual ancestors; `None` when none follows inside the nearest DOM
/// ancestor.
pub open spec fn next_dom_sibling(root: DomNode, path: Seq<usize>) -> Option<Seq<usize>> {
    if path.len() == 0 {
        None
    } else {
        next_dom_from(root, path.drop_last(), path.last() + 1)
    }
}

/// The path of the DOM node before which the DOM nodes of the node at
/// `path` are inserted; `None` to append them at the end of the parent.
pub fn find_next_dom_sibling(root: &DomNode, path: &Vec<usize>) -> (r: Option<Vec<usize>>)
    requires
        valid_path(*root, path@),
    ensures
        r is None <==> next_dom_sibling(*root, path@) is None,
        r matches Some(p) ==> Some(p@) == next_dom_sibling(*root, path@),
{
    let len = path.len();
    if len == 0 {
        return None;
    }
    let mut k: usize = len - 1;
    proof {
        lemma_valid_prefix(*root, path@, len as int);
        lemma_node_at_push(*root, path@.take(k as int), path@[k as int]);
        assert(path@.take(len as int) =~= path@);
        assert(path@.take(k as int).push(path@[k as int]) =~= path@);
        assert(path@.drop_last() =~= path@.take(k as int));
    }
    let above = node_ref(root, path, k);
    let count = above.children.len();
    let mut i: usize = path[k] + 1;
    loop
        invariant
            k < len == path@.len(),
            valid_path(*root, path@),
            1 <= i <= node_at(*root, path@.take(k as int)).children@.len(),
            next_dom_sibling(*root, path@) == next_dom_from(*root, path@.take(k as int), i as int),
        decreases k, node_at(*root, path@.take(k as int)).children@.len() - i,
    {
        let parent = node_ref(root, path, k);
        if i < parent.children.len() {
            match find_first_dom_child(&parent.children[i]) {
                Some(x) => {
                    let mut r: Vec<usize> = Vec::new();
                    let mut j: usize = 0;
                    while j < k
                        invariant
                            k < len == path@.len(),
                            j <= k,
                            r@ == path@.take(j as int),
                        decreases k - j,
                    {
                        r.push(path[j]);
                        j = j + 1;
                        assert(r@ =~= path@.take(j as int));
                    }
                    r.push(i);
                    let mut j: usize = 0;
                    let ghost r0 = r@;
                    while j < x.len()
                        invariant
                            j <= x@.len(),
                            r@ == r0 + x@.take(j as int),
                        decreases x@.len() - j,
                    {
                        r.push(x[j]);
                        j = j + 1;
                        assert(r@ =~= r0 + x@.take(j as int));
                    }
                    assert(x@.take(j as int) =~= x@);
                    return Some(r);
                },
                None => {},
            }
            i = i + 1;
        } else {
            match &parent.value {
                DomGeneralElement::Virtual => {},
                _ => {
                    return None;
                },
            }
            if k == 0 {
                return None;
            }
            proof {
                let pp = path@.take(k as int);
                assert(pp.drop_last() =~= path@.take(k - 1));
                assert(pp.last() == path@[k - 1]);
                lemma_valid_prefix(*root, path@, k as int);
                lemma_node_at_push(*root, path@.take(k - 1), path@[k - 1]);
                assert(path@.take(k - 1).push(path@[k - 1]) =~= pp);
            }
            k = k - 1;
            let above = node_ref(root, path, k);
            let count = above.children.len();
            i = path[k] + 1;
        }
    }
}

/// The first DOM node of a subtree in tree order leads the nodes gathered
/// for its insertion: `find_first_dom_child` finds the first of what
/// `collect_child_frag` gathers, and nothing when that is empty.
pub proof fn lemma_first_dom_leads(n: DomNode)
    ensures
        first_dom(n) == (if composing_paths(n).len() > 0 {
            Some(composing_paths(n)[0])
        } else {
            None
        }),
    decreases n,
{
    if !is_dom(n) {
        lemma_first_dom_in_leads(n.children@);
    }
}

/// `lemma_first_dom_leads` over a sequence of siblings.
pub proof fn lemma_first_dom_in_leads(ns: Seq<DomNode>)
    ensures
        first_dom_in(ns) == (if composing_in(ns).len() > 0 {
            Some(composing_in(ns)[0])
        } else {
            None
        }),
    decreases ns,
{
    if ns.len() > 0 {
        let init = ns.subrange(0, ns.len() - 1);
        let last = ns[ns.len() - 1];
        lemma_first_dom_in_leads(init);
        lemma_first_dom_leads(last);
        let a = composing_in(init);
        let b = prefixed(seq![(ns.len() - 1) as usize], composing_paths(last));
        assert(composing_in(ns) == a + b);
        if a.len() == 0 && b.len() > 0 {
            assert((a + b)[0] == b[0]);
        }
    }
}

/// Each node gathered for the insertion of a subtree is a node of it with a
/// DOM node of its own.
pub proof fn lemma_composing_nodes_are_dom(n: DomNode, k: int)
    requires
        0 <= k < composing_paths(n).len(),
    ensures
        valid_path(n, composing_paths(n)[k]),
        is_dom(node_at(n, composing_paths(n)[k])),
    decreases n,
{
    if !is_dom(n) {
        assert(n.children@.take(n.children@.len() as int) =~= n.children@);
        lemma_composing_in_nodes_are_dom(n, n.children@.len() as int, k);
    }
}

/// `lemma_composing_nodes_are_dom` over the first `m` children of `n`.
pub proof fn lemma_composing_in_nodes_are_dom(n: DomNode, m: int, k: int)
    requires
        0 <= m <= n.children@.len(),
        0 <= k < composing_in(n.children@.take(m)).len(),
    ensures
        valid_path(n, composing_in(n.children@.take(m))[k]),
        is_dom(node_at(n, composing_in(n.children@.take(m))[k])),
    decreases n, m,
{
    let ns = n.children@.take(m);
    assert(n.children.len() == n.children@.len());
    if m == 0 {
        assert(composing_in(ns).len() == 0);
        return;
    }
    let init = ns.subrange(0, m - 1);
    assert(init =~= n.children@.take(m - 1));
    let a = composing_in(init);
    let c = n.children@[m - 1];
    let b = composing_paths(c);
    assert(ns[m - 1] == c);
    assert(composing_in(ns) == a + prefixed(seq![(m - 1) as usize], b));
    let pb = prefixed(seq![(m - 1) as usize], b);
    if k < a.len() {
        lemma_composing_in_nodes_are_dom(n, m - 1, k);
        assert((a + pb)[k] == a[k]);
    } else {
        let j = k - a.len();
        assert(decreases_to!(n => c));
        lemma_composing_nodes_are_dom(c, j);
        let q = seq![(m - 1) as usize] + b[j];
        assert(pb[j] == q);
        assert((a + pb)[k] == pb[j]);
        assert(composing_in(ns)[k] == q);
        assert(q[0] == (m - 1) as usize);
        assert(q.drop_first() =~= b[j]);
        assert(node_at(n, q) == node_at(c, b[j]));
        assert(valid_path(n, q));
    }
}

/// Following two paths one after the other.
proof fn lemma_node_at_concat(n: DomNode, a: Seq<usize>, b: Seq<usize>)
    ensures
        node_at(n, a + b) == node_at(node_at(n, a), b),
        valid_path(n, a + b) == (valid_path(n, a) && valid_path(node_at(n, a), b)),
    decreases a.len(),
{
    if a.len() == 0 {
        assert(a + b =~= b);
    } else {
        let c = n.children@[a[0] as int];
        lemma_node_at_concat(c, a.drop_first(), b);
        assert((a + b)[0] == a[0]);
        assert((a + b).drop_first() =~= a.drop_first() + b);
    }
}

/// The first DOM node of a subtree is a node of it with a DOM node, reached
/// through virtual nodes only.
proof fn lemma_first_dom_props(n: DomNode)
    ensures
        first_dom(n) matches Some(x) ==> {
            &&& valid_path(n, x)
            &&& is_dom(node_at(n, x))
            &&& forall|k: int| 0 <= k < x.len() ==> !is_dom(#[trigger] node_at(n, x.take(k)))
        },
    decreases n,
{
    if !is_dom(n) {
        assert(n.children.len() == n.children@.len());
        lemma_first_dom_in_props(n.children@);
        if let Some(x) = first_dom(n) {
            let c = n.children@[x[0] as int];
            let y = x.drop_first();
            assert(decreases_to!(n => c));
            lemma_first_dom_props(c);
            assert forall|k: int| 0 <= k < x.len() implies !is_dom(
                #[trigger] node_at(n, x.take(k)),
            ) by {
                if k == 0 {
                    assert(x.take(0) =~= Seq::<usize>::empty());
                } else {
                    assert(x.take(k)[0] == x[0]);
                    assert(x.take(k).drop_first() =~= y.take(k - 1));
                    assert(node_at(n, x.take(k)) == node_at(c, y.take(k - 1)));
                }
            }
        }
    } else {
        assert(Seq::<usize>::empty().take(0) =~= Seq::<usize>::empty());
    }
}

/// Where the first DOM node among siblings lies: in the sibling its path
/// starts with.
proof fn lemma_first_dom_in_props(ns: Seq<DomNode>)
    requires
        ns.len() <= usize::MAX,
    ensures
        first_dom_in(ns) matches Some(x) ==> {
            &&& x.len() >= 1
            &&& x[0] < ns.len()
            &&& first_dom(ns[x[0] as int]) == Some(x.drop_first())
        },
    decreases ns,
{
    if ns.len() > 0 {
        let init = ns.subrange(0, ns.len() - 1);
        lemma_first_dom_in_props(init);
        if let Some(x) = first_dom_in(init) {
            assert(init[x[0] as int] == ns[x[0] as int]);
        } else if let Some(p) = first_dom(ns[ns.len() - 1]) {
            let x = seq![(ns.len() - 1) as usize] + p;
            assert(x.drop_first() =~= p);
            assert(x[0] == (ns.len() - 1) as usize);
        }
    }
}

/// Going down through virtual nodes keeps the nearest DOM ancestor.
proof fn lemma_nearest_through_virtual(root: DomNode, p: Seq<usize>, y: Seq<usize>)
    requires
        forall|k: int| 1 <= k <= y.len() ==> !is_dom(#[trigger] node_at(root, p + y.take(k))),
    ensures
        nearest_dom_ancestor(root, p + y) == nearest_dom_ancestor(root, p),
    decreases y.len(),
{
    if y.len() == 0 {
        assert(p + y =~= p);
    } else {
        let z = y.drop_last();
        assert(y.take(y.len() as int) =~= y);
        assert(!is_dom(node_at(root, p + y.take(y.len() as int))));
        assert((p + y).drop_last() =~= p + z);
        assert forall|k: int| 1 <= k <= z.len() implies !is_dom(
            #[trigger] node_at(root, p + z.take(k)),
        ) by {
            assert(z.take(k) =~= y.take(k));
            assert(!is_dom(node_at(root, p + y.take(k))));
        }
        lemma_nearest_through_virtual(root, p, z);
    }
}

/// `lemma_next_dom_same_parent` for the search from child `i` of the node at
/// `pp`.
proof fn lemma_next_dom_from_parent(root: DomNode, pp: Seq<usize>, i: int)
    requires
        valid_path(root, pp),
        0 <= i,
        next_dom_from(root, pp, i) is Some,
    ensures
        ({
            let q = next_dom_from(root, pp, i)->0;
            &&& valid_path(root, q)
            &&& is_dom(node_at(root, q))
            &&& q.len() > 0
            &&& nearest_dom_ancestor(root, q.drop_last()) == nearest_dom_ancestor(root, pp)
        }),
    decreases pp.len(), node_at(root, pp).children@.len() - i,
{
    let parent = node_at(root, pp);
    if i < parent.children@.len() {
        let c = parent.children@[i];
        match first_dom(c) {
            Some(x) => {
                let a = pp.push(i as usize);
                let q = a + x;
                assert(parent.children.len() == parent.children@.len());
                lemma_node_at_push(root, pp, i as usize);
                lemma_node_at_concat(root, a, x);
                lemma_first_dom_props(c);
                if x.len() == 0 {
                    assert(q =~= a);
                    assert(q.drop_last() =~= pp);
                } else {
                    let y = seq![i as usize] + x.drop_last();
                    assert(q.drop_last() =~= pp + y);
                    assert forall|k: int| 1 <= k <= y.len() implies !is_dom(
                        #[trigger] node_at(root, pp + y.take(k)),
                    ) by {
                        assert(pp + y.take(k) =~= a + x.take(k - 1));
                        lemma_node_at_concat(root, a, x.take(k - 1));
                        assert(!is_dom(node_at(c, x.take(k - 1))));
                    }
                    lemma_nearest_through_virtual(root, pp, y);
                }
            },
            None => {
                lemma_next_dom_from_parent(root, pp, i + 1);
            },
        }
    } else {
        let up = pp.drop_last();
        lemma_valid_prefix(root, pp, pp.len() - 1);
        assert(pp.take(pp.len() - 1) =~= up);
        lemma_next_dom_from_parent(root, up, pp.last() + 1);
    }
}

/// The DOM node before which the DOM nodes of a node are inserted is a
/// child of the same DOM node as they are: the nearest DOM ancestor of its
/// parent is that of the node's parent.
pub proof fn lemma_next_dom_same_parent(root: DomNode, path: Seq<usize>)
    requires
        valid_path(root, path),
        next_dom_sibling(root, path) is Some,
    ensures
        ({
            let q = next_dom_sibling(root, path)->0;
            &&& valid_path(root, q)
            &&& is_dom(node_at(root, q))
            &&& q.len() > 0
            &&& nearest_dom_ancestor(root, q.drop_last()) == nearest_dom_ancestor(
                root,
                path.drop_last(),
            )
        }),
{
    lemma_valid_prefix(root, path, path.len() - 1);
    assert(path.take(path.len() - 1) =~= path.drop_last());
    lemma_next_dom_from_parent(root, path.drop_last(), path.last() + 1);
}

/// A new path: the first `len` steps of `pre`, then `last` where there is one.
pub(crate) fn concat_path(pre: &Vec<usize>, len: usize, last: Option<usize>) -> (r: Vec<usize>)
    requires
        len <= pre@.len(),
    ensures
        r@ == (match last {
            Some(i) => pre@.take(len as int).push(i),
            None => pre@.take(len as int),
        }),
{
    let mut r: Vec<usize> = Vec::new();
    let mut k: usize = 0;
    while k < len
        invariant
            k <= len <= pre@.len(),
            r@ == pre@.take(k as int),
        decreases len - k,
    {
        r.push(pre[k]);
        k = k + 1;
        assert(r@ =~= pre@.take(k as int));
    }
    if let Some(i) = last {
        r.push(i);
    }
    r
}

/// What to do in the DOM when a subtree comes into the tree: insert the DOM
/// nodes at `nodes` into the DOM node at `parent`, before the one at
/// `before`, or at its end.
pub struct DomInsertion {
    pub parent: Vec<usize>,
    pub nodes: Vec<Vec<usize>>,
    pub before: Option<Vec<usize>>,
}

/// What to do in the DOM when a subtree leaves the tree: remove the DOM
/// nodes at `nodes` from the DOM node at `parent`.
pub struct DomRemoval {
    pub parent: Vec<usize>,
    pub nodes: Vec<Vec<usize>>,
}

/// A path read as a sequence, if any.
pub open spec fn opt_path_view(p: Option<Vec<usize>>) -> Option<Seq<usize>> {
    match p {
        Some(v) => Some(v@),
        None => None,
    }
}

/// Whether `r` inserts the subtree at `target` into the nearest DOM node
/// from `anchor` up, before what follows the subtree in the DOM; `None`
/// when there is no such DOM node or the subtree has no DOM node.
pub open spec fn is_insertion_of(
    root: DomNode,
    anchor: Seq<usize>,
    target: Seq<usize>,
    r: Option<DomInsertion>,
) -> bool {
    match r {
        None => nearest_dom_ancestor(root, anchor) is None || composing_paths(
            node_at(root, target),
        ).len() == 0,
        Some(ins) => {
            &&& nearest_dom_ancestor(root, anchor) is Some
            &&& ins.parent@ == anchor.take(nearest_dom_ancestor(root, anchor)->0)
            &&& paths_view(ins.nodes@) == prefixed(target, composing_paths(node_at(root, target)))
            &&& paths_view(ins.nodes@).len() > 0
            &&& opt_path_view(ins.before) == next_dom_sibling(root, target)
        },
    }
}

/// The insertion of the subtree at `target`, composed into the nearest DOM
/// node from `anchor` up.
fn plan_insertion(root: &DomNode, anchor: &Vec<usize>, target: &Vec<usize>) -> (r: Option<
    DomInsertion,
>)
    requires
        valid_path(*root, anchor@),
        valid_path(*root, target@),
    ensures
        is_insertion_of(*root, anchor@, target@, r),
{
    let parent = match find_nearest_dom_ancestor(root, anchor) {
        Some(p) => p,
        None => {
            return None;
        },
    };
    let len = target.len();
    let n = node_ref(root, target, len);
    assert(target@.take(len as int) =~= target@);
    let mut prefix = concat_path(target, len, None);
    let mut nodes: Vec<Vec<usize>> = Vec::new();
    composing_nodes_into(n, &mut prefix, &mut nodes);
    assert(paths_view(nodes@) =~= prefixed(target@, composing_paths(*n)));
    if nodes.len() == 0 {
        return None;
    }
    let before = find_next_dom_sibling(root, target);
    assert(opt_path_view(before) == next_dom_sibling(*root, target@));
    Some(DomInsertion { parent, nodes, before })
}

impl DomGeneralElement {
    /// The DOM work after the node at `this` got a new last child: its DOM
    /// nodes go into the nearest DOM node from `this` up, before the DOM
    /// node that follows the child.
    pub fn append(root: &DomNode, this: &Vec<usize>) -> (r: Option<DomInsertion>)
        requires
            valid_path(*root, this@),
            node_at(*root, this@).children@.len() > 0,
        ensures
            is_insertion_of(
                *root,
                this@,
                this@.push((node_at(*root, this@).children@.len() - 1) as usize),
                r,
            ),
    {
        let len = this.len();
        let n = node_ref(root, this, len);
        assert(this@.take(len as int) =~= this@);
        let last = n.children.len() - 1;
        let child = concat_path(this, len, Some(last));
        proof {
            lemma_node_at_push(*root, this@, last);
        }
        plan_insertion(root, this, &child)
    }

    /// The DOM work after the node at `target` was inserted into the tree:
    /// its DOM nodes go into the nearest DOM node from `target` itself up,
    /// before the DOM node that follows it.
    pub fn insert(root: &DomNode, target: &Vec<usize>) -> (r: Option<DomInsertion>)
        requires
            valid_path(*root, target@),
        ensures
            is_insertion_of(*root, target@, target@, r),
    {
        plan_insertion(root, target, target)
    }

    /// The DOM work before the node at `this` leaves the tree: its DOM nodes
    /// leave the nearest DOM node from `this` itself up; `None` when there
    /// is none.
    pub fn detach(root: &DomNode, this: &Vec<usize>) -> (r: Option<DomRemoval>)
        requires
            valid_path(*root, this@),
        ensures
            r is None <==> nearest_dom_ancestor(*root, this@) is None,
            r matches Some(rm) ==> {
                &&& rm.parent@ == this@.take(nearest_dom_ancestor(*root, this@)->0)
                &&& paths_view(rm.nodes@) == prefixed(
                    this@,
                    composing_paths(node_at(*root, this@)),
                )
            },
    {
        let parent = match find_nearest_dom_ancestor(root, this) {
            Some(p) => p,
            None => {
                return None;
            },
        };
        let len = this.len();
        let n = node_ref(root, this, len);
        assert(this@.take(len as int) =~= this@);
        let mut prefix = concat_path(this, len, None);
        let mut nodes: Vec<Vec<usize>> = Vec::new();
        composing_nodes_into(n, &mut prefix, &mut nodes);
        assert(paths_view(nodes@) =~= prefixed(this@, composing_paths(*n)));
        Some(DomRemoval { parent, nodes })
    }
}

/// Whether the node is an element (the nodes that hold event handlers).
pub open spec fn is_element(n: DomNode) -> bool {
    n.value is Element
}

/// The paths of the elements that an event bubbling from the node at
/// `path.take(k)` reaches, from that node up to `root`.
pub open spec fn bubble_from(root: DomNode, path: Seq<usize>, k: int) -> Seq<Seq<usize>>
    decreases k,
{
    let here: Seq<Seq<usize>> = if is_element(node_at(root, path.take(k))) {
        seq![path.take(k)]
    } else {
        Seq::empty()
    };
    if k <= 0 {
        here
    } else {
        here + bubble_from(root, path, k - 1)
    }
}

/// The elements, in order, whose handlers an event that bubbles from the
/// node at `target` runs: the node itself if it is an element, then each
/// element ancestor up to `root`. The bubbling stops after the handler that
/// stops the propagation of the event.
pub fn bubble_event(root: &DomNode, target: &Vec<usize>) -> (r: Vec<Vec<usize>>)
    requires
        valid_path(*root, target@),
    ensures
        paths_view(r@) == bubble_from(*root, target@, target@.len() as int),
{
    let len = target.len();
    let mut out: Vec<Vec<usize>> = Vec::new();
    let mut k: usize = len;
    loop
        invariant
            k <= len == target@.len(),
            valid_path(*root, target@),
            paths_view(out@) + bubble_from(*root, target@, k as int) == bubble_from(
                *root,
                target@,
                len as int,
            ),
        decreases k,
    {
        let n = node_ref(root, target, k);
        let ghost o0 = paths_view(out@);
        match &n.value {
            DomGeneralElement::Element(_) => {
                out.push(concat_path(target, k, None));
                assert(paths_view(out@) =~= o0.push(target@.take(k as int)));
            },
            _ => {},
        }
        if k == 0 {
            assert(paths_view(out@) =~= bubble_from(*root, target@, len as int));
            return out;
        }
        proof {
            let here: Seq<Seq<usize>> = if is_element(node_at(*root, target@.take(k as int))) {
                seq![target@.take(k as int)]
            } else {
                Seq::empty()
            };
            assert(bubble_from(*root, target@, k as int) == here + bubble_from(
                *root,
                target@,
                k - 1,
            ));
            assert(paths_view(out@) =~= o0 + here);
            assert(o0 + (here + bubble_from(*root, target@, k - 1)) =~= (o0 + here) + bubble_from(
                *root,
                target@,
                k - 1,
            ));
        }
        k = k - 1;
    }
}

/// Each node gathered for the insertion of a subtree is reached from its
/// root through virtual nodes only.
proof fn lemma_composing_through_virtual(n: DomNode, j: int)
    requires
        0 <= j < composing_paths(n).len(),
    ensures
        forall|k: int|
            0 <= k < composing_paths(n)[j].len() ==> !is_dom(
                #[trigger] node_at(n, composing_paths(n)[j].take(k)),
            ),
    decreases n,
{
    if !is_dom(n) {
        assert(n.children@.take(n.children@.len() as int) =~= n.children@);
        lemma_composing_in_through_virtual(n, n.children@.len() as int, j);
    }
}

/// `lemma_composing_through_virtual` over the first `m` children of a
/// virtual node `n`.
proof fn lemma_composing_in_through_virtual(n: DomNode, m: int, j: int)
    requires
        !is_dom(n),
        0 <= m <= n.children@.len(),
        0 <= j < composing_in(n.children@.take(m)).len(),
    ensures
        forall|k: int|
            0 <= k < composing_in(n.children@.take(m))[j].len() ==> !is_dom(
                #[trigger] node_at(n, composing_in(n.children@.take(m))[j].take(k)),
            ),
    decreases n, m,
{
    let ns = n.children@.take(m);
    assert(n.children.len() == n.children@.len());
    if m == 0 {
        assert(composing_in(ns).len() == 0);
        return;
    }
    let init = ns.subrange(0, m - 1);
    assert(init =~= n.children@.take(m - 1));
    let a = composing_in(init);
    let c = n.children@[m - 1];
    let b = composing_paths(c);
    assert(ns[m - 1] == c);
    let pb = prefixed(seq![(m - 1) as usize], b);
    assert(composing_in(ns) == a + pb);
    if j < a.len() {
        lemma_composing_in_through_virtual(n, m - 1, j);
        assert((a + pb)[j] == a[j]);
    } else {
        let jj = j - a.len();
        assert(decreases_to!(n => c));
        lemma_composing_through_virtual(c, jj);
        let q = seq![(m - 1) as usize] + b[jj];
        assert(pb[jj] == q);
        assert((a + pb)[j] == pb[jj]);
        assert forall|k: int| 0 <= k < q.len() implies !is_dom(#[trigger] node_at(n, q.take(k))) by {
            if k == 0 {
                assert(q.take(0) =~= Seq::<usize>::empty());
            } else {
                assert(q.take(k)[0] == (m - 1) as usize);
                assert(q.take(k).drop_first() =~= b[jj].take(k - 1));
                assert(node_at(n, q.take(k)) == node_at(c, b[jj].take(k - 1)));
            }
        }
    }
}

/// The DOM nodes gathered for the insertion of the node at `path` are
/// children of the same DOM node as the node itself: the nearest DOM
/// ancestor of the parent of each is that of the node's parent.
pub proof fn lemma_inserted_nodes_same_parent(root: DomNode, path: Seq<usize>, j: int)
    requires
        valid_path(root, path),
        path.len() > 0,
        0 <= j < composing_paths(node_at(root, path)).len(),
    ensures
        ({
            let q = path + composing_paths(node_at(root, path))[j];
            &&& valid_path(root, q)
            &&& is_dom(node_at(root, q))
            &&& nearest_dom_ancestor(root, q.drop_last()) == nearest_dom_ancestor(
                root,
                path.drop_last(),
            )
        }),
{
    let n = node_at(root, path);
    let x = composing_paths(n)[j];
    let q = path + x;
    lemma_composing_nodes_are_dom(n, j);
    lemma_composing_through_virtual(n, j);
    lemma_node_at_concat(root, path, x);
    let pp = path.drop_last();
    let y = seq![path.last()] + x;
    assert(pp + y =~= q);
    if x.len() == 0 {
        assert(q =~= path);
    } else {
        let z = y.drop_last();
        assert(q.drop_last() =~= pp + z);
        assert forall|k: int| 1 <= k <= z.len() implies !is_dom(
            #[trigger] node_at(root, pp + z.take(k)),
        ) by {
            assert(pp + z.take(k) =~= path + x.take(k - 1));
            lemma_node_at_concat(root, path, x.take(k - 1));
            assert(!is_dom(node_at(n, x.take(k - 1))));
        }
        lemma_nearest_through_virtual(root, pp, z);
    }
}

} // verus!
