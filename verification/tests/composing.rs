use maomi_lib::composing::{
    collect_child_frag, find_first_dom_child, find_nearest_dom_ancestor, find_next_dom_sibling,
    remove_all_children, ChildFrag,
};
use maomi_lib::composing::{bubble_event, DomInsertion, DomRemoval};
use maomi_lib::event::{MouseButton, MouseEvent};
use maomi_lib::prerender::{DomGeneralElement, DomNode, DomTextNode, PrerenderingElement};

fn text_node(s: &str) -> DomNode {
    DomNode { value: DomGeneralElement::Text(DomTextNode::new(s)), children: vec![] }
}

fn element_node(tag: &'static str, children: Vec<DomNode>) -> DomNode {
    DomNode { value: DomGeneralElement::Element(PrerenderingElement::new(tag)), children }
}

fn virtual_node(children: Vec<DomNode>) -> DomNode {
    DomNode { value: DomGeneralElement::Virtual, children }
}

#[test]
fn first_dom_child_skips_empty_virtual_nodes() {
    let n = virtual_node(vec![virtual_node(vec![]), virtual_node(vec![text_node("a")]), text_node("b")]);
    assert_eq!(find_first_dom_child(&n), Some(vec![1, 0]));
    assert_eq!(find_first_dom_child(&text_node("a")), Some(vec![]));
    assert_eq!(find_first_dom_child(&virtual_node(vec![virtual_node(vec![])])), None);
}

#[test]
fn first_dom_child_does_not_enter_elements() {
    let n = virtual_node(vec![element_node("div", vec![text_node("a")]), text_node("b")]);
    assert_eq!(find_first_dom_child(&n), Some(vec![0]));
}

#[test]
fn child_frag_gathers_dom_nodes_in_order() {
    let n = virtual_node(vec![
        text_node("a"),
        virtual_node(vec![element_node("span", vec![text_node("in")]), text_node("b")]),
        virtual_node(vec![]),
    ]);
    let expected = vec![vec![0], vec![1, 0], vec![1, 1]];
    let frag = collect_child_frag(&n);
    assert!(matches!(frag, ChildFrag::Multi(_)));
    assert_eq!(frag.dom(), Some(expected.clone()));
    assert_eq!(remove_all_children(&n), expected);
}

#[test]
fn child_frag_of_one_or_no_node() {
    let one = collect_child_frag(&virtual_node(vec![virtual_node(vec![]), text_node("x")]));
    assert!(matches!(one, ChildFrag::Single(ref p) if *p == vec![1]));
    assert_eq!(one.dom(), Some(vec![vec![1]]));
    let itself = collect_child_frag(&element_node("div", vec![text_node("x")]));
    assert!(matches!(itself, ChildFrag::Single(ref p) if p.is_empty()));
    let none = collect_child_frag(&virtual_node(vec![virtual_node(vec![])]));
    assert!(matches!(none, ChildFrag::Empty));
    assert_eq!(none.dom(), None);
    assert!(remove_all_children(&virtual_node(vec![])).is_empty());
}

#[test]
fn child_frag_add_changes_shape() {
    let mut f = ChildFrag::new();
    assert_eq!(f.dom(), None);
    f.add(vec![3]);
    assert!(matches!(f, ChildFrag::Single(_)));
    f.add(vec![4, 1]);
    assert!(matches!(f, ChildFrag::Multi(_)));
    f.add(vec![]);
    assert_eq!(f.dom(), Some(vec![vec![3], vec![4, 1], vec![]]));
}

#[test]
fn nearest_dom_ancestor_climbs_virtual_nodes() {
    let root = element_node(
        "div",
        vec![virtual_node(vec![virtual_node(vec![text_node("a")])]), element_node("p", vec![virtual_node(vec![])])],
    );
    assert_eq!(find_nearest_dom_ancestor(&root, &vec![0, 0]), Some(vec![]));
    assert_eq!(find_nearest_dom_ancestor(&root, &vec![0, 0, 0]), Some(vec![0, 0, 0]));
    assert_eq!(find_nearest_dom_ancestor(&root, &vec![1, 0]), Some(vec![1]));
    assert_eq!(find_nearest_dom_ancestor(&root, &vec![]), Some(vec![]));
    let all_virtual = virtual_node(vec![virtual_node(vec![])]);
    assert_eq!(find_nearest_dom_ancestor(&all_virtual, &vec![0]), None);
}

#[test]
fn next_dom_sibling_searches_following_siblings() {
    let root = element_node(
        "div",
        vec![virtual_node(vec![text_node("a")]), virtual_node(vec![]), virtual_node(vec![virtual_node(vec![]), text_node("c")])],
    );
    assert_eq!(find_next_dom_sibling(&root, &vec![0]), Some(vec![2, 1]));
    assert_eq!(find_next_dom_sibling(&root, &vec![0, 0]), Some(vec![2, 1]));
    assert_eq!(find_next_dom_sibling(&root, &vec![2, 1]), None);
    assert_eq!(find_next_dom_sibling(&root, &vec![]), None);
}

#[test]
fn next_dom_sibling_stops_at_dom_parent() {
    let root = virtual_node(vec![element_node("p", vec![text_node("x")]), text_node("y")]);
    assert_eq!(find_next_dom_sibling(&root, &vec![0, 0]), None);
    assert_eq!(find_next_dom_sibling(&root, &vec![0]), Some(vec![1]));
    assert_eq!(find_next_dom_sibling(&root, &vec![1]), None);
}

#[test]
fn append_inserts_before_following_dom_node() {
    // div > [ virtual > [ text a, virtual > [ text new ] ], text c ]
    let root = element_node(
        "div",
        vec![virtual_node(vec![text_node("a"), virtual_node(vec![text_node("new")])]), text_node("c")],
    );
    let r: Option<DomInsertion> = DomGeneralElement::append(&root, &vec![0]);
    let ins = r.unwrap();
    assert_eq!(ins.parent, Vec::<usize>::new());
    assert_eq!(ins.nodes, vec![vec![0, 1, 0]]);
    assert_eq!(ins.before, Some(vec![1]));
}

#[test]
fn append_of_empty_subtree_or_without_dom_parent() {
    let root = element_node("div", vec![virtual_node(vec![])]);
    assert!(DomGeneralElement::append(&root, &vec![]).is_none());
    let all_virtual = virtual_node(vec![text_node("a")]);
    assert!(DomGeneralElement::append(&all_virtual, &vec![]).is_none());
    let root = element_node("p", vec![text_node("x"), element_node("b", vec![])]);
    let ins = DomGeneralElement::append(&root, &vec![]).unwrap();
    assert_eq!(ins.parent, Vec::<usize>::new());
    assert_eq!(ins.nodes, vec![vec![1]]);
    assert_eq!(ins.before, None);
}

#[test]
fn insert_composes_from_target_itself() {
    let root = element_node("div", vec![virtual_node(vec![text_node("a"), text_node("b")]), text_node("c")]);
    let ins = DomGeneralElement::insert(&root, &vec![0]).unwrap();
    assert_eq!(ins.parent, Vec::<usize>::new());
    assert_eq!(ins.nodes, vec![vec![0, 0], vec![0, 1]]);
    assert_eq!(ins.before, Some(vec![1]));
    let own = DomGeneralElement::insert(&root, &vec![1]).unwrap();
    assert_eq!(own.parent, vec![1]);
    assert_eq!(own.nodes, vec![vec![1]]);
    assert_eq!(own.before, None);
}

#[test]
fn detach_removes_dom_nodes_of_subtree() {
    let root = element_node("div", vec![virtual_node(vec![text_node("a"), virtual_node(vec![text_node("b")])])]);
    let rm: DomRemoval = DomGeneralElement::detach(&root, &vec![0]).unwrap();
    assert_eq!(rm.parent, Vec::<usize>::new());
    assert_eq!(rm.nodes, vec![vec![0, 0], vec![0, 1, 0]]);
    let all_virtual = virtual_node(vec![virtual_node(vec![])]);
    assert!(DomGeneralElement::detach(&all_virtual, &vec![0]).is_none());
    let empty = DomGeneralElement::detach(&root, &vec![0, 1]).unwrap();
    assert_eq!(empty.nodes, vec![vec![0, 1, 0]]);
}

#[test]
fn bubbling_reaches_elements_upward() {
    let root = element_node(
        "div",
        vec![virtual_node(vec![element_node("span", vec![text_node("t")])])],
    );
    assert_eq!(bubble_event(&root, &vec![0, 0, 0]), vec![vec![0, 0], vec![]]);
    assert_eq!(bubble_event(&root, &vec![0, 0]), vec![vec![0, 0], vec![]]);
    assert_eq!(bubble_event(&root, &vec![0]), vec![Vec::<usize>::new()]);
    let no_element = virtual_node(vec![text_node("t")]);
    assert!(bubble_event(&no_element, &vec![0]).is_empty());
}

#[test]
fn mouse_button_numbers() {
    let buttons: Vec<MouseButton> =
        (-1i16..6).map(|b| MouseEvent::new(b, 0, 0, false, false, false, false).button()).collect();
    assert_eq!(
        buttons,
        vec![
            MouseButton::Unknown(-1),
            MouseButton::Main,
            MouseButton::Auxiliary,
            MouseButton::Secondary,
            MouseButton::Fourth,
            MouseButton::Fifth,
            MouseButton::Unknown(5),
        ]
    );
}

#[test]
fn mouse_event_stops_once() {
    let mut e = MouseEvent::new(0, 3, -4, true, false, true, false);
    assert_eq!((e.client_x(), e.client_y()), (3, -4));
    assert!(e.alt_key() && !e.ctrl_key() && e.meta_key() && !e.shift_key());
    assert!(!e.propagation_stopped());
    assert!(e.stop_propagation());
    assert!(!e.stop_propagation());
    assert!(e.propagation_stopped());
    assert!(!e.default_prevented());
    assert!(e.prevent_default());
    assert!(!e.prevent_default());
    assert!(e.default_prevented());
}
