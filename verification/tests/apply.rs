use maomi_lib::apply::{apply_prerendered, ApplyError, DomShape, ShapeKind};
use maomi_lib::prerender::{DomGeneralElement, DomNode, DomTextNode, PrerenderingElement};

fn text_leaf(s: &str) -> DomNode {
    DomNode { value: DomGeneralElement::Text(DomTextNode::new(s)), children: vec![] }
}

fn element_of(tag: &'static str, children: Vec<DomNode>) -> DomNode {
    DomNode { value: DomGeneralElement::Element(PrerenderingElement::new(tag)), children }
}

fn virtual_of(children: Vec<DomNode>) -> DomNode {
    DomNode { value: DomGeneralElement::Virtual, children }
}

fn shape(kind: ShapeKind, children: Vec<DomShape>) -> DomShape {
    DomShape { kind, children }
}

#[test]
fn applies_dom_of_written_html() {
    // <div>a<!---->b<span>c</span></div>
    let tree = element_of(
        "div",
        vec![text_leaf("a"), text_leaf("b"), virtual_of(vec![element_of("span", vec![text_leaf("c")])])],
    );
    assert_eq!(
        DomGeneralElement::outer_html(&tree),
        "<div>a<!---->b<span>c</span></div>"
    );
    let dom = vec![shape(
        ShapeKind::Element,
        vec![
            shape(ShapeKind::Text, vec![]),
            shape(ShapeKind::Comment, vec![]),
            shape(ShapeKind::Text, vec![]),
            shape(ShapeKind::Element, vec![shape(ShapeKind::Text, vec![])]),
        ],
    )];
    let matched = apply_prerendered(&tree, &dom).unwrap();
    assert_eq!(matched, vec![vec![0], vec![0, 0], vec![0, 2], vec![0, 3], vec![0, 3, 0]]);
}

#[test]
fn apply_fails_on_missing_dom_node() {
    let tree = element_of("div", vec![text_leaf("a"), text_leaf("b")]);
    let dom = vec![shape(ShapeKind::Element, vec![shape(ShapeKind::Text, vec![])])];
    assert!(matches!(apply_prerendered(&tree, &dom), Err(ApplyError::MissingNode)));
    assert!(matches!(apply_prerendered(&tree, &vec![]), Err(ApplyError::MissingNode)));
}

#[test]
fn apply_virtual_root_and_empty_children() {
    let tree = virtual_of(vec![virtual_of(vec![]), element_of("p", vec![])]);
    let dom = vec![shape(ShapeKind::Element, vec![])];
    assert_eq!(apply_prerendered(&tree, &dom).unwrap(), vec![vec![0]]);
    let empty = virtual_of(vec![]);
    assert_eq!(apply_prerendered(&empty, &vec![]).unwrap(), Vec::<Vec<usize>>::new());
}
