use maomi_lib::class_list::{DomClassList, DomExternalClasses};
use maomi_lib::custom_attr::{AttrChange, DomBoolAttr, DomCustomAttrs, DomStrAttr};
use maomi_lib::element::{div, label, site, span, table};
use maomi_lib::prerender::{DomGeneralElement, DomNode, DomTextNode, PrerenderingElement, WriteHtmlState};

fn text(s: &str) -> DomNode {
    DomNode { value: DomGeneralElement::Text(DomTextNode::new(s)), children: vec![] }
}

fn elem(e: PrerenderingElement, children: Vec<DomNode>) -> DomNode {
    DomNode { value: DomGeneralElement::Element(e), children }
}

#[test]
fn external_classes_passed_to_an_element() {
    let mut ext = DomExternalClasses::new();
    ext.init_items(2);
    assert!(ext.compare_and_set_class(0, "a", true));
    assert!(!ext.compare_and_set_class(0, "a", true));
    assert!(!ext.compare_and_set_class(1, "b", false));

    let mut list = DomClassList::new();
    list.init_list(1);
    let mut toggles = vec![];
    list.compare_and_set_external(0, &ext, &mut toggles);
    assert_eq!(toggles, vec![("a", true)]);

    // the same instance, changed: only the difference is toggled
    assert!(ext.compare_and_set_class(0, "a", false));
    let mut toggles = vec![];
    list.compare_and_set_external(0, &ext, &mut toggles);
    assert_eq!(toggles, vec![("a", false)]);

    // no change: nothing is toggled
    let mut toggles = vec![];
    list.compare_and_set_external(0, &ext, &mut toggles);
    assert!(toggles.is_empty());
}

#[test]
fn external_classes_of_another_instance_switch_all() {
    let mut ext = DomExternalClasses::new();
    ext.init_items(1);
    ext.compare_and_set_class(0, "a", true);
    let mut list = DomClassList::new();
    list.init_list(1);
    let mut toggles = vec![];
    list.compare_and_set_external(0, &ext, &mut toggles);
    assert_eq!(toggles, vec![("a", true)]);

    let mut other = DomExternalClasses::new();
    other.init_items(1);
    other.compare_and_set_class(0, "c", true);
    let mut toggles = vec![];
    list.compare_and_set_external(0, &other, &mut toggles);
    assert_eq!(toggles, vec![("a", false), ("c", true)]);
    // the kept value still is the first instance, so it is switched again
    let mut toggles = vec![];
    list.compare_and_set_external(0, &other, &mut toggles);
    assert_eq!(toggles, vec![("a", false), ("c", true)]);
}

#[test]
fn nested_external_classes() {
    let mut inner = DomExternalClasses::new();
    inner.init_items(1);
    inner.compare_and_set_class(0, "x", true);
    let mut outer = DomExternalClasses::new();
    outer.init_items(2);
    outer.compare_and_set_class(0, "y", true);
    assert!(outer.compare_and_set_external(1, &inner));
    let mut toggles = vec![];
    let copy = outer.init_list(&mut toggles);
    assert_eq!(toggles, vec![("y", true), ("x", true)]);
    let mut toggles = vec![];
    copy.deinit_list(&mut toggles);
    assert_eq!(toggles, vec![("y", false), ("x", false)]);
}

#[test]
fn element_class_slots_toggle_on_change() {
    let mut list = DomClassList::new();
    list.init_list(2);
    let mut toggles = vec![];
    list.compare_and_set_class(0, "a", true, &mut toggles);
    list.compare_and_set_class(1, "b", false, &mut toggles);
    list.compare_and_set_class(0, "a", true, &mut toggles);
    list.compare_and_set_class(0, "a", false, &mut toggles);
    assert_eq!(toggles, vec![("a", true), ("a", false)]);
}

#[test]
fn custom_attrs_write_changes_only() {
    let mut attrs = DomCustomAttrs::new();
    attrs.init_list(2);
    let c = attrs.compare_and_set_str(0, "role", "button");
    assert!(matches!(c, Some(AttrChange::SetValue("role", ref v)) if v == "button"));
    assert!(attrs.compare_and_set_str(0, "role", "button").is_none());
    let c = attrs.compare_and_set_str(0, "role", "link");
    assert!(matches!(c, Some(AttrChange::SetValue("role", ref v)) if v == "link"));
    let c = attrs.compare_and_set_bool(1, "hidden", true);
    assert!(matches!(c, Some(AttrChange::SetValue("hidden", ref v)) if v.is_empty()));
    assert!(attrs.compare_and_set_bool(1, "hidden", true).is_none());
    let c = attrs.compare_and_set_bool(1, "hidden", false);
    assert!(matches!(c, Some(AttrChange::Remove("hidden"))));
    assert!(attrs.compare_and_set_bool(1, "hidden", false).is_none());
}

#[test]
fn str_and_bool_attrs() {
    let mut a = DomStrAttr::new("title", String::new());
    assert!(a.compare_and_set_ref("").is_none());
    assert!(matches!(a.compare_and_set_ref("hi"), Some(AttrChange::SetValue("title", ref v)) if v == "hi"));
    assert_eq!(a.value(), "hi");
    let mut b = DomBoolAttr::new("disabled", false);
    assert!(b.compare_and_set_ref(false).is_none());
    assert!(matches!(b.compare_and_set_ref(true), Some(AttrChange::SetValue("disabled", ref v)) if v.is_empty()));
    assert!(matches!(b.compare_and_set_ref(false), Some(AttrChange::Remove("disabled"))));
    assert!(!b.value());
}

#[test]
fn prerendered_element_html() {
    let mut e = PrerenderingElement::new("div");
    e.set_class_count(3);
    e.set_class(0, "a");
    e.set_class(2, "c");
    e.set_attribute("title", "x<y\"&z>".to_string());
    let node = elem(e, vec![text("a&b"), text("c<d>")]);
    assert_eq!(
        DomGeneralElement::outer_html(&node),
        "<div class=\"a c\" title=\"x&lt;y&quot;&amp;z&gt;\">a&amp;b<!---->c&lt;d></div>"
    );
    assert_eq!(DomGeneralElement::inner_html(&node), "a&amp;b<!---->c&lt;d>");
}

#[test]
fn prerendered_tree_with_virtual_nodes() {
    let virt = DomNode { value: DomGeneralElement::Virtual, children: vec![text("x"), text("y")] };
    let node = elem(PrerenderingElement::new("p"), vec![virt, elem(PrerenderingElement::new("br"), vec![]), text("z")]);
    assert_eq!(DomGeneralElement::outer_html(&node), "<p>x<!---->y<br></br>z</p>");
    let mut out = String::new();
    let mut state = WriteHtmlState::new();
    state.prev_is_text_node = true;
    DomGeneralElement::write_outer_html(&text("t"), &mut out, &mut state);
    assert_eq!(out, "<!---->t");
    assert!(state.prev_is_text_node);
}

#[test]
fn attributes_set_and_removed() {
    let mut e = PrerenderingElement::new("a");
    e.set_attribute("href", "/x".to_string());
    e.set_attribute("title", "t".to_string());
    e.set_attribute("rel", "r".to_string());
    e.set_attribute("href", "/y".to_string());
    let node = elem(e, vec![]);
    assert_eq!(DomGeneralElement::outer_html(&node), "<a href=\"/y\" title=\"t\" rel=\"r\"></a>");
    let mut e = PrerenderingElement::new("a");
    e.set_attribute("href", "/x".to_string());
    e.set_attribute("title", "t".to_string());
    e.set_attribute("rel", "r".to_string());
    e.remove_attribute("href");
    e.remove_attribute("missing");
    let node = elem(e, vec![]);
    assert_eq!(DomGeneralElement::outer_html(&node), "<a rel=\"r\" title=\"t\"></a>");
}

#[test]
fn class_slots_resize() {
    let mut e = PrerenderingElement::new("i");
    e.set_class_count(2);
    e.set_class(0, "a");
    e.set_class(1, "b");
    e.set_class_count(1);
    e.set_class_count(2);
    let node = elem(e, vec![]);
    assert_eq!(DomGeneralElement::outer_html(&node), "<i class=\"a\"></i>");
}

#[test]
fn text_node_set_text() {
    let mut t = DomTextNode::new("a");
    assert!(!t.set_text("a"));
    assert!(t.set_text("b"));
    assert_eq!(t.text_content(), "b");
}

#[test]
fn element_types_create_their_tags() {
    let d = div::new();
    assert_eq!(d.base.elem.tag_name(), "div");
    let node = elem(d.base.elem, vec![]);
    assert_eq!(DomGeneralElement::outer_html(&node), "<div></div>");
    assert_eq!(span::new().base.elem.tag_name(), "span");
    assert_eq!(table::new().base.elem.tag_name(), "table");
    assert_eq!(site::new().base.elem.tag_name(), "site");
    let l = label::new();
    assert_eq!(l.base.elem.tag_name(), "label");
    assert_eq!(l.html_for.value(), "");
}

#[test]
fn attr_changes_apply_to_prerendered_elements() {
    let mut attrs = DomCustomAttrs::new();
    attrs.init_list(1);
    let mut e = PrerenderingElement::new("b");
    if let Some(c) = attrs.compare_and_set_bool(0, "hidden", true) {
        e.apply_attr_change(c);
    }
    assert_eq!(DomGeneralElement::outer_html(&elem(e, vec![])), "<b hidden=\"\"></b>");
    let mut e = PrerenderingElement::new("b");
    e.set_attribute("hidden", String::new());
    if let Some(c) = attrs.compare_and_set_bool(0, "hidden", false) {
        e.apply_attr_change(c);
    }
    assert_eq!(DomGeneralElement::outer_html(&elem(e, vec![])), "<b></b>");
}
