use maomi_lib::component::{BackendParam, ComponentAttr, ComponentAttrItem, ComponentBody, ComponentField, ComponentItem};
use maomi_lib::token_parse::{Ident, Literal, LiteralToken, Punct, TokenTree};
use proc_macro2::Span;

fn word(n: &str) -> TokenTree {
    TokenTree::Ident(Ident { span: Span::call_site(), name: n.to_string(), keyword: false })
}

fn keyword(n: &str) -> TokenTree {
    TokenTree::Ident(Ident { span: Span::call_site(), name: n.to_string(), keyword: true })
}

fn punct(ch: char) -> TokenTree {
    TokenTree::Punct(Punct { span: Span::call_site(), ch, joint: false })
}

fn joint(ch: char) -> TokenTree {
    TokenTree::Punct(Punct { span: Span::call_site(), ch, joint: true })
}

fn text(s: &str) -> TokenTree {
    TokenTree::Literal(LiteralToken { span: Span::call_site(), lit: Literal::Str(s.to_string()) })
}

fn attr(ts: Vec<TokenTree>) -> Result<ComponentAttr, String> {
    ComponentAttr::parse(&ts, Span::call_site()).map_err(|e| e.message)
}

fn field(name: &str, template: Option<Vec<TokenTree>>) -> ComponentField {
    ComponentField { ident: Some(name.to_string()), template: template.map(|t| (t, Span::call_site(), Span::call_site())) }
}

fn item(named: bool, fields: Vec<ComponentField>) -> ComponentItem {
    ComponentItem { ident: "MyComp".to_string(), generic_names: vec!["T".to_string()], named, span: Span::call_site(), fields }
}

#[test]
fn attribute_parameters() {
    let a = attr(vec![word("Backend"), punct('='), keyword("impl"), word("maomi"), joint(':'), punct(':'), word("B"), punct(','), word("SlotData"), punct('='), word("D"), punct(',')]);
    let a = a.unwrap();
    assert_eq!(a.items.len(), 2);
    match &a.items[0] {
        ComponentAttrItem::Backend { name: 0, impl_token: true, .. } => {}
        _ => panic!(),
    }
    assert!(attr(vec![]).unwrap().items.is_empty());
    assert_eq!(attr(vec![word("Other"), punct('='), word("X")]).err().unwrap(), "Unknown attribute parameter");
    assert_eq!(attr(vec![word("SlotData"), word("X")]).err().unwrap(), "expected `=`");
    assert_eq!(attr(vec![word("SlotData"), punct('='), word("X"), word("Y")]).err().unwrap(), "expected `,`");
}

#[test]
fn component_body_from_struct() {
    let a = attr(vec![word("Backend"), punct('='), word("DomBackend")]).unwrap();
    let b = ComponentBody::new(&a, &item(true, vec![field("x", None), field("template", Some(vec![text("hello")]))])).unwrap();
    assert_eq!(b.name, "MyComp");
    assert_eq!(b.generic_names, vec!["T".to_string()]);
    assert!(matches!(&b.backend, BackendParam::Concrete((false, p)) if *p == vec!["DomBackend".to_string()]));
    assert!(b.slot_data.is_none());
    assert_eq!(b.template_field, 1);
    assert_eq!(b.template.unwrap().len(), 1);
    let none = attr(vec![]).unwrap();
    let d = ComponentBody::new(&none, &item(true, vec![field("t", Some(vec![word("bad")]))])).unwrap();
    assert!(matches!(d.backend, BackendParam::Default));
    assert!(d.template.is_err());
}

#[test]
fn component_body_errors() {
    let none = attr(vec![]).unwrap();
    let e = |a: &ComponentAttr, i: ComponentItem| ComponentBody::new(a, &i).err().unwrap().message;
    assert_eq!(e(&none, item(false, vec![])), "a component struct must be a named struct");
    assert_eq!(e(&none, item(true, vec![field("x", None)])), "a component struct must contain a `template!` field");
    assert_eq!(
        e(&none, item(true, vec![field("a", Some(vec![])), field("b", Some(vec![]))])),
        "a component struct can only contain one `template!` field"
    );
    let dup = attr(vec![word("SlotData"), punct('='), word("A"), punct(','), word("SlotData"), punct('='), word("B")]).unwrap();
    assert_eq!(e(&dup, item(true, vec![field("t", Some(vec![]))])), "Duplicated attribute parameter");
}
