use maomi_lib::component::{ComponentAttr, ComponentBody, ComponentField, ComponentItem};
use maomi_lib::i18n::LocaleGroup;
use maomi_lib::i18n_format::LocaleNamespace;
use maomi_lib::template::PropValue;
use maomi_lib::template_code::{
    create_attr_codes, list_init_codes, slot_data_code, template_create_code, template_create_codes,
    template_update_code, template_update_codes, update_attr_codes, CreateCode, SlotData, UpdateCode,
};
use maomi_lib::template_node::{parse_template, TemplateNode};
use maomi_lib::token_parse::{Delimiter, Group, Ident, Literal, LiteralToken, Punct, TokenTree};
use proc_macro2::Span;

fn id(n: &str) -> TokenTree {
    TokenTree::Ident(Ident { span: Span::call_site(), name: n.to_string(), keyword: false })
}

fn kwd(n: &str) -> TokenTree {
    TokenTree::Ident(Ident { span: Span::call_site(), name: n.to_string(), keyword: true })
}

fn pc(ch: char) -> TokenTree {
    TokenTree::Punct(Punct { span: Span::call_site(), ch, joint: false })
}

fn strlit(s: &str) -> TokenTree {
    TokenTree::Literal(LiteralToken { span: Span::call_site(), lit: Literal::Str(s.to_string()) })
}

fn intlit(v: i32) -> TokenTree {
    TokenTree::Literal(LiteralToken { span: Span::call_site(), lit: Literal::Int(Ok(v)) })
}

fn brace(stream: Vec<TokenTree>) -> TokenTree {
    TokenTree::Group(Group {
        span: Span::call_site(),
        span_open: Span::call_site(),
        span_close: Span::call_site(),
        delimiter: Delimiter::Brace,
        stream,
    })
}

fn nodes(ts: &Vec<TokenTree>) -> Vec<TemplateNode> {
    parse_template(ts, Span::call_site()).map_err(|e| e.message).unwrap()
}

fn ns(name: &str, entries: &[(&str, &str)]) -> LocaleNamespace {
    LocaleNamespace {
        name: name.to_string(),
        entries: entries.iter().map(|(a, b)| (a.to_string(), b.to_string())).collect(),
    }
}

#[test]
fn static_text_translation() {
    let ts = vec![strlit("abc"), strlit("xyz")];
    let n = nodes(&ts);
    let none = LocaleGroup::get_default(None, false);
    assert!(matches!(template_create_code(&ts, &n[0], false, &none), CreateCode::StaticText { pos: 0, text: Ok(t), .. } if t == "abc"));
    let locale = vec![ns("translation", &[("abc", "def")])];
    let g = LocaleGroup::get_default(Some(&locale), false);
    assert!(matches!(template_create_code(&ts, &n[0], false, &g), CreateCode::StaticText { pos: 0, text: Ok(t), .. } if t == "def"));
    assert!(matches!(template_create_code(&ts, &n[1], false, &g), CreateCode::StaticText { pos: 1, text: Err(m), .. } if m == "lacks translation"));
    let other = LocaleGroup::get(Some(&locale), false, "other");
    assert!(matches!(template_create_code(&ts, &n[0], false, &other), CreateCode::StaticText { text: Err(m), .. } if m == "translation group \"other\" not found"));
    assert!(matches!(template_update_code(&ts, &n[0], 0, &g), UpdateCode::Nothing));
    assert!(matches!(template_create_code(&ts, &n[0], false, &g), CreateCode::StaticText { record: None, .. }));
    let rec = LocaleGroup::get_default(Some(&locale), true);
    match template_create_code(&ts, &n[1], false, &rec) {
        CreateCode::StaticText { record: Some(r), .. } => {
            assert_eq!((r.namespace.as_str(), r.src.as_str(), r.translated), ("translation", "xyz", None));
        }
        _ => panic!(),
    }
    match template_create_code(&ts, &n[0], false, &rec) {
        CreateCode::StaticText { record: Some(r), .. } => assert_eq!(r.translated, Some("def".to_string())),
        _ => panic!(),
    }
}

#[test]
fn dynamic_text_code() {
    let ts = vec![strlit("a"), brace(vec![id("x")])];
    let n = nodes(&ts);
    let none = LocaleGroup::get_default(None, false);
    let locale = vec![ns("translation", &[])];
    let g = LocaleGroup::get_default(Some(&locale), false);
    assert!(matches!(template_create_code(&ts, &n[1], false, &none), CreateCode::DynamicText { braces: 1, wrap: true }));
    assert!(matches!(template_create_code(&ts, &n[1], false, &g), CreateCode::DynamicText { braces: 1, wrap: false }));
    let u = template_update_codes(&ts, &n, &none);
    assert_eq!(u.len(), 2);
    assert!(matches!(u[0], UpdateCode::Nothing));
    assert!(matches!(u[1], UpdateCode::SetText { child: 1, braces: 1, wrap: true }));
}

#[test]
fn element_list_properties() {
    // <div class:a="x" class:b={y} style:c="z" title="t" tap=@f(1) hover=@g()></div>
    let ts = vec![
        pc('<'), id("div"),
        id("class"), pc(':'), id("a"), pc('='), strlit("x"),
        id("class"), pc(':'), id("b"), pc('='), brace(vec![id("y")]),
        id("style"), pc(':'), id("c"), pc('='), strlit("z"),
        id("title"), pc('='), strlit("t"),
        id("tap"), pc('='), pc('@'), id("f"), TokenTree::Group(Group {
            span: Span::call_site(), span_open: Span::call_site(), span_close: Span::call_site(),
            delimiter: Delimiter::Parenthesis, stream: vec![intlit(1)],
        }),
        id("hover"), pc('='), pc('@'), id("g"), TokenTree::Group(Group {
            span: Span::call_site(), span_open: Span::call_site(), span_close: Span::call_site(),
            delimiter: Delimiter::Parenthesis, stream: vec![],
        }),
        pc('>'), pc('<'), pc('/'), id("div"), pc('>'),
    ];
    let n = nodes(&ts);
    let attrs = match &n[0] {
        TemplateNode::Tag { attrs, .. } => attrs,
        _ => panic!(),
    };
    assert_eq!(attrs.len(), 6);
    assert_eq!(create_attr_codes(&ts, attrs), vec![(0, 0), (1, 1), (2, 0), (3, 0), (4, 0), (5, 0)]);
    assert_eq!(list_init_codes(&ts, attrs), vec![(0, 2), (2, 1)]);
    assert_eq!(update_attr_codes(&ts, attrs), vec![(1, 1), (4, 0)]);
    let none = LocaleGroup::get_default(None, false);
    match template_create_code(&ts, &n[0], false, &none) {
        CreateCode::Tag { tag: 0, slot_var: None, list_inits, attrs, children } => {
            assert_eq!(list_inits, vec![(0, 2), (2, 1)]);
            assert_eq!(attrs.len(), 6);
            assert!(children.is_empty());
        }
        _ => panic!(),
    }
    match template_update_code(&ts, &n[0], 3, &none) {
        UpdateCode::Tag { child: 3, attrs, .. } => assert_eq!(attrs, vec![(1, 1), (4, 0)]),
        _ => panic!(),
    }
}

#[test]
fn slot_data_forms() {
    // <slot /> <slot data="s" /> <slot data=5 /> <slot data /> <slot data=&{d} />
    let ts = vec![
        pc('<'), id("slot"), pc('/'), pc('>'),
        pc('<'), id("slot"), id("data"), pc('='), strlit("s"), pc('/'), pc('>'),
        pc('<'), id("slot"), id("data"), pc('='), intlit(5), pc('/'), pc('>'),
        pc('<'), id("slot"), id("data"), pc('/'), pc('>'),
        pc('<'), id("slot"), id("data"), pc('='), pc('&'), brace(vec![id("d")]), pc('/'), pc('>'),
    ];
    let n = nodes(&ts);
    assert_eq!(n.len(), 5);
    let data = |i: usize| match &n[i] {
        TemplateNode::Slot { data, .. } => slot_data_code(&ts, data),
        _ => panic!(),
    };
    assert!(matches!(data(0), SlotData::Unit));
    assert!(matches!(data(1), SlotData::Direct(PropValue::Literal(8))));
    assert!(matches!(data(2), SlotData::Ref(PropValue::Literal(15))));
    assert!(matches!(data(3), SlotData::Ref(PropValue::ImpliedTrue)));
    assert!(matches!(data(4), SlotData::Direct(PropValue::Dynamic { by_ref: true, braces: 28 })));
    let none = LocaleGroup::get_default(None, false);
    assert!(matches!(template_create_code(&ts, &n[0], true, &none), CreateCode::Slot { tag: 0, data: SlotData::Unit, added: true }));
    assert!(matches!(template_update_code(&ts, &n[1], 1, &none), UpdateCode::Slot { child: 1, data: SlotData::Direct(_) }));
}

#[test]
fn branches_and_loops() {
    // if a { "x" } else { {y} } ; match m { _ => { "z" } } ; for i in it { "w" }
    let ts = vec![
        kwd("if"), id("a"), brace(vec![strlit("x")]), kwd("else"), brace(vec![brace(vec![id("y")])]),
        kwd("match"), id("m"), brace(vec![kwd("_"), TokenTree::Punct(Punct { span: Span::call_site(), ch: '=', joint: true }), pc('>'), brace(vec![strlit("z")])]),
        kwd("for"), id("i"), kwd("in"), id("it"), brace(vec![strlit("w")]),
    ];
    let n = nodes(&ts);
    assert_eq!(n.len(), 3);
    let locale = vec![ns("translation", &[("x", "X"), ("z", "Z"), ("w", "W")])];
    let g = LocaleGroup::get_default(Some(&locale), false);
    let c = template_create_codes(&ts, &n, false, &g);
    match &c[0] {
        CreateCode::Branches { count: 2, arms } => {
            assert!(matches!(&arms[0][0], CreateCode::StaticText { pos: 0, text: Ok(t), .. } if t == "X"));
            assert!(matches!(&arms[1][0], CreateCode::DynamicText { braces: 0, wrap: false }));
        }
        _ => panic!(),
    }
    match &c[1] {
        CreateCode::Branches { count: 1, arms } => {
            assert!(matches!(&arms[0][0], CreateCode::StaticText { text: Ok(t), .. } if t == "Z"));
        }
        _ => panic!(),
    }
    match &c[2] {
        CreateCode::ForLoop { keyed: false, children } => {
            assert!(matches!(&children[0], CreateCode::StaticText { text: Ok(t), .. } if t == "W"));
        }
        _ => panic!(),
    }
    let u = template_update_codes(&ts, &n, &g);
    match &u[0] {
        UpdateCode::Branches { child: 0, count: 2, arms } => {
            assert!(matches!(&arms[1].0[0], CreateCode::DynamicText { .. }));
            assert!(matches!(&arms[1].1[0], UpdateCode::SetText { child: 0, wrap: false, .. }));
        }
        _ => panic!(),
    }
    assert!(matches!(&u[2], UpdateCode::ForLoop { child: 2, keyed: false, .. }));
}

#[test]
fn component_code_parts() {
    let field = |name: &str, t: Option<Vec<TokenTree>>| ComponentField { ident: Some(name.to_string()), template: t.map(|t| (t, Span::call_site(), Span::call_site())) };
    let tpl = || vec![strlit("hi"), brace(vec![id("x")])];
    let template = tpl();
    let item = ComponentItem {
        ident: "C".to_string(),
        generic_names: vec![],
        named: true,
        span: Span::call_site(),
        fields: vec![field("a", None), field("t", Some(tpl()))],
    };
    let attr = ComponentAttr::parse(&vec![], Span::call_site()).map_err(|e| e.message).unwrap();
    let body = ComponentBody::new(&attr, &item).map_err(|e| e.message).unwrap();
    let none = LocaleGroup::get_default(None, false);
    let code = body.code(&template, &none);
    assert!(matches!(code.impl_param, Some(None)));
    assert!(code.backend.is_none());
    assert!(code.slot_data.is_none());
    assert_eq!(code.template_field, 1);
    let (c, u) = code.template.map_err(|e| e.message).unwrap();
    assert_eq!((c.len(), u.len()), (2, 2));
    assert!(matches!(&u[1], UpdateCode::SetText { child: 1, .. }));

    let ts = vec![id("Backend"), pc('='), id("Dom"), pc(','), id("SlotData"), pc('='), id("D")];
    let attr = ComponentAttr::parse(&ts, Span::call_site()).map_err(|e| e.message).unwrap();
    let body = ComponentBody::new(&attr, &item).map_err(|e| e.message).unwrap();
    let code = body.code(&template, &none);
    assert!(code.impl_param.is_none());
    assert_eq!(code.backend, Some((false, vec!["Dom".to_string()])));
    assert_eq!(code.slot_data, Some((false, vec!["D".to_string()])));

    let bad = ComponentItem { fields: vec![field("t", Some(vec![id("oops")]))], ..item };
    let body = ComponentBody::new(&attr, &bad).map_err(|e| e.message).unwrap();
    assert!(body.code(&vec![id("oops")], &none).template.is_err());
}

#[test]
fn keyed_loop_and_nested_element() {
    // for i in it use k { <p title={t}></p> }
    let ts = vec![
        kwd("for"), id("i"), kwd("in"), id("it"), kwd("use"), id("k"),
        brace(vec![pc('<'), id("p"), id("title"), pc('='), brace(vec![id("t")]), pc('>'), pc('<'), pc('/'), id("p"), pc('>')]),
    ];
    let n = nodes(&ts);
    let none = LocaleGroup::get_default(None, false);
    match template_create_code(&ts, &n[0], false, &none) {
        CreateCode::ForLoop { keyed: true, children } => match &children[0] {
            CreateCode::Tag { attrs, list_inits, .. } => {
                assert_eq!(attrs, &vec![(0, 0)]);
                assert!(list_inits.is_empty());
            }
            _ => panic!(),
        },
        _ => panic!(),
    }
    match template_update_code(&ts, &n[0], 0, &none) {
        UpdateCode::ForLoop { child: 0, keyed: true, create_children, update_children } => {
            assert!(matches!(&create_children[0], CreateCode::Tag { .. }));
            assert!(matches!(&update_children[0], UpdateCode::Tag { child: 0, attrs, .. } if attrs == &vec![(0, 0)]));
        }
        _ => panic!(),
    }
}
