use maomi_lib::template::{PropValue, TemplateAttribute};
use maomi_lib::template_node::{parse_template, TemplateNode};
use maomi_lib::token_parse::{Delimiter, Group, Ident, Literal, LiteralToken, Punct, TokenTree};
use proc_macro2::Span;

fn id(n: &str) -> TokenTree {
    TokenTree::Ident(Ident { span: Span::call_site(), name: n.to_string(), keyword: false })
}

fn kwd(n: &str) -> TokenTree {
    TokenTree::Ident(Ident { span: Span::call_site(), name: n.to_string(), keyword: true })
}

fn pc(ch: char, joint: bool) -> TokenTree {
    TokenTree::Punct(Punct { span: Span::call_site(), ch, joint })
}

fn strlit(s: &str) -> TokenTree {
    TokenTree::Literal(LiteralToken { span: Span::call_site(), lit: Literal::Str(s.to_string()) })
}

fn grp(delimiter: Delimiter, stream: Vec<TokenTree>) -> TokenTree {
    TokenTree::Group(Group { span: Span::call_site(), span_open: Span::call_site(), span_close: Span::call_site(), delimiter, stream })
}

fn attr(ts: Vec<TokenTree>) -> Result<(TemplateAttribute, usize), String> {
    TemplateAttribute::parse(&ts, 0, Span::call_site()).map_err(|e| e.message)
}

#[test]
fn property_forms() {
    // title="a" rest
    match attr(vec![id("title"), pc('=', false), strlit("a"), id("rest")]).unwrap() {
        (TemplateAttribute::Property { name: 0, list_updater: None, value: PropValue::Literal(2) }, 3) => {}
        _ => panic!(),
    }
    // hidden
    match attr(vec![id("hidden")]).unwrap() {
        (TemplateAttribute::Property { name: 0, list_updater: None, value: PropValue::ImpliedTrue }, 1) => {}
        _ => panic!(),
    }
    // class:abc
    match attr(vec![id("class"), pc(':', false), id("abc")]).unwrap() {
        (TemplateAttribute::Property { list_updater: Some((false, segs)), value: PropValue::ImpliedTrue, .. }, 3) => {
            assert_eq!(segs, vec!["abc".to_string()])
        }
        _ => panic!(),
    }
    // style:g = &{ v }
    let ts = vec![id("style"), pc(':', false), id("g"), pc('=', false), pc('&', false), grp(Delimiter::Brace, vec![id("v")])];
    match attr(ts).unwrap() {
        (TemplateAttribute::Property { value: PropValue::Dynamic { by_ref: true, braces: 5 }, .. }, 6) => {}
        _ => panic!(),
    }
    // text = { v }
    match attr(vec![id("text"), pc('=', false), grp(Delimiter::Brace, vec![id("v")])]).unwrap() {
        (TemplateAttribute::Property { value: PropValue::Dynamic { by_ref: false, braces: 2 }, .. }, 3) => {}
        _ => panic!(),
    }
}

#[test]
fn event_handler_and_slot() {
    // tap = @handle(a, b + 1,)
    let args = vec![id("a"), pc(',', false), id("b"), pc('+', false), strlit("1"), pc(',', false)];
    let ts = vec![id("tap"), pc('=', false), pc('@', false), id("handle"), grp(Delimiter::Parenthesis, args)];
    match attr(ts).unwrap() {
        (TemplateAttribute::EventHandler { name: 0, fn_name: 3, parens: 4, args }, 5) => {
            assert_eq!(args, vec![(0, 1), (2, 5)])
        }
        _ => panic!(),
    }
    match attr(vec![id("slot"), pc(':', false), id("x")]).unwrap() {
        (TemplateAttribute::Slot { name: 0, var_name: 2 }, 3) => {}
        _ => panic!(),
    }
}

#[test]
fn attribute_errors() {
    assert_eq!(attr(vec![pc('=', false)]).err().unwrap(), "expected identifier");
    assert_eq!(attr(vec![id("a"), pc('=', false)]).err().unwrap(), "unexpected end of input, expected one of: literal, `&`, curly braces, `@`");
    assert_eq!(attr(vec![id("a"), pc('=', false), id("b")]).err().unwrap(), "expected one of: literal, `&`, curly braces, `@`");
    assert_eq!(attr(vec![id("a"), pc('=', false), pc('&', false), id("b")]).err().unwrap(), "expected curly braces");
    assert_eq!(attr(vec![id("a"), pc('=', false), grp(Delimiter::Brace, vec![])]).err().unwrap(), "unexpected end of input, expected an expression");
    assert_eq!(attr(vec![id("slot"), id("x")]).err().unwrap(), "expected `:`");
    assert_eq!(attr(vec![id("slot"), pc(':', false), kwd("self")]).err().unwrap(), "expected identifier, found keyword `self`");
    let ts = vec![id("tap"), pc('=', false), pc('@', false), id("f"), grp(Delimiter::Parenthesis, vec![pc(',', false)])];
    assert_eq!(attr(ts).err().unwrap(), "expected an expression");
    let ts = vec![id("tap"), pc('=', false), pc('@', false), id("f"), grp(Delimiter::Brace, vec![])];
    assert_eq!(attr(ts).err().unwrap(), "expected parentheses");
}

fn lt() -> TokenTree {
    pc('<', false)
}

fn gt() -> TokenTree {
    pc('>', false)
}

fn div() -> TokenTree {
    pc('/', false)
}

fn brace(stream: Vec<TokenTree>) -> TokenTree {
    grp(Delimiter::Brace, stream)
}

fn nodes(ts: Vec<TokenTree>) -> Result<Vec<TemplateNode>, String> {
    parse_template(&ts, Span::call_site()).map_err(|e| e.message)
}

#[test]
fn template_texts_and_elements() {
    // "a" { x } <div class:c> <span /> </div> <p></_>
    let ts = vec![
        strlit("a"),
        brace(vec![id("x")]),
        lt(), id("div"), id("class"), pc(':', false), id("c"), gt(),
        lt(), id("span"), div(), gt(),
        lt(), div(), id("div"), gt(),
        lt(), id("p"), gt(), lt(), div(), kwd("_"), gt(),
    ];
    let ns = nodes(ts).unwrap();
    assert_eq!(ns.len(), 4);
    assert!(matches!(ns[0], TemplateNode::StaticText(0)));
    assert!(matches!(ns[1], TemplateNode::DynamicText(1)));
    match &ns[2] {
        TemplateNode::Tag { tag: 2, path, slot_var_name: None, attrs, children } => {
            assert_eq!(path, &(false, vec!["div".to_string()]));
            assert_eq!(attrs.len(), 1);
            assert_eq!(children.len(), 1);
            assert!(matches!(&children[0], TemplateNode::Tag { tag: 8, children, .. } if children.is_empty()));
        }
        _ => panic!(),
    }
    assert!(matches!(&ns[3], TemplateNode::Tag { tag: 16, .. }));
}

#[test]
fn template_slots() {
    // <slot /> <slot data={d}></slot>
    let ts = vec![
        lt(), id("slot"), div(), gt(),
        lt(), id("slot"), id("data"), pc('=', false), brace(vec![id("d")]), gt(), lt(), div(), id("slot"), gt(),
    ];
    let ns = nodes(ts).unwrap();
    assert!(matches!(&ns[0], TemplateNode::Slot { tag: 0, data: None }));
    assert!(matches!(&ns[1], TemplateNode::Slot { tag: 4, data: Some(_) }));
    let e = nodes(vec![lt(), id("slot"), id("x"), div(), gt()]).err().unwrap();
    assert_eq!(e, "The slot element cannot contain attributes other than `data`");
    let e = nodes(vec![lt(), id("slot"), id("data"), pc(':', false), id("x"), div(), gt()]).err().unwrap();
    assert_eq!(e, "Illegal slot `data` attribute");
}

#[test]
fn template_control_flow() {
    // if a { "x" } else if b { } ; match m { Some(v) if v => { }, _ => { "y" } } ; for i in it use k { }
    let ts = vec![
        kwd("if"), id("a"), brace(vec![strlit("x")]), kwd("else"), kwd("if"), id("b"), brace(vec![]),
        kwd("match"), id("m"), brace(vec![
            id("Some"), grp(Delimiter::Parenthesis, vec![id("v")]), kwd("if"), id("v"), pc('=', true), gt(), brace(vec![]), pc(',', false),
            kwd("_"), pc('=', true), gt(), brace(vec![strlit("y")]),
        ]),
        kwd("for"), id("i"), kwd("in"), id("it"), kwd("use"), id("k"), brace(vec![]),
    ];
    let ns = nodes(ts).unwrap();
    assert_eq!(ns.len(), 3);
    match &ns[0] {
        TemplateNode::IfElse(bs) => {
            assert_eq!(bs.len(), 3);
            assert_eq!((bs[0].0, bs[0].1, bs[0].2.len()), (Some((1, 2)), Some(2), 1));
            assert_eq!((bs[1].0, bs[1].1), (Some((5, 6)), Some(6)));
            assert_eq!((bs[2].0, bs[2].1, bs[2].2.len()), (None, None, 0));
        }
        _ => panic!(),
    }
    match &ns[1] {
        TemplateNode::Match { expr: (8, 9), braces: 9, arms } => {
            assert_eq!(arms.len(), 2);
            assert_eq!((arms[0].0, arms[0].1, arms[0].2), ((0, 2), Some((3, 4)), 6));
            assert_eq!((arms[1].0, arms[1].1, arms[1].2, arms[1].3.len()), ((8, 9), None, 11, 1));
        }
        _ => panic!(),
    }
    match &ns[2] {
        TemplateNode::ForLoop { pat: (11, 12), expr: (13, 14), key: Some((None, path)), braces: 16, .. } => {
            assert_eq!(path, &(false, vec!["k".to_string()]));
        }
        _ => panic!(),
    }
}

#[test]
fn template_errors() {
    assert_eq!(nodes(vec![id("x")]).err().unwrap(), "expected one of: string literal, curly braces, `<`, `if`, `match`, `for`");
    assert_eq!(nodes(vec![brace(vec![])]).err().unwrap(), "unexpected end of input, expected an expression");
    assert_eq!(nodes(vec![lt(), id("div"), gt()]).err().unwrap(), "unexpected end of input, expected one of: string literal, curly braces, `<`, `if`, `match`, `for`");
    assert_eq!(
        nodes(vec![lt(), id("div"), gt(), lt(), div(), id("p"), gt()]).err().unwrap(),
        "End tag name does not match the start tag name (consider use `_` instead?)"
    );
    assert_eq!(nodes(vec![lt(), id("div"), pc('=', false)]).err().unwrap(), "expected one of: identifier, `/`, `>`");
    assert_eq!(nodes(vec![lt(), id("div"), div()]).err().unwrap(), "expected `>`");
    assert_eq!(nodes(vec![kwd("for"), id("i"), id("x")]).err().unwrap(), "unexpected end of input, expected `in`");
    assert_eq!(nodes(vec![kwd("if"), id("a")]).err().unwrap(), "unexpected end of input, expected curly braces");
    let mut many = vec![];
    for _ in 0..16 {
        many.push(kwd("if"));
        many.push(id("c"));
        many.push(brace(vec![]));
        many.push(kwd("else"));
    }
    many.push(brace(vec![]));
    assert_eq!(nodes(many).err().unwrap(), "`if` and `else` group cannot contain more than 16 branches");
    let e = nodes(vec![lt(), id("a"), id("slot"), pc(':', false), id("x"), id("slot"), pc(':', false), id("y"), div(), gt()]);
    assert_eq!(e.err().unwrap(), "Duplicated `slot` attribute");
}

#[test]
fn single_node_parse() {
    let ts = vec![strlit("a"), strlit("b")];
    match TemplateNode::parse(&ts, 1, Span::call_site()).unwrap() {
        (TemplateNode::StaticText(1), 2) => {}
        _ => panic!(),
    }
}
