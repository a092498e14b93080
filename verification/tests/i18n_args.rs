use maomi_lib::i18n_args::{I18nArgs, I18nGroupFormatArgs};
use maomi_lib::token_parse::{Delimiter, Group, Ident, Literal, LiteralToken, Punct, TokenTree};
use proc_macro2::Span;

fn name(n: &str) -> TokenTree {
    TokenTree::Ident(Ident { span: Span::call_site(), name: n.to_string(), keyword: false })
}

fn kw(n: &str) -> TokenTree {
    TokenTree::Ident(Ident { span: Span::call_site(), name: n.to_string(), keyword: true })
}

fn p(ch: char) -> TokenTree {
    TokenTree::Punct(Punct { span: Span::call_site(), ch, joint: false })
}

fn text(s: &str) -> TokenTree {
    TokenTree::Literal(LiteralToken { span: Span::call_site(), lit: Literal::Str(s.to_string()) })
}

fn paren(stream: Vec<TokenTree>) -> TokenTree {
    TokenTree::Group(Group {
        span: Span::call_site(),
        span_open: Span::call_site(),
        span_close: Span::call_site(),
        delimiter: Delimiter::Parenthesis,
        stream,
    })
}

#[test]
fn text_and_variables() {
    // "a {} {x}", f(1, 2) + 3, x = y
    let ts = vec![
        text("a {} {x}"),
        p(','),
        name("f"),
        paren(vec![p('1'), p(','), p('2')]),
        p('+'),
        p('3'),
        p(','),
        name("x"),
        p('='),
        name("y"),
    ];
    let a = I18nArgs::parse(&ts, 0, Span::call_site()).unwrap();
    assert_eq!(a.text, "a {} {x}");
    assert_eq!(a.text_pos, 0);
    let vars: Vec<(Option<usize>, usize, usize)> = a.vars.iter().map(|v| (v.name, v.start, v.end)).collect();
    assert_eq!(vars, vec![(None, 2, 6), (Some(7), 9, 10)]);
}

#[test]
fn text_alone() {
    let a = I18nArgs::parse(&vec![text("abc")], 0, Span::call_site()).unwrap();
    assert_eq!(a.text, "abc");
    assert!(a.vars.is_empty());
}

#[test]
fn argument_errors() {
    let e = |ts: Vec<TokenTree>| I18nArgs::parse(&ts, 0, Span::call_site()).err().unwrap().message;
    assert_eq!(e(vec![]), "unexpected end of input, expected string literal");
    assert_eq!(e(vec![name("a")]), "expected string literal");
    assert_eq!(e(vec![text("a"), name("b")]), "expected `,`");
    assert_eq!(e(vec![text("a"), p(',')]), "unexpected end of input, expected an expression");
    assert_eq!(e(vec![text("a"), p(','), p(','), name("b")]), "expected an expression");
}

#[test]
fn group_arguments() {
    let ts = vec![name("g"), p(','), text("t"), p(','), name("v")];
    let a = I18nGroupFormatArgs::parse(&ts, Span::call_site()).unwrap();
    assert_eq!(a.group, 0);
    assert_eq!(a.args.text, "t");
    assert_eq!(a.args.vars.len(), 1);
    let e = |ts: Vec<TokenTree>| I18nGroupFormatArgs::parse(&ts, Span::call_site()).err().unwrap().message;
    assert_eq!(e(vec![kw("self"), p(',')]), "expected identifier, found keyword `self`");
    assert_eq!(e(vec![]), "unexpected end of input, expected identifier");
    assert_eq!(e(vec![name("g")]), "expected `,`");
    assert_eq!(e(vec![name("g"), p(','), name("x")]), "expected string literal");
}
