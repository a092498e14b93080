use maomi_lib::css_token::CssTokenStream;
use maomi_lib::style_sheet::{MediaQuery, MediaType, SupportsQuery};
use maomi_lib::token_parse::{Delimiter, Group, Ident, Literal, LiteralToken, ParseInput, Punct, ScopeVars, TokenTree};
use maomi_lib::write_css::CssWriter;
use proc_macro2::Span;

fn sp() -> Span {
    Span::call_site()
}

fn ident(name: &str) -> TokenTree {
    TokenTree::Ident(Ident { span: sp(), name: name.to_string(), keyword: false })
}

fn keyword(name: &str) -> TokenTree {
    TokenTree::Ident(Ident { span: sp(), name: name.to_string(), keyword: true })
}

fn punct(ch: char, joint: bool) -> TokenTree {
    TokenTree::Punct(Punct { span: sp(), ch, joint })
}

fn px(v: i32) -> Vec<TokenTree> {
    vec![
        ident("Px"),
        TokenTree::Group(Group {
            span: sp(),
            span_open: sp(),
            span_close: sp(),
            delimiter: Delimiter::Parenthesis,
            stream: vec![TokenTree::Literal(LiteralToken { span: sp(), lit: Literal::Int(Ok(v)) })],
        }),
    ]
}

fn paren(stream: Vec<TokenTree>) -> TokenTree {
    TokenTree::Group(Group { span: sp(), span_open: sp(), span_close: sp(), delimiter: Delimiter::Parenthesis, stream })
}

fn feature(name: &str, value: Vec<TokenTree>) -> TokenTree {
    let mut s = vec![ident(name), punct('=', false)];
    s.extend(value);
    paren(s)
}

fn grid() -> TokenTree {
    paren(vec![ident("display"), punct('=', false), ident("grid")])
}

fn gap() -> TokenTree {
    paren(vec![ident("gap"), punct('=', false), ident("normal")])
}

fn media(tokens: &Vec<TokenTree>) -> Result<(MediaQuery<CssTokenStream>, usize), String> {
    let mut scope = ScopeVars::new(None);
    let mut input = ParseInput::new(tokens, sp());
    let q = MediaQuery::<CssTokenStream>::parse_with_vars(&mut input, &mut scope).map_err(|e| e.message)?;
    Ok((q, input.pos))
}

fn supports(tokens: &Vec<TokenTree>) -> Result<(SupportsQuery<CssTokenStream>, usize), String> {
    let mut scope = ScopeVars::new(None);
    let mut input = ParseInput::new(tokens, sp());
    let q = SupportsQuery::<CssTokenStream>::parse_with_vars(&mut input, &mut scope).map_err(|e| e.message)?;
    Ok((q, input.pos))
}

fn media_css(q: &MediaQuery<CssTokenStream>) -> String {
    let mut w = CssWriter::new(false);
    q.write_css_with_args(&mut w, &[]);
    w.into_string()
}

fn supports_css(q: &SupportsQuery<CssTokenStream>) -> String {
    let mut w = CssWriter::new(false);
    q.write_css_with_args(&mut w, &[]);
    w.into_string()
}

#[test]
fn media_type_alone() {
    let tokens = vec![ident("print")];
    let (q, pos) = media(&tokens).unwrap();
    assert_eq!(q.media_type, MediaType::Print);
    assert!(q.only.is_none());
    assert!(q.cond_list.is_empty());
    assert_eq!(pos, 1);
    assert_eq!(media_css(&q), "print");
}

#[test]
fn media_features_without_type() {
    let tokens = vec![feature("min_width", px(10)), ident("and"), ident("not"), feature("color", vec![ident("red")])];
    let (q, pos) = media(&tokens).unwrap();
    assert_eq!(q.media_type, MediaType::All);
    assert_eq!(q.cond_list.len(), 2);
    assert!(q.cond_list[0].not.is_none());
    assert_eq!(q.cond_list[0].name.formal_name, "min_width");
    assert!(q.cond_list[1].not.is_some());
    assert_eq!(pos, 4);
    assert_eq!(media_css(&q), "(min-width:10px)and not (color:red)");
}

#[test]
fn media_only_needs_a_type() {
    let tokens = vec![ident("only"), ident("screen")];
    let (q, _) = media(&tokens).unwrap();
    assert!(q.only.is_some());
    assert_eq!(q.media_type, MediaType::Screen);
    assert_eq!(media_css(&q), "only screen");
    let tokens = vec![ident("only"), feature("a", vec![ident("b")])];
    assert_eq!(media(&tokens).unwrap_err(), "expected identifier");
}

#[test]
fn media_errors() {
    assert_eq!(media(&vec![ident("tv")]).unwrap_err(), "unknown media type");
    assert_eq!(media(&vec![]).unwrap_err(), "unexpected end of input, expected parentheses");
    assert_eq!(media(&vec![keyword("fn")]).unwrap_err(), "expected parentheses");
    let no_eq = vec![paren(vec![ident("a"), ident("b")])];
    assert_eq!(media(&no_eq).unwrap_err(), "expected `=`");
}

#[test]
fn media_type_then_and_is_not_consumed() {
    // after a media type the `and` is peeked but left in place, so the
    // features that follow are not reached
    let tokens = vec![ident("screen"), ident("and"), feature("min_width", px(1))];
    assert_eq!(media(&tokens).unwrap_err(), "expected parentheses");
}

#[test]
fn supports_condition() {
    let tokens = vec![ident("display"), punct('=', false), ident("grid")];
    let (q, pos) = supports(&tokens).unwrap();
    assert!(matches!(&q, SupportsQuery::Cond(c) if c.name.formal_name == "display"));
    assert_eq!(pos, 3);
    assert_eq!(supports_css(&q), "display:grid");
}

#[test]
fn supports_not_and_sub() {
    let tokens = vec![ident("not"), grid()];
    let (q, _) = supports(&tokens).unwrap();
    assert!(matches!(&q, SupportsQuery::Not(_)));
    assert_eq!(supports_css(&q), "not (display:grid)");
    let tokens = vec![paren(vec![grid()])];
    let (q, _) = supports(&tokens).unwrap();
    assert!(matches!(&q, SupportsQuery::Sub(_)));
    assert_eq!(supports_css(&q), "(display:grid)");
}

#[test]
fn supports_two_operands() {
    let (q, pos) = supports(&vec![grid(), ident("and"), gap()]).unwrap();
    match &q {
        SupportsQuery::And(list) => assert_eq!(list.len(), 2),
        _ => panic!("expected and"),
    }
    assert_eq!(pos, 3);
    assert_eq!(supports_css(&q), "(display:grid)and (gap:normal)");
    let (q, _) = supports(&vec![grid(), ident("or"), gap()]).unwrap();
    assert!(matches!(&q, SupportsQuery::Or(list) if list.len() == 2));
}

#[test]
fn supports_three_operands_fail() {
    // the `and` after the second operand is peeked but not consumed
    let tokens = vec![grid(), ident("and"), grid(), ident("and"), grid()];
    assert_eq!(supports(&tokens).unwrap_err(), "expected parentheses");
}

#[test]
fn supports_errors() {
    assert_eq!(supports(&vec![]).unwrap_err(), "unexpected end of input, expected one of: `not`, parentheses, identifier");
    assert_eq!(supports(&vec![punct('#', false)]).unwrap_err(), "expected one of: `not`, parentheses, identifier");
    assert_eq!(supports(&vec![ident("not"), ident("x")]).unwrap_err(), "expected parentheses");
}
