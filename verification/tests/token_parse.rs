use maomi_lib::css_token::{CssToken, CssTokenStream, VarName, VarRef, WriteCss};
use maomi_lib::token_parse::{Delimiter, Group, Ident, Literal, LiteralToken, ParseInput, Punct, ScopeVars, TokenTree};
use maomi_lib::values::{MaybeDyn, Number, ScopeVarValue, VarDynRef};
use maomi_lib::write_css::CssWriter;
use proc_macro2::Span;

fn sp() -> Span {
    Span::call_site()
}

fn ident(name: &str) -> TokenTree {
    TokenTree::Ident(Ident { span: sp(), name: name.to_string(), keyword: false })
}

fn keyword(name: &str) -> TokenTree {
    TokenTree::Ident(Ident { span: sp(), name: name.to_string(), keyword: true })
}

fn punct(ch: char, joint: bool) -> TokenTree {
    TokenTree::Punct(Punct { span: sp(), ch, joint })
}

fn lit(lit: Literal) -> TokenTree {
    TokenTree::Literal(LiteralToken { span: sp(), lit })
}

fn int_lit(v: i32) -> TokenTree {
    lit(Literal::Int(Ok(v)))
}

fn group(delimiter: Delimiter, stream: Vec<TokenTree>) -> TokenTree {
    TokenTree::Group(Group { span: sp(), span_open: sp(), span_close: sp(), delimiter, stream })
}

fn parse(tokens: &Vec<TokenTree>, scope: &mut ScopeVars) -> Result<CssTokenStream, String> {
    let mut input = ParseInput::new(tokens, sp());
    let r = CssTokenStream::parse_with_vars(&mut input, scope).map_err(|e| e.message)?;
    input.finish().map_err(|e| e.message)?;
    Ok(r)
}

fn css(s: &CssTokenStream) -> String {
    let mut w = CssWriter::new(false);
    s.write_css(&mut w);
    w.into_string()
}

#[test]
fn parses_idents_numbers_and_delims() {
    let tokens = vec![
        ident("solid"),
        int_lit(1),
        punct('%', false),
        lit(Literal::Str("a b".to_string())),
        punct('+', true),
        punct('=', false),
        punct('-', false),
        lit(Literal::Float(Ok("1.5".to_string()))),
    ];
    let mut scope = ScopeVars::new(None);
    let s = parse(&tokens, &mut scope).unwrap();
    assert_eq!(s.tokens.len(), 6);
    assert!(matches!(&s.tokens[0], CssToken::Ident(x) if x.formal_name == "solid"));
    assert!(matches!(&s.tokens[1], CssToken::Percentage(x) if matches!(x.value, MaybeDyn::Static(Number::I32(1)))));
    assert!(matches!(&s.tokens[2], CssToken::String(_)));
    assert!(matches!(&s.tokens[3], CssToken::Delim(x) if x.s == "+="));
    assert!(matches!(&s.tokens[4], CssToken::Delim(x) if x.s == "-"));
    assert!(matches!(&s.tokens[5], CssToken::Number(_)));
    assert!(scope.var_refs.is_empty());
}

#[test]
fn parses_functions_and_special_forms() {
    let tokens = vec![
        ident("translate_x"),
        group(Delimiter::Parenthesis, vec![int_lit(3)]),
        ident("Px"),
        group(Delimiter::Parenthesis, vec![int_lit(10)]),
        ident("Color"),
        group(Delimiter::Parenthesis, vec![lit(Literal::Str("#fff".to_string()))]),
        ident("Percent"),
        group(Delimiter::Parenthesis, vec![int_lit(50)]),
        group(Delimiter::Bracket, vec![ident("a")]),
    ];
    let mut scope = ScopeVars::new(None);
    let s = parse(&tokens, &mut scope).unwrap();
    assert_eq!(s.tokens.len(), 5);
    assert!(matches!(&s.tokens[0], CssToken::Function(f) if f.formal_name == "translate_x" && f.block.tokens.len() == 1));
    assert!(matches!(&s.tokens[1], CssToken::Dimension(d) if d.unit == "px"));
    assert!(matches!(&s.tokens[2], CssToken::Color(_)));
    assert!(matches!(&s.tokens[3], CssToken::Percentage(_)));
    assert!(matches!(&s.tokens[4], CssToken::Bracket(b) if b.block.tokens.len() == 1));
}

#[test]
fn variables_are_replaced_and_recorded() {
    let mut scope = ScopeVars::new(None);
    let value = vec![ident("red")];
    let mut vi = ParseInput::new(&value, sp());
    let token = CssToken::parse_with_vars(&mut vi, &mut scope).unwrap();
    scope.vars.push((VarName { span: sp(), ident: "main_color".to_string() }, ScopeVarValue::Token(token)));
    scope.vars.push((VarName { span: sp(), ident: "size".to_string() }, ScopeVarValue::DynNum(VarDynRef { span: sp(), index: 1 })));
    let tokens = vec![ident("main_color"), ident("size"), ident("other")];
    let s = parse(&tokens, &mut scope).unwrap();
    assert!(matches!(&s.tokens[0], CssToken::Ident(x) if x.formal_name == "red"));
    assert!(matches!(&s.tokens[1], CssToken::Number(x) if matches!(x.value, MaybeDyn::Dyn(VarDynRef { index: 1, .. }))));
    assert!(matches!(&s.tokens[2], CssToken::Ident(x) if x.formal_name == "other"));
    let refs: Vec<String> = scope.var_refs.iter().map(|r: &VarRef| r.ident.clone()).collect();
    assert_eq!(refs, vec!["main_color".to_string(), "size".to_string()]);
}

#[test]
fn errors_of_the_token_grammar() {
    let mut scope = ScopeVars::new(None);
    assert_eq!(parse(&vec![keyword("if")], &mut scope).unwrap_err(), "unexpected token");
    assert_eq!(parse(&vec![lit(Literal::Other)], &mut scope).unwrap_err(), "unexpected token");
    assert_eq!(
        parse(&vec![ident("Color"), group(Delimiter::Parenthesis, vec![int_lit(1)])], &mut scope).unwrap_err(),
        "expected string literal or identifier"
    );
    assert_eq!(
        parse(&vec![ident("Color"), group(Delimiter::Parenthesis, vec![])], &mut scope).unwrap_err(),
        "unexpected end of input, expected string literal or identifier"
    );
    assert_eq!(
        parse(&vec![ident("Percent"), group(Delimiter::Parenthesis, vec![punct('-', false)])], &mut scope).unwrap_err(),
        "expected one of: integer literal, floating point literal, identifier"
    );
    assert_eq!(
        parse(&vec![ident("Em"), group(Delimiter::Parenthesis, vec![ident("x")])], &mut scope).unwrap_err(),
        "expected integer literal or floating point literal"
    );
    assert_eq!(
        parse(&vec![ident("Color"), group(Delimiter::Parenthesis, vec![ident("c")])], &mut scope).unwrap_err(),
        "variable not declared"
    );
    assert_eq!(
        parse(&vec![lit(Literal::Int(Err("number too large to fit in target type".to_string())))], &mut scope).unwrap_err(),
        "number too large to fit in target type"
    );
}

#[test]
fn type_mismatch_and_leftover_errors() {
    let mut scope = ScopeVars::new(None);
    scope.vars.push((VarName { span: sp(), ident: "n".to_string() }, ScopeVarValue::DynNum(VarDynRef { span: sp(), index: 0 })));
    scope.vars.push((VarName { span: sp(), ident: "def".to_string() }, ScopeVarValue::StyleDefinition(vec![])));
    assert_eq!(
        parse(&vec![ident("Color"), group(Delimiter::Parenthesis, vec![ident("n")])], &mut scope).unwrap_err(),
        "expected &str, found {number}"
    );
    assert_eq!(parse(&vec![ident("def")], &mut scope).unwrap_err(), "expected value, found StyleDefinition");
    assert_eq!(
        parse(&vec![ident("Px"), group(Delimiter::Parenthesis, vec![int_lit(1), int_lit(2)])], &mut scope).unwrap_err(),
        "unexpected token, expected `)`"
    );
}

#[test]
fn parsed_tokens_write_back_as_css() {
    let tokens = vec![
        ident("margin"),
        punct(':', false),
        int_lit(0),
        ident("auto"),
        punct(';', false),
    ];
    let mut scope = ScopeVars::new(None);
    let s = parse(&tokens, &mut scope).unwrap();
    assert_eq!(css(&s), "margin:0 auto;");
}
