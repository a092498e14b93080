use maomi_lib::css_token::{CssToken, CssTokenStream, VarName};
use maomi_lib::style_rules::{AtBlock, Pseudo, PseudoDir, RuleContent, StyleContentItem};
use maomi_lib::style_sheet::Property;
use maomi_lib::token_parse::{Delimiter, Group, Ident, Literal, LiteralToken, ParseInput, Punct, ScopeVars, TokenTree};
use maomi_lib::values::{ArgType, MaybeDyn, Number, ScopeVarValue, VarDynValueKind};
use maomi_lib::write_css::CssWriter;
use proc_macro2::Span;

fn sp() -> Span {
    Span::call_site()
}

fn ident(name: &str) -> TokenTree {
    TokenTree::Ident(Ident { span: sp(), name: name.to_string(), keyword: false })
}

fn keyword(name: &str) -> TokenTree {
    TokenTree::Ident(Ident { span: sp(), name: name.to_string(), keyword: true })
}

fn punct(ch: char) -> TokenTree {
    TokenTree::Punct(Punct { span: sp(), ch, joint: false })
}

fn int_lit(v: i32) -> TokenTree {
    TokenTree::Literal(LiteralToken { span: sp(), lit: Literal::Int(Ok(v)) })
}

fn str_lit(v: &str) -> TokenTree {
    TokenTree::Literal(LiteralToken { span: sp(), lit: Literal::Str(v.to_string()) })
}

fn group(delimiter: Delimiter, stream: Vec<TokenTree>) -> TokenTree {
    TokenTree::Group(Group { span: sp(), span_open: sp(), span_close: sp(), delimiter, stream })
}

fn prop(name: &str, value: &str) -> Vec<TokenTree> {
    vec![ident(name), punct('='), ident(value), punct(';')]
}

fn body(parts: Vec<Vec<TokenTree>>) -> Vec<TokenTree> {
    parts.into_iter().flatten().collect()
}

fn style_def(scope: &mut ScopeVars, name: &str, args: Vec<ArgType>) {
    let args = args.into_iter().enumerate().map(|(i, t)| (VarName { span: sp(), ident: format!("a{}", i) }, t)).collect();
    scope.vars.push((VarName { span: sp(), ident: name.to_string() }, ScopeVarValue::StyleDefinition(args)));
}

fn items(tokens: &Vec<TokenTree>, scope: &mut ScopeVars) -> Result<(Vec<StyleContentItem<CssTokenStream>>, usize), String> {
    let mut input = ParseInput::new(tokens, sp());
    let r = StyleContentItem::<CssTokenStream>::parse_with_vars(&mut input, scope).map_err(|e| e.message)?;
    Ok((r, input.pos))
}

fn content(tokens: &Vec<TokenTree>) -> Result<RuleContent, String> {
    let mut scope = ScopeVars::new(None);
    let mut input = ParseInput::new(tokens, sp());
    let r = RuleContent::parse_with_vars(&mut input, &mut scope, false).map_err(|e| e.message)?;
    input.finish().map_err(|e| e.message)?;
    Ok(r)
}

fn content_err(tokens: &Vec<TokenTree>) -> String {
    match content(tokens) {
        Ok(_) => panic!("expected an error"),
        Err(e) => e,
    }
}

fn property(tokens: &Vec<TokenTree>) -> (Result<Property<CssTokenStream>, String>, usize) {
    let mut scope = ScopeVars::new(None);
    let mut input = ParseInput::new(tokens, sp());
    let r = Property::<CssTokenStream>::parse_with_vars(&mut input, &mut scope).map_err(|e| e.message);
    (r, input.pos)
}

#[test]
fn property_reads_its_semicolon() {
    let tokens = body(vec![prop("color", "red"), prop("margin", "auto")]);
    let (r, pos) = property(&tokens);
    let p = r.unwrap();
    assert_eq!(p.name.formal_name, "color");
    assert_eq!(p.value.tokens.len(), 1);
    assert!(matches!(&p.value.tokens[0], CssToken::Ident(x) if x.formal_name == "red"));
    assert_eq!(pos, 4);
}

#[test]
fn failed_property_skips_to_its_semicolon() {
    let tokens = vec![ident("color"), ident("red"), ident("blue"), punct(';'), ident("next")];
    let (r, pos) = property(&tokens);
    assert_eq!(r.unwrap_err(), "expected `=`");
    assert_eq!(pos, 4);
}

#[test]
fn property_without_semicolon() {
    let tokens = vec![ident("color"), punct('='), ident("red")];
    let (r, pos) = property(&tokens);
    assert_eq!(r.unwrap_err(), "expected `;`");
    assert_eq!(pos, 3);
    let tokens = vec![ident("color"), ident("red")];
    let (r, pos) = property(&tokens);
    assert_eq!(r.unwrap_err(), "expected `;`");
    assert_eq!(pos, 2);
}

#[test]
fn items_skip_failed_properties() {
    let tokens = body(vec![
        prop("color", "red"),
        vec![
            ident("width"),
            punct('='),
            int_lit(1),
            TokenTree::Literal(LiteralToken { span: sp(), lit: Literal::Other }),
            punct(';'),
        ],
        prop("display", "block"),
    ]);
    let mut scope = ScopeVars::new(None);
    let (list, pos) = items(&tokens, &mut scope).unwrap();
    assert_eq!(list.len(), 2);
    assert!(matches!(&list[0], StyleContentItem::Property(p) if p.name.formal_name == "color"));
    assert!(matches!(&list[1], StyleContentItem::Property(p) if p.name.formal_name == "display"));
    assert_eq!(pos, tokens.len());
}

#[test]
fn items_stop_before_other_tokens() {
    let tokens = body(vec![prop("color", "red"), vec![keyword("if")]]);
    let mut scope = ScopeVars::new(None);
    let (list, pos) = items(&tokens, &mut scope).unwrap();
    assert_eq!(list.len(), 1);
    assert_eq!(pos, 4);
}

#[test]
fn style_reference_with_arguments() {
    let mut scope = ScopeVars::new(None);
    style_def(&mut scope, "sized", vec![ArgType::Num(sp()), ArgType::Str(sp())]);
    let tokens = vec![
        ident("sized"),
        group(Delimiter::Parenthesis, vec![int_lit(3), punct(','), str_lit("x")]),
        punct(';'),
    ];
    let (list, pos) = items(&tokens, &mut scope).unwrap();
    assert_eq!(pos, 3);
    match &list[0] {
        StyleContentItem::StyleRef(v, args) => {
            assert_eq!(v.ident, "sized");
            assert_eq!(args.len(), 2);
            assert!(matches!(&args[0], MaybeDyn::Static(x) if matches!(x.kind, VarDynValueKind::Num(Number::I32(3)))));
            assert!(matches!(&args[1], MaybeDyn::Static(x) if matches!(&x.kind, VarDynValueKind::Str(s) if s == "x")));
        },
        _ => panic!("expected a style reference"),
    }
    assert_eq!(scope.var_refs.len(), 1);
    assert_eq!(scope.var_refs[0].ident, "sized");
}

#[test]
fn style_reference_errors() {
    let mut scope = ScopeVars::new(None);
    style_def(&mut scope, "one", vec![ArgType::Num(sp())]);
    let call = |args: Vec<TokenTree>, name: &str| {
        vec![ident(name), group(Delimiter::Parenthesis, args), punct(';')]
    };
    assert_eq!(items(&call(vec![int_lit(1)], "missing"), &mut scope).unwrap_err(), "variable not declared");
    assert_eq!(items(&call(vec![str_lit("a")], "one"), &mut scope).unwrap_err(), "expected {number}");
    assert_eq!(items(&call(vec![], "one"), &mut scope).unwrap_err(), "unexpected end of input, arguments not enough");
    assert_eq!(
        items(&call(vec![int_lit(1), punct(','), int_lit(2)], "one"), &mut scope).unwrap_err(),
        "unnecessary argument"
    );
    assert_eq!(items(&call(vec![int_lit(1), int_lit(2)], "one"), &mut scope).unwrap_err(), "expected `,`");
    let no_semi = vec![ident("one"), group(Delimiter::Parenthesis, vec![int_lit(1)])];
    assert_eq!(items(&no_semi, &mut scope).unwrap_err(), "expected `;`");
    let bare = vec![ident("color"), ident("red")];
    assert_eq!(items(&bare, &mut scope).unwrap_err(), "expected `=` (as property) or `(...)` (as style reference)");
}

#[test]
fn style_reference_to_a_value_is_refused() {
    let mut scope = ScopeVars::new(None);
    scope.vars.push((
        VarName { span: sp(), ident: "c".to_string() },
        ScopeVarValue::DynNum(maomi_lib::values::VarDynRef { span: sp(), index: 0 }),
    ));
    let tokens = vec![ident("c"), group(Delimiter::Parenthesis, vec![]), punct(';')];
    assert_eq!(items(&tokens, &mut scope).unwrap_err(), "expected StyleDefinition, found {number}");
}

#[test]
fn rule_content_with_blocks() {
    let media_body = group(Delimiter::Brace, prop("color", "blue"));
    let hover_body = group(Delimiter::Brace, prop("color", "green"));
    let tokens = body(vec![
        prop("color", "red"),
        vec![keyword("if"), ident("media"), ident("print"), media_body],
        vec![
            keyword("if"),
            ident("supports"),
            group(Delimiter::Parenthesis, vec![ident("display"), punct('='), ident("grid")]),
            group(Delimiter::Brace, prop("display", "grid")),
        ],
        vec![keyword("if"), ident("hover"), hover_body],
        vec![
            keyword("if"),
            ident("dir"),
            group(Delimiter::Parenthesis, vec![ident("rtl")]),
            group(Delimiter::Brace, vec![]),
        ],
    ]);
    let c = content(&tokens).unwrap();
    assert_eq!(c.items.len(), 1);
    assert_eq!(c.at_blocks.len(), 2);
    assert!(matches!(&c.at_blocks[0], AtBlock::Media { expr, content } if expr.len() == 1 && content.items.len() == 1));
    assert!(matches!(&c.at_blocks[1], AtBlock::Supports { .. }));
    assert_eq!(c.pseudo_classes.len(), 2);
    assert!(matches!(c.pseudo_classes[0].pseudo, Pseudo::Hover));
    assert!(matches!(c.pseudo_classes[1].pseudo, Pseudo::Dir(PseudoDir::Rtl)));
}

#[test]
fn bare_supports_condition_takes_the_block_as_its_value() {
    let tokens = vec![
        keyword("if"),
        ident("supports"),
        ident("display"),
        punct('='),
        ident("grid"),
        group(Delimiter::Brace, vec![]),
    ];
    assert_eq!(content_err(&tokens), "unexpected end of input, expected curly braces");
}

#[test]
fn rule_content_order_errors() {
    let after_pseudo = body(vec![
        vec![keyword("if"), ident("hover"), group(Delimiter::Brace, vec![])],
        vec![keyword("if"), ident("media"), ident("print"), group(Delimiter::Brace, vec![])],
    ]);
    assert_eq!(
        content_err(&after_pseudo),
        "unexpected end of input, media conditions should be put before pseudo conditions"
    );
    let nested = vec![
        keyword("if"),
        ident("media"),
        ident("print"),
        group(Delimiter::Brace, vec![keyword("if"), ident("hover"), group(Delimiter::Brace, vec![])]),
    ];
    assert_eq!(
        content_err(&nested),
        "unexpected end of input, pseudo conditions should not be put inside other conditions"
    );
    let stray = body(vec![prop("color", "red"), vec![int_lit(1)]]);
    assert_eq!(content_err(&stray), "expected property, style reference, or `if` conditions");
}

#[test]
fn pseudo_class_errors() {
    let unknown = vec![keyword("if"), ident("wobbly"), group(Delimiter::Brace, vec![])];
    assert_eq!(content_err(&unknown), "Unknown pseudo class");
    let bad_dir = vec![
        keyword("if"),
        ident("dir"),
        group(Delimiter::Parenthesis, vec![ident("up")]),
        group(Delimiter::Brace, vec![]),
    ];
    assert_eq!(content_err(&bad_dir), "Unknown dir");
    let no_body = vec![keyword("if"), ident("hover")];
    assert_eq!(content_err(&no_body), "unexpected end of input, expected curly braces");
    let lang_extra = vec![
        keyword("if"),
        ident("lang"),
        group(Delimiter::Parenthesis, vec![ident("en"), ident("x")]),
        group(Delimiter::Brace, vec![]),
    ];
    assert_eq!(content_err(&lang_extra), "unexpected token, expected `)`");
}

#[test]
fn pseudo_classes_are_written_by_their_css_names() {
    let tokens = body(vec![
        vec![keyword("if"), ident("focus_within"), group(Delimiter::Brace, vec![])],
        vec![keyword("if"), ident("dir"), group(Delimiter::Parenthesis, vec![ident("ltr")]), group(Delimiter::Brace, vec![])],
        vec![keyword("if"), ident("lang"), group(Delimiter::Parenthesis, vec![ident("zh_cn")]), group(Delimiter::Brace, vec![])],
    ]);
    let c = content(&tokens).unwrap();
    let written: Vec<String> = c
        .pseudo_classes
        .iter()
        .map(|p| {
            let mut w = CssWriter::new(false);
            p.pseudo.write_css(&mut w);
            w.into_string()
        })
        .collect();
    assert_eq!(written, vec!["focus-within".to_string(), "dir(ltr)".to_string(), "lang(zh-cn)".to_string()]);
}
