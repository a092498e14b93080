use maomi_lib::css_token::{CssIdent, CssToken, CssTokenStream, VarName};
use maomi_lib::style_items::{KeyFrame, StyleSheet, StyleSheetConstructor, StyleSheetItem, Visibility};
use maomi_lib::style_rules::StyleContentItem;
use maomi_lib::token_parse::{Delimiter, Group, Ident, Literal, LiteralToken, ParseInput, Punct, ScopeVars, TokenTree};
use maomi_lib::values::{ArgType, ModPath, ParseError, ScopeVarValue};
use proc_macro2::Span;

fn sp() -> Span {
    Span::call_site()
}

fn ident(name: &str) -> TokenTree {
    TokenTree::Ident(Ident { span: sp(), name: name.to_string(), keyword: false })
}

fn keyword(name: &str) -> TokenTree {
    TokenTree::Ident(Ident { span: sp(), name: name.to_string(), keyword: true })
}

fn punct(ch: char, joint: bool) -> TokenTree {
    TokenTree::Punct(Punct { span: sp(), ch, joint })
}

fn int_lit(v: i32) -> TokenTree {
    TokenTree::Literal(LiteralToken { span: sp(), lit: Literal::Int(Ok(v)) })
}

fn str_lit(v: &str) -> TokenTree {
    TokenTree::Literal(LiteralToken { span: sp(), lit: Literal::Str(v.to_string()) })
}

fn group(delimiter: Delimiter, stream: Vec<TokenTree>) -> TokenTree {
    TokenTree::Group(Group { span: sp(), span_open: sp(), span_close: sp(), delimiter, stream })
}

fn prop(name: &str, value: &str) -> Vec<TokenTree> {
    vec![ident(name), punct('=', false), ident(value), punct(';', false)]
}

fn attr(stream: Vec<TokenTree>) -> Vec<TokenTree> {
    vec![punct('#', false), group(Delimiter::Bracket, stream)]
}

fn cat(parts: Vec<Vec<TokenTree>>) -> Vec<TokenTree> {
    parts.into_iter().flatten().collect()
}

/// A constructor that names key frames after their count of frames.
struct Frames {
    defined: Vec<(String, usize)>,
}

impl StyleSheetConstructor for Frames {
    fn new() -> Self {
        Frames { defined: Vec::new() }
    }

    fn define_key_frames(&mut self, name: &VarName, content: Vec<KeyFrame<CssTokenStream>>) -> Result<CssToken, ParseError> {
        if name.ident == "broken" {
            return Err(ParseError { span: name.span, message: "cannot define".to_string() });
        }
        self.defined.push((name.ident.clone(), content.len()));
        Ok(CssToken::Ident(CssIdent { span: name.span, formal_name: format!("kf-{}", name.ident) }))
    }
}

fn sheet(tokens: &Vec<TokenTree>) -> Result<StyleSheet<Frames>, String> {
    let mut scope = ScopeVars::new(None);
    let mut input = ParseInput::new(tokens, sp());
    let s = StyleSheet::<Frames>::parse_with_vars(&mut input, &mut scope).map_err(|e| e.message)?;
    input.finish().map_err(|e| e.message)?;
    Ok(s)
}

fn sheet_err(tokens: &Vec<TokenTree>) -> String {
    match sheet(tokens) {
        Ok(_) => panic!("expected an error"),
        Err(e) => e,
    }
}

fn const_value(name: &str, value: TokenTree) -> Vec<TokenTree> {
    vec![keyword("const"), ident(name), punct(':', false), ident("value"), punct('=', false), value, punct(';', false)]
}

#[test]
fn const_value_is_used_by_a_class() {
    let tokens = cat(vec![
        const_value("main_color", ident("red")),
        vec![keyword("class"), ident("a"), group(Delimiter::Brace, prop("color", "main_color"))],
    ]);
    let s = sheet(&tokens).unwrap();
    assert_eq!(s.items.len(), 2);
    assert!(matches!(&s.items[0], StyleSheetItem::ConstValue { vis: None, name } if name.ident == "main_color"));
    match &s.items[1] {
        StyleSheetItem::Class { name, content, .. } => {
            assert_eq!(name.ident, "a");
            match &content.items[0] {
                StyleContentItem::Property(p) => {
                    assert!(matches!(&p.value.tokens[0], CssToken::Ident(x) if x.formal_name == "red"));
                },
                _ => panic!("expected a property"),
            }
        },
        _ => panic!("expected a class"),
    }
    assert_eq!(s.var_refs.len(), 1);
    assert_eq!(s.var_refs[0].ident, "main_color");
}

#[test]
fn style_definition_and_reference() {
    let params = vec![
        ident("w"),
        punct(':', false),
        ident("f32"),
        punct(',', false),
        ident("c"),
        punct(':', false),
        punct('&', false),
        ident("str"),
    ];
    let body = cat(vec![vec![ident("width"), punct('=', false), ident("w"), punct(';', false)]]);
    let tokens = cat(vec![
        vec![keyword("style"), ident("sized"), group(Delimiter::Parenthesis, params), group(Delimiter::Brace, body)],
        vec![
            keyword("class"),
            ident("b"),
            group(
                Delimiter::Brace,
                vec![
                    ident("sized"),
                    group(Delimiter::Parenthesis, vec![int_lit(3), punct(',', false), str_lit("x")]),
                    punct(';', false),
                ],
            ),
        ],
    ]);
    let s = sheet(&tokens).unwrap();
    match &s.items[0] {
        StyleSheetItem::Style { name, args, content, .. } => {
            assert_eq!(name.ident, "sized");
            assert_eq!(args.len(), 2);
            assert!(matches!(args[0].1, ArgType::Num(_)));
            assert!(matches!(args[1].1, ArgType::Str(_)));
            assert_eq!(content.len(), 1);
        },
        _ => panic!("expected a style"),
    }
    assert!(matches!(&s.items[1], StyleSheetItem::Class { content, .. } if matches!(&content.items[0], StyleContentItem::StyleRef(v, a) if v.ident == "sized" && a.len() == 2)));
}

#[test]
fn key_frames_go_to_the_constructor() {
    let frames = vec![
        ident("from"),
        group(Delimiter::Brace, prop("opacity", "none")),
        ident("to"),
        group(Delimiter::Brace, prop("opacity", "auto")),
    ];
    let tokens = cat(vec![
        vec![
            keyword("const"),
            ident("fade"),
            punct(':', false),
            ident("keyframes"),
            punct('=', false),
            group(Delimiter::Brace, frames),
            punct(';', false),
        ],
        vec![keyword("class"), ident("a"), group(Delimiter::Brace, prop("animation_name", "fade"))],
    ]);
    let s = sheet(&tokens).unwrap();
    assert!(matches!(&s.items[0], StyleSheetItem::KeyFrames { name, .. } if name.ident == "fade"));
    assert_eq!(s.ssc.defined, vec![("fade".to_string(), 2)]);
    match &s.items[1] {
        StyleSheetItem::Class { content, .. } => match &content.items[0] {
            StyleContentItem::Property(p) => {
                assert!(matches!(&p.value.tokens[0], CssToken::Ident(x) if x.formal_name == "kf-fade"));
            },
            _ => panic!("expected a property"),
        },
        _ => panic!("expected a class"),
    }
}

#[test]
fn constructor_errors_are_reported() {
    let tokens = vec![
        keyword("const"),
        ident("broken"),
        punct(':', false),
        ident("keyframes"),
        punct('=', false),
        group(Delimiter::Brace, vec![]),
        punct(';', false),
    ];
    assert_eq!(sheet_err(&tokens), "cannot define");
}

#[test]
fn class_attributes() {
    let tokens = cat(vec![
        attr(vec![ident("css_name"), group(Delimiter::Parenthesis, vec![str_lit("my-class")])]),
        attr(vec![ident("error_css_output")]),
        vec![keyword("pub"), keyword("class"), ident("c"), group(Delimiter::Brace, vec![])],
    ]);
    let s = sheet(&tokens).unwrap();
    match &s.items[0] {
        StyleSheetItem::Class { css_name, error_css_output, extern_vis, vis, .. } => {
            assert_eq!(css_name.as_deref(), Some("my-class"));
            assert!(error_css_output.is_some());
            assert!(matches!(extern_vis, Some(Visibility::Public(_))));
            assert!(vis.is_none());
        },
        _ => panic!("expected a class"),
    }
}

#[test]
fn visibility_inside_a_module() {
    let tokens = vec![
        keyword("pub"),
        group(Delimiter::Parenthesis, vec![keyword("crate")]),
        keyword("class"),
        ident("c"),
        group(Delimiter::Brace, vec![]),
    ];
    let mut scope = ScopeVars::new(Some(ModPath { segs: vec!["m".to_string()] }));
    let mut input = ParseInput::new(&tokens, sp());
    let s = StyleSheet::<Frames>::parse_with_vars(&mut input, &mut scope).unwrap();
    match &s.items[0] {
        StyleSheetItem::Class { vis: Some(m), extern_vis: Some(Visibility::Restricted(_, p)), .. } => {
            assert_eq!(m.segs, vec!["crate".to_string()]);
            assert_eq!(p, &vec!["crate".to_string()]);
        },
        _ => panic!("expected a restricted class"),
    }
}

#[test]
fn item_errors() {
    assert_eq!(
        sheet_err(&vec![ident("rule")]),
        "expected one of: `mod`, `use`, `const`, `style`, `class`"
    );
    let dup = cat(vec![const_value("a", ident("x")), const_value("a", ident("y"))]);
    assert_eq!(sheet_err(&dup), "duplicated identifier");
    let bad_type = vec![keyword("const"), ident("a"), punct(':', false), ident("number"), punct('=', false), int_lit(1), punct(';', false)];
    assert_eq!(sheet_err(&bad_type), "invalid type");
    let pub_const = cat(vec![vec![keyword("pub")], const_value("a", ident("x"))]);
    assert_eq!(sheet_err(&pub_const), "constants are always private in inline stylesheets");
    let attr_const = cat(vec![attr(vec![ident("x")]), const_value("a", ident("x"))]);
    assert_eq!(sheet_err(&attr_const), "unknown attribute");
    let no_semi = vec![keyword("const"), ident("a"), punct(':', false), ident("value"), punct('=', false), ident("x")];
    assert_eq!(sheet_err(&no_semi), "expected `;`");
    let unknown_class_attr = cat(vec![attr(vec![ident("other")]), vec![keyword("class"), ident("c"), group(Delimiter::Brace, vec![])]]);
    assert_eq!(sheet_err(&unknown_class_attr), "unknown attribute");
    assert_eq!(sheet_err(&vec![keyword("mod"), ident("m"), punct(';', false)]), "`mod` items are not supported");
}

#[test]
fn style_errors() {
    let bad_param = vec![
        keyword("style"),
        ident("s"),
        group(Delimiter::Parenthesis, vec![ident("w"), punct(':', false), ident("u32")]),
        group(Delimiter::Brace, vec![]),
    ];
    assert_eq!(sheet_err(&bad_param), "invalid type, possible types: &str, f32");
    let dup_param = vec![
        keyword("style"),
        ident("s"),
        group(
            Delimiter::Parenthesis,
            vec![ident("w"), punct(':', false), ident("f32"), punct(',', false), ident("w"), punct(':', false), ident("f32")],
        ),
        group(Delimiter::Brace, vec![]),
    ];
    assert_eq!(sheet_err(&dup_param), "duplicated identifier");
    let stray = vec![
        keyword("style"),
        ident("s"),
        group(Delimiter::Parenthesis, vec![]),
        group(Delimiter::Brace, vec![int_lit(1)]),
    ];
    assert_eq!(sheet_err(&stray), "unexpected token");
}

#[test]
fn style_parameters_are_not_kept_after_the_definition() {
    let tokens = cat(vec![
        vec![
            keyword("style"),
            ident("s"),
            group(Delimiter::Parenthesis, vec![ident("w"), punct(':', false), ident("f32")]),
            group(Delimiter::Brace, vec![]),
        ],
        vec![keyword("class"), ident("c"), group(Delimiter::Brace, prop("width", "w"))],
    ]);
    let mut scope = ScopeVars::new(None);
    let mut input = ParseInput::new(&tokens, sp());
    let s = StyleSheet::<Frames>::parse_with_vars(&mut input, &mut scope).unwrap();
    assert_eq!(scope.vars.len(), 1);
    assert!(matches!(&scope.vars[0].1, ScopeVarValue::StyleDefinition(a) if a.len() == 1));
    assert!(s.var_refs.is_empty());
    match &s.items[1] {
        StyleSheetItem::Class { content, .. } => match &content.items[0] {
            StyleContentItem::Property(p) => assert!(matches!(&p.value.tokens[0], CssToken::Ident(x) if x.formal_name == "w")),
            _ => panic!("expected a property"),
        },
        _ => panic!("expected a class"),
    }
}

#[test]
fn css_name_attribute_errors() {
    let with = |args: Vec<TokenTree>| {
        cat(vec![attr(cat(vec![vec![ident("css_name")], args])), vec![keyword("class"), ident("c"), group(Delimiter::Brace, vec![])]])
    };
    assert_eq!(sheet_err(&with(vec![])), "unexpected end of input, expected parentheses");
    assert_eq!(sheet_err(&with(vec![group(Delimiter::Parenthesis, vec![ident("x")])])), "expected string literal");
    assert_eq!(
        sheet_err(&with(vec![group(Delimiter::Parenthesis, vec![str_lit("a"), str_lit("b")])])),
        "unexpected token, expected `)`"
    );
    assert_eq!(
        sheet_err(&with(vec![group(Delimiter::Parenthesis, vec![str_lit("a")]), ident("x")])),
        "unexpected token"
    );
    let eco_args = cat(vec![
        attr(vec![ident("error_css_output"), group(Delimiter::Parenthesis, vec![])]),
        vec![keyword("class"), ident("c"), group(Delimiter::Brace, vec![])],
    ]);
    assert_eq!(sheet_err(&eco_args), "unknown attribute arguments");
}

#[test]
fn restricted_visibility_with_a_path() {
    let tokens = vec![
        keyword("pub"),
        group(Delimiter::Parenthesis, vec![keyword("in"), ident("a"), punct(':', true), punct(':', false), ident("b")]),
        keyword("class"),
        ident("c"),
        group(Delimiter::Brace, vec![]),
    ];
    let mut scope = ScopeVars::new(Some(ModPath { segs: vec![] }));
    let mut input = ParseInput::new(&tokens, sp());
    let s = StyleSheet::<Frames>::parse_with_vars(&mut input, &mut scope).unwrap();
    match &s.items[0] {
        StyleSheetItem::Class { vis: Some(m), .. } => assert_eq!(m.segs, vec!["a".to_string(), "b".to_string()]),
        _ => panic!("expected a class visible from a::b"),
    }
}

#[test]
fn key_frame_progress_errors() {
    let frames = |f: Vec<TokenTree>| {
        vec![
            keyword("const"),
            ident("k"),
            punct(':', false),
            ident("keyframes"),
            punct('=', false),
            group(Delimiter::Brace, f),
            punct(';', false),
        ]
    };
    assert_eq!(sheet_err(&frames(vec![ident("middle"), group(Delimiter::Brace, vec![])])), "invalid keyframe progress token");
    assert_eq!(sheet_err(&frames(vec![ident("from")])), "unexpected end of input, expected curly braces");
    let pct = vec![
        ident("Percent"),
        group(Delimiter::Parenthesis, vec![int_lit(50)]),
        group(Delimiter::Brace, vec![ident("color"), ident("red"), punct(';', false)]),
    ];
    assert_eq!(sheet_err(&frames(pct)), "expected `=`");
}

#[test]
fn leftover_inside_a_value_is_reported_at_the_end() {
    let tokens = vec![
        keyword("class"),
        ident("c"),
        group(
            Delimiter::Brace,
            vec![
                ident("color"),
                punct('=', false),
                ident("Color"),
                group(Delimiter::Parenthesis, vec![str_lit("#fff"), ident("extra")]),
                punct(';', false),
            ],
        ),
    ];
    assert_eq!(sheet_err(&tokens), "unexpected token, expected `)`");
}
