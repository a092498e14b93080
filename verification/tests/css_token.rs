use maomi_lib::css_token::{CssBrace, CssBracket, CssDimension, CssPercentage, CssDelim, CssFunction, CssIdent, CssNumber, CssParen, CssString, CssToken, CssTokenStream, VarName, WriteCss};
use maomi_lib::values::{MaybeDyn, Number, VarDynRef};
use maomi_lib::write_css::CssWriter;
use proc_macro2::Span;

fn ident(name: &str) -> CssToken {
    CssToken::Ident(CssIdent::new(Span::call_site(), name))
}

fn num(x: i32) -> CssToken {
    CssToken::Number(CssNumber { span: Span::call_site(), value: MaybeDyn::Static(Number::I32(x)) })
}

fn stream(tokens: Vec<CssToken>) -> CssTokenStream {
    CssTokenStream::new(Span::call_site(), tokens)
}

#[test]
fn ident_css_name_replaces_underscores() {
    let x = CssIdent::new(Span::call_site(), "font_size");
    assert_eq!(x.css_name(), "font-size");
    assert!(x.is("font_size"));
    assert!(!x.is("font-size"));
}

#[test]
fn var_name_css_name_strips_raw_prefix() {
    let v = VarName { span: Span::call_site(), ident: "r#type".to_string() };
    assert_eq!(v.css_name(), "type");
    assert_eq!(v.formal_name(), "r#type");
    let v = VarName { span: Span::call_site(), ident: "color".to_string() };
    assert_eq!(v.css_name(), "color");
}

#[test]
fn content_eq_ignores_spans_and_compares_values() {
    assert!(ident("a").content_eq(&ident("a")));
    assert!(!ident("a").content_eq(&ident("b")));
    assert!(num(1).content_eq(&num(1)));
    assert!(!num(1).content_eq(&num(2)));
    let f = CssToken::Number(CssNumber { span: Span::call_site(), value: MaybeDyn::Static(Number::F32("1".to_string())) });
    assert!(!num(1).content_eq(&f));
    assert!(!ident("a").content_eq(&num(1)));
    let d1 = CssToken::String(CssString { span: Span::call_site(), s: MaybeDyn::Dyn(VarDynRef { span: Span::call_site(), index: 3 }) });
    let d2 = CssToken::String(CssString { span: Span::call_site(), s: MaybeDyn::Dyn(VarDynRef { span: Span::call_site(), index: 3 }) });
    assert!(d1.content_eq(&d2));
}

#[test]
fn content_eq_of_blocks_compares_common_prefix() {
    let a = CssToken::Paren(CssParen { span: Span::call_site(), block: stream(vec![ident("x"), ident("y")]) });
    let b = CssToken::Paren(CssParen { span: Span::call_site(), block: stream(vec![ident("x")]) });
    assert!(a.content_eq(&b));
    let c = CssToken::Paren(CssParen { span: Span::call_site(), block: stream(vec![ident("z")]) });
    assert!(!a.content_eq(&c));
}

#[test]
fn stream_next_and_expectations() {
    let mut s = stream(vec![ident("solid"), CssToken::Delim(CssDelim { span: Span::call_site(), s: "," }), num(3)]);
    assert!(s.expect_keyword("dashed").is_err());
    let k = s.expect_keyword("solid").unwrap();
    assert_eq!(k.formal_name, "solid");
    let e = s.expect_ident().unwrap_err();
    assert_eq!(e.message, "expected CSS identifier");
    assert!(s.expect_delim(",").is_ok());
    let n = s.expect_number().unwrap();
    assert_eq!(n.integer(), Some(3));
    assert!(s.is_ended());
    assert!(s.expect_ended().is_ok());
    assert_eq!(s.next().unwrap_err().message, "unexpected end");
}

#[test]
fn expect_keyword_message() {
    let mut s = stream(vec![ident("a")]);
    let e = s.expect_keyword("b").unwrap_err();
    assert_eq!(e.message, "expected `b`");
    let e = s.expect_ended().unwrap_err();
    assert_eq!(e.message, "expected end");
}

#[test]
fn positive_integer_of_numbers() {
    let n = CssNumber { span: Span::call_site(), value: MaybeDyn::Static(Number::I32(5)) };
    assert_eq!(n.positive_integer(), Some(5));
    let n = CssNumber { span: Span::call_site(), value: MaybeDyn::Static(Number::I32(0)) };
    assert_eq!(n.positive_integer(), None);
    let n = CssNumber { span: Span::call_site(), value: MaybeDyn::Static(Number::I32(-1)) };
    assert_eq!(n.positive_integer(), Some(u32::MAX));
}

#[test]
fn function_token_writes_name_and_block() {
    let f = CssToken::Function(CssFunction {
        span: Span::call_site(),
        formal_name: "translate_x".to_string(),
        block: stream(vec![num(1)]),
    });
    let mut w = CssWriter::new(false);
    w.write_ident("transform", true);
    w.write_colon();
    f.write_css(&mut w);
    assert_eq!(w.as_str(), "transform:translate-x(1)");
}

#[test]
fn string_token_writes_debug_quoted() {
    let s = CssToken::String(CssString { span: Span::call_site(), s: MaybeDyn::Static("a\"b".to_string()) });
    let mut w = CssWriter::new(false);
    s.write_css(&mut w);
    assert_eq!(w.as_str(), "\"a\\\"b\"");
}

#[test]
fn stream_takes_blocks_and_values() {
    let mut s = stream(vec![
        CssToken::Function(CssFunction { span: Span::call_site(), formal_name: "f".to_string(), block: stream(vec![]) }),
        CssToken::Paren(CssParen { span: Span::call_site(), block: stream(vec![ident("p")]) }),
        CssToken::Bracket(CssBracket { span: Span::call_site(), block: stream(vec![]) }),
        CssToken::Brace(CssBrace { span: Span::call_site(), block: stream(vec![]) }),
        CssToken::String(CssString { span: Span::call_site(), s: MaybeDyn::Static("s".to_string()) }),
        CssToken::Percentage(CssPercentage::new_int(Span::call_site(), 5)),
        CssToken::Dimension(CssDimension { span: Span::call_site(), value: MaybeDyn::Static(Number::I32(2)), unit: "px".to_string() }),
    ]);
    assert_eq!(s.parse_paren(|b| (b, Ok(()))).unwrap_err().message, "expected `(...)`");
    let f = s.parse_function(|name: &String, b| (b, Ok(name.clone()))).unwrap();
    assert_eq!((f.formal_name.as_str(), f.block.as_str()), ("f", "f"));
    assert!(matches!(s.peek(), Ok(CssToken::Paren(_))));
    let p = s.parse_paren(|mut b| {
        let t = b.expect_ident();
        (b, t)
    });
    assert_eq!(p.unwrap().block.formal_name, "p");
    assert_eq!(s.parse_brace(|b| (b, Ok(()))).unwrap_err().message, "expected `{...}`");
    assert!(s.parse_bracket(|b| (b, Ok(()))).is_ok());
    assert!(s.parse_brace(|b| (b, Ok(()))).is_ok());
    assert_eq!(s.expect_percentage().unwrap_err().message, "expected percentage (number with `%`)");
    assert_eq!(s.expect_string().unwrap().value(&[]), "s");
    assert!(s.expect_percentage().is_ok());
    assert_eq!(s.expect_dimension().unwrap().unit, "px");
    assert_eq!(s.peek().unwrap_err().message, "unexpected end");
}

#[test]
fn property_value_takes_all_tokens() {
    let mut s = stream(vec![ident("a"), ident("b")]);
    let v = CssTokenStream::parse_value(&CssIdent::new(Span::call_site(), "x"), &mut s).unwrap();
    assert_eq!(v.tokens.len(), 2);
    assert!(s.is_ended());
}

#[test]
fn var_name_into_ref() {
    let v = VarName { span: Span::call_site(), ident: "w".to_string() };
    assert_eq!(v.into_ref().ident, "w");
}

#[test]
fn content_eq_laws_on_values() {
    let a = CssToken::Paren(CssParen { span: Span::call_site(), block: stream(vec![ident("x"), num(1)]) });
    let b = CssToken::Paren(CssParen { span: Span::call_site(), block: stream(vec![ident("x"), num(1)]) });
    assert!(a.content_eq(&a));
    assert_eq!(a.content_eq(&b), b.content_eq(&a));
}

#[test]
fn tokens_read_at_other_places_have_the_same_content() {
    let here = CssToken::Brace(CssBrace {
        span: Span::call_site(),
        block: CssTokenStream::new(Span::call_site(), vec![CssToken::Ident(CssIdent::new(Span::call_site(), "a"))]),
    });
    let there = CssToken::Brace(CssBrace {
        span: Span::mixed_site(),
        block: CssTokenStream::new(Span::mixed_site(), vec![CssToken::Ident(CssIdent::new(Span::mixed_site(), "a"))]),
    });
    assert!(here.content_eq(&there));
    assert!(there.content_eq(&here));
}

#[test]
fn block_parser_must_use_up_the_block() {
    let mut s = stream(vec![
        CssToken::Paren(CssParen { span: Span::call_site(), block: stream(vec![ident("a"), ident("b")]) }),
        CssToken::Brace(CssBrace { span: Span::call_site(), block: stream(vec![ident("c")]) }),
    ]);
    let r = s.parse_paren(|mut b| {
        let t = b.expect_ident();
        (b, t)
    });
    assert_eq!(r.unwrap_err().message, "expected end");
    assert!(matches!(s.peek(), Ok(CssToken::Brace(_))));
    let r = s.parse_brace(|b| (b, Err::<(), _>(maomi_lib::values::ParseError::new(Span::call_site(), "inner"))));
    assert_eq!(r.unwrap_err().message, "inner");
    assert!(s.tokens.is_empty());
}
