use maomi_lib::css_token::{CssIdent, CssNumber, CssParen, CssToken, CssTokenStream};
use maomi_lib::style_sheet::{MediaCond, MediaQuery, MediaType, Property, SupportsCond, SupportsQuery};
use maomi_lib::values::{MaybeDyn, Number};
use maomi_lib::write_css::CssWriter;
use proc_macro2::Span;

fn ident(name: &str) -> CssIdent {
    CssIdent::new(Span::call_site(), name)
}

fn value(tokens: Vec<CssToken>) -> CssTokenStream {
    CssTokenStream::new(Span::call_site(), tokens)
}

fn dim_px(x: i32) -> CssToken {
    CssToken::Number(CssNumber { span: Span::call_site(), value: MaybeDyn::Static(Number::I32(x)) })
}

#[test]
fn property_is_name_colon_value_semi() {
    let p = Property { name: ident("font_size"), value: value(vec![CssToken::Ident(ident("large"))]) };
    let mut w = CssWriter::new(false);
    p.write_css_with_args(&mut w, &[]);
    assert_eq!(w.as_str(), "font-size:large;");
}

#[test]
fn media_query_type_and_features() {
    let q = MediaQuery {
        only: None,
        media_type: MediaType::Screen,
        cond_list: vec![MediaCond { not: None, name: ident("min_width"), cond: value(vec![dim_px(1)]) }],
    };
    let mut w = CssWriter::new(false);
    q.write_css_with_args(&mut w, &[]);
    assert_eq!(w.as_str(), "screen and (min-width:1)");

    let q = MediaQuery {
        only: None,
        media_type: MediaType::All,
        cond_list: vec![
            MediaCond { not: None, name: ident("a"), cond: value(vec![CssToken::Ident(ident("b"))]) },
            MediaCond { not: None, name: ident("c"), cond: value(vec![CssToken::Ident(ident("d"))]) },
        ],
    };
    let mut w = CssWriter::new(false);
    q.write_css_with_args(&mut w, &[]);
    assert_eq!(w.as_str(), "(a:b)and (c:d)");

    let q: MediaQuery<CssTokenStream> = MediaQuery { only: Some(ident("only")), media_type: MediaType::All, cond_list: vec![] };
    let mut w = CssWriter::new(false);
    q.write_css_with_args(&mut w, &[]);
    assert_eq!(w.as_str(), "only all");
}

#[test]
fn supports_query_lists() {
    let cond = |n: &str, v: &str| CssParen {
        span: Span::call_site(),
        block: SupportsQuery::Cond(SupportsCond { name: ident(n), value: value(vec![CssToken::Ident(ident(v))]) }),
    };
    let q = SupportsQuery::And(vec![cond("display", "grid"), cond("gap", "none")]);
    let mut w = CssWriter::new(false);
    q.write_css_with_args(&mut w, &[]);
    assert_eq!(w.as_str(), "(display:grid)and (gap:none)");

    let q = SupportsQuery::Not(Box::new(cond("display", "grid")));
    let mut w = CssWriter::new(false);
    q.write_css_with_args(&mut w, &[]);
    assert_eq!(w.as_str(), "not (display:grid)");
}
