use maomi_lib::css_token::{CssBrace, CssIdent, CssNumber, CssToken, CssTokenStream, WriteCss};
use maomi_lib::values::{MaybeDyn, Number, VarDynRef, VarDynValue, VarDynValueKind};
use maomi_lib::write_css::{CssWriter, SepRule, WriteCssSepCond};
use proc_macro2::Span;

fn ident(name: &str) -> CssToken {
    CssToken::Ident(CssIdent::new(Span::call_site(), name))
}

fn stream(tokens: Vec<CssToken>) -> CssTokenStream {
    CssTokenStream::new(Span::call_site(), tokens)
}

#[test]
fn release_idents_are_separated() {
    let mut w = CssWriter::new(false);
    w.write_ident("a", true);
    w.write_ident("b", true);
    w.write_colon();
    w.write_delim("-", true);
    w.write_ident("c", false);
    w.write_semi();
    assert_eq!(w.as_str(), "a b:- c;");
    assert_eq!(w.sep_cond(), WriteCssSepCond::Other);
}

#[test]
fn release_delims_need_space_only_where_they_would_merge() {
    let mut w = CssWriter::new(false);
    w.write_delim("|", false);
    w.write_delim("=", false);
    w.write_delim("/", false);
    w.write_delim("*", false);
    w.write_delim(".", false);
    w.write_ident("x", false);
    assert_eq!(w.into_string(), "| =/ *.x");
}

#[test]
fn release_at_keyword_and_line_wrap() {
    let mut w = CssWriter::new(false);
    w.write_at_keyword("media");
    w.line_wrap();
    w.write_ident("screen", true);
    assert_eq!(w.as_str(), "@media screen");
    assert!(!w.debug_mode());
}

#[test]
fn debug_mode_lays_out_lines() {
    let mut w = CssWriter::new(true);
    w.write_ident("a", true);
    w.write_ident("b", true);
    w.line_wrap();
    w.write_semi();
    assert_eq!(w.as_str(), "\na b\n;");
}

#[test]
fn brace_block_release_and_debug() {
    let mut w = CssWriter::new(false);
    w.write_ident("div", true);
    w.write_brace_block(&stream(vec![ident("color")]), &[]);
    assert_eq!(w.as_str(), "div{color}");

    let mut w = CssWriter::new(true);
    w.write_ident("div", true);
    w.write_brace_block(&stream(vec![ident("color")]), &[]);
    assert_eq!(w.as_str(), "\ndiv {\n    color\n}\n");

    let mut w = CssWriter::new(true);
    w.write_ident("div", true);
    w.write_brace_block(&stream(vec![]), &[]);
    assert_eq!(w.as_str(), "\ndiv {\n}\n");
}

#[test]
fn nested_brace_blocks_indent() {
    let inner = CssToken::Brace(CssBrace { span: Span::call_site(), block: stream(vec![ident("x")]) });
    let mut w = CssWriter::new(true);
    w.write_ident("a", true);
    w.write_brace_block(&stream(vec![ident("b"), inner]), &[]);
    assert_eq!(w.as_str(), "\na {\n    b {\n        x\n    }\n}\n");
}

#[test]
fn function_paren_bracket_blocks() {
    let mut w = CssWriter::new(false);
    w.write_ident("a", true);
    w.write_function_block(true, "calc", &stream(vec![ident("x")]), &[]);
    w.write_paren_block(&stream(vec![ident("y")]), &[]);
    w.write_bracket_block(&stream(vec![ident("z")]), &[]);
    assert_eq!(w.as_str(), "a calc(x)(y)[z]");

    let mut w = CssWriter::new(false);
    w.write_ident("a", true);
    w.write_paren_block(&stream(vec![]), &[]);
    assert_eq!(w.as_str(), "a ()");
}

#[test]
fn custom_write_numeric_rule() {
    let mut w = CssWriter::new(false);
    w.write_ident("a", true);
    w.custom_write(SepRule::Numeric, "1", WriteCssSepCond::Digit);
    w.custom_write(SepRule::DebugOnly, "%", WriteCssSepCond::Other);
    assert_eq!(w.as_str(), "a 1%");
}

#[test]
fn static_number_is_written_once() {
    let n = CssNumber { span: Span::call_site(), value: MaybeDyn::Static(Number::I32(-12)) };
    let mut w = CssWriter::new(false);
    n.write_css(&mut w);
    assert_eq!(w.as_str(), "-12");
    assert!(w.sep_cond() == WriteCssSepCond::Digit);
}

#[test]
fn plus_is_kept_apart_from_idents_and_numbers() {
    let mut w = CssWriter::new(false);
    w.write_ident("a", false);
    w.write_delim("+", false);
    assert_eq!(w.as_str(), "a +");
    let mut w = CssWriter::new(false);
    w.custom_write(SepRule::Numeric, "1", WriteCssSepCond::Digit);
    w.write_delim("+", false);
    assert_eq!(w.as_str(), "1 +");
    let mut w = CssWriter::new(false);
    w.write_at_keyword("x");
    w.write_delim("+", false);
    assert_eq!(w.as_str(), "@x +");
}

#[test]
fn function_after_sign_is_kept_apart() {
    let mut w = CssWriter::new(false);
    w.write_delim("-", false);
    w.begin_function_block(false, "calc");
    w.end_paren_block();
    assert_eq!(w.as_str(), "- calc()");
}

#[test]
fn dynamic_number_is_written_once() {
    let n = CssNumber {
        span: Span::call_site(),
        value: MaybeDyn::Dyn(VarDynRef { span: Span::call_site(), index: 0 }),
    };
    let values = vec![VarDynValue { span: Span::call_site(), kind: VarDynValueKind::Num(Number::F32("1.5".to_string())) }];
    let mut w = CssWriter::new(false);
    w.write_ident("x", true);
    n.write_css_with_args(&mut w, &values);
    assert_eq!(w.as_str(), "x 1.5");
}

#[test]
fn writing_appends_only() {
    let mut w = CssWriter::new(true);
    w.write_ident("a", true);
    let before = w.as_str().to_string();
    w.write_brace_block(&stream(vec![ident("b")]), &[]);
    assert!(w.as_str().starts_with(&before));
}

#[test]
fn brace_block_body_is_indented_one_level_deeper() {
    let mut w = CssWriter::new(true);
    w.write_ident("a", false);
    w.begin_brace_block();
    w.write_ident("b", false);
    w.begin_brace_block();
    w.write_ident("c", false);
    w.write_semi();
    w.end_brace_block();
    w.end_brace_block();
    w.write_ident("d", false);
    assert_eq!(w.as_str(), "\na {\n    b {\n        c;\n    }\n}\n\nd");
}
