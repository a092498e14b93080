//! Values that a style sheet may leave open until run time (dynamic arguments),
//! numbers, and the parse error type.
use vstd::prelude::*;

use crate::css_token::{CssToken, VarName};
use crate::text::{str_eq, to_owned_string};

verus! {

#[verifier::external_type_specification]
#[verifier::external_body]
pub struct ExSpan(proc_macro2::Span);

/// `Span` derives `Clone` alongside `Copy` in proc-macro2, so a clone is the same span.
pub assume_specification[ <proc_macro2::Span as Clone>::clone ](orig: &proc_macro2::Span) -> (r: proc_macro2::Span)
    ensures
        r == *orig,
;

/// A parse error: where it happened and what went wrong.
#[derive(Debug, Clone)]
pub struct ParseError {
    pub span: proc_macro2::Span,
    pub message: String,
}

impl ParseError {
    pub fn new(span: proc_macro2::Span, message: &str) -> (r: Self)
        ensures
            r.span == span,
            r.message@ == message@,
    {
        Self { span, message: to_owned_string(message) }
    }
}

/// A number in CSS text.
///
/// An integer is held as its value; a floating-point number is held as the
/// decimal text that Rust's `Display` gives for it.
#[derive(Debug, Clone)]
pub enum Number {
    I32(i32),
    F32(String),
}

/// Whether two numbers are equal.
pub open spec fn number_eq(a: Number, b: Number) -> bool {
    match (a, b) {
        (Number::I32(x), Number::I32(y)) => x == y,
        (Number::F32(x), Number::F32(y)) => x@ == y@,
        _ => false,
    }
}

impl Number {
    /// A copy of this number.
    pub fn duplicate(&self) -> (r: Number)
        ensures
            r == *self,
    {
        match self {
            Number::I32(x) => Number::I32(*x),
            Number::F32(s) => Number::F32(s.clone()),
        }
    }

    pub fn eq_number(&self, other: &Number) -> (r: bool)
        ensures
            r == number_eq(*self, *other),
    {
        match (self, other) {
            (Number::I32(x), Number::I32(y)) => *x == *y,
            (Number::F32(x), Number::F32(y)) => str_eq(x.as_str(), y.as_str()),
            _ => false,
        }
    }
}

/// A reference to the `index`-th dynamic argument.
#[derive(Debug, Clone)]
pub struct VarDynRef {
    pub span: proc_macro2::Span,
    pub index: usize,
}

/// A dynamic argument value.
#[derive(Debug, Clone)]
pub struct VarDynValue {
    pub span: proc_macro2::Span,
    pub kind: VarDynValueKind,
}

#[derive(Debug, Clone)]
pub enum VarDynValueKind {
    Str(String),
    Num(Number),
}

/// The type name of a dynamic value, as shown in error messages.
pub open spec fn dyn_value_type_name(v: VarDynValue) -> Seq<char> {
    match v.kind {
        VarDynValueKind::Str(_) => "&str"@,
        VarDynValueKind::Num(_) => "{number}"@,
    }
}

impl VarDynValue {
    pub fn type_label(&self) -> (r: &'static str)
        ensures
            r@ == dyn_value_type_name(*self),
    {
        match &self.kind {
            VarDynValueKind::Str(_) => "&str",
            VarDynValueKind::Num(_) => "{number}",
        }
    }
}

/// A value that is either known statically or given by a dynamic argument.
#[derive(Debug, Clone)]
pub enum MaybeDyn<T> {
    Static(T),
    Dyn(VarDynRef),
}

/// Equality of possibly dynamic strings (dynamic references compare by index).
pub open spec fn maybe_str_eq(a: MaybeDyn<String>, b: MaybeDyn<String>) -> bool {
    match (a, b) {
        (MaybeDyn::Static(x), MaybeDyn::Static(y)) => x@ == y@,
        (MaybeDyn::Dyn(x), MaybeDyn::Dyn(y)) => x.index == y.index,
        _ => false,
    }
}

/// Equality of possibly dynamic numbers (dynamic references compare by index).
pub open spec fn maybe_num_eq(a: MaybeDyn<Number>, b: MaybeDyn<Number>) -> bool {
    match (a, b) {
        (MaybeDyn::Static(x), MaybeDyn::Static(y)) => number_eq(x, y),
        (MaybeDyn::Dyn(x), MaybeDyn::Dyn(y)) => x.index == y.index,
        _ => false,
    }
}

/// A dynamic reference can be resolved against `values` (the index is in range).
pub open spec fn dyn_in_range<T>(m: MaybeDyn<T>, values: Seq<VarDynValue>) -> bool {
    match m {
        MaybeDyn::Static(_) => true,
        MaybeDyn::Dyn(r) => r.index < values.len(),
    }
}

/// The string a possibly dynamic string resolves to, when it resolves to one.
pub open spec fn maybe_str_value(m: MaybeDyn<String>, values: Seq<VarDynValue>) -> Option<Seq<char>> {
    match m {
        MaybeDyn::Static(x) => Some(x@),
        MaybeDyn::Dyn(r) => match values[r.index as int].kind {
            VarDynValueKind::Str(s) => Some(s@),
            VarDynValueKind::Num(_) => None,
        },
    }
}

/// The number a possibly dynamic number resolves to, when it resolves to one.
pub open spec fn maybe_num_value(m: MaybeDyn<Number>, values: Seq<VarDynValue>) -> Option<Number> {
    match m {
        MaybeDyn::Static(x) => Some(x),
        MaybeDyn::Dyn(r) => match values[r.index as int].kind {
            VarDynValueKind::Num(n) => Some(n),
            VarDynValueKind::Str(_) => None,
        },
    }
}

/// The message for a dynamic value of the wrong kind.
pub open spec fn mismatch_message(expected: Seq<char>, found: VarDynValue) -> Seq<char> {
    "expected "@ + expected + ", found "@ + dyn_value_type_name(found)
}

fn mismatch_error(span: proc_macro2::Span, expected: &str, found: &VarDynValue) -> (r: ParseError)
    ensures
        r.span == span,
        r.message@ == mismatch_message(expected@, *found),
{
    let mut message = String::new();
    message.append("expected ");
    message.append(expected);
    message.append(", found ");
    message.append(found.type_label());
    ParseError { span, message }
}

impl MaybeDyn<String> {
    pub fn eq_str_value(&self, other: &Self) -> (r: bool)
        ensures
            r == maybe_str_eq(*self, *other),
    {
        match (self, other) {
            (MaybeDyn::Static(x), MaybeDyn::Static(y)) => str_eq(x.as_str(), y.as_str()),
            (MaybeDyn::Dyn(x), MaybeDyn::Dyn(y)) => x.index == y.index,
            _ => false,
        }
    }

    /// The string this resolves to; an error when a dynamic argument is not a string.
    pub fn value<'a>(&'a self, values: &'a [VarDynValue]) -> (r: Result<&'a str, ParseError>)
        requires
            dyn_in_range(*self, values@),
        ensures
            r matches Ok(s) ==> maybe_str_value(*self, values@) == Some(s@),
            r is Err <==> maybe_str_value(*self, values@) is None,
            r matches Err(e) ==> (self matches MaybeDyn::Dyn(x) && e.span == x.span
                && e.message@ == mismatch_message("&str"@, values@[x.index as int])),
    {
        match self {
            MaybeDyn::Static(x) => Ok(x.as_str()),
            MaybeDyn::Dyn(x) => {
                let v = &values[x.index];
                match &v.kind {
                    VarDynValueKind::Str(s) => Ok(s.as_str()),
                    _ => Err(mismatch_error(x.span, "&str", v)),
                }
            },
        }
    }
}

impl MaybeDyn<Number> {
    pub fn eq_num_value(&self, other: &Self) -> (r: bool)
        ensures
            r == maybe_num_eq(*self, *other),
    {
        match (self, other) {
            (MaybeDyn::Static(x), MaybeDyn::Static(y)) => x.eq_number(y),
            (MaybeDyn::Dyn(x), MaybeDyn::Dyn(y)) => x.index == y.index,
            _ => false,
        }
    }

    /// The number this resolves to; an error when a dynamic argument is not a number.
    pub fn value(&self, values: &[VarDynValue]) -> (r: Result<Number, ParseError>)
        requires
            dyn_in_range(*self, values@),
        ensures
            r matches Ok(n) ==> maybe_num_value(*self, values@) == Some(n),
            r is Err <==> maybe_num_value(*self, values@) is None,
            r matches Err(e) ==> (self matches MaybeDyn::Dyn(x) && e.span == x.span
                && e.message@ == mismatch_message("{number}"@, values@[x.index as int])),
    {
        match self {
            MaybeDyn::Static(x) => Ok(x.duplicate()),
            MaybeDyn::Dyn(x) => {
                let v = &values[x.index];
                match &v.kind {
                    VarDynValueKind::Num(n) => Ok(n.duplicate()),
                    _ => Err(mismatch_error(x.span, "{number}", v)),
                }
            },
        }
    }
}

/// The type of a style argument.
#[derive(Debug, Clone, Copy)]
pub enum ArgType {
    Str(proc_macro2::Span),
    Num(proc_macro2::Span),
}

/// What a name in a style sheet scope stands for.
#[derive(Debug)]
pub enum ScopeVarValue {
    Token(CssToken),
    DynStr(VarDynRef),
    DynNum(VarDynRef),
    StyleDefinition(Vec<(VarName, ArgType)>),
}

/// The type name of a scope value, as shown in error messages.
pub open spec fn scope_value_type_name(v: ScopeVarValue) -> Seq<char> {
    match v {
        ScopeVarValue::Token(_) => "value"@,
        ScopeVarValue::DynStr(_) => "&str"@,
        ScopeVarValue::DynNum(_) => "{number}"@,
        ScopeVarValue::StyleDefinition(_) => "StyleDefinition"@,
    }
}

impl ScopeVarValue {
    pub fn type_label(&self) -> (r: &'static str)
        ensures
            r@ == scope_value_type_name(*self),
    {
        match self {
            ScopeVarValue::Token(_) => "value",
            ScopeVarValue::DynStr(_) => "&str",
            ScopeVarValue::DynNum(_) => "{number}",
            ScopeVarValue::StyleDefinition(_) => "StyleDefinition",
        }
    }
}

/// A module path in a style sheet (its segment names).
#[derive(Debug, Clone, Default)]
pub struct ModPath {
    pub segs: Vec<String>,
}

} // verus!
