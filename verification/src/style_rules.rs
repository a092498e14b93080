//! Parsing the rules of a class: properties, references to style
//! definitions, and the `if media`, `if supports` and pseudo-class blocks.
use vstd::prelude::*;

use proc_macro2::Span;

use crate::css_token::{css_name_of, token_span, CssIdent, CssToken, CssTokenStream, VarName};
use crate::style_parse::{
    eq_at, eq_parse, ident_parse, ident_token_at, ident_view, input_outcome, keyword_at, keyword_is_at, media_conds,
    media_query_at, media_query_parse, media_query_view, outcome, paren_at, paren_error, paren_error_at,
    position_span_at, supports_at, supports_list, supports_paren, supports_parse, supports_view, value_at,
    value_parse, value_tokens, value_view, MediaQueryView, SupportsView,
};
use crate::style_sheet::{MediaQuery, Property, SupportsQuery};
use crate::text::{replace_char_in, str_eq, to_owned_string};
use crate::token_parse::{
    fail, first_leftover, ident_at, leftover_at, leftover_in_paren, lemma_token_parse_advances, lookup_var,
    num_view, paren_group_at, parse_token_at, puncts_match, puncts_match_at, refs_view, span_of, stalled, token_error_span,
    token_parse, token_view, var_at, Delimiter, Failed, Group, Ident, NumValueView, NumView, ParseInput, Parsed,
    ScopeVars, StrValueView, TokenTree, TokenView,
};
use crate::values::{
    scope_value_type_name, ArgType, MaybeDyn, ParseError, ScopeVarValue, VarDynValue, VarDynValueKind,
};
use crate::write_css::{CssWriter, WriterState};

verus! {

/// A property by its name and its value.
pub type PropertyView = ((Span, Seq<char>), (Span, Seq<TokenView>));

pub open spec fn property_view(p: Property<CssTokenStream>) -> PropertyView {
    (ident_view(p.name), value_view(p.value))
}

/// The first `;` from `pos` on, or the end.
pub open spec fn semi_from(ts: Seq<TokenTree>, pos: int) -> int
    decreases ts.len() - pos,
{
    if pos < 0 || pos >= ts.len() {
        ts.len() as int
    } else if puncts_match(ts, pos, ";"@) {
        pos
    } else {
        semi_from(ts, pos + 1)
    }
}

/// The error that no `;` stands at `pos`, as a check before reading it
/// reports it.
pub open spec fn semi_check_error(ts: Seq<TokenTree>, pos: int, scope: Span) -> Failed {
    if 0 <= pos < ts.len() {
        fail(token_error_span(ts[pos]), "expected `;`"@)
    } else {
        fail(scope, "unexpected end of input, expected `;`"@)
    }
}

/// What a parse that stops with a value, or fails, leaves behind: the
/// value or the error (span and message), the position after it, the
/// variables referred to, and the first token left over inside a special
/// form.
pub struct Attempt<T> {
    pub result: Result<T, (Span, Seq<char>)>,
    pub next: int,
    pub refs: Seq<(Span, Seq<char>)>,
    pub leftover: Option<(Span, Delimiter)>,
}

/// `name = value` from `pos`, the value up to a `;` or the end.
pub open spec fn property_inner(
    ts: Seq<TokenTree>,
    pos: int,
    scope: Span,
    vars: Seq<(VarName, ScopeVarValue)>,
) -> Result<Parsed<PropertyView>, Failed> {
    match ident_parse(ts, pos, scope) {
        Err(e) => Err(e),
        Ok(n) => match eq_parse(ts, n.next, scope) {
            Err(e) => Err(e),
            Ok(after_eq) => match value_parse(ts, after_eq, scope, vars) {
                Err(e) => Err(e),
                Ok(v) => Ok(Parsed { value: (n.value, v.value), next: v.next, refs: v.refs, leftover: v.leftover }),
            },
        },
    }
}

/// The error kept after skipping to the next `;` from `pos`: `e` where a
/// `;` is found, else the error that it is missing.
pub open spec fn recovered_error(ts: Seq<TokenTree>, pos: int, scope: Span, e: Failed) -> (Span, Seq<char>) {
    if semi_from(ts, pos) < ts.len() {
        (e.span, e.message)
    } else {
        (scope, "expected `;`"@)
    }
}

/// The position after skipping to the next `;` from `pos` and reading it.
pub open spec fn recovered_next(ts: Seq<TokenTree>, pos: int) -> int {
    if semi_from(ts, pos) < ts.len() {
        semi_from(ts, pos) + 1
    } else {
        ts.len() as int
    }
}

/// A property `name = value;` at `pos`. Where it fails, the tokens up to
/// the next `;` are skipped and the `;` is read (the tokens a failed
/// property has read hold no `;` outside groups, so the skip from `pos`
/// ends where a skip from the failure would); with no `;` left, the error
/// is that it is missing. Tokens left over inside the special forms of a
/// value that then fails are not reported.
pub open spec fn property_attempt(
    ts: Seq<TokenTree>,
    pos: int,
    scope: Span,
    vars: Seq<(VarName, ScopeVarValue)>,
) -> Attempt<PropertyView> {
    match property_inner(ts, pos, scope, vars) {
        Ok(p) => if puncts_match(ts, p.next, ";"@) {
            Attempt { result: Ok(p.value), next: p.next + 1, refs: p.refs, leftover: p.leftover }
        } else {
            Attempt {
                result: Err(recovered_error(ts, p.next, scope, semi_check_error(ts, p.next, scope))),
                next: recovered_next(ts, p.next),
                refs: p.refs,
                leftover: p.leftover,
            }
        },
        Err(f) => Attempt {
            result: Err(recovered_error(ts, pos, scope, f)),
            next: recovered_next(ts, pos),
            refs: f.refs,
            leftover: None,
        },
    }
}

/// The result of an attempt against its abstract outcome.
pub open spec fn attempt_outcome<T, V>(
    r: Result<T, ParseError>,
    next: usize,
    lo: Option<(Span, Delimiter)>,
    a: Attempt<V>,
    view: spec_fn(T) -> V,
    refs_before: Seq<crate::css_token::VarRef>,
    refs_after: Seq<crate::css_token::VarRef>,
) -> bool {
    &&& next == a.next
    &&& lo == a.leftover
    &&& refs_view(refs_after) == refs_view(refs_before) + a.refs
    &&& match (r, a.result) {
        (Ok(t), Ok(v)) => view(t) == v,
        (Err(e), Err(f)) => e.span == f.0 && e.message@ == f.1,
        _ => false,
    }
}

proof fn lemma_semi_from_bounds(ts: Seq<TokenTree>, pos: int)
    requires
        0 <= pos,
    ensures
        pos <= semi_from(ts, pos) || semi_from(ts, pos) == ts.len(),
        semi_from(ts, pos) <= ts.len() || pos > ts.len(),
        semi_from(ts, pos) < ts.len() ==> puncts_match(ts, semi_from(ts, pos), ";"@),
    decreases ts.len() - pos,
{
    if pos < ts.len() && !puncts_match(ts, pos, ";"@) {
        lemma_semi_from_bounds(ts, pos + 1);
    }
}

/// The first `;` from `pos` on, or the end.
fn semi_from_at(ts: &Vec<TokenTree>, pos: usize) -> (r: usize)
    ensures
        r == semi_from(ts@, pos as int),
{
    let mut i = pos;
    if i >= ts.len() {
        return ts.len();
    }
    while i < ts.len() && !puncts_match_at(ts, i, ";")
        invariant
            pos <= i <= ts@.len(),
            semi_from(ts@, i as int) == semi_from(ts@, pos as int),
        decreases ts@.len() - i,
    {
        i = i + 1;
    }
    i
}

/// The error kept after skipping to the next `;` from `pos`.
pub(crate) fn recovered_error_at(ts: &Vec<TokenTree>, pos: usize, scope_span: Span, e: ParseError) -> (r: (ParseError, usize))
    ensures
        r.0.span == recovered_error(ts@, pos as int, scope_span, Failed { span: e.span, message: e.message@, refs: Seq::empty() }).0,
        r.0.message@ == recovered_error(ts@, pos as int, scope_span, Failed { span: e.span, message: e.message@, refs: Seq::empty() }).1,
        r.1 == recovered_next(ts@, pos as int),
{
    let s = semi_from_at(ts, pos);
    if s < ts.len() {
        (e, s + 1)
    } else {
        (ParseError::new(scope_span, "expected `;`"), ts.len())
    }
}

/// A property at `pos`, with the position after it and its leftover.
pub(crate) fn property_at(ts: &Vec<TokenTree>, pos: usize, scope_span: Span, scope: &mut ScopeVars) -> (r: (
    Result<Property<CssTokenStream>, ParseError>,
    usize,
    Option<(Span, Delimiter)>,
))
    ensures
        final(scope).vars == old(scope).vars,
        final(scope).cur_mod == old(scope).cur_mod,
        attempt_outcome(
            r.0,
            r.1,
            r.2,
            property_attempt(ts@, pos as int, scope_span, old(scope).vars@),
            |p: Property<CssTokenStream>| property_view(p),
            old(scope).var_refs@,
            final(scope).var_refs@,
        ),
{
    proof {
        assert(refs_view(scope.var_refs@) =~= refs_view(scope.var_refs@) + Seq::<(Span, Seq<char>)>::empty());
    }
    let inner = match ident_token_at(ts, pos, scope_span) {
        Err(e) => Err(e),
        Ok((name, n)) => match eq_at(ts, n, scope_span) {
            Err(e) => Err(e),
            Ok(after_eq) => match value_at(ts, after_eq, scope_span, scope) {
                Err(e) => Err(e),
                Ok((value, vn, lo)) => Ok((Property { name, value }, vn, lo)),
            },
        },
    };
    match inner {
        Ok((p, vn, lo)) => {
            if puncts_match_at(ts, vn, ";") {
                assert(vn < ts.len());
                (Ok(p), vn + 1, lo)
            } else {
                let e = if vn < ts.len() {
                    ParseError::new(position_span_at(ts, vn, scope_span), "expected `;`")
                } else {
                    ParseError::new(scope_span, "unexpected end of input, expected `;`")
                };
                let (e2, next) = recovered_error_at(ts, vn, scope_span, e);
                (Err(e2), next, lo)
            }
        },
        Err(e) => {
            let (e2, next) = recovered_error_at(ts, pos, scope_span, e);
            (Err(e2), next, None)
        },
    }
}

/// The result of a parse at the position of `input` that resumes at the
/// attempt's position, keeping its first leftover.
pub open spec fn input_attempt<T, V>(
    r: Result<T, ParseError>,
    a: Attempt<V>,
    view: spec_fn(T) -> V,
    input_before: ParseInput,
    input_after: ParseInput,
    refs_before: Seq<crate::css_token::VarRef>,
    refs_after: Seq<crate::css_token::VarRef>,
) -> bool {
    &&& input_after.tokens == input_before.tokens
    &&& input_after.scope == input_before.scope
    &&& input_after.pos == a.next
    &&& input_after.unexpected == first_leftover(input_before.unexpected, a.leftover)
    &&& refs_view(refs_after) == refs_view(refs_before) + a.refs
    &&& match (r, a.result) {
        (Ok(t), Ok(v)) => view(t) == v,
        (Err(e), Err(f)) => e.span == f.0 && e.message@ == f.1,
        _ => false,
    }
}

impl Property<CssTokenStream> {
    /// Parses `name = value;`. Where this fails, the tokens up to the next
    /// `;` are skipped and the `;` read; with no `;` left the error is that
    /// it is missing.
    pub fn parse_with_vars(input: &mut ParseInput, scope: &mut ScopeVars) -> (r: Result<Self, ParseError>)
        ensures
            final(scope).vars == old(scope).vars,
            final(scope).cur_mod == old(scope).cur_mod,
            input_attempt(
                r,
                property_attempt(old(input).tokens@, old(input).pos as int, old(input).scope, old(scope).vars@),
                |p: Property<CssTokenStream>| property_view(p),
                *old(input),
                *final(input),
                old(scope).var_refs@,
                final(scope).var_refs@,
            ),
    {
        let (r, next, lo) = property_at(input.tokens, input.pos, input.scope, scope);
        input.pos = next;
        if input.unexpected.is_none() {
            input.unexpected = lo;
        }
        r
    }
}


// ---------------------------------------------------------------------
// The items of a style: properties and references to style definitions.

/// An item of a style or class body.
#[derive(Debug)]
pub enum StyleContentItem<V> {
    CompilationError(ParseError),
    Property(Property<V>),
    StyleRef(VarName, Vec<MaybeDyn<VarDynValue>>),
}

/// The abstract value of an argument of a style reference.
pub enum DynArgView {
    Str(Span, Seq<char>),
    Num(Span, NumView),
    Dyn(Span, usize),
}

pub open spec fn dyn_arg_view(m: MaybeDyn<VarDynValue>) -> DynArgView {
    match m {
        MaybeDyn::Static(v) => match v.kind {
            VarDynValueKind::Str(s) => DynArgView::Str(v.span, s@),
            VarDynValueKind::Num(n) => DynArgView::Num(v.span, num_view(n)),
        },
        MaybeDyn::Dyn(r) => DynArgView::Dyn(r.span, r.index),
    }
}

pub open spec fn dyn_args_view(s: Seq<MaybeDyn<VarDynValue>>) -> Seq<DynArgView> {
    s.map_values(|m: MaybeDyn<VarDynValue>| dyn_arg_view(m))
}

/// The abstract value of an item.
pub enum ItemView {
    Error(Span, Seq<char>),
    Property(PropertyView),
    StyleRef((Span, Seq<char>), Seq<DynArgView>),
}

pub open spec fn item_view(i: StyleContentItem<CssTokenStream>) -> ItemView {
    match i {
        StyleContentItem::CompilationError(e) => ItemView::Error(e.span, e.message@),
        StyleContentItem::Property(p) => ItemView::Property(property_view(p)),
        StyleContentItem::StyleRef(v, args) => ItemView::StyleRef((v.span, v.ident@), dyn_args_view(args@)),
    }
}

pub open spec fn items_view(s: Seq<StyleContentItem<CssTokenStream>>) -> Seq<ItemView> {
    s.map_values(|i: StyleContentItem<CssTokenStream>| item_view(i))
}

/// The span of a token.
pub open spec fn view_span(t: TokenView) -> Span {
    match t {
        TokenView::Ident(s, _) => s,
        TokenView::String(s, _) => s,
        TokenView::Delim(s, _) => s,
        TokenView::Number(s, _) => s,
        TokenView::Percentage(s, _) => s,
        TokenView::Dimension(s, _, _) => s,
        TokenView::Color(s, _) => s,
        TokenView::Function(s, _, _, _) => s,
        TokenView::Paren(s, _, _) => s,
        TokenView::Bracket(s, _, _) => s,
        TokenView::Brace(s, _, _) => s,
    }
}

/// The argument a token gives for a parameter of type `ty`: a string for
/// `&str`, a number for `f32`.
pub open spec fn arg_value(t: TokenView, ty: ArgType) -> Option<DynArgView> {
    match ty {
        ArgType::Str(_) => match t {
            TokenView::String(sp, StrValueView::Static(s)) => Some(DynArgView::Str(sp, s)),
            TokenView::String(_, StrValueView::Dyn(sp, i)) => Some(DynArgView::Dyn(sp, i)),
            _ => None,
        },
        ArgType::Num(_) => match t {
            TokenView::Number(sp, NumValueView::Static(n)) => Some(DynArgView::Num(sp, n)),
            TokenView::Number(_, NumValueView::Dyn(sp, i)) => Some(DynArgView::Dyn(sp, i)),
            _ => None,
        },
    }
}

/// The message for an argument of the wrong type.
pub open spec fn arg_type_message(ty: ArgType) -> Seq<char> {
    match ty {
        ArgType::Str(_) => "expected &str"@,
        ArgType::Num(_) => "expected {number}"@,
    }
}

/// The error `message` that reading a punctuation token at `pos` gives
/// where it is not there.
pub open spec fn punct_error(ts: Seq<TokenTree>, pos: int, scope: Span, message: Seq<char>) -> Failed {
    if 0 <= pos < ts.len() {
        fail(token_error_span(ts[pos]), message)
    } else {
        fail(scope, message)
    }
}

/// The arguments of a style reference inside its parentheses, from `i`,
/// for the parameter types from index `k` of `tys`: one token each,
/// separated by `,`.
pub open spec fn style_args(
    cs: Seq<TokenTree>,
    i: int,
    close: Span,
    vars: Seq<(VarName, ScopeVarValue)>,
    tys: Seq<ArgType>,
    k: int,
) -> Result<Parsed<Seq<DynArgView>>, Failed>
    decreases cs.len() - i,
{
    if i < 0 || i >= cs.len() {
        if k < tys.len() {
            Err(fail(close, "unexpected end of input, arguments not enough"@))
        } else {
            Ok(Parsed { value: Seq::empty(), next: i, refs: Seq::empty(), leftover: None })
        }
    } else {
        match token_parse(cs, i, close, vars) {
            Err(e) => Err(e),
            Ok(t) => if t.next <= i || t.next > cs.len() {
                Err(stalled(close))
            } else if k < 0 || k >= tys.len() {
                Err(Failed { refs: t.refs, ..fail(view_span(t.value), "unnecessary argument"@) })
            } else {
                match arg_value(t.value, tys[k]) {
                    None => Err(Failed { refs: t.refs, ..fail(view_span(t.value), arg_type_message(tys[k])) }),
                    Some(v) => if t.next >= cs.len() {
                        if k + 1 < tys.len() {
                            Err(Failed { refs: t.refs, ..fail(close, "unexpected end of input, arguments not enough"@) })
                        } else {
                            Ok(Parsed { value: seq![v], next: t.next, refs: t.refs, leftover: t.leftover })
                        }
                    } else if !puncts_match(cs, t.next, ","@) {
                        Err(Failed { refs: t.refs, ..punct_error(cs, t.next, close, "expected `,`"@) })
                    } else {
                        match style_args(cs, t.next + 1, close, vars, tys, k + 1) {
                            Err(e) => Err(Failed { refs: t.refs + e.refs, ..e }),
                            Ok(rest) => Ok(
                                Parsed {
                                    value: seq![v] + rest.value,
                                    next: rest.next,
                                    refs: t.refs + rest.refs,
                                    leftover: first_leftover(t.leftover, rest.leftover),
                                },
                            ),
                        }
                    },
                }
            },
        }
    }
}

/// The parameter types of a style definition.
pub open spec fn arg_types(args: Seq<(VarName, ArgType)>) -> Seq<ArgType> {
    args.map_values(|a: (VarName, ArgType)| a.1)
}

/// A reference `name(args);` to a style definition: the identifier at
/// `pos` is followed by the parenthesis group `g`.
pub open spec fn style_ref_parse(
    ts: Seq<TokenTree>,
    pos: int,
    scope: Span,
    vars: Seq<(VarName, ScopeVarValue)>,
    i: Ident,
    g: Group,
) -> Result<Parsed<((Span, Seq<char>), Seq<DynArgView>)>, Failed> {
    match lookup_var(vars, i.name@) {
        None => Err(fail(i.span, "variable not declared"@)),
        Some(ScopeVarValue::StyleDefinition(args)) => {
            let r = seq![(i.span, i.name@)];
            match style_args(g.stream@, 0, g.span_close, vars, arg_types(args@), 0) {
                Err(e) => Err(Failed { refs: r + e.refs, ..e }),
                Ok(a) => if a.next < g.stream@.len() {
                    Err(Failed { refs: r + a.refs, ..fail(token_error_span(g.stream@[a.next]), "unexpected token"@) })
                } else if !puncts_match(ts, pos + 2, ";"@) {
                    Err(Failed { refs: r + a.refs, ..punct_error(ts, pos + 2, scope, "expected `;`"@) })
                } else {
                    Ok(Parsed { value: ((i.span, i.name@), a.value), next: pos + 3, refs: r + a.refs, leftover: a.leftover })
                },
            }
        },
        Some(v) => Err(fail(i.span, "expected StyleDefinition, found "@ + scope_value_type_name(v))),
    }
}

/// The message for an identifier followed by neither `=` nor parentheses.
pub open spec fn item_error_message() -> Seq<char> {
    "expected `=` (as property) or `(...)` (as style reference)"@
}

/// The items from `pos`, while an identifier starts one: a property where
/// `=` follows the identifier (a property that fails is skipped), a style
/// reference where parentheses follow it.
pub open spec fn content_items(
    ts: Seq<TokenTree>,
    pos: int,
    scope: Span,
    vars: Seq<(VarName, ScopeVarValue)>,
) -> Result<Parsed<Seq<ItemView>>, Failed>
    decreases ts.len() - pos,
{
    if pos < 0 || pos >= ts.len() || var_at(ts, pos) is None {
        Ok(Parsed { value: Seq::empty(), next: pos, refs: Seq::empty(), leftover: None })
    } else if puncts_match(ts, pos + 1, "="@) {
        let a = property_attempt(ts, pos, scope, vars);
        if a.next <= pos || a.next > ts.len() {
            Err(stalled(scope))
        } else {
            match content_items(ts, a.next, scope, vars) {
                Err(e) => Err(Failed { refs: a.refs + e.refs, ..e }),
                Ok(rest) => Ok(
                    Parsed {
                        value: match a.result {
                            Ok(p) => seq![ItemView::Property(p)] + rest.value,
                            Err(_) => rest.value,
                        },
                        next: rest.next,
                        refs: a.refs + rest.refs,
                        leftover: first_leftover(a.leftover, rest.leftover),
                    },
                ),
            }
        }
    } else if paren_group_at(ts, pos + 1) is Some {
        match style_ref_parse(ts, pos, scope, vars, var_at(ts, pos)->0, paren_group_at(ts, pos + 1)->0) {
            Err(e) => Err(e),
            Ok(sr) => match content_items(ts, pos + 3, scope, vars) {
                Err(e) => Err(Failed { refs: sr.refs + e.refs, ..e }),
                Ok(rest) => Ok(
                    Parsed {
                        value: seq![ItemView::StyleRef(sr.value.0, sr.value.1)] + rest.value,
                        next: rest.next,
                        refs: sr.refs + rest.refs,
                        leftover: first_leftover(sr.leftover, rest.leftover),
                    },
                ),
            },
        }
    } else if pos + 1 < ts.len() {
        Err(fail(token_error_span(ts[pos + 1]), item_error_message()))
    } else {
        Err(fail(scope, "unexpected end of input, expected `=` (as property) or `(...)` (as style reference)"@))
    }
}

/// The argument `t` gives for a parameter of type `ty`.
fn arg_of(t: CssToken, ty: ArgType) -> (r: Option<MaybeDyn<VarDynValue>>)
    ensures
        match r {
            Some(m) => arg_value(token_view(t), ty) == Some(dyn_arg_view(m)),
            None => arg_value(token_view(t), ty) is None,
        },
{
    match ty {
        ArgType::Str(_) => match t {
            CssToken::String(s) => match s.s {
                MaybeDyn::Static(x) => Some(MaybeDyn::Static(VarDynValue { span: s.span, kind: VarDynValueKind::Str(x) })),
                MaybeDyn::Dyn(x) => Some(MaybeDyn::Dyn(x)),
            },
            _ => None,
        },
        ArgType::Num(_) => match t {
            CssToken::Number(s) => match s.value {
                MaybeDyn::Static(x) => Some(MaybeDyn::Static(VarDynValue { span: s.span, kind: VarDynValueKind::Num(x) })),
                MaybeDyn::Dyn(x) => Some(MaybeDyn::Dyn(x)),
            },
            _ => None,
        },
    }
}

pub(crate) proof fn lemma_view_span(t: CssToken)
    ensures
        view_span(token_view(t)) == token_span(t),
{
}

/// The arguments of a style reference from `i` of `cs`.
fn style_args_at(
    cs: &Vec<TokenTree>,
    i: usize,
    close: Span,
    scope: &mut ScopeVars,
    tys: &Vec<ArgType>,
    k: usize,
) -> (r: Result<(Vec<MaybeDyn<VarDynValue>>, usize, Option<(Span, Delimiter)>), ParseError>)
    ensures
        final(scope).vars == old(scope).vars,
        final(scope).cur_mod == old(scope).cur_mod,
        outcome(
            r,
            style_args(cs@, i as int, close, old(scope).vars@, tys@, k as int),
            |v: Vec<MaybeDyn<VarDynValue>>| dyn_args_view(v@),
            old(scope).var_refs@,
            final(scope).var_refs@,
        ),
    decreases cs@.len() - i,
{
    let ghost vars = scope.vars@;
    let ghost refs0 = scope.var_refs@;
    proof {
        assert(refs_view(scope.var_refs@) =~= refs_view(scope.var_refs@) + Seq::<(Span, Seq<char>)>::empty());
    }
    if i >= cs.len() {
        if k < tys.len() {
            return Err(ParseError::new(close, "unexpected end of input, arguments not enough"));
        } else {
            let v: Vec<MaybeDyn<VarDynValue>> = Vec::new();
            assert(dyn_args_view(v@) =~= Seq::<DynArgView>::empty());
            return Ok((v, i, None));
        }
    }
    match parse_token_at(cs, i, close, scope) {
        Err(e) => Err(e),
        Ok((t, next, lo)) => {
            proof {
                lemma_token_parse_advances(cs@, i as int, close, vars);
                lemma_view_span(t);
            }
            let ghost tp = token_parse(cs@, i as int, close, vars)->Ok_0;
            let span = t.span();
            if k >= tys.len() {
                return Err(ParseError::new(span, "unnecessary argument"));
            }
            let ty = tys[k];
            match arg_of(t, ty) {
                None => {
                    let m = match ty {
                        ArgType::Str(_) => "expected &str",
                        ArgType::Num(_) => "expected {number}",
                    };
                    Err(ParseError::new(span, m))
                },
                Some(v) => if next >= cs.len() {
                    if k + 1 < tys.len() {
                        Err(ParseError::new(close, "unexpected end of input, arguments not enough"))
                    } else {
                        let r = vec![v];
                        assert(dyn_args_view(r@) =~= seq![dyn_arg_view(v)]);
                        Ok((r, next, lo))
                    }
                } else if !puncts_match_at(cs, next, ",") {
                    Err(ParseError::new(position_span_at(cs, next, close), "expected `,`"))
                } else {
                    match style_args_at(cs, next + 1, close, scope, tys, k + 1) {
                        Err(e) => {
                            assert(refs_view(scope.var_refs@) =~= refs_view(refs0) + (tp.refs
                                + style_args(cs@, next + 1, close, vars, tys@, k + 1)->Err_0.refs));
                            Err(e)
                        },
                        Ok((mut rest, n, lo2)) => {
                            let ghost rest0 = rest@;
                            rest.insert(0, v);
                            proof {
                                assert(dyn_args_view(rest@) =~= seq![dyn_arg_view(v)] + dyn_args_view(rest0));
                                assert(refs_view(scope.var_refs@) =~= refs_view(refs0) + (tp.refs
                                    + style_args(cs@, next + 1, close, vars, tys@, k + 1)->Ok_0.refs));
                            }
                            let l = if lo.is_some() { lo } else { lo2 };
                            Ok((rest, n, l))
                        },
                    }
                },
            }
        },
    }
}

proof fn lemma_value_tokens_bounds(ts: Seq<TokenTree>, pos: int, scope: Span, vars: Seq<(VarName, ScopeVarValue)>)
    requires
        0 <= pos <= ts.len(),
    ensures
        value_tokens(ts, pos, scope, vars) matches Ok(p) ==> pos <= p.next <= ts.len(),
    decreases ts.len() - pos,
{
    if pos < ts.len() && !puncts_match(ts, pos, ";"@) {
        lemma_token_parse_advances(ts, pos, scope, vars);
        if let Ok(t) = token_parse(ts, pos, scope, vars) {
            if pos < t.next <= ts.len() {
                lemma_value_tokens_bounds(ts, t.next, scope, vars);
            }
        }
    }
}

pub(crate) proof fn lemma_property_attempt_advances(ts: Seq<TokenTree>, pos: int, scope: Span, vars: Seq<(VarName, ScopeVarValue)>)
    requires
        0 <= pos < ts.len(),
    ensures
        pos < property_attempt(ts, pos, scope, vars).next <= ts.len(),
{
    lemma_semi_from_bounds(ts, pos);
    if let Ok(n) = ident_parse(ts, pos, scope) {
        if let Ok(after_eq) = eq_parse(ts, n.next, scope) {
            lemma_value_tokens_bounds(ts, after_eq, scope, vars);
            if let Ok(v) = value_parse(ts, after_eq, scope, vars) {
                lemma_semi_from_bounds(ts, v.next);
            }
        }
    }
}

/// The parameter types of a style definition.
fn arg_types_of(args: &Vec<(VarName, ArgType)>) -> (r: Vec<ArgType>)
    ensures
        r@ == arg_types(args@),
{
    let mut r: Vec<ArgType> = Vec::new();
    let mut j: usize = 0;
    while j < args.len()
        invariant
            j <= args@.len(),
            r@ == arg_types(args@.take(j as int)),
        decreases args@.len() - j,
    {
        r.push(args[j].1);
        proof {
            assert(args@.take(j + 1) =~= args@.take(j as int).push(args@[j as int]));
            assert(arg_types(args@.take(j + 1)) =~= arg_types(args@.take(j as int)).push(args@[j as int].1));
        }
        j = j + 1;
    }
    assert(args@.take(j as int) =~= args@);
    r
}

/// A reference `name(args);` at `pos`, where `i` is the identifier at
/// `pos` and `g` the parenthesis group after it.
fn style_ref_at(
    ts: &Vec<TokenTree>,
    pos: usize,
    scope_span: Span,
    scope: &mut ScopeVars,
    i: &Ident,
    g: &Group,
) -> (r: Result<((VarName, Vec<MaybeDyn<VarDynValue>>), usize, Option<(Span, Delimiter)>), ParseError>)
    requires
        pos + 1 < ts@.len(),
    ensures
        final(scope).vars == old(scope).vars,
        final(scope).cur_mod == old(scope).cur_mod,
        outcome(
            r,
            style_ref_parse(ts@, pos as int, scope_span, old(scope).vars@, *i, *g),
            |x: (VarName, Vec<MaybeDyn<VarDynValue>>)| ((x.0.span, x.0.ident@), dyn_args_view(x.1@)),
            old(scope).var_refs@,
            final(scope).var_refs@,
        ),
{
    let ghost vars = scope.vars@;
    let ghost refs0 = scope.var_refs@;
    proof {
        assert(refs_view(scope.var_refs@) =~= refs_view(scope.var_refs@) + Seq::<(Span, Seq<char>)>::empty());
    }
    assert(pos + 1 < ts.len());
    let tys = match scope.lookup(i.name.as_str()) {
        None => {
            return Err(ParseError::new(i.span, "variable not declared"));
        },
        Some(ScopeVarValue::StyleDefinition(args)) => arg_types_of(args),
        Some(v) => {
            let mut m = to_owned_string("expected StyleDefinition, found ");
            m.append(v.type_label());
            return Err(ParseError { span: i.span, message: m });
        },
    };
    scope.refer(i);
    let ghost refs1 = scope.var_refs@;
    let content = &g.stream;
    match style_args_at(content, 0, g.span_close, scope, &tys, 0) {
        Err(e) => {
            assert(refs_view(scope.var_refs@) =~= refs_view(refs0) + (seq![(i.span, i.name@)]
                + style_args(content@, 0, g.span_close, vars, tys@, 0)->Err_0.refs));
            Err(e)
        },
        Ok((args, n, lo)) => {
            assert(refs_view(scope.var_refs@) =~= refs_view(refs0) + (seq![(i.span, i.name@)]
                + style_args(content@, 0, g.span_close, vars, tys@, 0)->Ok_0.refs));
            if n < content.len() {
                Err(ParseError::new(position_span_at(content, n, g.span_close), "unexpected token"))
            } else if !puncts_match_at(ts, pos + 2, ";") {
                Err(ParseError::new(position_span_at(ts, pos + 2, scope_span), "expected `;`"))
            } else {
                assert(pos + 2 < ts.len());
                let name = VarName { span: i.span, ident: to_owned_string(i.name.as_str()) };
                Ok(((name, args), pos + 3, lo))
            }
        },
    }
}

/// A property at `pos` (where `=` follows the identifier), then the items
/// after it.
fn property_then_items(ts: &Vec<TokenTree>, pos: usize, scope_span: Span, scope: &mut ScopeVars) -> (r: Result<
    (Vec<StyleContentItem<CssTokenStream>>, usize, Option<(Span, Delimiter)>),
    ParseError,
>)
    requires
        pos < ts@.len(),
        var_at(ts@, pos as int) is Some,
        puncts_match(ts@, pos + 1, "="@),
    ensures
        final(scope).vars == old(scope).vars,
        final(scope).cur_mod == old(scope).cur_mod,
        outcome(
            r,
            content_items(ts@, pos as int, scope_span, old(scope).vars@),
            |v: Vec<StyleContentItem<CssTokenStream>>| items_view(v@),
            old(scope).var_refs@,
            final(scope).var_refs@,
        ),
    decreases ts@.len() - pos, 0int,
{
    let ghost vars = scope.vars@;
    let ghost refs0 = scope.var_refs@;
    proof {
        lemma_property_attempt_advances(ts@, pos as int, scope_span, vars);
    }
    let ghost a = property_attempt(ts@, pos as int, scope_span, vars);
    let (p, next, lo) = property_at(ts, pos, scope_span, scope);
    match content_items_at(ts, next, scope_span, scope) {
        Err(e) => {
            assert(refs_view(scope.var_refs@) =~= refs_view(refs0) + (a.refs
                + content_items(ts@, next as int, scope_span, vars)->Err_0.refs));
            Err(e)
        },
        Ok((mut rest, n, lo2)) => {
            let ghost rest0 = rest@;
            proof {
                assert(refs_view(scope.var_refs@) =~= refs_view(refs0) + (a.refs
                    + content_items(ts@, next as int, scope_span, vars)->Ok_0.refs));
            }
            match p {
                Ok(p) => {
                    let item = StyleContentItem::Property(p);
                    rest.insert(0, item);
                    assert(items_view(rest@) =~= seq![item_view(item)] + items_view(rest0));
                },
                Err(_) => {},
            }
            let l = if lo.is_some() { lo } else { lo2 };
            Ok((rest, n, l))
        },
    }
}

/// A style reference at `pos` (the identifier `i` followed by the
/// parenthesis group `g`), then the items after it.
fn style_ref_then_items(
    ts: &Vec<TokenTree>,
    pos: usize,
    scope_span: Span,
    scope: &mut ScopeVars,
    i: &Ident,
    g: &Group,
) -> (r: Result<(Vec<StyleContentItem<CssTokenStream>>, usize, Option<(Span, Delimiter)>), ParseError>)
    requires
        pos + 1 < ts@.len(),
        var_at(ts@, pos as int) == Some(*i),
        !puncts_match(ts@, pos + 1, "="@),
        paren_group_at(ts@, pos + 1) == Some(*g),
    ensures
        final(scope).vars == old(scope).vars,
        final(scope).cur_mod == old(scope).cur_mod,
        outcome(
            r,
            content_items(ts@, pos as int, scope_span, old(scope).vars@),
            |v: Vec<StyleContentItem<CssTokenStream>>| items_view(v@),
            old(scope).var_refs@,
            final(scope).var_refs@,
        ),
    decreases ts@.len() - pos, 0int,
{
    let ghost vars = scope.vars@;
    let ghost refs0 = scope.var_refs@;
    match style_ref_at(ts, pos, scope_span, scope, i, g) {
        Err(e) => Err(e),
        Ok(((name, args), next, lo)) => {
            let ghost sr = style_ref_parse(ts@, pos as int, scope_span, vars, *i, *g)->Ok_0;
            match content_items_at(ts, next, scope_span, scope) {
                Err(e) => {
                    assert(refs_view(scope.var_refs@) =~= refs_view(refs0) + (sr.refs
                        + content_items(ts@, next as int, scope_span, vars)->Err_0.refs));
                    Err(e)
                },
                Ok((mut rest, n, lo2)) => {
                    let ghost rest0 = rest@;
                    let item = StyleContentItem::StyleRef(name, args);
                    rest.insert(0, item);
                    proof {
                        assert(items_view(rest@) =~= seq![item_view(item)] + items_view(rest0));
                        assert(refs_view(scope.var_refs@) =~= refs_view(refs0) + (sr.refs
                            + content_items(ts@, next as int, scope_span, vars)->Ok_0.refs));
                    }
                    let l = if lo.is_some() { lo } else { lo2 };
                    Ok((rest, n, l))
                },
            }
        },
    }
}

/// The items from `pos`.
pub(crate) fn content_items_at(ts: &Vec<TokenTree>, pos: usize, scope_span: Span, scope: &mut ScopeVars) -> (r: Result<
    (Vec<StyleContentItem<CssTokenStream>>, usize, Option<(Span, Delimiter)>),
    ParseError,
>)
    ensures
        final(scope).vars == old(scope).vars,
        final(scope).cur_mod == old(scope).cur_mod,
        outcome(
            r,
            content_items(ts@, pos as int, scope_span, old(scope).vars@),
            |v: Vec<StyleContentItem<CssTokenStream>>| items_view(v@),
            old(scope).var_refs@,
            final(scope).var_refs@,
        ),
    decreases ts@.len() - pos, 1int,
{
    proof {
        assert(refs_view(scope.var_refs@) =~= refs_view(scope.var_refs@) + Seq::<(Span, Seq<char>)>::empty());
    }
    let i = match ident_at(ts, pos) {
        None => {
            let v: Vec<StyleContentItem<CssTokenStream>> = Vec::new();
            assert(items_view(v@) =~= Seq::<ItemView>::empty());
            return Ok((v, pos, None));
        },
        Some(i) => i,
    };
    if puncts_match_at(ts, pos + 1, "=") {
        property_then_items(ts, pos, scope_span, scope)
    } else {
        match paren_at(ts, pos + 1) {
            Some(g) => style_ref_then_items(ts, pos, scope_span, scope, i, g),
            None => if pos + 1 < ts.len() {
                Err(
                    ParseError::new(
                        position_span_at(ts, pos + 1, scope_span),
                        "expected `=` (as property) or `(...)` (as style reference)",
                    ),
                )
            } else {
                Err(
                    ParseError::new(
                        scope_span,
                        "unexpected end of input, expected `=` (as property) or `(...)` (as style reference)",
                    ),
                )
            },
        }
    }
}

impl StyleContentItem<CssTokenStream> {
    /// Parses the items while an identifier starts one: `name = value;` as
    /// a property (one that fails is skipped up to its `;`), or
    /// `name(args);` as a reference to a style definition.
    pub fn parse_with_vars(input: &mut ParseInput, scope: &mut ScopeVars) -> (r: Result<Vec<Self>, ParseError>)
        ensures
            final(scope).vars == old(scope).vars,
            final(scope).cur_mod == old(scope).cur_mod,
            input_outcome(
                r,
                content_items(old(input).tokens@, old(input).pos as int, old(input).scope, old(scope).vars@),
                |v: Vec<StyleContentItem<CssTokenStream>>| items_view(v@),
                *old(input),
                *final(input),
                old(scope).var_refs@,
                final(scope).var_refs@,
            ),
    {
        match content_items_at(input.tokens, input.pos, input.scope, scope) {
            Err(e) => Err(e),
            Ok((v, next, lo)) => {
                input.pos = next;
                if input.unexpected.is_none() {
                    input.unexpected = lo;
                }
                Ok(v)
            },
        }
    }
}


// ---------------------------------------------------------------------
// Pseudo classes.

/// The direction a `dir(..)` pseudo class tests.
#[derive(Debug, Clone, Copy, PartialEq, Eq, Structural)]
pub enum PseudoDir {
    Ltr,
    Rtl,
}

/// The supported pseudo classes (tree-structural ones are left to
/// templates).
#[derive(Debug)]
pub enum Pseudo {
    Fullscreen,
    Modal,
    PictureInPicture,
    Autofill,
    Enabled,
    Disabled,
    ReadOnly,
    ReadWrite,
    PlaceholderShown,
    Default,
    Checked,
    Blank,
    Valid,
    Invalid,
    InRange,
    OutOfRange,
    Required,
    Optional,
    UserInvalid,
    Dir(PseudoDir),
    Lang(CssIdent),
    AnyLink,
    Link,
    Visited,
    LocalLink,
    Target,
    TargetWithin,
    Scope,
    Playing,
    Paused,
    Current,
    Past,
    Future,
    Hover,
    Active,
    Focus,
    FocusVisible,
    FocusWithin,
}

/// The abstract value of a pseudo class: a plain one by the name it is
/// written with, `dir(..)` by its direction, `lang(..)` by its identifier.
pub enum PseudoView {
    Named(Seq<char>),
    Dir(PseudoDir),
    Lang(Span, Seq<char>),
}

/// Whether `name` names a pseudo class that takes no argument.
pub open spec fn is_plain_pseudo(name: Seq<char>) -> bool {
    ||| name == "fullscreen"@
    ||| name == "modal"@
    ||| name == "picture_in_picture"@
    ||| name == "autofill"@
    ||| name == "enabled"@
    ||| name == "disabled"@
    ||| name == "read_only"@
    ||| name == "read_write"@
    ||| name == "placeholder_shown"@
    ||| name == "default"@
    ||| name == "checked"@
    ||| name == "blank"@
    ||| name == "valid"@
    ||| name == "invalid"@
    ||| name == "in_range"@
    ||| name == "out_of_range"@
    ||| name == "required"@
    ||| name == "optional"@
    ||| name == "user_invalid"@
    ||| name == "any_link"@
    ||| name == "link"@
    ||| name == "visited"@
    ||| name == "local_link"@
    ||| name == "target"@
    ||| name == "target_within"@
    ||| name == "scope"@
    ||| name == "playing"@
    ||| name == "paused"@
    ||| name == "current"@
    ||| name == "past"@
    ||| name == "future"@
    ||| name == "hover"@
    ||| name == "active"@
    ||| name == "focus"@
    ||| name == "focus_visible"@
    ||| name == "focus_within"@
}

pub open spec fn pseudo_view(p: Pseudo) -> PseudoView {
    match p {
        Pseudo::Fullscreen => PseudoView::Named("fullscreen"@),
        Pseudo::Modal => PseudoView::Named("modal"@),
        Pseudo::PictureInPicture => PseudoView::Named("picture_in_picture"@),
        Pseudo::Autofill => PseudoView::Named("autofill"@),
        Pseudo::Enabled => PseudoView::Named("enabled"@),
        Pseudo::Disabled => PseudoView::Named("disabled"@),
        Pseudo::ReadOnly => PseudoView::Named("read_only"@),
        Pseudo::ReadWrite => PseudoView::Named("read_write"@),
        Pseudo::PlaceholderShown => PseudoView::Named("placeholder_shown"@),
        Pseudo::Default => PseudoView::Named("default"@),
        Pseudo::Checked => PseudoView::Named("checked"@),
        Pseudo::Blank => PseudoView::Named("blank"@),
        Pseudo::Valid => PseudoView::Named("valid"@),
        Pseudo::Invalid => PseudoView::Named("invalid"@),
        Pseudo::InRange => PseudoView::Named("in_range"@),
        Pseudo::OutOfRange => PseudoView::Named("out_of_range"@),
        Pseudo::Required => PseudoView::Named("required"@),
        Pseudo::Optional => PseudoView::Named("optional"@),
        Pseudo::UserInvalid => PseudoView::Named("user_invalid"@),
        Pseudo::Dir(d) => PseudoView::Dir(d),
        Pseudo::Lang(x) => PseudoView::Lang(x.span, x.formal_name@),
        Pseudo::AnyLink => PseudoView::Named("any_link"@),
        Pseudo::Link => PseudoView::Named("link"@),
        Pseudo::Visited => PseudoView::Named("visited"@),
        Pseudo::LocalLink => PseudoView::Named("local_link"@),
        Pseudo::Target => PseudoView::Named("target"@),
        Pseudo::TargetWithin => PseudoView::Named("target_within"@),
        Pseudo::Scope => PseudoView::Named("scope"@),
        Pseudo::Playing => PseudoView::Named("playing"@),
        Pseudo::Paused => PseudoView::Named("paused"@),
        Pseudo::Current => PseudoView::Named("current"@),
        Pseudo::Past => PseudoView::Named("past"@),
        Pseudo::Future => PseudoView::Named("future"@),
        Pseudo::Hover => PseudoView::Named("hover"@),
        Pseudo::Active => PseudoView::Named("active"@),
        Pseudo::Focus => PseudoView::Named("focus"@),
        Pseudo::FocusVisible => PseudoView::Named("focus_visible"@),
        Pseudo::FocusWithin => PseudoView::Named("focus_within"@),
    }
}

/// The pseudo class without argument named `name`.
fn plain_pseudo(name: &str) -> (r: Option<Pseudo>)
    ensures
        match r {
            Some(p) => is_plain_pseudo(name@) && pseudo_view(p) == PseudoView::Named(name@),
            None => !is_plain_pseudo(name@),
        },
{
    let r = 
if str_eq(name, "fullscreen") {
        Some(Pseudo::Fullscreen)
    } else if str_eq(name, "modal") {
        Some(Pseudo::Modal)
    } else if str_eq(name, "picture_in_picture") {
        Some(Pseudo::PictureInPicture)
    } else if str_eq(name, "autofill") {
        Some(Pseudo::Autofill)
    } else if str_eq(name, "enabled") {
        Some(Pseudo::Enabled)
    } else if str_eq(name, "disabled") {
        Some(Pseudo::Disabled)
    } else if str_eq(name, "read_only") {
        Some(Pseudo::ReadOnly)
    } else if str_eq(name, "read_write") {
        Some(Pseudo::ReadWrite)
    } else if str_eq(name, "placeholder_shown") {
        Some(Pseudo::PlaceholderShown)
    } else if str_eq(name, "default") {
        Some(Pseudo::Default)
    } else if str_eq(name, "checked") {
        Some(Pseudo::Checked)
    } else if str_eq(name, "blank") {
        Some(Pseudo::Blank)
    } else if str_eq(name, "valid") {
        Some(Pseudo::Valid)
    } else if str_eq(name, "invalid") {
        Some(Pseudo::Invalid)
    } else if str_eq(name, "in_range") {
        Some(Pseudo::InRange)
    } else if str_eq(name, "out_of_range") {
        Some(Pseudo::OutOfRange)
    } else if str_eq(name, "required") {
        Some(Pseudo::Required)
    } else if str_eq(name, "optional") {
        Some(Pseudo::Optional)
    } else if str_eq(name, "user_invalid") {
        Some(Pseudo::UserInvalid)
    } else if str_eq(name, "any_link") {
        Some(Pseudo::AnyLink)
    } else if str_eq(name, "link") {
        Some(Pseudo::Link)
    } else if str_eq(name, "visited") {
        Some(Pseudo::Visited)
    } else if str_eq(name, "local_link") {
        Some(Pseudo::LocalLink)
    } else if str_eq(name, "target") {
        Some(Pseudo::Target)
    } else if str_eq(name, "target_within") {
        Some(Pseudo::TargetWithin)
    } else if str_eq(name, "scope") {
        Some(Pseudo::Scope)
    } else if str_eq(name, "playing") {
        Some(Pseudo::Playing)
    } else if str_eq(name, "paused") {
        Some(Pseudo::Paused)
    } else if str_eq(name, "current") {
        Some(Pseudo::Current)
    } else if str_eq(name, "past") {
        Some(Pseudo::Past)
    } else if str_eq(name, "future") {
        Some(Pseudo::Future)
    } else if str_eq(name, "hover") {
        Some(Pseudo::Hover)
    } else if str_eq(name, "active") {
        Some(Pseudo::Active)
    } else if str_eq(name, "focus") {
        Some(Pseudo::Focus)
    } else if str_eq(name, "focus_visible") {
        Some(Pseudo::FocusVisible)
    } else if str_eq(name, "focus_within") {
        Some(Pseudo::FocusWithin)
    } else {
        None
    };
    r
}


/// A pseudo class at `pos`: a plain name, or `dir(ltr | rtl)` or
/// `lang(identifier)`.
pub open spec fn pseudo_parse(ts: Seq<TokenTree>, pos: int, scope: Span) -> Result<Parsed<PseudoView>, Failed> {
    match ident_parse(ts, pos, scope) {
        Err(e) => Err(e),
        Ok(n) => {
            let name = n.value.1;
            if name == "dir"@ || name == "lang"@ {
                match paren_group_at(ts, n.next) {
                    None => Err(paren_error(ts, n.next, scope)),
                    Some(g) => match ident_parse(g.stream@, 0, g.span_close) {
                        Err(e) => Err(e),
                        Ok(a) => {
                            let lo = leftover_at(g.stream@, a.next, Delimiter::Parenthesis);
                            let done = |v: PseudoView| Parsed { value: v, next: n.next + 1, refs: Seq::empty(), leftover: lo };
                            if name == "lang"@ {
                                Ok(done(PseudoView::Lang(a.value.0, a.value.1)))
                            } else if a.value.1 == "ltr"@ {
                                Ok(done(PseudoView::Dir(PseudoDir::Ltr)))
                            } else if a.value.1 == "rtl"@ {
                                Ok(done(PseudoView::Dir(PseudoDir::Rtl)))
                            } else {
                                Err(fail(a.value.0, "Unknown dir"@))
                            }
                        },
                    },
                }
            } else if is_plain_pseudo(name) {
                Ok(Parsed { value: PseudoView::Named(name), next: n.next, refs: Seq::empty(), leftover: None })
            } else {
                Err(fail(n.value.0, "Unknown pseudo class"@))
            }
        },
    }
}

/// A pseudo class at `pos`.
fn pseudo_at(ts: &Vec<TokenTree>, pos: usize, scope_span: Span) -> (r: Result<(Pseudo, usize, Option<(Span, Delimiter)>), ParseError>)
    ensures
        match (r, pseudo_parse(ts@, pos as int, scope_span)) {
            (Ok((p, n, lo)), Ok(q)) => pseudo_view(p) == q.value && n == q.next && lo == q.leftover && q.refs.len() == 0,
            (Err(e), Err(f)) => e.span == f.span && e.message@ == f.message && f.refs.len() == 0,
            _ => false,
        },
{
    let (name, n) = match ident_token_at(ts, pos, scope_span) {
        Err(e) => {
            return Err(e);
        },
        Ok(x) => x,
    };
    let is_dir = str_eq(name.formal_name.as_str(), "dir");
    let is_lang = str_eq(name.formal_name.as_str(), "lang");
    if is_dir || is_lang {
        let g = match paren_at(ts, n) {
            None => {
                return Err(paren_error_at(ts, n, scope_span));
            },
            Some(g) => g,
        };
        assert(n < ts.len());
        let (a, an) = match ident_token_at(&g.stream, 0, g.span_close) {
            Err(e) => {
                return Err(e);
            },
            Ok(x) => x,
        };
        let lo = leftover_in_paren(&g.stream, an);
        if is_lang {
            Ok((Pseudo::Lang(a), n + 1, lo))
        } else if str_eq(a.formal_name.as_str(), "ltr") {
            Ok((Pseudo::Dir(PseudoDir::Ltr), n + 1, lo))
        } else if str_eq(a.formal_name.as_str(), "rtl") {
            Ok((Pseudo::Dir(PseudoDir::Rtl), n + 1, lo))
        } else {
            Err(ParseError::new(a.span, "Unknown dir"))
        }
    } else {
        match plain_pseudo(name.formal_name.as_str()) {
            Some(p) => Ok((p, n, None)),
            None => Err(ParseError::new(name.span, "Unknown pseudo class")),
        }
    }
}

// ---------------------------------------------------------------------
// The body of a class: items, then `if` blocks.

/// The body of a class or of one of its conditional blocks.
#[derive(Debug)]
pub struct RuleContent {
    pub items: Vec<StyleContentItem<CssTokenStream>>,
    pub at_blocks: Vec<AtBlock>,
    pub pseudo_classes: Vec<PseudoClass>,
}

/// An `if media` or `if supports` block.
#[derive(Debug)]
pub enum AtBlock {
    Media { expr: Vec<MediaQuery<CssTokenStream>>, content: RuleContent },
    Supports { expr: SupportsQuery<CssTokenStream>, content: RuleContent },
}

/// An `if` block of a pseudo class.
#[derive(Debug)]
pub struct PseudoClass {
    pub pseudo: Pseudo,
    pub content: RuleContent,
}

/// The abstract value of a body.
pub struct RuleContentView {
    pub items: Seq<ItemView>,
    pub at_blocks: Seq<AtBlockView>,
    pub pseudo_classes: Seq<PseudoClassView>,
}

/// The abstract value of an `if media` or `if supports` block.
pub enum AtBlockView {
    Media(Seq<MediaQueryView>, RuleContentView),
    Supports(SupportsView, RuleContentView),
}

/// The abstract value of a pseudo class block.
pub struct PseudoClassView {
    pub pseudo: PseudoView,
    pub content: RuleContentView,
}

pub open spec fn media_queries_view(s: Seq<MediaQuery<CssTokenStream>>) -> Seq<MediaQueryView> {
    s.map_values(|q: MediaQuery<CssTokenStream>| media_query_view(q))
}

pub open spec fn rule_content_view(c: RuleContent) -> RuleContentView
    decreases c, 1nat,
{
    RuleContentView {
        items: items_view(c.items@),
        at_blocks: at_blocks_view(c.at_blocks@),
        pseudo_classes: pseudo_classes_view(c.pseudo_classes@),
    }
}

pub open spec fn at_block_view(b: AtBlock) -> AtBlockView
    decreases b, 0nat,
{
    match b {
        AtBlock::Media { expr, content } => AtBlockView::Media(media_queries_view(expr@), rule_content_view(content)),
        AtBlock::Supports { expr, content } => AtBlockView::Supports(supports_view(expr), rule_content_view(content)),
    }
}

pub open spec fn at_blocks_view(s: Seq<AtBlock>) -> Seq<AtBlockView>
    decreases s, 0nat,
{
    if s.len() == 0 {
        Seq::empty()
    } else {
        at_blocks_view(s.subrange(0, s.len() - 1)).push(at_block_view(s[s.len() - 1]))
    }
}

pub open spec fn pseudo_class_view(p: PseudoClass) -> PseudoClassView
    decreases p, 0nat,
{
    PseudoClassView { pseudo: pseudo_view(p.pseudo), content: rule_content_view(p.content) }
}

pub open spec fn pseudo_classes_view(s: Seq<PseudoClass>) -> Seq<PseudoClassView>
    decreases s, 0nat,
{
    if s.len() == 0 {
        Seq::empty()
    } else {
        pseudo_classes_view(s.subrange(0, s.len() - 1)).push(pseudo_class_view(s[s.len() - 1]))
    }
}

proof fn lemma_at_blocks_view_index(s: Seq<AtBlock>)
    ensures
        at_blocks_view(s).len() == s.len(),
        forall|i: int| 0 <= i < s.len() ==> #[trigger] at_blocks_view(s)[i] == at_block_view(s[i]),
    decreases s.len(),
{
    if s.len() > 0 {
        lemma_at_blocks_view_index(s.subrange(0, s.len() - 1));
    }
}

proof fn lemma_at_blocks_view_prepend(x: AtBlock, s: Seq<AtBlock>)
    ensures
        at_blocks_view(seq![x] + s) == seq![at_block_view(x)] + at_blocks_view(s),
{
    lemma_at_blocks_view_index(seq![x] + s);
    lemma_at_blocks_view_index(s);
    assert(at_blocks_view(seq![x] + s) =~= seq![at_block_view(x)] + at_blocks_view(s)) by {
        assert forall|i: int| 0 <= i < s.len() + 1 implies #[trigger] at_blocks_view(seq![x] + s)[i] == (seq![
            at_block_view(x),
        ] + at_blocks_view(s))[i] by {
            if i > 0 {
                assert((seq![x] + s)[i] == s[i - 1]);
            }
        }
    }
}

proof fn lemma_pseudo_classes_view_index(s: Seq<PseudoClass>)
    ensures
        pseudo_classes_view(s).len() == s.len(),
        forall|i: int| 0 <= i < s.len() ==> #[trigger] pseudo_classes_view(s)[i] == pseudo_class_view(s[i]),
    decreases s.len(),
{
    if s.len() > 0 {
        lemma_pseudo_classes_view_index(s.subrange(0, s.len() - 1));
    }
}

proof fn lemma_pseudo_classes_view_prepend(x: PseudoClass, s: Seq<PseudoClass>)
    ensures
        pseudo_classes_view(seq![x] + s) == seq![pseudo_class_view(x)] + pseudo_classes_view(s),
{
    lemma_pseudo_classes_view_index(seq![x] + s);
    lemma_pseudo_classes_view_index(s);
    assert(pseudo_classes_view(seq![x] + s) =~= seq![pseudo_class_view(x)] + pseudo_classes_view(s)) by {
        assert forall|i: int| 0 <= i < s.len() + 1 implies #[trigger] pseudo_classes_view(seq![x] + s)[i] == (seq![
            pseudo_class_view(x),
        ] + pseudo_classes_view(s))[i] by {
            if i > 0 {
                assert((seq![x] + s)[i] == s[i - 1]);
            }
        }
    }
}

/// The brace group at `pos`, if any.
pub open spec fn brace_group_at(ts: Seq<TokenTree>, pos: int) -> Option<Group> {
    if 0 <= pos < ts.len() {
        match ts[pos] {
            TokenTree::Group(g) => if g.delimiter == Delimiter::Brace {
                Some(g)
            } else {
                None
            },
            _ => None,
        }
    } else {
        None
    }
}

/// The error that no brace group is at `pos`.
pub open spec fn brace_error(ts: Seq<TokenTree>, pos: int, scope: Span) -> Failed {
    if 0 <= pos < ts.len() {
        fail(token_error_span(ts[pos]), "expected curly braces"@)
    } else {
        fail(scope, "unexpected end of input, expected curly braces"@)
    }
}

/// An error reported at position `pos`: `message` at its token, or
/// `eof_message` at `scope` at the end.
pub open spec fn error_at(ts: Seq<TokenTree>, pos: int, scope: Span, message: Seq<char>, eof_message: Seq<char>) -> Failed {
    if 0 <= pos < ts.len() {
        fail(token_error_span(ts[pos]), message)
    } else {
        fail(scope, eof_message)
    }
}

/// The condition of an `if media` or `if supports` block.
pub enum AtCondView {
    Media(Seq<MediaQueryView>),
    Supports(SupportsView),
}

/// The block with condition `c` and body `body`.
pub open spec fn with_body(c: AtCondView, body: RuleContentView) -> AtBlockView {
    match c {
        AtCondView::Media(m) => AtBlockView::Media(m, body),
        AtCondView::Supports(x) => AtBlockView::Supports(x, body),
    }
}

/// The condition of an `if media` block (queries separated by `,`) or of
/// an `if supports` block, from `pos`.
pub open spec fn at_cond_parse(
    ts: Seq<TokenTree>,
    pos: int,
    scope: Span,
    vars: Seq<(VarName, ScopeVarValue)>,
    media: bool,
) -> Result<Parsed<AtCondView>, Failed> {
    if media {
        match media_list(ts, pos, scope, vars) {
            Err(e) => Err(e),
            Ok(m) => Ok(Parsed { value: AtCondView::Media(m.value), next: m.next, refs: m.refs, leftover: m.leftover }),
        }
    } else {
        match supports_parse(ts, pos, scope, vars) {
            Err(e) => Err(e),
            Ok(m) => Ok(Parsed { value: AtCondView::Supports(m.value), next: m.next, refs: m.refs, leftover: m.leftover }),
        }
    }
}

/// Media queries from `pos`, separated by `,`.
pub open spec fn media_list(
    ts: Seq<TokenTree>,
    pos: int,
    scope: Span,
    vars: Seq<(VarName, ScopeVarValue)>,
) -> Result<Parsed<Seq<MediaQueryView>>, Failed>
    decreases ts.len() - pos,
{
    match media_query_parse(ts, pos, scope, vars) {
        Err(e) => Err(e),
        Ok(q) => if puncts_match(ts, q.next, ","@) {
            if q.next < pos {
                Err(stalled(scope))
            } else {
                match media_list(ts, q.next + 1, scope, vars) {
                    Err(e) => Err(Failed { refs: q.refs + e.refs, ..e }),
                    Ok(rest) => Ok(
                        Parsed {
                            value: seq![q.value] + rest.value,
                            next: rest.next,
                            refs: q.refs + rest.refs,
                            leftover: first_leftover(q.leftover, rest.leftover),
                        },
                    ),
                }
            }
        } else {
            Ok(Parsed { value: seq![q.value], next: q.next, refs: q.refs, leftover: q.leftover })
        },
    }
}

/// A body from `pos` to the end: its items, then only `if` blocks;
/// `inside` tells whether it is already inside such a block.
pub open spec fn rule_content(
    ts: Seq<TokenTree>,
    pos: int,
    scope: Span,
    vars: Seq<(VarName, ScopeVarValue)>,
    inside: bool,
) -> Result<Parsed<RuleContentView>, Failed>
    decreases ts, 1int, 0int, 0int,
{
    match content_items(ts, pos, scope, vars) {
        Err(e) => Err(e),
        Ok(it) => {
            let q = it.next;
            if 0 <= q < ts.len() && !keyword_at(ts, q, "if"@) {
                Err(
                    Failed {
                        refs: it.refs,
                        ..fail(token_error_span(ts[q]), "expected property, style reference, or `if` conditions"@)
                    },
                )
            } else {
                match rule_blocks(ts, q, scope, vars, inside, false) {
                    Err(e) => Err(Failed { refs: it.refs + e.refs, ..e }),
                    Ok(b) => Ok(
                        Parsed {
                            value: RuleContentView { items: it.value, at_blocks: b.value.0, pseudo_classes: b.value.1 },
                            next: b.next,
                            refs: it.refs + b.refs,
                            leftover: first_leftover(it.leftover, b.leftover),
                        },
                    ),
                }
            }
        },
    }
}

/// The body in the brace group `g`, and its leftovers.
pub open spec fn braced_content(
    g: Group,
    vars: Seq<(VarName, ScopeVarValue)>,
) -> Result<Parsed<RuleContentView>, Failed>
    decreases g, 0int, 0int, 0int,
{
    match rule_content(g.stream@, 0, g.span_close, vars, true) {
        Err(e) => Err(e),
        Ok(c) => Ok(Parsed { leftover: first_leftover(c.leftover, leftover_at(g.stream@, c.next, Delimiter::Brace)), ..c }),
    }
}

/// What follows a block that ends before `after`: an error where `err`
/// says one is due, else the blocks from `after` with `block` first.
pub open spec fn blocks_after(
    rest: Result<Parsed<(Seq<AtBlockView>, Seq<PseudoClassView>)>, Failed>,
    head: Parsed<(Seq<AtBlockView>, Seq<PseudoClassView>)>,
) -> Result<Parsed<(Seq<AtBlockView>, Seq<PseudoClassView>)>, Failed> {
    match rest {
        Err(e) => Err(Failed { refs: head.refs + e.refs, ..e }),
        Ok(r) => Ok(
            Parsed {
                value: (head.value.0 + r.value.0, head.value.1 + r.value.1),
                next: r.next,
                refs: head.refs + r.refs,
                leftover: first_leftover(head.leftover, r.leftover),
            },
        ),
    }
}

/// The `if` blocks from `q` to the end: `if media queries { .. }`,
/// `if supports condition { .. }`, or `if pseudo_class { .. }`. Media and
/// supports blocks come before pseudo classes (`has_pseudo` tells whether
/// one was read), and no pseudo class stands inside another block.
pub open spec fn rule_blocks(
    ts: Seq<TokenTree>,
    q: int,
    scope: Span,
    vars: Seq<(VarName, ScopeVarValue)>,
    inside: bool,
    has_pseudo: bool,
) -> Result<Parsed<(Seq<AtBlockView>, Seq<PseudoClassView>)>, Failed>
    decreases ts, 0int, ts.len() - q, 1int,
{
    if q < 0 || q >= ts.len() {
        Ok(Parsed { value: (Seq::empty(), Seq::empty()), next: q, refs: Seq::empty(), leftover: None })
    } else if !keyword_at(ts, q, "if"@) {
        Err(fail(token_error_span(ts[q]), "expected `if`"@))
    } else if keyword_at(ts, q + 1, "media"@) || keyword_at(ts, q + 1, "supports"@) {
        at_block_blocks(ts, q, scope, vars, inside, has_pseudo)
    } else {
        pseudo_blocks(ts, q, scope, vars, inside, has_pseudo)
    }
}

/// An `if media` or `if supports` block at `q`, then the blocks after it.
pub open spec fn at_block_blocks(
    ts: Seq<TokenTree>,
    q: int,
    scope: Span,
    vars: Seq<(VarName, ScopeVarValue)>,
    inside: bool,
    has_pseudo: bool,
) -> Result<Parsed<(Seq<AtBlockView>, Seq<PseudoClassView>)>, Failed>
    decreases ts, 0int, ts.len() - q, 0int,
{
    let cond = at_cond_parse(ts, q + 2, scope, vars, keyword_at(ts, q + 1, "media"@));
    match cond {
        Err(e) => Err(e),
        Ok(c) => match brace_group_at(ts, c.next) {
            None => Err(Failed { refs: c.refs, ..brace_error(ts, c.next, scope) }),
            Some(g) => match braced_content(g, vars) {
                Err(e) => Err(Failed { refs: c.refs + e.refs, ..e }),
                Ok(body) => {
                    let after = c.next + 1;
                    let block = with_body(c.value, body.value);
                    let head = Parsed {
                        value: (seq![block], Seq::<PseudoClassView>::empty()),
                        next: after,
                        refs: c.refs + body.refs,
                        leftover: first_leftover(c.leftover, body.leftover),
                    };
                    if has_pseudo {
                        Err(
                            Failed {
                                refs: head.refs,
                                ..error_at(
                                    ts,
                                    after,
                                    scope,
                                    "media conditions should be put before pseudo conditions"@,
                                    "unexpected end of input, media conditions should be put before pseudo conditions"@,
                                )
                            },
                        )
                    } else if after <= q {
                        Err(stalled(scope))
                    } else {
                        blocks_after(rule_blocks(ts, after, scope, vars, inside, has_pseudo), head)
                    }
                },
            },
        },
    }
}

/// A pseudo class block at `q`, then the blocks after it.
pub open spec fn pseudo_blocks(
    ts: Seq<TokenTree>,
    q: int,
    scope: Span,
    vars: Seq<(VarName, ScopeVarValue)>,
    inside: bool,
    has_pseudo: bool,
) -> Result<Parsed<(Seq<AtBlockView>, Seq<PseudoClassView>)>, Failed>
    decreases ts, 0int, ts.len() - q, 0int,
{
    match pseudo_parse(ts, q + 1, scope) {
        Err(e) => Err(e),
        Ok(ps) => match brace_group_at(ts, ps.next) {
            None => Err(brace_error(ts, ps.next, scope)),
            Some(g) => match rule_content(g.stream@, 0, g.span_close, vars, true) {
                Err(e) => Err(e),
                Ok(body) => if body.next < g.stream@.len() {
                    Err(Failed { refs: body.refs, ..fail(token_error_span(g.stream@[body.next]), "unexpected token"@) })
                } else {
                    let after = ps.next + 1;
                    let head = Parsed {
                        value: (Seq::<AtBlockView>::empty(), seq![PseudoClassView { pseudo: ps.value, content: body.value }]),
                        next: after,
                        refs: body.refs,
                        leftover: first_leftover(ps.leftover, body.leftover),
                    };
                    if inside {
                        Err(
                            Failed {
                                refs: head.refs,
                                ..error_at(
                                    ts,
                                    after,
                                    scope,
                                    "pseudo conditions should not be put inside other conditions"@,
                                    "unexpected end of input, pseudo conditions should not be put inside other conditions"@,
                                )
                            },
                        )
                    } else if after <= q {
                        Err(stalled(scope))
                    } else {
                        blocks_after(rule_blocks(ts, after, scope, vars, inside, true), head)
                    }
                },
            },
        },
    }
}

proof fn lemma_media_conds_next(ts: Seq<TokenTree>, pos: int, scope: Span, vars: Seq<(VarName, ScopeVarValue)>)
    requires
        0 <= pos,
    ensures
        media_conds(ts, pos, scope, vars) matches Ok(p) ==> pos < p.next <= ts.len(),
    decreases ts.len() - pos,
{
    let not_r = if keyword_at(ts, pos, "not"@) {
        match ident_parse(ts, pos, scope) {
            Ok(p) => Ok(Some(p.value)),
            Err(e) => Err(e),
        }
    } else {
        Ok(None)
    };
    if let Ok(not) = not_r {
        let p1 = if not is Some { pos + 1 } else { pos };
        if let Some(g) = paren_group_at(ts, p1) {
            if keyword_at(ts, p1 + 1, "and"@) {
                lemma_media_conds_next(ts, p1 + 2, scope, vars);
            }
        }
    }
}

proof fn lemma_media_query_next(ts: Seq<TokenTree>, pos: int, scope: Span, vars: Seq<(VarName, ScopeVarValue)>)
    requires
        0 <= pos,
    ensures
        media_query_parse(ts, pos, scope, vars) matches Ok(q) ==> pos <= q.next <= ts.len() || q.next == pos,
{
    lemma_media_conds_next(ts, pos, scope, vars);
    lemma_media_conds_next(ts, pos + 1, scope, vars);
    lemma_media_conds_next(ts, pos + 2, scope, vars);
}

proof fn lemma_supports_list_next(
    ts: Seq<TokenTree>,
    pos: int,
    scope: Span,
    vars: Seq<(VarName, ScopeVarValue)>,
    kw: Seq<char>,
)
    requires
        0 <= pos,
    ensures
        supports_list(ts, pos, scope, vars, kw) matches Ok(p) ==> pos < p.next <= ts.len(),
    decreases ts.len() - pos,
{
    if 0 <= pos < ts.len() {
        if let Ok(item) = supports_paren(ts, pos, scope, vars) {
            if keyword_at(ts, item.next, kw) && pos < item.next {
                lemma_supports_list_next(ts, item.next, scope, vars, kw);
            }
        }
    }
}

proof fn lemma_supports_next(ts: Seq<TokenTree>, pos: int, scope: Span, vars: Seq<(VarName, ScopeVarValue)>)
    requires
        0 <= pos,
    ensures
        supports_parse(ts, pos, scope, vars) matches Ok(p) ==> pos <= p.next <= ts.len() || p.next == pos,
{
    lemma_supports_list_next(ts, pos + 2, scope, vars, "and"@);
    lemma_supports_list_next(ts, pos + 2, scope, vars, "or"@);
    if let Ok(n) = ident_parse(ts, pos, scope) {
        if let Ok(after_eq) = eq_parse(ts, n.next, scope) {
            lemma_value_tokens_bounds(ts, after_eq, scope, vars);
        }
    }
}

/// Media queries from `pos`, separated by `,`.
fn media_list_at(ts: &Vec<TokenTree>, pos: usize, scope_span: Span, scope: &mut ScopeVars) -> (r: Result<
    (Vec<MediaQuery<CssTokenStream>>, usize, Option<(Span, Delimiter)>),
    ParseError,
>)
    ensures
        final(scope).vars == old(scope).vars,
        final(scope).cur_mod == old(scope).cur_mod,
        outcome(
            r,
            media_list(ts@, pos as int, scope_span, old(scope).vars@),
            |v: Vec<MediaQuery<CssTokenStream>>| media_queries_view(v@),
            old(scope).var_refs@,
            final(scope).var_refs@,
        ),
    decreases ts@.len() - pos,
{
    let ghost vars = scope.vars@;
    let ghost refs0 = scope.var_refs@;
    proof {
        lemma_media_query_next(ts@, pos as int, scope_span, vars);
    }
    match media_query_at(ts, pos, scope_span, scope) {
        Err(e) => Err(e),
        Ok((q, next, lo)) => {
            let ghost mq = media_query_parse(ts@, pos as int, scope_span, vars)->Ok_0;
            if puncts_match_at(ts, next, ",") {
                assert(next < ts.len());
                match media_list_at(ts, next + 1, scope_span, scope) {
                    Err(e) => {
                        assert(refs_view(scope.var_refs@) =~= refs_view(refs0) + (mq.refs
                            + media_list(ts@, next + 1, scope_span, vars)->Err_0.refs));
                        Err(e)
                    },
                    Ok((mut rest, n, lo2)) => {
                        let ghost rest0 = rest@;
                        rest.insert(0, q);
                        proof {
                            assert(media_queries_view(rest@) =~= seq![media_query_view(q)] + media_queries_view(rest0));
                            assert(refs_view(scope.var_refs@) =~= refs_view(refs0) + (mq.refs
                                + media_list(ts@, next + 1, scope_span, vars)->Ok_0.refs));
                        }
                        let l = if lo.is_some() { lo } else { lo2 };
                        Ok((rest, n, l))
                    },
                }
            } else {
                let v = vec![q];
                assert(media_queries_view(v@) =~= seq![media_query_view(q)]);
                Ok((v, next, lo))
            }
        },
    }
}

/// The brace group at `pos`, if any.
pub(crate) fn brace_at(ts: &Vec<TokenTree>, pos: usize) -> (r: Option<&Group>)
    ensures
        match r {
            Some(g) => brace_group_at(ts@, pos as int) == Some(*g) && pos < ts@.len(),
            None => brace_group_at(ts@, pos as int) is None,
        },
{
    if pos < ts.len() {
        match &ts[pos] {
            TokenTree::Group(g) => if g.delimiter == Delimiter::Brace {
                Some(g)
            } else {
                None
            },
            _ => None,
        }
    } else {
        None
    }
}

/// The error that no brace group is at `pos`.
pub(crate) fn brace_error_at(ts: &Vec<TokenTree>, pos: usize, scope_span: Span) -> (r: ParseError)
    ensures
        r.span == brace_error(ts@, pos as int, scope_span).span,
        r.message@ == brace_error(ts@, pos as int, scope_span).message,
{
    if pos < ts.len() {
        ParseError::new(position_span_at(ts, pos, scope_span), "expected curly braces")
    } else {
        ParseError::new(scope_span, "unexpected end of input, expected curly braces")
    }
}

/// The body in the brace group `g`.
fn braced_content_at(g: &Group, scope: &mut ScopeVars) -> (r: Result<(RuleContent, usize, Option<(Span, Delimiter)>), ParseError>)
    ensures
        final(scope).vars == old(scope).vars,
        final(scope).cur_mod == old(scope).cur_mod,
        outcome(
            r,
            braced_content(*g, old(scope).vars@),
            |c: RuleContent| rule_content_view(c),
            old(scope).var_refs@,
            final(scope).var_refs@,
        ),
    decreases g, 0int, 0int, 0int,
{
    match rule_content_at(&g.stream, 0, g.span_close, scope, true) {
        Err(e) => Err(e),
        Ok((c, n, lo)) => {
            let l = if lo.is_some() {
                lo
            } else if n < g.stream.len() {
                Some((span_of(&g.stream[n]), Delimiter::Brace))
            } else {
                None
            };
            Ok((c, n, l))
        },
    }
}

/// A body from `pos` to the end.
pub(crate) fn rule_content_at(ts: &Vec<TokenTree>, pos: usize, scope_span: Span, scope: &mut ScopeVars, inside: bool) -> (r: Result<
    (RuleContent, usize, Option<(Span, Delimiter)>),
    ParseError,
>)
    ensures
        final(scope).vars == old(scope).vars,
        final(scope).cur_mod == old(scope).cur_mod,
        outcome(
            r,
            rule_content(ts@, pos as int, scope_span, old(scope).vars@, inside),
            |c: RuleContent| rule_content_view(c),
            old(scope).var_refs@,
            final(scope).var_refs@,
        ),
    decreases ts, 1int, 0int, 0int,
{
    let ghost vars = scope.vars@;
    let ghost refs0 = scope.var_refs@;
    match content_items_at(ts, pos, scope_span, scope) {
        Err(e) => Err(e),
        Ok((items, q, lo)) => {
            let ghost it = content_items(ts@, pos as int, scope_span, vars)->Ok_0;
            if q < ts.len() && !keyword_is_at(ts, q, "if") {
                return Err(
                    ParseError::new(
                        position_span_at(ts, q, scope_span),
                        "expected property, style reference, or `if` conditions",
                    ),
                );
            }
            match rule_blocks_at(ts, q, scope_span, scope, inside, false) {
                Err(e) => {
                    assert(refs_view(scope.var_refs@) =~= refs_view(refs0) + (it.refs
                        + rule_blocks(ts@, q as int, scope_span, vars, inside, false)->Err_0.refs));
                    Err(e)
                },
                Ok(((at_blocks, pseudo_classes), n, lo2)) => {
                    assert(refs_view(scope.var_refs@) =~= refs_view(refs0) + (it.refs
                        + rule_blocks(ts@, q as int, scope_span, vars, inside, false)->Ok_0.refs));
                    let l = if lo.is_some() { lo } else { lo2 };
                    Ok((RuleContent { items, at_blocks, pseudo_classes }, n, l))
                },
            }
        },
    }
}


proof fn lemma_media_list_next(ts: Seq<TokenTree>, pos: int, scope: Span, vars: Seq<(VarName, ScopeVarValue)>)
    requires
        0 <= pos,
    ensures
        media_list(ts, pos, scope, vars) matches Ok(p) ==> pos <= p.next,
    decreases ts.len() - pos,
{
    lemma_media_query_next(ts, pos, scope, vars);
    if let Ok(q) = media_query_parse(ts, pos, scope, vars) {
        if puncts_match(ts, q.next, ","@) && q.next >= pos {
            lemma_media_list_next(ts, q.next + 1, scope, vars);
        }
    }
}

/// The condition of an `if media` or `if supports` block.
enum AtCond {
    Media(Vec<MediaQuery<CssTokenStream>>),
    Supports(SupportsQuery<CssTokenStream>),
}

spec fn at_cond_view(c: AtCond) -> AtCondView {
    match c {
        AtCond::Media(m) => AtCondView::Media(media_queries_view(m@)),
        AtCond::Supports(x) => AtCondView::Supports(supports_view(x)),
    }
}

/// The block with condition `c` and body `body`.
fn block_of(c: AtCond, body: RuleContent) -> (r: AtBlock)
    ensures
        at_block_view(r) == with_body(at_cond_view(c), rule_content_view(body)),
{
    match c {
        AtCond::Media(expr) => AtBlock::Media { expr, content: body },
        AtCond::Supports(expr) => AtBlock::Supports { expr, content: body },
    }
}

/// The condition of an `if media` or `if supports` block from `pos`.
fn at_cond_at(ts: &Vec<TokenTree>, pos: usize, scope_span: Span, scope: &mut ScopeVars, media: bool) -> (r: Result<
    (AtCond, usize, Option<(Span, Delimiter)>),
    ParseError,
>)
    ensures
        final(scope).vars == old(scope).vars,
        final(scope).cur_mod == old(scope).cur_mod,
        outcome(
            r,
            at_cond_parse(ts@, pos as int, scope_span, old(scope).vars@, media),
            |c: AtCond| at_cond_view(c),
            old(scope).var_refs@,
            final(scope).var_refs@,
        ),
        r matches Ok((_, n, _)) ==> pos <= n,
{
    proof {
        lemma_media_list_next(ts@, pos as int, scope_span, scope.vars@);
        lemma_supports_next(ts@, pos as int, scope_span, scope.vars@);
    }
    if media {
        match media_list_at(ts, pos, scope_span, scope) {
            Err(e) => Err(e),
            Ok((m, n, lo)) => Ok((AtCond::Media(m), n, lo)),
        }
    } else {
        match supports_at(ts, pos, scope_span, scope) {
            Err(e) => Err(e),
            Ok((x, n, lo)) => Ok((AtCond::Supports(x), n, lo)),
        }
    }
}

/// An error reported at position `pos`.
pub(crate) fn error_at_pos(ts: &Vec<TokenTree>, pos: usize, scope_span: Span, message: &str, eof_message: &str) -> (r: ParseError)
    ensures
        r.span == error_at(ts@, pos as int, scope_span, message@, eof_message@).span,
        r.message@ == error_at(ts@, pos as int, scope_span, message@, eof_message@).message,
{
    if pos < ts.len() {
        ParseError::new(position_span_at(ts, pos, scope_span), message)
    } else {
        ParseError::new(scope_span, eof_message)
    }
}

/// The `if` blocks from `q` to the end.
fn rule_blocks_at(
    ts: &Vec<TokenTree>,
    q: usize,
    scope_span: Span,
    scope: &mut ScopeVars,
    inside: bool,
    has_pseudo: bool,
) -> (r: Result<((Vec<AtBlock>, Vec<PseudoClass>), usize, Option<(Span, Delimiter)>), ParseError>)
    ensures
        final(scope).vars == old(scope).vars,
        final(scope).cur_mod == old(scope).cur_mod,
        outcome(
            r,
            rule_blocks(ts@, q as int, scope_span, old(scope).vars@, inside, has_pseudo),
            |x: (Vec<AtBlock>, Vec<PseudoClass>)| (at_blocks_view(x.0@), pseudo_classes_view(x.1@)),
            old(scope).var_refs@,
            final(scope).var_refs@,
        ),
    decreases ts, 0int, ts@.len() - q, 2int,
{
    proof {
        assert(refs_view(scope.var_refs@) =~= refs_view(scope.var_refs@) + Seq::<(Span, Seq<char>)>::empty());
    }
    if q >= ts.len() {
        let a: Vec<AtBlock> = Vec::new();
        let p: Vec<PseudoClass> = Vec::new();
        assert(at_blocks_view(a@) =~= Seq::<AtBlockView>::empty());
        assert(pseudo_classes_view(p@) =~= Seq::<PseudoClassView>::empty());
        Ok(((a, p), q, None))
    } else if !keyword_is_at(ts, q, "if") {
        Err(ParseError::new(position_span_at(ts, q, scope_span), "expected `if`"))
    } else if keyword_is_at(ts, q + 1, "media") || keyword_is_at(ts, q + 1, "supports") {
        at_block_then(ts, q, scope_span, scope, inside, has_pseudo)
    } else {
        pseudo_then(ts, q, scope_span, scope, inside, has_pseudo)
    }
}

/// An `if media` or `if supports` block at `q` on its own: its condition
/// and its body.
#[verifier::opaque]
pub open spec fn at_block_head(
    ts: Seq<TokenTree>,
    q: int,
    scope: Span,
    vars: Seq<(VarName, ScopeVarValue)>,
) -> Result<Parsed<AtBlockView>, Failed> {
    match at_cond_parse(ts, q + 2, scope, vars, keyword_at(ts, q + 1, "media"@)) {
        Err(e) => Err(e),
        Ok(c) => match brace_group_at(ts, c.next) {
            None => Err(Failed { refs: c.refs, ..brace_error(ts, c.next, scope) }),
            Some(g) => match braced_content(g, vars) {
                Err(e) => Err(Failed { refs: c.refs + e.refs, ..e }),
                Ok(body) => Ok(
                    Parsed {
                        value: with_body(c.value, body.value),
                        next: c.next + 1,
                        refs: c.refs + body.refs,
                        leftover: first_leftover(c.leftover, body.leftover),
                    },
                ),
            },
        },
    }
}

proof fn lemma_at_block_blocks(
    ts: Seq<TokenTree>,
    q: int,
    scope: Span,
    vars: Seq<(VarName, ScopeVarValue)>,
    inside: bool,
    has_pseudo: bool,
)
    ensures
        at_block_blocks(ts, q, scope, vars, inside, has_pseudo) == match at_block_head(ts, q, scope, vars) {
            Err(e) => Err(e),
            Ok(h) => {
                let head = Parsed {
                    value: (seq![h.value], Seq::<PseudoClassView>::empty()),
                    next: h.next,
                    refs: h.refs,
                    leftover: h.leftover,
                };
                if has_pseudo {
                    Err(
                        Failed {
                            refs: h.refs,
                            ..error_at(
                                ts,
                                h.next,
                                scope,
                                "media conditions should be put before pseudo conditions"@,
                                "unexpected end of input, media conditions should be put before pseudo conditions"@,
                            )
                        },
                    )
                } else if h.next <= q {
                    Err(stalled(scope))
                } else {
                    blocks_after(rule_blocks(ts, h.next, scope, vars, inside, has_pseudo), head)
                }
            },
        },
{
    reveal(at_block_head);
}

/// An `if media` or `if supports` block at `q` on its own.
fn at_block_head_at(ts: &Vec<TokenTree>, q: usize, scope_span: Span, scope: &mut ScopeVars) -> (r: Result<
    (AtBlock, usize, Option<(Span, Delimiter)>),
    ParseError,
>)
    requires
        q + 1 < ts@.len(),
    ensures
        final(scope).vars == old(scope).vars,
        final(scope).cur_mod == old(scope).cur_mod,
        outcome(
            r,
            at_block_head(ts@, q as int, scope_span, old(scope).vars@),
            |b: AtBlock| at_block_view(b),
            old(scope).var_refs@,
            final(scope).var_refs@,
        ),
        r matches Ok((_, n, _)) ==> q < n <= ts@.len(),
    decreases ts, 0int, ts@.len() - q, 0int,
{
    reveal(at_block_head);
    let ghost vars = scope.vars@;
    let ghost refs0 = scope.var_refs@;
    assert(q + 1 < ts.len());
    let media = keyword_is_at(ts, q + 1, "media");
    match at_cond_at(ts, q + 2, scope_span, scope, media) {
        Err(e) => Err(e),
        Ok((c, cn, clo)) => {
            let ghost cp = at_cond_parse(ts@, q + 2, scope_span, vars, media)->Ok_0;
            match brace_at(ts, cn) {
                None => Err(brace_error_at(ts, cn, scope_span)),
                Some(g) => {
                    proof {
                        assert(decreases_to!(ts => ts@[cn as int]));
                    }
                    match braced_content_at(g, scope) {
                        Err(e) => {
                            assert(refs_view(scope.var_refs@) =~= refs_view(refs0) + (cp.refs
                                + braced_content(*g, vars)->Err_0.refs));
                            Err(e)
                        },
                        Ok((body, _, blo)) => {
                            let ghost bp = braced_content(*g, vars)->Ok_0;
                            assert(refs_view(scope.var_refs@) =~= refs_view(refs0) + (cp.refs + bp.refs));
                            let block = block_of(c, body);
                            let lo = if clo.is_some() { clo } else { blo };
                            Ok((block, cn + 1, lo))
                        },
                    }
                },
            }
        },
    }
}

/// An `if media` or `if supports` block at `q`, then the blocks after it.
fn at_block_then(
    ts: &Vec<TokenTree>,
    q: usize,
    scope_span: Span,
    scope: &mut ScopeVars,
    inside: bool,
    has_pseudo: bool,
) -> (r: Result<((Vec<AtBlock>, Vec<PseudoClass>), usize, Option<(Span, Delimiter)>), ParseError>)
    requires
        q < ts@.len(),
        keyword_at(ts@, q as int, "if"@),
        keyword_at(ts@, q + 1, "media"@) || keyword_at(ts@, q + 1, "supports"@),
    ensures
        final(scope).vars == old(scope).vars,
        final(scope).cur_mod == old(scope).cur_mod,
        outcome(
            r,
            at_block_blocks(ts@, q as int, scope_span, old(scope).vars@, inside, has_pseudo),
            |x: (Vec<AtBlock>, Vec<PseudoClass>)| (at_blocks_view(x.0@), pseudo_classes_view(x.1@)),
            old(scope).var_refs@,
            final(scope).var_refs@,
        ),
    decreases ts, 0int, ts@.len() - q, 1int,
{
    let ghost vars = scope.vars@;
    let ghost refs0 = scope.var_refs@;
    proof {
        lemma_at_block_blocks(ts@, q as int, scope_span, vars, inside, has_pseudo);
    }
    match at_block_head_at(ts, q, scope_span, scope) {
        Err(e) => Err(e),
        Ok((block, after, lo)) => {
            let ghost h = at_block_head(ts@, q as int, scope_span, vars)->Ok_0;
            if has_pseudo {
                return Err(
                    error_at_pos(
                        ts,
                        after,
                        scope_span,
                        "media conditions should be put before pseudo conditions",
                        "unexpected end of input, media conditions should be put before pseudo conditions",
                    ),
                );
            }
            match rule_blocks_at(ts, after, scope_span, scope, inside, has_pseudo) {
                Err(e) => {
                    assert(refs_view(scope.var_refs@) =~= refs_view(refs0) + (h.refs
                        + rule_blocks(ts@, after as int, scope_span, vars, inside, has_pseudo)->Err_0.refs));
                    Err(e)
                },
                Ok(((mut ab, ps), n, lo2)) => {
                    let ghost ab0 = ab@;
                    ab.insert(0, block);
                    proof {
                        assert(ab@ =~= seq![block] + ab0);
                        lemma_at_blocks_view_prepend(block, ab0);
                        let rb = rule_blocks(ts@, after as int, scope_span, vars, inside, has_pseudo)->Ok_0;
                        assert(Seq::<PseudoClassView>::empty() + rb.value.1 =~= rb.value.1);
                        assert(refs_view(scope.var_refs@) =~= refs_view(refs0) + (h.refs + rb.refs));
                    }
                    let l = if lo.is_some() { lo } else { lo2 };
                    Ok(((ab, ps), n, l))
                },
            }
        },
    }
}

/// A pseudo class block at `q` on its own.
#[verifier::opaque]
pub open spec fn pseudo_head(
    ts: Seq<TokenTree>,
    q: int,
    scope: Span,
    vars: Seq<(VarName, ScopeVarValue)>,
) -> Result<Parsed<PseudoClassView>, Failed> {
    match pseudo_parse(ts, q + 1, scope) {
        Err(e) => Err(e),
        Ok(ps) => match brace_group_at(ts, ps.next) {
            None => Err(brace_error(ts, ps.next, scope)),
            Some(g) => match rule_content(g.stream@, 0, g.span_close, vars, true) {
                Err(e) => Err(e),
                Ok(body) => if body.next < g.stream@.len() {
                    Err(Failed { refs: body.refs, ..fail(token_error_span(g.stream@[body.next]), "unexpected token"@) })
                } else {
                    Ok(
                        Parsed {
                            value: PseudoClassView { pseudo: ps.value, content: body.value },
                            next: ps.next + 1,
                            refs: body.refs,
                            leftover: first_leftover(ps.leftover, body.leftover),
                        },
                    )
                },
            },
        },
    }
}

proof fn lemma_pseudo_blocks(
    ts: Seq<TokenTree>,
    q: int,
    scope: Span,
    vars: Seq<(VarName, ScopeVarValue)>,
    inside: bool,
    has_pseudo: bool,
)
    ensures
        pseudo_blocks(ts, q, scope, vars, inside, has_pseudo) == match pseudo_head(ts, q, scope, vars) {
            Err(e) => Err(e),
            Ok(h) => {
                let head = Parsed {
                    value: (Seq::<AtBlockView>::empty(), seq![h.value]),
                    next: h.next,
                    refs: h.refs,
                    leftover: h.leftover,
                };
                if inside {
                    Err(
                        Failed {
                            refs: h.refs,
                            ..error_at(
                                ts,
                                h.next,
                                scope,
                                "pseudo conditions should not be put inside other conditions"@,
                                "unexpected end of input, pseudo conditions should not be put inside other conditions"@,
                            )
                        },
                    )
                } else if h.next <= q {
                    Err(stalled(scope))
                } else {
                    blocks_after(rule_blocks(ts, h.next, scope, vars, inside, true), head)
                }
            },
        },
{
    reveal(pseudo_head);
}

/// A pseudo class block at `q` on its own.
fn pseudo_head_at(ts: &Vec<TokenTree>, q: usize, scope_span: Span, scope: &mut ScopeVars) -> (r: Result<
    (PseudoClass, usize, Option<(Span, Delimiter)>),
    ParseError,
>)
    requires
        q < ts@.len(),
    ensures
        final(scope).vars == old(scope).vars,
        final(scope).cur_mod == old(scope).cur_mod,
        outcome(
            r,
            pseudo_head(ts@, q as int, scope_span, old(scope).vars@),
            |p: PseudoClass| pseudo_class_view(p),
            old(scope).var_refs@,
            final(scope).var_refs@,
        ),
        r matches Ok((_, n, _)) ==> q < n <= ts@.len(),
    decreases ts, 0int, ts@.len() - q, 0int,
{
    reveal(pseudo_head);
    proof {
        assert(refs_view(scope.var_refs@) =~= refs_view(scope.var_refs@) + Seq::<(Span, Seq<char>)>::empty());
    }
    assert(q < ts.len());
    match pseudo_at(ts, q + 1, scope_span) {
        Err(e) => Err(e),
        Ok((pseudo, pn, plo)) => match brace_at(ts, pn) {
            None => Err(brace_error_at(ts, pn, scope_span)),
            Some(g) => {
                proof {
                    assert(decreases_to!(ts => ts@[pn as int]));
                }
                match rule_content_at(&g.stream, 0, g.span_close, scope, true) {
                    Err(e) => Err(e),
                    Ok((body, bn, blo)) => {
                        if bn < g.stream.len() {
                            return Err(ParseError::new(position_span_at(&g.stream, bn, g.span_close), "unexpected token"));
                        }
                        let lo = if plo.is_some() { plo } else { blo };
                        Ok((PseudoClass { pseudo, content: body }, pn + 1, lo))
                    },
                }
            },
        },
    }
}

/// A pseudo class block at `q`, then the blocks after it.
fn pseudo_then(
    ts: &Vec<TokenTree>,
    q: usize,
    scope_span: Span,
    scope: &mut ScopeVars,
    inside: bool,
    has_pseudo: bool,
) -> (r: Result<((Vec<AtBlock>, Vec<PseudoClass>), usize, Option<(Span, Delimiter)>), ParseError>)
    requires
        q < ts@.len(),
        keyword_at(ts@, q as int, "if"@),
        !keyword_at(ts@, q + 1, "media"@),
        !keyword_at(ts@, q + 1, "supports"@),
    ensures
        final(scope).vars == old(scope).vars,
        final(scope).cur_mod == old(scope).cur_mod,
        outcome(
            r,
            pseudo_blocks(ts@, q as int, scope_span, old(scope).vars@, inside, has_pseudo),
            |x: (Vec<AtBlock>, Vec<PseudoClass>)| (at_blocks_view(x.0@), pseudo_classes_view(x.1@)),
            old(scope).var_refs@,
            final(scope).var_refs@,
        ),
    decreases ts, 0int, ts@.len() - q, 1int,
{
    let ghost vars = scope.vars@;
    let ghost refs0 = scope.var_refs@;
    proof {
        lemma_pseudo_blocks(ts@, q as int, scope_span, vars, inside, has_pseudo);
    }
    match pseudo_head_at(ts, q, scope_span, scope) {
        Err(e) => Err(e),
        Ok((pc, after, lo)) => {
            let ghost h = pseudo_head(ts@, q as int, scope_span, vars)->Ok_0;
            if inside {
                return Err(
                    error_at_pos(
                        ts,
                        after,
                        scope_span,
                        "pseudo conditions should not be put inside other conditions",
                        "unexpected end of input, pseudo conditions should not be put inside other conditions",
                    ),
                );
            }
            match rule_blocks_at(ts, after, scope_span, scope, inside, true) {
                Err(e) => {
                    assert(refs_view(scope.var_refs@) =~= refs_view(refs0) + (h.refs
                        + rule_blocks(ts@, after as int, scope_span, vars, inside, true)->Err_0.refs));
                    Err(e)
                },
                Ok(((ab, mut ps), n, lo2)) => {
                    let ghost ps0 = ps@;
                    ps.insert(0, pc);
                    proof {
                        assert(ps@ =~= seq![pc] + ps0);
                        lemma_pseudo_classes_view_prepend(pc, ps0);
                        let rb = rule_blocks(ts@, after as int, scope_span, vars, inside, true)->Ok_0;
                        assert(Seq::<AtBlockView>::empty() + rb.value.0 =~= rb.value.0);
                        assert(refs_view(scope.var_refs@) =~= refs_view(refs0) + (h.refs + rb.refs));
                    }
                    let l = if lo.is_some() { lo } else { lo2 };
                    Ok(((ab, ps), n, l))
                },
            }
        },
    }
}

impl RuleContent {
    /// Parses a body to the end of the input: its items, then `if media`,
    /// `if supports` and pseudo class blocks; `inside_sub_rule` tells
    /// whether it is the body of such a block, where no pseudo class may
    /// stand.
    pub fn parse_with_vars(input: &mut ParseInput, scope: &mut ScopeVars, inside_sub_rule: bool) -> (r: Result<
        Self,
        ParseError,
    >)
        ensures
            final(scope).vars == old(scope).vars,
            final(scope).cur_mod == old(scope).cur_mod,
            input_outcome(
                r,
                rule_content(
                    old(input).tokens@,
                    old(input).pos as int,
                    old(input).scope,
                    old(scope).vars@,
                    inside_sub_rule,
                ),
                |c: RuleContent| rule_content_view(c),
                *old(input),
                *final(input),
                old(scope).var_refs@,
                final(scope).var_refs@,
            ),
    {
        match rule_content_at(input.tokens, input.pos, input.scope, scope, inside_sub_rule) {
            Err(e) => Err(e),
            Ok((c, next, lo)) => {
                input.pos = next;
                if input.unexpected.is_none() {
                    input.unexpected = lo;
                }
                Ok(c)
            },
        }
    }
}

/// The state after writing a pseudo class: a plain one by its CSS name,
/// `dir(..)` and `lang(..)` as functions.
pub open spec fn pseudo_written(st: WriterState, p: PseudoView) -> WriterState {
    match p {
        PseudoView::Named(n) => st.after_ident(css_name_of(n), false),
        PseudoView::Dir(d) => st.function_opened(false, "dir"@).after_ident(
            if d == PseudoDir::Ltr {
                "ltr"@
            } else {
                "rtl"@
            },
            true,
        ).block_closed(")"@),
        PseudoView::Lang(_, n) => st.function_opened(false, "lang"@).after_ident(css_name_of(n), true).block_closed(
            ")"@,
        ),
    }
}

impl Pseudo {
    /// The name a pseudo class without argument is written with in a
    /// style sheet.
    fn plain_name(&self) -> (r: &'static str)
        requires
            !(self is Dir),
            !(self is Lang),
        ensures
            pseudo_view(*self) == PseudoView::Named(r@),
    {
        match self {
            Pseudo::Fullscreen => "fullscreen",
            Pseudo::Modal => "modal",
            Pseudo::PictureInPicture => "picture_in_picture",
            Pseudo::Autofill => "autofill",
            Pseudo::Enabled => "enabled",
            Pseudo::Disabled => "disabled",
            Pseudo::ReadOnly => "read_only",
            Pseudo::ReadWrite => "read_write",
            Pseudo::PlaceholderShown => "placeholder_shown",
            Pseudo::Default => "default",
            Pseudo::Checked => "checked",
            Pseudo::Blank => "blank",
            Pseudo::Valid => "valid",
            Pseudo::Invalid => "invalid",
            Pseudo::InRange => "in_range",
            Pseudo::OutOfRange => "out_of_range",
            Pseudo::Required => "required",
            Pseudo::Optional => "optional",
            Pseudo::UserInvalid => "user_invalid",
            Pseudo::AnyLink => "any_link",
            Pseudo::Link => "link",
            Pseudo::Visited => "visited",
            Pseudo::LocalLink => "local_link",
            Pseudo::Target => "target",
            Pseudo::TargetWithin => "target_within",
            Pseudo::Scope => "scope",
            Pseudo::Playing => "playing",
            Pseudo::Paused => "paused",
            Pseudo::Current => "current",
            Pseudo::Past => "past",
            Pseudo::Future => "future",
            Pseudo::Hover => "hover",
            Pseudo::Active => "active",
            Pseudo::Focus => "focus",
            Pseudo::FocusVisible => "focus_visible",
            Pseudo::FocusWithin => "focus_within",
            Pseudo::Dir(_) => "dir",
            Pseudo::Lang(_) => "lang",
        }
    }

    /// Writes the pseudo class (after its `:`).
    pub fn write_css(&self, cssw: &mut CssWriter)
        ensures
            final(cssw)@ == pseudo_written(old(cssw)@, pseudo_view(*self)),
    {
        match self {
            Pseudo::Dir(d) => {
                cssw.begin_function_block(false, "dir");
                match d {
                    PseudoDir::Ltr => cssw.write_ident("ltr", true),
                    PseudoDir::Rtl => cssw.write_ident("rtl", true),
                }
                cssw.end_paren_block();
            },
            Pseudo::Lang(x) => {
                cssw.begin_function_block(false, "lang");
                let name = x.css_name();
                cssw.write_ident(name.as_str(), true);
                cssw.end_paren_block();
            },
            _ => {
                let n = self.plain_name();
                let c = replace_char_in(n, '_', '-');
                cssw.write_ident(c.as_str(), false);
            },
        }
    }
}
} // verus!
