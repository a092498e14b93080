//! Parsing the conditions of `@media` and `@supports` rules, and property
//! values, out of the token trees of a style sheet.
use vstd::prelude::*;

use proc_macro2::Span;

use crate::css_token::{CssIdent, CssParen, CssToken, CssTokenStream, VarName};
use crate::style_sheet::{MediaCond, MediaQuery, MediaType, SupportsCond, SupportsQuery};
use crate::text::{str_eq, to_owned_string};
use crate::token_parse::{
    expected_error, expected_error_at, fail, first_leftover, ident_at, kinds_view, leftover_at, leftover_in_paren,
    lemma_token_parse_advances, paren_group_at, parse_token_at, puncts_match, puncts_match_at, refs_view, stalled,
    token_error_span, token_parse, tokens_view, Delimiter, Failed, Group, Parsed, ParseInput, ScopeVars, TokenTree,
    TokenView,
};
use crate::values::{ParseError, ScopeVarValue};

verus! {

/// The identifier at `pos`: a keyword or another token is an error.
pub open spec fn ident_parse(ts: Seq<TokenTree>, pos: int, scope: Span) -> Result<Parsed<(Span, Seq<char>)>, Failed> {
    if !(0 <= pos < ts.len()) {
        Err(fail(scope, "unexpected end of input, expected identifier"@))
    } else {
        match ts[pos] {
            TokenTree::Ident(i) => if i.keyword {
                Err(fail(i.span, "expected identifier, found keyword `"@ + i.name@ + "`"@))
            } else {
                Ok(Parsed { value: (i.span, i.name@), next: pos + 1, refs: Seq::empty(), leftover: None })
            },
            _ => Err(fail(token_error_span(ts[pos]), "expected identifier"@)),
        }
    }
}

/// The identifier `kw` at `pos`.
pub open spec fn keyword_at(ts: Seq<TokenTree>, pos: int, kw: Seq<char>) -> bool {
    0 <= pos < ts.len() && (ts[pos] matches TokenTree::Ident(i) && i.name@ == kw)
}

/// The `=` at `pos`, or the error that it is missing.
pub open spec fn eq_parse(ts: Seq<TokenTree>, pos: int, scope: Span) -> Result<int, Failed> {
    if puncts_match(ts, pos, "="@) {
        Ok(pos + 1)
    } else if 0 <= pos < ts.len() {
        Err(fail(token_error_span(ts[pos]), "expected `=`"@))
    } else {
        Err(fail(scope, "expected `=`"@))
    }
}

/// The tokens of a property value from `pos`, up to a `;` or the end.
pub open spec fn value_tokens(
    ts: Seq<TokenTree>,
    pos: int,
    scope: Span,
    vars: Seq<(VarName, ScopeVarValue)>,
) -> Result<Parsed<Seq<TokenView>>, Failed>
    decreases ts.len() - pos,
{
    if pos < 0 || pos >= ts.len() || puncts_match(ts, pos, ";"@) {
        Ok(Parsed { value: Seq::empty(), next: pos, refs: Seq::empty(), leftover: None })
    } else {
        match token_parse(ts, pos, scope, vars) {
            Err(e) => Err(e),
            Ok(t) => if t.next <= pos || t.next > ts.len() {
                Err(stalled(scope))
            } else {
                match value_tokens(ts, t.next, scope, vars) {
                    Err(e) => Err(Failed { refs: t.refs + e.refs, ..e }),
                    Ok(rest) => Ok(
                        Parsed {
                            value: seq![t.value] + rest.value,
                            next: rest.next,
                            refs: t.refs + rest.refs,
                            leftover: first_leftover(t.leftover, rest.leftover),
                        },
                    ),
                }
            },
        }
    }
}

/// The span that a parse position reports: its token (a group's opening
/// delimiter), or `scope` at the end.
pub open spec fn position_span(ts: Seq<TokenTree>, pos: int, scope: Span) -> Span {
    if 0 <= pos < ts.len() {
        token_error_span(ts[pos])
    } else {
        scope
    }
}

/// A property value from `pos`: its tokens up to a `;` or the end, and the
/// span where they stop.
pub open spec fn value_parse(
    ts: Seq<TokenTree>,
    pos: int,
    scope: Span,
    vars: Seq<(VarName, ScopeVarValue)>,
) -> Result<Parsed<(Span, Seq<TokenView>)>, Failed> {
    match value_tokens(ts, pos, scope, vars) {
        Err(e) => Err(e),
        Ok(p) => Ok(
            Parsed {
                value: (position_span(ts, p.next, scope), p.value),
                next: p.next,
                refs: p.refs,
                leftover: p.leftover,
            },
        ),
    }
}

/// The error that no parenthesis group is at `pos`.
pub open spec fn paren_error(ts: Seq<TokenTree>, pos: int, scope: Span) -> Failed {
    if 0 <= pos < ts.len() {
        fail(token_error_span(ts[pos]), "expected parentheses"@)
    } else {
        fail(scope, "unexpected end of input, expected parentheses"@)
    }
}

/// `name = value` inside the parenthesis group `g`: name, value, and the
/// leftovers of the group.
pub open spec fn named_value_in(
    g: Group,
    vars: Seq<(VarName, ScopeVarValue)>,
) -> Result<Parsed<((Span, Seq<char>), (Span, Seq<TokenView>))>, Failed> {
    let content = g.stream@;
    let scope = g.span_close;
    match ident_parse(content, 0, scope) {
        Err(e) => Err(e),
        Ok(n) => match eq_parse(content, n.next, scope) {
            Err(e) => Err(e),
            Ok(after_eq) => match value_parse(content, after_eq, scope, vars) {
                Err(e) => Err(e),
                Ok(v) => Ok(
                    Parsed {
                        value: (n.value, v.value),
                        next: v.next,
                        refs: v.refs,
                        leftover: first_leftover(
                            v.leftover,
                            leftover_at(content, v.next, Delimiter::Parenthesis),
                        ),
                    },
                ),
            },
        },
    }
}

/// The abstract value of a media feature: its `not`, its name and its value.
pub struct MediaCondView {
    pub not: Option<(Span, Seq<char>)>,
    pub name: (Span, Seq<char>),
    pub cond: (Span, Seq<TokenView>),
}

/// The media features from `pos`: `[not] (name = value)`, joined by `and`.
pub open spec fn media_conds(
    ts: Seq<TokenTree>,
    pos: int,
    scope: Span,
    vars: Seq<(VarName, ScopeVarValue)>,
) -> Result<Parsed<Seq<MediaCondView>>, Failed>
    decreases ts.len() - pos, 1int,
{
    let not_r = if keyword_at(ts, pos, "not"@) {
        match ident_parse(ts, pos, scope) {
            Ok(p) => Ok(Some(p.value)),
            Err(e) => Err(e),
        }
    } else {
        Ok(None)
    };
    match not_r {
        Err(e) => Err(e),
        Ok(not) => media_cond_after_not(ts, pos, scope, vars, not),
    }
}

/// The rest of the media features from `pos` once a possible `not` is read.
pub open spec fn media_cond_after_not(
    ts: Seq<TokenTree>,
    pos: int,
    scope: Span,
    vars: Seq<(VarName, ScopeVarValue)>,
    not: Option<(Span, Seq<char>)>,
) -> Result<Parsed<Seq<MediaCondView>>, Failed>
    decreases ts.len() - pos, 0int,
{
    let p1 = if not is Some {
        pos + 1
    } else {
        pos
    };
    match paren_group_at(ts, p1) {
        None => Err(paren_error(ts, p1, scope)),
        Some(g) => match named_value_in(g, vars) {
            Err(e) => Err(e),
            Ok(nv) => {
                let cond = MediaCondView { not, name: nv.value.0, cond: nv.value.1 };
                let p2 = p1 + 1;
                if keyword_at(ts, p2, "and"@) {
                    match media_conds(ts, p2 + 1, scope, vars) {
                        Err(e) => Err(Failed { refs: nv.refs + e.refs, ..e }),
                        Ok(rest) => Ok(
                            Parsed {
                                value: seq![cond] + rest.value,
                                next: rest.next,
                                refs: nv.refs + rest.refs,
                                leftover: first_leftover(nv.leftover, rest.leftover),
                            },
                        ),
                    }
                } else {
                    Ok(Parsed { value: seq![cond], next: p2, refs: nv.refs, leftover: nv.leftover })
                }
            },
        },
    }
}

/// The abstract value of a media query.
pub struct MediaQueryView {
    pub only: Option<(Span, Seq<char>)>,
    pub media_type: MediaType,
    pub conds: Seq<MediaCondView>,
}

/// The media type a name stands for.
pub open spec fn media_type_of(name: Seq<char>) -> Option<MediaType> {
    if name == "all"@ {
        Some(MediaType::All)
    } else if name == "screen"@ {
        Some(MediaType::Screen)
    } else if name == "print"@ {
        Some(MediaType::Print)
    } else {
        None
    }
}

/// The media features after the media type (at `pos`), where there are any.
pub open spec fn media_rest(
    ts: Seq<TokenTree>,
    pos: int,
    scope: Span,
    vars: Seq<(VarName, ScopeVarValue)>,
    only: Option<(Span, Seq<char>)>,
    media_type: MediaType,
    has_feature: bool,
) -> Result<Parsed<MediaQueryView>, Failed> {
    if has_feature {
        match media_conds(ts, pos, scope, vars) {
            Err(e) => Err(e),
            Ok(c) => Ok(
                Parsed {
                    value: MediaQueryView { only, media_type, conds: c.value },
                    next: c.next,
                    refs: c.refs,
                    leftover: c.leftover,
                },
            ),
        }
    } else {
        Ok(
            Parsed {
                value: MediaQueryView { only, media_type, conds: Seq::empty() },
                next: pos,
                refs: Seq::empty(),
                leftover: None,
            },
        )
    }
}

/// A media query at `pos`: `[only] [type]` and then, where the query starts
/// with no type or an `and` follows it, its features.
pub open spec fn media_query_parse(
    ts: Seq<TokenTree>,
    pos: int,
    scope: Span,
    vars: Seq<(VarName, ScopeVarValue)>,
) -> Result<Parsed<MediaQueryView>, Failed> {
    let only_parse = if keyword_at(ts, pos, "only"@) {
        match ident_parse(ts, pos, scope) {
            Ok(p) => Ok(Some(p.value)),
            Err(e) => Err(e),
        }
    } else {
        Ok(None)
    };
    match only_parse {
        Err(e) => Err(e),
        Ok(only_r) => media_query_after_only(ts, pos, scope, vars, only_r),
    }
}

/// A media query once a possible `only` at `pos` is read.
pub open spec fn media_query_after_only(
    ts: Seq<TokenTree>,
    pos: int,
    scope: Span,
    vars: Seq<(VarName, ScopeVarValue)>,
    only_r: Option<(Span, Seq<char>)>,
) -> Result<Parsed<MediaQueryView>, Failed> {
    let p1 = if only_r is Some {
        pos + 1
    } else {
        pos
    };
    let need_type = only_r is Some || (0 <= p1 < ts.len() && (ts[p1] matches TokenTree::Ident(i)
        && !i.keyword) && !keyword_at(ts, p1, "not"@));
    if need_type {
        match ident_parse(ts, p1, scope) {
            Err(e) => Err(e),
            Ok(n) => match media_type_of(n.value.1) {
                None => Err(fail(n.value.0, "unknown media type"@)),
                Some(t) => media_rest(ts, n.next, scope, vars, only_r, t, keyword_at(ts, n.next, "and"@)),
            },
        }
    } else {
        media_rest(ts, p1, scope, vars, only_r, MediaType::All, true)
    }
}

/// The abstract value of an `@supports` condition.
pub enum SupportsView {
    Cond((Span, Seq<char>), (Span, Seq<TokenView>)),
    And(Seq<SupportsParenView>),
    Or(Seq<SupportsParenView>),
    Not(Box<SupportsParenView>),
    Sub(Box<SupportsParenView>),
}

/// The abstract value of a parenthesized `@supports` condition.
pub struct SupportsParenView {
    pub span: Span,
    pub block: SupportsView,
}

/// `not (...)`: a parenthesized group directly inside is taken as the operand.
pub open spec fn not_of(item: SupportsParenView) -> SupportsView {
    match item.block {
        SupportsView::Sub(inner) => SupportsView::Not(inner),
        _ => SupportsView::Not(Box::new(item)),
    }
}

/// An operand of `and` or `or`: a parenthesized group directly inside is taken instead.
pub open spec fn list_item(item: SupportsParenView) -> SupportsParenView {
    match item.block {
        SupportsView::Sub(inner) => *inner,
        _ => item,
    }
}

/// A parenthesized condition on its own.
pub open spec fn sub_of(item: SupportsParenView) -> SupportsView {
    match item.block {
        SupportsView::Sub(inner) => SupportsView::Sub(inner),
        _ => SupportsView::Sub(Box::new(item)),
    }
}

/// A parenthesized condition at `pos`.
pub open spec fn supports_paren(
    ts: Seq<TokenTree>,
    pos: int,
    scope: Span,
    vars: Seq<(VarName, ScopeVarValue)>,
) -> Result<Parsed<SupportsParenView>, Failed>
    decreases ts, 1int, 0int,
{
    match paren_group_at(ts, pos) {
        None => Err(paren_error(ts, pos, scope)),
        Some(g) => match supports_parse(g.stream@, 0, g.span_close, vars) {
            Err(e) => Err(e),
            Ok(c) => Ok(
                Parsed {
                    value: SupportsParenView { span: g.span, block: c.value },
                    next: pos + 1,
                    refs: c.refs,
                    leftover: first_leftover(
                        c.leftover,
                        leftover_at(g.stream@, c.next, Delimiter::Parenthesis),
                    ),
                },
            ),
        },
    }
}

/// The operands from `pos` after the first `and` (or `or`, as `kw` says):
/// one parenthesized condition, then, where `kw` follows it, the rest from
/// that `kw` on (which is not a condition, and so fails).
pub open spec fn supports_list(
    ts: Seq<TokenTree>,
    pos: int,
    scope: Span,
    vars: Seq<(VarName, ScopeVarValue)>,
    kw: Seq<char>,
) -> Result<Parsed<Seq<SupportsParenView>>, Failed>
    decreases ts, 1int, ts.len() - pos,
{
    if !(0 <= pos < ts.len()) {
        Err(paren_error(ts, pos, scope))
    } else {
        match supports_paren(ts, pos, scope, vars) {
            Err(e) => Err(e),
            Ok(item) => if keyword_at(ts, item.next, kw) && pos < item.next {
                match supports_list(ts, item.next, scope, vars, kw) {
                    Err(e) => Err(Failed { refs: item.refs + e.refs, ..e }),
                    Ok(rest) => Ok(
                        Parsed {
                            value: seq![list_item(item.value)] + rest.value,
                            next: rest.next,
                            refs: item.refs + rest.refs,
                            leftover: first_leftover(item.leftover, rest.leftover),
                        },
                    ),
                }
            } else {
                Ok(
                    Parsed {
                        value: seq![list_item(item.value)],
                        next: item.next,
                        refs: item.refs,
                        leftover: item.leftover,
                    },
                )
            },
        }
    }
}

/// An `@supports` condition at `pos`: `not (...)`, `(...)` possibly joined
/// with `and` or `or`, or `name = value`.
pub open spec fn supports_parse(
    ts: Seq<TokenTree>,
    pos: int,
    scope: Span,
    vars: Seq<(VarName, ScopeVarValue)>,
) -> Result<Parsed<SupportsView>, Failed>
    decreases ts, 2int, 0int,
{
    if keyword_at(ts, pos, "not"@) {
        match supports_paren(ts, pos + 1, scope, vars) {
            Err(e) => Err(e),
            Ok(item) => Ok(
                Parsed { value: not_of(item.value), next: item.next, refs: item.refs, leftover: item.leftover },
            ),
        }
    } else if paren_group_at(ts, pos) is Some {
        match supports_paren(ts, pos, scope, vars) {
            Err(e) => Err(e),
            Ok(first) => {
                let p = first.next;
                let is_and = keyword_at(ts, p, "and"@);
                let is_or = keyword_at(ts, p, "or"@);
                if is_and || is_or {
                    let kw = if is_and {
                        "and"@
                    } else {
                        "or"@
                    };
                    match supports_list(ts, p + 1, scope, vars, kw) {
                        Err(e) => Err(Failed { refs: first.refs + e.refs, ..e }),
                        Ok(rest) => {
                            let items = seq![list_item(first.value)] + rest.value;
                            Ok(
                                Parsed {
                                    value: if is_and {
                                        SupportsView::And(items)
                                    } else {
                                        SupportsView::Or(items)
                                    },
                                    next: rest.next,
                                    refs: first.refs + rest.refs,
                                    leftover: first_leftover(first.leftover, rest.leftover),
                                },
                            )
                        },
                    }
                } else {
                    Ok(
                        Parsed {
                            value: sub_of(first.value),
                            next: p,
                            refs: first.refs,
                            leftover: first.leftover,
                        },
                    )
                }
            },
        }
    } else if 0 <= pos < ts.len() && (ts[pos] matches TokenTree::Ident(i) && !i.keyword) {
        match ident_parse(ts, pos, scope) {
            Err(e) => Err(e),
            Ok(n) => match eq_parse(ts, n.next, scope) {
                Err(e) => Err(e),
                Ok(after_eq) => match value_parse(ts, after_eq, scope, vars) {
                    Err(e) => Err(e),
                    Ok(v) => Ok(
                        Parsed {
                            value: SupportsView::Cond(n.value, v.value),
                            next: v.next,
                            refs: v.refs,
                            leftover: v.leftover,
                        },
                    ),
                },
            },
        }
    } else {
        Err(expected_error(ts, pos, scope, seq!["`not`"@, "parentheses"@, "identifier"@]))
    }
}

// ---------------------------------------------------------------------
// Executable parsing.

pub open spec fn ident_view(x: CssIdent) -> (Span, Seq<char>) {
    (x.span, x.formal_name@)
}

pub open spec fn value_view(v: CssTokenStream) -> (Span, Seq<TokenView>) {
    (v.last_span, tokens_view(v.tokens@))
}

pub open spec fn opt_ident_view(x: Option<CssIdent>) -> Option<(Span, Seq<char>)> {
    match x {
        Some(i) => Some(ident_view(i)),
        None => None,
    }
}

pub open spec fn media_cond_view(c: MediaCond<CssTokenStream>) -> MediaCondView {
    MediaCondView { not: opt_ident_view(c.not), name: ident_view(c.name), cond: value_view(c.cond) }
}

pub open spec fn media_query_view(q: MediaQuery<CssTokenStream>) -> MediaQueryView {
    MediaQueryView {
        only: opt_ident_view(q.only),
        media_type: q.media_type,
        conds: q.cond_list@.map_values(|c: MediaCond<CssTokenStream>| media_cond_view(c)),
    }
}

pub open spec fn supports_view(q: SupportsQuery<CssTokenStream>) -> SupportsView
    decreases q, 1nat,
{
    match q {
        SupportsQuery::Cond(c) => SupportsView::Cond(ident_view(c.name), value_view(c.value)),
        SupportsQuery::And(list) => SupportsView::And(supports_parens_view(list@)),
        SupportsQuery::Or(list) => SupportsView::Or(supports_parens_view(list@)),
        SupportsQuery::Not(item) => SupportsView::Not(Box::new(supports_paren_view(*item))),
        SupportsQuery::Sub(item) => SupportsView::Sub(Box::new(supports_paren_view(*item))),
    }
}

pub open spec fn supports_paren_view(p: CssParen<SupportsQuery<CssTokenStream>>) -> SupportsParenView
    decreases p, 0nat,
{
    SupportsParenView { span: p.span, block: supports_view(p.block) }
}

pub open spec fn supports_parens_view(s: Seq<CssParen<SupportsQuery<CssTokenStream>>>) -> Seq<SupportsParenView>
    decreases s, 0nat,
{
    if s.len() == 0 {
        Seq::empty()
    } else {
        supports_parens_view(s.subrange(0, s.len() - 1)).push(supports_paren_view(s[s.len() - 1]))
    }
}

/// The result of a parse against its abstract outcome, given how the value
/// maps to its abstract value.
pub open spec fn outcome<T, V>(
    r: Result<(T, usize, Option<(Span, Delimiter)>), ParseError>,
    spec_r: Result<Parsed<V>, Failed>,
    view: spec_fn(T) -> V,
    refs_before: Seq<crate::css_token::VarRef>,
    refs_after: Seq<crate::css_token::VarRef>,
) -> bool {
    match (r, spec_r) {
        (Ok((t, n, lo)), Ok(p)) => view(t) == p.value && n == p.next && lo == p.leftover
            && refs_view(refs_after) == refs_view(refs_before) + p.refs,
        (Err(e), Err(f)) => e.span == f.span && e.message@ == f.message && refs_view(refs_after)
            == refs_view(refs_before) + f.refs,
        _ => false,
    }
}

/// The identifier at `pos`.
pub(crate) fn ident_token_at(ts: &Vec<TokenTree>, pos: usize, scope_span: Span) -> (r: Result<(CssIdent, usize), ParseError>)
    ensures
        match (r, ident_parse(ts@, pos as int, scope_span)) {
            (Ok((x, n)), Ok(p)) => ident_view(x) == p.value && n == p.next,
            (Err(e), Err(f)) => e.span == f.span && e.message@ == f.message,
            _ => false,
        },
{
    if pos >= ts.len() {
        return Err(ParseError::new(scope_span, "unexpected end of input, expected identifier"));
    }
    match &ts[pos] {
        TokenTree::Ident(i) => if i.keyword {
            let mut m = to_owned_string("expected identifier, found keyword `");
            m.append(i.name.as_str());
            m.append("`");
            Err(ParseError { span: i.span, message: m })
        } else {
            Ok((CssIdent { span: i.span, formal_name: to_owned_string(i.name.as_str()) }, pos + 1))
        },
        t => {
            let span = match t {
                TokenTree::Group(g) => g.span_open,
                TokenTree::Ident(i) => i.span,
                TokenTree::Punct(p) => p.span,
                TokenTree::Literal(l) => l.span,
            };
            Err(ParseError::new(span, "expected identifier"))
        },
    }
}

/// Whether the identifier `kw` is at `pos`.
pub(crate) fn keyword_is_at(ts: &Vec<TokenTree>, pos: usize, kw: &str) -> (r: bool)
    ensures
        r == keyword_at(ts@, pos as int, kw@),
{
    if pos < ts.len() {
        match &ts[pos] {
            TokenTree::Ident(i) => str_eq(i.name.as_str(), kw),
            _ => false,
        }
    } else {
        false
    }
}

/// The position after the `=` at `pos`.
pub(crate) fn eq_at(ts: &Vec<TokenTree>, pos: usize, scope_span: Span) -> (r: Result<usize, ParseError>)
    ensures
        match (r, eq_parse(ts@, pos as int, scope_span)) {
            (Ok(n), Ok(p)) => n == p,
            (Err(e), Err(f)) => e.span == f.span && e.message@ == f.message,
            _ => false,
        },
{
    if pos < ts.len() && puncts_match_at(ts, pos, "=") {
        Ok(pos + 1)
    } else {
        proof {
            if pos >= ts.len() {
                assert(!puncts_match(ts@, pos as int, "="@));
            }
        }
        let span = if pos < ts.len() {
            match &ts[pos] {
                TokenTree::Group(g) => g.span_open,
                TokenTree::Ident(i) => i.span,
                TokenTree::Punct(p) => p.span,
                TokenTree::Literal(l) => l.span,
            }
        } else {
            scope_span
        };
        Err(ParseError::new(span, "expected `=`"))
    }
}

/// The tokens of a property value from `pos`, up to a `;` or the end.
fn value_tokens_at(ts: &Vec<TokenTree>, pos: usize, scope_span: Span, scope: &mut ScopeVars) -> (r: Result<
    (Vec<CssToken>, usize, Option<(Span, Delimiter)>),
    ParseError,
>)
    ensures
        final(scope).vars == old(scope).vars,
        final(scope).cur_mod == old(scope).cur_mod,
        outcome(
            r,
            value_tokens(ts@, pos as int, scope_span, old(scope).vars@),
            |v: Vec<CssToken>| tokens_view(v@),
            old(scope).var_refs@,
            final(scope).var_refs@,
        ),
    decreases ts@.len() - pos,
{
    if pos >= ts.len() || puncts_match_at(ts, pos, ";") {
        let v: Vec<CssToken> = Vec::new();
        assert(tokens_view(v@) =~= Seq::<TokenView>::empty());
        assert(refs_view(scope.var_refs@) =~= refs_view(scope.var_refs@) + Seq::<(Span, Seq<char>)>::empty());
        return Ok((v, pos, None));
    }
    let ghost vars = scope.vars@;
    let ghost refs0 = scope.var_refs@;
    match parse_token_at(ts, pos, scope_span, scope) {
        Err(e) => Err(e),
        Ok((t, next, lo)) => {
            proof {
                lemma_token_parse_advances(ts@, pos as int, scope_span, vars);
            }
            match value_tokens_at(ts, next, scope_span, scope) {
                Err(e) => {
                    assert(refs_view(scope.var_refs@) =~= refs_view(refs0) + (token_parse(ts@, pos as int, scope_span, vars)->Ok_0.refs
                        + value_tokens(ts@, next as int, scope_span, vars)->Err_0.refs));
                    Err(e)
                },
                Ok((mut rest, n, lo2)) => {
                    let ghost rest0 = rest@;
                    rest.insert(0, t);
                    proof {
                        assert(rest@ =~= seq![t] + rest0);
                        crate::token_parse::lemma_tokens_view_prepend(t, rest0);
                        assert(refs_view(scope.var_refs@) =~= refs_view(refs0) + (token_parse(ts@, pos as int, scope_span, vars)->Ok_0.refs
                            + value_tokens(ts@, next as int, scope_span, vars)->Ok_0.refs));
                    }
                    let l = if lo.is_some() { lo } else { lo2 };
                    Ok((rest, n, l))
                },
            }
        },
    }
}

/// The span a parse position reports.
pub(crate) fn position_span_at(ts: &Vec<TokenTree>, pos: usize, scope_span: Span) -> (r: Span)
    ensures
        r == position_span(ts@, pos as int, scope_span),
{
    if pos < ts.len() {
        match &ts[pos] {
            TokenTree::Group(g) => g.span_open,
            TokenTree::Ident(i) => i.span,
            TokenTree::Punct(p) => p.span,
            TokenTree::Literal(l) => l.span,
        }
    } else {
        scope_span
    }
}

/// A property value from `pos`.
pub(crate) fn value_at(ts: &Vec<TokenTree>, pos: usize, scope_span: Span, scope: &mut ScopeVars) -> (r: Result<
    (CssTokenStream, usize, Option<(Span, Delimiter)>),
    ParseError,
>)
    ensures
        final(scope).vars == old(scope).vars,
        final(scope).cur_mod == old(scope).cur_mod,
        outcome(
            r,
            value_parse(ts@, pos as int, scope_span, old(scope).vars@),
            |v: CssTokenStream| value_view(v),
            old(scope).var_refs@,
            final(scope).var_refs@,
        ),
{
    match value_tokens_at(ts, pos, scope_span, scope) {
        Err(e) => Err(e),
        Ok((tokens, n, lo)) => {
            let last = position_span_at(ts, n, scope_span);
            Ok((CssTokenStream::new(last, tokens), n, lo))
        },
    }
}

/// `name = value` inside the parenthesis group `g`.
fn named_value_at(g: &Group, scope: &mut ScopeVars) -> (r: Result<
    ((CssIdent, CssTokenStream), usize, Option<(Span, Delimiter)>),
    ParseError,
>)
    ensures
        final(scope).vars == old(scope).vars,
        final(scope).cur_mod == old(scope).cur_mod,
        outcome(
            r,
            named_value_in(*g, old(scope).vars@),
            |x: (CssIdent, CssTokenStream)| (ident_view(x.0), value_view(x.1)),
            old(scope).var_refs@,
            final(scope).var_refs@,
        ),
{
    let content = &g.stream;
    proof {
        assert(refs_view(scope.var_refs@) =~= refs_view(scope.var_refs@) + Seq::<(Span, Seq<char>)>::empty());
    }
    match ident_token_at(content, 0, g.span_close) {
        Err(e) => Err(e),
        Ok((name, n)) => match eq_at(content, n, g.span_close) {
            Err(e) => Err(e),
            Ok(after_eq) => match value_at(content, after_eq, g.span_close, scope) {
                Err(e) => Err(e),
                Ok((value, vn, lo)) => {
                    let l = if lo.is_some() { lo } else { leftover_in_paren(content, vn) };
                    Ok(((name, value), vn, l))
                },
            },
        },
    }
}

proof fn lemma_conds_view_prepend(c: MediaCond<CssTokenStream>, s: Seq<MediaCond<CssTokenStream>>)
    ensures
        (seq![c] + s).map_values(|x: MediaCond<CssTokenStream>| media_cond_view(x)) == seq![
            media_cond_view(c),
        ] + s.map_values(|x: MediaCond<CssTokenStream>| media_cond_view(x)),
{
    assert((seq![c] + s).map_values(|x: MediaCond<CssTokenStream>| media_cond_view(x)) =~= seq![
        media_cond_view(c),
    ] + s.map_values(|x: MediaCond<CssTokenStream>| media_cond_view(x)));
}

/// The group at `pos` when it is a parenthesis group.
pub(crate) fn paren_at(ts: &Vec<TokenTree>, pos: usize) -> (r: Option<&Group>)
    ensures
        match r {
            Some(g) => paren_group_at(ts@, pos as int) == Some(*g) && pos < ts@.len(),
            None => paren_group_at(ts@, pos as int) is None,
        },
{
    if pos < ts.len() {
        match &ts[pos] {
            TokenTree::Group(g) => if g.delimiter == Delimiter::Parenthesis {
                Some(g)
            } else {
                None
            },
            _ => None,
        }
    } else {
        None
    }
}

/// The error that no parenthesis group is at `pos`.
pub(crate) fn paren_error_at(ts: &Vec<TokenTree>, pos: usize, scope_span: Span) -> (r: ParseError)
    ensures
        r.span == paren_error(ts@, pos as int, scope_span).span,
        r.message@ == paren_error(ts@, pos as int, scope_span).message,
{
    if pos < ts.len() {
        ParseError::new(position_span_at(ts, pos, scope_span), "expected parentheses")
    } else {
        ParseError::new(scope_span, "unexpected end of input, expected parentheses")
    }
}

/// The media features from `pos`.
fn media_conds_at(ts: &Vec<TokenTree>, pos: usize, scope_span: Span, scope: &mut ScopeVars) -> (r: Result<
    (Vec<MediaCond<CssTokenStream>>, usize, Option<(Span, Delimiter)>),
    ParseError,
>)
    ensures
        final(scope).vars == old(scope).vars,
        final(scope).cur_mod == old(scope).cur_mod,
        outcome(
            r,
            media_conds(ts@, pos as int, scope_span, old(scope).vars@),
            |v: Vec<MediaCond<CssTokenStream>>| v@.map_values(|c: MediaCond<CssTokenStream>| media_cond_view(c)),
            old(scope).var_refs@,
            final(scope).var_refs@,
        ),
    decreases ts@.len() - pos,
{
    let ghost vars = scope.vars@;
    let ghost refs0 = scope.var_refs@;
    proof {
        assert(refs_view(scope.var_refs@) =~= refs_view(scope.var_refs@) + Seq::<(Span, Seq<char>)>::empty());
    }
    let not = if keyword_is_at(ts, pos, "not") {
        match ident_token_at(ts, pos, scope_span) {
            Err(e) => {
                return Err(e);
            },
            Ok((x, _)) => Some(x),
        }
    } else {
        None
    };
    let p1 = if not.is_some() { pos + 1 } else { pos };
    let g = match paren_at(ts, p1) {
        None => {
            return Err(paren_error_at(ts, p1, scope_span));
        },
        Some(g) => g,
    };
    assert(p1 < ts.len());
    let ghost not_v = opt_ident_view(not);
    assert(media_conds(ts@, pos as int, scope_span, vars) == media_cond_after_not(
        ts@,
        pos as int,
        scope_span,
        vars,
        not_v,
    ));
    match named_value_at(g, scope) {
        Err(e) => Err(e),
        Ok(((name, value), _, lo)) => {
            let ghost nv = named_value_in(*g, vars)->Ok_0;
            let cond = MediaCond { not, name, cond: value };
            let p2 = p1 + 1;
            if keyword_is_at(ts, p2, "and") {
                assert(p2 < ts.len());
                let ghost refs1 = scope.var_refs@;
                match media_conds_at(ts, p2 + 1, scope_span, scope) {
                    Err(e) => {
                        assert(refs_view(scope.var_refs@) =~= refs_view(refs0) + (nv.refs
                            + media_conds(ts@, p2 + 1, scope_span, vars)->Err_0.refs));
                        Err(e)
                    },
                    Ok((mut rest, n, lo2)) => {
                        let ghost rest0 = rest@;
                        rest.insert(0, cond);
                        proof {
                            assert(rest@ =~= seq![cond] + rest0);
                            lemma_conds_view_prepend(cond, rest0);
                            assert(refs_view(scope.var_refs@) =~= refs_view(refs0) + (nv.refs
                                + media_conds(ts@, p2 + 1, scope_span, vars)->Ok_0.refs));
                        }
                        let l = if lo.is_some() { lo } else { lo2 };
                        Ok((rest, n, l))
                    },
                }
            } else {
                let v = vec![cond];
                assert(v@.map_values(|c: MediaCond<CssTokenStream>| media_cond_view(c)) =~= seq![
                    media_cond_view(cond),
                ]);
                Ok((v, p2, lo))
            }
        },
    }
}

/// A media query at `pos`.
pub(crate) fn media_query_at(ts: &Vec<TokenTree>, pos: usize, scope_span: Span, scope: &mut ScopeVars) -> (r: Result<
    (MediaQuery<CssTokenStream>, usize, Option<(Span, Delimiter)>),
    ParseError,
>)
    ensures
        final(scope).vars == old(scope).vars,
        final(scope).cur_mod == old(scope).cur_mod,
        outcome(
            r,
            media_query_parse(ts@, pos as int, scope_span, old(scope).vars@),
            |q: MediaQuery<CssTokenStream>| media_query_view(q),
            old(scope).var_refs@,
            final(scope).var_refs@,
        ),
{
    proof {
        assert(refs_view(scope.var_refs@) =~= refs_view(scope.var_refs@) + Seq::<(Span, Seq<char>)>::empty());
    }
    let only = if keyword_is_at(ts, pos, "only") {
        match ident_token_at(ts, pos, scope_span) {
            Err(e) => {
                return Err(e);
            },
            Ok((x, _)) => Some(x),
        }
    } else {
        None
    };
    let p1 = if only.is_some() { pos + 1 } else { pos };
    let need_type = only.is_some() || (ident_at(ts, p1).is_some() && !keyword_is_at(ts, p1, "not"));
    let (media_type, has_feature, p2) = if need_type {
        match ident_token_at(ts, p1, scope_span) {
            Err(e) => {
                return Err(e);
            },
            Ok((x, n)) => {
                let t = if str_eq(x.formal_name.as_str(), "all") {
                    MediaType::All
                } else if str_eq(x.formal_name.as_str(), "screen") {
                    MediaType::Screen
                } else if str_eq(x.formal_name.as_str(), "print") {
                    MediaType::Print
                } else {
                    return Err(ParseError::new(x.span, "unknown media type"));
                };
                (t, keyword_is_at(ts, n, "and"), n)
            },
        }
    } else {
        (MediaType::All, true, p1)
    };
    if has_feature {
        match media_conds_at(ts, p2, scope_span, scope) {
            Err(e) => Err(e),
            Ok((cond_list, n, lo)) => Ok((MediaQuery { only, media_type, cond_list }, n, lo)),
        }
    } else {
        let cond_list: Vec<MediaCond<CssTokenStream>> = Vec::new();
        let q = MediaQuery { only, media_type, cond_list };
        assert(media_query_view(q).conds =~= Seq::<MediaCondView>::empty());
        Ok((q, p2, None))
    }
}


proof fn lemma_parens_view_index(s: Seq<CssParen<SupportsQuery<CssTokenStream>>>)
    ensures
        supports_parens_view(s).len() == s.len(),
        forall|i: int| 0 <= i < s.len() ==> #[trigger] supports_parens_view(s)[i] == supports_paren_view(s[i]),
    decreases s.len(),
{
    if s.len() > 0 {
        lemma_parens_view_index(s.subrange(0, s.len() - 1));
    }
}

proof fn lemma_parens_view_prepend(
    x: CssParen<SupportsQuery<CssTokenStream>>,
    s: Seq<CssParen<SupportsQuery<CssTokenStream>>>,
)
    ensures
        supports_parens_view(seq![x] + s) == seq![supports_paren_view(x)] + supports_parens_view(s),
{
    lemma_parens_view_index(seq![x] + s);
    lemma_parens_view_index(s);
    assert(supports_parens_view(seq![x] + s) =~= seq![supports_paren_view(x)] + supports_parens_view(s)) by {
        assert forall|i: int| 0 <= i < s.len() + 1 implies #[trigger] supports_parens_view(seq![x] + s)[i] == (seq![
            supports_paren_view(x),
        ] + supports_parens_view(s))[i] by {
            if i > 0 {
                assert((seq![x] + s)[i] == s[i - 1]);
            }
        }
    }
}

/// An operand of `and` or `or`: a parenthesized group directly inside is taken instead.
fn list_item_of(item: CssParen<SupportsQuery<CssTokenStream>>) -> (r: CssParen<SupportsQuery<CssTokenStream>>)
    ensures
        supports_paren_view(r) == list_item(supports_paren_view(item)),
{
    match item.block {
        SupportsQuery::Sub(inner) => *inner,
        other => CssParen { span: item.span, block: other },
    }
}

/// The `not` condition on `item`.
fn not_of_item(item: CssParen<SupportsQuery<CssTokenStream>>) -> (r: SupportsQuery<CssTokenStream>)
    ensures
        supports_view(r) == not_of(supports_paren_view(item)),
{
    match item.block {
        SupportsQuery::Sub(inner) => SupportsQuery::Not(inner),
        other => SupportsQuery::Not(Box::new(CssParen { span: item.span, block: other })),
    }
}

/// `item` as a condition on its own.
fn sub_of_item(item: CssParen<SupportsQuery<CssTokenStream>>) -> (r: SupportsQuery<CssTokenStream>)
    ensures
        supports_view(r) == sub_of(supports_paren_view(item)),
{
    match item.block {
        SupportsQuery::Sub(inner) => SupportsQuery::Sub(inner),
        other => SupportsQuery::Sub(Box::new(CssParen { span: item.span, block: other })),
    }
}

/// A parenthesized `@supports` condition at `pos`.
fn supports_paren_at(ts: &Vec<TokenTree>, pos: usize, scope_span: Span, scope: &mut ScopeVars) -> (r: Result<
    (CssParen<SupportsQuery<CssTokenStream>>, usize, Option<(Span, Delimiter)>),
    ParseError,
>)
    ensures
        final(scope).vars == old(scope).vars,
        final(scope).cur_mod == old(scope).cur_mod,
        outcome(
            r,
            supports_paren(ts@, pos as int, scope_span, old(scope).vars@),
            |p: CssParen<SupportsQuery<CssTokenStream>>| supports_paren_view(p),
            old(scope).var_refs@,
            final(scope).var_refs@,
        ),
    decreases ts, 1int, 0int,
{
    proof {
        assert(refs_view(scope.var_refs@) =~= refs_view(scope.var_refs@) + Seq::<(Span, Seq<char>)>::empty());
    }
    match paren_at(ts, pos) {
        None => Err(paren_error_at(ts, pos, scope_span)),
        Some(g) => {
            assert(pos < ts.len());
            proof {
                assert(decreases_to!(ts => ts@[pos as int]));
            }
            match supports_at(&g.stream, 0, g.span_close, scope) {
                Err(e) => Err(e),
                Ok((block, n, lo)) => {
                    let l = if lo.is_some() { lo } else { leftover_in_paren(&g.stream, n) };
                    Ok((CssParen { span: g.span, block }, pos + 1, l))
                },
            }
        },
    }
}

/// The operands from `pos` after the first `and` (or `or`, as `kw` says).
fn supports_list_at(ts: &Vec<TokenTree>, pos: usize, scope_span: Span, scope: &mut ScopeVars, kw: &str) -> (r: Result<
    (Vec<CssParen<SupportsQuery<CssTokenStream>>>, usize, Option<(Span, Delimiter)>),
    ParseError,
>)
    ensures
        final(scope).vars == old(scope).vars,
        final(scope).cur_mod == old(scope).cur_mod,
        outcome(
            r,
            supports_list(ts@, pos as int, scope_span, old(scope).vars@, kw@),
            |v: Vec<CssParen<SupportsQuery<CssTokenStream>>>| supports_parens_view(v@),
            old(scope).var_refs@,
            final(scope).var_refs@,
        ),
    decreases ts, 1int, ts@.len() - pos,
{
    let ghost vars = scope.vars@;
    let ghost refs0 = scope.var_refs@;
    proof {
        assert(refs_view(scope.var_refs@) =~= refs_view(scope.var_refs@) + Seq::<(Span, Seq<char>)>::empty());
    }
    if pos >= ts.len() {
        return Err(paren_error_at(ts, pos, scope_span));
    }
    match supports_paren_at(ts, pos, scope_span, scope) {
        Err(e) => Err(e),
        Ok((item, n, lo)) => {
            let ghost it = supports_paren(ts@, pos as int, scope_span, vars)->Ok_0;
            let first = list_item_of(item);
            if keyword_is_at(ts, n, kw) && pos < n {
                match supports_list_at(ts, n, scope_span, scope, kw) {
                    Err(e) => {
                        assert(refs_view(scope.var_refs@) =~= refs_view(refs0) + (it.refs
                            + supports_list(ts@, n as int, scope_span, vars, kw@)->Err_0.refs));
                        Err(e)
                    },
                    Ok((mut rest, n2, lo2)) => {
                        let ghost rest0 = rest@;
                        rest.insert(0, first);
                        proof {
                            assert(rest@ =~= seq![first] + rest0);
                            lemma_parens_view_prepend(first, rest0);
                            assert(refs_view(scope.var_refs@) =~= refs_view(refs0) + (it.refs
                                + supports_list(ts@, n as int, scope_span, vars, kw@)->Ok_0.refs));
                        }
                        let l = if lo.is_some() { lo } else { lo2 };
                        Ok((rest, n2, l))
                    },
                }
            } else {
                let v = vec![first];
                proof {
                    assert(v@ =~= seq![first] + Seq::<CssParen<SupportsQuery<CssTokenStream>>>::empty());
                    lemma_parens_view_prepend(first, Seq::empty());
                    assert(supports_parens_view(Seq::<CssParen<SupportsQuery<CssTokenStream>>>::empty())
                        =~= Seq::<SupportsParenView>::empty());
                }
                Ok((v, n, lo))
            }
        },
    }
}

/// An `@supports` condition at `pos`.
pub(crate) fn supports_at(ts: &Vec<TokenTree>, pos: usize, scope_span: Span, scope: &mut ScopeVars) -> (r: Result<
    (SupportsQuery<CssTokenStream>, usize, Option<(Span, Delimiter)>),
    ParseError,
>)
    ensures
        final(scope).vars == old(scope).vars,
        final(scope).cur_mod == old(scope).cur_mod,
        outcome(
            r,
            supports_parse(ts@, pos as int, scope_span, old(scope).vars@),
            |q: SupportsQuery<CssTokenStream>| supports_view(q),
            old(scope).var_refs@,
            final(scope).var_refs@,
        ),
    decreases ts, 2int, 0int,
{
    let ghost vars = scope.vars@;
    let ghost refs0 = scope.var_refs@;
    proof {
        assert(refs_view(scope.var_refs@) =~= refs_view(scope.var_refs@) + Seq::<(Span, Seq<char>)>::empty());
    }
    if keyword_is_at(ts, pos, "not") {
        assert(pos < ts.len());
        match supports_paren_at(ts, pos + 1, scope_span, scope) {
            Err(e) => Err(e),
            Ok((item, n, lo)) => Ok((not_of_item(item), n, lo)),
        }
    } else if paren_at(ts, pos).is_some() {
        match supports_paren_at(ts, pos, scope_span, scope) {
            Err(e) => Err(e),
            Ok((first_item, p, lo)) => {
                let ghost fi = supports_paren(ts@, pos as int, scope_span, vars)->Ok_0;
                let is_and = keyword_is_at(ts, p, "and");
                let is_or = keyword_is_at(ts, p, "or");
                if is_and || is_or {
                    assert(p < ts.len());
                    let kw = if is_and { "and" } else { "or" };
                    proof {
                        assert(kw@ == (if is_and { "and"@ } else { "or"@ }));
                    }
                    match supports_list_at(ts, p + 1, scope_span, scope, kw) {
                        Err(e) => {
                            assert(refs_view(scope.var_refs@) =~= refs_view(refs0) + (fi.refs
                                + supports_list(ts@, p + 1, scope_span, vars, kw@)->Err_0.refs));
                            Err(e)
                        },
                        Ok((mut rest, n, lo2)) => {
                            let ghost rest0 = rest@;
                            let first = list_item_of(first_item);
                            rest.insert(0, first);
                            proof {
                                assert(rest@ =~= seq![first] + rest0);
                                lemma_parens_view_prepend(first, rest0);
                                assert(refs_view(scope.var_refs@) =~= refs_view(refs0) + (fi.refs
                                    + supports_list(ts@, p + 1, scope_span, vars, kw@)->Ok_0.refs));
                            }
                            let l = if lo.is_some() { lo } else { lo2 };
                            let q = if is_and { SupportsQuery::And(rest) } else { SupportsQuery::Or(rest) };
                            Ok((q, n, l))
                        },
                    }
                } else {
                    Ok((sub_of_item(first_item), p, lo))
                }
            },
        }
    } else if ident_at(ts, pos).is_some() {
        match ident_token_at(ts, pos, scope_span) {
            Err(e) => Err(e),
            Ok((name, n)) => match eq_at(ts, n, scope_span) {
                Err(e) => Err(e),
                Ok(after_eq) => match value_at(ts, after_eq, scope_span, scope) {
                    Err(e) => Err(e),
                    Ok((value, vn, lo)) => Ok((SupportsQuery::Cond(SupportsCond { name, value }), vn, lo)),
                },
            },
        }
    } else {
        let kinds = vec!["`not`", "parentheses", "identifier"];
        assert(kinds_view(kinds@) =~= seq!["`not`"@, "parentheses"@, "identifier"@]);
        Err(expected_error_at(ts, pos, scope_span, &kinds))
    }
}

/// A parse at the position of `input` against its abstract outcome: on
/// success the position moves to where the parse stopped and the first
/// leftover token is kept.
pub open spec fn input_outcome<T, V>(
    r: Result<T, ParseError>,
    spec_r: Result<Parsed<V>, Failed>,
    view: spec_fn(T) -> V,
    input_before: ParseInput,
    input_after: ParseInput,
    refs_before: Seq<crate::css_token::VarRef>,
    refs_after: Seq<crate::css_token::VarRef>,
) -> bool {
    &&& input_after.tokens == input_before.tokens
    &&& input_after.scope == input_before.scope
    &&& match (r, spec_r) {
        (Ok(t), Ok(p)) => view(t) == p.value && input_after.pos == p.next && input_after.unexpected
            == first_leftover(input_before.unexpected, p.leftover) && refs_view(refs_after) == refs_view(
            refs_before,
        ) + p.refs,
        (Err(e), Err(f)) => e.span == f.span && e.message@ == f.message && refs_view(refs_after)
            == refs_view(refs_before) + f.refs,
        _ => false,
    }
}

impl MediaQuery<CssTokenStream> {
    /// Parses a media query: `[only] [type]`, then, where the query starts
    /// with no type or an `and` follows it, `[not] (name = value)` features
    /// joined by `and`.
    pub fn parse_with_vars(input: &mut ParseInput, scope: &mut ScopeVars) -> (r: Result<Self, ParseError>)
        ensures
            final(scope).vars == old(scope).vars,
            final(scope).cur_mod == old(scope).cur_mod,
            input_outcome(
                r,
                media_query_parse(old(input).tokens@, old(input).pos as int, old(input).scope, old(scope).vars@),
                |q: MediaQuery<CssTokenStream>| media_query_view(q),
                *old(input),
                *final(input),
                old(scope).var_refs@,
                final(scope).var_refs@,
            ),
    {
        match media_query_at(input.tokens, input.pos, input.scope, scope) {
            Err(e) => Err(e),
            Ok((q, next, lo)) => {
                input.pos = next;
                if input.unexpected.is_none() {
                    input.unexpected = lo;
                }
                Ok(q)
            },
        }
    }
}

impl SupportsQuery<CssTokenStream> {
    /// Parses an `@supports` condition: `not (...)`, `(...)` possibly
    /// joined with `and` or `or`, or `name = value`.
    pub fn parse_with_vars(input: &mut ParseInput, scope: &mut ScopeVars) -> (r: Result<Self, ParseError>)
        ensures
            final(scope).vars == old(scope).vars,
            final(scope).cur_mod == old(scope).cur_mod,
            input_outcome(
                r,
                supports_parse(old(input).tokens@, old(input).pos as int, old(input).scope, old(scope).vars@),
                |q: SupportsQuery<CssTokenStream>| supports_view(q),
                *old(input),
                *final(input),
                old(scope).var_refs@,
                final(scope).var_refs@,
            ),
    {
        match supports_at(input.tokens, input.pos, input.scope, scope) {
            Err(e) => Err(e),
            Ok((q, next, lo)) => {
                input.pos = next;
                if input.unexpected.is_none() {
                    input.unexpected = lo;
                }
                Ok(q)
            },
        }
    }
}

/// A parenthesized `@supports` condition followed by `or` reads as an `or`
/// condition, one followed by `and` as an `and` condition, whose first
/// operand is that parenthesized condition; `not` before a condition reads
/// as its negation.
pub proof fn lemma_supports_keyword_kind(
    ts: Seq<TokenTree>,
    pos: int,
    scope: Span,
    vars: Seq<(VarName, ScopeVarValue)>,
)
    requires
        supports_parse(ts, pos, scope, vars) is Ok,
    ensures
        keyword_at(ts, pos, "not"@) ==> supports_parse(ts, pos, scope, vars)->Ok_0.value is Not,
        !keyword_at(ts, pos, "not"@) && paren_group_at(ts, pos) is Some ==> {
            let first = supports_paren(ts, pos, scope, vars)->Ok_0;
            let v = supports_parse(ts, pos, scope, vars)->Ok_0.value;
            &&& keyword_at(ts, first.next, "or"@) ==> (v matches SupportsView::Or(items) && items.len() >= 1
                && items[0] == list_item(first.value))
            &&& keyword_at(ts, first.next, "and"@) ==> (v matches SupportsView::And(items) && items.len() >= 1
                && items[0] == list_item(first.value))
        },
{
    reveal_strlit("and");
    reveal_strlit("or");
    assert("and"@ != "or"@) by {
        assert("and"@.len() != "or"@.len());
    }
    if !keyword_at(ts, pos, "not"@) && paren_group_at(ts, pos) is Some {
        let first = supports_paren(ts, pos, scope, vars)->Ok_0;
        if keyword_at(ts, first.next, "or"@) || keyword_at(ts, first.next, "and"@) {
            let kw = if keyword_at(ts, first.next, "and"@) {
                "and"@
            } else {
                "or"@
            };
            let rest = supports_list(ts, first.next + 1, scope, vars, kw)->Ok_0;
            assert((seq![list_item(first.value)] + rest.value)[0] == list_item(first.value));
        }
    }
}

} // verus!
