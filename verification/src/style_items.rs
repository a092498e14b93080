//! Parsing the items of a style sheet: `const` values and key frames,
//! `style` definitions and `class` rules, with their attributes and
//! visibility.
use vstd::prelude::*;

use proc_macro2::Span;

use crate::css_token::{CssPercentage, CssToken, CssTokenStream, VarName, VarRef};
use crate::style_parse::{
    ident_parse, keyword_at, keyword_is_at, outcome, paren_at, paren_error, paren_error_at, position_span_at,
};
use crate::style_rules::{
    brace_at, brace_error, brace_error_at, brace_group_at, content_items, content_items_at, error_at, error_at_pos,
    items_view, lemma_property_attempt_advances, lemma_view_span, property_at, property_attempt, property_view,
    punct_error, recovered_error, recovered_error_at, rule_content, rule_content_at, rule_content_view,
    semi_check_error, view_span, ItemView, PropertyView, RuleContent, RuleContentView, StyleContentItem,
};
use crate::style_sheet::Property;
use crate::text::{str_eq, to_owned_string};
use crate::token_parse::{
    expected_error, expected_error_at, fail, first_leftover, kinds_view, lemma_token_parse_advances, lookup_var,
    num_value_view, paren_group_at, parse_token_at, puncts_match, puncts_match_at, refs_view, span_of, stalled,
    token_error_span, token_parse, token_view, tree_span, var_at, Delimiter, Failed, Group, Ident, Literal,
    LiteralToken, NumValueView, NumView, ParseInput, Parsed, ScopeVars, TokenTree, TokenView,
};
use crate::values::{ArgType, ModPath, ParseError, ScopeVarValue, VarDynRef};

verus! {

/// The bracket group at `pos`, if any.
pub open spec fn bracket_group_at(ts: Seq<TokenTree>, pos: int) -> Option<Group> {
    if 0 <= pos < ts.len() {
        match ts[pos] {
            TokenTree::Group(g) => if g.delimiter == Delimiter::Bracket {
                Some(g)
            } else {
                None
            },
            _ => None,
        }
    } else {
        None
    }
}

/// An identifier that can stand as a segment of a module path: one that is
/// no keyword, or `super`, `self`, `Self` or `crate`.
pub open spec fn path_ident_at(ts: Seq<TokenTree>, pos: int) -> Option<Seq<char>> {
    if 0 <= pos < ts.len() {
        match ts[pos] {
            TokenTree::Ident(i) => if !i.keyword || i.name@ == "super"@ || i.name@ == "self"@ || i.name@ == "Self"@
                || i.name@ == "crate"@ {
                Some(i.name@)
            } else {
                None
            },
            _ => None,
        }
    } else {
        None
    }
}

/// The segments of a module path from `pos`, separated by `::`; `first`
/// tells whether none was read yet.
pub open spec fn path_segments(ts: Seq<TokenTree>, pos: int, scope: Span, first: bool) -> Result<
    Parsed<Seq<Seq<char>>>,
    Failed,
>
    decreases ts.len() + 3 - pos,
{
    match path_ident_at(ts, pos) {
        None => if first {
            Err(error_at(ts, pos, scope, "expected path"@, "unexpected end of input, expected path"@))
        } else {
            Err(error_at(ts, pos, scope, "expected path segment"@, "unexpected end of input, expected path segment"@))
        },
        Some(name) => if puncts_match(ts, pos + 1, "::"@) {
            match path_segments(ts, pos + 3, scope, false) {
                Err(e) => Err(e),
                Ok(rest) => Ok(
                    Parsed { value: seq![name] + rest.value, next: rest.next, refs: Seq::empty(), leftover: None },
                ),
            }
        } else {
            Ok(Parsed { value: seq![name], next: pos + 1, refs: Seq::empty(), leftover: None })
        },
    }
}

/// A module path at `pos`: whether it starts with `::`, and its segments.
pub open spec fn path_parse(ts: Seq<TokenTree>, pos: int, scope: Span) -> Result<Parsed<(bool, Seq<Seq<char>>)>, Failed> {
    let lead = puncts_match(ts, pos, "::"@);
    match path_segments(ts, if lead { pos + 2 } else { pos }, scope, true) {
        Err(e) => Err(e),
        Ok(p) => Ok(Parsed { value: (lead, p.value), next: p.next, refs: Seq::empty(), leftover: None }),
    }
}

/// The abstract value of an outer attribute `#[path tokens]`: the span of
/// its `#`, its path, the span of the path's first segment, its bracket
/// group and where the tokens after the path start in it.
pub struct AttrView {
    pub pound: Span,
    pub path: (bool, Seq<Seq<char>>),
    pub path_span: Span,
    pub group: Group,
    pub args: int,
}

/// Whether the path of an attribute is the single identifier `name`.
pub open spec fn attr_is(a: AttrView, name: Seq<char>) -> bool {
    !a.path.0 && a.path.1 == seq![name]
}

/// The outer attributes from `pos`.
pub open spec fn attrs_parse(ts: Seq<TokenTree>, pos: int, scope: Span) -> Result<Parsed<Seq<AttrView>>, Failed>
    decreases ts.len() - pos,
{
    if !puncts_match(ts, pos, "#"@) {
        Ok(Parsed { value: Seq::empty(), next: pos, refs: Seq::empty(), leftover: None })
    } else {
        match bracket_group_at(ts, pos + 1) {
            None => Err(
                error_at(ts, pos + 1, scope, "expected square brackets"@, "unexpected end of input, expected square brackets"@),
            ),
            Some(g) => match path_parse(g.stream@, 0, g.span_close) {
                Err(e) => Err(e),
                Ok(p) => {
                    let lead = p.value.0;
                    let a = AttrView {
                        pound: token_error_span(ts[pos]),
                        path: p.value,
                        path_span: token_error_span(g.stream@[if lead { 2int } else { 0int }]),
                        group: g,
                        args: p.next,
                    };
                    match attrs_parse(ts, pos + 2, scope) {
                        Err(e) => Err(e),
                        Ok(rest) => Ok(
                            Parsed { value: seq![a] + rest.value, next: rest.next, refs: Seq::empty(), leftover: None },
                        ),
                    }
                },
            },
        }
    }
}


/// The segment identifier at `pos`, if any.
fn path_ident(ts: &Vec<TokenTree>, pos: usize) -> (r: Option<String>)
    ensures
        match r {
            Some(n) => path_ident_at(ts@, pos as int) == Some(n@),
            None => path_ident_at(ts@, pos as int) is None,
        },
{
    if pos < ts.len() {
        match &ts[pos] {
            TokenTree::Ident(i) => {
                let n = i.name.as_str();
                if !i.keyword || str_eq(n, "super") || str_eq(n, "self") || str_eq(n, "Self") || str_eq(n, "crate") {
                    Some(to_owned_string(n))
                } else {
                    None
                }
            },
            _ => None,
        }
    } else {
        None
    }
}

/// The segments of a module path from `pos`.
fn path_segments_at(ts: &Vec<TokenTree>, pos: usize, scope_span: Span, first: bool) -> (r: Result<
    (Vec<String>, usize),
    ParseError,
>)
    ensures
        match (r, path_segments(ts@, pos as int, scope_span, first)) {
            (Ok((v, n)), Ok(p)) => v@.map_values(|s: String| s@) == p.value && n == p.next,
            (Err(e), Err(f)) => e.span == f.span && e.message@ == f.message,
            _ => false,
        },
    decreases ts@.len() + 3 - pos,
{
    match path_ident(ts, pos) {
        None => if first {
            Err(error_at_pos(ts, pos, scope_span, "expected path", "unexpected end of input, expected path"))
        } else {
            Err(error_at_pos(ts, pos, scope_span, "expected path segment", "unexpected end of input, expected path segment"))
        },
        Some(name) => {
            assert(pos < ts.len());
            if puncts_match_at(ts, pos + 1, "::") {
                proof {
                    reveal_strlit("::");
                }
                assert(pos + 2 < ts.len());
                match path_segments_at(ts, pos + 3, scope_span, false) {
                    Err(e) => Err(e),
                    Ok((mut rest, n)) => {
                        let ghost rest0 = rest@;
                        rest.insert(0, name);
                        assert(rest@.map_values(|s: String| s@) =~= seq![name@] + rest0.map_values(|s: String| s@));
                        Ok((rest, n))
                    },
                }
            } else {
                let v = vec![name];
                assert(v@.map_values(|s: String| s@) =~= seq![name@]);
                Ok((v, pos + 1))
            }
        },
    }
}

/// A module path at `pos`.
pub(crate) fn path_at(ts: &Vec<TokenTree>, pos: usize, scope_span: Span) -> (r: Result<((bool, Vec<String>), usize), ParseError>)
    ensures
        match (r, path_parse(ts@, pos as int, scope_span)) {
            (Ok(((lead, v), n)), Ok(p)) => (lead, v@.map_values(|s: String| s@)) == p.value && n == p.next,
            (Err(e), Err(f)) => e.span == f.span && e.message@ == f.message,
            _ => false,
        },
{
    let lead = puncts_match_at(ts, pos, "::");
    proof {
        reveal_strlit("::");
    }
    let start = if lead {
        assert(pos + 1 < ts.len());
        pos + 2
    } else {
        pos
    };
    match path_segments_at(ts, start, scope_span, true) {
        Err(e) => Err(e),
        Ok((v, n)) => Ok(((lead, v), n)),
    }
}

/// An outer attribute: the span of its `#`, its path, the span of the
/// path's first segment, its bracket group and where the tokens after the
/// path start in it.
pub struct AttrItem<'a> {
    pub pound: Span,
    pub path: (bool, Vec<String>),
    pub path_span: Span,
    pub group: &'a Group,
    pub args: usize,
}

pub open spec fn attr_item_view(a: AttrItem) -> AttrView {
    AttrView {
        pound: a.pound,
        path: (a.path.0, a.path.1@.map_values(|s: String| s@)),
        path_span: a.path_span,
        group: *a.group,
        args: a.args as int,
    }
}

pub open spec fn attr_items_view(v: Seq<AttrItem>) -> Seq<AttrView> {
    v.map_values(|a: AttrItem| attr_item_view(a))
}

/// The bracket group at `pos`, if any.
fn bracket_at(ts: &Vec<TokenTree>, pos: usize) -> (r: Option<&Group>)
    ensures
        match r {
            Some(g) => bracket_group_at(ts@, pos as int) == Some(*g) && pos < ts@.len(),
            None => bracket_group_at(ts@, pos as int) is None,
        },
{
    if pos < ts.len() {
        match &ts[pos] {
            TokenTree::Group(g) => if g.delimiter == Delimiter::Bracket {
                Some(g)
            } else {
                None
            },
            _ => None,
        }
    } else {
        None
    }
}

/// The outer attributes from `pos`.
fn attrs_at<'a>(ts: &'a Vec<TokenTree>, pos: usize, scope_span: Span) -> (r: Result<(Vec<AttrItem<'a>>, usize), ParseError>)
    ensures
        match (r, attrs_parse(ts@, pos as int, scope_span)) {
            (Ok((v, n)), Ok(p)) => attr_items_view(v@) == p.value && n == p.next,
            (Err(e), Err(f)) => e.span == f.span && e.message@ == f.message,
            _ => false,
        },
    decreases ts@.len() - pos,
{
    if !puncts_match_at(ts, pos, "#") {
        let v: Vec<AttrItem<'a>> = Vec::new();
        assert(attr_items_view(v@) =~= Seq::<AttrView>::empty());
        return Ok((v, pos));
    }
    assert(pos < ts.len());
    let g = match bracket_at(ts, pos + 1) {
        None => {
            return Err(
                error_at_pos(ts, pos + 1, scope_span, "expected square brackets", "unexpected end of input, expected square brackets"),
            );
        },
        Some(g) => g,
    };
    let ((lead, segs), n) = match path_at(&g.stream, 0, g.span_close) {
        Err(e) => {
            return Err(e);
        },
        Ok(x) => x,
    };
    let first = if lead { 2 } else { 0 };
    assert(first < g.stream.len());
    let a = AttrItem {
        pound: position_span_at(ts, pos, scope_span),
        path: (lead, segs),
        path_span: position_span_at(&g.stream, first, g.span_close),
        group: g,
        args: n,
    };
    match attrs_at(ts, pos + 2, scope_span) {
        Err(e) => Err(e),
        Ok((mut rest, n2)) => {
            let ghost rest0 = rest@;
            rest.insert(0, a);
            assert(attr_items_view(rest@) =~= seq![attr_item_view(a)] + attr_items_view(rest0));
            Ok((rest, n2))
        },
    }
}

/// A visibility written on an item: `pub`, or `pub(crate)`, `pub(self)`,
/// `pub(super)`, `pub(in path)` as a restricted one; each with the span of
/// its `pub`.
#[derive(Debug)]
pub enum Visibility {
    Public(Span),
    Restricted(Span, Vec<String>),
}

/// The abstract value of a visibility.
pub enum VisView {
    Public(Span),
    Restricted(Span, Seq<Seq<char>>),
}

pub open spec fn vis_view(v: Visibility) -> VisView {
    match v {
        Visibility::Public(s) => VisView::Public(s),
        Visibility::Restricted(s, p) => VisView::Restricted(s, p@.map_values(|x: String| x@)),
    }
}

/// The span of the `pub` of a visibility.
pub open spec fn vis_span(v: VisView) -> Span {
    match v {
        VisView::Public(s) => s,
        VisView::Restricted(s, _) => s,
    }
}

/// The visibility at `pos`, if `pub` stands there.
pub open spec fn vis_parse(ts: Seq<TokenTree>, pos: int) -> Result<Parsed<Option<VisView>>, Failed> {
    if !keyword_at(ts, pos, "pub"@) {
        Ok(Parsed { value: None, next: pos, refs: Seq::empty(), leftover: None })
    } else {
        let sp = token_error_span(ts[pos]);
        match paren_group_at(ts, pos + 1) {
            None => Ok(Parsed { value: Some(VisView::Public(sp)), next: pos + 1, refs: Seq::empty(), leftover: None }),
            Some(g) => {
                let c = g.stream@;
                if c.len() == 1 && (keyword_at(c, 0, "crate"@) || keyword_at(c, 0, "self"@) || keyword_at(c, 0, "super"@)) {
                    let name = match c[0] {
                        TokenTree::Ident(i) => i.name@,
                        _ => Seq::empty(),
                    };
                    Ok(Parsed { value: Some(VisView::Restricted(sp, seq![name])), next: pos + 2, refs: Seq::empty(), leftover: None })
                } else if keyword_at(c, 0, "in"@) {
                    match path_parse(c, 1, g.span_close) {
                        Err(e) => Err(e),
                        Ok(p) => Ok(
                            Parsed { value: Some(VisView::Restricted(sp, p.value.1)), next: pos + 2, refs: Seq::empty(), leftover: None },
                        ),
                    }
                } else {
                    Ok(Parsed { value: Some(VisView::Public(sp)), next: pos + 1, refs: Seq::empty(), leftover: None })
                }
            },
        }
    }
}

/// The visibility at `pos`.
fn vis_at(ts: &Vec<TokenTree>, pos: usize, scope_span: Span) -> (r: Result<(Option<Visibility>, usize), ParseError>)
    ensures
        match (r, vis_parse(ts@, pos as int)) {
            (Ok((v, n)), Ok(p)) => n == p.next && match v {
                Some(x) => p.value == Some(vis_view(x)),
                None => p.value is None,
            },
            (Err(e), Err(f)) => e.span == f.span && e.message@ == f.message,
            _ => false,
        },
{
    if !keyword_is_at(ts, pos, "pub") {
        return Ok((None, pos));
    }
    assert(pos < ts.len());
    let sp = position_span_at(ts, pos, scope_span);
    match paren_at(ts, pos + 1) {
        None => Ok((Some(Visibility::Public(sp)), pos + 1)),
        Some(g) => {
            let c = &g.stream;
            if c.len() == 1 && (keyword_is_at(c, 0, "crate") || keyword_is_at(c, 0, "self") || keyword_is_at(c, 0, "super")) {
                let name = match &c[0] {
                    TokenTree::Ident(i) => to_owned_string(i.name.as_str()),
                    _ => String::new(),
                };
                let v = vec![name];
                assert(v@.map_values(|x: String| x@) =~= seq![name@]);
                Ok((Some(Visibility::Restricted(sp, v)), pos + 2))
            } else if keyword_is_at(c, 0, "in") {
                match path_at(c, 1, g.span_close) {
                    Err(e) => Err(e),
                    Ok(((_, segs), _)) => Ok((Some(Visibility::Restricted(sp, segs)), pos + 2)),
                }
            } else {
                Ok((Some(Visibility::Public(sp)), pos + 1))
            }
        },
    }
}

// ---------------------------------------------------------------------
// Parameters of a style definition.

/// Whether a type ends before `pos`: no `::`, `<`, `!`, `+` or
/// parenthesized arguments continue it.
pub open spec fn type_ends_at(ts: Seq<TokenTree>, pos: int) -> bool {
    !puncts_match(ts, pos, "::"@) && !puncts_match(ts, pos, "<"@) && !puncts_match(ts, pos, "!"@)
        && !puncts_match(ts, pos, "+"@) && paren_group_at(ts, pos) is None
}

/// Whether the identifier (not a keyword) `name` stands at `pos`.
pub open spec fn plain_ident_at(ts: Seq<TokenTree>, pos: int, name: Seq<char>) -> bool {
    0 <= pos < ts.len() && (ts[pos] matches TokenTree::Ident(i) && !i.keyword && i.name@ == name)
}

/// The type of a style parameter at `pos`: `&str` or `f32`.
pub open spec fn arg_type_parse(ts: Seq<TokenTree>, pos: int, scope: Span) -> Result<Parsed<ArgType>, Failed> {
    if puncts_match(ts, pos, "&"@) && plain_ident_at(ts, pos + 1, "str"@) && type_ends_at(ts, pos + 2) {
        Ok(Parsed { value: ArgType::Str(token_error_span(ts[pos])), next: pos + 2, refs: Seq::empty(), leftover: None })
    } else if plain_ident_at(ts, pos, "f32"@) && type_ends_at(ts, pos + 1) {
        Ok(Parsed { value: ArgType::Num(token_error_span(ts[pos])), next: pos + 1, refs: Seq::empty(), leftover: None })
    } else {
        Err(
            error_at(
                ts,
                pos,
                scope,
                "invalid type, possible types: &str, f32"@,
                "unexpected end of input, invalid type, possible types: &str, f32"@,
            ),
        )
    }
}

/// The parameters of a style definition from `pos` inside its
/// parentheses: `name: type`, separated by `,`.
pub open spec fn params_parse(ts: Seq<TokenTree>, pos: int, scope: Span) -> Result<
    Parsed<Seq<(Ident, ArgType)>>,
    Failed,
>
    decreases ts.len() - pos,
{
    if pos < 0 || pos >= ts.len() {
        Ok(Parsed { value: Seq::empty(), next: pos, refs: Seq::empty(), leftover: None })
    } else {
        match ident_parse(ts, pos, scope) {
            Err(e) => Err(e),
            Ok(n) => if !puncts_match(ts, n.next, ":"@) {
                Err(punct_error(ts, n.next, scope, "expected `:`"@))
            } else {
                match arg_type_parse(ts, n.next + 1, scope) {
                    Err(e) => Err(e),
                    Ok(t) => {
                        let param = (var_at(ts, pos)->0, t.value);
                        if t.next >= ts.len() {
                            Ok(Parsed { value: seq![param], next: t.next, refs: Seq::empty(), leftover: None })
                        } else if !puncts_match(ts, t.next, ","@) {
                            Err(punct_error(ts, t.next, scope, "expected `,`"@))
                        } else if t.next + 1 <= pos {
                            Err(stalled(scope))
                        } else {
                            match params_parse(ts, t.next + 1, scope) {
                                Err(e) => Err(e),
                                Ok(rest) => Ok(
                                    Parsed { value: seq![param] + rest.value, next: rest.next, refs: Seq::empty(), leftover: None },
                                ),
                            }
                        }
                    },
                }
            },
        }
    }
}

/// The type of a style parameter at `pos`.
fn arg_type_at(ts: &Vec<TokenTree>, pos: usize, scope_span: Span) -> (r: Result<(ArgType, usize), ParseError>)
    ensures
        match (r, arg_type_parse(ts@, pos as int, scope_span)) {
            (Ok((t, n)), Ok(p)) => t == p.value && n == p.next,
            (Err(e), Err(f)) => e.span == f.span && e.message@ == f.message,
            _ => false,
        },
{
    let ends = |k: usize| -> (b: bool)
        ensures
            b == type_ends_at(ts@, k as int),
        {
            !puncts_match_at(ts, k, "::") && !puncts_match_at(ts, k, "<") && !puncts_match_at(ts, k, "!")
                && !puncts_match_at(ts, k, "+") && paren_at(ts, k).is_none()
        };
    if puncts_match_at(ts, pos, "&") {
        assert(pos < ts.len());
        if plain_ident_is(ts, pos + 1, "str") {
            assert(pos + 1 < ts.len());
            if ends(pos + 2) {
                return Ok((ArgType::Str(position_span_at(ts, pos, scope_span)), pos + 2));
            }
        }
    }
    if plain_ident_is(ts, pos, "f32") {
        assert(pos < ts.len());
        if ends(pos + 1) {
            return Ok((ArgType::Num(position_span_at(ts, pos, scope_span)), pos + 1));
        }
    }
    Err(
        error_at_pos(
            ts,
            pos,
            scope_span,
            "invalid type, possible types: &str, f32",
            "unexpected end of input, invalid type, possible types: &str, f32",
        ),
    )
}

/// Whether the identifier (not a keyword) `name` stands at `pos`.
fn plain_ident_is(ts: &Vec<TokenTree>, pos: usize, name: &str) -> (r: bool)
    ensures
        r == plain_ident_at(ts@, pos as int, name@),
{
    if pos < ts.len() {
        match &ts[pos] {
            TokenTree::Ident(i) => !i.keyword && str_eq(i.name.as_str(), name),
            _ => false,
        }
    } else {
        false
    }
}

/// The parameters of a style definition from `pos`.
fn params_at(ts: &Vec<TokenTree>, pos: usize, scope_span: Span) -> (r: Result<(Vec<(VarName, ArgType)>, usize), ParseError>)
    ensures
        match (r, params_parse(ts@, pos as int, scope_span)) {
            (Ok((v, n)), Ok(p)) => v@ == param_entries(p.value) && n == p.next,
            (Err(e), Err(f)) => e.span == f.span && e.message@ == f.message,
            _ => false,
        },
    decreases ts@.len() - pos,
{
    if pos >= ts.len() {
        let v: Vec<(VarName, ArgType)> = Vec::new();
        assert(v@ =~= param_entries(Seq::empty()));
        return Ok((v, pos));
    }
    let i = match ident_token(ts, pos, scope_span) {
        Err(e) => {
            return Err(e);
        },
        Ok(i) => i,
    };
    let n = pos + 1;
    if !puncts_match_at(ts, n, ":") {
        return Err(ParseError::new(position_span_at(ts, n, scope_span), "expected `:`"));
    }
    assert(n < ts.len());
    let (t, tn) = match arg_type_at(ts, n + 1, scope_span) {
        Err(e) => {
            return Err(e);
        },
        Ok(x) => x,
    };
    let param = (VarName { span: i.span, ident: i.name.clone() }, t);
    if tn >= ts.len() {
        let v = vec![param];
        assert(v@ =~= param_entries(seq![(*i, t)]));
        return Ok((v, tn));
    }
    if !puncts_match_at(ts, tn, ",") {
        return Err(ParseError::new(position_span_at(ts, tn, scope_span), "expected `,`"));
    }
    match params_at(ts, tn + 1, scope_span) {
        Err(e) => Err(e),
        Ok((mut rest, rn)) => {
            let ghost rest0 = rest@;
            rest.insert(0, param);
            proof {
                let p = params_parse(ts@, tn + 1, scope_span)->Ok_0;
                assert(param_entries(seq![(*i, t)] + p.value) =~= seq![param] + param_entries(p.value));
            }
            assert(rest@ =~= param_entries(params_parse(ts@, pos as int, scope_span)->Ok_0.value));
            Ok((rest, rn))
        },
    }
}

/// The variable an identifier token names.
pub open spec fn var_name_of(i: Ident) -> VarName {
    VarName { span: i.span, ident: i.name }
}

/// The parameters as the variable names and types a style definition
/// keeps.
pub open spec fn param_entries(ps: Seq<(Ident, ArgType)>) -> Seq<(VarName, ArgType)> {
    ps.map_values(|p: (Ident, ArgType)| (var_name_of(p.0), p.1))
}

// ---------------------------------------------------------------------
// Key frames.

/// A key frame: its progress and its properties.
#[derive(Debug)]
pub struct KeyFrame<V> {
    pub progress: CssPercentage,
    pub props: Vec<Property<V>>,
}

/// The abstract value of a key frame.
pub struct KeyFrameView {
    pub progress: (Span, NumValueView),
    pub props: Seq<PropertyView>,
}

pub open spec fn key_frame_view(f: KeyFrame<CssTokenStream>) -> KeyFrameView {
    KeyFrameView {
        progress: (f.progress.span, num_value_view(f.progress.value)),
        props: f.props@.map_values(|p: Property<CssTokenStream>| property_view(p)),
    }
}

pub open spec fn key_frames_view(s: Seq<KeyFrame<CssTokenStream>>) -> Seq<KeyFrameView> {
    s.map_values(|f: KeyFrame<CssTokenStream>| key_frame_view(f))
}

/// The properties from `pos` to the end; the first that fails is the error.
pub open spec fn props_parse(
    ts: Seq<TokenTree>,
    pos: int,
    scope: Span,
    vars: Seq<(VarName, ScopeVarValue)>,
) -> Result<Parsed<Seq<PropertyView>>, Failed>
    decreases ts.len() - pos,
{
    if pos < 0 || pos >= ts.len() {
        Ok(Parsed { value: Seq::empty(), next: pos, refs: Seq::empty(), leftover: None })
    } else {
        let a = property_attempt(ts, pos, scope, vars);
        match a.result {
            Err(e) => Err(Failed { span: e.0, message: e.1, refs: a.refs }),
            Ok(p) => if a.next <= pos {
                Err(stalled(scope))
            } else {
                match props_parse(ts, a.next, scope, vars) {
                    Err(e) => Err(Failed { refs: a.refs + e.refs, ..e }),
                    Ok(rest) => Ok(
                        Parsed {
                            value: seq![p] + rest.value,
                            next: rest.next,
                            refs: a.refs + rest.refs,
                            leftover: first_leftover(a.leftover, rest.leftover),
                        },
                    ),
                }
            },
        }
    }
}

/// The progress a token gives a key frame: `from` is 0, `to` is 100, or a
/// percentage.
pub open spec fn progress_of(t: TokenView) -> Option<(Span, NumValueView)> {
    match t {
        TokenView::Ident(sp, name) => if name == "from"@ {
            Some((sp, NumValueView::Static(NumView::I32(0))))
        } else if name == "to"@ {
            Some((sp, NumValueView::Static(NumView::I32(100))))
        } else {
            None
        },
        TokenView::Percentage(sp, v) => Some((sp, v)),
        _ => None,
    }
}

/// The key frames from `pos` to the end: a progress, then properties in
/// braces.
pub open spec fn frames_parse(
    ts: Seq<TokenTree>,
    pos: int,
    scope: Span,
    vars: Seq<(VarName, ScopeVarValue)>,
) -> Result<Parsed<Seq<KeyFrameView>>, Failed>
    decreases ts.len() - pos,
{
    if pos < 0 || pos >= ts.len() {
        Ok(Parsed { value: Seq::empty(), next: pos, refs: Seq::empty(), leftover: None })
    } else {
        match token_parse(ts, pos, scope, vars) {
            Err(e) => Err(e),
            Ok(t) => match progress_of(t.value) {
                None => Err(Failed { refs: t.refs, ..fail(view_span(t.value), "invalid keyframe progress token"@) }),
                Some(progress) => match brace_group_at(ts, t.next) {
                    None => Err(Failed { refs: t.refs, ..brace_error(ts, t.next, scope) }),
                    Some(g) => match props_parse(g.stream@, 0, g.span_close, vars) {
                        Err(e) => Err(Failed { refs: t.refs + e.refs, ..e }),
                        Ok(ps) => {
                            let frame = KeyFrameView { progress, props: ps.value };
                            if t.next + 1 <= pos {
                                Err(stalled(scope))
                            } else {
                                match frames_parse(ts, t.next + 1, scope, vars) {
                                    Err(e) => Err(Failed { refs: t.refs + ps.refs + e.refs, ..e }),
                                    Ok(rest) => Ok(
                                        Parsed {
                                            value: seq![frame] + rest.value,
                                            next: rest.next,
                                            refs: t.refs + ps.refs + rest.refs,
                                            leftover: first_leftover(
                                                t.leftover,
                                                first_leftover(ps.leftover, rest.leftover),
                                            ),
                                        },
                                    ),
                                }
                            }
                        },
                    },
                },
            },
        }
    }
}

/// The properties from `pos` to the end.
fn props_at(ts: &Vec<TokenTree>, pos: usize, scope_span: Span, scope: &mut ScopeVars) -> (r: Result<
    (Vec<Property<CssTokenStream>>, usize, Option<(Span, Delimiter)>),
    ParseError,
>)
    ensures
        final(scope).vars == old(scope).vars,
        final(scope).cur_mod == old(scope).cur_mod,
        outcome(
            r,
            props_parse(ts@, pos as int, scope_span, old(scope).vars@),
            |v: Vec<Property<CssTokenStream>>| v@.map_values(|p: Property<CssTokenStream>| property_view(p)),
            old(scope).var_refs@,
            final(scope).var_refs@,
        ),
    decreases ts@.len() - pos,
{
    let ghost vars = scope.vars@;
    let ghost refs0 = scope.var_refs@;
    if pos >= ts.len() {
        let v: Vec<Property<CssTokenStream>> = Vec::new();
        assert(v@.map_values(|p: Property<CssTokenStream>| property_view(p)) =~= Seq::<PropertyView>::empty());
        assert(refs_view(scope.var_refs@) =~= refs_view(scope.var_refs@) + Seq::<(Span, Seq<char>)>::empty());
        return Ok((v, pos, None));
    }
    proof {
        lemma_property_attempt_advances(ts@, pos as int, scope_span, vars);
    }
    let ghost a = property_attempt(ts@, pos as int, scope_span, vars);
    let (p, next, lo) = property_at(ts, pos, scope_span, scope);
    match p {
        Err(e) => Err(e),
        Ok(p) => match props_at(ts, next, scope_span, scope) {
            Err(e) => {
                assert(refs_view(scope.var_refs@) =~= refs_view(refs0) + (a.refs
                    + props_parse(ts@, next as int, scope_span, vars)->Err_0.refs));
                Err(e)
            },
            Ok((mut rest, n, lo2)) => {
                let ghost rest0 = rest@;
                rest.insert(0, p);
                proof {
                    assert(rest@.map_values(|p: Property<CssTokenStream>| property_view(p)) =~= seq![property_view(p)]
                        + rest0.map_values(|p: Property<CssTokenStream>| property_view(p)));
                    assert(refs_view(scope.var_refs@) =~= refs_view(refs0) + (a.refs
                        + props_parse(ts@, next as int, scope_span, vars)->Ok_0.refs));
                }
                let l = if lo.is_some() { lo } else { lo2 };
                Ok((rest, n, l))
            },
        },
    }
}

/// A key frame written with `from` starts the animation (progress 0) and
/// one written with `to` ends it (progress 100), at the word's span; any
/// other word is no key frame progress, and a percentage is its own.
pub proof fn lemma_from_to_progress(sp: Span, name: Seq<char>)
    ensures
        name == "from"@ ==> progress_of(TokenView::Ident(sp, name)) == Some(
            (sp, NumValueView::Static(NumView::I32(0))),
        ),
        name == "to"@ ==> progress_of(TokenView::Ident(sp, name)) == Some(
            (sp, NumValueView::Static(NumView::I32(100))),
        ),
        name != "from"@ && name != "to"@ ==> progress_of(TokenView::Ident(sp, name)) is None,
        forall|v: NumValueView| #[trigger] progress_of(TokenView::Percentage(sp, v)) == Some((sp, v)),
{
    reveal_strlit("from");
    reveal_strlit("to");
    assert("to"@ != "from"@) by {
        assert("to"@.len() != "from"@.len());
    }
}

/// In the key frames of a style sheet, a frame that begins with `from` has
/// progress 0 and one that begins with `to` has progress 100: where the
/// frames read from `pos` on begin with the word `name`, the first frame's
/// progress is 0 for `from` and 100 for `to`.
pub proof fn lemma_first_frame_progress(
    ts: Seq<TokenTree>,
    pos: int,
    scope: Span,
    vars: Seq<(VarName, ScopeVarValue)>,
    sp: Span,
    name: Seq<char>,
)
    requires
        0 <= pos < ts.len(),
        token_parse(ts, pos, scope, vars) matches Ok(t) && t.value == TokenView::Ident(sp, name),
        frames_parse(ts, pos, scope, vars) is Ok,
    ensures
        frames_parse(ts, pos, scope, vars)->Ok_0.value.len() > 0,
        name == "from"@ ==> frames_parse(ts, pos, scope, vars)->Ok_0.value[0].progress == (
            sp,
            NumValueView::Static(NumView::I32(0)),
        ),
        name == "to"@ ==> frames_parse(ts, pos, scope, vars)->Ok_0.value[0].progress == (
            sp,
            NumValueView::Static(NumView::I32(100)),
        ),
{
    reveal_strlit("from");
    reveal_strlit("to");
    assert("to"@ != "from"@) by {
        assert("to"@.len() != "from"@.len());
    }
}

/// The progress a token gives a key frame.
fn progress_of_token(t: CssToken) -> (r: Result<CssPercentage, CssToken>)
    ensures
        match r {
            Ok(p) => progress_of(token_view(t)) == Some((p.span, num_value_view(p.value))),
            Err(u) => progress_of(token_view(t)) is None && u == t,
        },
{
    match t {
        CssToken::Ident(x) => if str_eq(x.formal_name.as_str(), "from") {
            Ok(CssPercentage::new_int(x.span, 0))
        } else if str_eq(x.formal_name.as_str(), "to") {
            Ok(CssPercentage::new_int(x.span, 100))
        } else {
            Err(CssToken::Ident(x))
        },
        CssToken::Percentage(x) => Ok(x),
        other => Err(other),
    }
}

/// The key frames from `pos` to the end.
fn frames_at(ts: &Vec<TokenTree>, pos: usize, scope_span: Span, scope: &mut ScopeVars) -> (r: Result<
    (Vec<KeyFrame<CssTokenStream>>, usize, Option<(Span, Delimiter)>),
    ParseError,
>)
    ensures
        final(scope).vars == old(scope).vars,
        final(scope).cur_mod == old(scope).cur_mod,
        outcome(
            r,
            frames_parse(ts@, pos as int, scope_span, old(scope).vars@),
            |v: Vec<KeyFrame<CssTokenStream>>| key_frames_view(v@),
            old(scope).var_refs@,
            final(scope).var_refs@,
        ),
    decreases ts@.len() - pos,
{
    let ghost vars = scope.vars@;
    let ghost refs0 = scope.var_refs@;
    if pos >= ts.len() {
        let v: Vec<KeyFrame<CssTokenStream>> = Vec::new();
        assert(key_frames_view(v@) =~= Seq::<KeyFrameView>::empty());
        assert(refs_view(scope.var_refs@) =~= refs_view(scope.var_refs@) + Seq::<(Span, Seq<char>)>::empty());
        return Ok((v, pos, None));
    }
    match parse_token_at(ts, pos, scope_span, scope) {
        Err(e) => Err(e),
        Ok((t, tn, tlo)) => {
            proof {
                lemma_token_parse_advances(ts@, pos as int, scope_span, vars);
                lemma_view_span(t);
            }
            let ghost tp = token_parse(ts@, pos as int, scope_span, vars)->Ok_0;
            let span = t.span();
            let progress = match progress_of_token(t) {
                Err(_) => {
                    return Err(ParseError::new(span, "invalid keyframe progress token"));
                },
                Ok(p) => p,
            };
            let g = match brace_at(ts, tn) {
                None => {
                    return Err(brace_error_at(ts, tn, scope_span));
                },
                Some(g) => g,
            };
            let ghost refs1 = scope.var_refs@;
            match props_at(&g.stream, 0, g.span_close, scope) {
                Err(e) => {
                    assert(refs_view(scope.var_refs@) =~= refs_view(refs0) + (tp.refs
                        + props_parse(g.stream@, 0, g.span_close, vars)->Err_0.refs));
                    Err(e)
                },
                Ok((props, _, plo)) => {
                    let ghost pp = props_parse(g.stream@, 0, g.span_close, vars)->Ok_0;
                    let frame = KeyFrame { progress, props };
                    match frames_at(ts, tn + 1, scope_span, scope) {
                        Err(e) => {
                            assert(refs_view(scope.var_refs@) =~= refs_view(refs0) + (tp.refs + pp.refs
                                + frames_parse(ts@, tn + 1, scope_span, vars)->Err_0.refs));
                            Err(e)
                        },
                        Ok((mut rest, n, lo2)) => {
                            let ghost rest0 = rest@;
                            rest.insert(0, frame);
                            proof {
                                assert(key_frames_view(rest@) =~= seq![key_frame_view(frame)] + key_frames_view(rest0));
                                assert(refs_view(scope.var_refs@) =~= refs_view(refs0) + (tp.refs + pp.refs
                                    + frames_parse(ts@, tn + 1, scope_span, vars)->Ok_0.refs));
                            }
                            let l = if tlo.is_some() {
                                tlo
                            } else if plo.is_some() {
                                plo
                            } else {
                                lo2
                            };
                            Ok((rest, n, l))
                        },
                    }
                },
            }
        },
    }
}

/// The identifier token at `pos`, or the error that there is none.
fn ident_token(ts: &Vec<TokenTree>, pos: usize, scope_span: Span) -> (r: Result<&Ident, ParseError>)
    ensures
        match (r, ident_parse(ts@, pos as int, scope_span)) {
            (Ok(i), Ok(p)) => var_at(ts@, pos as int) == Some(*i) && p.value == (i.span, i.name@) && p.next == pos + 1,
            (Err(e), Err(f)) => e.span == f.span && e.message@ == f.message,
            _ => false,
        },
{
    if pos >= ts.len() {
        return Err(ParseError::new(scope_span, "unexpected end of input, expected identifier"));
    }
    match &ts[pos] {
        TokenTree::Ident(i) => if i.keyword {
            let mut m = to_owned_string("expected identifier, found keyword `");
            m.append(i.name.as_str());
            m.append("`");
            Err(ParseError { span: i.span, message: m })
        } else {
            Ok(i)
        },
        t => Err(ParseError::new(span_of_error(t), "expected identifier")),
    }
}

/// The span an error at a token reports.
fn span_of_error(t: &TokenTree) -> (r: Span)
    ensures
        r == token_error_span(*t),
{
    match t {
        TokenTree::Group(g) => g.span_open,
        TokenTree::Ident(i) => i.span,
        TokenTree::Punct(p) => p.span,
        TokenTree::Literal(l) => l.span,
    }
}

// ---------------------------------------------------------------------
// Items.

/// The module path an item is visible from: with no module being read,
/// none; without `pub`, none; `pub` is the crate root; a restricted
/// visibility is its path.
pub open spec fn item_vis(cur_mod: Option<ModPath>, v: Option<VisView>) -> Option<Seq<Seq<char>>> {
    match (cur_mod, v) {
        (Some(_), Some(VisView::Public(_))) => Some(Seq::empty()),
        (Some(_), Some(VisView::Restricted(_, segs))) => Some(segs),
        _ => None,
    }
}

pub open spec fn mod_path_view(m: ModPath) -> Seq<Seq<char>> {
    m.segs@.map_values(|s: String| s@)
}

/// The abstract value of an item of a style sheet.
pub enum SheetItemView {
    ConstValue(Option<Seq<Seq<char>>>, Ident, TokenView),
    KeyFrames(Option<Seq<Seq<char>>>, Ident, Seq<KeyFrameView>),
    Style {
        vis: Option<Seq<Seq<char>>>,
        extern_vis: Option<VisView>,
        error_css_output: Option<Span>,
        name: Ident,
        params: Seq<(Ident, ArgType)>,
        content: Seq<ItemView>,
    },
    Class {
        vis: Option<Seq<Seq<char>>>,
        extern_vis: Option<VisView>,
        error_css_output: Option<Span>,
        css_name: Option<Seq<char>>,
        name: Ident,
        content: RuleContentView,
    },
}

/// The attributes of a style definition: only `#[error_css_output]`, whose
/// path span is kept (the last one's).
pub open spec fn style_attrs(attrs: Seq<AttrView>) -> Result<Option<Span>, Failed>
    decreases attrs.len(),
{
    if attrs.len() == 0 {
        Ok(None)
    } else {
        let a = attrs[0];
        if attr_is(a, "error_css_output"@) {
            if a.args < a.group.stream@.len() {
                Err(fail(tree_span(a.group.stream@[a.args]), "unknown attribute arguments"@))
            } else {
                match style_attrs(attrs.drop_first()) {
                    Err(e) => Err(e),
                    Ok(later) => Ok(if later is Some { later } else { Some(a.path_span) }),
                }
            }
        } else {
            Err(fail(a.pound, "unknown attribute"@))
        }
    }
}

/// The string of a `#[css_name("...")]` attribute; `call_site` is where an
/// empty argument list is reported.
pub open spec fn css_name_parse(a: AttrView, call_site: Span) -> Result<Seq<char>, Failed> {
    let c = a.group.stream@;
    let k = a.args;
    if k >= c.len() {
        Err(fail(call_site, "unexpected end of input, expected parentheses"@))
    } else {
        match c[k] {
            TokenTree::Group(g) => if g.delimiter == Delimiter::Parenthesis {
                let inner = g.stream@;
                if inner.len() == 0 {
                    Err(fail(g.span_close, "unexpected end of input, expected string literal"@))
                } else {
                    match inner[0] {
                        TokenTree::Literal(LiteralToken { span: _, lit: Literal::Str(v) }) => if inner.len() > 1 {
                            Err(fail(tree_span(inner[1]), "unexpected token, expected `)`"@))
                        } else if k + 1 < c.len() {
                            Err(fail(tree_span(c[k + 1]), "unexpected token"@))
                        } else {
                            Ok(v@)
                        },
                        _ => Err(fail(token_error_span(inner[0]), "expected string literal"@)),
                    }
                }
            } else {
                Err(fail(token_error_span(c[k]), "expected parentheses"@))
            },
            _ => Err(fail(token_error_span(c[k]), "expected parentheses"@)),
        }
    }
}

/// The attributes of a class: `#[error_css_output]` and
/// `#[css_name("...")]` (the last of each kind counts).
pub open spec fn class_attrs(attrs: Seq<AttrView>, call_site: Span) -> Result<(Option<Span>, Option<Seq<char>>), Failed>
    decreases attrs.len(),
{
    if attrs.len() == 0 {
        Ok((None, None))
    } else {
        let a = attrs[0];
        let here = if attr_is(a, "error_css_output"@) {
            if a.args < a.group.stream@.len() {
                Err(fail(tree_span(a.group.stream@[a.args]), "unknown attribute arguments"@))
            } else {
                Ok((Some(a.path_span), None))
            }
        } else if attr_is(a, "css_name"@) {
            match css_name_parse(a, call_site) {
                Err(e) => Err(e),
                Ok(n) => Ok((None, Some(n))),
            }
        } else {
            Err(fail(a.pound, "unknown attribute"@))
        };
        match here {
            Err(e) => Err(e),
            Ok(h) => match class_attrs(attrs.drop_first(), call_site) {
                Err(e) => Err(e),
                Ok(later) => Ok(
                    (
                        if later.0 is Some { later.0 } else { h.0 },
                        if later.1 is Some { later.1 } else { h.1 },
                    ),
                ),
            },
        }
    }
}

/// The identifier at `pos`, keywords included.
pub open spec fn any_ident_at(ts: Seq<TokenTree>, pos: int) -> Option<Ident> {
    if 0 <= pos < ts.len() {
        match ts[pos] {
            TokenTree::Ident(i) => Some(i),
            _ => None,
        }
    } else {
        None
    }
}

/// The body of a `const` item from `b` (after its `=`): the item, or the
/// error with the position the parse stopped at. `kf` is what the style
/// sheet's constructor gives for key frames (only whether it fails
/// matters here).
pub open spec fn const_body(
    ts: Seq<TokenTree>,
    b: int,
    scope: Span,
    cur_mod: Option<ModPath>,
    vars: Seq<(VarName, ScopeVarValue)>,
    attrs: Seq<AttrView>,
    vis: Option<VisView>,
    name: Ident,
    ty: Ident,
    kf: Result<(), (Span, Seq<char>)>,
) -> Result<Parsed<SheetItemView>, (Failed, int)> {
    if attrs.len() > 0 {
        Err((fail(attrs[0].pound, "unknown attribute"@), b))
    } else if cur_mod is None && vis is Some {
        Err((fail(vis_span(vis->0), "constants are always private in inline stylesheets"@), b))
    } else if ty.name@ == "value"@ {
        match token_parse(ts, b, scope, vars) {
            Err(f) => Err((f, b)),
            Ok(t) => if lookup_var(vars, name.name@) is Some {
                Err((Failed { refs: t.refs, ..fail(name.span, "duplicated identifier"@) }, t.next))
            } else {
                Ok(
                    Parsed {
                        value: SheetItemView::ConstValue(item_vis(cur_mod, vis), name, t.value),
                        next: t.next,
                        refs: t.refs,
                        leftover: t.leftover,
                    },
                )
            },
        }
    } else if ty.name@ == "keyframes"@ {
        match brace_group_at(ts, b) {
            None => Err((brace_error(ts, b, scope), b)),
            Some(g) => match frames_parse(g.stream@, 0, g.span_close, vars) {
                Err(f) => Err((f, b + 1)),
                Ok(fr) => match kf {
                    Err(e) => Err((Failed { span: e.0, message: e.1, refs: fr.refs }, b + 1)),
                    Ok(()) => if lookup_var(vars, name.name@) is Some {
                        Err((Failed { refs: fr.refs, ..fail(name.span, "duplicated identifier"@) }, b + 1))
                    } else {
                        Ok(
                            Parsed {
                                value: SheetItemView::KeyFrames(item_vis(cur_mod, vis), name, fr.value),
                                next: b + 1,
                                refs: fr.refs,
                                leftover: fr.leftover,
                            },
                        )
                    },
                },
            },
        }
    } else {
        Err((fail(ty.span, "invalid type"@), b))
    }
}

/// A `const` item whose keyword is at `k`: `const name: type = body;`.
/// Where the body fails, the tokens up to the next `;` are skipped and the
/// `;` read; with no `;` left the error is that it is missing.
pub open spec fn const_item(
    ts: Seq<TokenTree>,
    k: int,
    scope: Span,
    cur_mod: Option<ModPath>,
    vars: Seq<(VarName, ScopeVarValue)>,
    attrs: Seq<AttrView>,
    vis: Option<VisView>,
    kf: Result<(), (Span, Seq<char>)>,
) -> Result<Parsed<SheetItemView>, Failed> {
    match ident_parse(ts, k + 1, scope) {
        Err(e) => Err(e),
        Ok(n) => if !puncts_match(ts, k + 2, ":"@) {
            Err(punct_error(ts, k + 2, scope, "expected `:`"@))
        } else {
            match any_ident_at(ts, k + 3) {
                None => Err(error_at(ts, k + 3, scope, "expected ident"@, "unexpected end of input, expected ident"@)),
                Some(ty) => if !puncts_match(ts, k + 4, "="@) {
                    Err(punct_error(ts, k + 4, scope, "expected `=`"@))
                } else {
                    match const_body(ts, k + 5, scope, cur_mod, vars, attrs, vis, var_at(ts, k + 1)->0, ty, kf) {
                        Ok(p) => if puncts_match(ts, p.next, ";"@) {
                            Ok(Parsed { next: p.next + 1, ..p })
                        } else {
                            let e = recovered_error(ts, p.next, scope, semi_check_error(ts, p.next, scope));
                            Err(Failed { span: e.0, message: e.1, refs: p.refs })
                        },
                        Err((f, c)) => {
                            let e = recovered_error(ts, c, scope, f);
                            Err(Failed { span: e.0, message: e.1, refs: f.refs })
                        },
                    }
                },
            }
        },
    }
}

/// The variables a style definition adds for its parameters while its
/// body is read.
pub open spec fn param_vars(ps: Seq<(Ident, ArgType)>) -> Seq<(VarName, ScopeVarValue)> {
    Seq::new(
        ps.len(),
        |j: int|
            (
                var_name_of(ps[j].0),
                match ps[j].1 {
                    ArgType::Str(_) => ScopeVarValue::DynStr(VarDynRef { span: ps[j].0.span, index: j as usize }),
                    ArgType::Num(_) => ScopeVarValue::DynNum(VarDynRef { span: ps[j].0.span, index: j as usize }),
                },
            ),
    )
}

/// The first parameter from index `j` whose name is a variable already
/// (with the parameters before it added), if any.
pub open spec fn dup_param(vars: Seq<(VarName, ScopeVarValue)>, ps: Seq<(Ident, ArgType)>, j: int) -> Option<Span>
    decreases ps.len() - j,
{
    if j < 0 || j >= ps.len() {
        None
    } else if lookup_var(vars + param_vars(ps).take(j), ps[j].0.name@) is Some {
        Some(ps[j].0.span)
    } else {
        dup_param(vars, ps, j + 1)
    }
}

/// A `style` item whose keyword is at `k`: `style name(params) { items }`.
pub open spec fn style_item(
    ts: Seq<TokenTree>,
    k: int,
    scope: Span,
    cur_mod: Option<ModPath>,
    vars: Seq<(VarName, ScopeVarValue)>,
    attrs: Seq<AttrView>,
    vis: Option<VisView>,
) -> Result<Parsed<SheetItemView>, Failed> {
    match ident_parse(ts, k + 1, scope) {
        Err(e) => Err(e),
        Ok(n) => match paren_group_at(ts, k + 2) {
            None => Err(paren_error(ts, k + 2, scope)),
            Some(pg) => match style_attrs(attrs) {
                Err(e) => Err(e),
                Ok(eco) => match params_parse(pg.stream@, 0, pg.span_close) {
                    Err(e) => Err(e),
                    Ok(ps) => if ps.next < pg.stream@.len() {
                        Err(fail(token_error_span(pg.stream@[ps.next]), "unexpected token"@))
                    } else {
                        match brace_group_at(ts, k + 3) {
                            None => Err(brace_error(ts, k + 3, scope)),
                            Some(bg) => match dup_param(vars, ps.value, 0) {
                                Some(sp) => Err(fail(sp, "duplicated identifier"@)),
                                None => match content_items(bg.stream@, 0, bg.span_close, vars + param_vars(ps.value)) {
                                    Err(e) => Err(e),
                                    Ok(c) => if lookup_var(vars, n.value.1) is Some {
                                        Err(Failed { refs: c.refs, ..fail(n.value.0, "duplicated identifier"@) })
                                    } else if c.next < bg.stream@.len() {
                                        Err(Failed { refs: c.refs, ..fail(token_error_span(bg.stream@[c.next]), "unexpected token"@) })
                                    } else {
                                        Ok(
                                            Parsed {
                                                value: SheetItemView::Style {
                                                    vis: item_vis(cur_mod, vis),
                                                    extern_vis: vis,
                                                    error_css_output: eco,
                                                    name: var_at(ts, k + 1)->0,
                                                    params: ps.value,
                                                    content: c.value,
                                                },
                                                next: k + 4,
                                                refs: c.refs,
                                                leftover: c.leftover,
                                            },
                                        )
                                    },
                                },
                            },
                        }
                    },
                },
            },
        },
    }
}

/// A `class` item whose keyword is at `k`: `class name { body }`.
pub open spec fn class_item(
    ts: Seq<TokenTree>,
    k: int,
    scope: Span,
    cur_mod: Option<ModPath>,
    vars: Seq<(VarName, ScopeVarValue)>,
    attrs: Seq<AttrView>,
    vis: Option<VisView>,
) -> Result<Parsed<SheetItemView>, Failed> {
    match ident_parse(ts, k + 1, scope) {
        Err(e) => Err(e),
        Ok(n) => match class_attrs(attrs, scope) {
            Err(e) => Err(e),
            Ok(ca) => match brace_group_at(ts, k + 2) {
                None => Err(brace_error(ts, k + 2, scope)),
                Some(bg) => match rule_content(bg.stream@, 0, bg.span_close, vars, false) {
                    Err(e) => Err(e),
                    Ok(c) => if c.next < bg.stream@.len() {
                        Err(Failed { refs: c.refs, ..fail(token_error_span(bg.stream@[c.next]), "unexpected token"@) })
                    } else {
                        Ok(
                            Parsed {
                                value: SheetItemView::Class {
                                    vis: item_vis(cur_mod, vis),
                                    extern_vis: vis,
                                    error_css_output: ca.0,
                                    css_name: ca.1,
                                    name: var_at(ts, k + 1)->0,
                                    content: c.value,
                                },
                                next: k + 3,
                                refs: c.refs,
                                leftover: c.leftover,
                            },
                        )
                    },
                },
            },
        },
    }
}

/// An item at `pos`: attributes, a visibility, then `const`, `style` or
/// `class` (`mod` and `use` items are not supported).
#[verifier::opaque]
pub open spec fn sheet_item_parse(
    ts: Seq<TokenTree>,
    pos: int,
    scope: Span,
    cur_mod: Option<ModPath>,
    vars: Seq<(VarName, ScopeVarValue)>,
    kf: Result<(), (Span, Seq<char>)>,
) -> Result<Parsed<SheetItemView>, Failed> {
    match attrs_parse(ts, pos, scope) {
        Err(e) => Err(e),
        Ok(a) => match vis_parse(ts, a.next) {
            Err(e) => Err(e),
            Ok(v) => {
                let k = v.next;
                if keyword_at(ts, k, "mod"@) {
                    Err(fail(token_error_span(ts[k]), "`mod` items are not supported"@))
                } else if keyword_at(ts, k, "use"@) {
                    Err(fail(token_error_span(ts[k]), "`use` items are not supported"@))
                } else if keyword_at(ts, k, "const"@) {
                    const_item(ts, k, scope, cur_mod, vars, a.value, v.value, kf)
                } else if keyword_at(ts, k, "style"@) {
                    style_item(ts, k, scope, cur_mod, vars, a.value, v.value)
                } else if keyword_at(ts, k, "class"@) {
                    class_item(ts, k, scope, cur_mod, vars, a.value, v.value)
                } else {
                    Err(expected_error(ts, k, scope, seq!["`mod`"@, "`use`"@, "`const`"@, "`style`"@, "`class`"@]))
                }
            },
        },
    }
}

/// An item of a style sheet.
#[derive(Debug)]
pub enum StyleSheetItem {
    CompilationError { err: ParseError },
    ConstValue { vis: Option<ModPath>, name: VarName },
    KeyFrames { vis: Option<ModPath>, name: VarName },
    Style {
        vis: Option<ModPath>,
        extern_vis: Option<Visibility>,
        error_css_output: Option<Span>,
        name: VarName,
        args: Vec<(VarName, ArgType)>,
        content: Vec<StyleContentItem<CssTokenStream>>,
    },
    Class {
        vis: Option<ModPath>,
        extern_vis: Option<Visibility>,
        error_css_output: Option<Span>,
        css_name: Option<String>,
        name: VarName,
        content: RuleContent,
    },
}

pub open spec fn opt_mod_view(m: Option<ModPath>) -> Option<Seq<Seq<char>>> {
    match m {
        Some(p) => Some(mod_path_view(p)),
        None => None,
    }
}

pub open spec fn opt_vis_view(v: Option<Visibility>) -> Option<VisView> {
    match v {
        Some(x) => Some(vis_view(x)),
        None => None,
    }
}

/// Whether an item is the one an abstract item describes.
pub open spec fn item_matches(item: StyleSheetItem, v: SheetItemView) -> bool {
    match (item, v) {
        (StyleSheetItem::ConstValue { vis, name }, SheetItemView::ConstValue(vv, n, _)) => opt_mod_view(vis) == vv
            && name == var_name_of(n),
        (StyleSheetItem::KeyFrames { vis, name }, SheetItemView::KeyFrames(vv, n, _)) => opt_mod_view(vis) == vv
            && name == var_name_of(n),
        (
            StyleSheetItem::Style { vis, extern_vis, error_css_output, name, args, content },
            SheetItemView::Style {
                vis: vv,
                extern_vis: ev,
                error_css_output: eco,
                name: n,
                params,
                content: c,
            },
        ) => opt_mod_view(vis) == vv && opt_vis_view(extern_vis) == ev && error_css_output == eco && name
            == var_name_of(n) && args@ == param_entries(params) && items_view(content@) == c,
        (
            StyleSheetItem::Class { vis, extern_vis, error_css_output, css_name, name, content },
            SheetItemView::Class { vis: vv, extern_vis: ev, error_css_output: eco, css_name: cn, name: n, content: c },
        ) => opt_mod_view(vis) == vv && opt_vis_view(extern_vis) == ev && error_css_output == eco && match css_name {
            Some(x) => cn == Some(x@),
            None => cn is None,
        } && name == var_name_of(n) && rule_content_view(content) == c,
        _ => false,
    }
}

/// How an item changes the variables in scope: a `const` or a `style`
/// adds itself, a `class` adds nothing.
pub open spec fn vars_after(v0: Seq<(VarName, ScopeVarValue)>, v1: Seq<(VarName, ScopeVarValue)>, item: SheetItemView) -> bool {
    match item {
        SheetItemView::Class { .. } => v1 == v0,
        SheetItemView::ConstValue(_, n, tv) => v1.len() == v0.len() + 1 && v1.take(v0.len() as int) == v0 && v1.last().0
            == var_name_of(n) && (v1.last().1 matches ScopeVarValue::Token(t) && token_view(t) == tv),
        SheetItemView::KeyFrames(_, n, _) => v1.len() == v0.len() + 1 && v1.take(v0.len() as int) == v0 && v1.last().0
            == var_name_of(n) && v1.last().1 is Token,
        SheetItemView::Style { name, params, .. } => v1.len() == v0.len() + 1 && v1.take(v0.len() as int) == v0
            && v1.last().0 == var_name_of(name) && (v1.last().1 matches ScopeVarValue::StyleDefinition(a) && a@
            == param_entries(params)),
    }
}

/// The result of an item parse against its abstract outcome.
pub open spec fn item_outcome(
    r: Result<(StyleSheetItem, usize, Option<(Span, Delimiter)>), ParseError>,
    spec_r: Result<Parsed<SheetItemView>, Failed>,
    s0: ScopeVars,
    s1: ScopeVars,
) -> bool {
    &&& s1.cur_mod == s0.cur_mod
    &&& match (r, spec_r) {
        (Ok((item, n, lo)), Ok(p)) => item_matches(item, p.value) && n == p.next && lo == p.leftover && refs_view(
            s1.var_refs@,
        ) == refs_view(s0.var_refs@) + p.refs && vars_after(s0.vars@, s1.vars@, p.value),
        (Err(e), Err(f)) => e.span == f.span && e.message@ == f.message,
        _ => false,
    }
}

/// A copy of a variable name.
fn dup_var_name(v: &VarName) -> (r: VarName)
    ensures
        r == *v,
{
    VarName { span: v.span, ident: v.ident.clone() }
}

/// The variable an identifier token names.
fn var_name_from(i: &Ident) -> (r: VarName)
    ensures
        r == var_name_of(*i),
{
    VarName { span: i.span, ident: i.name.clone() }
}

/// The attributes of a style definition, from index `j`.
fn style_attrs_from(attrs: &Vec<AttrItem>, j: usize) -> (r: Result<Option<Span>, ParseError>)
    requires
        j <= attrs@.len(),
    ensures
        match (r, style_attrs(attr_items_view(attrs@).skip(j as int))) {
            (Ok(x), Ok(y)) => x == y,
            (Err(e), Err(f)) => e.span == f.span && e.message@ == f.message,
            _ => false,
        },
    decreases attrs@.len() - j,
{
    let ghost v = attr_items_view(attrs@).skip(j as int);
    if j >= attrs.len() {
        assert(v.len() == 0);
        return Ok(None);
    }
    assert(v.drop_first() =~= attr_items_view(attrs@).skip(j + 1));
    assert(v[0] == attr_item_view(attrs@[j as int]));
    let a = &attrs[j];
    if !a.path.0 && a.path.1.len() == 1 && str_eq(a.path.1[0].as_str(), "error_css_output") {
        proof {
            assert(a.path.1@.map_values(|s: String| s@) =~= seq!["error_css_output"@]);
        }
        if a.args < a.group.stream.len() {
            return Err(ParseError::new(span_of(&a.group.stream[a.args]), "unknown attribute arguments"));
        }
        match style_attrs_from(attrs, j + 1) {
            Err(e) => Err(e),
            Ok(later) => Ok(if later.is_some() { later } else { Some(a.path_span) }),
        }
    } else {
        proof {
            if attr_is(v[0], "error_css_output"@) {
                assert(a.path.1@.map_values(|s: String| s@).len() == 1);
                assert(a.path.1@.map_values(|s: String| s@)[0] == a.path.1@[0]@);
            }
        }
        Err(ParseError::new(a.pound, "unknown attribute"))
    }
}

/// Whether the path of an attribute is the single identifier `name`.
fn attr_is_name(a: &AttrItem, name: &str) -> (r: bool)
    ensures
        r == attr_is(attr_item_view(*a), name@),
{
    let r = !a.path.0 && a.path.1.len() == 1 && str_eq(a.path.1[0].as_str(), name);
    proof {
        let segs = a.path.1@.map_values(|s: String| s@);
        if r {
            assert(segs =~= seq![name@]);
        }
        if segs == seq![name@] {
            assert(segs.len() == 1);
            assert(segs[0] == a.path.1@[0]@);
        }
    }
    r
}

/// The string of a `#[css_name("...")]` attribute.
fn css_name_at(a: &AttrItem, call_site: Span) -> (r: Result<String, ParseError>)
    ensures
        match (r, css_name_parse(attr_item_view(*a), call_site)) {
            (Ok(x), Ok(y)) => x@ == y,
            (Err(e), Err(f)) => e.span == f.span && e.message@ == f.message,
            _ => false,
        },
{
    let c = &a.group.stream;
    let k = a.args;
    if k >= c.len() {
        return Err(ParseError::new(call_site, "unexpected end of input, expected parentheses"));
    }
    match &c[k] {
        TokenTree::Group(g) => if g.delimiter == Delimiter::Parenthesis {
            let inner = &g.stream;
            if inner.len() == 0 {
                return Err(ParseError::new(g.span_close, "unexpected end of input, expected string literal"));
            }
            match &inner[0] {
                TokenTree::Literal(LiteralToken { span: _, lit: Literal::Str(v) }) => if inner.len() > 1 {
                    Err(ParseError::new(span_of(&inner[1]), "unexpected token, expected `)`"))
                } else if k + 1 < c.len() {
                    Err(ParseError::new(span_of(&c[k + 1]), "unexpected token"))
                } else {
                    Ok(v.clone())
                },
                t => Err(ParseError::new(span_of_error(t), "expected string literal")),
            }
        } else {
            Err(ParseError::new(g.span_open, "expected parentheses"))
        },
        t => Err(ParseError::new(span_of_error(t), "expected parentheses")),
    }
}

/// The attributes of a class, from index `j`.
fn class_attrs_from(attrs: &Vec<AttrItem>, j: usize, call_site: Span) -> (r: Result<(Option<Span>, Option<String>), ParseError>)
    requires
        j <= attrs@.len(),
    ensures
        match (r, class_attrs(attr_items_view(attrs@).skip(j as int), call_site)) {
            (Ok(x), Ok(y)) => x.0 == y.0 && match x.1 {
                Some(n) => y.1 == Some(n@),
                None => y.1 is None,
            },
            (Err(e), Err(f)) => e.span == f.span && e.message@ == f.message,
            _ => false,
        },
    decreases attrs@.len() - j,
{
    let ghost v = attr_items_view(attrs@).skip(j as int);
    if j >= attrs.len() {
        assert(v.len() == 0);
        return Ok((None, None));
    }
    assert(v.drop_first() =~= attr_items_view(attrs@).skip(j + 1));
    assert(v[0] == attr_item_view(attrs@[j as int]));
    let a = &attrs[j];
    let here: (Option<Span>, Option<String>) = if attr_is_name(a, "error_css_output") {
        if a.args < a.group.stream.len() {
            return Err(ParseError::new(span_of(&a.group.stream[a.args]), "unknown attribute arguments"));
        }
        (Some(a.path_span), None)
    } else if attr_is_name(a, "css_name") {
        match css_name_at(a, call_site) {
            Err(e) => {
                return Err(e);
            },
            Ok(n) => (None, Some(n)),
        }
    } else {
        return Err(ParseError::new(a.pound, "unknown attribute"));
    };
    match class_attrs_from(attrs, j + 1, call_site) {
        Err(e) => Err(e),
        Ok(later) => {
            let eco = if later.0.is_some() { later.0 } else { here.0 };
            let cn = if later.1.is_some() { later.1 } else { here.1 };
            Ok((eco, cn))
        },
    }
}

/// The module path an item is visible from.
fn item_vis_of(cur_mod: &Option<ModPath>, v: &Option<Visibility>) -> (r: Option<ModPath>)
    ensures
        opt_mod_view(r) == item_vis(*cur_mod, opt_vis_view(*v)),
{
    match (cur_mod, v) {
        (Some(_), Some(Visibility::Public(_))) => {
            let m = ModPath { segs: Vec::new() };
            assert(mod_path_view(m) =~= Seq::<Seq<char>>::empty());
            Some(m)
        },
        (Some(_), Some(Visibility::Restricted(_, segs))) => {
            let mut c: Vec<String> = Vec::new();
            let mut j: usize = 0;
            while j < segs.len()
                invariant
                    j <= segs@.len(),
                    c@ == segs@.take(j as int),
                decreases segs@.len() - j,
            {
                c.push(segs[j].clone());
                assert(c@ =~= segs@.take(j + 1));
                j = j + 1;
            }
            assert(segs@.take(j as int) =~= segs@);
            Some(ModPath { segs: c })
        },
        _ => None,
    }
}

/// A `class` item whose keyword is at `k`.
#[verifier::rlimit(60)]
fn class_item_at(
    ts: &Vec<TokenTree>,
    k: usize,
    scope_span: Span,
    scope: &mut ScopeVars,
    attrs: &Vec<AttrItem>,
    vis: Option<Visibility>,
) -> (r: Result<(StyleSheetItem, usize, Option<(Span, Delimiter)>), ParseError>)
    requires
        k < ts@.len(),
    ensures
        item_outcome(
            r,
            class_item(ts@, k as int, scope_span, old(scope).cur_mod, old(scope).vars@, attr_items_view(attrs@), opt_vis_view(vis)),
            *old(scope),
            *final(scope),
        ),
{
    proof {
        assert(refs_view(scope.var_refs@) =~= refs_view(scope.var_refs@) + Seq::<(Span, Seq<char>)>::empty());
        assert(attr_items_view(attrs@).skip(0) =~= attr_items_view(attrs@));
    }
    assert(k < ts.len());
    let i = match ident_token(ts, k + 1, scope_span) {
        Err(e) => {
            return Err(e);
        },
        Ok(i) => i,
    };
    let (eco, css_name) = match class_attrs_from(attrs, 0, scope_span) {
        Err(e) => {
            return Err(e);
        },
        Ok(x) => x,
    };
    let bg = match brace_at(ts, k + 2) {
        None => {
            return Err(brace_error_at(ts, k + 2, scope_span));
        },
        Some(g) => g,
    };
    match rule_content_at(&bg.stream, 0, bg.span_close, scope, false) {
        Err(e) => Err(e),
        Ok((content, n, lo)) => {
            if n < bg.stream.len() {
                return Err(ParseError::new(position_span_at(&bg.stream, n, bg.span_close), "unexpected token"));
            }
            let item = StyleSheetItem::Class {
                vis: item_vis_of(&scope.cur_mod, &vis),
                extern_vis: vis,
                error_css_output: eco,
                css_name,
                name: var_name_from(i),
                content,
            };
            Ok((item, k + 3, lo))
        },
    }
}

/// A copy of the parameters of a style definition.
fn dup_params(v: &Vec<(VarName, ArgType)>) -> (r: Vec<(VarName, ArgType)>)
    ensures
        r@ == v@,
{
    let mut r: Vec<(VarName, ArgType)> = Vec::new();
    let mut j: usize = 0;
    while j < v.len()
        invariant
            j <= v@.len(),
            r@ == v@.take(j as int),
        decreases v@.len() - j,
    {
        r.push((dup_var_name(&v[j].0), v[j].1));
        assert(r@ =~= v@.take(j + 1));
        j = j + 1;
    }
    assert(v@.take(j as int) =~= v@);
    r
}

proof fn lemma_dup_param_step(vars: Seq<(VarName, ScopeVarValue)>, ps: Seq<(Ident, ArgType)>, j: int)
    requires
        0 <= j < ps.len(),
        lookup_var(vars + param_vars(ps).take(j), ps[j].0.name@) is None,
    ensures
        dup_param(vars, ps, j) == dup_param(vars, ps, j + 1),
{
}

/// A `style` item whose keyword is at `k`.
#[verifier::rlimit(60)]
fn style_item_at(
    ts: &Vec<TokenTree>,
    k: usize,
    scope_span: Span,
    scope: &mut ScopeVars,
    attrs: &Vec<AttrItem>,
    vis: Option<Visibility>,
) -> (r: Result<(StyleSheetItem, usize, Option<(Span, Delimiter)>), ParseError>)
    requires
        k < ts@.len(),
    ensures
        item_outcome(
            r,
            style_item(ts@, k as int, scope_span, old(scope).cur_mod, old(scope).vars@, attr_items_view(attrs@), opt_vis_view(vis)),
            *old(scope),
            *final(scope),
        ),
{
    let ghost s0 = *scope;
    let ghost vars0 = scope.vars@;
    proof {
        assert(attr_items_view(attrs@).skip(0) =~= attr_items_view(attrs@));
    }
    assert(k < ts.len());
    let i = match ident_token(ts, k + 1, scope_span) {
        Err(e) => {
            return Err(e);
        },
        Ok(i) => i,
    };
    let pg = match paren_at(ts, k + 2) {
        None => {
            return Err(paren_error_at(ts, k + 2, scope_span));
        },
        Some(g) => g,
    };
    let eco = match style_attrs_from(attrs, 0) {
        Err(e) => {
            return Err(e);
        },
        Ok(x) => x,
    };
    let (args, pn) = match params_at(&pg.stream, 0, pg.span_close) {
        Err(e) => {
            return Err(e);
        },
        Ok(x) => x,
    };
    let ghost ps = params_parse(pg.stream@, 0, pg.span_close)->Ok_0.value;
    if pn < pg.stream.len() {
        return Err(ParseError::new(position_span_at(&pg.stream, pn, pg.span_close), "unexpected token"));
    }
    let bg = match brace_at(ts, k + 3) {
        None => {
            return Err(brace_error_at(ts, k + 3, scope_span));
        },
        Some(g) => g,
    };
    let len0 = scope.vars.len();
    let mut j: usize = 0;
    let mut dup = false;
    while j < args.len() && !dup
        invariant
            j <= args@.len(),
            args@ == param_entries(ps),
            ps.len() == args@.len(),
            len0 == vars0.len(),
            scope.vars@ == vars0 + param_vars(ps).take(j as int),
            scope.cur_mod == s0.cur_mod,
            scope.var_refs == s0.var_refs,
            dup_param(vars0, ps, 0) == dup_param(vars0, ps, j as int),
            dup ==> j < args@.len() && dup_param(vars0, ps, j as int) == Some(ps[j as int].0.span),
        decreases args@.len() - j, if dup { 0int } else { 1int },
    {
        assert(args@[j as int].0 == var_name_of(ps[j as int].0));
        if scope.lookup(args[j].0.ident.as_str()).is_some() {
            dup = true;
        } else {
            proof {
                lemma_dup_param_step(vars0, ps, j as int);
            }
            let r = VarDynRef { span: args[j].0.span, index: j };
            let value = match args[j].1 {
                ArgType::Str(_) => ScopeVarValue::DynStr(r),
                ArgType::Num(_) => ScopeVarValue::DynNum(r),
            };
            scope.vars.push((dup_var_name(&args[j].0), value));
            proof {
                assert(param_vars(ps).take(j + 1) =~= param_vars(ps).take(j as int).push(param_vars(ps)[j as int]));
                assert(scope.vars@ =~= vars0 + param_vars(ps).take(j + 1));
            }
            j = j + 1;
        }
    }
    if dup {
        return Err(ParseError::new(args[j].0.span, "duplicated identifier"));
    }
    proof {
        assert(param_vars(ps).take(j as int) =~= param_vars(ps));
        assert(dup_param(vars0, ps, j as int) is None);
    }
    let res = content_items_at(&bg.stream, 0, bg.span_close, scope);
    scope.vars.truncate(len0);
    assert(scope.vars@ =~= vars0);
    let (content, cn, lo) = match res {
        Err(e) => {
            return Err(e);
        },
        Ok(x) => x,
    };
    if scope.lookup(i.name.as_str()).is_some() {
        return Err(ParseError::new(i.span, "duplicated identifier"));
    }
    if cn < bg.stream.len() {
        return Err(ParseError::new(position_span_at(&bg.stream, cn, bg.span_close), "unexpected token"));
    }
    let def_args = dup_params(&args);
    scope.vars.push((var_name_from(i), ScopeVarValue::StyleDefinition(def_args)));
    let item = StyleSheetItem::Style {
        vis: item_vis_of(&scope.cur_mod, &vis),
        extern_vis: vis,
        error_css_output: eco,
        name: var_name_from(i),
        args,
        content,
    };
    assert(scope.vars@.take(vars0.len() as int) =~= vars0);
    Ok((item, k + 4, lo))
}

/// What a backend supplies to a style sheet: its own state, and the token
/// that stands for a set of key frames.
pub trait StyleSheetConstructor {
    /// A fresh constructor for a style sheet.
    fn new() -> Self where Self: Sized;

    /// Registers the key frames named `name` and gives the token that
    /// stands for them, or the error why they cannot be used.
    fn define_key_frames(&mut self, name: &VarName, content: Vec<KeyFrame<CssTokenStream>>) -> Result<
        CssToken,
        ParseError,
    >;
}

/// The body of a `const` item from `b`: the item, or the error with the
/// position the parse stopped at; also what the constructor gave for key
/// frames.
fn const_body_at<T: StyleSheetConstructor>(
    ts: &Vec<TokenTree>,
    b: usize,
    scope_span: Span,
    scope: &mut ScopeVars,
    ssc: &mut T,
    attrs: &Vec<AttrItem>,
    vis: &Option<Visibility>,
    i: &Ident,
    ty: &Ident,
) -> (r: (Result<(StyleSheetItem, usize, Option<(Span, Delimiter)>), (ParseError, usize)>, Ghost<Result<(), (Span, Seq<char>)>>))
    requires
        b <= ts@.len(),
    ensures
        final(scope).cur_mod == old(scope).cur_mod,
        match (
            r.0,
            const_body(
                ts@,
                b as int,
                scope_span,
                old(scope).cur_mod,
                old(scope).vars@,
                attr_items_view(attrs@),
                opt_vis_view(*vis),
                *i,
                *ty,
                r.1@,
            ),
        ) {
            (Ok((item, n, lo)), Ok(p)) => item_matches(item, p.value) && n == p.next && lo == p.leftover && refs_view(
                final(scope).var_refs@,
            ) == refs_view(old(scope).var_refs@) + p.refs && vars_after(old(scope).vars@, final(scope).vars@, p.value),
            (Err((e, c)), Err((f, c2))) => e.span == f.span && e.message@ == f.message && c == c2,
            _ => false,
        },
{
    let ghost vars0 = scope.vars@;
    let ghost ok: Result<(), (Span, Seq<char>)> = Ok(());
    if attrs.len() > 0 {
        return (Err((ParseError::new(attrs[0].pound, "unknown attribute"), b)), Ghost(ok));
    }
    if scope.cur_mod.is_none() && vis.is_some() {
        let sp = match vis {
            Some(Visibility::Public(sp)) => *sp,
            Some(Visibility::Restricted(sp, _)) => *sp,
            None => scope_span,
        };
        return (Err((ParseError::new(sp, "constants are always private in inline stylesheets"), b)), Ghost(ok));
    }
    if str_eq(ty.name.as_str(), "value") {
        if b >= ts.len() {
            return (Err((ParseError::new(scope_span, "unexpected end of input, unexpected token"), b)), Ghost(ok));
        }
        match parse_token_at(ts, b, scope_span, scope) {
            Err(e) => (Err((e, b)), Ghost(ok)),
            Ok((t, tn, lo)) => {
                if scope.lookup(i.name.as_str()).is_some() {
                    return (Err((ParseError::new(i.span, "duplicated identifier"), tn)), Ghost(ok));
                }
                scope.vars.push((var_name_from(i), ScopeVarValue::Token(t)));
                assert(scope.vars@.take(vars0.len() as int) =~= vars0);
                let item = StyleSheetItem::ConstValue { vis: item_vis_of(&scope.cur_mod, vis), name: var_name_from(i) };
                (Ok((item, tn, lo)), Ghost(ok))
            },
        }
    } else if str_eq(ty.name.as_str(), "keyframes") {
        let g = match brace_at(ts, b) {
            None => {
                return (Err((brace_error_at(ts, b, scope_span), b)), Ghost(ok));
            },
            Some(g) => g,
        };
        match frames_at(&g.stream, 0, g.span_close, scope) {
            Err(e) => (Err((e, b + 1)), Ghost(ok)),
            Ok((frames, _, lo)) => {
                let name = var_name_from(i);
                match ssc.define_key_frames(&name, frames) {
                    Err(e) => {
                        let ghost kf: Result<(), (Span, Seq<char>)> = Err((e.span, e.message@));
                        (Err((e, b + 1)), Ghost(kf))
                    },
                    Ok(t) => {
                        if scope.lookup(i.name.as_str()).is_some() {
                            return (Err((ParseError::new(i.span, "duplicated identifier"), b + 1)), Ghost(ok));
                        }
                        scope.vars.push((name, ScopeVarValue::Token(t)));
                        assert(scope.vars@.take(vars0.len() as int) =~= vars0);
                        let item = StyleSheetItem::KeyFrames { vis: item_vis_of(&scope.cur_mod, vis), name: var_name_from(i) };
                        (Ok((item, b + 1, lo)), Ghost(ok))
                    },
                }
            },
        }
    } else {
        (Err((ParseError::new(ty.span, "invalid type"), b)), Ghost(ok))
    }
}

/// The identifier at `pos`, keywords included.
fn any_ident(ts: &Vec<TokenTree>, pos: usize) -> (r: Option<&Ident>)
    ensures
        match r {
            Some(i) => any_ident_at(ts@, pos as int) == Some(*i),
            None => any_ident_at(ts@, pos as int) is None,
        },
{
    if pos < ts.len() {
        match &ts[pos] {
            TokenTree::Ident(i) => Some(i),
            _ => None,
        }
    } else {
        None
    }
}

/// A `const` item whose keyword is at `k`.
fn const_item_at<T: StyleSheetConstructor>(
    ts: &Vec<TokenTree>,
    k: usize,
    scope_span: Span,
    scope: &mut ScopeVars,
    ssc: &mut T,
    attrs: &Vec<AttrItem>,
    vis: Option<Visibility>,
) -> (r: (Result<(StyleSheetItem, usize, Option<(Span, Delimiter)>), ParseError>, Ghost<Result<(), (Span, Seq<char>)>>))
    requires
        k < ts@.len(),
    ensures
        item_outcome(
            r.0,
            const_item(
                ts@,
                k as int,
                scope_span,
                old(scope).cur_mod,
                old(scope).vars@,
                attr_items_view(attrs@),
                opt_vis_view(vis),
                r.1@,
            ),
            *old(scope),
            *final(scope),
        ),
{
    let ghost ok: Result<(), (Span, Seq<char>)> = Ok(());
    assert(k < ts.len());
    let i = match ident_token(ts, k + 1, scope_span) {
        Err(e) => {
            return (Err(e), Ghost(ok));
        },
        Ok(i) => i,
    };
    assert(k + 1 < ts.len());
    if !puncts_match_at(ts, k + 2, ":") {
        return (Err(ParseError::new(position_span_at(ts, k + 2, scope_span), "expected `:`")), Ghost(ok));
    }
    assert(k + 2 < ts.len());
    let ty = match any_ident(ts, k + 3) {
        None => {
            return (
                Err(error_at_pos(ts, k + 3, scope_span, "expected ident", "unexpected end of input, expected ident")),
                Ghost(ok),
            );
        },
        Some(ty) => ty,
    };
    assert(k + 3 < ts.len());
    if !puncts_match_at(ts, k + 4, "=") {
        return (Err(ParseError::new(position_span_at(ts, k + 4, scope_span), "expected `=`")), Ghost(ok));
    }
    assert(k + 4 < ts.len());
    let (body, kf) = const_body_at(ts, k + 5, scope_span, scope, ssc, attrs, &vis, i, ty);
    match body {
        Ok((item, c, lo)) => if puncts_match_at(ts, c, ";") {
            assert(c < ts.len());
            (Ok((item, c + 1, lo)), kf)
        } else {
            let e = if c < ts.len() {
                ParseError::new(position_span_at(ts, c, scope_span), "expected `;`")
            } else {
                ParseError::new(scope_span, "unexpected end of input, expected `;`")
            };
            let (e2, _) = recovered_error_at(ts, c, scope_span, e);
            (Err(e2), kf)
        },
        Err((e, c)) => {
            let (e2, _) = recovered_error_at(ts, c, scope_span, e);
            (Err(e2), kf)
        },
    }
}

/// An item at `pos`, and what the constructor gave for key frames.
#[verifier::rlimit(30)]
pub(crate) fn sheet_item_at<T: StyleSheetConstructor>(
    ts: &Vec<TokenTree>,
    pos: usize,
    scope_span: Span,
    scope: &mut ScopeVars,
    ssc: &mut T,
) -> (r: (Result<(StyleSheetItem, usize, Option<(Span, Delimiter)>), ParseError>, Ghost<Result<(), (Span, Seq<char>)>>))
    ensures
        item_outcome(
            r.0,
            sheet_item_parse(ts@, pos as int, scope_span, old(scope).cur_mod, old(scope).vars@, r.1@),
            *old(scope),
            *final(scope),
        ),
{
    reveal(sheet_item_parse);
    let ghost ok: Result<(), (Span, Seq<char>)> = Ok(());
    let (attrs, an) = match attrs_at(ts, pos, scope_span) {
        Err(e) => {
            return (Err(e), Ghost(ok));
        },
        Ok(x) => x,
    };
    let (vis, k) = match vis_at(ts, an, scope_span) {
        Err(e) => {
            return (Err(e), Ghost(ok));
        },
        Ok(x) => x,
    };
    if keyword_is_at(ts, k, "mod") {
        return (Err(ParseError::new(position_span_at(ts, k, scope_span), "`mod` items are not supported")), Ghost(ok));
    }
    if keyword_is_at(ts, k, "use") {
        return (Err(ParseError::new(position_span_at(ts, k, scope_span), "`use` items are not supported")), Ghost(ok));
    }
    if keyword_is_at(ts, k, "const") {
        return const_item_at(ts, k, scope_span, scope, ssc, &attrs, vis);
    }
    if keyword_is_at(ts, k, "style") {
        return (style_item_at(ts, k, scope_span, scope, &attrs, vis), Ghost(ok));
    }
    if keyword_is_at(ts, k, "class") {
        return (class_item_at(ts, k, scope_span, scope, &attrs, vis), Ghost(ok));
    }
    let kinds = vec!["`mod`", "`use`", "`const`", "`style`", "`class`"];
    assert(kinds_view(kinds@) =~= seq!["`mod`"@, "`use`"@, "`const`"@, "`style`"@, "`class`"@]);
    (Err(expected_error_at(ts, k, scope_span, &kinds)), Ghost(ok))
}

/// The result of an item parse at the position of `input`, against its
/// abstract outcome when the constructor's key frame result is `kf`.
pub open spec fn item_input_outcome(
    r: Result<StyleSheetItem, ParseError>,
    kf: Result<(), (Span, Seq<char>)>,
    input0: ParseInput,
    input1: ParseInput,
    s0: ScopeVars,
    s1: ScopeVars,
) -> bool {
    let spec_r = sheet_item_parse(input0.tokens@, input0.pos as int, input0.scope, s0.cur_mod, s0.vars@, kf);
    &&& input1.tokens == input0.tokens
    &&& input1.scope == input0.scope
    &&& s1.cur_mod == s0.cur_mod
    &&& match (r, spec_r) {
        (Ok(item), Ok(p)) => item_matches(item, p.value) && input1.pos == p.next && input1.unexpected == first_leftover(
            input0.unexpected,
            p.leftover,
        ) && refs_view(s1.var_refs@) == refs_view(s0.var_refs@) + p.refs && vars_after(s0.vars@, s1.vars@, p.value),
        (Err(e), Err(f)) => e.span == f.span && e.message@ == f.message,
        _ => false,
    }
}

impl StyleSheetItem {
    /// Parses an item: attributes, a visibility, then `const name: value =
    /// token;`, `const name: keyframes = { .. };`, `style name(params) {
    /// items }` or `class name { body }`. `mod` and `use` items are
    /// refused. The key frames of a `const` are handed to `ssc`, whose
    /// result (only whether it failed matters to the item) is the `kf` of
    /// the contract; where the item fails the variables in scope are left
    /// as far as it got.
    pub fn parse_with_vars<T: StyleSheetConstructor>(input: &mut ParseInput, scope: &mut ScopeVars, ssc: &mut T) -> (r:
        Result<Self, ParseError>)
        ensures
            exists|kf: Result<(), (Span, Seq<char>)>|
                #[trigger] item_input_outcome(r, kf, *old(input), *final(input), *old(scope), *final(scope)),
    {
        let (r, kf) = sheet_item_at(input.tokens, input.pos, input.scope, scope, ssc);
        let ghost kfv = kf@;
        match r {
            Err(e) => {
                assert(item_input_outcome(Err(e), kfv, *old(input), *input, *old(scope), *scope));
                Err(e)
            },
            Ok((item, next, lo)) => {
                input.pos = next;
                if input.unexpected.is_none() {
                    input.unexpected = lo;
                }
                assert(item_input_outcome(Ok(item), kfv, *old(input), *input, *old(scope), *scope));
                Ok(item)
            },
        }
    }
}


// ---------------------------------------------------------------------
// A whole style sheet.

/// A style sheet: the constructor that was handed its key frames, its
/// items, and the variables its items referred to.
pub struct StyleSheet<T: StyleSheetConstructor> {
    pub ssc: T,
    pub items: Vec<StyleSheetItem>,
    pub var_refs: Vec<VarRef>,
}

/// The key frame result a constructor gives, as far as an item depends
/// on it.
pub type KeyFramesResult = Result<(), (Span, Seq<char>)>;

/// One item at `pos`, read with the variables `v0` and the key frame
/// result `kf`: it is `item`, the next one starts at `next`, and it leaves
/// the variables `v1`.
pub open spec fn sheet_step(
    ts: Seq<TokenTree>,
    pos: int,
    scope: Span,
    cur_mod: Option<ModPath>,
    v0: Seq<(VarName, ScopeVarValue)>,
    kf: KeyFramesResult,
    item: StyleSheetItem,
    next: int,
    v1: Seq<(VarName, ScopeVarValue)>,
) -> bool {
    &&& 0 <= pos < ts.len()
    &&& sheet_item_parse(ts, pos, scope, cur_mod, v0, kf) matches Ok(p)
    &&& item_matches(item, p.value)
    &&& p.next == next
    &&& vars_after(v0, v1, p.value)
}

/// The items read one after the other: item `i` starts at `poss[i]` with
/// the variables `varss[i]`.
pub open spec fn sheet_steps(
    ts: Seq<TokenTree>,
    scope: Span,
    cur_mod: Option<ModPath>,
    items: Seq<StyleSheetItem>,
    poss: Seq<int>,
    varss: Seq<Seq<(VarName, ScopeVarValue)>>,
    kfs: Seq<KeyFramesResult>,
) -> bool {
    &&& poss.len() == items.len() + 1
    &&& varss.len() == items.len() + 1
    &&& kfs.len() >= items.len()
    &&& forall|i: int|
        0 <= i < items.len() ==> #[trigger] sheet_step(
            ts,
            poss[i],
            scope,
            cur_mod,
            varss[i],
            kfs[i],
            items[i],
            poss[i + 1],
            varss[i + 1],
        )
}

/// The variables the first `n` items referred to.
pub open spec fn steps_refs(
    ts: Seq<TokenTree>,
    scope: Span,
    cur_mod: Option<ModPath>,
    poss: Seq<int>,
    varss: Seq<Seq<(VarName, ScopeVarValue)>>,
    kfs: Seq<KeyFramesResult>,
    n: int,
) -> Seq<(Span, Seq<char>)>
    decreases n,
{
    if n <= 0 {
        Seq::empty()
    } else {
        steps_refs(ts, scope, cur_mod, poss, varss, kfs, n - 1) + sheet_item_parse(
            ts,
            poss[n - 1],
            scope,
            cur_mod,
            varss[n - 1],
            kfs[n - 1],
        )->Ok_0.refs
    }
}

/// The first token left over in the first `n` items.
pub open spec fn steps_leftover(
    ts: Seq<TokenTree>,
    scope: Span,
    cur_mod: Option<ModPath>,
    poss: Seq<int>,
    varss: Seq<Seq<(VarName, ScopeVarValue)>>,
    kfs: Seq<KeyFramesResult>,
    n: int,
) -> Option<(Span, Delimiter)>
    decreases n,
{
    if n <= 0 {
        None
    } else {
        first_leftover(
            steps_leftover(ts, scope, cur_mod, poss, varss, kfs, n - 1),
            sheet_item_parse(ts, poss[n - 1], scope, cur_mod, varss[n - 1], kfs[n - 1])->Ok_0.leftover,
        )
    }
}

/// The result of a style sheet parse from the position of `input0`,
/// against the items read one after the other (`poss`, `varss`, `kfs`,
/// and on failure the items read before it).
pub open spec fn sheet_outcome<T: StyleSheetConstructor>(
    r: Result<StyleSheet<T>, ParseError>,
    input0: ParseInput,
    input1: ParseInput,
    s0: ScopeVars,
    s1: ScopeVars,
    poss: Seq<int>,
    varss: Seq<Seq<(VarName, ScopeVarValue)>>,
    kfs: Seq<KeyFramesResult>,
    read: Seq<StyleSheetItem>,
) -> bool {
    let ts = input0.tokens@;
    let n = poss.len() - 1;
    &&& input1.tokens == input0.tokens
    &&& input1.scope == input0.scope
    &&& s1.cur_mod == s0.cur_mod
    &&& poss.len() >= 1
    &&& poss[0] == input0.pos
    &&& varss[0] == s0.vars@
    &&& match r {
        Ok(sheet) => {
            &&& sheet_steps(ts, input0.scope, s0.cur_mod, sheet.items@, poss, varss, kfs)
            &&& poss[n] >= ts.len()
            &&& input1.pos == poss[n]
            &&& s1.vars@ == varss[n]
            &&& refs_view(sheet.var_refs@) == refs_view(s0.var_refs@) + steps_refs(
                ts,
                input0.scope,
                s0.cur_mod,
                poss,
                varss,
                kfs,
                n,
            )
            &&& s1.var_refs@.len() == 0
            &&& input1.unexpected == first_leftover(
                input0.unexpected,
                steps_leftover(ts, input0.scope, s0.cur_mod, poss, varss, kfs, n),
            )
        },
        Err(e) => {
            &&& sheet_steps(ts, input0.scope, s0.cur_mod, read, poss, varss, kfs)
            &&& kfs.len() == poss.len()
            &&& poss[n] < ts.len()
            &&& sheet_item_parse(ts, poss[n], input0.scope, s0.cur_mod, varss[n], kfs[n]) matches Err(f)
            &&& e.span == f.span
            &&& e.message@ == f.message
        },
    }
}

proof fn lemma_attrs_next(ts: Seq<TokenTree>, pos: int, scope: Span)
    requires
        0 <= pos,
    ensures
        attrs_parse(ts, pos, scope) matches Ok(a) ==> pos <= a.next,
    decreases ts.len() - pos,
{
    if puncts_match(ts, pos, "#"@) && bracket_group_at(ts, pos + 1) is Some {
        lemma_attrs_next(ts, pos + 2, scope);
    }
}

proof fn lemma_sheet_item_advances(
    ts: Seq<TokenTree>,
    pos: int,
    scope: Span,
    cur_mod: Option<ModPath>,
    vars: Seq<(VarName, ScopeVarValue)>,
    kf: KeyFramesResult,
)
    requires
        0 <= pos,
    ensures
        sheet_item_parse(ts, pos, scope, cur_mod, vars, kf) matches Ok(p) ==> pos < p.next <= ts.len(),
{
    reveal(sheet_item_parse);
    lemma_attrs_next(ts, pos, scope);
    if let Ok(a) = attrs_parse(ts, pos, scope) {
        if let Ok(v) = vis_parse(ts, a.next) {
            let k = v.next;
            if keyword_at(ts, k, "const"@) {
                if let Ok(n) = ident_parse(ts, k + 1, scope) {
                    if let Some(ty) = any_ident_at(ts, k + 3) {
                        lemma_token_parse_advances(ts, k + 5, scope, vars);
                    }
                }
            }
        }
    }
}

proof fn lemma_steps_extend(
    ts: Seq<TokenTree>,
    scope: Span,
    cur_mod: Option<ModPath>,
    poss: Seq<int>,
    varss: Seq<Seq<(VarName, ScopeVarValue)>>,
    kfs: Seq<KeyFramesResult>,
    p: int,
    v: Seq<(VarName, ScopeVarValue)>,
    kf: KeyFramesResult,
    m: int,
)
    requires
        0 <= m <= kfs.len(),
        m < poss.len(),
        m < varss.len(),
    ensures
        steps_refs(ts, scope, cur_mod, poss.push(p), varss.push(v), kfs.push(kf), m) == steps_refs(
            ts,
            scope,
            cur_mod,
            poss,
            varss,
            kfs,
            m,
        ),
        steps_leftover(ts, scope, cur_mod, poss.push(p), varss.push(v), kfs.push(kf), m) == steps_leftover(
            ts,
            scope,
            cur_mod,
            poss,
            varss,
            kfs,
            m,
        ),
    decreases m,
{
    if m > 0 {
        lemma_steps_extend(ts, scope, cur_mod, poss, varss, kfs, p, v, kf, m - 1);
    }
}

proof fn lemma_sheet_steps_push(
    ts: Seq<TokenTree>,
    scope: Span,
    cur_mod: Option<ModPath>,
    items: Seq<StyleSheetItem>,
    poss: Seq<int>,
    varss: Seq<Seq<(VarName, ScopeVarValue)>>,
    kfs: Seq<KeyFramesResult>,
    kf: KeyFramesResult,
    item: StyleSheetItem,
    next: int,
    v1: Seq<(VarName, ScopeVarValue)>,
)
    requires
        sheet_steps(ts, scope, cur_mod, items, poss, varss, kfs),
        kfs.len() == items.len(),
        sheet_step(ts, poss.last(), scope, cur_mod, varss.last(), kf, item, next, v1),
    ensures
        sheet_steps(ts, scope, cur_mod, items.push(item), poss.push(next), varss.push(v1), kfs.push(kf)),
        steps_refs(ts, scope, cur_mod, poss.push(next), varss.push(v1), kfs.push(kf), items.len() + 1int) == steps_refs(
            ts,
            scope,
            cur_mod,
            poss,
            varss,
            kfs,
            items.len() as int,
        ) + sheet_item_parse(ts, poss.last(), scope, cur_mod, varss.last(), kf)->Ok_0.refs,
        steps_leftover(ts, scope, cur_mod, poss.push(next), varss.push(v1), kfs.push(kf), items.len() + 1int) == first_leftover(
            steps_leftover(ts, scope, cur_mod, poss, varss, kfs, items.len() as int),
            sheet_item_parse(ts, poss.last(), scope, cur_mod, varss.last(), kf)->Ok_0.leftover,
        ),
{
    let n = items.len() as int;
    let poss2 = poss.push(next);
    let varss2 = varss.push(v1);
    let kfs2 = kfs.push(kf);
    let items2 = items.push(item);
    lemma_steps_extend(ts, scope, cur_mod, poss, varss, kfs, next, v1, kf, n);
    assert forall|i: int| 0 <= i < items2.len() implies #[trigger] sheet_step(
        ts,
        poss2[i],
        scope,
        cur_mod,
        varss2[i],
        kfs2[i],
        items2[i],
        poss2[i + 1],
        varss2[i + 1],
    ) by {
        if i < n {
            assert(sheet_step(ts, poss[i], scope, cur_mod, varss[i], kfs[i], items[i], poss[i + 1], varss[i + 1]));
        }
    }
}

proof fn lemma_sheet_steps_fail(
    ts: Seq<TokenTree>,
    scope: Span,
    cur_mod: Option<ModPath>,
    items: Seq<StyleSheetItem>,
    poss: Seq<int>,
    varss: Seq<Seq<(VarName, ScopeVarValue)>>,
    kfs: Seq<KeyFramesResult>,
    kf: KeyFramesResult,
)
    requires
        sheet_steps(ts, scope, cur_mod, items, poss, varss, kfs),
        kfs.len() == items.len(),
    ensures
        sheet_steps(ts, scope, cur_mod, items, poss, varss, kfs.push(kf)),
{
    let kfs2 = kfs.push(kf);
    assert forall|i: int| 0 <= i < items.len() implies #[trigger] sheet_step(
        ts,
        poss[i],
        scope,
        cur_mod,
        varss[i],
        kfs2[i],
        items[i],
        poss[i + 1],
        varss[i + 1],
    ) by {
        assert(kfs2[i] == kfs[i]);
        assert(sheet_step(ts, poss[i], scope, cur_mod, varss[i], kfs[i], items[i], poss[i + 1], varss[i + 1]));
    }
}

impl<T: StyleSheetConstructor> StyleSheet<T> {
    /// Parses the items of a style sheet to the end of the input, with a
    /// fresh constructor; the variables referred to are taken out of
    /// `scope` into the sheet.
    pub fn parse_with_vars(input: &mut ParseInput, scope: &mut ScopeVars) -> (r: Result<Self, ParseError>)
        ensures
            exists|poss: Seq<int>, varss: Seq<Seq<(VarName, ScopeVarValue)>>, kfs: Seq<KeyFramesResult>, read: Seq<StyleSheetItem>|
                #[trigger] sheet_outcome(r, *old(input), *final(input), *old(scope), *final(scope), poss, varss, kfs, read),
    {
        let ghost input0 = *input;
        let ghost s0 = *scope;
        let ghost ts = input.tokens@;
        let mut ssc = T::new();
        let mut items: Vec<StyleSheetItem> = Vec::new();
        let ghost mut poss: Seq<int> = seq![input.pos as int];
        let ghost mut varss: Seq<Seq<(VarName, ScopeVarValue)>> = seq![scope.vars@];
        let ghost mut kfs: Seq<KeyFramesResult> = Seq::empty();
        proof {
            assert(refs_view(scope.var_refs@) =~= refs_view(s0.var_refs@) + steps_refs(ts, input0.scope, s0.cur_mod, poss, varss, kfs, 0));
        }
        while !input.is_empty()
            invariant
                input.tokens == input0.tokens,
                input.scope == input0.scope,
                ts == input0.tokens@,
                s0 == *old(scope),
                input0 == *old(input),
                scope.cur_mod == s0.cur_mod,
                sheet_steps(ts, input0.scope, s0.cur_mod, items@, poss, varss, kfs),
                kfs.len() == items@.len(),
                poss[0] == input0.pos,
                varss[0] == s0.vars@,
                poss.last() == input.pos,
                varss.last() == scope.vars@,
                refs_view(scope.var_refs@) == refs_view(s0.var_refs@) + steps_refs(
                    ts,
                    input0.scope,
                    s0.cur_mod,
                    poss,
                    varss,
                    kfs,
                    items@.len() as int,
                ),
                input.unexpected == first_leftover(
                    input0.unexpected,
                    steps_leftover(ts, input0.scope, s0.cur_mod, poss, varss, kfs, items@.len() as int),
                ),
            decreases ts.len() - input.pos,
        {
            let ghost in_before = *input;
            let ghost sc_before = *scope;
            let ghost n = items@.len() as int;
            let r = StyleSheetItem::parse_with_vars(input, scope, &mut ssc);
            let ghost kf = choose|kf: KeyFramesResult| #[trigger] item_input_outcome(r, kf, in_before, *input, sc_before, *scope);
            proof {
                lemma_sheet_item_advances(ts, in_before.pos as int, input0.scope, s0.cur_mod, sc_before.vars@, kf);
            }
            match r {
                Err(e) => {
                    proof {
                        lemma_sheet_steps_fail(ts, input0.scope, s0.cur_mod, items@, poss, varss, kfs, kf);
                        assert(sheet_outcome::<T>(Err(e), *old(input), *input, *old(scope), *scope, poss, varss, kfs.push(kf), items@));
                    }
                    return Err(e);
                },
                Ok(item) => {
                    proof {
                        assert(sheet_step(ts, poss.last(), input0.scope, s0.cur_mod, varss.last(), kf, item, input.pos as int, scope.vars@));
                        lemma_sheet_steps_push(ts, input0.scope, s0.cur_mod, items@, poss, varss, kfs, kf, item, input.pos as int, scope.vars@);
                        poss = poss.push(input.pos as int);
                        varss = varss.push(scope.vars@);
                        kfs = kfs.push(kf);
                    }
                    items.push(item);
                },
            }
        }
        let mut var_refs: Vec<VarRef> = Vec::new();
        std::mem::swap(&mut var_refs, &mut scope.var_refs);
        let sheet = StyleSheet { ssc, items, var_refs };
        proof {
            let read = Seq::<StyleSheetItem>::empty();
            assert(sheet_outcome(Ok(sheet), *old(input), *input, *old(scope), *scope, poss, varss, kfs, read));
        }
        Ok(sheet)
    }
}
} // verus!
