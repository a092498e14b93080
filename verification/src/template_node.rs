//! The nodes of a template, read from the token trees of the template:
//! static text (a string literal), dynamic text (`{ expression }`),
//! elements `<path attributes...>children</path>` (or `</_>`, or `/>`),
//! slots `<slot data=...>`, `if`/`else` chains, `match` blocks and `for`
//! loops.
//!
//! Tokens are named by their positions; the positions inside the braces of
//! an `if`, `match` or `for` are positions in the tokens of those braces.
//! The Rust pieces (conditions, patterns, expressions) are taken as ranges
//! of tokens: a condition or scrutinee runs up to the braces, a `for`
//! pattern up to `in`, an arm's pattern up to `if` or `=>`; they are
//! handed on as they are.
use vstd::prelude::*;

use proc_macro2::Span;

use crate::i18n_args::{punct_at, str_lit_at};
use crate::style_items::{path_at, path_parse};
use crate::template::{
    error_span_at, group_at, group_ref, is_punct, span_at, template_attr_parse, TemplateAttrView,
    TemplateAttribute,
};
use crate::text::str_eq;
use crate::token_parse::{
    expected_error, expected_error_at, fail, kinds_view, stalled, var_at, Delimiter, Failed, Group,
    TokenTree,
};
use crate::values::ParseError;

verus! {

/// A template node; tokens by their positions.
pub enum TemplateNodeView {
    StaticText(int),
    DynamicText(int),
    /// `<slot ...>` at `tag`, with its `data` attribute, if any.
    Slot { tag: int, data: Option<TemplateAttrView> },
    /// An element at `tag` with its path, the variable of its `slot:`
    /// attribute, its other attributes and its children.
    Tag {
        tag: int,
        path: (bool, Seq<Seq<char>>),
        slot_var_name: Option<int>,
        attrs: Seq<TemplateAttrView>,
        children: Seq<TemplateNodeView>,
    },
    /// The branches of an `if`/`else` chain: the condition's tokens, the
    /// braces and the children. An added `else` with no braces closes a
    /// chain that ends with a condition.
    IfElse(Seq<(Option<(int, int)>, Option<int>, Seq<TemplateNodeView>)>),
    /// The scrutinee's tokens, the braces and the arms: pattern, guard,
    /// braces and children.
    Match {
        expr: (int, int),
        braces: int,
        arms: Seq<((int, int), Option<(int, int)>, int, Seq<TemplateNodeView>)>,
    },
    /// The pattern's and the iterated expression's tokens, the key (the
    /// parentheses of its expression, or none for the pattern itself, and
    /// the path of its type), the braces and the children.
    ForLoop {
        pat: (int, int),
        expr: (int, int),
        key: Option<(Option<int>, (bool, Seq<Seq<char>>))>,
        braces: int,
        children: Seq<TemplateNodeView>,
    },
}

/// Whether the identifier at `pos` is `name`.
pub open spec fn kw_at(ts: Seq<TokenTree>, pos: int, name: Seq<char>) -> bool {
    0 <= pos < ts.len() && ts[pos] is Ident && ts[pos]->Ident_0.name@ == name
}

/// Whether `=>` stands at `pos`.
pub open spec fn arrow_at(ts: Seq<TokenTree>, pos: int) -> bool {
    punct_at(ts, pos, '=') && ts[pos]->Punct_0.joint && punct_at(ts, pos + 1, '>')
}

/// Where a piece of Rust code ends.
#[derive(Clone, Copy, PartialEq, Eq, Structural)]
pub enum Stop {
    /// At braces.
    Brace,
    /// At `in`.
    In,
    /// At `use` or braces.
    UseOrBrace,
    /// At `if` or `=>`.
    PatEnd,
    /// At `=>`.
    Arrow,
}

/// Whether the token at `pos` ends a piece of the kind `k`.
pub open spec fn stops_at(ts: Seq<TokenTree>, pos: int, k: Stop) -> bool {
    match k {
        Stop::Brace => group_at(ts, pos, Delimiter::Brace) is Some,
        Stop::In => kw_at(ts, pos, "in"@),
        Stop::UseOrBrace => kw_at(ts, pos, "use"@) || group_at(ts, pos, Delimiter::Brace) is Some,
        Stop::PatEnd => kw_at(ts, pos, "if"@) || arrow_at(ts, pos),
        Stop::Arrow => arrow_at(ts, pos),
    }
}

/// The first position from `pos` on where a piece of the kind `k` ends, or
/// the end.
pub open spec fn scan(ts: Seq<TokenTree>, pos: int, k: Stop) -> int
    decreases ts.len() - pos,
{
    if pos >= ts.len() || stops_at(ts, pos, k) {
        pos
    } else {
        scan(ts, pos + 1, k)
    }
}

/// What a node may start with.
pub open spec fn node_kinds() -> Seq<Seq<char>> {
    seq!["string literal"@, "curly braces"@, "`<`"@, "`if`"@, "`match`"@, "`for`"@]
}

/// The name of the identifier at `pos`.
pub open spec fn ident_name(ts: Seq<TokenTree>, pos: int) -> Seq<char> {
    ts[pos]->Ident_0.name@
}

/// `>` at `pos`, and the position after it.
pub open spec fn close_gt(ts: Seq<TokenTree>, pos: int, scope: Span) -> Result<int, Failed> {
    if punct_at(ts, pos, '>') {
        Ok(pos + 1)
    } else {
        Err(fail(span_at(ts, pos, scope), "expected `>`"@))
    }
}

/// The end tag's name from `q` on (after `</`), which must be `_` or the
/// single name `short`, then `>`.
pub open spec fn end_tag_parse(ts: Seq<TokenTree>, q: int, scope: Span, short: Seq<char>) -> Result<int, Failed> {
    if kw_at(ts, q, "_"@) {
        close_gt(ts, q + 1, scope)
    } else {
        match path_parse(ts, q, scope) {
            Err(e) => Err(e),
            Ok(p) => if !p.value.0 && p.value.1 == seq![short] {
                close_gt(ts, p.next, scope)
            } else {
                Err(
                    fail(
                        span_at(ts, q, scope),
                        "End tag name does not match the start tag name (consider use `_` instead?)"@,
                    ),
                )
            },
        }
    }
}

/// The error a slot's attribute gives, if any.
pub open spec fn slot_attr_error(ts: Seq<TokenTree>, a: TemplateAttrView) -> Option<Failed> {
    match a {
        TemplateAttrView::Property { name, list_updater, .. } => if ident_name(ts, name) != "data"@ {
            Some(
                fail(
                    ts[name]->Ident_0.span,
                    "The slot element cannot contain attributes other than `data`"@,
                ),
            )
        } else if list_updater is Some {
            Some(fail(ts[name]->Ident_0.span, "Illegal slot `data` attribute"@))
        } else {
            None
        },
        TemplateAttrView::EventHandler { name, .. } => Some(
            fail(ts[name]->Ident_0.span, "Illegal slot element attribute value"@),
        ),
        TemplateAttrView::Slot { name, .. } => Some(
            fail(ts[name]->Ident_0.span, "Illegal slot element attribute value"@),
        ),
    }
}

/// A slot element at `pos`, its path read up to `t`.
pub open spec fn slot_parse(ts: Seq<TokenTree>, pos: int, t: int, scope: Span) -> Result<(TemplateNodeView, int), Failed> {
    let data: Result<(Option<TemplateAttrView>, int), Failed> = if var_at(ts, t) is Some {
        match template_attr_parse(ts, t, scope) {
            Err(e) => Err(e),
            Ok((a, next)) => match slot_attr_error(ts, a) {
                Some(e) => Err(e),
                None => Ok((Some(a), next)),
            },
        }
    } else {
        Ok((None, t))
    };
    match data {
        Err(e) => Err(e),
        Ok((d, u)) => if punct_at(ts, u, '/') {
            match close_gt(ts, u + 1, scope) {
                Err(e) => Err(e),
                Ok(n) => Ok((TemplateNodeView::Slot { tag: pos, data: d }, n)),
            }
        } else if punct_at(ts, u, '>') {
            if !punct_at(ts, u + 1, '<') {
                Err(fail(span_at(ts, u + 1, scope), "expected `<`"@))
            } else if !punct_at(ts, u + 2, '/') {
                Err(fail(span_at(ts, u + 2, scope), "expected `/`"@))
            } else {
                match end_tag_parse(ts, u + 3, scope, "slot"@) {
                    Err(e) => Err(e),
                    Ok(n) => Ok((TemplateNodeView::Slot { tag: pos, data: d }, n)),
                }
            }
        } else {
            Err(expected_error(ts, u, scope, seq!["`/`"@, "`>`"@]))
        },
    }
}

/// The attributes of an element from `pos` on: the others, the variable of
/// the `slot:` attribute (`slot` so far), and the position after them.
pub open spec fn tag_attrs_parse(ts: Seq<TokenTree>, pos: int, scope: Span, slot: Option<int>) -> Result<
    (Seq<TemplateAttrView>, Option<int>, int),
    Failed,
>
    decreases ts.len() - pos,
{
    if var_at(ts, pos) is None {
        Ok((Seq::empty(), slot, pos))
    } else {
        match template_attr_parse(ts, pos, scope) {
            Err(e) => Err(e),
            Ok((a, next)) => if next <= pos || next > ts.len() {
                Err(stalled(scope))
            } else {
                match a {
                    TemplateAttrView::Slot { name, var_name } => if slot is Some {
                        Err(fail(ts[name]->Ident_0.span, "Duplicated `slot` attribute"@))
                    } else {
                        tag_attrs_parse(ts, next, scope, Some(var_name))
                    },
                    _ => match tag_attrs_parse(ts, next, scope, slot) {
                        Err(e) => Err(e),
                        Ok((rest, s, u)) => Ok((seq![a] + rest, s, u)),
                    },
                }
            },
        }
    }
}

/// The nodes in the braces `g`, to their end.
pub open spec fn group_nodes(g: Group) -> Result<Seq<TemplateNodeView>, Failed>
    decreases g, 0int, 0int, 0int,
{
    match nodes_parse(g.stream@, 0, g.span_close) {
        Err(e) => Err(e),
        Ok((ns, _)) => Ok(ns),
    }
}

/// The nodes from `pos` to the end, and the end.
pub open spec fn nodes_parse(ts: Seq<TokenTree>, pos: int, scope: Span) -> Result<(Seq<TemplateNodeView>, int), Failed>
    decreases ts, 1int, ts.len() - pos, 2int,
{
    if pos >= ts.len() {
        Ok((Seq::empty(), pos))
    } else {
        match node_parse(ts, pos, scope) {
            Err(e) => Err(e),
            Ok((n, next)) => if next <= pos || next > ts.len() {
                Err(stalled(scope))
            } else {
                match nodes_parse(ts, next, scope) {
                    Err(e) => Err(e),
                    Ok((rest, e)) => Ok((seq![n] + rest, e)),
                }
            },
        }
    }
}

/// The children of an element from `pos` up to its end tag `</`, and the
/// position of that `<`.
pub open spec fn children_parse(ts: Seq<TokenTree>, pos: int, scope: Span) -> Result<(Seq<TemplateNodeView>, int), Failed>
    decreases ts, 1int, ts.len() - pos, 3int,
{
    if punct_at(ts, pos, '<') && punct_at(ts, pos + 1, '/') {
        Ok((Seq::empty(), pos))
    } else {
        match node_parse(ts, pos, scope) {
            Err(e) => Err(e),
            Ok((n, next)) => if next <= pos || next > ts.len() {
                Err(stalled(scope))
            } else {
                match children_parse(ts, next, scope) {
                    Err(e) => Err(e),
                    Ok((rest, c)) => Ok((seq![n] + rest, c)),
                }
            },
        }
    }
}

/// The node at `pos`, and the position after it.
pub open spec fn node_parse(ts: Seq<TokenTree>, pos: int, scope: Span) -> Result<(TemplateNodeView, int), Failed>
    decreases ts, 1int, ts.len() - pos, 1int,
{
    if str_lit_at(ts, pos) is Some {
        Ok((TemplateNodeView::StaticText(pos), pos + 1))
    } else if group_at(ts, pos, Delimiter::Brace) is Some {
        let g = group_at(ts, pos, Delimiter::Brace)->0;
        if g.stream@.len() == 0 {
            Err(fail(g.span_close, "unexpected end of input, expected an expression"@))
        } else {
            Ok((TemplateNodeView::DynamicText(pos), pos + 1))
        }
    } else if punct_at(ts, pos, '<') {
        tag_parse(ts, pos, scope)
    } else if kw_at(ts, pos, "if"@) {
        if_parse(ts, pos, scope, Seq::empty())
    } else if kw_at(ts, pos, "match"@) {
        match_parse(ts, pos, scope)
    } else if kw_at(ts, pos, "for"@) {
        for_parse(ts, pos, scope)
    } else {
        Err(expected_error(ts, pos, scope, node_kinds()))
    }
}

/// An element or a slot at `pos` (its `<`).
pub open spec fn tag_parse(ts: Seq<TokenTree>, pos: int, scope: Span) -> Result<(TemplateNodeView, int), Failed>
    decreases ts, 1int, ts.len() - pos, 0int,
{
    match path_parse(ts, pos + 1, scope) {
        Err(e) => Err(e),
        Ok(p) => if !p.value.0 && p.value.1 == seq!["slot"@] {
            slot_parse(ts, pos, p.next, scope)
        } else {
            match tag_attrs_parse(ts, p.next, scope, None) {
                Err(e) => Err(e),
                Ok((attrs, slot_var_name, u)) => if punct_at(ts, u, '/') {
                    match close_gt(ts, u + 1, scope) {
                        Err(e) => Err(e),
                        Ok(n) => Ok(
                            (
                                TemplateNodeView::Tag {
                                    tag: pos,
                                    path: p.value,
                                    slot_var_name,
                                    attrs,
                                    children: Seq::empty(),
                                },
                                n,
                            ),
                        ),
                    }
                } else if punct_at(ts, u, '>') {
                    if u + 1 <= pos {
                        Err(stalled(scope))
                    } else {
                        match children_parse(ts, u + 1, scope) {
                            Err(e) => Err(e),
                            Ok((children, c)) => match end_tag_parse(
                                ts,
                                c + 2,
                                scope,
                                p.value.1.last(),
                            ) {
                                Err(e) => Err(e),
                                Ok(n) => Ok(
                                    (
                                        TemplateNodeView::Tag {
                                            tag: pos,
                                            path: p.value,
                                            slot_var_name,
                                            attrs,
                                            children,
                                        },
                                        n,
                                    ),
                                ),
                            },
                        }
                    }
                } else {
                    Err(expected_error(ts, u, scope, seq!["identifier"@, "`/`"@, "`>`"@]))
                },
            }
        },
    }
}

/// The branches of an `if`/`else` chain from `k` on (an `if`, or the
/// braces after an `else`), after the branches `bs`.
pub open spec fn if_parse(
    ts: Seq<TokenTree>,
    k: int,
    scope: Span,
    bs: Seq<(Option<(int, int)>, Option<int>, Seq<TemplateNodeView>)>,
) -> Result<(TemplateNodeView, int), Failed>
    decreases ts, 1int, ts.len() - k, 0int,
{
    let has_if = kw_at(ts, k, "if"@);
    let e = scan(ts, k + 1, Stop::Brace);
    if has_if && e == k + 1 {
        Err(expected_error(ts, k + 1, scope, seq!["an expression"@]))
    } else {
        let b = if has_if {
            e
        } else {
            k
        };
        match group_at(ts, b, Delimiter::Brace) {
            None => Err(expected_error(ts, b, scope, seq!["curly braces"@])),
            Some(g) => match group_nodes(g) {
                Err(e) => Err(e),
                Ok(children) => if bs.len() >= 16 {
                    Err(fail(g.span, "`if` and `else` group cannot contain more than 16 branches"@))
                } else {
                    let cond = if has_if {
                        Some((k + 1, e))
                    } else {
                        None
                    };
                    let bs2 = bs.push((cond, Some(b), children));
                    if kw_at(ts, b + 1, "else"@) {
                        if b + 2 <= k {
                            Err(stalled(scope))
                        } else {
                            if_parse(ts, b + 2, scope, bs2)
                        }
                    } else if has_if {
                        Ok((TemplateNodeView::IfElse(bs2.push((None, None, Seq::empty()))), b + 1))
                    } else {
                        Ok((TemplateNodeView::IfElse(bs2), b + 1))
                    }
                },
            },
        }
    }
}

/// A `match` block at `pos`.
pub open spec fn match_parse(ts: Seq<TokenTree>, pos: int, scope: Span) -> Result<(TemplateNodeView, int), Failed>
    decreases ts, 1int, ts.len() - pos, 0int,
{
    let e = scan(ts, pos + 1, Stop::Brace);
    if e == pos + 1 {
        Err(expected_error(ts, pos + 1, scope, seq!["an expression"@]))
    } else {
        match group_at(ts, e, Delimiter::Brace) {
            None => Err(expected_error(ts, e, scope, seq!["curly braces"@])),
            Some(g) => match match_body(g) {
                Err(err) => Err(err),
                Ok(arms) => Ok((TemplateNodeView::Match { expr: (pos + 1, e), braces: e, arms }, e + 1)),
            },
        }
    }
}

/// The arms in the braces `g` of a `match`.
pub open spec fn match_body(g: Group) -> Result<
    Seq<((int, int), Option<(int, int)>, int, Seq<TemplateNodeView>)>,
    Failed,
>
    decreases g, 0int, 0int, 0int,
{
    arms_parse(g.stream@, 0, g.span_close, Seq::empty())
}

/// The arms from `k` on, after the arms `arms`.
pub open spec fn arms_parse(
    s: Seq<TokenTree>,
    k: int,
    scope: Span,
    arms: Seq<((int, int), Option<(int, int)>, int, Seq<TemplateNodeView>)>,
) -> Result<Seq<((int, int), Option<(int, int)>, int, Seq<TemplateNodeView>)>, Failed>
    decreases s, 1int, s.len() - k, 0int,
{
    if k >= s.len() {
        Ok(arms)
    } else {
        let pe = scan(s, k, Stop::PatEnd);
        if pe == k {
            Err(expected_error(s, k, scope, seq!["a pattern"@]))
        } else {
            let ge = scan(s, pe + 1, Stop::Arrow);
            let has_guard = kw_at(s, pe, "if"@);
            if has_guard && ge == pe + 1 {
                Err(expected_error(s, pe + 1, scope, seq!["an expression"@]))
            } else {
                let a = if has_guard {
                    ge
                } else {
                    pe
                };
                if !arrow_at(s, a) {
                    Err(fail(span_at(s, a, scope), "expected `=>`"@))
                } else {
                    match group_at(s, a + 2, Delimiter::Brace) {
                        None => Err(expected_error(s, a + 2, scope, seq!["curly braces"@])),
                        Some(g) => match group_nodes(g) {
                            Err(e) => Err(e),
                            Ok(children) => if arms.len() >= 16 {
                                Err(fail(g.span, "`match` cannot contain more than 16 branches"@))
                            } else {
                                let guard = if has_guard {
                                    Some((pe + 1, ge))
                                } else {
                                    None
                                };
                                let next = if punct_at(s, a + 3, ',') {
                                    a + 4
                                } else {
                                    a + 3
                                };
                                if next <= k {
                                    Err(stalled(scope))
                                } else {
                                    arms_parse(s, next, scope, arms.push(((k, pe), guard, a + 2, children)))
                                }
                            },
                        },
                    }
                }
            }
        }
    }
}

/// The key of a `for` loop after its `use` at `u`, the pattern being the
/// tokens from `pos + 1` up to `pe`: the parentheses of its expression (or
/// none for the pattern itself), the path of its type, and the position
/// after it.
pub open spec fn for_key_parse(ts: Seq<TokenTree>, pos: int, pe: int, u: int, scope: Span) -> Result<
    ((Option<int>, (bool, Seq<Seq<char>>)), int),
    Failed,
> {
    if group_at(ts, u + 1, Delimiter::Parenthesis) is Some {
        let g = group_at(ts, u + 1, Delimiter::Parenthesis)->0;
        if g.stream@.len() == 0 {
            Err(fail(g.span_close, "unexpected end of input, expected an expression"@))
        } else {
            match path_parse(ts, u + 2, scope) {
                Err(e) => Err(e),
                Ok(p) => Ok(((Some(u + 1), p.value), p.next)),
            }
        }
    } else if pe == pos + 2 && var_at(ts, pos + 1) is Some {
        match path_parse(ts, u + 1, scope) {
            Err(e) => Err(e),
            Ok(p) => Ok(((None, p.value), p.next)),
        }
    } else {
        Err(expected_error(ts, u + 1, scope, seq!["parentheses"@]))
    }
}

/// A `for` loop at `pos`.
pub open spec fn for_parse(ts: Seq<TokenTree>, pos: int, scope: Span) -> Result<(TemplateNodeView, int), Failed>
    decreases ts, 1int, ts.len() - pos, 0int,
{
    let pe = scan(ts, pos + 1, Stop::In);
    if pe == pos + 1 {
        Err(expected_error(ts, pos + 1, scope, seq!["a pattern"@]))
    } else if !kw_at(ts, pe, "in"@) {
        Err(expected_error(ts, pe, scope, seq!["`in`"@]))
    } else {
        let ee = scan(ts, pe + 1, Stop::UseOrBrace);
        if ee == pe + 1 {
            Err(expected_error(ts, pe + 1, scope, seq!["an expression"@]))
        } else {
            let key: Result<(Option<(Option<int>, (bool, Seq<Seq<char>>))>, int), Failed> = if kw_at(
                ts,
                ee,
                "use"@,
            ) {
                match for_key_parse(ts, pos, pe, ee, scope) {
                    Err(e) => Err(e),
                    Ok((k, n)) => Ok((Some(k), n)),
                }
            } else {
                Ok((None, ee))
            };
            match key {
                Err(e) => Err(e),
                Ok((key, b)) => match group_at(ts, b, Delimiter::Brace) {
                    None => Err(expected_error(ts, b, scope, seq!["curly braces"@])),
                    Some(g) => match group_nodes(g) {
                        Err(e) => Err(e),
                        Ok(children) => Ok(
                            (
                                TemplateNodeView::ForLoop {
                                    pat: (pos + 1, pe),
                                    expr: (pe + 1, ee),
                                    key,
                                    braces: b,
                                    children,
                                },
                                b + 1,
                            ),
                        ),
                    },
                },
            }
        }
    }
}

/// A node of a template; tokens by their positions.
pub enum TemplateNode {
    StaticText(usize),
    DynamicText(usize),
    Slot { tag: usize, data: Option<TemplateAttribute> },
    Tag {
        tag: usize,
        path: (bool, Vec<String>),
        slot_var_name: Option<usize>,
        attrs: Vec<TemplateAttribute>,
        children: Vec<TemplateNode>,
    },
    IfElse(Vec<(Option<(usize, usize)>, Option<usize>, Vec<TemplateNode>)>),
    Match {
        expr: (usize, usize),
        braces: usize,
        arms: Vec<((usize, usize), Option<(usize, usize)>, usize, Vec<TemplateNode>)>,
    },
    ForLoop {
        pat: (usize, usize),
        expr: (usize, usize),
        key: Option<(Option<usize>, (bool, Vec<String>))>,
        braces: usize,
        children: Vec<TemplateNode>,
    },
}

/// A path by its view.
pub open spec fn path_view(p: (bool, Vec<String>)) -> (bool, Seq<Seq<char>>) {
    (p.0, p.1@.map_values(|s: String| s@))
}

/// A range of positions as integers.
pub open spec fn range_view(r: (usize, usize)) -> (int, int) {
    (r.0 as int, r.1 as int)
}

/// An optional range of positions as integers.
pub open spec fn opt_range_view(r: Option<(usize, usize)>) -> Option<(int, int)> {
    match r {
        Some(x) => Some(range_view(x)),
        None => None,
    }
}

/// An optional position as an integer.
pub open spec fn opt_pos_view(p: Option<usize>) -> Option<int> {
    match p {
        Some(x) => Some(x as int),
        None => None,
    }
}

/// Attributes by their views.
pub open spec fn attrs_view(v: Seq<TemplateAttribute>) -> Seq<TemplateAttrView> {
    v.map_values(|a: TemplateAttribute| a@)
}

/// The view of a node.
pub open spec fn node_view(n: TemplateNode) -> TemplateNodeView
    decreases n,
{
    match n {
        TemplateNode::StaticText(p) => TemplateNodeView::StaticText(p as int),
        TemplateNode::DynamicText(p) => TemplateNodeView::DynamicText(p as int),
        TemplateNode::Slot { tag, data } => TemplateNodeView::Slot {
            tag: tag as int,
            data: match data {
                Some(a) => Some(a@),
                None => None,
            },
        },
        TemplateNode::Tag { tag, path, slot_var_name, attrs, children } => TemplateNodeView::Tag {
            tag: tag as int,
            path: path_view(path),
            slot_var_name: opt_pos_view(slot_var_name),
            attrs: attrs_view(attrs@),
            children: nodes_view(children@),
        },
        TemplateNode::IfElse(bs) => TemplateNodeView::IfElse(branches_view(bs@)),
        TemplateNode::Match { expr, braces, arms } => TemplateNodeView::Match {
            expr: range_view(expr),
            braces: braces as int,
            arms: arms_view(arms@),
        },
        TemplateNode::ForLoop { pat, expr, key, braces, children } => TemplateNodeView::ForLoop {
            pat: range_view(pat),
            expr: range_view(expr),
            key: match key {
                Some((k, p)) => Some((opt_pos_view(k), path_view(p))),
                None => None,
            },
            braces: braces as int,
            children: nodes_view(children@),
        },
    }
}

/// The views of nodes.
pub open spec fn nodes_view(s: Seq<TemplateNode>) -> Seq<TemplateNodeView>
    decreases s,
{
    if s.len() == 0 {
        Seq::empty()
    } else {
        nodes_view(s.subrange(0, s.len() - 1)).push(node_view(s[s.len() - 1]))
    }
}

/// The views of the branches of an `if`/`else` chain.
pub open spec fn branches_view(s: Seq<(Option<(usize, usize)>, Option<usize>, Vec<TemplateNode>)>) -> Seq<
    (Option<(int, int)>, Option<int>, Seq<TemplateNodeView>),
>
    decreases s,
{
    if s.len() == 0 {
        Seq::empty()
    } else {
        let b = s[s.len() - 1];
        branches_view(s.subrange(0, s.len() - 1)).push(
            (opt_range_view(b.0), opt_pos_view(b.1), nodes_view(b.2@)),
        )
    }
}

/// The views of the arms of a `match`.
pub open spec fn arms_view(s: Seq<((usize, usize), Option<(usize, usize)>, usize, Vec<TemplateNode>)>) -> Seq<
    ((int, int), Option<(int, int)>, int, Seq<TemplateNodeView>),
>
    decreases s,
{
    if s.len() == 0 {
        Seq::empty()
    } else {
        let a = s[s.len() - 1];
        arms_view(s.subrange(0, s.len() - 1)).push(
            (range_view(a.0), opt_range_view(a.1), a.2 as int, nodes_view(a.3@)),
        )
    }
}

impl View for TemplateNode {
    type V = TemplateNodeView;

    open spec fn view(&self) -> TemplateNodeView {
        node_view(*self)
    }
}

/// The views of nodes, one by one.
proof fn lemma_nodes_view(s: Seq<TemplateNode>)
    ensures
        nodes_view(s).len() == s.len(),
        forall|i: int| 0 <= i < s.len() ==> #[trigger] nodes_view(s)[i] == node_view(s[i]),
    decreases s.len(),
{
    if s.len() > 0 {
        lemma_nodes_view(s.subrange(0, s.len() - 1));
    }
}

proof fn lemma_branches_len(s: Seq<(Option<(usize, usize)>, Option<usize>, Vec<TemplateNode>)>)
    ensures
        branches_view(s).len() == s.len(),
    decreases s.len(),
{
    if s.len() > 0 {
        lemma_branches_len(s.subrange(0, s.len() - 1));
    }
}

proof fn lemma_arms_len(s: Seq<((usize, usize), Option<(usize, usize)>, usize, Vec<TemplateNode>)>)
    ensures
        arms_view(s).len() == s.len(),
    decreases s.len(),
{
    if s.len() > 0 {
        lemma_arms_len(s.subrange(0, s.len() - 1));
    }
}

/// Putting a node in front of others.
proof fn lemma_nodes_view_prepend(x: TemplateNode, s: Seq<TemplateNode>)
    ensures
        nodes_view(seq![x] + s) == seq![node_view(x)] + nodes_view(s),
{
    lemma_nodes_view(seq![x] + s);
    lemma_nodes_view(s);
    assert(nodes_view(seq![x] + s) =~= seq![node_view(x)] + nodes_view(s));
}

/// A path has at least one segment.
proof fn lemma_path_segments_nonempty(ts: Seq<TokenTree>, pos: int, scope: Span, first: bool)
    ensures
        crate::style_items::path_segments(ts, pos, scope, first) matches Ok(p) ==> p.value.len() >= 1,
    decreases ts.len() + 3 - pos,
{
    if crate::style_items::path_ident_at(ts, pos) is Some && crate::token_parse::puncts_match(
        ts,
        pos + 1,
        "::"@,
    ) {
        lemma_path_segments_nonempty(ts, pos + 3, scope, false);
    }
}

fn stops(ts: &Vec<TokenTree>, pos: usize, k: Stop) -> (r: bool)
    requires
        pos < ts@.len(),
    ensures
        r == stops_at(ts@, pos as int, k),
{
    let is_kw = |name: &str| -> (b: bool)
        ensures
            b == kw_at(ts@, pos as int, name@),
        {
            match &ts[pos] {
                TokenTree::Ident(i) => str_eq(i.name.as_str(), name),
                _ => false,
            }
        };
    let len = ts.len();
    assert(pos + 1 <= len);
    let brace = group_ref(ts, pos, Delimiter::Brace).is_some();
    let arrow = match &ts[pos] {
        TokenTree::Punct(p) => p.ch == '=' && p.joint && is_punct(ts, pos + 1, '>'),
        _ => false,
    };
    match k {
        Stop::Brace => brace,
        Stop::In => is_kw("in"),
        Stop::UseOrBrace => is_kw("use") || brace,
        Stop::PatEnd => is_kw("if") || arrow,
        Stop::Arrow => arrow,
    }
}

fn scan_at(ts: &Vec<TokenTree>, pos: usize, k: Stop) -> (r: usize)
    requires
        pos <= ts@.len(),
    ensures
        r == scan(ts@, pos as int, k),
        pos <= r <= ts@.len(),
{
    let mut i = pos;
    while i < ts.len() && !stops(ts, i, k)
        invariant
            pos <= i <= ts@.len(),
            scan(ts@, i as int, k) == scan(ts@, pos as int, k),
        decreases ts@.len() - i,
    {
        i = i + 1;
    }
    i
}

fn kw_is(ts: &Vec<TokenTree>, pos: usize, name: &str) -> (r: bool)
    ensures
        r == kw_at(ts@, pos as int, name@),
{
    if pos < ts.len() {
        match &ts[pos] {
            TokenTree::Ident(i) => str_eq(i.name.as_str(), name),
            _ => false,
        }
    } else {
        false
    }
}

fn var_is(ts: &Vec<TokenTree>, pos: usize) -> (r: bool)
    ensures
        r == (var_at(ts@, pos as int) is Some),
{
    if pos < ts.len() {
        match &ts[pos] {
            TokenTree::Ident(i) => !i.keyword,
            _ => false,
        }
    } else {
        false
    }
}

fn close_gt_at(ts: &Vec<TokenTree>, pos: usize, scope: Span) -> (r: Result<usize, ParseError>)
    ensures
        match close_gt(ts@, pos as int, scope) {
            Ok(n) => r == Ok::<usize, ParseError>(n as usize),
            Err(f) => r matches Err(e) && e.span == f.span && e.message@ == f.message,
        },
{
    let len = ts.len();
    if is_punct(ts, pos, '>') {
        assert(pos < len);
        Ok(pos + 1)
    } else {
        Err(ParseError::new(error_span_at(ts, pos, scope), "expected `>`"))
    }
}

fn end_tag_at(ts: &Vec<TokenTree>, q: usize, scope: Span, short: &String) -> (r: Result<usize, ParseError>)
    ensures
        match end_tag_parse(ts@, q as int, scope, short@) {
            Ok(n) => r == Ok::<usize, ParseError>(n as usize),
            Err(f) => r matches Err(e) && e.span == f.span && e.message@ == f.message,
        },
{
    if kw_is(ts, q, "_") {
        proof {
            reveal_strlit("_");
        }
        if q >= ts.len() {
            return Err(ParseError::new(scope, "expected `>`"));
        }
        return close_gt_at(ts, q + 1, scope);
    }
    proof {
        reveal_strlit("_");
    }
    match path_at(ts, q, scope) {
        Err(e) => Err(e),
        Ok(((lead, segs), next)) => {
            if !lead && segs.len() == 1 && str_eq(segs[0].as_str(), short.as_str()) {
                assert(segs@.map_values(|s: String| s@) =~= seq![short@]);
                close_gt_at(ts, next, scope)
            } else {
                proof {
                    if !lead && segs@.map_values(|s: String| s@) == seq![short@] {
                        assert(segs@.len() == 1);
                        assert(segs@.map_values(|s: String| s@)[0] == segs@[0]@);
                    }
                }
                Err(
                    ParseError::new(
                        error_span_at(ts, q, scope),
                        "End tag name does not match the start tag name (consider use `_` instead?)",
                    ),
                )
            }
        },
    }
}

/// The error a slot's attribute at `t` gives, if any.
fn slot_attr_error_at(ts: &Vec<TokenTree>, t: usize, a: &TemplateAttribute) -> (r: Option<ParseError>)
    requires
        t < ts@.len(),
        ts@[t as int] is Ident,
        match a@ {
            TemplateAttrView::Property { name, .. } => name == t,
            TemplateAttrView::EventHandler { name, .. } => name == t,
            TemplateAttrView::Slot { name, .. } => name == t,
        },
    ensures
        match slot_attr_error(ts@, a@) {
            Some(f) => r matches Some(e) && e.span == f.span && e.message@ == f.message,
            None => r is None,
        },
{
    let (span, name) = match &ts[t] {
        TokenTree::Ident(i) => (i.span, i.name.as_str()),
        _ => {
            return None;
        },
    };
    match a {
        TemplateAttribute::Property { list_updater, .. } => {
            proof {
                reveal_strlit("data");
            }
            if !str_eq(name, "data") {
                Some(
                    ParseError::new(
                        span,
                        "The slot element cannot contain attributes other than `data`",
                    ),
                )
            } else if list_updater.is_some() {
                Some(ParseError::new(span, "Illegal slot `data` attribute"))
            } else {
                None
            }
        },
        _ => Some(ParseError::new(span, "Illegal slot element attribute value")),
    }
}

/// A slot element at `pos`, its path read up to `t`.
fn slot_at(ts: &Vec<TokenTree>, pos: usize, t: usize, scope: Span) -> (r: Result<(TemplateNode, usize), ParseError>)
    ensures
        match slot_parse(ts@, pos as int, t as int, scope) {
            Ok((n, next)) => r matches Ok((x, m)) && x@ == n && m == next,
            Err(f) => r matches Err(e) && e.span == f.span && e.message@ == f.message,
        },
{
    let (data, u) = if t < ts.len() && var_is(ts, t) {
        match TemplateAttribute::parse(ts, t, scope) {
            Err(e) => {
                return Err(e);
            },
            Ok((a, next)) => {
                match slot_attr_error_at(ts, t, &a) {
                    Some(e) => {
                        return Err(e);
                    },
                    None => (Some(a), next),
                }
            },
        }
    } else {
        (None, t)
    };
    assert(var_at(ts@, t as int) is Some <==> data is Some);
    if is_punct(ts, u, '/') {
        if u >= ts.len() {
            return Err(ParseError::new(scope, "expected `>`"));
        }
        return match close_gt_at(ts, u + 1, scope) {
            Err(e) => Err(e),
            Ok(n) => Ok((TemplateNode::Slot { tag: pos, data }, n)),
        };
    }
    if is_punct(ts, u, '>') {
        assert(u < ts.len());
        if !is_punct(ts, u + 1, '<') {
            return Err(ParseError::new(error_span_at(ts, u + 1, scope), "expected `<`"));
        }
        if !is_punct(ts, u + 2, '/') {
            return Err(ParseError::new(error_span_at(ts, u + 2, scope), "expected `/`"));
        }
        let short = crate::text::to_owned_string("slot");
        return match end_tag_at(ts, u + 3, scope, &short) {
            Err(e) => Err(e),
            Ok(n) => Ok((TemplateNode::Slot { tag: pos, data }, n)),
        };
    }
    let kinds = vec!["`/`", "`>`"];
    assert(kinds_view(kinds@) =~= seq!["`/`"@, "`>`"@]);
    Err(expected_error_at(ts, u, scope, &kinds))
}

/// The attributes of an element from `pos` on.
fn tag_attrs_at(ts: &Vec<TokenTree>, pos: usize, scope: Span, slot: Option<usize>) -> (r: Result<
    (Vec<TemplateAttribute>, Option<usize>, usize),
    ParseError,
>)
    ensures
        match tag_attrs_parse(ts@, pos as int, scope, opt_pos_view(slot)) {
            Ok((attrs, sv, u)) => r matches Ok((x, y, n)) && attrs_view(x@) == attrs && opt_pos_view(y)
                == sv && n == u,
            Err(f) => r matches Err(e) && e.span == f.span && e.message@ == f.message,
        },
    decreases ts@.len() - pos,
{
    if !var_is(ts, pos) {
        let v: Vec<TemplateAttribute> = Vec::new();
        assert(attrs_view(v@) =~= Seq::<TemplateAttrView>::empty());
        return Ok((v, slot, pos));
    }
    let (a, next) = match TemplateAttribute::parse(ts, pos, scope) {
        Err(e) => {
            return Err(e);
        },
        Ok(x) => x,
    };
    if next <= pos || next > ts.len() {
        proof {
            reveal_strlit("");
        }
        return Err(ParseError::new(scope, ""));
    }
    match a {
        TemplateAttribute::Slot { name, var_name } => {
            if slot.is_some() {
                let span = match &ts[name] {
                    TokenTree::Ident(i) => i.span,
                    _ => scope,
                };
                return Err(ParseError::new(span, "Duplicated `slot` attribute"));
            }
            tag_attrs_at(ts, next, scope, Some(var_name))
        },
        _ => {
            let ghost av = a@;
            match tag_attrs_at(ts, next, scope, slot) {
                Err(e) => Err(e),
                Ok((mut rest, sv, u)) => {
                    let ghost rv = attrs_view(rest@);
                    rest.insert(0, a);
                    assert(attrs_view(rest@) =~= seq![av] + rv);
                    Ok((rest, sv, u))
                },
            }
        },
    }
}

/// The nodes in the braces `g`.
fn group_nodes_at(g: &Group) -> (r: Result<Vec<TemplateNode>, ParseError>)
    ensures
        match group_nodes(*g) {
            Ok(ns) => r matches Ok(x) && nodes_view(x@) == ns,
            Err(f) => r matches Err(e) && e.span == f.span && e.message@ == f.message,
        },
    decreases g, 0int, 0int, 0int,
{
    match nodes_at(&g.stream, 0, g.span_close) {
        Err(e) => Err(e),
        Ok((ns, _)) => Ok(ns),
    }
}

/// The nodes from `pos` to the end.
fn nodes_at(ts: &Vec<TokenTree>, pos: usize, scope: Span) -> (r: Result<(Vec<TemplateNode>, usize), ParseError>)
    ensures
        match nodes_parse(ts@, pos as int, scope) {
            Ok((ns, e)) => r matches Ok((x, n)) && nodes_view(x@) == ns && n == e,
            Err(f) => r matches Err(e) && e.span == f.span && e.message@ == f.message,
        },
    decreases ts, 1int, ts@.len() - pos, 2int,
{
    if pos >= ts.len() {
        let v: Vec<TemplateNode> = Vec::new();
        assert(nodes_view(v@) =~= Seq::<TemplateNodeView>::empty());
        return Ok((v, pos));
    }
    let (n, next) = match node_at(ts, pos, scope) {
        Err(e) => {
            return Err(e);
        },
        Ok(x) => x,
    };
    if next <= pos || next > ts.len() {
        proof {
            reveal_strlit("");
        }
        return Err(ParseError::new(scope, ""));
    }
    match nodes_at(ts, next, scope) {
        Err(e) => Err(e),
        Ok((mut rest, e)) => {
            let ghost r0 = rest@;
            let ghost nv = node_view(n);
            rest.insert(0, n);
            proof {
                assert(rest@ =~= seq![rest@[0]] + r0);
                lemma_nodes_view_prepend(rest@[0], r0);
            }
            Ok((rest, e))
        },
    }
}

/// The children of an element from `pos` up to its end tag.
fn children_at(ts: &Vec<TokenTree>, pos: usize, scope: Span) -> (r: Result<(Vec<TemplateNode>, usize), ParseError>)
    ensures
        match children_parse(ts@, pos as int, scope) {
            Ok((ns, c)) => r matches Ok((x, n)) && nodes_view(x@) == ns && n == c,
            Err(f) => r matches Err(e) && e.span == f.span && e.message@ == f.message,
        },
    decreases ts, 1int, ts@.len() - pos, 3int,
{
    let len = ts.len();
    if is_punct(ts, pos, '<') && is_punct(ts, pos + 1, '/') {
        let v: Vec<TemplateNode> = Vec::new();
        assert(nodes_view(v@) =~= Seq::<TemplateNodeView>::empty());
        return Ok((v, pos));
    }
    let (n, next) = match node_at(ts, pos, scope) {
        Err(e) => {
            return Err(e);
        },
        Ok(x) => x,
    };
    if next <= pos || next > ts.len() {
        proof {
            reveal_strlit("");
        }
        return Err(ParseError::new(scope, ""));
    }
    match children_at(ts, next, scope) {
        Err(e) => Err(e),
        Ok((mut rest, c)) => {
            let ghost r0 = rest@;
            rest.insert(0, n);
            proof {
                assert(rest@ =~= seq![rest@[0]] + r0);
                lemma_nodes_view_prepend(rest@[0], r0);
            }
            Ok((rest, c))
        },
    }
}

impl TemplateNode {
    /// The node at `pos`, and the position after it.
    pub fn parse(ts: &Vec<TokenTree>, pos: usize, scope: Span) -> (r: Result<(TemplateNode, usize), ParseError>)
        ensures
            match node_parse(ts@, pos as int, scope) {
                Ok((n, next)) => r matches Ok((x, m)) && x@ == n && m == next,
                Err(f) => r matches Err(e) && e.span == f.span && e.message@ == f.message,
            },
    {
        node_at(ts, pos, scope)
    }
}

/// The nodes of a template: all its tokens, one node after another.
pub fn parse_template(ts: &Vec<TokenTree>, scope: Span) -> (r: Result<Vec<TemplateNode>, ParseError>)
    ensures
        match nodes_parse(ts@, 0, scope) {
            Ok((ns, _)) => r matches Ok(x) && nodes_view(x@) == ns,
            Err(f) => r matches Err(e) && e.span == f.span && e.message@ == f.message,
        },
{
    match nodes_at(ts, 0, scope) {
        Err(e) => Err(e),
        Ok((ns, _)) => Ok(ns),
    }
}

fn node_at(ts: &Vec<TokenTree>, pos: usize, scope: Span) -> (r: Result<(TemplateNode, usize), ParseError>)
    ensures
        match node_parse(ts@, pos as int, scope) {
            Ok((n, next)) => r matches Ok((x, m)) && node_view(x) == n && m == next,
            Err(f) => r matches Err(e) && e.span == f.span && e.message@ == f.message,
        },
    decreases ts, 1int, ts@.len() - pos, 1int,
{
    let len = ts.len();
    if pos < len {
        if let TokenTree::Literal(l) = &ts[pos] {
            if let crate::token_parse::Literal::Str(_) = &l.lit {
                return Ok((TemplateNode::StaticText(pos), pos + 1));
            }
        }
    }
    if let Some(g) = group_ref(ts, pos, Delimiter::Brace) {
        if g.stream.len() == 0 {
            return Err(ParseError::new(g.span_close, "unexpected end of input, expected an expression"));
        }
        return Ok((TemplateNode::DynamicText(pos), pos + 1));
    }
    if is_punct(ts, pos, '<') {
        return tag_at(ts, pos, scope);
    }
    if kw_is(ts, pos, "if") {
        proof {
            reveal_strlit("if");
        }
        return if_at(ts, pos, scope, Vec::new());
    }
    if kw_is(ts, pos, "match") {
        proof {
            reveal_strlit("if");
            reveal_strlit("match");
        }
        return match_at(ts, pos, scope);
    }
    if kw_is(ts, pos, "for") {
        proof {
            reveal_strlit("if");
            reveal_strlit("match");
            reveal_strlit("for");
        }
        return for_at(ts, pos, scope);
    }
    proof {
        reveal_strlit("if");
        reveal_strlit("match");
        reveal_strlit("for");
    }
    let kinds = vec!["string literal", "curly braces", "`<`", "`if`", "`match`", "`for`"];
    assert(kinds_view(kinds@) =~= node_kinds());
    Err(expected_error_at(ts, pos, scope, &kinds))
}

fn tag_at(ts: &Vec<TokenTree>, pos: usize, scope: Span) -> (r: Result<(TemplateNode, usize), ParseError>)
    requires
        punct_at(ts@, pos as int, '<'),
    ensures
        match tag_parse(ts@, pos as int, scope) {
            Ok((n, next)) => r matches Ok((x, m)) && node_view(x) == n && m == next,
            Err(f) => r matches Err(e) && e.span == f.span && e.message@ == f.message,
        },
    decreases ts, 1int, ts@.len() - pos, 0int,
{
    let len = ts.len();
    assert(pos < len);
    let (path, t) = match path_at(ts, pos + 1, scope) {
        Err(e) => {
            return Err(e);
        },
        Ok(x) => x,
    };
    proof {
        reveal_strlit("slot");
        let lead = crate::token_parse::puncts_match(ts@, pos + 1, "::"@);
        lemma_path_segments_nonempty(ts@, if lead { pos + 3 } else { pos + 1 }, scope, true);
    }
    let ghost pv = path_view(path);
    assert(path.1@.len() >= 1);
    if !path.0 && path.1.len() == 1 && str_eq(path.1[0].as_str(), "slot") {
        assert(pv.1 =~= seq!["slot"@]);
        return slot_at(ts, pos, t, scope);
    }
    proof {
        if !pv.0 && pv.1 == seq!["slot"@] {
            assert(pv.1[0] == path.1@[0]@);
        }
    }
    let (attrs, slot_var_name, u) = match tag_attrs_at(ts, t, scope, None) {
        Err(e) => {
            return Err(e);
        },
        Ok(x) => x,
    };
    if is_punct(ts, u, '/') {
        assert(u < len);
        return match close_gt_at(ts, u + 1, scope) {
            Err(e) => Err(e),
            Ok(n) => {
                let children: Vec<TemplateNode> = Vec::new();
                assert(nodes_view(children@) =~= Seq::<TemplateNodeView>::empty());
                Ok((TemplateNode::Tag { tag: pos, path, slot_var_name, attrs, children }, n))
            },
        };
    }
    if is_punct(ts, u, '>') {
        assert(u < len);
        if u + 1 <= pos {
            proof {
            reveal_strlit("");
        }
        return Err(ParseError::new(scope, ""));
        }
        let (children, c) = match children_at(ts, u + 1, scope) {
            Err(e) => {
                return Err(e);
            },
            Ok(x) => x,
        };
        let short = &path.1[path.1.len() - 1];
        assert(short@ == pv.1.last());
        proof {
            lemma_children_end(ts@, (u + 1) as int, scope);
        }
        assert(c + 1 < len);
        return match end_tag_at(ts, c + 2, scope, short) {
            Err(e) => Err(e),
            Ok(n) => Ok((TemplateNode::Tag { tag: pos, path, slot_var_name, attrs, children }, n)),
        };
    }
    let kinds = vec!["identifier", "`/`", "`>`"];
    assert(kinds_view(kinds@) =~= seq!["identifier"@, "`/`"@, "`>`"@]);
    Err(expected_error_at(ts, u, scope, &kinds))
}

/// Children end at a `<` followed by `/`.
proof fn lemma_children_end(ts: Seq<TokenTree>, pos: int, scope: Span)
    ensures
        children_parse(ts, pos, scope) matches Ok((_, c)) ==> punct_at(ts, c, '<') && punct_at(
            ts,
            c + 1,
            '/',
        ),
    decreases ts.len() - pos,
{
    if !(punct_at(ts, pos, '<') && punct_at(ts, pos + 1, '/')) {
        if let Ok((_, next)) = node_parse(ts, pos, scope) {
            if !(next <= pos || next > ts.len()) {
                lemma_children_end(ts, next, scope);
            }
        }
    }
}

fn if_at(
    ts: &Vec<TokenTree>,
    k: usize,
    scope: Span,
    bs: Vec<(Option<(usize, usize)>, Option<usize>, Vec<TemplateNode>)>,
) -> (r: Result<(TemplateNode, usize), ParseError>)
    requires
        k <= ts@.len(),
    ensures
        match if_parse(ts@, k as int, scope, branches_view(bs@)) {
            Ok((n, next)) => r matches Ok((x, m)) && node_view(x) == n && m == next,
            Err(f) => r matches Err(e) && e.span == f.span && e.message@ == f.message,
        },
    decreases ts, 1int, ts@.len() - k, 0int,
{
    let len = ts.len();
    let has_if = kw_is(ts, k, "if");
    let e = if has_if {
        scan_at(ts, k + 1, Stop::Brace)
    } else {
        k
    };
    if has_if && e == k + 1 {
        let kinds = vec!["an expression"];
        assert(kinds_view(kinds@) =~= seq!["an expression"@]);
        return Err(expected_error_at(ts, k + 1, scope, &kinds));
    }
    let b = if has_if {
        e
    } else {
        k
    };
    let g = match group_ref(ts, b, Delimiter::Brace) {
        None => {
            let kinds = vec!["curly braces"];
            assert(kinds_view(kinds@) =~= seq!["curly braces"@]);
            return Err(expected_error_at(ts, b, scope, &kinds));
        },
        Some(g) => g,
    };
    proof {
        assert(decreases_to!(ts => ts@[b as int]));
    }
    let children = match group_nodes_at(g) {
        Err(e) => {
            return Err(e);
        },
        Ok(c) => c,
    };
    proof {
        lemma_branches_len(bs@);
    }
    if bs.len() >= 16 {
        return Err(ParseError::new(g.span, "`if` and `else` group cannot contain more than 16 branches"));
    }
    let cond = if has_if {
        Some((k + 1, e))
    } else {
        None
    };
    let ghost b0 = bs@;
    let mut bs = bs;
    bs.push((cond, Some(b), children));
    proof {
        assert(bs@.subrange(0, bs@.len() - 1) =~= b0);
        assert(branches_view(bs@) == branches_view(b0).push(
            (opt_range_view(cond), Some(b as int), nodes_view(bs@[bs@.len() - 1].2@)),
        ));
    }
    if kw_is(ts, b + 1, "else") {
        if b + 2 <= k {
            proof {
            reveal_strlit("");
        }
        return Err(ParseError::new(scope, ""));
        }
        return if_at(ts, b + 2, scope, bs);
    }
    if has_if {
        let empty: Vec<TemplateNode> = Vec::new();
        let ghost b1 = bs@;
        bs.push((None, None, empty));
        proof {
            assert(bs@.subrange(0, bs@.len() - 1) =~= b1);
            assert(nodes_view(empty@) =~= Seq::<TemplateNodeView>::empty());
        }
    }
    Ok((TemplateNode::IfElse(bs), b + 1))
}

fn match_at(ts: &Vec<TokenTree>, pos: usize, scope: Span) -> (r: Result<(TemplateNode, usize), ParseError>)
    requires
        pos < ts@.len(),
    ensures
        match match_parse(ts@, pos as int, scope) {
            Ok((n, next)) => r matches Ok((x, m)) && node_view(x) == n && m == next,
            Err(f) => r matches Err(e) && e.span == f.span && e.message@ == f.message,
        },
    decreases ts, 1int, ts@.len() - pos, 0int,
{
    let len = ts.len();
    let e = scan_at(ts, pos + 1, Stop::Brace);
    if e == pos + 1 {
        let kinds = vec!["an expression"];
        assert(kinds_view(kinds@) =~= seq!["an expression"@]);
        return Err(expected_error_at(ts, pos + 1, scope, &kinds));
    }
    let g = match group_ref(ts, e, Delimiter::Brace) {
        None => {
            let kinds = vec!["curly braces"];
            assert(kinds_view(kinds@) =~= seq!["curly braces"@]);
            return Err(expected_error_at(ts, e, scope, &kinds));
        },
        Some(g) => g,
    };
    proof {
        assert(decreases_to!(ts => ts@[e as int]));
    }
    assert(e < len);
    match match_body_at(g) {
        Err(err) => Err(err),
        Ok(arms) => Ok((TemplateNode::Match { expr: (pos + 1, e), braces: e, arms }, e + 1)),
    }
}

fn match_body_at(g: &Group) -> (r: Result<
    Vec<((usize, usize), Option<(usize, usize)>, usize, Vec<TemplateNode>)>,
    ParseError,
>)
    ensures
        match match_body(*g) {
            Ok(arms) => r matches Ok(x) && arms_view(x@) == arms,
            Err(f) => r matches Err(e) && e.span == f.span && e.message@ == f.message,
        },
    decreases g, 0int, 0int, 0int,
{
    let arms: Vec<((usize, usize), Option<(usize, usize)>, usize, Vec<TemplateNode>)> = Vec::new();
    assert(arms_view(arms@) =~= Seq::empty());
    arms_at(&g.stream, 0, g.span_close, arms)
}

fn arms_at(
    s: &Vec<TokenTree>,
    k: usize,
    scope: Span,
    arms: Vec<((usize, usize), Option<(usize, usize)>, usize, Vec<TemplateNode>)>,
) -> (r: Result<Vec<((usize, usize), Option<(usize, usize)>, usize, Vec<TemplateNode>)>, ParseError>)
    ensures
        match arms_parse(s@, k as int, scope, arms_view(arms@)) {
            Ok(av) => r matches Ok(x) && arms_view(x@) == av,
            Err(f) => r matches Err(e) && e.span == f.span && e.message@ == f.message,
        },
    decreases s, 1int, s@.len() - k, 0int,
{
    let len = s.len();
    if k >= len {
        return Ok(arms);
    }
    let pe = scan_at(s, k, Stop::PatEnd);
    if pe == k {
        let kinds = vec!["a pattern"];
        assert(kinds_view(kinds@) =~= seq!["a pattern"@]);
        return Err(expected_error_at(s, k, scope, &kinds));
    }
    let has_guard = kw_is(s, pe, "if");
    proof {
        reveal_strlit("if");
    }
    let ge = if has_guard {
        scan_at(s, pe + 1, Stop::Arrow)
    } else {
        pe
    };
    if has_guard && ge == pe + 1 {
        let kinds = vec!["an expression"];
        assert(kinds_view(kinds@) =~= seq!["an expression"@]);
        return Err(expected_error_at(s, pe + 1, scope, &kinds));
    }
    let a = if has_guard {
        ge
    } else {
        pe
    };
    let arrow = a < len && match &s[a] {
        TokenTree::Punct(p) => p.ch == '=' && p.joint && is_punct(s, a + 1, '>'),
        _ => false,
    };
    if !arrow {
        return Err(ParseError::new(error_span_at(s, a, scope), "expected `=>`"));
    }
    let g = match group_ref(s, a + 2, Delimiter::Brace) {
        None => {
            let kinds = vec!["curly braces"];
            assert(kinds_view(kinds@) =~= seq!["curly braces"@]);
            return Err(expected_error_at(s, a + 2, scope, &kinds));
        },
        Some(g) => g,
    };
    proof {
        assert(decreases_to!(s => s@[a + 2]));
    }
    let children = match group_nodes_at(g) {
        Err(e) => {
            return Err(e);
        },
        Ok(c) => c,
    };
    proof {
        lemma_arms_len(arms@);
    }
    if arms.len() >= 16 {
        return Err(ParseError::new(g.span, "`match` cannot contain more than 16 branches"));
    }
    let guard = if has_guard {
        Some((pe + 1, ge))
    } else {
        None
    };
    let next = if is_punct(s, a + 3, ',') {
        a + 4
    } else {
        a + 3
    };
    if next <= k {
        proof {
            reveal_strlit("");
        }
        return Err(ParseError::new(scope, ""));
    }
    let ghost a0 = arms@;
    let mut arms = arms;
    arms.push(((k, pe), guard, a + 2, children));
    proof {
        assert(arms@.subrange(0, arms@.len() - 1) =~= a0);
    }
    arms_at(s, next, scope, arms)
}

fn for_key_at(ts: &Vec<TokenTree>, pos: usize, pe: usize, u: usize, scope: Span) -> (r: Result<
    ((Option<usize>, (bool, Vec<String>)), usize),
    ParseError,
>)
    requires
        pos < pe < u < ts@.len(),
    ensures
        match for_key_parse(ts@, pos as int, pe as int, u as int, scope) {
            Ok(((k, p), n)) => r matches Ok(((x, y), m)) && opt_pos_view(x) == k && path_view(y) == p
                && m == n,
            Err(f) => r matches Err(e) && e.span == f.span && e.message@ == f.message,
        },
{
    let len = ts.len();
    if let Some(g) = group_ref(ts, u + 1, Delimiter::Parenthesis) {
        if g.stream.len() == 0 {
            return Err(ParseError::new(g.span_close, "unexpected end of input, expected an expression"));
        }
        return match path_at(ts, u + 2, scope) {
            Err(e) => Err(e),
            Ok((p, n)) => Ok(((Some(u + 1), p), n)),
        };
    }
    if pe == pos + 2 && var_is(ts, pos + 1) {
        return match path_at(ts, u + 1, scope) {
            Err(e) => Err(e),
            Ok((p, n)) => Ok(((None, p), n)),
        };
    }
    let kinds = vec!["parentheses"];
    assert(kinds_view(kinds@) =~= seq!["parentheses"@]);
    Err(expected_error_at(ts, u + 1, scope, &kinds))
}

fn for_at(ts: &Vec<TokenTree>, pos: usize, scope: Span) -> (r: Result<(TemplateNode, usize), ParseError>)
    requires
        pos < ts@.len(),
    ensures
        match for_parse(ts@, pos as int, scope) {
            Ok((n, next)) => r matches Ok((x, m)) && node_view(x) == n && m == next,
            Err(f) => r matches Err(e) && e.span == f.span && e.message@ == f.message,
        },
    decreases ts, 1int, ts@.len() - pos, 0int,
{
    let len = ts.len();
    let pe = scan_at(ts, pos + 1, Stop::In);
    if pe == pos + 1 {
        let kinds = vec!["a pattern"];
        assert(kinds_view(kinds@) =~= seq!["a pattern"@]);
        return Err(expected_error_at(ts, pos + 1, scope, &kinds));
    }
    if !kw_is(ts, pe, "in") {
        proof {
            reveal_strlit("in");
        }
        let kinds = vec!["`in`"];
        assert(kinds_view(kinds@) =~= seq!["`in`"@]);
        return Err(expected_error_at(ts, pe, scope, &kinds));
    }
    proof {
        reveal_strlit("in");
    }
    let ee = scan_at(ts, pe + 1, Stop::UseOrBrace);
    if ee == pe + 1 {
        let kinds = vec!["an expression"];
        assert(kinds_view(kinds@) =~= seq!["an expression"@]);
        return Err(expected_error_at(ts, pe + 1, scope, &kinds));
    }
    let (key, b) = if kw_is(ts, ee, "use") {
        proof {
            reveal_strlit("use");
        }
        match for_key_at(ts, pos, pe, ee, scope) {
            Err(e) => {
                return Err(e);
            },
            Ok((k, n)) => (Some(k), n),
        }
    } else {
        proof {
            reveal_strlit("use");
        }
        (None, ee)
    };
    let g = match group_ref(ts, b, Delimiter::Brace) {
        None => {
            let kinds = vec!["curly braces"];
            assert(kinds_view(kinds@) =~= seq!["curly braces"@]);
            return Err(expected_error_at(ts, b, scope, &kinds));
        },
        Some(g) => g,
    };
    proof {
        assert(decreases_to!(ts => ts@[b as int]));
    }
    match group_nodes_at(g) {
        Err(e) => Err(e),
        Ok(children) => Ok(
            (TemplateNode::ForLoop { pat: (pos + 1, pe), expr: (pe + 1, ee), key, braces: b, children }, b + 1),
        ),
    }
}

} // verus!
