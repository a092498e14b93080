//! The attributes of a template element, read from the token trees of the
//! template: `name`, `name = literal`, `name = { expression }`,
//! `name = &{ expression }`, `name = @handler(arguments)`, each name
//! optionally followed by `:path` (a list updater), and `slot:name`.
//!
//! Tokens are named by their positions. An expression is taken as the
//! tokens of its braces, and the arguments of a handler as the tokens
//! between the commas of its parentheses; they are handed on as they are.
use vstd::prelude::*;

use proc_macro2::Span;

use crate::i18n_args::{punct_at, top_comma_from};
use crate::style_items::{path_at, path_parse};
use crate::text::{str_eq, to_owned_string};
use crate::token_parse::{
    expected_error, fail, lit_at, stalled, token_error_span, var_at, Delimiter, Failed, Group, TokenTree,
};
use crate::values::ParseError;

verus! {

/// The group with delimiter `d` at `pos`, if any.
pub open spec fn group_at(ts: Seq<TokenTree>, pos: int, d: Delimiter) -> Option<Group> {
    if 0 <= pos < ts.len() && ts[pos] is Group && ts[pos]->Group_0.delimiter == d {
        Some(ts[pos]->Group_0)
    } else {
        None
    }
}

/// The span that an error at `pos` is reported at: that of the token, or
/// `scope` at the end.
pub open spec fn span_at(ts: Seq<TokenTree>, pos: int, scope: Span) -> Span {
    if 0 <= pos < ts.len() {
        token_error_span(ts[pos])
    } else {
        scope
    }
}

/// An identifier at `pos`: its position, or the error of reading one.
pub open spec fn ident_parse(ts: Seq<TokenTree>, pos: int, scope: Span) -> Result<int, Failed> {
    if 0 <= pos < ts.len() && ts[pos] is Ident && ts[pos]->Ident_0.keyword {
        Err(fail(
            ts[pos]->Ident_0.span,
            "expected identifier, found keyword `"@ + ts[pos]->Ident_0.name@ + "`"@,
        ))
    } else if var_at(ts, pos) is None {
        Err(expected_error(ts, pos, scope, seq!["identifier"@]))
    } else {
        Ok(pos)
    }
}

/// The expressions of a comma-separated list in `s` from `pos` on (a last
/// comma may end it), each as the range of its tokens.
pub open spec fn expr_list_parse(s: Seq<TokenTree>, pos: int, scope: Span) -> Result<Seq<(int, int)>, Failed>
    decreases s.len() - pos,
{
    if pos >= s.len() {
        Ok(Seq::empty())
    } else {
        let end = top_comma_from(s, pos);
        if end == pos {
            Err(expected_error(s, pos, scope, seq!["an expression"@]))
        } else if end >= s.len() {
            Ok(seq![(pos, end)])
        } else if end < pos {
            Err(stalled(scope))
        } else {
            match expr_list_parse(s, end + 1, scope) {
                Ok(r) => Ok(seq![(pos, end)] + r),
                Err(e) => Err(e),
            }
        }
    }
}

/// The value of a property.
pub enum PropValueView {
    /// Given by no value: `true`.
    ImpliedTrue,
    /// The literal at this position.
    Literal(int),
    /// The expression in the braces at this position, by reference or not.
    Dynamic { by_ref: bool, braces: int },
}

/// The abstract value of a template attribute; tokens by their positions.
pub enum TemplateAttrView {
    Property { name: int, list_updater: Option<(bool, Seq<Seq<char>>)>, value: PropValueView },
    EventHandler { name: int, fn_name: int, parens: int, args: Seq<(int, int)> },
    Slot { name: int, var_name: int },
}

/// An expression in braces at `pos` (its tokens must not be empty).
pub open spec fn braced_expr_parse(ts: Seq<TokenTree>, pos: int, scope: Span) -> Result<int, Failed> {
    match group_at(ts, pos, Delimiter::Brace) {
        None => Err(expected_error(ts, pos, scope, seq!["curly braces"@])),
        Some(g) => if g.stream@.len() == 0 {
            Err(fail(g.span_close, "unexpected end of input, expected an expression"@))
        } else {
            Ok(pos)
        },
    }
}

/// The value of a property after its `=` at `v`, and the position after it.
pub open spec fn prop_value_parse(ts: Seq<TokenTree>, v: int, scope: Span) -> Result<(PropValueView, int), Failed> {
    if lit_at(ts, v) is Some {
        Ok((PropValueView::Literal(v), v + 1))
    } else if punct_at(ts, v, '&') {
        match braced_expr_parse(ts, v + 1, scope) {
            Ok(b) => Ok((PropValueView::Dynamic { by_ref: true, braces: b }, v + 2)),
            Err(e) => Err(e),
        }
    } else if group_at(ts, v, Delimiter::Brace) is Some {
        match braced_expr_parse(ts, v, scope) {
            Ok(b) => Ok((PropValueView::Dynamic { by_ref: false, braces: b }, v + 1)),
            Err(e) => Err(e),
        }
    } else {
        Err(expected_error(ts, v, scope, seq!["literal"@, "`&`"@, "curly braces"@, "`@`"@]))
    }
}

/// The template attribute at `pos`, and the position after it.
pub open spec fn template_attr_parse(ts: Seq<TokenTree>, pos: int, scope: Span) -> Result<
    (TemplateAttrView, int),
    Failed,
> {
    match var_at(ts, pos) {
        None => Err(expected_error(ts, pos, scope, seq!["identifier"@])),
        Some(n) => if n.name@ == "slot"@ {
            if !punct_at(ts, pos + 1, ':') {
                Err(fail(span_at(ts, pos + 1, scope), "expected `:`"@))
            } else {
                match ident_parse(ts, pos + 2, scope) {
                    Err(e) => Err(e),
                    Ok(v) => Ok((TemplateAttrView::Slot { name: pos, var_name: v }, pos + 3)),
                }
            }
        } else {
            let lu: Result<(Option<(bool, Seq<Seq<char>>)>, int), Failed> = if punct_at(
                ts,
                pos + 1,
                ':',
            ) {
                match path_parse(ts, pos + 2, scope) {
                    Err(e) => Err(e),
                    Ok(p) => Ok((Some(p.value), p.next)),
                }
            } else {
                Ok((None, pos + 1))
            };
            match lu {
                Err(e) => Err(e),
                Ok((list_updater, q)) => if !punct_at(ts, q, '=') {
                    Ok(
                        (
                            TemplateAttrView::Property {
                                name: pos,
                                list_updater,
                                value: PropValueView::ImpliedTrue,
                            },
                            q,
                        ),
                    )
                } else if punct_at(ts, q + 1, '@') {
                    match ident_parse(ts, q + 2, scope) {
                        Err(e) => Err(e),
                        Ok(f) => match group_at(ts, q + 3, Delimiter::Parenthesis) {
                            None => Err(expected_error(ts, q + 3, scope, seq!["parentheses"@])),
                            Some(g) => match expr_list_parse(g.stream@, 0, g.span_close) {
                                Err(e) => Err(e),
                                Ok(args) => Ok(
                                    (
                                        TemplateAttrView::EventHandler {
                                            name: pos,
                                            fn_name: f,
                                            parens: q + 3,
                                            args,
                                        },
                                        q + 4,
                                    ),
                                ),
                            },
                        },
                    }
                } else {
                    match prop_value_parse(ts, q + 1, scope) {
                        Err(e) => Err(e),
                        Ok((value, next)) => Ok(
                            (TemplateAttrView::Property { name: pos, list_updater, value }, next),
                        ),
                    }
                },
            }
        },
    }
}

/// The value of a property.
pub enum PropValue {
    ImpliedTrue,
    Literal(usize),
    Dynamic { by_ref: bool, braces: usize },
}

impl View for PropValue {
    type V = PropValueView;

    open spec fn view(&self) -> PropValueView {
        match self {
            PropValue::ImpliedTrue => PropValueView::ImpliedTrue,
            PropValue::Literal(p) => PropValueView::Literal(*p as int),
            PropValue::Dynamic { by_ref, braces } => PropValueView::Dynamic {
                by_ref: *by_ref,
                braces: *braces as int,
            },
        }
    }
}

/// An attribute of a template element; tokens by their positions.
pub enum TemplateAttribute {
    /// `name`, `name = value`, with a list updater `name:path` or not.
    Property { name: usize, list_updater: Option<(bool, Vec<String>)>, value: PropValue },
    /// `name = @fn_name(args)`: the handler's name, the position of its
    /// parentheses and the ranges of its arguments in them.
    EventHandler { name: usize, fn_name: usize, parens: usize, args: Vec<(usize, usize)> },
    /// `slot:var_name`.
    Slot { name: usize, var_name: usize },
}

/// Ranges of positions as integers.
pub open spec fn ranges_view(v: Seq<(usize, usize)>) -> Seq<(int, int)> {
    v.map_values(|r: (usize, usize)| (r.0 as int, r.1 as int))
}

impl View for TemplateAttribute {
    type V = TemplateAttrView;

    open spec fn view(&self) -> TemplateAttrView {
        match self {
            TemplateAttribute::Property { name, list_updater, value } => TemplateAttrView::Property {
                name: *name as int,
                list_updater: match list_updater {
                    Some((lead, segs)) => Some((*lead, segs@.map_values(|s: String| s@))),
                    None => None,
                },
                value: value@,
            },
            TemplateAttribute::EventHandler { name, fn_name, parens, args } =>
                TemplateAttrView::EventHandler {
                name: *name as int,
                fn_name: *fn_name as int,
                parens: *parens as int,
                args: ranges_view(args@),
            },
            TemplateAttribute::Slot { name, var_name } => TemplateAttrView::Slot {
                name: *name as int,
                var_name: *var_name as int,
            },
        }
    }
}

pub(crate) fn is_punct(ts: &Vec<TokenTree>, pos: usize, c: char) -> (r: bool)
    ensures
        r == punct_at(ts@, pos as int, c),
{
    if pos < ts.len() {
        match &ts[pos] {
            TokenTree::Punct(p) => p.ch == c,
            _ => false,
        }
    } else {
        false
    }
}

pub(crate) fn group_ref(ts: &Vec<TokenTree>, pos: usize, d: Delimiter) -> (r: Option<&Group>)
    ensures
        match r {
            Some(g) => group_at(ts@, pos as int, d) == Some(*g) && pos < ts@.len(),
            None => group_at(ts@, pos as int, d) is None,
        },
{
    if pos < ts.len() {
        match &ts[pos] {
            TokenTree::Group(g) => if g.delimiter == d {
                Some(g)
            } else {
                None
            },
            _ => None,
        }
    } else {
        None
    }
}

pub(crate) fn error_span_at(ts: &Vec<TokenTree>, pos: usize, scope: Span) -> (r: Span)
    ensures
        r == span_at(ts@, pos as int, scope),
{
    if pos < ts.len() {
        match &ts[pos] {
            TokenTree::Group(g) => g.span_open,
            TokenTree::Ident(i) => i.span,
            TokenTree::Punct(p) => p.span,
            TokenTree::Literal(l) => l.span,
        }
    } else {
        scope
    }
}

/// The error that the token at `pos` (or the end) is none of `kinds`, as
/// "expected ..." with the kinds listed.
fn expected_kinds(ts: &Vec<TokenTree>, pos: usize, scope: Span, list: &str, kinds: Ghost<Seq<Seq<char>>>) -> (r: ParseError)
    requires
        list@ == crate::token_parse::expected_list(kinds@),
        kinds@.len() >= 1,
    ensures
        r.span == expected_error(ts@, pos as int, scope, kinds@).span,
        r.message@ == expected_error(ts@, pos as int, scope, kinds@).message,
{
    let mut m = String::new();
    if pos < ts.len() {
        m.append("expected ");
        m.append(list);
        ParseError { span: error_span_at(ts, pos, scope), message: m }
    } else {
        m.append("unexpected end of input, expected ");
        m.append(list);
        ParseError { span: scope, message: m }
    }
}

pub(crate) fn ident_at(ts: &Vec<TokenTree>, pos: usize, scope: Span) -> (r: Result<usize, ParseError>)
    ensures
        match ident_parse(ts@, pos as int, scope) {
            Ok(p) => r == Ok::<usize, ParseError>(p as usize),
            Err(f) => r matches Err(e) && e.span == f.span && e.message@ == f.message,
        },
{
    if pos < ts.len() {
        if let TokenTree::Ident(i) = &ts[pos] {
            if i.keyword {
                let mut m = to_owned_string("expected identifier, found keyword `");
                m.append(i.name.as_str());
                m.append("`");
                proof {
                    reveal_strlit("expected identifier, found keyword `");
                    reveal_strlit("`");
                }
                return Err(ParseError { span: i.span, message: m });
            } else {
                return Ok(pos);
            }
        }
    }
    proof {
        reveal_strlit("identifier");
    }
    let ghost kinds1 = seq!["identifier"@];
    Err(expected_kinds(ts, pos, scope, "identifier", Ghost(kinds1)))
}

fn top_comma(s: &Vec<TokenTree>, pos: usize) -> (r: usize)
    requires
        pos <= s@.len(),
    ensures
        r == top_comma_from(s@, pos as int),
        pos <= r <= s@.len(),
{
    let mut i = pos;
    while i < s.len() && !is_punct(s, i, ',')
        invariant
            pos <= i <= s@.len(),
            top_comma_from(s@, i as int) == top_comma_from(s@, pos as int),
        decreases s@.len() - i,
    {
        i = i + 1;
    }
    i
}

fn expr_list_at(s: &Vec<TokenTree>, pos: usize, scope: Span) -> (r: Result<Vec<(usize, usize)>, ParseError>)
    requires
        pos <= s@.len(),
    ensures
        match expr_list_parse(s@, pos as int, scope) {
            Ok(v) => r matches Ok(x) && ranges_view(x@) == v,
            Err(f) => r matches Err(e) && e.span == f.span && e.message@ == f.message,
        },
    decreases s@.len() - pos,
{
    if pos >= s.len() {
        let v: Vec<(usize, usize)> = Vec::new();
        assert(ranges_view(v@) =~= Seq::<(int, int)>::empty());
        return Ok(v);
    }
    let end = top_comma(s, pos);
    if end == pos {
        proof {
            reveal_strlit("an expression");
        }
        let ghost kinds1 = seq!["an expression"@];
        return Err(expected_kinds(s, pos, scope, "an expression", Ghost(kinds1)));
    }
    if end >= s.len() {
        let mut v: Vec<(usize, usize)> = Vec::new();
        v.push((pos, end));
        assert(ranges_view(v@) =~= seq![(pos as int, end as int)]);
        return Ok(v);
    }
    let mut rest = match expr_list_at(s, end + 1, scope) {
        Ok(r) => r,
        Err(e) => {
            return Err(e);
        },
    };
    let ghost rv = ranges_view(rest@);
    rest.insert(0, (pos, end));
    assert(ranges_view(rest@) =~= seq![(pos as int, end as int)] + rv);
    Ok(rest)
}

fn braced_expr_at(ts: &Vec<TokenTree>, pos: usize, scope: Span) -> (r: Result<usize, ParseError>)
    ensures
        match braced_expr_parse(ts@, pos as int, scope) {
            Ok(p) => r == Ok::<usize, ParseError>(p as usize),
            Err(f) => r matches Err(e) && e.span == f.span && e.message@ == f.message,
        },
{
    match group_ref(ts, pos, Delimiter::Brace) {
        None => {
            proof {
                reveal_strlit("curly braces");
            }
            let ghost kinds1 = seq!["curly braces"@];
            Err(expected_kinds(ts, pos, scope, "curly braces", Ghost(kinds1)))
        },
        Some(g) => if g.stream.len() == 0 {
            Err(ParseError::new(g.span_close, "unexpected end of input, expected an expression"))
        } else {
            Ok(pos)
        },
    }
}

fn prop_value_at(ts: &Vec<TokenTree>, v: usize, scope: Span) -> (r: Result<(PropValue, usize), ParseError>)
    ensures
        match prop_value_parse(ts@, v as int, scope) {
            Ok((val, next)) => r matches Ok((x, n)) && x@ == val && n == next,
            Err(f) => r matches Err(e) && e.span == f.span && e.message@ == f.message,
        },
{
    let len = ts.len();
    if v < len {
        if let TokenTree::Literal(_) = &ts[v] {
            return Ok((PropValue::Literal(v), v + 1));
        }
        if is_punct(ts, v, '&') {
            return match braced_expr_at(ts, v + 1, scope) {
                Ok(b) => Ok((PropValue::Dynamic { by_ref: true, braces: b }, v + 2)),
                Err(e) => Err(e),
            };
        }
        if group_ref(ts, v, Delimiter::Brace).is_some() {
            return match braced_expr_at(ts, v, scope) {
                Ok(b) => Ok((PropValue::Dynamic { by_ref: false, braces: b }, v + 1)),
                Err(e) => Err(e),
            };
        }
    }
    let ghost kinds = seq!["literal"@, "`&`"@, "curly braces"@, "`@`"@];
    let mut list = to_owned_string("one of: ");
    list.append("literal");
    list.append(", ");
    list.append("`&`");
    list.append(", ");
    list.append("curly braces");
    list.append(", ");
    list.append("`@`");
    proof {
        assert(kinds.drop_last().drop_last().drop_last() =~= seq!["literal"@]);
        assert(kinds.drop_last().drop_last() =~= seq!["literal"@, "`&`"@]);
        assert(kinds.drop_last() =~= seq!["literal"@, "`&`"@, "curly braces"@]);
        reveal_with_fuel(crate::token_parse::comma_separated, 5);
        assert(list@ =~= crate::token_parse::expected_list(kinds));
    }
    Err(expected_kinds(ts, v, scope, list.as_str(), Ghost(kinds)))
}

impl TemplateAttribute {
    /// The attribute at `pos`, and the position after it.
    pub fn parse(ts: &Vec<TokenTree>, pos: usize, scope: Span) -> (r: Result<(TemplateAttribute, usize), ParseError>)
        ensures
            match template_attr_parse(ts@, pos as int, scope) {
                Ok((a, next)) => r matches Ok((x, n)) && x@ == a && n == next,
                Err(f) => r matches Err(e) && e.span == f.span && e.message@ == f.message,
            },
    {
        let len = ts.len();
        let name = if pos < len {
            match &ts[pos] {
                TokenTree::Ident(i) => if i.keyword {
                    None
                } else {
                    Some(i)
                },
                _ => None,
            }
        } else {
            None
        };
        let n = match name {
            None => {
                proof {
                    reveal_strlit("identifier");
                }
                let ghost kinds1 = seq!["identifier"@];
                return Err(expected_kinds(ts, pos, scope, "identifier", Ghost(kinds1)));
            },
            Some(n) => n,
        };
        if str_eq(n.name.as_str(), "slot") {
            proof {
                reveal_strlit("slot");
            }
            if !is_punct(ts, pos + 1, ':') {
                return Err(ParseError::new(error_span_at(ts, pos + 1, scope), "expected `:`"));
            }
            return match ident_at(ts, pos + 2, scope) {
                Err(e) => Err(e),
                Ok(v) => Ok((TemplateAttribute::Slot { name: pos, var_name: v }, pos + 3)),
            };
        }
        proof {
            reveal_strlit("slot");
        }
        let (list_updater, q) = if is_punct(ts, pos + 1, ':') {
            match path_at(ts, pos + 2, scope) {
                Err(e) => {
                    return Err(e);
                },
                Ok((p, next)) => (Some(p), next),
            }
        } else {
            (None, pos + 1)
        };
        if !is_punct(ts, q, '=') {
            return Ok(
                (TemplateAttribute::Property { name: pos, list_updater, value: PropValue::ImpliedTrue }, q),
            );
        }
        if is_punct(ts, q + 1, '@') {
            let f = match ident_at(ts, q + 2, scope) {
                Err(e) => {
                    return Err(e);
                },
                Ok(f) => f,
            };
            let g = match group_ref(ts, q + 3, Delimiter::Parenthesis) {
                None => {
                    proof {
                        reveal_strlit("parentheses");
                    }
                    let ghost kinds1 = seq!["parentheses"@];
                    return Err(expected_kinds(ts, q + 3, scope, "parentheses", Ghost(kinds1)));
                },
                Some(g) => g,
            };
            return match expr_list_at(&g.stream, 0, g.span_close) {
                Err(e) => Err(e),
                Ok(args) => Ok(
                    (TemplateAttribute::EventHandler { name: pos, fn_name: f, parens: q + 3, args }, q + 4),
                ),
            };
        }
        match prop_value_at(ts, q + 1, scope) {
            Err(e) => Err(e),
            Ok((value, next)) => Ok((TemplateAttribute::Property { name: pos, list_updater, value }, next)),
        }
    }
}

} // verus!
