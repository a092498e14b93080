//! The arguments of the translation macros, read from the token trees they
//! receive: a string literal, then variables after commas, each an
//! expression or `name = expression`; for a group, the group's name and a
//! comma first.
//!
//! An expression is taken as the tokens up to the next comma outside any
//! group; the tokens are handed on as they are, to be formatted by the
//! expanded code.
use vstd::prelude::*;

use proc_macro2::Span;

use crate::text::to_owned_string;
use crate::token_parse::{
    expected_error, fail, lit_at, stalled, token_error_span, var_at, Failed, Literal, TokenTree,
};
use crate::values::ParseError;

verus! {

/// Whether the token at `pos` is the punctuation character `c`.
pub open spec fn punct_at(ts: Seq<TokenTree>, pos: int, c: char) -> bool {
    0 <= pos < ts.len() && (ts[pos] matches TokenTree::Punct(p) && p.ch == c)
}

/// The position of the first comma at or after `pos` outside any group, or
/// the end.
pub open spec fn top_comma_from(ts: Seq<TokenTree>, pos: int) -> int
    decreases ts.len() - pos,
{
    if pos >= ts.len() || punct_at(ts, pos, ',') {
        pos
    } else {
        top_comma_from(ts, pos + 1)
    }
}

/// A variable of a translation macro: the position of its name, if it has
/// one, and the tokens of its expression, from `start` up to `end`.
pub struct I18nVarView {
    pub name: Option<int>,
    pub start: int,
    pub end: int,
}

/// The variable that starts at `pos`.
pub open spec fn i18n_var_parse(ts: Seq<TokenTree>, pos: int, scope: Span) -> Result<I18nVarView, Failed> {
    let named = var_at(ts, pos) is Some && punct_at(ts, pos + 1, '=');
    let e = if named {
        pos + 2
    } else {
        pos
    };
    let end = top_comma_from(ts, e);
    if end == e {
        Err(expected_error(ts, e, scope, seq!["an expression"@]))
    } else {
        Ok(I18nVarView {
            name: if named {
                Some(pos)
            } else {
                None
            },
            start: e,
            end,
        })
    }
}

/// The variables from `pos` on, each after a comma.
pub open spec fn i18n_vars_parse(ts: Seq<TokenTree>, pos: int, scope: Span) -> Result<
    Seq<I18nVarView>,
    Failed,
>
    decreases ts.len() - pos,
{
    if pos >= ts.len() {
        Ok(Seq::empty())
    } else if !punct_at(ts, pos, ',') {
        Err(expected_error(ts, pos, scope, seq!["`,`"@]))
    } else {
        match i18n_var_parse(ts, pos + 1, scope) {
            Err(e) => Err(e),
            Ok(v) => if v.end <= pos || v.end > ts.len() {
                Err(stalled(scope))
            } else {
                match i18n_vars_parse(ts, v.end, scope) {
                    Ok(rest) => Ok(seq![v] + rest),
                    Err(e) => Err(e),
                }
            },
        }
    }
}

/// The value of the string literal at `pos`, if there is one.
pub open spec fn str_lit_at(ts: Seq<TokenTree>, pos: int) -> Option<Seq<char>> {
    match lit_at(ts, pos) {
        Some(l) => match l.lit {
            Literal::Str(s) => Some(s@),
            _ => None,
        },
        None => None,
    }
}

/// The arguments from `pos` on: the text to translate and its variables.
pub open spec fn i18n_args_parse(ts: Seq<TokenTree>, pos: int, scope: Span) -> Result<
    (Seq<char>, Seq<I18nVarView>),
    Failed,
> {
    match str_lit_at(ts, pos) {
        None => Err(expected_error(ts, pos, scope, seq!["string literal"@])),
        Some(s) => match i18n_vars_parse(ts, pos + 1, scope) {
            Ok(vs) => Ok((s, vs)),
            Err(e) => Err(e),
        },
    }
}

/// The arguments of a group's translation macro: the group's name (at
/// position 0), a comma, then the arguments.
pub open spec fn group_format_parse(ts: Seq<TokenTree>, scope: Span) -> Result<
    (Seq<char>, Seq<I18nVarView>),
    Failed,
> {
    if ts.len() > 0 && (ts[0] is Ident && ts[0]->Ident_0.keyword) {
        let i = ts[0]->Ident_0;
        Err(fail(i.span, "expected identifier, found keyword `"@ + i.name@ + "`"@))
    } else if var_at(ts, 0) is None {
        Err(expected_error(ts, 0, scope, seq!["identifier"@]))
    } else if !punct_at(ts, 1, ',') {
        Err(fail(if 1 < ts.len() {
            token_error_span(ts[1])
        } else {
            scope
        }, "expected `,`"@))
    } else {
        i18n_args_parse(ts, 2, scope)
    }
}

/// A variable of a translation macro, by the positions of its tokens.
pub struct I18nVar {
    pub name: Option<usize>,
    pub start: usize,
    pub end: usize,
}

impl View for I18nVar {
    type V = I18nVarView;

    open spec fn view(&self) -> I18nVarView {
        I18nVarView {
            name: match self.name {
                Some(n) => Some(n as int),
                None => None,
            },
            start: self.start as int,
            end: self.end as int,
        }
    }
}

/// The variables, by their views.
pub open spec fn vars_view(v: Seq<I18nVar>) -> Seq<I18nVarView> {
    v.map_values(|x: I18nVar| x@)
}

/// The arguments of a translation macro: the text to translate (a literal
/// at `text_pos`) and its variables.
pub struct I18nArgs {
    pub text: String,
    pub text_pos: usize,
    pub vars: Vec<I18nVar>,
}

/// The arguments of a group's translation macro: the group's name (the
/// identifier at `group`) and the arguments.
pub struct I18nGroupFormatArgs {
    pub group: usize,
    pub args: I18nArgs,
}

/// Whether the token at `pos` is the punctuation character `c`.
fn is_punct_at(ts: &Vec<TokenTree>, pos: usize, c: char) -> (r: bool)
    ensures
        r == punct_at(ts@, pos as int, c),
{
    if pos < ts.len() {
        match &ts[pos] {
            TokenTree::Punct(p) => p.ch == c,
            _ => false,
        }
    } else {
        false
    }
}

/// The position of the first comma at or after `pos` outside any group, or
/// the end.
fn top_comma_at(ts: &Vec<TokenTree>, pos: usize) -> (r: usize)
    requires
        pos <= ts@.len(),
    ensures
        r == top_comma_from(ts@, pos as int),
        pos <= r <= ts@.len(),
{
    let mut i = pos;
    while i < ts.len() && !is_punct_at(ts, i, ',')
        invariant
            pos <= i <= ts@.len(),
            top_comma_from(ts@, i as int) == top_comma_from(ts@, pos as int),
        decreases ts@.len() - i,
    {
        i = i + 1;
    }
    i
}

/// Whether the token at `pos` is an identifier that is not a keyword.
fn is_var_at(ts: &Vec<TokenTree>, pos: usize) -> (r: bool)
    ensures
        r == (var_at(ts@, pos as int) is Some),
{
    if pos < ts.len() {
        match &ts[pos] {
            TokenTree::Ident(i) => !i.keyword,
            _ => false,
        }
    } else {
        false
    }
}

/// The error that the token at `pos` (or the end) is not the one expected.
fn expected_at(ts: &Vec<TokenTree>, pos: usize, scope: Span, what: &str) -> (r: ParseError)
    ensures
        r.span == expected_error(ts@, pos as int, scope, seq![what@]).span,
        r.message@ == expected_error(ts@, pos as int, scope, seq![what@]).message,
{
    let mut m = String::new();
    if pos < ts.len() {
        m.append("expected ");
        m.append(what);
        let span = match &ts[pos] {
            TokenTree::Group(g) => g.span_open,
            TokenTree::Ident(i) => i.span,
            TokenTree::Punct(p) => p.span,
            TokenTree::Literal(l) => l.span,
        };
        ParseError { span, message: m }
    } else {
        m.append("unexpected end of input, expected ");
        m.append(what);
        ParseError { span: scope, message: m }
    }
}

/// The variable that starts at `pos`.
fn i18n_var_at(ts: &Vec<TokenTree>, pos: usize, scope: Span) -> (r: Result<I18nVar, ParseError>)
    requires
        pos <= ts@.len(),
    ensures
        match i18n_var_parse(ts@, pos as int, scope) {
            Ok(v) => r matches Ok(x) && x@ == v,
            Err(f) => r matches Err(e) && e.span == f.span && e.message@ == f.message,
        },
        r matches Ok(x) ==> pos <= x.start < x.end <= ts@.len(),
{
    let named = pos < ts.len() && is_var_at(ts, pos) && is_punct_at(ts, pos + 1, '=');
    let e = if named {
        pos + 2
    } else {
        pos
    };
    let end = top_comma_at(ts, e);
    if end == e {
        proof {
            reveal_strlit("an expression");
        }
        return Err(expected_at(ts, e, scope, "an expression"));
    }
    Ok(I18nVar {
        name: if named {
            Some(pos)
        } else {
            None
        },
        start: e,
        end,
    })
}

/// The variables from `pos` on, each after a comma.
fn i18n_vars_at(ts: &Vec<TokenTree>, pos: usize, scope: Span) -> (r: Result<Vec<I18nVar>, ParseError>)
    requires
        pos <= ts@.len(),
    ensures
        match i18n_vars_parse(ts@, pos as int, scope) {
            Ok(vs) => r matches Ok(x) && vars_view(x@) == vs,
            Err(f) => r matches Err(e) && e.span == f.span && e.message@ == f.message,
        },
    decreases ts@.len() - pos,
{
    if pos >= ts.len() {
        let v: Vec<I18nVar> = Vec::new();
        assert(vars_view(v@) =~= Seq::<I18nVarView>::empty());
        return Ok(v);
    }
    if !is_punct_at(ts, pos, ',') {
        proof {
            reveal_strlit("`,`");
        }
        return Err(expected_at(ts, pos, scope, "`,`"));
    }
    let v = match i18n_var_at(ts, pos + 1, scope) {
        Ok(v) => v,
        Err(e) => {
            return Err(e);
        },
    };
    let mut rest = match i18n_vars_at(ts, v.end, scope) {
        Ok(rest) => rest,
        Err(e) => {
            return Err(e);
        },
    };
    let ghost rv = vars_view(rest@);
    rest.insert(0, v);
    assert(vars_view(rest@) =~= seq![v@] + rv);
    Ok(rest)
}

impl I18nArgs {
    /// The arguments from `pos` on.
    pub fn parse(ts: &Vec<TokenTree>, pos: usize, scope: Span) -> (r: Result<I18nArgs, ParseError>)
        requires
            pos < usize::MAX,
        ensures
            match i18n_args_parse(ts@, pos as int, scope) {
                Ok((s, vs)) => r matches Ok(a) && a.text@ == s && a.text_pos == pos && vars_view(
                    a.vars@,
                ) == vs,
                Err(f) => r matches Err(e) && e.span == f.span && e.message@ == f.message,
            },
    {
        let text = if pos < ts.len() {
            match &ts[pos] {
                TokenTree::Literal(l) => match &l.lit {
                    Literal::Str(s) => Some(to_owned_string(s.as_str())),
                    _ => None,
                },
                _ => None,
            }
        } else {
            None
        };
        match text {
            None => {
                proof {
                    reveal_strlit("string literal");
                }
                Err(expected_at(ts, pos, scope, "string literal"))
            },
            Some(text) => {
                let start = if pos < ts.len() {
                    pos + 1
                } else {
                    ts.len()
                };
                match i18n_vars_at(ts, start, scope) {
                    Ok(vars) => Ok(I18nArgs { text, text_pos: pos, vars }),
                    Err(e) => Err(e),
                }
            },
        }
    }
}

impl I18nGroupFormatArgs {
    /// The arguments of a group's translation macro.
    pub fn parse(ts: &Vec<TokenTree>, scope: Span) -> (r: Result<I18nGroupFormatArgs, ParseError>)
        ensures
            match group_format_parse(ts@, scope) {
                Ok((s, vs)) => r matches Ok(a) && a.group == 0 && a.args.text@ == s
                    && a.args.text_pos == 2 && vars_view(a.args.vars@) == vs,
                Err(f) => r matches Err(e) && e.span == f.span && e.message@ == f.message,
            },
    {
        if ts.len() > 0 {
            if let TokenTree::Ident(i) = &ts[0] {
                if i.keyword {
                    let mut m = to_owned_string("expected identifier, found keyword `");
                    m.append(i.name.as_str());
                    m.append("`");
                    proof {
                        reveal_strlit("expected identifier, found keyword `");
                        reveal_strlit("`");
                    }
                    return Err(ParseError { span: i.span, message: m });
                }
            }
        }
        if !is_var_at(ts, 0) {
            proof {
                reveal_strlit("identifier");
            }
            return Err(expected_at(ts, 0, scope, "identifier"));
        }
        if !is_punct_at(ts, 1, ',') {
            let span = if 1 < ts.len() {
                match &ts[1] {
                    TokenTree::Group(g) => g.span_open,
                    TokenTree::Ident(i) => i.span,
                    TokenTree::Punct(p) => p.span,
                    TokenTree::Literal(l) => l.span,
                }
            } else {
                scope
            };
            return Err(ParseError::new(span, "expected `,`"));
        }
        match I18nArgs::parse(ts, 2, scope) {
            Ok(args) => Ok(I18nGroupFormatArgs { group: 0, args }),
            Err(e) => Err(e),
        }
    }
}

} // verus!
