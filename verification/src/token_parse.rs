//! Parsing CSS tokens out of the Rust token trees that a style sheet macro
//! receives: string and number literals, blocks, identifiers (or the
//! variables they name), the special forms `Color(..)`, `Percent(..)` and
//! dimensions such as `Px(..)`, functions, and punctuation.
//!
//! Errors follow the parse stream protocol of the macro: a token that fits
//! none of the expected kinds reports what was expected, at that token or,
//! at the end of a block, at its closing delimiter; tokens left over inside
//! the parentheses of a special form are reported once the whole parse has
//! otherwise succeeded.
use vstd::prelude::*;

use proc_macro2::Span;

use crate::css_token::{
    CssBrace, CssBracket, CssColor, CssDelim, CssDimension, CssFunction, CssIdent, CssNumber,
    CssParen, CssPercentage, CssString, CssToken, CssTokenStream, VarName, VarRef,
};
use crate::text::{push_char, str_eq, to_owned_string};
use crate::values::{
    scope_value_type_name, MaybeDyn, ModPath, Number, ParseError, ScopeVarValue, VarDynRef,
};

verus! {

/// The delimiter of a group.
#[derive(Debug, Clone, Copy, PartialEq, Eq, Structural)]
pub enum Delimiter {
    Parenthesis,
    Brace,
    Bracket,
}

/// A literal, by what the macro reads from it.
pub enum Literal {
    /// A string literal, by its value.
    Str(String),
    /// An integer literal, by its value as an `i32`, or the message of why it
    /// is none.
    Int(Result<i32, String>),
    /// A floating-point literal, by the decimal text of its `f32` value, or
    /// the message of why it has none.
    Float(Result<String, String>),
    /// Any other literal (character, byte, ...).
    Other,
}

/// A delimited group of tokens.
pub struct Group {
    /// The span of the whole group.
    pub span: Span,
    pub span_open: Span,
    pub span_close: Span,
    pub delimiter: Delimiter,
    pub stream: Vec<TokenTree>,
}

/// An identifier; `keyword` tells whether it is a Rust keyword (or `_`),
/// which does not count as an identifier here.
pub struct Ident {
    pub span: Span,
    pub name: String,
    pub keyword: bool,
}

/// A punctuation character; `joint` tells whether it is immediately followed
/// by another punctuation character that it forms one operator with.
pub struct Punct {
    pub span: Span,
    pub ch: char,
    pub joint: bool,
}

pub struct LiteralToken {
    pub span: Span,
    pub lit: Literal,
}

/// A token tree (invisible groups are already opened: their tokens stand
/// in their place).
pub enum TokenTree {
    Group(Group),
    Ident(Ident),
    Punct(Punct),
    Literal(LiteralToken),
}

/// The variables in scope of a style sheet, and the variables referred to.
pub struct ScopeVars {
    pub cur_mod: Option<ModPath>,
    /// Each variable name once, with what it stands for.
    pub vars: Vec<(VarName, ScopeVarValue)>,
    pub var_refs: Vec<VarRef>,
}

// ---------------------------------------------------------------------
// The abstract values of tokens.

/// The abstract value of a possibly dynamic string.
pub enum StrValueView {
    Static(Seq<char>),
    Dyn(Span, usize),
}

/// The abstract value of a number.
pub enum NumView {
    I32(i32),
    F32(Seq<char>),
}

/// The abstract value of a possibly dynamic number.
pub enum NumValueView {
    Static(NumView),
    Dyn(Span, usize),
}

/// The abstract value of a CSS token.
pub enum TokenView {
    Ident(Span, Seq<char>),
    String(Span, StrValueView),
    Delim(Span, Seq<char>),
    Number(Span, NumValueView),
    Percentage(Span, NumValueView),
    Dimension(Span, NumValueView, Seq<char>),
    Color(Span, StrValueView),
    /// Span, name, the span at the end of the block, the block's tokens.
    Function(Span, Seq<char>, Span, Seq<TokenView>),
    Paren(Span, Span, Seq<TokenView>),
    Bracket(Span, Span, Seq<TokenView>),
    Brace(Span, Span, Seq<TokenView>),
}

pub open spec fn str_value_view(m: MaybeDyn<String>) -> StrValueView {
    match m {
        MaybeDyn::Static(s) => StrValueView::Static(s@),
        MaybeDyn::Dyn(r) => StrValueView::Dyn(r.span, r.index),
    }
}

pub open spec fn num_view(n: Number) -> NumView {
    match n {
        Number::I32(x) => NumView::I32(x),
        Number::F32(s) => NumView::F32(s@),
    }
}

pub open spec fn num_value_view(m: MaybeDyn<Number>) -> NumValueView {
    match m {
        MaybeDyn::Static(n) => NumValueView::Static(num_view(n)),
        MaybeDyn::Dyn(r) => NumValueView::Dyn(r.span, r.index),
    }
}

pub open spec fn token_view(t: CssToken) -> TokenView
    decreases t, 1nat,
{
    match t {
        CssToken::Ident(x) => TokenView::Ident(x.span, x.formal_name@),
        CssToken::String(x) => TokenView::String(x.span, str_value_view(x.s)),
        CssToken::Delim(x) => TokenView::Delim(x.span, x.s@),
        CssToken::Number(x) => TokenView::Number(x.span, num_value_view(x.value)),
        CssToken::Percentage(x) => TokenView::Percentage(x.span, num_value_view(x.value)),
        CssToken::Dimension(x) => TokenView::Dimension(x.span, num_value_view(x.value), x.unit@),
        CssToken::Color(x) => TokenView::Color(x.span, str_value_view(x.value)),
        CssToken::Function(x) => TokenView::Function(
            x.span,
            x.formal_name@,
            x.block.last_span,
            tokens_view(x.block.tokens@),
        ),
        CssToken::Paren(x) => TokenView::Paren(x.span, x.block.last_span, tokens_view(x.block.tokens@)),
        CssToken::Bracket(x) => TokenView::Bracket(
            x.span,
            x.block.last_span,
            tokens_view(x.block.tokens@),
        ),
        CssToken::Brace(x) => TokenView::Brace(x.span, x.block.last_span, tokens_view(x.block.tokens@)),
    }
}

pub open spec fn tokens_view(s: Seq<CssToken>) -> Seq<TokenView>
    decreases s, 0nat,
{
    if s.len() == 0 {
        Seq::empty()
    } else {
        tokens_view(s.subrange(0, s.len() - 1)).push(token_view(s[s.len() - 1]))
    }
}

// ---------------------------------------------------------------------
// Parse results.

/// A successful parse: the value, the position after it, the variables
/// referred to (span and name, in order), and the first token left over
/// inside a special form (its span and the delimiter around it).
pub struct Parsed<T> {
    pub value: T,
    pub next: int,
    pub refs: Seq<(Span, Seq<char>)>,
    pub leftover: Option<(Span, Delimiter)>,
}

/// A failed parse: where, what went wrong, and the variables referred to
/// before it failed.
pub struct Failed {
    pub span: Span,
    pub message: Seq<char>,
    pub refs: Seq<(Span, Seq<char>)>,
}

pub open spec fn fail(span: Span, message: Seq<char>) -> Failed {
    Failed { span, message, refs: Seq::empty() }
}

/// The outcome of a step that would not advance the position. No step ever
/// does so (each one reads at least one token); the case only makes the
/// termination of a recursion evident.
pub open spec fn stalled(scope: Span) -> Failed {
    fail(scope, Seq::empty())
}

/// The first of two leftovers.
pub open spec fn first_leftover(
    a: Option<(Span, Delimiter)>,
    b: Option<(Span, Delimiter)>,
) -> Option<(Span, Delimiter)> {
    if a is Some {
        a
    } else {
        b
    }
}

/// The span an error at a token is reported at: a group's opening
/// delimiter, or the token itself.
pub open spec fn token_error_span(t: TokenTree) -> Span {
    match t {
        TokenTree::Group(g) => g.span_open,
        TokenTree::Ident(i) => i.span,
        TokenTree::Punct(p) => p.span,
        TokenTree::Literal(l) => l.span,
    }
}

/// The span of a token.
pub open spec fn tree_span(t: TokenTree) -> Span {
    match t {
        TokenTree::Group(g) => g.span,
        TokenTree::Ident(i) => i.span,
        TokenTree::Punct(p) => p.span,
        TokenTree::Literal(l) => l.span,
    }
}

/// "a or b", or "one of: a, b, c" for the kinds of token expected.
pub open spec fn expected_list(kinds: Seq<Seq<char>>) -> Seq<char>
    decreases kinds.len(),
{
    if kinds.len() == 1 {
        kinds[0]
    } else if kinds.len() == 2 {
        kinds[0] + " or "@ + kinds[1]
    } else {
        "one of: "@ + comma_separated(kinds)
    }
}

/// The kinds joined with ", ".
pub open spec fn comma_separated(kinds: Seq<Seq<char>>) -> Seq<char>
    decreases kinds.len(),
{
    if kinds.len() == 0 {
        Seq::empty()
    } else if kinds.len() == 1 {
        kinds[0]
    } else {
        comma_separated(kinds.drop_last()) + ", "@ + kinds.last()
    }
}

/// The error for a token at `pos` (or the end, at `scope`) that is none of
/// the `kinds` expected.
pub open spec fn expected_error(ts: Seq<TokenTree>, pos: int, scope: Span, kinds: Seq<Seq<char>>) -> Failed {
    if pos >= ts.len() {
        fail(scope, "unexpected end of input, expected "@ + expected_list(kinds))
    } else {
        fail(token_error_span(ts[pos]), "expected "@ + expected_list(kinds))
    }
}

/// The first variable named `name`.
pub open spec fn lookup_var(vars: Seq<(VarName, ScopeVarValue)>, name: Seq<char>) -> Option<ScopeVarValue>
    decreases vars.len(),
{
    if vars.len() == 0 {
        None
    } else {
        match lookup_var(vars.drop_last(), name) {
            Some(v) => Some(v),
            None => if vars.last().0.ident@ == name {
                Some(vars.last().1)
            } else {
                None
            },
        }
    }
}

/// The first token left over at `pos` within a group with delimiter `d`.
pub open spec fn leftover_at(ts: Seq<TokenTree>, pos: int, d: Delimiter) -> Option<(Span, Delimiter)> {
    if 0 <= pos < ts.len() {
        Some((tree_span(ts[pos]), d))
    } else {
        None
    }
}

/// The literal at `pos`, if any.
pub open spec fn lit_at(ts: Seq<TokenTree>, pos: int) -> Option<LiteralToken> {
    if 0 <= pos < ts.len() {
        match ts[pos] {
            TokenTree::Literal(l) => Some(l),
            _ => None,
        }
    } else {
        None
    }
}

/// The identifier (not a keyword) at `pos`, if any.
pub open spec fn var_at(ts: Seq<TokenTree>, pos: int) -> Option<Ident> {
    if 0 <= pos < ts.len() {
        match ts[pos] {
            TokenTree::Ident(i) => if i.keyword {
                None
            } else {
                Some(i)
            },
            _ => None,
        }
    } else {
        None
    }
}

/// The parenthesis group at `pos`, if any.
pub open spec fn paren_group_at(ts: Seq<TokenTree>, pos: int) -> Option<Group> {
    if 0 <= pos < ts.len() {
        match ts[pos] {
            TokenTree::Group(g) => if g.delimiter == Delimiter::Parenthesis {
                Some(g)
            } else {
                None
            },
            _ => None,
        }
    } else {
        None
    }
}

/// A possibly dynamic string at `pos`: a string literal, or a variable
/// standing for a dynamic string.
pub open spec fn str_value_parse(
    ts: Seq<TokenTree>,
    pos: int,
    scope: Span,
    vars: Seq<(VarName, ScopeVarValue)>,
) -> Result<Parsed<StrValueView>, Failed> {
    match lit_at(ts, pos) {
        Some(LiteralToken { span: _, lit: Literal::Str(v) }) => Ok(
            Parsed {
                value: StrValueView::Static(v@),
                next: pos + 1,
                refs: Seq::empty(),
                leftover: None,
            },
        ),
        _ => match var_at(ts, pos) {
            Some(i) => match lookup_var(vars, i.name@) {
                Some(ScopeVarValue::DynStr(x)) => Ok(
                    Parsed {
                        value: StrValueView::Dyn(x.span, x.index),
                        next: pos + 1,
                        refs: seq![(i.span, i.name@)],
                        leftover: None,
                    },
                ),
                Some(v) => Err(fail(i.span, "expected &str, found "@ + scope_value_type_name(v))),
                None => Err(fail(i.span, "variable not declared"@)),
            },
            None => Err(expected_error(ts, pos, scope, seq!["string literal"@, "identifier"@])),
        },
    }
}

/// A possibly dynamic number at `pos`: an integer or floating-point literal,
/// or a variable standing for a dynamic number.
pub open spec fn num_value_parse(
    ts: Seq<TokenTree>,
    pos: int,
    scope: Span,
    vars: Seq<(VarName, ScopeVarValue)>,
) -> Result<Parsed<NumValueView>, Failed> {
    match lit_at(ts, pos) {
        Some(LiteralToken { span, lit: Literal::Int(Ok(v)) }) => Ok(
            Parsed {
                value: NumValueView::Static(NumView::I32(v)),
                next: pos + 1,
                refs: Seq::empty(),
                leftover: None,
            },
        ),
        Some(LiteralToken { span, lit: Literal::Int(Err(m)) }) => Err(fail(span, m@)),
        Some(LiteralToken { span, lit: Literal::Float(Ok(t)) }) => Ok(
            Parsed {
                value: NumValueView::Static(NumView::F32(t@)),
                next: pos + 1,
                refs: Seq::empty(),
                leftover: None,
            },
        ),
        Some(LiteralToken { span, lit: Literal::Float(Err(m)) }) => Err(fail(span, m@)),
        _ => match var_at(ts, pos) {
            Some(i) => match lookup_var(vars, i.name@) {
                Some(ScopeVarValue::DynNum(x)) => Ok(
                    Parsed {
                        value: NumValueView::Dyn(x.span, x.index),
                        next: pos + 1,
                        refs: seq![(i.span, i.name@)],
                        leftover: None,
                    },
                ),
                Some(v) => Err(fail(i.span, "expected i32 or f32, found "@ + scope_value_type_name(v))),
                None => Err(fail(i.span, "variable not declared"@)),
            },
            None => Err(
                expected_error(
                    ts,
                    pos,
                    scope,
                    seq!["integer literal"@, "floating point literal"@, "identifier"@],
                ),
            ),
        },
    }
}

/// The punctuation tokens of CSS, in the order they are tried.
pub open spec fn delim_list() -> Seq<Seq<char>> {
    seq![
        ":"@, ";"@, ","@, "+="@, "+"@, "&&"@, "&="@, "&"@, "@"@, "^="@, "^"@, "/="@, "/"@, "$"@,
        "..="@, "..."@, ".."@, "."@, "*="@, "*"@, "!="@, "!"@, "||"@, "|="@, "|"@, "#"@, "?"@,
        "->"@, "%="@, "%"@, "<<="@, ">>="@, "<<"@, ">>"@, "=="@, "=>"@, "="@, ">="@, ">"@, "<-"@,
        "<="@, "<"@, "-="@, "-"@, "~"@,
    ]
}

/// The punctuation characters at `pos` spell `s`, each but the last joint
/// with the next.
pub open spec fn puncts_match(ts: Seq<TokenTree>, pos: int, s: Seq<char>) -> bool {
    &&& s.len() > 0
    &&& 0 <= pos
    &&& pos + s.len() <= ts.len()
    &&& forall|i: int|
        0 <= i < s.len() ==> (#[trigger] ts[pos + i] matches TokenTree::Punct(p) && p.ch == s[i] && (
        i < s.len() - 1 ==> p.joint))
}

/// The first punctuation token of `delim_list()` from index `k` on that the
/// characters at `pos` spell.
pub open spec fn delim_from(ts: Seq<TokenTree>, pos: int, k: int) -> Option<Seq<char>>
    decreases delim_list().len() - k,
{
    if k < 0 || k >= delim_list().len() {
        None
    } else if puncts_match(ts, pos, delim_list()[k]) {
        Some(delim_list()[k])
    } else {
        delim_from(ts, pos, k + 1)
    }
}

/// ASCII letters lowered.
pub open spec fn ascii_lowercase(s: Seq<char>) -> Seq<char> {
    Seq::new(
        s.len(),
        |i: int|
            if 'A' <= s[i] && s[i] <= 'Z' {
                ((s[i] as u32) + 32) as char
            } else {
                s[i]
            },
    )
}

/// The name starts with an ASCII capital letter.
pub open spec fn starts_uppercase(name: Seq<char>) -> bool {
    name.len() > 0 && 'A' <= name[0] && name[0] <= 'Z'
}

/// The CSS token at `pos` (which holds a token).
pub open spec fn token_parse(
    ts: Seq<TokenTree>,
    pos: int,
    scope: Span,
    vars: Seq<(VarName, ScopeVarValue)>,
) -> Result<Parsed<TokenView>, Failed>
    decreases ts, 0int, 0int,
{
    if !(0 <= pos < ts.len()) {
        Err(fail(scope, "unexpected end of input, unexpected token"@))
    } else {
        match ts[pos] {
            TokenTree::Literal(l) => match l.lit {
                Literal::Str(s) => Ok(
                    Parsed {
                        value: TokenView::String(l.span, StrValueView::Static(s@)),
                        next: pos + 1,
                        refs: Seq::empty(),
                        leftover: None,
                    },
                ),
                Literal::Int(Err(m)) => Err(fail(l.span, m@)),
                Literal::Float(Err(m)) => Err(fail(l.span, m@)),
                Literal::Int(Ok(v)) => Ok(number_or_percentage(ts, pos, l.span, NumView::I32(v))),
                Literal::Float(Ok(t)) => Ok(number_or_percentage(ts, pos, l.span, NumView::F32(t@))),
                Literal::Other => Err(fail(l.span, "unexpected token"@)),
            },
            TokenTree::Group(g) => {
                let inner = stream_parse(g.stream@, 0, g.span_close, vars);
                match inner {
                    Err(e) => Err(e),
                    Ok(b) => Ok(
                        Parsed {
                            value: match g.delimiter {
                                Delimiter::Parenthesis => TokenView::Paren(g.span, g.span_close, b.value),
                                Delimiter::Bracket => TokenView::Bracket(g.span, g.span_close, b.value),
                                Delimiter::Brace => TokenView::Brace(g.span, g.span_close, b.value),
                            },
                            next: pos + 1,
                            refs: b.refs,
                            leftover: b.leftover,
                        },
                    ),
                }
            },
            TokenTree::Ident(i) => if i.keyword {
                delim_parse(ts, pos)
            } else if paren_group_at(ts, pos + 1) is Some {
                ident_call_parse(i, paren_group_at(ts, pos + 1)->0, pos + 2, vars)
            } else {
                match lookup_var(vars, i.name@) {
                    None => Ok(
                        Parsed {
                            value: TokenView::Ident(i.span, i.name@),
                            next: pos + 1,
                            refs: Seq::empty(),
                            leftover: None,
                        },
                    ),
                    Some(v) => {
                        let refs = seq![(i.span, i.name@)];
                        match v {
                            ScopeVarValue::Token(x) => Ok(
                                Parsed { value: token_view(x), next: pos + 1, refs, leftover: None },
                            ),
                            ScopeVarValue::DynStr(x) => Ok(
                                Parsed {
                                    value: TokenView::String(x.span, StrValueView::Dyn(x.span, x.index)),
                                    next: pos + 1,
                                    refs,
                                    leftover: None,
                                },
                            ),
                            ScopeVarValue::DynNum(x) => Ok(
                                Parsed {
                                    value: TokenView::Number(x.span, NumValueView::Dyn(x.span, x.index)),
                                    next: pos + 1,
                                    refs,
                                    leftover: None,
                                },
                            ),
                            ScopeVarValue::StyleDefinition(_) => Err(
                                Failed {
                                    span: i.span,
                                    message: "expected value, found StyleDefinition"@,
                                    refs,
                                },
                            ),
                        }
                    },
                }
            },
            TokenTree::Punct(_) => delim_parse(ts, pos),
        }
    }
}

/// A number literal, a percentage where `%` follows it.
pub open spec fn number_or_percentage(ts: Seq<TokenTree>, pos: int, span: Span, n: NumView) -> Parsed<TokenView> {
    if puncts_match(ts, pos + 1, "%"@) {
        Parsed {
            value: TokenView::Percentage(span, NumValueView::Static(n)),
            next: pos + 2,
            refs: Seq::empty(),
            leftover: None,
        }
    } else {
        Parsed {
            value: TokenView::Number(span, NumValueView::Static(n)),
            next: pos + 1,
            refs: Seq::empty(),
            leftover: None,
        }
    }
}

/// A punctuation token at `pos`, or the error that there is none.
pub open spec fn delim_parse(ts: Seq<TokenTree>, pos: int) -> Result<Parsed<TokenView>, Failed> {
    match delim_from(ts, pos, 0) {
        Some(d) => Ok(
            Parsed {
                value: TokenView::Delim(tree_span(ts[pos]), d),
                next: pos + d.len(),
                refs: Seq::empty(),
                leftover: None,
            },
        ),
        None => Err(fail(token_error_span(ts[pos]), "unexpected token"@)),
    }
}

/// An identifier `i` followed by the parenthesis group `g`: a special form
/// where the name starts with a capital letter, else a function; `next` is
/// the position after the group.
pub open spec fn ident_call_parse(
    i: Ident,
    g: Group,
    next: int,
    vars: Seq<(VarName, ScopeVarValue)>,
) -> Result<Parsed<TokenView>, Failed>
    decreases g, 0int, 0int,
{
    let content = g.stream@;
    let scope = g.span_close;
    if starts_uppercase(i.name@) {
        if i.name@ == "Color"@ {
            match str_value_parse(content, 0, scope, vars) {
                Err(e) => Err(e),
                Ok(p) => Ok(
                    Parsed {
                        value: TokenView::Color(i.span, p.value),
                        next,
                        refs: p.refs,
                        leftover: leftover_at(content, p.next, Delimiter::Parenthesis),
                    },
                ),
            }
        } else if i.name@ == "Percent"@ {
            match num_value_parse(content, 0, scope, vars) {
                Err(e) => Err(e),
                Ok(p) => Ok(
                    Parsed {
                        value: TokenView::Percentage(i.span, p.value),
                        next,
                        refs: p.refs,
                        leftover: leftover_at(content, p.next, Delimiter::Parenthesis),
                    },
                ),
            }
        } else {
            let unit = ascii_lowercase(i.name@);
            match lit_at(content, 0) {
                Some(LiteralToken { span, lit: Literal::Int(Ok(v)) }) => Ok(
                    Parsed {
                        value: TokenView::Dimension(i.span, NumValueView::Static(NumView::I32(v)), unit),
                        next,
                        refs: Seq::empty(),
                        leftover: leftover_at(content, 1, Delimiter::Parenthesis),
                    },
                ),
                Some(LiteralToken { span, lit: Literal::Float(Ok(t)) }) => Ok(
                    Parsed {
                        value: TokenView::Dimension(i.span, NumValueView::Static(NumView::F32(t@)), unit),
                        next,
                        refs: Seq::empty(),
                        leftover: leftover_at(content, 1, Delimiter::Parenthesis),
                    },
                ),
                Some(LiteralToken { span, lit: Literal::Int(Err(m)) }) => Err(fail(span, m@)),
                Some(LiteralToken { span, lit: Literal::Float(Err(m)) }) => Err(fail(span, m@)),
                _ => Err(
                    expected_error(
                        content,
                        0,
                        scope,
                        seq!["integer literal"@, "floating point literal"@],
                    ),
                ),
            }
        }
    } else {
        match stream_parse(content, 0, scope, vars) {
            Err(e) => Err(e),
            Ok(b) => Ok(
                Parsed {
                    value: TokenView::Function(i.span, i.name@, scope, b.value),
                    next,
                    refs: b.refs,
                    leftover: b.leftover,
                },
            ),
        }
    }
}

/// All CSS tokens from `pos` to the end.
pub open spec fn stream_parse(
    ts: Seq<TokenTree>,
    pos: int,
    scope: Span,
    vars: Seq<(VarName, ScopeVarValue)>,
) -> Result<Parsed<Seq<TokenView>>, Failed>
    decreases ts, 1int, ts.len() - pos,
{
    if pos < 0 || pos >= ts.len() {
        Ok(Parsed { value: Seq::empty(), next: ts.len() as int, refs: Seq::empty(), leftover: None })
    } else {
        match token_parse(ts, pos, scope, vars) {
            Err(e) => Err(e),
            Ok(t) => if t.next <= pos || t.next > ts.len() {
                Err(stalled(scope))
            } else {
                match stream_parse(ts, t.next, scope, vars) {
                    Err(e) => Err(Failed { refs: t.refs + e.refs, ..e }),
                    Ok(rest) => Ok(
                        Parsed {
                            value: seq![t.value] + rest.value,
                            next: rest.next,
                            refs: t.refs + rest.refs,
                            leftover: first_leftover(t.leftover, rest.leftover),
                        },
                    ),
                }
            },
        }
    }
}

// ---------------------------------------------------------------------
// Executable parsing.

/// The abstract value of the variable references.
pub open spec fn refs_view(v: Seq<VarRef>) -> Seq<(Span, Seq<char>)> {
    v.map_values(|r: VarRef| (r.span, r.ident@))
}

/// The kinds as character sequences.
pub open spec fn kinds_view(v: Seq<&'static str>) -> Seq<Seq<char>> {
    v.map_values(|k: &'static str| k@)
}

/// The position of a literal, the literal itself.
fn literal_at(ts: &Vec<TokenTree>, pos: usize) -> (r: Option<&LiteralToken>)
    ensures
        r is Some ==> pos < ts.len(),
        match r {
            Some(l) => lit_at(ts@, pos as int) == Some(*l),
            None => lit_at(ts@, pos as int) is None,
        },
{
    if pos < ts.len() {
        match &ts[pos] {
            TokenTree::Literal(l) => Some(l),
            _ => None,
        }
    } else {
        None
    }
}

/// The identifier (not a keyword) at `pos`.
pub(crate) fn ident_at(ts: &Vec<TokenTree>, pos: usize) -> (r: Option<&Ident>)
    ensures
        r is Some ==> pos < ts.len(),
        match r {
            Some(i) => var_at(ts@, pos as int) == Some(*i),
            None => var_at(ts@, pos as int) is None,
        },
{
    if pos < ts.len() {
        match &ts[pos] {
            TokenTree::Ident(i) => if i.keyword {
                None
            } else {
                Some(i)
            },
            _ => None,
        }
    } else {
        None
    }
}

/// `kinds` joined with ", ".
fn comma_separated_text(kinds: &Vec<&'static str>) -> (r: String)
    ensures
        r@ == comma_separated(kinds_view(kinds@)),
{
    let mut r = String::new();
    let mut i: usize = 0;
    while i < kinds.len()
        invariant
            i <= kinds@.len(),
            r@ == comma_separated(kinds_view(kinds@).take(i as int)),
        decreases kinds@.len() - i,
    {
        let ghost kv = kinds_view(kinds@);
        proof {
            assert(kv.take(i + 1).drop_last() =~= kv.take(i as int));
            assert(kv.take(i + 1).last() == kinds@[i as int]@);
        }
        if i > 0 {
            r.append(", ");
        } else {
            assert(kv.take(0) =~= Seq::<Seq<char>>::empty());
            assert(r@ =~= Seq::<char>::empty());
        }
        r.append(kinds[i]);
        proof {
            if i > 0 {
                assert(r@ =~= comma_separated(kv.take(i as int)) + ", "@ + kinds@[i as int]@);
            } else {
                assert(r@ =~= kinds@[0]@);
            }
        }
        i = i + 1;
    }
    assert(kinds_view(kinds@).take(i as int) =~= kinds_view(kinds@));
    r
}

/// The error that the token at `pos` (or the end) is none of the kinds expected.
pub(crate) fn expected_error_at(ts: &Vec<TokenTree>, pos: usize, scope: Span, kinds: &Vec<&'static str>) -> (r:
    ParseError)
    requires
        kinds@.len() >= 1,
    ensures
        r.span == expected_error(ts@, pos as int, scope, kinds_view(kinds@)).span,
        r.message@ == expected_error(ts@, pos as int, scope, kinds_view(kinds@)).message,
{
    let ghost kv = kinds_view(kinds@);
    let mut list = String::new();
    if kinds.len() == 1 {
        list.append(kinds[0]);
    } else if kinds.len() == 2 {
        list.append(kinds[0]);
        list.append(" or ");
        list.append(kinds[1]);
    } else {
        list.append("one of: ");
        let c = comma_separated_text(kinds);
        list.append(c.as_str());
    }
    assert(list@ =~= expected_list(kv));
    let mut message = String::new();
    if pos >= ts.len() {
        message.append("unexpected end of input, expected ");
        message.append(list.as_str());
        assert(message@ =~= "unexpected end of input, expected "@ + expected_list(kv));
        ParseError { span: scope, message }
    } else {
        message.append("expected ");
        message.append(list.as_str());
        assert(message@ =~= "expected "@ + expected_list(kv));
        let span = match &ts[pos] {
            TokenTree::Group(g) => g.span_open,
            TokenTree::Ident(i) => i.span,
            TokenTree::Punct(p) => p.span,
            TokenTree::Literal(l) => l.span,
        };
        ParseError { span, message }
    }
}

impl ScopeVars {
    /// No variables, no references.
    pub fn new(cur_mod: Option<ModPath>) -> (r: Self)
        ensures
            r.cur_mod == cur_mod,
            r.vars@.len() == 0,
            r.var_refs@.len() == 0,
    {
        ScopeVars { cur_mod, vars: Vec::new(), var_refs: Vec::new() }
    }

    /// The first variable named `name`.
    pub fn lookup(&self, name: &str) -> (r: Option<&ScopeVarValue>)
        ensures
            match r {
                Some(v) => lookup_var(self.vars@, name@) == Some(*v),
                None => lookup_var(self.vars@, name@) is None,
            },
    {
        let mut found: Option<&ScopeVarValue> = None;
        let mut i: usize = 0;
        while i < self.vars.len()
            invariant
                i <= self.vars@.len(),
                match lookup_var(self.vars@.take(i as int), name@) {
                    Some(v) => found matches Some(f) && *f == v,
                    None => found is None,
                },
            decreases self.vars@.len() - i,
        {
            proof {
                assert(self.vars@.take(i + 1).drop_last() =~= self.vars@.take(i as int));
            }
            if found.is_none() && str_eq(self.vars[i].0.ident.as_str(), name) {
                found = Some(&self.vars[i].1);
            }
            i = i + 1;
        }
        assert(self.vars@.take(i as int) =~= self.vars@);
        found
    }

    /// Records a reference to the variable `i`.
    pub(crate) fn refer(&mut self, i: &Ident)
        ensures
            final(self).vars == old(self).vars,
            final(self).cur_mod == old(self).cur_mod,
            refs_view(final(self).var_refs@) == refs_view(old(self).var_refs@) + seq![(i.span, i.name@)],
    {
        let ghost before = self.var_refs@;
        self.var_refs.push(VarRef { span: i.span, ident: to_owned_string(i.name.as_str()) });
        assert(refs_view(self.var_refs@) =~= refs_view(before) + seq![(i.span, i.name@)]);
    }
}

/// The result of a parse of a value at a position, against its abstract outcome.
pub open spec fn str_outcome(
    r: Result<(MaybeDyn<String>, usize), ParseError>,
    spec_r: Result<Parsed<StrValueView>, Failed>,
    refs_before: Seq<VarRef>,
    refs_after: Seq<VarRef>,
) -> bool {
    match (r, spec_r) {
        (Ok((m, n)), Ok(p)) => str_value_view(m) == p.value && n == p.next && refs_view(refs_after)
            == refs_view(refs_before) + p.refs,
        (Err(e), Err(f)) => e.span == f.span && e.message@ == f.message && refs_view(refs_after)
            == refs_view(refs_before) + f.refs,
        _ => false,
    }
}

pub open spec fn num_outcome(
    r: Result<(MaybeDyn<Number>, usize), ParseError>,
    spec_r: Result<Parsed<NumValueView>, Failed>,
    refs_before: Seq<VarRef>,
    refs_after: Seq<VarRef>,
) -> bool {
    match (r, spec_r) {
        (Ok((m, n)), Ok(p)) => num_value_view(m) == p.value && n == p.next && refs_view(refs_after)
            == refs_view(refs_before) + p.refs,
        (Err(e), Err(f)) => e.span == f.span && e.message@ == f.message && refs_view(refs_after)
            == refs_view(refs_before) + f.refs,
        _ => false,
    }
}

fn message_with(prefix: &str, tail: &str) -> (r: String)
    ensures
        r@ == prefix@ + tail@,
{
    let mut m = to_owned_string(prefix);
    m.append(tail);
    m
}

/// A possibly dynamic string at `pos`.
fn str_value_at(ts: &Vec<TokenTree>, pos: usize, scope_span: Span, scope: &mut ScopeVars) -> (r: Result<
    (MaybeDyn<String>, usize),
    ParseError,
>)
    ensures
        final(scope).vars == old(scope).vars,
        final(scope).cur_mod == old(scope).cur_mod,
        str_outcome(
            r,
            str_value_parse(ts@, pos as int, scope_span, old(scope).vars@),
            old(scope).var_refs@,
            final(scope).var_refs@,
        ),
{
    if let Some(l) = literal_at(ts, pos) {
        if let Literal::Str(v) = &l.lit {
            return Ok((MaybeDyn::Static(to_owned_string(v.as_str())), pos + 1));
        }
    }
    match ident_at(ts, pos) {
        Some(i) => match scope.lookup(i.name.as_str()) {
            Some(ScopeVarValue::DynStr(x)) => {
                let x = VarDynRef { span: x.span, index: x.index };
                scope.refer(i);
                Ok((MaybeDyn::Dyn(x), pos + 1))
            },
            Some(v) => Err(
                ParseError { span: i.span, message: message_with("expected &str, found ", v.type_label()) },
            ),
            None => Err(ParseError::new(i.span, "variable not declared")),
        },
        None => {
            let kinds = vec!["string literal", "identifier"];
            assert(kinds_view(kinds@) =~= seq!["string literal"@, "identifier"@]);
            Err(expected_error_at(ts, pos, scope_span, &kinds))
        },
    }
}

/// A possibly dynamic number at `pos`.
fn num_value_at(ts: &Vec<TokenTree>, pos: usize, scope_span: Span, scope: &mut ScopeVars) -> (r: Result<
    (MaybeDyn<Number>, usize),
    ParseError,
>)
    ensures
        final(scope).vars == old(scope).vars,
        final(scope).cur_mod == old(scope).cur_mod,
        num_outcome(
            r,
            num_value_parse(ts@, pos as int, scope_span, old(scope).vars@),
            old(scope).var_refs@,
            final(scope).var_refs@,
        ),
{
    if let Some(l) = literal_at(ts, pos) {
        match &l.lit {
            Literal::Int(Ok(v)) => {
                return Ok((MaybeDyn::Static(Number::I32(*v)), pos + 1));
            },
            Literal::Int(Err(m)) => {
                return Err(ParseError::new(l.span, m.as_str()));
            },
            Literal::Float(Ok(t)) => {
                return Ok((MaybeDyn::Static(Number::F32(to_owned_string(t.as_str()))), pos + 1));
            },
            Literal::Float(Err(m)) => {
                return Err(ParseError::new(l.span, m.as_str()));
            },
            _ => {},
        }
    }
    match ident_at(ts, pos) {
        Some(i) => match scope.lookup(i.name.as_str()) {
            Some(ScopeVarValue::DynNum(x)) => {
                let x = VarDynRef { span: x.span, index: x.index };
                scope.refer(i);
                Ok((MaybeDyn::Dyn(x), pos + 1))
            },
            Some(v) => Err(
                ParseError {
                    span: i.span,
                    message: message_with("expected i32 or f32, found ", v.type_label()),
                },
            ),
            None => Err(ParseError::new(i.span, "variable not declared")),
        },
        None => {
            let kinds = vec!["integer literal", "floating point literal", "identifier"];
            assert(kinds_view(kinds@) =~= seq![
                "integer literal"@,
                "floating point literal"@,
                "identifier"@,
            ]);
            Err(expected_error_at(ts, pos, scope_span, &kinds))
        },
    }
}

/// The punctuation tokens of CSS, in the order they are tried.
fn delim_candidates() -> (r: Vec<&'static str>)
    ensures
        kinds_view(r@) == delim_list(),
{
    let r = vec![
        ":", ";", ",", "+=", "+", "&&", "&=", "&", "@", "^=", "^", "/=", "/", "$", "..=", "...",
        "..", ".", "*=", "*", "!=", "!", "||", "|=", "|", "#", "?", "->", "%=", "%", "<<=", ">>=",
        "<<", ">>", "==", "=>", "=", ">=", ">", "<-", "<=", "<", "-=", "-", "~",
    ];
    assert(kinds_view(r@) =~= delim_list());
    r
}

/// Whether the punctuation characters at `pos` spell `s`.
pub(crate) fn puncts_match_at(ts: &Vec<TokenTree>, pos: usize, s: &str) -> (r: bool)
    ensures
        r == puncts_match(ts@, pos as int, s@),
{
    let n = s.unicode_len();
    if n == 0 || pos > ts.len() || n > ts.len() - pos {
        return false;
    }
    let mut i: usize = 0;
    while i < n
        invariant
            n == s@.len(),
            n > 0,
            pos + n <= ts.len(),
            i <= n,
            forall|j: int|
                0 <= j < i ==> (#[trigger] ts@[pos + j] matches TokenTree::Punct(p) && p.ch == s@[j]
                    && (j < n - 1 ==> p.joint)),
        decreases n - i,
    {
        let ok = match &ts[pos + i] {
            TokenTree::Punct(p) => p.ch == s.get_char(i) && (i == n - 1 || p.joint),
            _ => false,
        };
        if !ok {
            assert(!(ts@[pos + i as int] matches TokenTree::Punct(p) && p.ch == s@[i as int] && (i
                < n - 1 ==> p.joint)));
            return false;
        }
        i = i + 1;
    }
    true
}

/// The first punctuation token that the characters at `pos` spell.
fn delim_at(ts: &Vec<TokenTree>, pos: usize) -> (r: Option<&'static str>)
    ensures
        match r {
            Some(d) => delim_from(ts@, pos as int, 0) == Some(d@),
            None => delim_from(ts@, pos as int, 0) is None,
        },
{
    let cands = delim_candidates();
    let mut k: usize = 0;
    while k < cands.len()
        invariant
            kinds_view(cands@) == delim_list(),
            k <= cands@.len(),
            delim_from(ts@, pos as int, 0) == delim_from(ts@, pos as int, k as int),
        decreases cands@.len() - k,
    {
        assert(cands@[k as int]@ == delim_list()[k as int]);
        if puncts_match_at(ts, pos, cands[k]) {
            return Some(cands[k]);
        }
        k = k + 1;
    }
    None
}

/// ASCII letters lowered.
fn to_ascii_lowercase(s: &str) -> (r: String)
    ensures
        r@ == ascii_lowercase(s@),
{
    let n = s.unicode_len();
    let mut r = String::new();
    let mut i: usize = 0;
    while i < n
        invariant
            n == s@.len(),
            i <= n,
            r@ =~= ascii_lowercase(s@).take(i as int),
        decreases n - i,
    {
        let c = s.get_char(i);
        if 'A' <= c && c <= 'Z' {
            let lower = ((c as u8) + 32) as char;
            assert(lower == ((c as u32) + 32) as char);
            push_char(&mut r, lower);
        } else {
            push_char(&mut r, c);
        }
        i = i + 1;
    }
    assert(ascii_lowercase(s@).take(n as int) =~= ascii_lowercase(s@));
    r
}

pub(crate) proof fn lemma_tokens_view_push(s: Seq<CssToken>, t: CssToken)
    ensures
        tokens_view(s.push(t)) == tokens_view(s).push(token_view(t)),
{
    assert(s.push(t).subrange(0, s.len() as int) =~= s);
}

proof fn lemma_tokens_view_len(s: Seq<CssToken>)
    ensures
        tokens_view(s).len() == s.len(),
    decreases s.len(),
{
    if s.len() > 0 {
        lemma_tokens_view_len(s.subrange(0, s.len() - 1));
    }
}

pub(crate) proof fn lemma_tokens_view_prepend(t: CssToken, s: Seq<CssToken>)
    ensures
        tokens_view(seq![t] + s) == seq![token_view(t)] + tokens_view(s),
    decreases s.len(),
{
    if s.len() == 0 {
        assert(seq![t] + s =~= Seq::<CssToken>::empty().push(t));
        lemma_tokens_view_push(Seq::<CssToken>::empty(), t);
        assert(tokens_view(Seq::<CssToken>::empty()) == Seq::<TokenView>::empty());
        assert(seq![token_view(t)] + tokens_view(s) =~= Seq::<TokenView>::empty().push(token_view(t)));
    } else {
        let init = s.subrange(0, s.len() - 1);
        lemma_tokens_view_prepend(t, init);
        assert((seq![t] + s).subrange(0, s.len() as int) =~= seq![t] + init);
        assert((seq![t] + s)[s.len() as int] == s[s.len() - 1]);
        assert(tokens_view(seq![t] + s) =~= seq![token_view(t)] + tokens_view(s));
    }
}

impl CssToken {
    /// A copy of the token (its value, spans included).
    pub fn duplicate(&self) -> (r: CssToken)
        ensures
            token_view(r) == token_view(*self),
        decreases self,
    {
        match self {
            CssToken::Ident(x) => CssToken::Ident(CssIdent { span: x.span, formal_name: to_owned_string(x.formal_name.as_str()) }),
            CssToken::String(x) => CssToken::String(CssString { span: x.span, s: dup_str_value(&x.s) }),
            CssToken::Delim(x) => CssToken::Delim(CssDelim { span: x.span, s: x.s }),
            CssToken::Number(x) => CssToken::Number(CssNumber { span: x.span, value: dup_num_value(&x.value) }),
            CssToken::Percentage(x) => CssToken::Percentage(
                CssPercentage { span: x.span, value: dup_num_value(&x.value) },
            ),
            CssToken::Dimension(x) => CssToken::Dimension(
                CssDimension {
                    span: x.span,
                    value: dup_num_value(&x.value),
                    unit: to_owned_string(x.unit.as_str()),
                },
            ),
            CssToken::Color(x) => CssToken::Color(CssColor { span: x.span, value: dup_str_value(&x.value) }),
            CssToken::Function(x) => {
                let block = dup_stream(&x.block);
                CssToken::Function(
                    CssFunction { span: x.span, formal_name: to_owned_string(x.formal_name.as_str()), block },
                )
            },
            CssToken::Paren(x) => {
                let block = dup_stream(&x.block);
                CssToken::Paren(CssParen { span: x.span, block })
            },
            CssToken::Bracket(x) => {
                let block = dup_stream(&x.block);
                CssToken::Bracket(CssBracket { span: x.span, block })
            },
            CssToken::Brace(x) => {
                let block = dup_stream(&x.block);
                CssToken::Brace(CssBrace { span: x.span, block })
            },
        }
    }
}

fn dup_str_value(m: &MaybeDyn<String>) -> (r: MaybeDyn<String>)
    ensures
        str_value_view(r) == str_value_view(*m),
{
    match m {
        MaybeDyn::Static(s) => MaybeDyn::Static(to_owned_string(s.as_str())),
        MaybeDyn::Dyn(x) => MaybeDyn::Dyn(VarDynRef { span: x.span, index: x.index }),
    }
}

fn dup_num_value(m: &MaybeDyn<Number>) -> (r: MaybeDyn<Number>)
    ensures
        num_value_view(r) == num_value_view(*m),
{
    match m {
        MaybeDyn::Static(n) => MaybeDyn::Static(n.duplicate()),
        MaybeDyn::Dyn(x) => MaybeDyn::Dyn(VarDynRef { span: x.span, index: x.index }),
    }
}

fn dup_stream(b: &CssTokenStream) -> (r: CssTokenStream)
    ensures
        r.last_span == b.last_span,
        tokens_view(r.tokens@) == tokens_view(b.tokens@),
    decreases b, 0nat,
{
    let mut tokens: Vec<CssToken> = Vec::new();
    let mut i: usize = 0;
    while i < b.tokens.len()
        invariant
            i <= b.tokens@.len(),
            tokens_view(tokens@) == tokens_view(b.tokens@.take(i as int)),
        decreases b.tokens@.len() - i,
    {
        proof {
            assert(decreases_to!(b => b.tokens));
        }
        let t = b.tokens[i].duplicate();
        proof {
            lemma_tokens_view_push(tokens@, t);
            lemma_tokens_view_push(b.tokens@.take(i as int), b.tokens@[i as int]);
            assert(b.tokens@.take(i as int).push(b.tokens@[i as int]) =~= b.tokens@.take(i + 1));
        }
        tokens.push(t);
        i = i + 1;
    }
    assert(b.tokens@.take(i as int) =~= b.tokens@);
    CssTokenStream { last_span: b.last_span, tokens }
}

proof fn lemma_delim_matches(ts: Seq<TokenTree>, pos: int, k: int)
    ensures
        delim_from(ts, pos, k) matches Some(d) ==> puncts_match(ts, pos, d),
    decreases delim_list().len() - k,
{
    if 0 <= k < delim_list().len() && !puncts_match(ts, pos, delim_list()[k]) {
        lemma_delim_matches(ts, pos, k + 1);
    }
}

/// A parsed token ends after where it starts, within the tokens.
pub(crate) proof fn lemma_token_parse_advances(ts: Seq<TokenTree>, pos: int, scope: Span, vars: Seq<(VarName, ScopeVarValue)>)
    ensures
        token_parse(ts, pos, scope, vars) matches Ok(p) ==> pos < p.next <= ts.len(),
{
    lemma_delim_matches(ts, pos, 0);
    if 0 <= pos < ts.len() {
        if let Some(d) = delim_from(ts, pos, 0) {
            assert(puncts_match(ts, pos, d));
        }
    }
}

/// The result of a token parse against its abstract outcome.
pub open spec fn token_outcome(
    r: Result<(CssToken, usize, Option<(Span, Delimiter)>), ParseError>,
    spec_r: Result<Parsed<TokenView>, Failed>,
    refs_before: Seq<VarRef>,
    refs_after: Seq<VarRef>,
) -> bool {
    match (r, spec_r) {
        (Ok((t, n, lo)), Ok(p)) => token_view(t) == p.value && n == p.next && lo == p.leftover
            && refs_view(refs_after) == refs_view(refs_before) + p.refs,
        (Err(e), Err(f)) => e.span == f.span && e.message@ == f.message && refs_view(refs_after)
            == refs_view(refs_before) + f.refs,
        _ => false,
    }
}

/// The result of a stream parse against its abstract outcome.
pub open spec fn stream_outcome(
    r: Result<(Vec<CssToken>, Option<(Span, Delimiter)>), ParseError>,
    spec_r: Result<Parsed<Seq<TokenView>>, Failed>,
    refs_before: Seq<VarRef>,
    refs_after: Seq<VarRef>,
) -> bool {
    match (r, spec_r) {
        (Ok((v, lo)), Ok(p)) => tokens_view(v@) == p.value && lo == p.leftover && refs_view(
            refs_after,
        ) == refs_view(refs_before) + p.refs,
        (Err(e), Err(f)) => e.span == f.span && e.message@ == f.message && refs_view(refs_after)
            == refs_view(refs_before) + f.refs,
        _ => false,
    }
}

/// The span of a token tree.
pub(crate) fn span_of(t: &TokenTree) -> (r: Span)
    ensures
        r == tree_span(*t),
{
    match t {
        TokenTree::Group(g) => g.span,
        TokenTree::Ident(i) => i.span,
        TokenTree::Punct(p) => p.span,
        TokenTree::Literal(l) => l.span,
    }
}

/// The first token left over at `pos` within a parenthesis group.
pub(crate) fn leftover_in_paren(ts: &Vec<TokenTree>, pos: usize) -> (r: Option<(Span, Delimiter)>)
    ensures
        r == leftover_at(ts@, pos as int, Delimiter::Parenthesis),
{
    if pos < ts.len() {
        Some((span_of(&ts[pos]), Delimiter::Parenthesis))
    } else {
        None
    }
}

/// The punctuation token at `pos`, or the error that there is none.
fn delim_token_at(ts: &Vec<TokenTree>, pos: usize) -> (r: Result<(CssToken, usize, Option<(Span, Delimiter)>), ParseError>)
    requires
        pos < ts.len(),
    ensures
        match (r, delim_parse(ts@, pos as int)) {
            (Ok((t, n, lo)), Ok(p)) => token_view(t) == p.value && n == p.next && lo == p.leftover
                && p.refs.len() == 0,
            (Err(e), Err(f)) => e.span == f.span && e.message@ == f.message && f.refs.len() == 0,
            _ => false,
        },
{
    proof {
        lemma_delim_matches(ts@, pos as int, 0);
    }
    match delim_at(ts, pos) {
        Some(d) => {
            let n = d.unicode_len();
            Ok((CssToken::Delim(CssDelim { span: span_of(&ts[pos]), s: d }), pos + n, None))
        },
        None => {
            let span = match &ts[pos] {
                TokenTree::Group(g) => g.span_open,
                TokenTree::Ident(i) => i.span,
                TokenTree::Punct(p) => p.span,
                TokenTree::Literal(l) => l.span,
            };
            Err(ParseError::new(span, "unexpected token"))
        },
    }
}

/// The CSS token at `pos`.
pub(crate) fn parse_token_at(ts: &Vec<TokenTree>, pos: usize, scope_span: Span, scope: &mut ScopeVars) -> (r: Result<
    (CssToken, usize, Option<(Span, Delimiter)>),
    ParseError,
>)
    requires
        pos < ts.len(),
    ensures
        final(scope).vars == old(scope).vars,
        final(scope).cur_mod == old(scope).cur_mod,
        token_outcome(
            r,
            token_parse(ts@, pos as int, scope_span, old(scope).vars@),
            old(scope).var_refs@,
            final(scope).var_refs@,
        ),
    decreases ts, 0int, 0int,
{
    let ghost vars = scope.vars@;
    match &ts[pos] {
        TokenTree::Literal(l) => match &l.lit {
            Literal::Str(v) => Ok(
                (
                    CssToken::String(CssString { span: l.span, s: MaybeDyn::Static(to_owned_string(v.as_str())) }),
                    pos + 1,
                    None,
                ),
            ),
            Literal::Int(Err(m)) => Err(ParseError::new(l.span, m.as_str())),
            Literal::Float(Err(m)) => Err(ParseError::new(l.span, m.as_str())),
            Literal::Int(Ok(v)) => Ok(number_or_percentage_at(ts, pos, l.span, Number::I32(*v))),
            Literal::Float(Ok(t)) => Ok(
                number_or_percentage_at(ts, pos, l.span, Number::F32(to_owned_string(t.as_str()))),
            ),
            Literal::Other => Err(ParseError::new(l.span, "unexpected token")),
        },
        TokenTree::Group(g) => {
            proof {
                assert(decreases_to!(ts => ts@[pos as int]));
            }
            match parse_stream_from(&g.stream, 0, g.span_close, scope) {
                Err(e) => Err(e),
                Ok((tokens, lo)) => {
                    let block = CssTokenStream::new(g.span_close, tokens);
                    let t = match g.delimiter {
                        Delimiter::Parenthesis => CssToken::Paren(CssParen { span: g.span, block }),
                        Delimiter::Bracket => CssToken::Bracket(CssBracket { span: g.span, block }),
                        Delimiter::Brace => CssToken::Brace(CssBrace { span: g.span, block }),
                    };
                    Ok((t, pos + 1, lo))
                },
            }
        },
        TokenTree::Ident(i) => {
            if i.keyword {
                return delim_token_at(ts, pos);
            }
            if pos + 1 < ts.len() {
                if let TokenTree::Group(g) = &ts[pos + 1] {
                    if g.delimiter == Delimiter::Parenthesis {
                        proof {
                            assert(decreases_to!(ts => ts@[pos + 1]));
                        }
                        return parse_ident_call(i, g, pos + 2, scope);
                    }
                }
            }
            match scope.lookup(i.name.as_str()) {
                None => Ok(
                    (
                        CssToken::Ident(CssIdent { span: i.span, formal_name: to_owned_string(i.name.as_str()) }),
                        pos + 1,
                        None,
                    ),
                ),
                Some(v) => {
                    let r = match v {
                        ScopeVarValue::Token(x) => Ok((x.duplicate(), pos + 1, None)),
                        ScopeVarValue::DynStr(x) => Ok(
                            (
                                CssToken::String(
                                    CssString {
                                        span: x.span,
                                        s: MaybeDyn::Dyn(VarDynRef { span: x.span, index: x.index }),
                                    },
                                ),
                                pos + 1,
                                None,
                            ),
                        ),
                        ScopeVarValue::DynNum(x) => Ok(
                            (
                                CssToken::Number(
                                    CssNumber {
                                        span: x.span,
                                        value: MaybeDyn::Dyn(VarDynRef { span: x.span, index: x.index }),
                                    },
                                ),
                                pos + 1,
                                None,
                            ),
                        ),
                        ScopeVarValue::StyleDefinition(_) => Err(
                            ParseError::new(i.span, "expected value, found StyleDefinition"),
                        ),
                    };
                    scope.refer(i);
                    r
                },
            }
        },
        TokenTree::Punct(_) => delim_token_at(ts, pos),
    }
}

/// A number literal at `pos`, a percentage where `%` follows.
fn number_or_percentage_at(ts: &Vec<TokenTree>, pos: usize, span: Span, n: Number) -> (r: (
    CssToken,
    usize,
    Option<(Span, Delimiter)>,
))
    requires
        pos < ts.len(),
    ensures
        ({
            let p = number_or_percentage(ts@, pos as int, span, num_view(n));
            token_view(r.0) == p.value && r.1 == p.next && r.2 == p.leftover
        }),
{
    if pos + 1 < ts.len() && puncts_match_at(ts, pos + 1, "%") {
        (CssToken::Percentage(CssPercentage { span, value: MaybeDyn::Static(n) }), pos + 2, None)
    } else {
        proof {
            if pos + 1 >= ts.len() {
                assert(!puncts_match(ts@, pos + 1, "%"@));
            }
        }
        (CssToken::Number(CssNumber { span, value: MaybeDyn::Static(n) }), pos + 1, None)
    }
}

/// An identifier followed by the parenthesis group `g`; `next` is the
/// position after the group.
fn parse_ident_call(i: &Ident, g: &Group, next: usize, scope: &mut ScopeVars) -> (r: Result<
    (CssToken, usize, Option<(Span, Delimiter)>),
    ParseError,
>)
    requires
        g.delimiter == Delimiter::Parenthesis,
    ensures
        final(scope).vars == old(scope).vars,
        final(scope).cur_mod == old(scope).cur_mod,
        token_outcome(
            r,
            ident_call_parse(*i, *g, next as int, old(scope).vars@),
            old(scope).var_refs@,
            final(scope).var_refs@,
        ),
    decreases g, 0int, 0int,
{
    let content = &g.stream;
    let name = i.name.as_str();
    let upper = name.unicode_len() > 0 && 'A' <= name.get_char(0) && name.get_char(0) <= 'Z';
    if upper {
        if str_eq(name, "Color") {
            match str_value_at(content, 0, g.span_close, scope) {
                Err(e) => Err(e),
                Ok((value, n)) => Ok(
                    (CssToken::Color(CssColor { span: i.span, value }), next, leftover_in_paren(content, n)),
                ),
            }
        } else if str_eq(name, "Percent") {
            match num_value_at(content, 0, g.span_close, scope) {
                Err(e) => Err(e),
                Ok((value, n)) => Ok(
                    (
                        CssToken::Percentage(CssPercentage { span: i.span, value }),
                        next,
                        leftover_in_paren(content, n),
                    ),
                ),
            }
        } else {
            let unit = to_ascii_lowercase(name);
            match literal_at(content, 0) {
                Some(LiteralToken { span, lit: Literal::Int(Ok(v)) }) => Ok(
                    (
                        CssToken::Dimension(
                            CssDimension { span: i.span, value: MaybeDyn::Static(Number::I32(*v)), unit },
                        ),
                        next,
                        leftover_in_paren(content, 1),
                    ),
                ),
                Some(LiteralToken { span, lit: Literal::Float(Ok(t)) }) => Ok(
                    (
                        CssToken::Dimension(
                            CssDimension {
                                span: i.span,
                                value: MaybeDyn::Static(Number::F32(to_owned_string(t.as_str()))),
                                unit,
                            },
                        ),
                        next,
                        leftover_in_paren(content, 1),
                    ),
                ),
                Some(LiteralToken { span, lit: Literal::Int(Err(m)) }) => Err(ParseError::new(*span, m.as_str())),
                Some(LiteralToken { span, lit: Literal::Float(Err(m)) }) => Err(ParseError::new(*span, m.as_str())),
                _ => {
                    let kinds = vec!["integer literal", "floating point literal"];
                    assert(kinds_view(kinds@) =~= seq!["integer literal"@, "floating point literal"@]);
                    Err(expected_error_at(content, 0, g.span_close, &kinds))
                },
            }
        }
    } else {
        match parse_stream_from(content, 0, g.span_close, scope) {
            Err(e) => Err(e),
            Ok((tokens, lo)) => {
                let block = CssTokenStream::new(g.span_close, tokens);
                Ok(
                    (
                        CssToken::Function(
                            CssFunction { span: i.span, formal_name: to_owned_string(name), block },
                        ),
                        next,
                        lo,
                    ),
                )
            },
        }
    }
}

/// All CSS tokens from `pos` to the end.
fn parse_stream_from(ts: &Vec<TokenTree>, pos: usize, scope_span: Span, scope: &mut ScopeVars) -> (r: Result<
    (Vec<CssToken>, Option<(Span, Delimiter)>),
    ParseError,
>)
    ensures
        final(scope).vars == old(scope).vars,
        final(scope).cur_mod == old(scope).cur_mod,
        stream_outcome(
            r,
            stream_parse(ts@, pos as int, scope_span, old(scope).vars@),
            old(scope).var_refs@,
            final(scope).var_refs@,
        ),
    decreases ts, 1int, ts@.len() - pos,
{
    if pos >= ts.len() {
        let v: Vec<CssToken> = Vec::new();
        assert(tokens_view(v@) =~= Seq::<TokenView>::empty());
        assert(refs_view(scope.var_refs@) =~= refs_view(scope.var_refs@) + Seq::<(Span, Seq<char>)>::empty());
        return Ok((v, None));
    }
    let ghost vars = scope.vars@;
    let ghost refs0 = scope.var_refs@;
    match parse_token_at(ts, pos, scope_span, scope) {
        Err(e) => Err(e),
        Ok((t, next, lo)) => {
            proof {
                lemma_token_parse_advances(ts@, pos as int, scope_span, vars);
            }
            let ghost refs1 = scope.var_refs@;
            match parse_stream_from(ts, next, scope_span, scope) {
                Err(e) => {
                    assert(refs_view(scope.var_refs@) =~= refs_view(refs0) + (token_parse(ts@, pos as int, scope_span, vars)->Ok_0.refs
                        + stream_parse(ts@, next as int, scope_span, vars)->Err_0.refs));
                    Err(e)
                },
                Ok((mut rest, lo2)) => {
                    let ghost rest0 = rest@;
                    rest.insert(0, t);
                    proof {
                        assert(rest@ =~= seq![t] + rest0);
                        lemma_tokens_view_prepend(t, rest0);
                        assert(refs_view(scope.var_refs@) =~= refs_view(refs0) + (token_parse(ts@, pos as int, scope_span, vars)->Ok_0.refs
                            + stream_parse(ts@, next as int, scope_span, vars)->Ok_0.refs));
                    }
                    let l = if lo.is_some() { lo } else { lo2 };
                    Ok((rest, l))
                },
            }
        },
    }
}

/// A parse position in a token sequence: the tokens, the position, the
/// span reported at the end, and the first token left over inside a special
/// form so far.
pub struct ParseInput<'a> {
    pub tokens: &'a Vec<TokenTree>,
    pub pos: usize,
    pub scope: Span,
    pub unexpected: Option<(Span, Delimiter)>,
}

/// The error for a token left over inside a group with delimiter `d`.
pub open spec fn unexpected_message(d: Option<Delimiter>) -> Seq<char> {
    match d {
        Some(Delimiter::Parenthesis) => "unexpected token, expected `)`"@,
        Some(Delimiter::Brace) => "unexpected token, expected `}`"@,
        Some(Delimiter::Bracket) => "unexpected token, expected `]`"@,
        None => "unexpected token"@,
    }
}

impl<'a> ParseInput<'a> {
    /// The start of `tokens`; `scope` is reported at their end.
    pub fn new(tokens: &'a Vec<TokenTree>, scope: Span) -> (r: Self)
        ensures
            r.tokens == tokens,
            r.pos == 0,
            r.scope == scope,
            r.unexpected is None,
    {
        ParseInput { tokens, pos: 0, scope, unexpected: None }
    }

    /// Whether all tokens are consumed.
    pub fn is_empty(&self) -> (r: bool)
        ensures
            r == (self.pos >= self.tokens@.len()),
    {
        self.pos >= self.tokens.len()
    }

    /// The end of a whole parse: an error for a token left over inside a
    /// special form, or for a token not consumed.
    pub fn finish(&self) -> (r: Result<(), ParseError>)
        ensures
            match self.unexpected {
                Some((span, d)) => r matches Err(e) && e.span == span && e.message@ == unexpected_message(
                    Some(d),
                ),
                None => if self.pos < self.tokens@.len() {
                    r matches Err(e) && e.span == tree_span(self.tokens@[self.pos as int])
                        && e.message@ == unexpected_message(None)
                } else {
                    r is Ok
                },
            },
    {
        match self.unexpected {
            Some((span, d)) => {
                let m = match d {
                    Delimiter::Parenthesis => "unexpected token, expected `)`",
                    Delimiter::Brace => "unexpected token, expected `}`",
                    Delimiter::Bracket => "unexpected token, expected `]`",
                };
                Err(ParseError::new(span, m))
            },
            None => if self.pos < self.tokens.len() {
                Err(ParseError::new(span_of(&self.tokens[self.pos]), "unexpected token"))
            } else {
                Ok(())
            },
        }
    }
}

impl CssToken {
    /// Parses one CSS token.
    pub fn parse_with_vars(input: &mut ParseInput, scope: &mut ScopeVars) -> (r: Result<CssToken, ParseError>)
        ensures
            final(scope).vars == old(scope).vars,
            final(scope).cur_mod == old(scope).cur_mod,
            final(input).tokens == old(input).tokens,
            final(input).scope == old(input).scope,
            ({
                let spec_r = token_parse(
                    old(input).tokens@,
                    old(input).pos as int,
                    old(input).scope,
                    old(scope).vars@,
                );
                match (r, spec_r) {
                    (Ok(t), Ok(p)) => token_view(t) == p.value && final(input).pos == p.next
                        && final(input).unexpected == first_leftover(old(input).unexpected, p.leftover)
                        && refs_view(final(scope).var_refs@) == refs_view(old(scope).var_refs@) + p.refs,
                    (Err(e), Err(f)) => e.span == f.span && e.message@ == f.message && refs_view(
                        final(scope).var_refs@,
                    ) == refs_view(old(scope).var_refs@) + f.refs,
                    _ => false,
                }
            }),
    {
        if input.pos >= input.tokens.len() {
            assert(refs_view(scope.var_refs@) =~= refs_view(scope.var_refs@) + Seq::<(Span, Seq<char>)>::empty());
            return Err(ParseError::new(input.scope, "unexpected end of input, unexpected token"));
        }
        match parse_token_at(input.tokens, input.pos, input.scope, scope) {
            Err(e) => Err(e),
            Ok((t, next, lo)) => {
                input.pos = next;
                if input.unexpected.is_none() {
                    input.unexpected = lo;
                }
                Ok(t)
            },
        }
    }
}

impl CssTokenStream {
    /// Parses CSS tokens up to the end of the input.
    pub fn parse_with_vars(input: &mut ParseInput, scope: &mut ScopeVars) -> (r: Result<CssTokenStream, ParseError>)
        ensures
            final(scope).vars == old(scope).vars,
            final(scope).cur_mod == old(scope).cur_mod,
            final(input).tokens == old(input).tokens,
            final(input).scope == old(input).scope,
            ({
                let spec_r = stream_parse(
                    old(input).tokens@,
                    old(input).pos as int,
                    old(input).scope,
                    old(scope).vars@,
                );
                match (r, spec_r) {
                    (Ok(s), Ok(p)) => tokens_view(s.tokens@) == p.value && s.last_span == old(input).scope
                        && final(input).pos >= final(input).tokens@.len()
                        && final(input).unexpected == first_leftover(old(input).unexpected, p.leftover)
                        && refs_view(final(scope).var_refs@) == refs_view(old(scope).var_refs@) + p.refs,
                    (Err(e), Err(f)) => e.span == f.span && e.message@ == f.message && refs_view(
                        final(scope).var_refs@,
                    ) == refs_view(old(scope).var_refs@) + f.refs,
                    _ => false,
                }
            }),
    {
        match parse_stream_from(input.tokens, input.pos, input.scope, scope) {
            Err(e) => Err(e),
            Ok((tokens, lo)) => {
                input.pos = input.tokens.len();
                if input.unexpected.is_none() {
                    input.unexpected = lo;
                }
                Ok(CssTokenStream::new(input.scope, tokens))
            },
        }
    }
}

impl MaybeDyn<String> {
    /// Parses a string literal, or a variable standing for a dynamic string.
    pub fn parse_with_vars(input: &mut ParseInput, scope: &mut ScopeVars) -> (r: Result<MaybeDyn<String>, ParseError>)
        ensures
            final(scope).vars == old(scope).vars,
            final(scope).cur_mod == old(scope).cur_mod,
            final(input).tokens == old(input).tokens,
            final(input).scope == old(input).scope,
            final(input).unexpected == old(input).unexpected,
            ({
                let spec_r = str_value_parse(
                    old(input).tokens@,
                    old(input).pos as int,
                    old(input).scope,
                    old(scope).vars@,
                );
                match (r, spec_r) {
                    (Ok(m), Ok(p)) => str_value_view(m) == p.value && final(input).pos == p.next
                        && refs_view(final(scope).var_refs@) == refs_view(old(scope).var_refs@) + p.refs,
                    (Err(e), Err(f)) => e.span == f.span && e.message@ == f.message && refs_view(
                        final(scope).var_refs@,
                    ) == refs_view(old(scope).var_refs@) + f.refs,
                    _ => false,
                }
            }),
    {
        match str_value_at(input.tokens, input.pos, input.scope, scope) {
            Err(e) => Err(e),
            Ok((m, next)) => {
                input.pos = next;
                Ok(m)
            },
        }
    }
}

impl MaybeDyn<Number> {
    /// Parses a number literal, or a variable standing for a dynamic number.
    pub fn parse_with_vars(input: &mut ParseInput, scope: &mut ScopeVars) -> (r: Result<MaybeDyn<Number>, ParseError>)
        ensures
            final(scope).vars == old(scope).vars,
            final(scope).cur_mod == old(scope).cur_mod,
            final(input).tokens == old(input).tokens,
            final(input).scope == old(input).scope,
            final(input).unexpected == old(input).unexpected,
            ({
                let spec_r = num_value_parse(
                    old(input).tokens@,
                    old(input).pos as int,
                    old(input).scope,
                    old(scope).vars@,
                );
                match (r, spec_r) {
                    (Ok(m), Ok(p)) => num_value_view(m) == p.value && final(input).pos == p.next
                        && refs_view(final(scope).var_refs@) == refs_view(old(scope).var_refs@) + p.refs,
                    (Err(e), Err(f)) => e.span == f.span && e.message@ == f.message && refs_view(
                        final(scope).var_refs@,
                    ) == refs_view(old(scope).var_refs@) + f.refs,
                    _ => false,
                }
            }),
    {
        match num_value_at(input.tokens, input.pos, input.scope, scope) {
            Err(e) => Err(e),
            Ok((m, next)) => {
                input.pos = next;
                Ok(m)
            },
        }
    }
}

} // verus!
