//! CSS tokens, token streams, and how tokens are written as CSS text.
use vstd::prelude::*;

use crate::text::{push_i32_text, replace_char, replace_char_in, str_eq, to_owned_string, int_text};
use crate::values::{
    dyn_in_range, maybe_num_eq, maybe_num_value, maybe_str_eq, maybe_str_value, number_eq, MaybeDyn, Number,
    ParseError, VarDynValue,
};
use crate::write_css::{lemma_writer_tab_bound, CssWriter, SepRule, WriteCssSepCond, WriterState};

verus! {

/// The text that `{:?}` gives for a string slice: the string in double quotes,
/// with Rust's debug escapes applied.
pub uninterp spec fn debug_str_text(s: Seq<char>) -> Seq<char>;

/// Formats a string slice with `{:?}`.
///
/// Wraps `format!("{:?}", s)`; the result is named `debug_str_text` of the
/// characters of `s` (it depends on them alone). Nothing more is claimed of it.
#[verifier::external_body]
pub(crate) fn debug_str(s: &str) -> (r: String)
    ensures
        r@ == debug_str_text(s@),
{
    format!("{:?}", s)
}

/// The CSS name of a formal (Rust-style) name: `_` becomes `-`.
pub open spec fn css_name_of(formal_name: Seq<char>) -> Seq<char> {
    replace_char(formal_name, '_', '-')
}

#[derive(Debug, Clone)]
pub struct CssIdent {
    pub span: proc_macro2::Span,
    pub formal_name: String,
}

impl CssIdent {
    pub fn new(span: proc_macro2::Span, name: &str) -> (r: Self)
        ensures
            r.span == span,
            r.formal_name@ == name@,
    {
        Self { span, formal_name: to_owned_string(name) }
    }

    pub fn is(&self, s: &str) -> (r: bool)
        ensures
            r == (self.formal_name@ == s@),
    {
        str_eq(self.formal_name.as_str(), s)
    }

    pub fn css_name(&self) -> (r: String)
        ensures
            r@ == css_name_of(self.formal_name@),
    {
        replace_char_in(self.formal_name.as_str(), '_', '-')
    }

    /// Writes this identifier by its CSS name.
    pub fn write_to(&self, cssw: &mut CssWriter)
        ensures
            final(cssw)@ == old(cssw)@.after_ident(css_name_of(self.formal_name@), true),
    {
        let name = self.css_name();
        cssw.write_ident(name.as_str(), true);
    }
}

#[derive(Debug, Clone)]
pub struct Keyword {
    pub span: proc_macro2::Span,
    pub formal_name: String,
}

impl Keyword {
    pub fn is(&self, s: &str) -> (r: bool)
        ensures
            r == (self.formal_name@ == s@),
    {
        str_eq(self.formal_name.as_str(), s)
    }
}

#[derive(Debug, Clone)]
pub struct CssString {
    pub span: proc_macro2::Span,
    pub s: MaybeDyn<String>,
}

impl CssString {
    /// The string value, with dynamic arguments resolved.
    pub fn value(&self, values: &[VarDynValue]) -> (r: String)
        requires
            dyn_in_range(self.s, values@),
            maybe_str_value(self.s, values@) is Some,
        ensures
            Some(r@) == maybe_str_value(self.s, values@),
    {
        let v = self.s.value(values);
        match v {
            Ok(s) => to_owned_string(s),
            Err(_) => {
                assert(false);
                String::new()
            },
        }
    }
}

#[derive(Debug, Clone)]
pub struct CssDelim {
    pub span: proc_macro2::Span,
    pub s: &'static str,
}

impl CssDelim {
    pub fn is(&self, expect: &str) -> (r: bool)
        ensures
            r == (self.s@ == expect@),
    {
        str_eq(self.s, expect)
    }

    /// Writes this delimiter.
    pub fn write_to(&self, cssw: &mut CssWriter)
        ensures
            final(cssw)@ == old(cssw)@.after_delim(self.s@, true),
    {
        cssw.write_delim(self.s, true);
    }
}

#[derive(Debug, Clone)]
pub struct CssNumber {
    pub span: proc_macro2::Span,
    pub value: MaybeDyn<Number>,
}

/// The integer of a number token, when it is a static integer.
pub open spec fn number_integer(value: MaybeDyn<Number>) -> Option<i32> {
    match value {
        MaybeDyn::Static(Number::I32(x)) => Some(x),
        _ => None,
    }
}

impl CssNumber {
    pub fn integer(&self) -> (r: Option<i32>)
        ensures
            r == number_integer(self.value),
    {
        match &self.value {
            MaybeDyn::Static(Number::I32(x)) => Some(*x),
            _ => None,
        }
    }

    /// The integer as an unsigned value (a negative integer wraps around), when
    /// that value is not zero.
    pub fn positive_integer(&self) -> (r: Option<u32>)
        ensures
            r is Some <==> (number_integer(self.value) matches Some(x) && x != 0),
            r matches Some(n) ==> number_integer(self.value) matches Some(x) && n == x as u32 && n
                != 0,
    {
        match self.integer() {
            Some(x) => {
                let u = #[verifier::truncate] (x as u32);
                assert((x as u32 == 0) == (x == 0)) by (bit_vector);
                if u == 0 {
                    None
                } else {
                    Some(u)
                }
            },
            None => None,
        }
    }
}

#[derive(Debug, Clone)]
pub struct CssPercentage {
    pub span: proc_macro2::Span,
    pub value: MaybeDyn<Number>,
}

impl CssPercentage {
    pub fn new_int(span: proc_macro2::Span, value: i32) -> (r: Self)
        ensures
            r.span == span,
            r.value == MaybeDyn::<Number>::Static(Number::I32(value)),
    {
        Self { span, value: MaybeDyn::Static(Number::I32(value)) }
    }
}

#[derive(Debug, Clone)]
pub struct CssDimension {
    pub span: proc_macro2::Span,
    pub value: MaybeDyn<Number>,
    pub unit: String,
}

#[derive(Debug, Clone)]
pub struct CssColor {
    pub span: proc_macro2::Span,
    pub value: MaybeDyn<String>,
}

#[derive(Debug, Clone)]
pub struct CssFunction<T> {
    pub span: proc_macro2::Span,
    pub formal_name: String,
    pub block: T,
}

impl<T> CssFunction<T> {
    pub fn css_name(&self) -> (r: String)
        ensures
            r@ == css_name_of(self.formal_name@),
    {
        replace_char_in(self.formal_name.as_str(), '_', '-')
    }
}

#[derive(Debug, Clone)]
pub struct CssParen<T> {
    pub span: proc_macro2::Span,
    pub block: T,
}

#[derive(Debug, Clone)]
pub struct CssBracket<T> {
    pub span: proc_macro2::Span,
    pub block: T,
}

#[derive(Debug, Clone)]
pub struct CssBrace<T> {
    pub span: proc_macro2::Span,
    pub block: T,
}

/// A variable name in a style sheet (an identifier, possibly raw `r#...`).
#[derive(Debug, Clone)]
pub struct VarName {
    pub span: proc_macro2::Span,
    pub ident: String,
}

/// A use of a variable.
#[derive(Debug, Clone)]
pub struct VarRef {
    pub span: proc_macro2::Span,
    pub ident: String,
}

/// The CSS name of a variable: its identifier without a leading `r#`.
pub open spec fn var_css_name(ident: Seq<char>) -> Seq<char> {
    if ident.len() >= 2 && ident[0] == 'r' && ident[1] == '#' {
        ident.skip(2)
    } else {
        ident
    }
}

impl VarName {
    pub fn into_ref(self) -> (r: VarRef)
        ensures
            r.span == self.span,
            r.ident@ == self.ident@,
    {
        VarRef { span: self.span, ident: self.ident }
    }

    pub fn span(&self) -> (r: proc_macro2::Span)
        ensures
            r == self.span,
    {
        self.span
    }

    pub fn formal_name(&self) -> (r: String)
        ensures
            r@ == self.ident@,
    {
        self.ident.clone()
    }

    pub fn css_name(&self) -> (r: String)
        ensures
            r@ == var_css_name(self.ident@),
    {
        let s = self.ident.as_str();
        let n = s.unicode_len();
        if n >= 2 && s.get_char(0) == 'r' && s.get_char(1) == '#' {
            let mut r = String::new();
            let mut i: usize = 2;
            while i < n
                invariant
                    n == s@.len(),
                    2 <= i <= n,
                    r@ =~= s@.subrange(2, i as int),
                decreases n - i,
            {
                crate::text::push_char(&mut r, s.get_char(i));
                i = i + 1;
            }
            r
        } else {
            to_owned_string(s)
        }
    }
}

#[derive(Debug)]
pub enum CssToken {
    Ident(CssIdent),
    String(CssString),
    Delim(CssDelim),
    Number(CssNumber),
    Percentage(CssPercentage),
    Dimension(CssDimension),
    Color(CssColor),
    Function(CssFunction<CssTokenStream>),
    Paren(CssParen<CssTokenStream>),
    Bracket(CssBracket<CssTokenStream>),
    Brace(CssBrace<CssTokenStream>),
}

/// A sequence of CSS tokens, consumed from the front.
#[derive(Debug)]
pub struct CssTokenStream {
    pub last_span: proc_macro2::Span,
    /// The tokens not yet consumed.
    pub tokens: Vec<CssToken>,
}

/// Content equality of tokens: spans are ignored; for blocks, the tokens are
/// compared pairwise as far as the shorter block goes.
pub open spec fn token_content_eq(a: CssToken, b: CssToken) -> bool
    decreases a,
{
    match (a, b) {
        (CssToken::Ident(x), CssToken::Ident(y)) => x.formal_name@ == y.formal_name@,
        (CssToken::String(x), CssToken::String(y)) => maybe_str_eq(x.s, y.s),
        (CssToken::Delim(x), CssToken::Delim(y)) => x.s@ == y.s@,
        (CssToken::Number(x), CssToken::Number(y)) => maybe_num_eq(x.value, y.value),
        (CssToken::Percentage(x), CssToken::Percentage(y)) => maybe_num_eq(x.value, y.value),
        (CssToken::Dimension(x), CssToken::Dimension(y)) => maybe_num_eq(x.value, y.value)
            && x.unit@ == y.unit@,
        (CssToken::Color(x), CssToken::Color(y)) => maybe_str_eq(x.value, y.value),
        (CssToken::Function(x), CssToken::Function(y)) => x.formal_name@ == y.formal_name@
            && tokens_content_eq(x.block.tokens@, y.block.tokens@),
        (CssToken::Paren(x), CssToken::Paren(y)) => tokens_content_eq(x.block.tokens@, y.block.tokens@),
        (CssToken::Bracket(x), CssToken::Bracket(y)) => tokens_content_eq(
            x.block.tokens@,
            y.block.tokens@,
        ),
        (CssToken::Brace(x), CssToken::Brace(y)) => tokens_content_eq(x.block.tokens@, y.block.tokens@),
        _ => false,
    }
}

/// Pairwise content equality of two token sequences, up to the length of the shorter one.
pub open spec fn tokens_content_eq(a: Seq<CssToken>, b: Seq<CssToken>) -> bool
    decreases a,
{
    if a.len() == 0 || b.len() == 0 {
        true
    } else {
        token_content_eq(a[0], b[0]) && tokens_content_eq(a.drop_first(), b.drop_first())
    }
}

/// Content equality is reflexive: every token has the same content as itself.
pub proof fn lemma_content_eq_reflexive(t: CssToken)
    ensures
        token_content_eq(t, t),
    decreases t, 1nat,
{
    match t {
        CssToken::Function(x) => {
            assert(decreases_to!(t => x.block.tokens@));
            lemma_tokens_content_eq_reflexive(x.block.tokens@);
        },
        CssToken::Paren(x) => {
            assert(decreases_to!(t => x.block.tokens@));
            lemma_tokens_content_eq_reflexive(x.block.tokens@);
        },
        CssToken::Bracket(x) => {
            assert(decreases_to!(t => x.block.tokens@));
            lemma_tokens_content_eq_reflexive(x.block.tokens@);
        },
        CssToken::Brace(x) => {
            assert(decreases_to!(t => x.block.tokens@));
            lemma_tokens_content_eq_reflexive(x.block.tokens@);
        },
        CssToken::Number(x) => {
            assert(maybe_num_eq(x.value, x.value));
        },
        CssToken::Percentage(x) => {
            assert(maybe_num_eq(x.value, x.value));
        },
        CssToken::Dimension(x) => {
            assert(maybe_num_eq(x.value, x.value));
        },
        _ => {},
    }
}

/// Content equality of token sequences is reflexive.
pub proof fn lemma_tokens_content_eq_reflexive(s: Seq<CssToken>)
    ensures
        tokens_content_eq(s, s),
    decreases s, 0nat,
{
    if s.len() > 0 {
        lemma_content_eq_reflexive(s[0]);
        assert(s.drop_first() =~= s.subrange(1, s.len() as int));
        lemma_tokens_content_eq_reflexive(s.subrange(1, s.len() as int));
    }
}

/// Content equality is symmetric.
pub proof fn lemma_content_eq_symmetric(a: CssToken, b: CssToken)
    ensures
        token_content_eq(a, b) == token_content_eq(b, a),
    decreases a, 1nat,
{
    match (a, b) {
        (CssToken::Function(x), CssToken::Function(y)) => {
            assert(decreases_to!(a => x.block.tokens@));
            lemma_tokens_content_eq_symmetric(x.block.tokens@, y.block.tokens@);
        },
        (CssToken::Paren(x), CssToken::Paren(y)) => {
            assert(decreases_to!(a => x.block.tokens@));
            lemma_tokens_content_eq_symmetric(x.block.tokens@, y.block.tokens@);
        },
        (CssToken::Bracket(x), CssToken::Bracket(y)) => {
            assert(decreases_to!(a => x.block.tokens@));
            lemma_tokens_content_eq_symmetric(x.block.tokens@, y.block.tokens@);
        },
        (CssToken::Brace(x), CssToken::Brace(y)) => {
            assert(decreases_to!(a => x.block.tokens@));
            lemma_tokens_content_eq_symmetric(x.block.tokens@, y.block.tokens@);
        },
        _ => {},
    }
}

/// Content equality of token sequences is symmetric.
pub proof fn lemma_tokens_content_eq_symmetric(a: Seq<CssToken>, b: Seq<CssToken>)
    ensures
        tokens_content_eq(a, b) == tokens_content_eq(b, a),
    decreases a, 0nat,
{
    if a.len() > 0 && b.len() > 0 {
        lemma_content_eq_symmetric(a[0], b[0]);
        assert(a.drop_first() =~= a.subrange(1, a.len() as int));
        lemma_tokens_content_eq_symmetric(a.subrange(1, a.len() as int), b.drop_first());
    }
}

/// Two possibly dynamic values are the same but for the span of a dynamic
/// reference.
pub open spec fn maybe_same_but_span<T>(a: MaybeDyn<T>, b: MaybeDyn<T>) -> bool {
    match (a, b) {
        (MaybeDyn::Static(x), MaybeDyn::Static(y)) => x == y,
        (MaybeDyn::Dyn(x), MaybeDyn::Dyn(y)) => x.index == y.index,
        _ => false,
    }
}

/// Two tokens are the same but for their spans (and those of the tokens
/// inside them): the same text read at two places of the source.
pub open spec fn same_but_spans(a: CssToken, b: CssToken) -> bool
    decreases a,
{
    match (a, b) {
        (CssToken::Ident(x), CssToken::Ident(y)) => x.formal_name == y.formal_name,
        (CssToken::String(x), CssToken::String(y)) => maybe_same_but_span(x.s, y.s),
        (CssToken::Delim(x), CssToken::Delim(y)) => x.s == y.s,
        (CssToken::Number(x), CssToken::Number(y)) => maybe_same_but_span(x.value, y.value),
        (CssToken::Percentage(x), CssToken::Percentage(y)) => maybe_same_but_span(x.value, y.value),
        (CssToken::Dimension(x), CssToken::Dimension(y)) => maybe_same_but_span(x.value, y.value)
            && x.unit == y.unit,
        (CssToken::Color(x), CssToken::Color(y)) => maybe_same_but_span(x.value, y.value),
        (CssToken::Function(x), CssToken::Function(y)) => x.formal_name == y.formal_name
            && seq_same_but_spans(x.block.tokens@, y.block.tokens@),
        (CssToken::Paren(x), CssToken::Paren(y)) => seq_same_but_spans(x.block.tokens@, y.block.tokens@),
        (CssToken::Bracket(x), CssToken::Bracket(y)) => seq_same_but_spans(
            x.block.tokens@,
            y.block.tokens@,
        ),
        (CssToken::Brace(x), CssToken::Brace(y)) => seq_same_but_spans(x.block.tokens@, y.block.tokens@),
        _ => false,
    }
}

/// `same_but_spans` of two token sequences, token by token.
pub open spec fn seq_same_but_spans(a: Seq<CssToken>, b: Seq<CssToken>) -> bool
    decreases a,
{
    a.len() == b.len() && (a.len() == 0 || (same_but_spans(a[0], b[0]) && seq_same_but_spans(
        a.drop_first(),
        b.drop_first(),
    )))
}

/// Content equality ignores spans: tokens that are the same but for their
/// spans have the same content.
pub proof fn lemma_content_eq_ignores_spans(a: CssToken, b: CssToken)
    requires
        same_but_spans(a, b),
    ensures
        token_content_eq(a, b),
    decreases a, 1nat,
{
    match (a, b) {
        (CssToken::Function(x), CssToken::Function(y)) => {
            assert(decreases_to!(a => x.block.tokens@));
            lemma_tokens_content_eq_ignores_spans(x.block.tokens@, y.block.tokens@);
        },
        (CssToken::Paren(x), CssToken::Paren(y)) => {
            assert(decreases_to!(a => x.block.tokens@));
            lemma_tokens_content_eq_ignores_spans(x.block.tokens@, y.block.tokens@);
        },
        (CssToken::Bracket(x), CssToken::Bracket(y)) => {
            assert(decreases_to!(a => x.block.tokens@));
            lemma_tokens_content_eq_ignores_spans(x.block.tokens@, y.block.tokens@);
        },
        (CssToken::Brace(x), CssToken::Brace(y)) => {
            assert(decreases_to!(a => x.block.tokens@));
            lemma_tokens_content_eq_ignores_spans(x.block.tokens@, y.block.tokens@);
        },
        (CssToken::Number(x), CssToken::Number(y)) => {
            if let MaybeDyn::Static(n) = x.value {
                assert(number_eq(n, n));
            }
        },
        (CssToken::Percentage(x), CssToken::Percentage(y)) => {
            if let MaybeDyn::Static(n) = x.value {
                assert(number_eq(n, n));
            }
        },
        (CssToken::Dimension(x), CssToken::Dimension(y)) => {
            if let MaybeDyn::Static(n) = x.value {
                assert(number_eq(n, n));
            }
        },
        _ => {},
    }
}

/// `lemma_content_eq_ignores_spans` for token sequences.
pub proof fn lemma_tokens_content_eq_ignores_spans(a: Seq<CssToken>, b: Seq<CssToken>)
    requires
        seq_same_but_spans(a, b),
    ensures
        tokens_content_eq(a, b),
    decreases a, 0nat,
{
    if a.len() > 0 && b.len() > 0 {
        lemma_content_eq_ignores_spans(a[0], b[0]);
        assert(a.drop_first() =~= a.subrange(1, a.len() as int));
        lemma_tokens_content_eq_ignores_spans(a.subrange(1, a.len() as int), b.drop_first());
    }
}

/// The span of a token.
pub open spec fn token_span(t: CssToken) -> proc_macro2::Span {
    match t {
        CssToken::Ident(x) => x.span,
        CssToken::String(x) => x.span,
        CssToken::Delim(x) => x.span,
        CssToken::Number(x) => x.span,
        CssToken::Percentage(x) => x.span,
        CssToken::Dimension(x) => x.span,
        CssToken::Color(x) => x.span,
        CssToken::Function(x) => x.span,
        CssToken::Paren(x) => x.span,
        CssToken::Bracket(x) => x.span,
        CssToken::Brace(x) => x.span,
    }
}

impl CssToken {
    pub fn content_eq(&self, other: &Self) -> (r: bool)
        ensures
            r == token_content_eq(*self, *other),
        decreases self,
    {
        match (self, other) {
            (CssToken::Ident(x), CssToken::Ident(y)) => str_eq(
                x.formal_name.as_str(),
                y.formal_name.as_str(),
            ),
            (CssToken::String(x), CssToken::String(y)) => x.s.eq_str_value(&y.s),
            (CssToken::Delim(x), CssToken::Delim(y)) => str_eq(x.s, y.s),
            (CssToken::Number(x), CssToken::Number(y)) => x.value.eq_num_value(&y.value),
            (CssToken::Percentage(x), CssToken::Percentage(y)) => x.value.eq_num_value(&y.value),
            (CssToken::Dimension(x), CssToken::Dimension(y)) => x.value.eq_num_value(&y.value)
                && str_eq(x.unit.as_str(), y.unit.as_str()),
            (CssToken::Color(x), CssToken::Color(y)) => x.value.eq_str_value(&y.value),
            (CssToken::Function(x), CssToken::Function(y)) => {
                let mut eq = str_eq(x.formal_name.as_str(), y.formal_name.as_str());
                if eq {
                    eq = Self::seq_content_eq(&x.block.tokens, &y.block.tokens);
                }
                eq
            },
            (CssToken::Paren(x), CssToken::Paren(y)) => Self::seq_content_eq(
                &x.block.tokens,
                &y.block.tokens,
            ),
            (CssToken::Bracket(x), CssToken::Bracket(y)) => Self::seq_content_eq(
                &x.block.tokens,
                &y.block.tokens,
            ),
            (CssToken::Brace(x), CssToken::Brace(y)) => Self::seq_content_eq(
                &x.block.tokens,
                &y.block.tokens,
            ),
            _ => false,
        }
    }

    fn seq_content_eq(a: &Vec<CssToken>, b: &Vec<CssToken>) -> (r: bool)
        ensures
            r == tokens_content_eq(a@, b@),
        decreases a,
    {
        let n = if a.len() < b.len() { a.len() } else { b.len() };
        let mut i: usize = 0;
        assert(a@.skip(0) =~= a@);
        assert(b@.skip(0) =~= b@);
        while i < n
            invariant
                n <= a.len(),
                n <= b.len(),
                n == a.len() || n == b.len(),
                i <= n,
                tokens_content_eq(a@, b@) == tokens_content_eq(a@.skip(i as int), b@.skip(i as int)),
            decreases n - i,
        {
            proof {
                assert(decreases_to!(a => a@));
                assert(decreases_to!(a@ => a@[i as int]));
            }
            if !a[i].content_eq(&b[i]) {
                proof {
                    assert(a@.skip(i as int)[0] == a@[i as int]);
                    assert(b@.skip(i as int)[0] == b@[i as int]);
                }
                return false;
            }
            proof {
                assert(a@.skip(i as int).drop_first() =~= a@.skip(i + 1));
                assert(b@.skip(i as int).drop_first() =~= b@.skip(i + 1));
            }
            i = i + 1;
        }
        proof {
            assert(a@.skip(i as int).len() == 0 || b@.skip(i as int).len() == 0);
        }
        true
    }

    pub fn span(&self) -> (r: proc_macro2::Span)
        ensures
            r == token_span(*self),
    {
        match self {
            CssToken::Ident(x) => x.span,
            CssToken::String(x) => x.span,
            CssToken::Delim(x) => x.span,
            CssToken::Number(x) => x.span,
            CssToken::Percentage(x) => x.span,
            CssToken::Dimension(x) => x.span,
            CssToken::Color(x) => x.span,
            CssToken::Function(x) => x.span,
            CssToken::Paren(x) => x.span,
            CssToken::Bracket(x) => x.span,
            CssToken::Brace(x) => x.span,
        }
    }
}


/// The message `expected `<what>``.
pub open spec fn expected_message(what: Seq<char>) -> Seq<char> {
    "expected `"@ + what + "`"@
}

fn expected_error(span: proc_macro2::Span, what: &str) -> (r: ParseError)
    ensures
        r.span == span,
        r.message@ == expected_message(what@),
{
    let mut message = String::new();
    message.append("expected `");
    message.append(what);
    message.append("`");
    ParseError { span, message }
}

/// The span a stream reports: that of its first remaining token, or the last span.
pub open spec fn stream_span(last_span: proc_macro2::Span, tokens: Seq<CssToken>) -> proc_macro2::Span {
    if tokens.len() > 0 {
        token_span(tokens[0])
    } else {
        last_span
    }
}

impl CssTokenStream {
    pub open spec fn spec_span(&self) -> proc_macro2::Span {
        stream_span(self.last_span, self.tokens@)
    }

    pub fn new(last_span: proc_macro2::Span, tokens: Vec<CssToken>) -> (r: Self)
        ensures
            r.last_span == last_span,
            r.tokens@ == tokens@,
    {
        Self { last_span, tokens }
    }

    pub fn is_ended(&self) -> (r: bool)
        ensures
            r == (self.tokens@.len() == 0),
    {
        self.tokens.len() == 0
    }

    pub fn expect_ended(&self) -> (r: Result<(), ParseError>)
        ensures
            r is Ok <==> self.tokens@.len() == 0,
            r matches Err(e) ==> e.span == token_span(self.tokens@[0]) && e.message@
                == "expected end"@,
    {
        if self.tokens.len() > 0 {
            Err(ParseError::new(self.tokens[0].span(), "expected end"))
        } else {
            Ok(())
        }
    }

    pub fn span(&self) -> (r: proc_macro2::Span)
        ensures
            r == self.spec_span(),
    {
        if self.tokens.len() > 0 {
            self.tokens[0].span()
        } else {
            self.last_span
        }
    }

    /// Takes the first token.
    pub fn next(&mut self) -> (r: Result<CssToken, ParseError>)
        ensures
            final(self).last_span == old(self).last_span,
            old(self).tokens@.len() > 0 ==> r == Ok::<CssToken, ParseError>(old(self).tokens@[0])
                && final(self).tokens@ == old(self).tokens@.drop_first(),
            old(self).tokens@.len() == 0 ==> final(self).tokens@ == old(self).tokens@ && (r matches Err(
                e,
            ) && e.span == old(self).last_span && e.message@ == "unexpected end"@),
    {
        if self.tokens.len() > 0 {
            let t = self.tokens.remove(0);
            assert(old(self).tokens@.remove(0) =~= old(self).tokens@.drop_first());
            Ok(t)
        } else {
            Err(ParseError::new(self.last_span, "unexpected end"))
        }
    }

    /// Looks at the first token without taking it.
    pub fn peek(&self) -> (r: Result<&CssToken, ParseError>)
        ensures
            self.tokens@.len() > 0 ==> (r matches Ok(t) && *t == self.tokens@[0]),
            self.tokens@.len() == 0 ==> (r matches Err(e) && e.span == self.last_span && e.message@
                == "unexpected end"@),
    {
        if self.tokens.len() > 0 {
            Ok(&self.tokens[0])
        } else {
            Err(ParseError::new(self.last_span, "unexpected end"))
        }
    }

    /// Takes the first token when it is the identifier `keyword`.
    pub fn expect_keyword(&mut self, keyword: &str) -> (r: Result<CssIdent, ParseError>)
        ensures
            final(self).last_span == old(self).last_span,
            r is Ok <==> (old(self).tokens@.len() > 0 && (old(self).tokens@[0] matches CssToken::Ident(
                x,
            ) && x.formal_name@ == keyword@)),
            r matches Ok(x) ==> CssToken::Ident(x) == old(self).tokens@[0] && final(self).tokens@
                == old(self).tokens@.drop_first(),
            r is Err ==> final(self).tokens@ == old(self).tokens@,
            r matches Err(e) ==> e.span == old(self).spec_span() && (if old(self).tokens@.len()
                == 0 {
                e.message@ == "unexpected end"@
            } else {
                e.message@ == expected_message(keyword@)
            }),
    {
        if self.tokens.len() == 0 {
            return Err(ParseError::new(self.last_span, "unexpected end"));
        }
        let matched = match &self.tokens[0] {
            CssToken::Ident(x) => x.is(keyword),
            _ => false,
        };
        if matched {
            let t = self.tokens.remove(0);
            assert(old(self).tokens@.remove(0) =~= old(self).tokens@.drop_first());
            match t {
                CssToken::Ident(x) => Ok(x),
                _ => {
                    assert(false);
                    Err(expected_error(self.last_span, keyword))
                },
            }
        } else {
            Err(expected_error(self.span(), keyword))
        }
    }

    /// Takes the first token when it is the delimiter `s`.
    pub fn expect_delim(&mut self, s: &str) -> (r: Result<CssDelim, ParseError>)
        ensures
            final(self).last_span == old(self).last_span,
            r is Ok <==> (old(self).tokens@.len() > 0 && (old(self).tokens@[0] matches CssToken::Delim(
                x,
            ) && x.s@ == s@)),
            r matches Ok(x) ==> CssToken::Delim(x) == old(self).tokens@[0] && final(self).tokens@
                == old(self).tokens@.drop_first(),
            r is Err ==> final(self).tokens@ == old(self).tokens@,
            r matches Err(e) ==> e.span == old(self).spec_span() && (if old(self).tokens@.len()
                == 0 {
                e.message@ == "unexpected end"@
            } else {
                e.message@ == expected_message(s@)
            }),
    {
        if self.tokens.len() == 0 {
            return Err(ParseError::new(self.last_span, "unexpected end"));
        }
        let matched = match &self.tokens[0] {
            CssToken::Delim(x) => x.is(s),
            _ => false,
        };
        if matched {
            let t = self.tokens.remove(0);
            assert(old(self).tokens@.remove(0) =~= old(self).tokens@.drop_first());
            match t {
                CssToken::Delim(x) => Ok(x),
                _ => {
                    assert(false);
                    Err(expected_error(self.last_span, s))
                },
            }
        } else {
            Err(expected_error(self.span(), s))
        }
    }

    /// Takes the first token when it is an identifier.
    pub fn expect_ident(&mut self) -> (r: Result<CssIdent, ParseError>)
        ensures
            final(self).last_span == old(self).last_span,
            r is Ok <==> (old(self).tokens@.len() > 0 && old(self).tokens@[0] is Ident),
            r matches Ok(x) ==> CssToken::Ident(x) == old(self).tokens@[0] && final(self).tokens@
                == old(self).tokens@.drop_first(),
            r is Err ==> final(self).tokens@ == old(self).tokens@,
            r matches Err(e) ==> e.span == old(self).spec_span() && (if old(self).tokens@.len()
                == 0 {
                e.message@ == "unexpected end"@
            } else {
                e.message@ == "expected CSS identifier"@
            }),
    {
        if self.tokens.len() == 0 {
            return Err(ParseError::new(self.last_span, "unexpected end"));
        }
        if let CssToken::Ident(_) = &self.tokens[0] {
            let t = self.tokens.remove(0);
            assert(old(self).tokens@.remove(0) =~= old(self).tokens@.drop_first());
            if let CssToken::Ident(x) = t {
                return Ok(x);
            }
        }
        Err(ParseError::new(self.span(), "expected CSS identifier"))
    }

    /// Takes the first token when it is a string.
    pub fn expect_string(&mut self) -> (r: Result<CssString, ParseError>)
        ensures
            final(self).last_span == old(self).last_span,
            r is Ok <==> (old(self).tokens@.len() > 0 && old(self).tokens@[0] is String),
            r matches Ok(x) ==> CssToken::String(x) == old(self).tokens@[0] && final(self).tokens@
                == old(self).tokens@.drop_first(),
            r is Err ==> final(self).tokens@ == old(self).tokens@,
            r matches Err(e) ==> e.span == old(self).spec_span() && (if old(self).tokens@.len()
                == 0 {
                e.message@ == "unexpected end"@
            } else {
                e.message@ == "expected CSS string literal"@
            }),
    {
        if self.tokens.len() == 0 {
            return Err(ParseError::new(self.last_span, "unexpected end"));
        }
        if let CssToken::String(_) = &self.tokens[0] {
            let t = self.tokens.remove(0);
            assert(old(self).tokens@.remove(0) =~= old(self).tokens@.drop_first());
            if let CssToken::String(x) = t {
                return Ok(x);
            }
        }
        Err(ParseError::new(self.span(), "expected CSS string literal"))
    }

    /// Takes the first token when it is a number.
    pub fn expect_number(&mut self) -> (r: Result<CssNumber, ParseError>)
        ensures
            final(self).last_span == old(self).last_span,
            r is Ok <==> (old(self).tokens@.len() > 0 && old(self).tokens@[0] is Number),
            r matches Ok(x) ==> CssToken::Number(x) == old(self).tokens@[0] && final(self).tokens@
                == old(self).tokens@.drop_first(),
            r is Err ==> final(self).tokens@ == old(self).tokens@,
            r matches Err(e) ==> e.span == old(self).spec_span() && (if old(self).tokens@.len()
                == 0 {
                e.message@ == "unexpected end"@
            } else {
                e.message@ == "expected number"@
            }),
    {
        if self.tokens.len() == 0 {
            return Err(ParseError::new(self.last_span, "unexpected end"));
        }
        if let CssToken::Number(_) = &self.tokens[0] {
            let t = self.tokens.remove(0);
            assert(old(self).tokens@.remove(0) =~= old(self).tokens@.drop_first());
            if let CssToken::Number(x) = t {
                return Ok(x);
            }
        }
        Err(ParseError::new(self.span(), "expected number"))
    }

    /// Takes the first token when it is a percentage.
    pub fn expect_percentage(&mut self) -> (r: Result<CssPercentage, ParseError>)
        ensures
            final(self).last_span == old(self).last_span,
            r is Ok <==> (old(self).tokens@.len() > 0 && old(self).tokens@[0] is Percentage),
            r matches Ok(x) ==> CssToken::Percentage(x) == old(self).tokens@[0] && final(self).tokens@
                == old(self).tokens@.drop_first(),
            r is Err ==> final(self).tokens@ == old(self).tokens@,
            r matches Err(e) ==> e.span == old(self).spec_span() && (if old(self).tokens@.len()
                == 0 {
                e.message@ == "unexpected end"@
            } else {
                e.message@ == "expected percentage (number with `%`)"@
            }),
    {
        if self.tokens.len() == 0 {
            return Err(ParseError::new(self.last_span, "unexpected end"));
        }
        if let CssToken::Percentage(_) = &self.tokens[0] {
            let t = self.tokens.remove(0);
            assert(old(self).tokens@.remove(0) =~= old(self).tokens@.drop_first());
            if let CssToken::Percentage(x) = t {
                return Ok(x);
            }
        }
        Err(ParseError::new(self.span(), "expected percentage (number with `%`)"))
    }

    /// Takes the first token when it is a dimension.
    pub fn expect_dimension(&mut self) -> (r: Result<CssDimension, ParseError>)
        ensures
            final(self).last_span == old(self).last_span,
            r is Ok <==> (old(self).tokens@.len() > 0 && old(self).tokens@[0] is Dimension),
            r matches Ok(x) ==> CssToken::Dimension(x) == old(self).tokens@[0] && final(self).tokens@
                == old(self).tokens@.drop_first(),
            r is Err ==> final(self).tokens@ == old(self).tokens@,
            r matches Err(e) ==> e.span == old(self).spec_span() && (if old(self).tokens@.len()
                == 0 {
                e.message@ == "unexpected end"@
            } else {
                e.message@ == "expected dimension (number with unit)"@
            }),
    {
        if self.tokens.len() == 0 {
            return Err(ParseError::new(self.last_span, "unexpected end"));
        }
        if let CssToken::Dimension(_) = &self.tokens[0] {
            let t = self.tokens.remove(0);
            assert(old(self).tokens@.remove(0) =~= old(self).tokens@.drop_first());
            if let CssToken::Dimension(x) = t {
                return Ok(x);
            }
        }
        Err(ParseError::new(self.span(), "expected dimension (number with unit)"))
    }

    /// Takes the first token when it is a CSS function and parses its block with `f`,
    /// which gets the block (and, for a function, its name) and hands back what
    /// it left of the block with its result. The block must be used up:
    /// tokens left in it give an "expected end" error at the first of them.
    /// Where the first token is not such a block it stays, with an error.
    pub fn parse_function<R, F: FnOnce(&String, CssTokenStream) -> (CssTokenStream, Result<R, ParseError>)>(
        &mut self,
        f: F,
    ) -> (r: Result<CssFunction<R>, ParseError>)
        requires
            old(self).tokens@.len() > 0 ==> (old(self).tokens@[0] matches CssToken::Function(x)
                ==> call_requires(f, (&x.formal_name, x.block))),
        ensures
            final(self).last_span == old(self).last_span,
            !(old(self).tokens@.len() > 0 && old(self).tokens@[0] is Function) ==> {
                &&& final(self).tokens@ == old(self).tokens@
                &&& r matches Err(e) && e.span == old(self).spec_span() && (if old(self).tokens@.len()
                    == 0 {
                    e.message@ == "unexpected end"@
                } else {
                    e.message@ == "expected CSS function"@
                })
            },
            old(self).tokens@.len() > 0 ==> (old(self).tokens@[0] matches CssToken::Function(x) ==> {
                &&& final(self).tokens@ == old(self).tokens@.drop_first()
                &&& exists|out: (CssTokenStream, Result<R, ParseError>)|
                    #[trigger] call_ensures(f, (&x.formal_name, x.block), out) && match out.1 {
                        Err(e) => r == Err::<CssFunction<R>, ParseError>(e),
                        Ok(v) => if out.0.tokens@.len() == 0 {
                            r == Ok::<CssFunction<R>, ParseError>(CssFunction { span: x.span, formal_name: x.formal_name, block: v })
                        } else {
                            r matches Err(e) && e.span == token_span(out.0.tokens@[0]) && e.message@
                                == "expected end"@
                        },
                    }
            }),
    {
        if self.tokens.len() == 0 {
            return Err(ParseError::new(self.last_span, "unexpected end"));
        }
        if let CssToken::Function(_) = &self.tokens[0] {
            let t = self.tokens.remove(0);
            assert(old(self).tokens@.remove(0) =~= old(self).tokens@.drop_first());
            if let CssToken::Function(x) = t {
                let CssFunction { span, formal_name, block } = x;
                let out = f(&formal_name, block);
                let ghost g = out;
                let (rest, res) = out;
                match res {
                    Err(e) => {
                        return Err(e);
                    },
                    Ok(v) => {
                        match rest.expect_ended() {
                            Err(e) => {
                                return Err(e);
                            },
                            Ok(()) => {
                                return Ok(CssFunction { span, formal_name, block: v });
                            },
                        }
                    },
                }
            }
        }
        Err(ParseError::new(self.span(), "expected CSS function"))
    }

    /// Takes the first token when it is a ``(...)` block and parses its block with `f`,
    /// which gets the block (and, for a function, its name) and hands back what
    /// it left of the block with its result. The block must be used up:
    /// tokens left in it give an "expected end" error at the first of them.
    /// Where the first token is not such a block it stays, with an error.
    pub fn parse_paren<R, F: FnOnce(CssTokenStream) -> (CssTokenStream, Result<R, ParseError>)>(
        &mut self,
        f: F,
    ) -> (r: Result<CssParen<R>, ParseError>)
        requires
            old(self).tokens@.len() > 0 ==> (old(self).tokens@[0] matches CssToken::Paren(x)
                ==> call_requires(f, (x.block,))),
        ensures
            final(self).last_span == old(self).last_span,
            !(old(self).tokens@.len() > 0 && old(self).tokens@[0] is Paren) ==> {
                &&& final(self).tokens@ == old(self).tokens@
                &&& r matches Err(e) && e.span == old(self).spec_span() && (if old(self).tokens@.len()
                    == 0 {
                    e.message@ == "unexpected end"@
                } else {
                    e.message@ == "expected `(...)`"@
                })
            },
            old(self).tokens@.len() > 0 ==> (old(self).tokens@[0] matches CssToken::Paren(x) ==> {
                &&& final(self).tokens@ == old(self).tokens@.drop_first()
                &&& exists|out: (CssTokenStream, Result<R, ParseError>)|
                    #[trigger] call_ensures(f, (x.block,), out) && match out.1 {
                        Err(e) => r == Err::<CssParen<R>, ParseError>(e),
                        Ok(v) => if out.0.tokens@.len() == 0 {
                            r == Ok::<CssParen<R>, ParseError>(CssParen { span: x.span, block: v })
                        } else {
                            r matches Err(e) && e.span == token_span(out.0.tokens@[0]) && e.message@
                                == "expected end"@
                        },
                    }
            }),
    {
        if self.tokens.len() == 0 {
            return Err(ParseError::new(self.last_span, "unexpected end"));
        }
        if let CssToken::Paren(_) = &self.tokens[0] {
            let t = self.tokens.remove(0);
            assert(old(self).tokens@.remove(0) =~= old(self).tokens@.drop_first());
            if let CssToken::Paren(x) = t {
                let CssParen { span, block } = x;
                let out = f(block);
                let ghost g = out;
                let (rest, res) = out;
                match res {
                    Err(e) => {
                        return Err(e);
                    },
                    Ok(v) => {
                        match rest.expect_ended() {
                            Err(e) => {
                                return Err(e);
                            },
                            Ok(()) => {
                                return Ok(CssParen { span, block: v });
                            },
                        }
                    },
                }
            }
        }
        Err(ParseError::new(self.span(), "expected `(...)`"))
    }

    /// Takes the first token when it is a ``[...]` block and parses its block with `f`,
    /// which gets the block (and, for a function, its name) and hands back what
    /// it left of the block with its result. The block must be used up:
    /// tokens left in it give an "expected end" error at the first of them.
    /// Where the first token is not such a block it stays, with an error.
    pub fn parse_bracket<R, F: FnOnce(CssTokenStream) -> (CssTokenStream, Result<R, ParseError>)>(
        &mut self,
        f: F,
    ) -> (r: Result<CssBracket<R>, ParseError>)
        requires
            old(self).tokens@.len() > 0 ==> (old(self).tokens@[0] matches CssToken::Bracket(x)
                ==> call_requires(f, (x.block,))),
        ensures
            final(self).last_span == old(self).last_span,
            !(old(self).tokens@.len() > 0 && old(self).tokens@[0] is Bracket) ==> {
                &&& final(self).tokens@ == old(self).tokens@
                &&& r matches Err(e) && e.span == old(self).spec_span() && (if old(self).tokens@.len()
                    == 0 {
                    e.message@ == "unexpected end"@
                } else {
                    e.message@ == "expected `[...]`"@
                })
            },
            old(self).tokens@.len() > 0 ==> (old(self).tokens@[0] matches CssToken::Bracket(x) ==> {
                &&& final(self).tokens@ == old(self).tokens@.drop_first()
                &&& exists|out: (CssTokenStream, Result<R, ParseError>)|
                    #[trigger] call_ensures(f, (x.block,), out) && match out.1 {
                        Err(e) => r == Err::<CssBracket<R>, ParseError>(e),
                        Ok(v) => if out.0.tokens@.len() == 0 {
                            r == Ok::<CssBracket<R>, ParseError>(CssBracket { span: x.span, block: v })
                        } else {
                            r matches Err(e) && e.span == token_span(out.0.tokens@[0]) && e.message@
                                == "expected end"@
                        },
                    }
            }),
    {
        if self.tokens.len() == 0 {
            return Err(ParseError::new(self.last_span, "unexpected end"));
        }
        if let CssToken::Bracket(_) = &self.tokens[0] {
            let t = self.tokens.remove(0);
            assert(old(self).tokens@.remove(0) =~= old(self).tokens@.drop_first());
            if let CssToken::Bracket(x) = t {
                let CssBracket { span, block } = x;
                let out = f(block);
                let ghost g = out;
                let (rest, res) = out;
                match res {
                    Err(e) => {
                        return Err(e);
                    },
                    Ok(v) => {
                        match rest.expect_ended() {
                            Err(e) => {
                                return Err(e);
                            },
                            Ok(()) => {
                                return Ok(CssBracket { span, block: v });
                            },
                        }
                    },
                }
            }
        }
        Err(ParseError::new(self.span(), "expected `[...]`"))
    }

    /// Takes the first token when it is a ``{...}` block and parses its block with `f`,
    /// which gets the block (and, for a function, its name) and hands back what
    /// it left of the block with its result. The block must be used up:
    /// tokens left in it give an "expected end" error at the first of them.
    /// Where the first token is not such a block it stays, with an error.
    pub fn parse_brace<R, F: FnOnce(CssTokenStream) -> (CssTokenStream, Result<R, ParseError>)>(
        &mut self,
        f: F,
    ) -> (r: Result<CssBrace<R>, ParseError>)
        requires
            old(self).tokens@.len() > 0 ==> (old(self).tokens@[0] matches CssToken::Brace(x)
                ==> call_requires(f, (x.block,))),
        ensures
            final(self).last_span == old(self).last_span,
            !(old(self).tokens@.len() > 0 && old(self).tokens@[0] is Brace) ==> {
                &&& final(self).tokens@ == old(self).tokens@
                &&& r matches Err(e) && e.span == old(self).spec_span() && (if old(self).tokens@.len()
                    == 0 {
                    e.message@ == "unexpected end"@
                } else {
                    e.message@ == "expected `{...}`"@
                })
            },
            old(self).tokens@.len() > 0 ==> (old(self).tokens@[0] matches CssToken::Brace(x) ==> {
                &&& final(self).tokens@ == old(self).tokens@.drop_first()
                &&& exists|out: (CssTokenStream, Result<R, ParseError>)|
                    #[trigger] call_ensures(f, (x.block,), out) && match out.1 {
                        Err(e) => r == Err::<CssBrace<R>, ParseError>(e),
                        Ok(v) => if out.0.tokens@.len() == 0 {
                            r == Ok::<CssBrace<R>, ParseError>(CssBrace { span: x.span, block: v })
                        } else {
                            r matches Err(e) && e.span == token_span(out.0.tokens@[0]) && e.message@
                                == "expected end"@
                        },
                    }
            }),
    {
        if self.tokens.len() == 0 {
            return Err(ParseError::new(self.last_span, "unexpected end"));
        }
        if let CssToken::Brace(_) = &self.tokens[0] {
            let t = self.tokens.remove(0);
            assert(old(self).tokens@.remove(0) =~= old(self).tokens@.drop_first());
            if let CssToken::Brace(x) = t {
                let CssBrace { span, block } = x;
                let out = f(block);
                let ghost g = out;
                let (rest, res) = out;
                match res {
                    Err(e) => {
                        return Err(e);
                    },
                    Ok(v) => {
                        match rest.expect_ended() {
                            Err(e) => {
                                return Err(e);
                            },
                            Ok(()) => {
                                return Ok(CssBrace { span, block: v });
                            },
                        }
                    },
                }
            }
        }
        Err(ParseError::new(self.span(), "expected `{...}`"))
    }

    /// Takes all remaining tokens as a property value.
    pub fn parse_value(_name: &CssIdent, tokens: &mut CssTokenStream) -> (r: Result<CssTokenStream, ParseError>)
        ensures
            r matches Ok(v) && v.last_span == old(tokens).last_span && v.tokens@ == old(tokens).tokens@,
            final(tokens).last_span == old(tokens).last_span,
            final(tokens).tokens@.len() == 0,
    {
        let mut taken: Vec<CssToken> = Vec::new();
        std::mem::swap(&mut taken, &mut tokens.tokens);
        Ok(CssTokenStream { last_span: tokens.last_span, tokens: taken })
    }
}


/// The text of a number as CSS shows it.
pub open spec fn number_text(n: Number) -> Seq<char> {
    match n {
        Number::I32(x) => int_text(x as int),
        Number::F32(s) => s@,
    }
}

/// Appends the text of a number.
pub fn push_number_text(out: &mut String, n: &Number)
    ensures
        final(out)@ == old(out)@ + number_text(*n),
{
    match n {
        Number::I32(x) => push_i32_text(out, *x),
        Number::F32(s) => out.append(s.as_str()),
    }
}

/// The text written for a number token: the text of its value, resolved
/// against `values` where it is dynamic.
pub open spec fn number_token_text(value: MaybeDyn<Number>, values: Seq<VarDynValue>) -> Seq<char> {
    number_text(maybe_num_value(value, values).unwrap())
}

/// A possibly dynamic string resolves against `values`.
pub open spec fn str_resolves(m: MaybeDyn<String>, values: Seq<VarDynValue>) -> bool {
    dyn_in_range(m, values) && maybe_str_value(m, values) is Some
}

/// A possibly dynamic number resolves against `values`.
pub open spec fn num_resolves(m: MaybeDyn<Number>, values: Seq<VarDynValue>) -> bool {
    dyn_in_range(m, values) && maybe_num_value(m, values) is Some
}

/// A token can be written: its dynamic values resolve to the right kinds, and
/// its brace nesting fits in `room` more indentation levels.
pub open spec fn token_writable(t: CssToken, values: Seq<VarDynValue>, room: nat) -> bool
    decreases t,
{
    match t {
        CssToken::Ident(_) => true,
        CssToken::Delim(_) => true,
        CssToken::String(x) => str_resolves(x.s, values),
        CssToken::Color(x) => str_resolves(x.value, values),
        CssToken::Number(x) => num_resolves(x.value, values),
        CssToken::Percentage(x) => num_resolves(x.value, values),
        CssToken::Dimension(x) => num_resolves(x.value, values),
        CssToken::Function(x) => tokens_writable(x.block.tokens@, values, room),
        CssToken::Paren(x) => tokens_writable(x.block.tokens@, values, room),
        CssToken::Bracket(x) => tokens_writable(x.block.tokens@, values, room),
        CssToken::Brace(x) => room > 0 && tokens_writable(x.block.tokens@, values, (room - 1) as nat),
    }
}

/// Every token of a sequence can be written.
pub open spec fn tokens_writable(ts: Seq<CssToken>, values: Seq<VarDynValue>, room: nat) -> bool
    decreases ts,
{
    ts.len() == 0 || (token_writable(ts[0], values, room) && tokens_writable(
        ts.drop_first(),
        values,
        room,
    ))
}

/// The writer state after writing a token.
pub open spec fn token_written(st: WriterState, t: CssToken, values: Seq<VarDynValue>) -> WriterState
    decreases t,
{
    match t {
        CssToken::Ident(x) => st.after_ident(css_name_of(x.formal_name@), true),
        CssToken::String(x) => st.after_custom(
            SepRule::DebugOnly,
            debug_str_text(maybe_str_value(x.s, values).unwrap()),
            WriteCssSepCond::Other,
        ),
        CssToken::Delim(x) => st.after_delim(x.s@, true),
        CssToken::Number(x) => st.after_custom(
            SepRule::Numeric,
            number_token_text(x.value, values),
            WriteCssSepCond::Digit,
        ),
        CssToken::Percentage(x) => st.after_custom(
            SepRule::Numeric,
            number_text(maybe_num_value(x.value, values).unwrap()) + "%"@,
            WriteCssSepCond::Other,
        ),
        CssToken::Dimension(x) => st.after_custom(
            SepRule::Numeric,
            number_text(maybe_num_value(x.value, values).unwrap()) + x.unit@,
            WriteCssSepCond::NonIdentAlpha,
        ),
        CssToken::Color(x) => st.after_custom(
            SepRule::DebugOnly,
            "#"@ + maybe_str_value(x.value, values).unwrap(),
            WriteCssSepCond::Digit,
        ),
        CssToken::Function(x) => tokens_written(
            st.function_opened(true, css_name_of(x.formal_name@)),
            x.block.tokens@,
            values,
        ).block_closed(")"@),
        CssToken::Paren(x) => tokens_written(st.paren_opened(), x.block.tokens@, values).block_closed(
            ")"@,
        ),
        CssToken::Bracket(x) => tokens_written(
            st.bracket_opened(),
            x.block.tokens@,
            values,
        ).block_closed("]"@),
        CssToken::Brace(x) => tokens_written(st.brace_opened(), x.block.tokens@, values).brace_closed(),
    }
}

/// The writer state after writing a sequence of tokens in order.
pub open spec fn tokens_written(st: WriterState, ts: Seq<CssToken>, values: Seq<VarDynValue>) -> WriterState
    decreases ts,
{
    if ts.len() == 0 {
        st
    } else {
        tokens_written(token_written(st, ts[0], values), ts.drop_first(), values)
    }
}

/// The room for brace nesting that a writer state leaves.
pub open spec fn room_of(st: WriterState) -> nat {
    (usize::MAX - st.tab_count) as nat
}

/// Writing a token keeps the indentation level and the mode.
pub proof fn lemma_token_written_keeps(st: WriterState, t: CssToken, values: Seq<VarDynValue>)
    ensures
        token_written(st, t, values).tab_count == st.tab_count,
        token_written(st, t, values).debug_mode == st.debug_mode,
    decreases t,
{
    match t {
        CssToken::Function(x) => {
            lemma_tokens_written_keeps(
                st.function_opened(true, css_name_of(x.formal_name@)),
                x.block.tokens@,
                values,
            );
        },
        CssToken::Paren(x) => {
            lemma_tokens_written_keeps(st.paren_opened(), x.block.tokens@, values);
        },
        CssToken::Bracket(x) => {
            lemma_tokens_written_keeps(st.bracket_opened(), x.block.tokens@, values);
        },
        CssToken::Brace(x) => {
            lemma_tokens_written_keeps(st.brace_opened(), x.block.tokens@, values);
        },
        _ => {},
    }
}

/// Writing a sequence of tokens keeps the indentation level and the mode.
pub proof fn lemma_tokens_written_keeps(st: WriterState, ts: Seq<CssToken>, values: Seq<VarDynValue>)
    ensures
        tokens_written(st, ts, values).tab_count == st.tab_count,
        tokens_written(st, ts, values).debug_mode == st.debug_mode,
    decreases ts,
{
    if ts.len() > 0 {
        lemma_token_written_keeps(st, ts[0], values);
        lemma_tokens_written_keeps(token_written(st, ts[0], values), ts.drop_first(), values);
    }
}

impl CssToken {
    /// Writes this token as CSS text, resolving dynamic values from `values`.
    pub fn write_token(&self, cssw: &mut CssWriter, values: &[VarDynValue])
        requires
            token_writable(*self, values@, room_of(old(cssw)@)),
        ensures
            final(cssw)@ == token_written(old(cssw)@, *self, values@),
        decreases self,
    {
        match self {
            CssToken::Ident(x) => x.write_to(cssw),
            CssToken::String(x) => x.write_to(cssw, values),
            CssToken::Delim(x) => x.write_to(cssw),
            CssToken::Number(x) => x.write_to(cssw, values),
            CssToken::Percentage(x) => x.write_to(cssw, values),
            CssToken::Dimension(x) => x.write_to(cssw, values),
            CssToken::Color(x) => x.write_to(cssw, values),
            CssToken::Function(x) => {
                let name = x.css_name();
                cssw.begin_function_block(true, name.as_str());
                Self::write_token_seq(&x.block.tokens, cssw, values);
                cssw.end_paren_block();
            },
            CssToken::Paren(x) => {
                cssw.begin_paren_block();
                Self::write_token_seq(&x.block.tokens, cssw, values);
                cssw.end_paren_block();
            },
            CssToken::Bracket(x) => {
                cssw.begin_bracket_block();
                Self::write_token_seq(&x.block.tokens, cssw, values);
                cssw.end_bracket_block();
            },
            CssToken::Brace(x) => {
                proof {
                    lemma_writer_tab_bound(cssw);
                }
                cssw.begin_brace_block();
                let ghost mid = cssw@;
                proof {
                    lemma_writer_tab_bound(cssw);
                }
                Self::write_token_seq(&x.block.tokens, cssw, values);
                proof {
                    lemma_tokens_written_keeps(mid, x.block.tokens@, values@);
                }
                cssw.end_brace_block();
            },
        }
    }

    /// Writes a sequence of tokens in order.
    pub fn write_token_seq(ts: &Vec<CssToken>, cssw: &mut CssWriter, values: &[VarDynValue])
        requires
            tokens_writable(ts@, values@, room_of(old(cssw)@)),
        ensures
            final(cssw)@ == tokens_written(old(cssw)@, ts@, values@),
        decreases ts,
    {
        let ghost st0 = cssw@;
        let mut i: usize = 0;
        assert(ts@.skip(0) =~= ts@);
        while i < ts.len()
            invariant
                i <= ts@.len(),
                tokens_written(st0, ts@, values@) == tokens_written(cssw@, ts@.skip(i as int), values@),
                tokens_writable(ts@.skip(i as int), values@, room_of(st0)),
                cssw@.tab_count == st0.tab_count,
            decreases ts@.len() - i,
        {
            proof {
                assert(decreases_to!(ts => ts@));
                assert(decreases_to!(ts@ => ts@[i as int]));
                assert(ts@.skip(i as int)[0] == ts@[i as int]);
                assert(ts@.skip(i as int).drop_first() =~= ts@.skip(i + 1));
                lemma_token_written_keeps(cssw@, ts@[i as int], values@);
            }
            ts[i].write_token(cssw, values);
            i = i + 1;
        }
    }
}

/// Writing CSS text for a value.
pub trait WriteCss {
    /// The value can be written with `values` when the writer leaves `room` more indentation levels.
    spec fn css_writable(&self, values: Seq<VarDynValue>, room: nat) -> bool;

    /// The writer state after writing the value.
    spec fn css_written(&self, st: WriterState, values: Seq<VarDynValue>) -> WriterState;

    /// Writing the value keeps the indentation level and the mode.
    proof fn lemma_written_keeps(&self, st: WriterState, values: Seq<VarDynValue>)
        ensures
            self.css_written(st, values).tab_count == st.tab_count,
            self.css_written(st, values).debug_mode == st.debug_mode,
    ;

    /// Write CSS text (with specified argument values)
    fn write_css_with_args(&self, cssw: &mut CssWriter, values: &[VarDynValue])
        requires
            self.css_writable(values@, room_of(old(cssw)@)),
        ensures
            final(cssw)@ == self.css_written(old(cssw)@, values@),
            final(cssw)@.tab_count == old(cssw)@.tab_count,
            final(cssw)@.debug_mode == old(cssw)@.debug_mode,
    ;

    /// Write CSS text (no argument values)
    fn write_css(&self, cssw: &mut CssWriter)
        requires
            self.css_writable(Seq::empty(), room_of(old(cssw)@)),
        ensures
            final(cssw)@ == self.css_written(old(cssw)@, Seq::empty()),
            final(cssw)@.tab_count == old(cssw)@.tab_count,
            final(cssw)@.debug_mode == old(cssw)@.debug_mode,
    {
        let v: Vec<VarDynValue> = Vec::new();
        assert(v@ =~= Seq::<VarDynValue>::empty());
        self.write_css_with_args(cssw, v.as_slice());
    }
}

impl CssWriter {
    /// Writes a CSS function: its name and `(`, then `content`, then `)`.
    pub fn write_function_block<T: WriteCss>(
        &mut self,
        prefer_sep_before: bool,
        name: &str,
        content: &T,
        values: &[VarDynValue],
    )
        requires
            content.css_writable(values@, room_of(old(self)@)),
        ensures
            final(self)@ == content.css_written(
                old(self)@.function_opened(prefer_sep_before, name@),
                values@,
            ).block_closed(")"@),
            final(self)@.tab_count == old(self)@.tab_count,
            final(self)@.debug_mode == old(self)@.debug_mode,
    {
        self.begin_function_block(prefer_sep_before, name);
        content.write_css_with_args(self, values);
        self.end_paren_block();
    }

    /// Writes a parenthesis block: `(`, then `content`, then `)`.
    pub fn write_paren_block<T: WriteCss>(&mut self, content: &T, values: &[VarDynValue])
        requires
            content.css_writable(values@, room_of(old(self)@)),
        ensures
            final(self)@ == content.css_written(old(self)@.paren_opened(), values@).block_closed(
                ")"@,
            ),
            final(self)@.tab_count == old(self)@.tab_count,
            final(self)@.debug_mode == old(self)@.debug_mode,
    {
        self.begin_paren_block();
        content.write_css_with_args(self, values);
        self.end_paren_block();
    }

    /// Writes a bracket block: `[`, then `content`, then `]`.
    pub fn write_bracket_block<T: WriteCss>(&mut self, content: &T, values: &[VarDynValue])
        requires
            content.css_writable(values@, room_of(old(self)@)),
        ensures
            final(self)@ == content.css_written(old(self)@.bracket_opened(), values@).block_closed(
                "]"@,
            ),
            final(self)@.tab_count == old(self)@.tab_count,
            final(self)@.debug_mode == old(self)@.debug_mode,
    {
        self.begin_bracket_block();
        content.write_css_with_args(self, values);
        self.end_bracket_block();
    }

    /// Writes a brace block: `{`, then `content` one indentation level
    /// deeper, then `}` (in debug mode on lines of their own).
    pub fn write_brace_block<T: WriteCss>(&mut self, content: &T, values: &[VarDynValue])
        requires
            room_of(old(self)@) > 0,
            content.css_writable(values@, (room_of(old(self)@) - 1) as nat),
        ensures
            final(self)@ == content.css_written(old(self)@.brace_opened(), values@).brace_closed(),
            final(self)@.tab_count == old(self)@.tab_count,
            final(self)@.debug_mode == old(self)@.debug_mode,
    {
        proof {
            lemma_writer_tab_bound(self);
        }
        self.begin_brace_block();
        let ghost mid = self@;
        proof {
            lemma_writer_tab_bound(self);
            content.lemma_written_keeps(mid, values@);
        }
        content.write_css_with_args(self, values);
        self.end_brace_block();
    }
}

impl WriteCss for CssToken {
    open spec fn css_writable(&self, values: Seq<VarDynValue>, room: nat) -> bool {
        token_writable(*self, values, room)
    }

    open spec fn css_written(&self, st: WriterState, values: Seq<VarDynValue>) -> WriterState {
        token_written(st, *self, values)
    }

    proof fn lemma_written_keeps(&self, st: WriterState, values: Seq<VarDynValue>) {
        lemma_token_written_keeps(st, *self, values);
    }

    fn write_css_with_args(&self, cssw: &mut CssWriter, values: &[VarDynValue]) {
        proof {
            lemma_token_written_keeps(cssw@, *self, values@);
        }
        self.write_token(cssw, values);
    }
}

impl WriteCss for CssTokenStream {
    open spec fn css_writable(&self, values: Seq<VarDynValue>, room: nat) -> bool {
        tokens_writable(self.tokens@, values, room)
    }

    open spec fn css_written(&self, st: WriterState, values: Seq<VarDynValue>) -> WriterState {
        tokens_written(st, self.tokens@, values)
    }

    proof fn lemma_written_keeps(&self, st: WriterState, values: Seq<VarDynValue>) {
        lemma_tokens_written_keeps(st, self.tokens@, values);
    }

    fn write_css_with_args(&self, cssw: &mut CssWriter, values: &[VarDynValue]) {
        proof {
            lemma_tokens_written_keeps(cssw@, self.tokens@, values@);
        }
        CssToken::write_token_seq(&self.tokens, cssw, values);
    }
}

impl WriteCss for CssIdent {
    open spec fn css_writable(&self, values: Seq<VarDynValue>, room: nat) -> bool {
        true
    }

    open spec fn css_written(&self, st: WriterState, values: Seq<VarDynValue>) -> WriterState {
        st.after_ident(css_name_of(self.formal_name@), true)
    }

    proof fn lemma_written_keeps(&self, st: WriterState, values: Seq<VarDynValue>) {
    }

    fn write_css_with_args(&self, cssw: &mut CssWriter, values: &[VarDynValue]) {
        self.write_to(cssw);
    }
}

impl<V: WriteCss> WriteCss for Option<V> {
    open spec fn css_writable(&self, values: Seq<VarDynValue>, room: nat) -> bool {
        match self {
            Some(x) => x.css_writable(values, room),
            None => true,
        }
    }

    open spec fn css_written(&self, st: WriterState, values: Seq<VarDynValue>) -> WriterState {
        match self {
            Some(x) => x.css_written(st, values),
            None => st,
        }
    }

    proof fn lemma_written_keeps(&self, st: WriterState, values: Seq<VarDynValue>) {
        if let Some(x) = self {
            x.lemma_written_keeps(st, values);
        }
    }

    fn write_css_with_args(&self, cssw: &mut CssWriter, values: &[VarDynValue]) {
        match self {
            Some(x) => x.write_css_with_args(cssw, values),
            None => {},
        }
    }
}


impl CssString {
    /// Writes this value as CSS text.
    pub fn write_to(&self, cssw: &mut CssWriter, values: &[VarDynValue])
        requires
            str_resolves(self.s, values@),
        ensures
            final(cssw)@ == token_written(old(cssw)@, CssToken::String(*self), values@),
    {
        match self.s.value(values) {
            Ok(s) => {
                let text = debug_str(s);
                cssw.custom_write(SepRule::DebugOnly, text.as_str(), WriteCssSepCond::Other);
            },
            Err(_) => {
                assert(false);
            },
        }
    }
}

impl WriteCss for CssString {
    open spec fn css_writable(&self, values: Seq<VarDynValue>, room: nat) -> bool {
        str_resolves(self.s, values)
    }

    open spec fn css_written(&self, st: WriterState, values: Seq<VarDynValue>) -> WriterState {
        token_written(st, CssToken::String(*self), values)
    }

    proof fn lemma_written_keeps(&self, st: WriterState, values: Seq<VarDynValue>) {
    }

    fn write_css_with_args(&self, cssw: &mut CssWriter, values: &[VarDynValue]) {
        self.write_to(cssw, values);
    }
}

impl WriteCss for CssDelim {
    open spec fn css_writable(&self, values: Seq<VarDynValue>, room: nat) -> bool {
        true
    }

    open spec fn css_written(&self, st: WriterState, values: Seq<VarDynValue>) -> WriterState {
        st.after_delim(self.s@, true)
    }

    proof fn lemma_written_keeps(&self, st: WriterState, values: Seq<VarDynValue>) {
    }

    fn write_css_with_args(&self, cssw: &mut CssWriter, values: &[VarDynValue]) {
        self.write_to(cssw);
    }
}

impl CssNumber {
    /// Writes this value as CSS text.
    pub fn write_to(&self, cssw: &mut CssWriter, values: &[VarDynValue])
        requires
            num_resolves(self.value, values@),
        ensures
            final(cssw)@ == token_written(old(cssw)@, CssToken::Number(*self), values@),
    {
        let mut text = String::new();
        match self.value.value(values) {
            Ok(n) => push_number_text(&mut text, &n),
            Err(_) => {
                assert(false);
            },
        }
        assert(text@ =~= number_token_text(self.value, values@));
        cssw.custom_write(SepRule::Numeric, text.as_str(), WriteCssSepCond::Digit);
    }
}

impl WriteCss for CssNumber {
    open spec fn css_writable(&self, values: Seq<VarDynValue>, room: nat) -> bool {
        num_resolves(self.value, values)
    }

    open spec fn css_written(&self, st: WriterState, values: Seq<VarDynValue>) -> WriterState {
        token_written(st, CssToken::Number(*self), values)
    }

    proof fn lemma_written_keeps(&self, st: WriterState, values: Seq<VarDynValue>) {
    }

    fn write_css_with_args(&self, cssw: &mut CssWriter, values: &[VarDynValue]) {
        self.write_to(cssw, values);
    }
}

impl CssPercentage {
    /// Writes this value as CSS text.
    pub fn write_to(&self, cssw: &mut CssWriter, values: &[VarDynValue])
        requires
            num_resolves(self.value, values@),
        ensures
            final(cssw)@ == token_written(old(cssw)@, CssToken::Percentage(*self), values@),
    {
        let mut text = String::new();
        match self.value.value(values) {
            Ok(n) => push_number_text(&mut text, &n),
            Err(_) => {
                assert(false);
            },
        }
        text.append("%");
        assert(text@ =~= number_text(maybe_num_value(self.value, values@).unwrap()) + "%"@);
        cssw.custom_write(SepRule::Numeric, text.as_str(), WriteCssSepCond::Other);
    }
}

impl WriteCss for CssPercentage {
    open spec fn css_writable(&self, values: Seq<VarDynValue>, room: nat) -> bool {
        num_resolves(self.value, values)
    }

    open spec fn css_written(&self, st: WriterState, values: Seq<VarDynValue>) -> WriterState {
        token_written(st, CssToken::Percentage(*self), values)
    }

    proof fn lemma_written_keeps(&self, st: WriterState, values: Seq<VarDynValue>) {
    }

    fn write_css_with_args(&self, cssw: &mut CssWriter, values: &[VarDynValue]) {
        self.write_to(cssw, values);
    }
}

impl CssDimension {
    /// Writes this value as CSS text.
    pub fn write_to(&self, cssw: &mut CssWriter, values: &[VarDynValue])
        requires
            num_resolves(self.value, values@),
        ensures
            final(cssw)@ == token_written(old(cssw)@, CssToken::Dimension(*self), values@),
    {
        let mut text = String::new();
        match self.value.value(values) {
            Ok(n) => push_number_text(&mut text, &n),
            Err(_) => {
                assert(false);
            },
        }
        text.append(self.unit.as_str());
        assert(text@ =~= number_text(maybe_num_value(self.value, values@).unwrap()) + self.unit@);
        cssw.custom_write(SepRule::Numeric, text.as_str(), WriteCssSepCond::NonIdentAlpha);
    }
}

impl WriteCss for CssDimension {
    open spec fn css_writable(&self, values: Seq<VarDynValue>, room: nat) -> bool {
        num_resolves(self.value, values)
    }

    open spec fn css_written(&self, st: WriterState, values: Seq<VarDynValue>) -> WriterState {
        token_written(st, CssToken::Dimension(*self), values)
    }

    proof fn lemma_written_keeps(&self, st: WriterState, values: Seq<VarDynValue>) {
    }

    fn write_css_with_args(&self, cssw: &mut CssWriter, values: &[VarDynValue]) {
        self.write_to(cssw, values);
    }
}

impl CssColor {
    /// Writes this value as CSS text.
    pub fn write_to(&self, cssw: &mut CssWriter, values: &[VarDynValue])
        requires
            str_resolves(self.value, values@),
        ensures
            final(cssw)@ == token_written(old(cssw)@, CssToken::Color(*self), values@),
    {
        let mut text = String::new();
        text.append("#");
        match self.value.value(values) {
            Ok(s) => text.append(s),
            Err(_) => {
                assert(false);
            },
        }
        assert(text@ =~= "#"@ + maybe_str_value(self.value, values@).unwrap());
        cssw.custom_write(SepRule::DebugOnly, text.as_str(), WriteCssSepCond::Digit);
    }
}

impl WriteCss for CssColor {
    open spec fn css_writable(&self, values: Seq<VarDynValue>, room: nat) -> bool {
        str_resolves(self.value, values)
    }

    open spec fn css_written(&self, st: WriterState, values: Seq<VarDynValue>) -> WriterState {
        token_written(st, CssToken::Color(*self), values)
    }

    proof fn lemma_written_keeps(&self, st: WriterState, values: Seq<VarDynValue>) {
    }

    fn write_css_with_args(&self, cssw: &mut CssWriter, values: &[VarDynValue]) {
        self.write_to(cssw, values);
    }
}

impl<T: WriteCss> WriteCss for CssFunction<T> {
    open spec fn css_writable(&self, values: Seq<VarDynValue>, room: nat) -> bool {
        self.block.css_writable(values, room)
    }

    open spec fn css_written(&self, st: WriterState, values: Seq<VarDynValue>) -> WriterState {
        self.block.css_written(st.function_opened(true, css_name_of(self.formal_name@)), values).block_closed(
            ")"@,
        )
    }

    proof fn lemma_written_keeps(&self, st: WriterState, values: Seq<VarDynValue>) {
        self.block.lemma_written_keeps(st.function_opened(true, css_name_of(self.formal_name@)), values);
    }

    fn write_css_with_args(&self, cssw: &mut CssWriter, values: &[VarDynValue]) {
        let name = self.css_name();
        cssw.write_function_block(true, name.as_str(), &self.block, values);
    }
}

impl<T: WriteCss> WriteCss for CssParen<T> {
    open spec fn css_writable(&self, values: Seq<VarDynValue>, room: nat) -> bool {
        self.block.css_writable(values, room)
    }

    open spec fn css_written(&self, st: WriterState, values: Seq<VarDynValue>) -> WriterState {
        self.block.css_written(st.paren_opened(), values).block_closed(")"@)
    }

    proof fn lemma_written_keeps(&self, st: WriterState, values: Seq<VarDynValue>) {
        self.block.lemma_written_keeps(st.paren_opened(), values);
    }

    fn write_css_with_args(&self, cssw: &mut CssWriter, values: &[VarDynValue]) {
        cssw.write_paren_block(&self.block, values);
    }
}

impl<T: WriteCss> WriteCss for CssBracket<T> {
    open spec fn css_writable(&self, values: Seq<VarDynValue>, room: nat) -> bool {
        self.block.css_writable(values, room)
    }

    open spec fn css_written(&self, st: WriterState, values: Seq<VarDynValue>) -> WriterState {
        self.block.css_written(st.bracket_opened(), values).block_closed("]"@)
    }

    proof fn lemma_written_keeps(&self, st: WriterState, values: Seq<VarDynValue>) {
        self.block.lemma_written_keeps(st.bracket_opened(), values);
    }

    fn write_css_with_args(&self, cssw: &mut CssWriter, values: &[VarDynValue]) {
        cssw.write_bracket_block(&self.block, values);
    }
}

impl<T: WriteCss> WriteCss for CssBrace<T> {
    open spec fn css_writable(&self, values: Seq<VarDynValue>, room: nat) -> bool {
        room > 0 && self.block.css_writable(values, (room - 1) as nat)
    }

    open spec fn css_written(&self, st: WriterState, values: Seq<VarDynValue>) -> WriterState {
        self.block.css_written(st.brace_opened(), values).brace_closed()
    }

    proof fn lemma_written_keeps(&self, st: WriterState, values: Seq<VarDynValue>) {
        self.block.lemma_written_keeps(st.brace_opened(), values);
    }

    fn write_css_with_args(&self, cssw: &mut CssWriter, values: &[VarDynValue]) {
        cssw.write_brace_block(&self.block, values);
    }
}

} // verus!
