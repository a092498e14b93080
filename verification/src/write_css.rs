//! A CSS text writer that inserts only the separators the CSS grammar needs
//! (release mode), or pretty-prints with line breaks and indentation (debug mode).
use vstd::prelude::*;

use crate::text::str_eq;

verus! {

/// Where the writer stands within the current line.
#[derive(Debug, Clone, Copy, PartialEq, Eq, Structural)]
pub enum LineStatus {
    BlockStart,
    LineStart,
    Other,
}

/// Separator indicator: what the CSS text written so far ends with.
#[derive(Debug, Clone, Copy, PartialEq, Eq, Structural)]
pub enum WriteCssSepCond {
    /// The CSS string ends with `CssIdent`
    ///
    /// It should not be followed by alphabets, digits, `+`, `-`, or `(` .
    Ident,
    /// The CSS string ends with alphabets or digits (but not an ident nor number), `-` or `#`
    ///
    /// It should not be followed by alphabets, digits, `+`, or `-` .
    NonIdentAlpha,
    /// The CSS string ends with `CssNumber`
    ///
    /// It should not be followed by alphabets, digits, `.`, `+`, `-`, or `%` .
    Digit,
    /// The CSS string ends with `@`
    ///
    /// It should not be followed by alphabets or `-` .
    At,
    /// The CSS string ends with `.`
    ///
    /// It should not be followed by digits.
    Dot,
    /// The CSS string ends with `+` `-`
    ///
    /// It should not be followed by alphabets or digits.
    PlusOrMinus,
    /// The CSS string ends with `$` `^` `~` `*`
    ///
    /// It should not be followed by `=` .
    Equalable,
    /// The CSS string ends with `|`
    ///
    /// It should not be followed by `=` `|` `|=` .
    Bar,
    /// The CSS string ends with `/`
    ///
    /// It should not be followed by `*` `*=` .
    Slash,
    /// The CSS string ends with `(` `[` `{`
    ///
    /// Always no separators needed, but separators may be added in debug mode.
    BlockStart,
    /// The CSS string ends with whitespace
    ///
    /// Always no separators needed.
    Whitespace,
    /// Other cases
    ///
    /// Always no separators needed, but separators may be added in debug mode.
    Other,
}

/// How a custom-written CSS piece decides on a leading space.
#[derive(Debug, Clone, Copy, PartialEq, Eq, Structural)]
pub enum SepRule {
    /// A space only in debug mode, unless the text ends with a block start or whitespace.
    DebugOnly,
    /// As `DebugOnly` in debug mode; otherwise a space after an ident, alphanumerics,
    /// a number, `.`, `+` or `-` (the rule for numeric values).
    Numeric,
}

/// The abstract state of a `CssWriter`.
pub struct WriterState {
    /// All text written so far.
    pub out: Seq<char>,
    pub sc: WriteCssSepCond,
    pub debug_mode: bool,
    pub tab_count: nat,
    pub line_status: LineStatus,
}

/// The indentation for `n` levels (four spaces each).
pub open spec fn indent(n: nat) -> Seq<char>
    decreases n,
{
    if n == 0 {
        Seq::empty()
    } else {
        indent((n - 1) as nat) + "    "@
    }
}

/// The ends that never need a separator in debug mode.
pub open spec fn is_block_start_or_ws(sc: WriteCssSepCond) -> bool {
    sc == WriteCssSepCond::BlockStart || sc == WriteCssSepCond::Whitespace
}

/// A leading space for `text` when `need` holds.
pub open spec fn sep(need: bool) -> Seq<char> {
    if need { " "@ } else { Seq::empty() }
}

/// Whether an ident written after `sc` needs a leading space.
pub open spec fn ident_needs_sep(sc: WriteCssSepCond, debug_mode: bool, prefer_sep_before: bool) -> bool {
    if debug_mode && prefer_sep_before {
        !is_block_start_or_ws(sc)
    } else {
        sc == WriteCssSepCond::Ident || sc == WriteCssSepCond::NonIdentAlpha || sc
            == WriteCssSepCond::Digit || sc == WriteCssSepCond::PlusOrMinus || sc
            == WriteCssSepCond::At
    }
}

/// Whether the delimiter `s` written after `sc` needs a leading space.
pub open spec fn delim_needs_sep(
    sc: WriteCssSepCond,
    debug_mode: bool,
    prefer_sep_before: bool,
    s: Seq<char>,
) -> bool {
    if debug_mode && prefer_sep_before {
        !is_block_start_or_ws(sc)
    } else {
        match sc {
            WriteCssSepCond::Ident => s == "-"@ || s == "+"@,
            WriteCssSepCond::NonIdentAlpha => s == "-"@ || s == "+"@,
            WriteCssSepCond::Digit => s == "."@ || s == "-"@ || s == "+"@ || s == "%"@,
            WriteCssSepCond::At => s == "-"@,
            WriteCssSepCond::Equalable => s == "="@,
            WriteCssSepCond::Bar => s == "="@ || s == "|"@ || s == "|="@,
            WriteCssSepCond::Slash => s == "*"@ || s == "*="@,
            _ => false,
        }
    }
}

/// What the text ends with after writing the delimiter `s`.
pub open spec fn delim_sep_cond(s: Seq<char>) -> WriteCssSepCond {
    if s == "@"@ {
        WriteCssSepCond::At
    } else if s == "."@ {
        WriteCssSepCond::Dot
    } else if s == "+"@ || s == "-"@ {
        WriteCssSepCond::PlusOrMinus
    } else if s == "$"@ || s == "^"@ || s == "~"@ || s == "*"@ {
        WriteCssSepCond::Equalable
    } else if s == "|"@ {
        WriteCssSepCond::Bar
    } else if s == "/"@ {
        WriteCssSepCond::Slash
    } else {
        WriteCssSepCond::Other
    }
}

/// Whether a custom piece following rule `rule` needs a leading space.
pub open spec fn rule_needs_sep(rule: SepRule, sc: WriteCssSepCond, debug_mode: bool) -> bool {
    if debug_mode {
        !is_block_start_or_ws(sc)
    } else {
        match rule {
            SepRule::DebugOnly => false,
            SepRule::Numeric => sc == WriteCssSepCond::Ident || sc == WriteCssSepCond::NonIdentAlpha
                || sc == WriteCssSepCond::Digit || sc == WriteCssSepCond::Dot || sc
                == WriteCssSepCond::PlusOrMinus,
        }
    }
}

/// Whether a function block written after `sc` needs a leading space.
pub open spec fn function_needs_sep(sc: WriteCssSepCond, debug_mode: bool, prefer_sep_before: bool) -> bool {
    if debug_mode && prefer_sep_before {
        sc != WriteCssSepCond::Whitespace
    } else {
        sc == WriteCssSepCond::Ident || sc == WriteCssSepCond::NonIdentAlpha || sc
            == WriteCssSepCond::Digit || sc == WriteCssSepCond::At || sc
            == WriteCssSepCond::PlusOrMinus
    }
}

/// Whether a parenthesis block written after `sc` needs a leading space.
pub open spec fn paren_needs_sep(sc: WriteCssSepCond, debug_mode: bool) -> bool {
    if debug_mode {
        sc != WriteCssSepCond::Whitespace
    } else {
        sc == WriteCssSepCond::Ident
    }
}

impl WriterState {
    /// The state after appending `text` and then ending with `next`.
    pub open spec fn emit(self, text: Seq<char>, next: WriteCssSepCond) -> WriterState {
        WriterState { out: self.out + text, sc: next, ..self }
    }

    /// Debug mode: opens a line if needed, then indents a fresh line.
    pub open spec fn prepared(self) -> WriterState {
        if !self.debug_mode {
            self
        } else {
            let s1 = if self.line_status == LineStatus::BlockStart {
                WriterState { out: self.out + "\n"@, line_status: LineStatus::LineStart, ..self }
            } else {
                self
            };
            if s1.line_status == LineStatus::LineStart {
                WriterState {
                    out: s1.out + indent(s1.tab_count),
                    line_status: LineStatus::Other,
                    sc: WriteCssSepCond::Whitespace,
                    ..s1
                }
            } else {
                s1
            }
        }
    }

    /// Debug mode: ends a non-empty line.
    pub open spec fn line_wrapped(self) -> WriterState {
        if self.debug_mode && self.line_status == LineStatus::Other {
            WriterState { out: self.out + "\n"@, line_status: LineStatus::LineStart, ..self }
        } else {
            self
        }
    }

    pub open spec fn after_ident(self, ident: Seq<char>, prefer_sep_before: bool) -> WriterState {
        let p = self.prepared();
        p.emit(
            sep(ident_needs_sep(p.sc, p.debug_mode, prefer_sep_before)) + ident,
            WriteCssSepCond::Ident,
        )
    }

    pub open spec fn after_at_keyword(self, ident: Seq<char>) -> WriterState {
        let p = self.prepared();
        p.emit(
            sep(p.debug_mode && !is_block_start_or_ws(p.sc)) + "@"@ + ident,
            WriteCssSepCond::NonIdentAlpha,
        )
    }

    pub open spec fn after_colon(self) -> WriterState {
        self.prepared().emit(":"@, WriteCssSepCond::Other)
    }

    pub open spec fn after_semi(self) -> WriterState {
        self.prepared().emit(";"@, WriteCssSepCond::Other)
    }

    pub open spec fn after_delim(self, s: Seq<char>, prefer_sep_before: bool) -> WriterState {
        let p = self.prepared();
        p.emit(
            sep(delim_needs_sep(p.sc, p.debug_mode, prefer_sep_before, s)) + s,
            delim_sep_cond(s),
        )
    }

    pub open spec fn after_custom(self, rule: SepRule, text: Seq<char>, next: WriteCssSepCond) -> WriterState {
        let p = self.prepared();
        p.emit(sep(rule_needs_sep(rule, p.sc, p.debug_mode)) + text, next)
    }

    pub open spec fn function_opened(self, prefer_sep_before: bool, name: Seq<char>) -> WriterState {
        let p = self.prepared();
        p.emit(
            sep(function_needs_sep(p.sc, p.debug_mode, prefer_sep_before)) + name + "("@,
            WriteCssSepCond::BlockStart,
        )
    }

    pub open spec fn paren_opened(self) -> WriterState {
        let p = self.prepared();
        p.emit(sep(paren_needs_sep(p.sc, p.debug_mode)) + "("@, WriteCssSepCond::BlockStart)
    }

    pub open spec fn bracket_opened(self) -> WriterState {
        let p = self.prepared();
        p.emit(
            sep(p.debug_mode && p.sc != WriteCssSepCond::Whitespace) + "["@,
            WriteCssSepCond::BlockStart,
        )
    }

    /// Closes a function, parenthesis or bracket block with `closing`.
    pub open spec fn block_closed(self, closing: Seq<char>) -> WriterState {
        self.emit(closing, WriteCssSepCond::Other)
    }

    pub open spec fn brace_opened(self) -> WriterState {
        let p = self.prepared();
        let opened = p.emit(
            sep(p.debug_mode && p.sc != WriteCssSepCond::Whitespace) + "{"@,
            WriteCssSepCond::BlockStart,
        );
        WriterState { tab_count: opened.tab_count + 1, ..opened }.line_wrapped()
    }

    pub open spec fn brace_closed(self) -> WriterState {
        let s1 = WriterState {
            tab_count: (self.tab_count - 1) as nat,
            line_status: if self.line_status == LineStatus::BlockStart {
                LineStatus::LineStart
            } else {
                self.line_status
            },
            ..self
        };
        let s2 = s1.line_wrapped().prepared().emit("}"@, WriteCssSepCond::Other).line_wrapped();
        WriterState { line_status: LineStatus::BlockStart, ..s2 }
    }
}

/// Two consecutive emits are one emit of the joined text.
proof fn lemma_emit_twice(s: WriterState, a: Seq<char>, n1: WriteCssSepCond, b: Seq<char>, n2: WriteCssSepCond)
    ensures
        s.emit(a, n1).emit(b, n2) == s.emit(a + b, n2),
{
    assert(s.out + a + b =~= s.out + (a + b));
}

/// `b` continues `a`: the text of `a` is a prefix of the text of `b`.
pub open spec fn extends(a: WriterState, b: WriterState) -> bool {
    &&& a.out.len() <= b.out.len()
    &&& b.out.subrange(0, a.out.len() as int) == a.out
}

proof fn lemma_extends_trans(a: WriterState, b: WriterState, c: WriterState)
    requires
        extends(a, b),
        extends(b, c),
    ensures
        extends(a, c),
{
    assert(c.out.subrange(0, a.out.len() as int) =~= c.out.subrange(0, b.out.len() as int).subrange(
        0,
        a.out.len() as int,
    ));
}

proof fn lemma_emit_extends(st: WriterState, text: Seq<char>, next: WriteCssSepCond)
    ensures
        extends(st, st.emit(text, next)),
{
    assert(st.emit(text, next).out.subrange(0, st.out.len() as int) =~= st.out);
}

proof fn lemma_layout_extends(st: WriterState)
    ensures
        extends(st, st.prepared()),
        extends(st, st.line_wrapped()),
{
    assert(st.out.subrange(0, st.out.len() as int) =~= st.out);
    if st.debug_mode {
        let s1 = if st.line_status == LineStatus::BlockStart {
            WriterState { out: st.out + "\n"@, line_status: LineStatus::LineStart, ..st }
        } else {
            st
        };
        assert(s1.out.subrange(0, st.out.len() as int) =~= st.out);
        if s1.line_status == LineStatus::LineStart {
            let s2 = st.prepared();
            assert(s2.out.subrange(0, s1.out.len() as int) =~= s1.out);
            lemma_extends_trans(st, s1, s2);
        }
        if st.line_status == LineStatus::Other {
            assert(st.line_wrapped().out.subrange(0, st.out.len() as int) =~= st.out);
        }
    }
}

/// Writing only appends: every write keeps the text written before it
/// unchanged, as a prefix of the new text.
pub proof fn lemma_writes_append(
    st: WriterState,
    text: Seq<char>,
    prefer_sep_before: bool,
    rule: SepRule,
    next: WriteCssSepCond,
)
    ensures
        extends(st, st.prepared()),
        extends(st, st.line_wrapped()),
        extends(st, st.after_ident(text, prefer_sep_before)),
        extends(st, st.after_at_keyword(text)),
        extends(st, st.after_colon()),
        extends(st, st.after_semi()),
        extends(st, st.after_delim(text, prefer_sep_before)),
        extends(st, st.after_custom(rule, text, next)),
        extends(st, st.function_opened(prefer_sep_before, text)),
        extends(st, st.paren_opened()),
        extends(st, st.bracket_opened()),
        extends(st, st.block_closed(text)),
        extends(st, st.brace_opened()),
        st.tab_count > 0 ==> extends(st, st.brace_closed()),
{
    lemma_layout_extends(st);
    let p = st.prepared();
    lemma_emit_extends(p, sep(ident_needs_sep(p.sc, p.debug_mode, prefer_sep_before)) + text, WriteCssSepCond::Ident);
    lemma_extends_trans(st, p, st.after_ident(text, prefer_sep_before));
    lemma_emit_extends(p, sep(p.debug_mode && !is_block_start_or_ws(p.sc)) + "@"@ + text, WriteCssSepCond::NonIdentAlpha);
    lemma_extends_trans(st, p, st.after_at_keyword(text));
    lemma_emit_extends(p, ":"@, WriteCssSepCond::Other);
    lemma_extends_trans(st, p, st.after_colon());
    lemma_emit_extends(p, ";"@, WriteCssSepCond::Other);
    lemma_extends_trans(st, p, st.after_semi());
    lemma_emit_extends(p, sep(delim_needs_sep(p.sc, p.debug_mode, prefer_sep_before, text)) + text, delim_sep_cond(text));
    lemma_extends_trans(st, p, st.after_delim(text, prefer_sep_before));
    lemma_emit_extends(p, sep(rule_needs_sep(rule, p.sc, p.debug_mode)) + text, next);
    lemma_extends_trans(st, p, st.after_custom(rule, text, next));
    lemma_emit_extends(p, sep(function_needs_sep(p.sc, p.debug_mode, prefer_sep_before)) + text + "("@, WriteCssSepCond::BlockStart);
    lemma_extends_trans(st, p, st.function_opened(prefer_sep_before, text));
    lemma_emit_extends(p, sep(paren_needs_sep(p.sc, p.debug_mode)) + "("@, WriteCssSepCond::BlockStart);
    lemma_extends_trans(st, p, st.paren_opened());
    lemma_emit_extends(p, sep(p.debug_mode && p.sc != WriteCssSepCond::Whitespace) + "["@, WriteCssSepCond::BlockStart);
    lemma_extends_trans(st, p, st.bracket_opened());
    lemma_emit_extends(st, text, WriteCssSepCond::Other);
    let opened = p.emit(sep(p.debug_mode && p.sc != WriteCssSepCond::Whitespace) + "{"@, WriteCssSepCond::BlockStart);
    lemma_emit_extends(p, sep(p.debug_mode && p.sc != WriteCssSepCond::Whitespace) + "{"@, WriteCssSepCond::BlockStart);
    let deeper = WriterState { tab_count: opened.tab_count + 1, ..opened };
    lemma_layout_extends(deeper);
    lemma_extends_trans(st, p, opened);
    lemma_extends_trans(st, deeper, st.brace_opened());
    if st.tab_count > 0 {
        let s1 = WriterState {
            tab_count: (st.tab_count - 1) as nat,
            line_status: if st.line_status == LineStatus::BlockStart {
                LineStatus::LineStart
            } else {
                st.line_status
            },
            ..st
        };
        let a = s1.line_wrapped();
        let b = a.prepared();
        let c = b.emit("}"@, WriteCssSepCond::Other);
        let d = c.line_wrapped();
        lemma_layout_extends(s1);
        lemma_layout_extends(a);
        lemma_emit_extends(b, "}"@, WriteCssSepCond::Other);
        lemma_layout_extends(c);
        lemma_extends_trans(s1, a, b);
        lemma_extends_trans(s1, b, c);
        lemma_extends_trans(s1, c, d);
    }
}

/// In release mode there is no layout: preparing a write and wrapping a
/// line leave the writer as it is.
pub proof fn lemma_release_has_no_layout(st: WriterState)
    requires
        !st.debug_mode,
    ensures
        st.prepared() == st,
        st.line_wrapped() == st,
{
}

/// A brace block is one indentation level deeper than what surrounds it,
/// and closing it comes back to that level.
pub proof fn lemma_brace_levels(st: WriterState)
    ensures
        st.brace_opened().tab_count == st.tab_count + 1,
        st.tab_count > 0 ==> st.brace_closed().tab_count == st.tab_count - 1,
{
}

/// In debug mode a brace block lays out its body one level deeper: the
/// block starts a fresh line; every line begun inside it (at depth one
/// more than outside) is indented one level more; after the body, whatever
/// it wrote at that depth, `}` stands on a line of its own at the outer
/// indentation, and the next write starts on a new line at the outer depth.
pub proof fn lemma_brace_block_layout(st: WriterState, body: WriterState)
    requires
        st.debug_mode,
        body.debug_mode,
        body.tab_count == st.tab_count + 1,
    ensures
        st.brace_opened().tab_count == st.tab_count + 1,
        st.brace_opened().line_status == LineStatus::LineStart,
        forall|x: WriterState|
            x.debug_mode && x.tab_count == st.tab_count + 1 && x.line_status == LineStatus::LineStart
                ==> #[trigger] x.prepared().out == x.out + indent(st.tab_count + 1),
        body.brace_closed().tab_count == st.tab_count,
        body.brace_closed().line_status == LineStatus::BlockStart,
        body.brace_closed().out == body.out + (if body.line_status == LineStatus::Other {
            "\n"@
        } else {
            Seq::empty()
        }) + indent(st.tab_count) + "}"@ + "\n"@,
        body.brace_closed().prepared().out == body.brace_closed().out + "\n"@ + indent(
            st.tab_count,
        ),
{
    let c = body.brace_closed();
    let nl: Seq<char> = if body.line_status == LineStatus::Other {
        "\n"@
    } else {
        Seq::empty()
    };
    assert(c.out =~= body.out + nl + indent(st.tab_count) + "}"@ + "\n"@);
}

/// In release mode two identifiers written one after the other are kept
/// apart by exactly one space, so they never merge into one.
pub proof fn lemma_idents_kept_apart(st: WriterState, a: Seq<char>, b: Seq<char>, prefer_a: bool, prefer_b: bool)
    requires
        !st.debug_mode,
    ensures
        st.after_ident(a, prefer_a).after_ident(b, prefer_b).out == st.after_ident(a, prefer_a).out
            + seq![' '] + b,
{
    let s1 = st.after_ident(a, prefer_a);
    assert(s1.sc == WriteCssSepCond::Ident);
    assert(" "@ =~= seq![' ']) by {
        reveal_strlit(" ");
    }
}

/// In release mode a function head is kept apart from an identifier, a
/// word, a number, an at-keyword or a sign before it by exactly one space
/// (so that, say, the number `0` and `calc(` never merge into one token),
/// and follows anything else directly.
pub proof fn lemma_function_head_kept_apart(st: WriterState, prefer_sep_before: bool, name: Seq<char>)
    requires
        !st.debug_mode,
    ensures
        st.function_opened(prefer_sep_before, name).out == st.out + (if st.sc == WriteCssSepCond::Ident
            || st.sc == WriteCssSepCond::NonIdentAlpha || st.sc == WriteCssSepCond::Digit || st.sc
            == WriteCssSepCond::At || st.sc == WriteCssSepCond::PlusOrMinus {
            seq![' ']
        } else {
            Seq::empty()
        }) + name + seq!['('],
        st.sc == WriteCssSepCond::Digit ==> st.function_opened(prefer_sep_before, name).out == st.out
            + seq![' '] + name + seq!['('],
{
    assert(" "@ =~= seq![' ']) by {
        reveal_strlit(" ");
    }
    assert("("@ =~= seq!['(']) by {
        reveal_strlit("(");
    }
    let o = st.function_opened(prefer_sep_before, name).out;
    if st.sc == WriteCssSepCond::Ident || st.sc == WriteCssSepCond::NonIdentAlpha || st.sc
        == WriteCssSepCond::Digit || st.sc == WriteCssSepCond::At || st.sc
        == WriteCssSepCond::PlusOrMinus {
        assert(o =~= st.out + seq![' '] + name + seq!['(']);
    } else {
        assert(o =~= st.out + Seq::<char>::empty() + name + seq!['(']);
    }
}

/// In release mode an identifier is kept apart by one space from an
/// identifier, a word, a number, a sign or an at-keyword before it, and
/// follows anything else directly.
pub proof fn lemma_ident_spacing(st: WriterState, ident: Seq<char>, prefer_sep_before: bool)
    requires
        !st.debug_mode,
    ensures
        st.after_ident(ident, prefer_sep_before).out == st.out + (if st.sc == WriteCssSepCond::Ident
            || st.sc == WriteCssSepCond::NonIdentAlpha || st.sc == WriteCssSepCond::Digit || st.sc
            == WriteCssSepCond::PlusOrMinus || st.sc == WriteCssSepCond::At {
            seq![' ']
        } else {
            Seq::empty()
        }) + ident,
{
    assert(" "@ =~= seq![' ']) by {
        reveal_strlit(" ");
    }
    let o = st.after_ident(ident, prefer_sep_before).out;
    if st.sc == WriteCssSepCond::Ident || st.sc == WriteCssSepCond::NonIdentAlpha || st.sc
        == WriteCssSepCond::Digit || st.sc == WriteCssSepCond::PlusOrMinus || st.sc
        == WriteCssSepCond::At {
        assert(o =~= st.out + seq![' '] + ident);
    } else {
        assert(o =~= st.out + Seq::<char>::empty() + ident);
    }
}

/// In release mode an opening parenthesis is kept apart by one space from an
/// identifier before it (so that it does not turn the identifier into a
/// function), and follows anything else directly.
pub proof fn lemma_paren_spacing(st: WriterState)
    requires
        !st.debug_mode,
    ensures
        st.paren_opened().out == st.out + (if st.sc == WriteCssSepCond::Ident {
            seq![' ', '(']
        } else {
            seq!['(']
        }),
{
    assert(" "@ =~= seq![' ']) by {
        reveal_strlit(" ");
    }
    assert("("@ =~= seq!['(']) by {
        reveal_strlit("(");
    }
    let o = st.paren_opened().out;
    if st.sc == WriteCssSepCond::Ident {
        assert(o =~= st.out + seq![' ', '(']);
    } else {
        assert(o =~= st.out + seq!['(']);
    }
}

/// In release mode a number (a piece written by the numeric rule) is kept
/// apart by one space from an identifier, a word, a number, a `.` or a sign
/// before it, and follows anything else directly; a piece written by the
/// debug-only rule always follows directly.
pub proof fn lemma_numeric_spacing(st: WriterState, rule: SepRule, text: Seq<char>, next: WriteCssSepCond)
    requires
        !st.debug_mode,
    ensures
        st.after_custom(rule, text, next).out == st.out + (if rule == SepRule::Numeric && (st.sc
            == WriteCssSepCond::Ident || st.sc == WriteCssSepCond::NonIdentAlpha || st.sc
            == WriteCssSepCond::Digit || st.sc == WriteCssSepCond::Dot || st.sc
            == WriteCssSepCond::PlusOrMinus) {
            seq![' ']
        } else {
            Seq::empty()
        }) + text,
        st.after_custom(rule, text, next).sc == next,
{
    assert(" "@ =~= seq![' ']) by {
        reveal_strlit(" ");
    }
    let o = st.after_custom(rule, text, next).out;
    if rule == SepRule::Numeric && (st.sc == WriteCssSepCond::Ident || st.sc
        == WriteCssSepCond::NonIdentAlpha || st.sc == WriteCssSepCond::Digit || st.sc
        == WriteCssSepCond::Dot || st.sc == WriteCssSepCond::PlusOrMinus) {
        assert(o =~= st.out + seq![' '] + text);
    } else {
        assert(o =~= st.out + Seq::<char>::empty() + text);
    }
}

/// In release mode a delimiter is kept apart by one space only where it
/// would otherwise join what comes before it: `.`, `-`, `+` and `%` after a
/// number, `-` and `+` after an identifier or a word, `-` after an
/// at-keyword; after whitespace, a block start or other punctuation it
/// follows directly.
pub proof fn lemma_delim_spacing(st: WriterState, d: Seq<char>, prefer_sep_before: bool)
    requires
        !st.debug_mode,
    ensures
        st.sc == WriteCssSepCond::Digit ==> st.after_delim(d, prefer_sep_before).out == st.out + (if d
            == seq!['.'] || d == seq!['-'] || d == seq!['+'] || d == seq!['%'] {
            seq![' ']
        } else {
            Seq::empty()
        }) + d,
        st.sc == WriteCssSepCond::Ident || st.sc == WriteCssSepCond::NonIdentAlpha ==> st.after_delim(
            d,
            prefer_sep_before,
        ).out == st.out + (if d == seq!['-'] || d == seq!['+'] {
            seq![' ']
        } else {
            Seq::empty()
        }) + d,
        st.sc == WriteCssSepCond::Whitespace || st.sc == WriteCssSepCond::BlockStart || st.sc
            == WriteCssSepCond::Other ==> st.after_delim(d, prefer_sep_before).out == st.out + d,
{
    assert(" "@ =~= seq![' ']) by {
        reveal_strlit(" ");
    }
    assert("."@ =~= seq!['.']) by {
        reveal_strlit(".");
    }
    assert("-"@ =~= seq!['-']) by {
        reveal_strlit("-");
    }
    assert("+"@ =~= seq!['+']) by {
        reveal_strlit("+");
    }
    assert("%"@ =~= seq!['%']) by {
        reveal_strlit("%");
    }
    let o = st.after_delim(d, prefer_sep_before).out;
    if delim_needs_sep(st.sc, false, prefer_sep_before, d) {
        assert(o =~= st.out + seq![' '] + d);
    } else {
        assert(o =~= st.out + Seq::<char>::empty() + d);
        assert(o =~= st.out + d);
    }
}

/// A CSS writer
pub struct CssWriter {
    w: String,
    sc: WriteCssSepCond,
    debug_mode: bool,
    tab_count: usize,
    line_status: LineStatus,
}

impl View for CssWriter {
    type V = WriterState;

    closed spec fn view(&self) -> WriterState {
        WriterState {
            out: self.w@,
            sc: self.sc,
            debug_mode: self.debug_mode,
            tab_count: self.tab_count as nat,
            line_status: self.line_status,
        }
    }
}

/// The indentation level of a writer fits in a `usize`.
pub proof fn lemma_writer_tab_bound(w: &CssWriter)
    ensures
        w@.tab_count <= usize::MAX,
{
}

impl CssWriter {
    pub fn new(debug_mode: bool) -> (r: Self)
        ensures
            r@ == (WriterState {
                out: Seq::empty(),
                sc: WriteCssSepCond::BlockStart,
                debug_mode,
                tab_count: 0,
                line_status: LineStatus::BlockStart,
            }),
    {
        Self {
            w: String::new(),
            sc: WriteCssSepCond::BlockStart,
            debug_mode,
            tab_count: 0,
            line_status: LineStatus::BlockStart,
        }
    }

    /// The CSS text written so far.
    pub fn as_str(&self) -> (r: &str)
        ensures
            r@ == self@.out,
    {
        self.w.as_str()
    }

    /// Takes the written CSS text.
    pub fn into_string(self) -> (r: String)
        ensures
            r@ == self@.out,
    {
        self.w
    }

    /// What the written text ends with.
    pub fn sep_cond(&self) -> (r: WriteCssSepCond)
        ensures
            r == self@.sc,
    {
        self.sc
    }

    pub fn debug_mode(&self) -> (r: bool)
        ensures
            r == self@.debug_mode,
    {
        self.debug_mode
    }

    fn emit(&mut self, text: &str, next: WriteCssSepCond)
        ensures
            final(self)@ == old(self)@.emit(text@, next),
    {
        self.w.append(text);
        self.sc = next;
    }

    fn emit_sep(&mut self, need: bool)
        ensures
            final(self)@ == old(self)@.emit(sep(need), old(self)@.sc),
    {
        if need {
            self.w.append(" ");
        } else {
            assert(self.w@ =~= self.w@ + sep(need));
        }
    }

    pub fn line_wrap(&mut self)
        ensures
            final(self)@ == old(self)@.line_wrapped(),
    {
        if !self.debug_mode {
            return;
        }
        if self.line_status == LineStatus::Other {
            self.line_status = LineStatus::LineStart;
            self.w.append("\n");
        }
    }

    pub fn prepare_write(&mut self)
        ensures
            final(self)@ == old(self)@.prepared(),
    {
        if !self.debug_mode {
            return;
        }
        if self.line_status == LineStatus::BlockStart {
            self.line_status = LineStatus::LineStart;
            self.w.append("\n");
        }
        if self.line_status == LineStatus::LineStart {
            let ghost s1 = self@;
            let mut i: usize = 0;
            while i < self.tab_count
                invariant
                    self@ == (WriterState { out: s1.out + indent(i as nat), ..s1 }),
                    i <= self.tab_count,
                decreases self.tab_count - i,
            {
                self.w.append("    ");
                i = i + 1;
                assert(s1.out + indent((i - 1) as nat) + "    "@ =~= s1.out + indent(i as nat));
            }
            self.line_status = LineStatus::Other;
            self.sc = WriteCssSepCond::Whitespace;
        }
    }

    /// Writes a custom piece of CSS text: prepares the line, adds a leading
    /// space as `rule` asks, writes `text`, and records `next` as the new end.
    pub fn custom_write(&mut self, rule: SepRule, text: &str, next: WriteCssSepCond)
        ensures
            final(self)@ == old(self)@.after_custom(rule, text@, next),
    {
        self.prepare_write();
        let need = if self.debug_mode {
            !(self.sc == WriteCssSepCond::BlockStart || self.sc == WriteCssSepCond::Whitespace)
        } else {
            match rule {
                SepRule::DebugOnly => false,
                SepRule::Numeric => self.sc == WriteCssSepCond::Ident || self.sc
                    == WriteCssSepCond::NonIdentAlpha || self.sc == WriteCssSepCond::Digit
                    || self.sc == WriteCssSepCond::Dot || self.sc == WriteCssSepCond::PlusOrMinus,
            }
        };
        let ghost p = self@;
        self.emit_sep(need);
        self.emit(text, next);
        proof { lemma_emit_twice(p, sep(need), p.sc, text@, next); }
    }

    pub fn write_ident(&mut self, ident: &str, prefer_sep_before: bool)
        ensures
            final(self)@ == old(self)@.after_ident(ident@, prefer_sep_before),
    {
        self.prepare_write();
        let sc = self.sc;
        let need = if self.debug_mode && prefer_sep_before {
            !(sc == WriteCssSepCond::BlockStart || sc == WriteCssSepCond::Whitespace)
        } else {
            sc == WriteCssSepCond::Ident || sc == WriteCssSepCond::NonIdentAlpha || sc
                == WriteCssSepCond::Digit || sc == WriteCssSepCond::PlusOrMinus || sc
                == WriteCssSepCond::At
        };
        let ghost p = self@;
        self.emit_sep(need);
        self.emit(ident, WriteCssSepCond::Ident);
        proof { lemma_emit_twice(p, sep(need), p.sc, ident@, WriteCssSepCond::Ident); }
    }

    pub fn write_at_keyword(&mut self, ident: &str)
        ensures
            final(self)@ == old(self)@.after_at_keyword(ident@),
    {
        self.prepare_write();
        let need = self.debug_mode && !(self.sc == WriteCssSepCond::BlockStart || self.sc
            == WriteCssSepCond::Whitespace);
        let ghost p = self@;
        self.emit_sep(need);
        self.emit("@", WriteCssSepCond::NonIdentAlpha);
        self.emit(ident, WriteCssSepCond::NonIdentAlpha);
        proof {
            lemma_emit_twice(p, sep(need), p.sc, "@"@, WriteCssSepCond::NonIdentAlpha);
            lemma_emit_twice(p, sep(need) + "@"@, WriteCssSepCond::NonIdentAlpha, ident@, WriteCssSepCond::NonIdentAlpha);
        }
    }

    pub fn write_colon(&mut self)
        ensures
            final(self)@ == old(self)@.after_colon(),
    {
        self.prepare_write();
        self.emit(":", WriteCssSepCond::Other);
    }

    pub fn write_semi(&mut self)
        ensures
            final(self)@ == old(self)@.after_semi(),
    {
        self.prepare_write();
        self.emit(";", WriteCssSepCond::Other);
    }

    pub fn write_delim(&mut self, s: &str, prefer_sep_before: bool)
        ensures
            final(self)@ == old(self)@.after_delim(s@, prefer_sep_before),
    {
        self.prepare_write();
        let sc = self.sc;
        let need = if self.debug_mode && prefer_sep_before {
            !(sc == WriteCssSepCond::BlockStart || sc == WriteCssSepCond::Whitespace)
        } else {
            match sc {
                WriteCssSepCond::Ident => str_eq(s, "-") || str_eq(s, "+"),
                WriteCssSepCond::NonIdentAlpha => str_eq(s, "-") || str_eq(s, "+"),
                WriteCssSepCond::Digit => str_eq(s, ".") || str_eq(s, "-") || str_eq(s, "+")
                    || str_eq(s, "%"),
                WriteCssSepCond::At => str_eq(s, "-"),
                WriteCssSepCond::Equalable => str_eq(s, "="),
                WriteCssSepCond::Bar => str_eq(s, "=") || str_eq(s, "|") || str_eq(s, "|="),
                WriteCssSepCond::Slash => str_eq(s, "*") || str_eq(s, "*="),
                _ => false,
            }
        };
        let ghost p = self@;
        self.emit_sep(need);
        let next = if str_eq(s, "@") {
            WriteCssSepCond::At
        } else if str_eq(s, ".") {
            WriteCssSepCond::Dot
        } else if str_eq(s, "+") || str_eq(s, "-") {
            WriteCssSepCond::PlusOrMinus
        } else if str_eq(s, "$") || str_eq(s, "^") || str_eq(s, "~") || str_eq(s, "*") {
            WriteCssSepCond::Equalable
        } else if str_eq(s, "|") {
            WriteCssSepCond::Bar
        } else if str_eq(s, "/") {
            WriteCssSepCond::Slash
        } else {
            WriteCssSepCond::Other
        };
        self.emit(s, next);
        proof { lemma_emit_twice(p, sep(need), p.sc, s@, next); }
    }

    /// Writes the head of a CSS function: `name(`.
    pub fn begin_function_block(&mut self, prefer_sep_before: bool, name: &str)
        ensures
            final(self)@ == old(self)@.function_opened(prefer_sep_before, name@),
    {
        self.prepare_write();
        let sc = self.sc;
        let need = if self.debug_mode && prefer_sep_before {
            sc != WriteCssSepCond::Whitespace
        } else {
            sc == WriteCssSepCond::Ident || sc == WriteCssSepCond::NonIdentAlpha || sc
                == WriteCssSepCond::Digit || sc == WriteCssSepCond::At || sc
                == WriteCssSepCond::PlusOrMinus
        };
        let ghost p = self@;
        self.emit_sep(need);
        self.emit(name, WriteCssSepCond::BlockStart);
        self.emit("(", WriteCssSepCond::BlockStart);
        proof {
            lemma_emit_twice(p, sep(need), p.sc, name@, WriteCssSepCond::BlockStart);
            lemma_emit_twice(p, sep(need) + name@, WriteCssSepCond::BlockStart, "("@, WriteCssSepCond::BlockStart);
        }
    }

    /// Closes a CSS function or a parenthesis block: `)`.
    pub fn end_paren_block(&mut self)
        ensures
            final(self)@ == old(self)@.block_closed(")"@),
    {
        self.emit(")", WriteCssSepCond::Other);
    }

    /// Opens a parenthesis block: `(`.
    pub fn begin_paren_block(&mut self)
        ensures
            final(self)@ == old(self)@.paren_opened(),
    {
        self.prepare_write();
        let need = if self.debug_mode {
            self.sc != WriteCssSepCond::Whitespace
        } else {
            self.sc == WriteCssSepCond::Ident
        };
        let ghost p = self@;
        self.emit_sep(need);
        self.emit("(", WriteCssSepCond::BlockStart);
        proof { lemma_emit_twice(p, sep(need), p.sc, "("@, WriteCssSepCond::BlockStart); }
    }

    /// Opens a bracket block: `[`.
    pub fn begin_bracket_block(&mut self)
        ensures
            final(self)@ == old(self)@.bracket_opened(),
    {
        self.prepare_write();
        let need = self.debug_mode && self.sc != WriteCssSepCond::Whitespace;
        let ghost p = self@;
        self.emit_sep(need);
        self.emit("[", WriteCssSepCond::BlockStart);
        proof { lemma_emit_twice(p, sep(need), p.sc, "["@, WriteCssSepCond::BlockStart); }
    }

    /// Closes a bracket block: `]`.
    pub fn end_bracket_block(&mut self)
        ensures
            final(self)@ == old(self)@.block_closed("]"@),
    {
        self.emit("]", WriteCssSepCond::Other);
    }

    /// Opens a brace block: `{`, one more indentation level, and (debug mode) a line break.
    pub fn begin_brace_block(&mut self)
        requires
            old(self)@.tab_count < usize::MAX,
        ensures
            final(self)@ == old(self)@.brace_opened(),
    {
        self.prepare_write();
        let need = self.debug_mode && self.sc != WriteCssSepCond::Whitespace;
        let ghost p = self@;
        self.emit_sep(need);
        self.emit("{", WriteCssSepCond::BlockStart);
        proof { lemma_emit_twice(p, sep(need), p.sc, "{"@, WriteCssSepCond::BlockStart); }
        self.tab_count = self.tab_count + 1;
        self.line_wrap();
    }

    /// Closes a brace block: one indentation level less, `}` on its own line in debug mode.
    pub fn end_brace_block(&mut self)
        requires
            old(self)@.tab_count > 0,
        ensures
            final(self)@ == old(self)@.brace_closed(),
    {
        self.tab_count = self.tab_count - 1;
        if self.line_status == LineStatus::BlockStart {
            self.line_status = LineStatus::LineStart;
        }
        self.line_wrap();
        self.prepare_write();
        self.emit("}", WriteCssSepCond::Other);
        self.line_wrap();
        self.line_status = LineStatus::BlockStart;
    }
}

} // verus!
