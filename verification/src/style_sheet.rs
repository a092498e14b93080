//! Style sheet pieces that are written as CSS text: properties, media queries
//! and `@supports` conditions.
use vstd::prelude::*;

use crate::css_token::{css_name_of, room_of, CssIdent, CssParen, WriteCss};
use crate::values::VarDynValue;
use crate::write_css::{CssWriter, WriterState};

verus! {

/// A CSS property (name-value pair)
#[derive(Debug, Clone)]
pub struct Property<V> {
    pub name: CssIdent,
    pub value: V,
}

impl<V: WriteCss> Property<V> {
    pub open spec fn css_writable(&self, values: Seq<VarDynValue>, room: nat) -> bool {
        self.value.css_writable(values, room)
    }

    /// `name:value;`
    pub open spec fn css_written(&self, st: WriterState, values: Seq<VarDynValue>) -> WriterState {
        self.value.css_written(
            st.after_ident(css_name_of(self.name.formal_name@), true).after_colon(),
            values,
        ).after_semi()
    }

    pub fn write_css_with_args(&self, cssw: &mut CssWriter, values: &[VarDynValue])
        requires
            self.css_writable(values@, room_of(old(cssw)@)),
        ensures
            final(cssw)@ == self.css_written(old(cssw)@, values@),
    {
        self.name.write_to(cssw);
        cssw.write_colon();
        self.value.write_css_with_args(cssw, values);
        cssw.write_semi();
    }
}

#[derive(Debug, Clone, Copy, PartialEq, Eq, Structural)]
pub enum MediaType {
    All,
    Screen,
    Print,
}

/// One `(name: value)` media feature, possibly negated.
#[derive(Debug, Clone)]
pub struct MediaCond<V> {
    pub not: Option<CssIdent>,
    pub name: CssIdent,
    pub cond: V,
}

/// A media query: `[only] [type] [and] (feature) and ...`.
#[derive(Debug, Clone)]
pub struct MediaQuery<V> {
    pub only: Option<CssIdent>,
    pub media_type: MediaType,
    pub cond_list: Vec<MediaCond<V>>,
}

/// The state after writing `not`-prefix and `(name:value)` of one media feature.
pub open spec fn media_cond_written<V: WriteCss>(
    st: WriterState,
    c: MediaCond<V>,
    values: Seq<VarDynValue>,
) -> WriterState {
    let s1 = c.not.css_written(st, values);
    let s2 = s1.paren_opened().after_ident(css_name_of(c.name.formal_name@), true).after_colon();
    c.cond.css_written(s2, values).block_closed(")"@)
}

/// The state after writing the media features in order, each after `and`
/// except the first when `need_and` is false.
pub open spec fn media_conds_written<V: WriteCss>(
    st: WriterState,
    conds: Seq<MediaCond<V>>,
    need_and: bool,
    values: Seq<VarDynValue>,
) -> WriterState
    decreases conds.len(),
{
    if conds.len() == 0 {
        st
    } else {
        let s1 = if need_and {
            st.after_ident("and"@, true)
        } else {
            st
        };
        media_conds_written(media_cond_written(s1, conds[0], values), conds.drop_first(), true, values)
    }
}

/// All media features can be written.
pub open spec fn media_conds_writable<V: WriteCss>(
    conds: Seq<MediaCond<V>>,
    values: Seq<VarDynValue>,
    room: nat,
) -> bool {
    forall|i: int| 0 <= i < conds.len() ==> #[trigger] conds[i].cond.css_writable(values, room)
}

impl<V: WriteCss> MediaQuery<V> {
    pub open spec fn css_writable(&self, values: Seq<VarDynValue>, room: nat) -> bool {
        media_conds_writable(self.cond_list@, values, room)
    }

    /// The media type is written unless it is `all` with features and no `only`;
    /// then the features, joined by `and`.
    pub open spec fn css_written(&self, st: WriterState, values: Seq<VarDynValue>) -> WriterState {
        let s1 = self.only.css_written(st, values);
        let type_written = match self.media_type {
            MediaType::All => self.only is Some || self.cond_list@.len() == 0,
            _ => true,
        };
        let type_word = match self.media_type {
            MediaType::All => "all"@,
            MediaType::Print => "print"@,
            MediaType::Screen => "screen"@,
        };
        let s2 = if type_written {
            s1.after_ident(type_word, true)
        } else {
            s1
        };
        media_conds_written(s2, self.cond_list@, type_written, values)
    }

    pub fn write_css_with_args(&self, cssw: &mut CssWriter, values: &[VarDynValue])
        requires
            self.css_writable(values@, room_of(old(cssw)@)),
        ensures
            final(cssw)@ == self.css_written(old(cssw)@, values@),
    {
        let ghost st0 = cssw@;
        self.only.write_css_with_args(cssw, values);
        let mut need_and = match self.media_type {
            MediaType::All => {
                if self.only.is_some() || self.cond_list.len() == 0 {
                    cssw.write_ident("all", true);
                    true
                } else {
                    false
                }
            },
            MediaType::Print => {
                cssw.write_ident("print", true);
                true
            },
            MediaType::Screen => {
                cssw.write_ident("screen", true);
                true
            },
        };
        let n = self.cond_list.len();
        let mut i: usize = 0;
        assert(self.cond_list@.skip(0) =~= self.cond_list@);
        while i < n
            invariant
                n == self.cond_list@.len(),
                i <= n,
                self.css_written(st0, values@) == media_conds_written(
                    cssw@,
                    self.cond_list@.skip(i as int),
                    need_and,
                    values@,
                ),
                media_conds_writable(self.cond_list@, values@, room_of(st0)),
                cssw@.tab_count == st0.tab_count,
            decreases n - i,
        {
            let item = &self.cond_list[i];
            proof {
                assert(self.cond_list@.skip(i as int)[0] == self.cond_list@[i as int]);
                assert(self.cond_list@.skip(i as int).drop_first() =~= self.cond_list@.skip(i + 1));
                assert(item.cond.css_writable(values@, room_of(st0)));
            }
            if need_and {
                cssw.write_ident("and", true);
            } else {
                need_and = true;
            }
            item.not.write_css_with_args(cssw, values);
            cssw.begin_paren_block();
            item.name.write_to(cssw);
            cssw.write_colon();
            item.cond.write_css_with_args(cssw, values);
            cssw.end_paren_block();
            i = i + 1;
        }
    }
}

/// The `name: value` inside an `@supports` condition.
#[derive(Debug, Clone)]
pub struct SupportsCond<V> {
    pub name: CssIdent,
    pub value: V,
}

/// An `@supports` condition.
#[derive(Debug)]
pub enum SupportsQuery<V> {
    Cond(SupportsCond<V>),
    And(Vec<CssParen<SupportsQuery<V>>>),
    Or(Vec<CssParen<SupportsQuery<V>>>),
    Not(Box<CssParen<SupportsQuery<V>>>),
    Sub(Box<CssParen<SupportsQuery<V>>>),
}

/// The state after writing a supports condition.
pub open spec fn supports_written<V: WriteCss>(
    st: WriterState,
    q: SupportsQuery<V>,
    values: Seq<VarDynValue>,
) -> WriterState
    decreases q,
{
    match q {
        SupportsQuery::Cond(c) => c.value.css_written(
            st.after_ident(css_name_of(c.name.formal_name@), true).after_colon(),
            values,
        ),
        SupportsQuery::And(list) => supports_list_written(st, list@, "and"@, false, values),
        SupportsQuery::Or(list) => supports_list_written(st, list@, "or"@, false, values),
        SupportsQuery::Not(item) => supports_paren_written(st.after_ident("not"@, true), *item, values),
        SupportsQuery::Sub(item) => supports_paren_written(st, *item, values),
    }
}

/// The state after writing a parenthesized supports condition.
pub open spec fn supports_paren_written<V: WriteCss>(
    st: WriterState,
    p: CssParen<SupportsQuery<V>>,
    values: Seq<VarDynValue>,
) -> WriterState
    decreases p,
{
    supports_written(st.paren_opened(), p.block, values).block_closed(")"@)
}

/// The state after writing parenthesized conditions joined by `keyword`
/// (the first one without the keyword unless `started`).
pub open spec fn supports_list_written<V: WriteCss>(
    st: WriterState,
    list: Seq<CssParen<SupportsQuery<V>>>,
    keyword: Seq<char>,
    started: bool,
    values: Seq<VarDynValue>,
) -> WriterState
    decreases list,
{
    if list.len() == 0 {
        st
    } else {
        let s1 = if started {
            st.after_ident(keyword, true)
        } else {
            st
        };
        supports_list_written(
            supports_paren_written(s1, list[0], values),
            list.drop_first(),
            keyword,
            true,
            values,
        )
    }
}

/// Every value in a supports condition can be written.
pub open spec fn supports_writable<V: WriteCss>(
    q: SupportsQuery<V>,
    values: Seq<VarDynValue>,
    room: nat,
) -> bool
    decreases q,
{
    match q {
        SupportsQuery::Cond(c) => c.value.css_writable(values, room),
        SupportsQuery::And(list) => supports_list_writable(list@, values, room),
        SupportsQuery::Or(list) => supports_list_writable(list@, values, room),
        SupportsQuery::Not(item) => supports_writable(item.block, values, room),
        SupportsQuery::Sub(item) => supports_writable(item.block, values, room),
    }
}

/// Every condition in a list can be written.
pub open spec fn supports_list_writable<V: WriteCss>(
    list: Seq<CssParen<SupportsQuery<V>>>,
    values: Seq<VarDynValue>,
    room: nat,
) -> bool
    decreases list,
{
    list.len() == 0 || (supports_writable(list[0].block, values, room) && supports_list_writable(
        list.drop_first(),
        values,
        room,
    ))
}

/// Writing a supports condition keeps the indentation level and the mode.
pub proof fn lemma_supports_written_keeps<V: WriteCss>(
    st: WriterState,
    q: SupportsQuery<V>,
    values: Seq<VarDynValue>,
)
    ensures
        supports_written(st, q, values).tab_count == st.tab_count,
        supports_written(st, q, values).debug_mode == st.debug_mode,
    decreases q,
{
    match q {
        SupportsQuery::Cond(c) => {
            c.value.lemma_written_keeps(
                st.after_ident(css_name_of(c.name.formal_name@), true).after_colon(),
                values,
            );
        },
        SupportsQuery::And(list) => {
            lemma_supports_list_written_keeps(st, list@, "and"@, false, values);
        },
        SupportsQuery::Or(list) => {
            lemma_supports_list_written_keeps(st, list@, "or"@, false, values);
        },
        SupportsQuery::Not(item) => {
            lemma_supports_paren_written_keeps(st.after_ident("not"@, true), *item, values);
        },
        SupportsQuery::Sub(item) => {
            lemma_supports_paren_written_keeps(st, *item, values);
        },
    }
}

/// Writing a parenthesized supports condition keeps the indentation level and the mode.
pub proof fn lemma_supports_paren_written_keeps<V: WriteCss>(
    st: WriterState,
    p: CssParen<SupportsQuery<V>>,
    values: Seq<VarDynValue>,
)
    ensures
        supports_paren_written(st, p, values).tab_count == st.tab_count,
        supports_paren_written(st, p, values).debug_mode == st.debug_mode,
    decreases p,
{
    lemma_supports_written_keeps(st.paren_opened(), p.block, values);
}

/// Writing one more condition at the end of a list: the keyword, then the
/// parenthesized condition (the keyword only where something came before).
proof fn lemma_supports_list_push<V: WriteCss>(
    st: WriterState,
    l: Seq<CssParen<SupportsQuery<V>>>,
    x: CssParen<SupportsQuery<V>>,
    keyword: Seq<char>,
    started: bool,
    values: Seq<VarDynValue>,
)
    ensures
        supports_list_written(st, l.push(x), keyword, started, values) == supports_paren_written(
            if started || l.len() > 0 {
                supports_list_written(st, l, keyword, started, values).after_ident(keyword, true)
            } else {
                st
            },
            x,
            values,
        ),
    decreases l.len(),
{
    let s1 = if started {
        st.after_ident(keyword, true)
    } else {
        st
    };
    if l.len() == 0 {
        let e = Seq::<CssParen<SupportsQuery<V>>>::empty();
        assert(l.push(x).drop_first() =~= e);
        assert(l =~= e);
        assert(l.push(x)[0] == x);
        assert(supports_list_written(supports_paren_written(s1, x, values), e, keyword, true, values)
            == supports_paren_written(s1, x, values));
        assert(supports_list_written(st, e, keyword, started, values) == st);
    } else {
        assert(l.push(x)[0] == l[0]);
        assert(l.push(x).drop_first() =~= l.drop_first().push(x));
        lemma_supports_list_push(supports_paren_written(s1, l[0], values), l.drop_first(), x, keyword, true, values);
    }
}

/// An `or` condition is written as its parenthesized operands joined by the
/// identifier `or`, an `and` condition as its operands joined by `and`: the
/// last operand comes after the text of the ones before it and the keyword;
/// with two operands `(a)`, `(b)` the text is `(a)`, then `or` (or `and`),
/// then `(b)`.
pub proof fn lemma_supports_joined_by_keyword<V: WriteCss>(
    st: WriterState,
    q: SupportsQuery<V>,
    l: Seq<CssParen<SupportsQuery<V>>>,
    x: CssParen<SupportsQuery<V>>,
    values: Seq<VarDynValue>,
)
    requires
        l.len() > 0,
        (q matches SupportsQuery::Or(v) && v@ == l.push(x)) || (q matches SupportsQuery::And(v) && v@
            == l.push(x)),
    ensures
        q is Or ==> supports_written(st, q, values) == supports_paren_written(
            supports_list_written(st, l, "or"@, false, values).after_ident("or"@, true),
            x,
            values,
        ),
        q is And ==> supports_written(st, q, values) == supports_paren_written(
            supports_list_written(st, l, "and"@, false, values).after_ident("and"@, true),
            x,
            values,
        ),
        l.len() == 1 && q is Or ==> supports_written(st, q, values) == supports_paren_written(
            supports_paren_written(st, l[0], values).after_ident("or"@, true),
            x,
            values,
        ),
        l.len() == 1 && q is And ==> supports_written(st, q, values) == supports_paren_written(
            supports_paren_written(st, l[0], values).after_ident("and"@, true),
            x,
            values,
        ),
{
    lemma_supports_list_push(st, l, x, "or"@, false, values);
    lemma_supports_list_push(st, l, x, "and"@, false, values);
    if l.len() == 1 {
        let e = Seq::<CssParen<SupportsQuery<V>>>::empty();
        assert(l.drop_first() =~= e);
        assert(supports_list_written(supports_paren_written(st, l[0], values), e, "or"@, true, values)
            == supports_paren_written(st, l[0], values));
        assert(supports_list_written(supports_paren_written(st, l[0], values), e, "and"@, true, values)
            == supports_paren_written(st, l[0], values));
    }
}

/// A `not` condition is written as the identifier `not`, then its
/// parenthesized operand; a parenthesized condition as the condition in
/// parentheses.
pub proof fn lemma_supports_not_written<V: WriteCss>(st: WriterState, q: SupportsQuery<V>, values: Seq<VarDynValue>)
    ensures
        q matches SupportsQuery::Not(item) ==> supports_written(st, q, values) == supports_written(
            st.after_ident("not"@, true).paren_opened(),
            item.block,
            values,
        ).block_closed(")"@),
        q matches SupportsQuery::Sub(item) ==> supports_written(st, q, values) == supports_written(
            st.paren_opened(),
            item.block,
            values,
        ).block_closed(")"@),
{
}

/// Writing a list of supports conditions keeps the indentation level and the mode.
pub proof fn lemma_supports_list_written_keeps<V: WriteCss>(
    st: WriterState,
    list: Seq<CssParen<SupportsQuery<V>>>,
    keyword: Seq<char>,
    started: bool,
    values: Seq<VarDynValue>,
)
    ensures
        supports_list_written(st, list, keyword, started, values).tab_count == st.tab_count,
        supports_list_written(st, list, keyword, started, values).debug_mode == st.debug_mode,
    decreases list,
{
    if list.len() > 0 {
        let s1 = if started {
            st.after_ident(keyword, true)
        } else {
            st
        };
        lemma_supports_paren_written_keeps(s1, list[0], values);
        lemma_supports_list_written_keeps(
            supports_paren_written(s1, list[0], values),
            list.drop_first(),
            keyword,
            true,
            values,
        );
    }
}

impl<V: WriteCss> SupportsQuery<V> {
    pub open spec fn css_writable(&self, values: Seq<VarDynValue>, room: nat) -> bool {
        supports_writable(*self, values, room)
    }

    pub open spec fn css_written(&self, st: WriterState, values: Seq<VarDynValue>) -> WriterState {
        supports_written(st, *self, values)
    }

    pub fn write_css_with_args(&self, cssw: &mut CssWriter, values: &[VarDynValue])
        requires
            self.css_writable(values@, room_of(old(cssw)@)),
        ensures
            final(cssw)@ == self.css_written(old(cssw)@, values@),
        decreases self,
    {
        match self {
            SupportsQuery::Cond(cond) => {
                cond.name.write_to(cssw);
                cssw.write_colon();
                cond.value.write_css_with_args(cssw, values);
            },
            SupportsQuery::And(list) => {
                Self::write_list(list, "and", cssw, values);
            },
            SupportsQuery::Or(list) => {
                Self::write_list(list, "or", cssw, values);
            },
            SupportsQuery::Not(item) => {
                cssw.write_ident("not", true);
                Self::write_paren(item, cssw, values);
            },
            SupportsQuery::Sub(item) => {
                Self::write_paren(item, cssw, values);
            },
        }
    }

    fn write_paren(p: &CssParen<SupportsQuery<V>>, cssw: &mut CssWriter, values: &[VarDynValue])
        requires
            supports_writable(p.block, values@, room_of(old(cssw)@)),
        ensures
            final(cssw)@ == supports_paren_written(old(cssw)@, *p, values@),
        decreases p,
    {
        cssw.begin_paren_block();
        p.block.write_css_with_args(cssw, values);
        cssw.end_paren_block();
    }

    fn write_list(
        list: &Vec<CssParen<SupportsQuery<V>>>,
        keyword: &str,
        cssw: &mut CssWriter,
        values: &[VarDynValue],
    )
        requires
            supports_list_writable(list@, values@, room_of(old(cssw)@)),
        ensures
            final(cssw)@ == supports_list_written(old(cssw)@, list@, keyword@, false, values@),
        decreases list,
    {
        let ghost st0 = cssw@;
        let n = list.len();
        let mut i: usize = 0;
        assert(list@.skip(0) =~= list@);
        while i < n
            invariant
                n == list@.len(),
                i <= n,
                supports_list_written(st0, list@, keyword@, false, values@) == supports_list_written(
                    cssw@,
                    list@.skip(i as int),
                    keyword@,
                    i > 0,
                    values@,
                ),
                supports_list_writable(list@.skip(i as int), values@, room_of(st0)),
                cssw@.tab_count == st0.tab_count,
            decreases n - i,
        {
            proof {
                assert(decreases_to!(list => list@));
                assert(decreases_to!(list@ => list@[i as int]));
                assert(list@.skip(i as int)[0] == list@[i as int]);
                assert(list@.skip(i as int).drop_first() =~= list@.skip(i + 1));
            }
            if i > 0 {
                cssw.write_ident(keyword, true);
            }
            let ghost before = cssw@;
            Self::write_paren(&list[i], cssw, values);
            proof {
                lemma_supports_paren_written_keeps(before, list@[i as int], values@);
            }
            i = i + 1;
        }
    }
}

} // verus!
