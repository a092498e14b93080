//! What the code of a template does, node by node: the code that creates a
//! node's tree and the code that updates it.
//!
//! A node's code is given by what it decides; the surrounding code is the
//! same for every node of a kind. Texts: their translation, or whether a
//! dynamic text is wrapped as an already translated string. Slots: how the
//! slot data is passed. Elements: which attribute sets which item of a list
//! property, how many items each list property gets, and which attributes an
//! update sets again. `if`/`else` chains and `match` blocks: the number of
//! branches and the code of each. `for` loops: keyed or not. Tokens are named
//! by their positions, as in the nodes.
use vstd::prelude::*;

use crate::i18n::{record_of, record_view, trans_of, trans_text, trans_text_of, LocaleGroup, LocaleGroupView};
use crate::i18n_format::{FormatMetadataItem, FormatMetadataItemOwned};
use crate::text::to_owned_string;
use crate::template::{group_at, group_ref, PropValue, PropValueView, TemplateAttrView, TemplateAttribute};
use crate::template_node::{arms_view, branches_view, node_view, nodes_view, opt_pos_view, TemplateNode, TemplateNodeView};
use crate::text::str_eq;
use crate::token_parse::{Delimiter, Literal, TokenTree};

verus! {

/// The name of the identifier at `pos` (empty where there is none).
pub open spec fn name_at(ts: Seq<TokenTree>, pos: int) -> Seq<char> {
    if 0 <= pos < ts.len() {
        match ts[pos] {
            TokenTree::Ident(i) => i.name@,
            _ => Seq::empty(),
        }
    } else {
        Seq::empty()
    }
}

/// The tokens in the braces at `pos` (none where there are no braces).
pub open spec fn braces_tokens(ts: Seq<TokenTree>, pos: int) -> Seq<TokenTree> {
    match group_at(ts, pos, Delimiter::Brace) {
        Some(g) => g.stream@,
        None => Seq::empty(),
    }
}

/// The tokens in the braces at `pos`, if any.
pub open spec fn opt_braces_tokens(ts: Seq<TokenTree>, pos: Option<int>) -> Seq<TokenTree> {
    match pos {
        Some(p) => braces_tokens(ts, p),
        None => Seq::empty(),
    }
}

/// The value of the string literal at `pos` (empty where there is none).
pub open spec fn str_value(ts: Seq<TokenTree>, pos: int) -> Seq<char> {
    if 0 <= pos < ts.len() {
        match ts[pos] {
            TokenTree::Literal(l) => match l.lit {
                Literal::Str(s) => s@,
                _ => Seq::empty(),
            },
            _ => Seq::empty(),
        }
    } else {
        Seq::empty()
    }
}

/// Whether the token at `pos` is a string literal.
pub open spec fn is_str_lit(ts: Seq<TokenTree>, pos: int) -> bool {
    &&& 0 <= pos < ts.len()
    &&& ts[pos] matches TokenTree::Literal(l) && l.lit is Str
}

/// The name of the list property that an attribute sets an item of: a
/// property with a list updater.
pub open spec fn list_name(ts: Seq<TokenTree>, a: TemplateAttrView) -> Option<Seq<char>> {
    match a {
        TemplateAttrView::Property { name, list_updater: Some(_), .. } => Some(name_at(ts, name)),
        _ => None,
    }
}

/// How many of the first `n` attributes set items of the list property `l`.
pub open spec fn list_count(ts: Seq<TokenTree>, attrs: Seq<TemplateAttrView>, n: int, l: Seq<char>) -> int
    decreases n,
{
    if n <= 0 {
        0
    } else {
        list_count(ts, attrs, n - 1, l) + if list_name(ts, attrs[n - 1]) == Some(l) {
            1int
        } else {
            0
        }
    }
}

/// The item of its list property that the attribute at `i` sets (0 for an
/// attribute that sets no list item).
pub open spec fn list_index(ts: Seq<TokenTree>, attrs: Seq<TemplateAttrView>, i: int) -> int {
    match list_name(ts, attrs[i]) {
        Some(l) => list_count(ts, attrs, i, l),
        None => 0,
    }
}

/// Of the first `n` attributes, those that the creating code sets, each with
/// its list item: all but `slot:` attributes.
pub open spec fn create_attrs(ts: Seq<TokenTree>, attrs: Seq<TemplateAttrView>, n: int) -> Seq<(int, int)>
    decreases n,
{
    if n <= 0 {
        Seq::empty()
    } else {
        let prev = create_attrs(ts, attrs, n - 1);
        if attrs[n - 1] is Slot {
            prev
        } else {
            prev.push((n - 1, list_index(ts, attrs, n - 1)))
        }
    }
}

/// Of the first `n` attributes, those that the updating code sets again,
/// each with its list item: properties given by an expression, and event
/// handlers with arguments.
pub open spec fn update_attrs(ts: Seq<TokenTree>, attrs: Seq<TemplateAttrView>, n: int) -> Seq<(int, int)>
    decreases n,
{
    if n <= 0 {
        Seq::empty()
    } else {
        let prev = update_attrs(ts, attrs, n - 1);
        let a = attrs[n - 1];
        let again = match a {
            TemplateAttrView::Property { value: PropValueView::Dynamic { .. }, .. } => true,
            TemplateAttrView::EventHandler { args, .. } => args.len() > 0,
            _ => false,
        };
        if again {
            prev.push((n - 1, list_index(ts, attrs, n - 1)))
        } else {
            prev
        }
    }
}

/// Of the first `n` attributes, the list properties, each by the first
/// attribute that names it, with the number of its items.
pub open spec fn list_inits(ts: Seq<TokenTree>, attrs: Seq<TemplateAttrView>, n: int) -> Seq<(int, int)>
    decreases n,
{
    if n <= 0 {
        Seq::empty()
    } else {
        let prev = list_inits(ts, attrs, n - 1);
        match list_name(ts, attrs[n - 1]) {
            Some(l) => if list_count(ts, attrs, n - 1, l) == 0 {
                prev.push((n - 1, list_count(ts, attrs, attrs.len() as int, l)))
            } else {
                prev
            },
            None => prev,
        }
    }
}

/// How slot data is handed over.
pub enum SlotDataView {
    /// No data: a reference to `()`.
    Unit,
    /// The value as it stands (a string literal, or an expression, which
    /// keeps its own `&`).
    Direct(PropValueView),
    /// A reference to the value (any other literal, or the implied `true`).
    Ref(PropValueView),
}

/// How the slot data given by `data` is handed over.
pub open spec fn slot_data(ts: Seq<TokenTree>, data: Option<TemplateAttrView>) -> SlotDataView {
    match data {
        Some(TemplateAttrView::Property { value, .. }) => value_form(ts, value),
        _ => SlotDataView::Unit,
    }
}

/// How a property's value is handed over: a string literal or an expression
/// as it stands, any other literal (or the implied `true`) by reference.
pub open spec fn value_form(ts: Seq<TokenTree>, value: PropValueView) -> SlotDataView {
    match value {
        PropValueView::Literal(p) => if is_str_lit(ts, p) {
            SlotDataView::Direct(value)
        } else {
            SlotDataView::Ref(value)
        },
        PropValueView::ImpliedTrue => SlotDataView::Ref(value),
        PropValueView::Dynamic { .. } => SlotDataView::Direct(value),
    }
}

/// How slot data is handed over.
pub enum SlotData {
    Unit,
    Direct(PropValue),
    Ref(PropValue),
}

impl View for SlotData {
    type V = SlotDataView;

    open spec fn view(&self) -> SlotDataView {
        match self {
            SlotData::Unit => SlotDataView::Unit,
            SlotData::Direct(v) => SlotDataView::Direct(v@),
            SlotData::Ref(v) => SlotDataView::Ref(v@),
        }
    }
}

/// Pairs of positions as integers.
pub open spec fn pairs_view(v: Seq<(usize, usize)>) -> Seq<(int, int)> {
    v.map_values(|p: (usize, usize)| (p.0 as int, p.1 as int))
}

/// The name of the identifier at `pos` (empty where there is none).
fn name_str(ts: &Vec<TokenTree>, pos: usize) -> (r: &str)
    ensures
        r@ == name_at(ts@, pos as int),
{
    proof {
        reveal_strlit("");
    }
    if pos < ts.len() {
        match &ts[pos] {
            TokenTree::Ident(i) => i.name.as_str(),
            _ => "",
        }
    } else {
        ""
    }
}

/// Whether the token at `pos` is a string literal.
fn str_lit(ts: &Vec<TokenTree>, pos: usize) -> (r: bool)
    ensures
        r == is_str_lit(ts@, pos as int),
{
    if pos < ts.len() {
        match &ts[pos] {
            TokenTree::Literal(l) => match &l.lit {
                Literal::Str(_) => true,
                _ => false,
            },
            _ => false,
        }
    } else {
        false
    }
}

/// The list property that an attribute sets an item of, by its name.
fn list_name_of<'a>(ts: &'a Vec<TokenTree>, a: &TemplateAttribute) -> (r: Option<&'a str>)
    ensures
        match r {
            Some(s) => list_name(ts@, a@) == Some(s@),
            None => list_name(ts@, a@) is None,
        },
{
    match a {
        TemplateAttribute::Property { name, list_updater: Some(_), .. } => Some(name_str(ts, *name)),
        _ => None,
    }
}

/// How many of the first `n` attributes set items of the list property `l`.
fn count_list(ts: &Vec<TokenTree>, attrs: &Vec<TemplateAttribute>, n: usize, l: &str) -> (r: usize)
    requires
        n <= attrs@.len(),
    ensures
        r == list_count(ts@, attrs@.map_values(|a: TemplateAttribute| a@), n as int, l@),
{
    let ghost av = attrs@.map_values(|a: TemplateAttribute| a@);
    let mut c: usize = 0;
    let mut j: usize = 0;
    while j < n
        invariant
            j <= n <= attrs@.len(),
            av == attrs@.map_values(|a: TemplateAttribute| a@),
            c == list_count(ts@, av, j as int, l@),
            c <= j,
        decreases n - j,
    {
        let same = match list_name_of(ts, &attrs[j]) {
            Some(s) => str_eq(s, l),
            None => false,
        };
        assert(av[j as int] == attrs@[j as int]@);
        if same {
            c = c + 1;
        }
        j = j + 1;
    }
    c
}

/// The item of its list property that the attribute at `i` sets.
fn index_in_list(ts: &Vec<TokenTree>, attrs: &Vec<TemplateAttribute>, i: usize) -> (r: usize)
    requires
        i < attrs@.len(),
    ensures
        r == list_index(ts@, attrs@.map_values(|a: TemplateAttribute| a@), i as int),
{
    let ghost av = attrs@.map_values(|a: TemplateAttribute| a@);
    assert(av[i as int] == attrs@[i as int]@);
    match list_name_of(ts, &attrs[i]) {
        Some(l) => count_list(ts, attrs, i, l),
        None => 0,
    }
}

/// The attributes that the creating code of an element sets, each with its
/// list item.
pub fn create_attr_codes(ts: &Vec<TokenTree>, attrs: &Vec<TemplateAttribute>) -> (r: Vec<(usize, usize)>)
    ensures
        pairs_view(r@) == create_attrs(
            ts@,
            attrs@.map_values(|a: TemplateAttribute| a@),
            attrs@.len() as int,
        ),
{
    let ghost av = attrs@.map_values(|a: TemplateAttribute| a@);
    let mut out: Vec<(usize, usize)> = Vec::new();
    let mut i: usize = 0;
    while i < attrs.len()
        invariant
            i <= attrs@.len(),
            av == attrs@.map_values(|a: TemplateAttribute| a@),
            pairs_view(out@) == create_attrs(ts@, av, i as int),
        decreases attrs@.len() - i,
    {
        assert(av[i as int] == attrs@[i as int]@);
        let is_slot = match &attrs[i] {
            TemplateAttribute::Slot { .. } => true,
            _ => false,
        };
        if !is_slot {
            let k = index_in_list(ts, attrs, i);
            out.push((i, k));
            assert(pairs_view(out@) =~= create_attrs(ts@, av, i as int).push((i as int, k as int)));
        }
        i = i + 1;
    }
    out
}

/// The attributes that the updating code of an element sets again, each with
/// its list item.
pub fn update_attr_codes(ts: &Vec<TokenTree>, attrs: &Vec<TemplateAttribute>) -> (r: Vec<(usize, usize)>)
    ensures
        pairs_view(r@) == update_attrs(
            ts@,
            attrs@.map_values(|a: TemplateAttribute| a@),
            attrs@.len() as int,
        ),
{
    let ghost av = attrs@.map_values(|a: TemplateAttribute| a@);
    let mut out: Vec<(usize, usize)> = Vec::new();
    let mut i: usize = 0;
    while i < attrs.len()
        invariant
            i <= attrs@.len(),
            av == attrs@.map_values(|a: TemplateAttribute| a@),
            pairs_view(out@) == update_attrs(ts@, av, i as int),
        decreases attrs@.len() - i,
    {
        assert(av[i as int] == attrs@[i as int]@);
        let again = match &attrs[i] {
            TemplateAttribute::Property { value: PropValue::Dynamic { .. }, .. } => true,
            TemplateAttribute::EventHandler { args, .. } => args.len() > 0,
            _ => false,
        };
        if again {
            let k = index_in_list(ts, attrs, i);
            out.push((i, k));
            assert(pairs_view(out@) =~= update_attrs(ts@, av, i as int).push((i as int, k as int)));
        }
        i = i + 1;
    }
    out
}

/// The list properties of an element, each by the first attribute that
/// names it, with the number of its items: what the creating code
/// initialises before it sets the attributes.
pub fn list_init_codes(ts: &Vec<TokenTree>, attrs: &Vec<TemplateAttribute>) -> (r: Vec<(usize, usize)>)
    ensures
        pairs_view(r@) == list_inits(
            ts@,
            attrs@.map_values(|a: TemplateAttribute| a@),
            attrs@.len() as int,
        ),
{
    let ghost av = attrs@.map_values(|a: TemplateAttribute| a@);
    let mut out: Vec<(usize, usize)> = Vec::new();
    let mut i: usize = 0;
    while i < attrs.len()
        invariant
            i <= attrs@.len(),
            av == attrs@.map_values(|a: TemplateAttribute| a@),
            pairs_view(out@) == list_inits(ts@, av, i as int),
        decreases attrs@.len() - i,
    {
        assert(av[i as int] == attrs@[i as int]@);
        match list_name_of(ts, &attrs[i]) {
            Some(l) => {
                let before = count_list(ts, attrs, i, l);
                if before == 0 {
                    let total = count_list(ts, attrs, attrs.len(), l);
                    out.push((i, total));
                    assert(pairs_view(out@) =~= list_inits(ts@, av, i as int).push(
                        (i as int, total as int),
                    ));
                }
            },
            None => {},
        }
        i = i + 1;
    }
    out
}

/// How the slot data given by `data` is handed over.
pub fn slot_data_code(ts: &Vec<TokenTree>, data: &Option<TemplateAttribute>) -> (r: SlotData)
    ensures
        r@ == slot_data(
            ts@,
            match data {
                Some(a) => Some(a@),
                None => None,
            },
        ),
{
    match data {
        Some(TemplateAttribute::Property { value, .. }) => value_code(ts, value),
        _ => SlotData::Unit,
    }
}

/// How the property value `value` is handed over.
pub fn value_code(ts: &Vec<TokenTree>, value: &PropValue) -> (r: SlotData)
    ensures
        r@ == value_form(ts@, value@),
{
    match value {
        PropValue::Literal(p) => if str_lit(ts, *p) {
            SlotData::Direct(PropValue::Literal(*p))
        } else {
            SlotData::Ref(PropValue::Literal(*p))
        },
        PropValue::ImpliedTrue => SlotData::Ref(PropValue::ImpliedTrue),
        PropValue::Dynamic { by_ref, braces } => SlotData::Direct(PropValue::Dynamic { by_ref: *by_ref, braces: *braces }),
    }
}

/// The code that creates a node.
pub enum CreateCodeView {
    /// A static text with its translation, or the message of the compile
    /// error that stands in its place, and the record of its lookup where
    /// lookups are recorded (namespace, text, translation).
    StaticText {
        pos: int,
        text: Result<Seq<char>, Seq<char>>,
        record: Option<(Seq<char>, Seq<char>, Option<Seq<char>>)>,
    },
    /// A dynamic text; `wrap` where no locale is in use and the value is
    /// wrapped as an already translated string.
    DynamicText { braces: int, wrap: bool },
    /// A slot with its data; `added` where the slot is created inside an
    /// update, and announced as added.
    Slot { tag: int, data: SlotDataView, added: bool },
    /// An element: the variable its slot data is bound to (the default name
    /// where none is given), the list properties it initialises, the
    /// attributes it sets and the code of its children.
    Tag {
        tag: int,
        slot_var: Option<int>,
        list_inits: Seq<(int, int)>,
        attrs: Seq<(int, int)>,
        children: Seq<CreateCodeView>,
    },
    /// An `if`/`else` chain or a `match`: the number of branches, and the code
    /// of each branch's children, which the branch selects by its index.
    Branches { count: int, arms: Seq<Seq<CreateCodeView>> },
    /// A `for` loop, with its list keyed or not.
    ForLoop { keyed: bool, children: Seq<CreateCodeView> },
}

/// The code that creates the node `n`; `added` where it stands inside an
/// update.
pub open spec fn create_code(ts: Seq<TokenTree>, n: TemplateNodeView, added: bool, g: LocaleGroupView) -> CreateCodeView
    decreases n,
{
    match n {
        TemplateNodeView::StaticText(p) => CreateCodeView::StaticText {
            pos: p,
            text: trans_text(trans_of(g, str_value(ts, p)), str_value(ts, p)),
            record: record_of(g, str_value(ts, p)),
        },
        TemplateNodeView::DynamicText(b) => CreateCodeView::DynamicText {
            braces: b,
            wrap: g.status is NotNeeded,
        },
        TemplateNodeView::Slot { tag, data } => CreateCodeView::Slot {
            tag,
            data: slot_data(ts, data),
            added,
        },
        TemplateNodeView::Tag { tag, slot_var_name, attrs, children, .. } => CreateCodeView::Tag {
            tag,
            slot_var: slot_var_name,
            list_inits: list_inits(ts, attrs, attrs.len() as int),
            attrs: create_attrs(ts, attrs, attrs.len() as int),
            children: create_codes(ts, children, added, g),
        },
        TemplateNodeView::IfElse(bs) => CreateCodeView::Branches {
            count: bs.len() as int,
            arms: branch_create_codes(ts, bs, added, g),
        },
        TemplateNodeView::Match { braces, arms, .. } => CreateCodeView::Branches {
            count: arms.len() as int,
            arms: arm_create_codes(braces_tokens(ts, braces), arms, added, g),
        },
        TemplateNodeView::ForLoop { key, braces, children, .. } => CreateCodeView::ForLoop {
            keyed: key is Some,
            children: create_codes(braces_tokens(ts, braces), children, added, g),
        },
    }
}

/// The code that creates each of the nodes `s`.
pub open spec fn create_codes(ts: Seq<TokenTree>, s: Seq<TemplateNodeView>, added: bool, g: LocaleGroupView) -> Seq<
    CreateCodeView,
>
    decreases s,
{
    if s.len() == 0 {
        Seq::empty()
    } else {
        create_codes(ts, s.subrange(0, s.len() - 1), added, g).push(
            create_code(ts, s[s.len() - 1], added, g),
        )
    }
}

/// The code that creates the children of each branch of an `if`/`else` chain.
pub open spec fn branch_create_codes(
    ts: Seq<TokenTree>,
    s: Seq<(Option<(int, int)>, Option<int>, Seq<TemplateNodeView>)>,
    added: bool,
    g: LocaleGroupView,
) -> Seq<Seq<CreateCodeView>>
    decreases s,
{
    if s.len() == 0 {
        Seq::empty()
    } else {
        branch_create_codes(ts, s.subrange(0, s.len() - 1), added, g).push(
            create_codes(opt_braces_tokens(ts, s[s.len() - 1].1), s[s.len() - 1].2, added, g),
        )
    }
}

/// The code that creates the children of each arm of a `match`.
pub open spec fn arm_create_codes(
    ts: Seq<TokenTree>,
    s: Seq<((int, int), Option<(int, int)>, int, Seq<TemplateNodeView>)>,
    added: bool,
    g: LocaleGroupView,
) -> Seq<Seq<CreateCodeView>>
    decreases s,
{
    if s.len() == 0 {
        Seq::empty()
    } else {
        arm_create_codes(ts, s.subrange(0, s.len() - 1), added, g).push(
            create_codes(braces_tokens(ts, s[s.len() - 1].2), s[s.len() - 1].3, added, g),
        )
    }
}

/// The code that creates a node.
pub enum CreateCode {
    StaticText { pos: usize, text: Result<String, String>, record: Option<FormatMetadataItemOwned> },
    DynamicText { braces: usize, wrap: bool },
    Slot { tag: usize, data: SlotData, added: bool },
    Tag {
        tag: usize,
        slot_var: Option<usize>,
        list_inits: Vec<(usize, usize)>,
        attrs: Vec<(usize, usize)>,
        children: Vec<CreateCode>,
    },
    Branches { count: usize, arms: Vec<Vec<CreateCode>> },
    ForLoop { keyed: bool, children: Vec<CreateCode> },
}

/// A recorded lookup as namespace, text and translation.
pub open spec fn owned_record_view(r: FormatMetadataItemOwned) -> (Seq<char>, Seq<char>, Option<Seq<char>>) {
    (
        r.namespace@,
        r.src@,
        match r.translated {
            Some(t) => Some(t@),
            None => None,
        },
    )
}

/// An owned copy of a recorded lookup.
fn owned_record(item: &FormatMetadataItem) -> (r: FormatMetadataItemOwned)
    ensures
        owned_record_view(r) == record_view(*item),
{
    FormatMetadataItemOwned {
        namespace: to_owned_string(item.namespace),
        src: to_owned_string(item.src),
        translated: match item.translated {
            Some(t) => Some(to_owned_string(t)),
            None => None,
        },
    }
}

/// The view of the code that creates a node.
pub open spec fn create_view(c: CreateCode) -> CreateCodeView
    decreases c,
{
    match c {
        CreateCode::StaticText { pos, text, record } => CreateCodeView::StaticText {
            pos: pos as int,
            text: match text {
                Ok(t) => Ok(t@),
                Err(m) => Err(m@),
            },
            record: match record {
                Some(r) => Some(owned_record_view(r)),
                None => None,
            },
        },
        CreateCode::DynamicText { braces, wrap } => CreateCodeView::DynamicText { braces: braces as int, wrap },
        CreateCode::Slot { tag, data, added } => CreateCodeView::Slot { tag: tag as int, data: data@, added },
        CreateCode::Tag { tag, slot_var, list_inits, attrs, children } => CreateCodeView::Tag {
            tag: tag as int,
            slot_var: match slot_var {
                Some(v) => Some(v as int),
                None => None,
            },
            list_inits: pairs_view(list_inits@),
            attrs: pairs_view(attrs@),
            children: create_views(children@),
        },
        CreateCode::Branches { count, arms } => CreateCodeView::Branches {
            count: count as int,
            arms: arms_create_views(arms@),
        },
        CreateCode::ForLoop { keyed, children } => CreateCodeView::ForLoop {
            keyed,
            children: create_views(children@),
        },
    }
}

/// The views of the codes that create nodes.
pub open spec fn create_views(s: Seq<CreateCode>) -> Seq<CreateCodeView>
    decreases s,
{
    if s.len() == 0 {
        Seq::empty()
    } else {
        create_views(s.subrange(0, s.len() - 1)).push(create_view(s[s.len() - 1]))
    }
}

/// The views of the codes of branches.
pub open spec fn arms_create_views(s: Seq<Vec<CreateCode>>) -> Seq<Seq<CreateCodeView>>
    decreases s,
{
    if s.len() == 0 {
        Seq::empty()
    } else {
        arms_create_views(s.subrange(0, s.len() - 1)).push(create_views(s[s.len() - 1]@))
    }
}

impl View for CreateCode {
    type V = CreateCodeView;

    open spec fn view(&self) -> CreateCodeView {
        create_view(*self)
    }
}

/// The code that creates the node `node` of the template `ts`; `added`
/// where it stands inside an update.
pub fn template_create_code(ts: &Vec<TokenTree>, node: &TemplateNode, added: bool, locale: &LocaleGroup) -> (r: CreateCode)
    ensures
        r@ == create_code(ts@, node@, added, locale@),
    decreases node,
{
    match node {
        TemplateNode::StaticText(p) => {
            let src = str_value_of(ts, *p);
            let (res, rec) = locale.trans(src);
            let record = match rec {
                Some(item) => Some(owned_record(&item)),
                None => None,
            };
            CreateCode::StaticText { pos: *p, text: trans_text_of(&res, src), record }
        },
        TemplateNode::DynamicText(b) => CreateCode::DynamicText { braces: *b, wrap: !locale.need_trans() },
        TemplateNode::Slot { tag, data } => CreateCode::Slot {
            tag: *tag,
            data: slot_data_code(ts, data),
            added,
        },
        TemplateNode::Tag { tag, slot_var_name, attrs, children, .. } => {
            let list_inits = list_init_codes(ts, attrs);
            let attr_codes = create_attr_codes(ts, attrs);
            let codes = template_create_codes(ts, children, added, locale);
            CreateCode::Tag {
                tag: *tag,
                slot_var: *slot_var_name,
                list_inits,
                attrs: attr_codes,
                children: codes,
            }
        },
        TemplateNode::IfElse(bs) => {
            let empty: Vec<TokenTree> = Vec::new();
            let ghost bv = branches_view(bs@);
            proof {
                lemma_branches_index(bs@);
            }
            let mut arms: Vec<Vec<CreateCode>> = Vec::new();
            let mut i: usize = 0;
            while i < bs.len()
                invariant
                    i <= bs@.len(),
                    *node matches TemplateNode::IfElse(b) && b == *bs,
                    empty@.len() == 0,
                    bv == branches_view(bs@),
                    bv.len() == bs@.len(),
                    forall|k: int|
                        0 <= k < bs@.len() ==> #[trigger] bv[k].2 == nodes_view(bs@[k].2@) && bv[k].1
                            == opt_pos_view(bs@[k].1),
                    arms@.len() == i,
                    arms_create_views(arms@) == branch_create_codes(ts@, bv.take(i as int), added, locale@),
                decreases bs@.len() - i,
            {
                proof {
                    assert(decreases_to!(bs@ => bs@[i as int]));
                    assert(decreases_to!(bs@[i as int] => bs@[i as int].2));
                }
                let sub = braces_tokens_of(ts, bs[i].1, &empty);
                let codes = template_create_codes(sub, &bs[i].2, added, locale);
                proof {
                    assert(bv.take(i + 1).subrange(0, i as int) =~= bv.take(i as int));
                }
                let ghost prev = arms@;
                arms.push(codes);
                proof {
                    assert(arms@.subrange(0, arms@.len() - 1) =~= prev);
                }
                i = i + 1;
            }
            proof {
                assert(bv.take(bs@.len() as int) =~= bv);
            }
            CreateCode::Branches { count: bs.len(), arms }
        },
        TemplateNode::Match { braces, arms: ms, .. } => {
            let empty: Vec<TokenTree> = Vec::new();
            let mt = braces_tokens_of(ts, Some(*braces), &empty);
            let ghost mv = arms_view(ms@);
            proof {
                lemma_arms_index(ms@);
            }
            let mut arms: Vec<Vec<CreateCode>> = Vec::new();
            let mut i: usize = 0;
            while i < ms.len()
                invariant
                    i <= ms@.len(),
                    *node matches TemplateNode::Match { arms: a, braces: bb, .. } && a == *ms && bb == *braces,
                    empty@.len() == 0,
                    mt@ == braces_tokens(ts@, *braces as int),
                    mv == arms_view(ms@),
                    mv.len() == ms@.len(),
                    forall|k: int|
                        0 <= k < ms@.len() ==> #[trigger] mv[k].3 == nodes_view(ms@[k].3@) && mv[k].2
                            == ms@[k].2 as int,
                    arms@.len() == i,
                    arms_create_views(arms@) == arm_create_codes(mt@, mv.take(i as int), added, locale@),
                decreases ms@.len() - i,
            {
                proof {
                    assert(decreases_to!(ms@ => ms@[i as int]));
                    assert(decreases_to!(ms@[i as int] => ms@[i as int].3));
                }
                let sub = braces_tokens_of(mt, Some(ms[i].2), &empty);
                let codes = template_create_codes(sub, &ms[i].3, added, locale);
                proof {
                    assert(mv.take(i + 1).subrange(0, i as int) =~= mv.take(i as int));
                }
                let ghost prev = arms@;
                arms.push(codes);
                proof {
                    assert(arms@.subrange(0, arms@.len() - 1) =~= prev);
                }
                i = i + 1;
            }
            proof {
                assert(mv.take(ms@.len() as int) =~= mv);
            }
            CreateCode::Branches { count: ms.len(), arms }
        },
        TemplateNode::ForLoop { key, braces, children, .. } => {
            let empty: Vec<TokenTree> = Vec::new();
            let sub = braces_tokens_of(ts, Some(*braces), &empty);
            let codes = template_create_codes(sub, children, added, locale);
            CreateCode::ForLoop { keyed: key.is_some(), children: codes }
        },
    }
}

/// The children of each branch, one by one.
proof fn lemma_branches_index(s: Seq<(Option<(usize, usize)>, Option<usize>, Vec<TemplateNode>)>)
    ensures
        branches_view(s).len() == s.len(),
        forall|k: int|
            0 <= k < s.len() ==> #[trigger] branches_view(s)[k].2 == nodes_view(s[k].2@)
                && branches_view(s)[k].1 == opt_pos_view(s[k].1),
    decreases s.len(),
{
    if s.len() > 0 {
        lemma_branches_index(s.subrange(0, s.len() - 1));
    }
}

/// The children of each arm, one by one.
proof fn lemma_arms_index(s: Seq<((usize, usize), Option<(usize, usize)>, usize, Vec<TemplateNode>)>)
    ensures
        arms_view(s).len() == s.len(),
        forall|k: int|
            0 <= k < s.len() ==> #[trigger] arms_view(s)[k].3 == nodes_view(s[k].3@) && arms_view(s)[k].2
                == s[k].2 as int,
    decreases s.len(),
{
    if s.len() > 0 {
        lemma_arms_index(s.subrange(0, s.len() - 1));
    }
}

/// The views of nodes, one by one.
proof fn lemma_nodes_index(s: Seq<TemplateNode>)
    ensures
        nodes_view(s).len() == s.len(),
        forall|k: int| 0 <= k < s.len() ==> #[trigger] nodes_view(s)[k] == node_view(s[k]),
    decreases s.len(),
{
    if s.len() > 0 {
        lemma_nodes_index(s.subrange(0, s.len() - 1));
    }
}

/// The tokens in the braces at `pos`, or `empty` where there are none.
fn braces_tokens_of<'a>(ts: &'a Vec<TokenTree>, pos: Option<usize>, empty: &'a Vec<TokenTree>) -> (r: &'a Vec<TokenTree>)
    requires
        empty@.len() == 0,
    ensures
        r@ == opt_braces_tokens(ts@, opt_pos_view(pos)),
{
    match pos {
        Some(p) => match group_ref(ts, p, Delimiter::Brace) {
            Some(g) => &g.stream,
            None => {
                assert(empty@ =~= Seq::<TokenTree>::empty());
                empty
            },
        },
        None => {
            assert(empty@ =~= Seq::<TokenTree>::empty());
            empty
        },
    }
}

/// The value of the string literal at `pos` (empty where there is none).
fn str_value_of(ts: &Vec<TokenTree>, pos: usize) -> (r: &str)
    ensures
        r@ == str_value(ts@, pos as int),
{
    proof {
        reveal_strlit("");
    }
    if pos < ts.len() {
        match &ts[pos] {
            TokenTree::Literal(l) => match &l.lit {
                Literal::Str(s) => s.as_str(),
                _ => "",
            },
            _ => "",
        }
    } else {
        ""
    }
}

/// The code that creates each of the nodes `children` (the nodes of a
/// template, with `added` false: the code of the whole template).
pub fn template_create_codes(ts: &Vec<TokenTree>, children: &Vec<TemplateNode>, added: bool, locale: &LocaleGroup) -> (r: Vec<CreateCode>)
    ensures
        r@.len() == children@.len(),
        create_views(r@) == create_codes(ts@, nodes_view(children@), added, locale@),
    decreases children,
{
    let ghost nv = nodes_view(children@);
    proof {
        lemma_nodes_index(children@);
    }
    let mut out: Vec<CreateCode> = Vec::new();
    let mut i: usize = 0;
    while i < children.len()
        invariant
            i <= children@.len(),
            nv == nodes_view(children@),
            nv.len() == children@.len(),
            forall|k: int| 0 <= k < children@.len() ==> #[trigger] nv[k] == node_view(children@[k]),
            out@.len() == i,
            create_views(out@) == create_codes(ts@, nv.take(i as int), added, locale@),
        decreases children@.len() - i,
    {
        let c = template_create_code(ts, &children[i], added, locale);
        proof {
            assert(nv.take(i + 1).subrange(0, i as int) =~= nv.take(i as int));
        }
        let ghost prev = out@;
        out.push(c);
        proof {
            assert(out@.subrange(0, out@.len() - 1) =~= prev);
        }
        i = i + 1;
    }
    proof {
        assert(nv.take(children@.len() as int) =~= nv);
    }
    out
}

/// The code that updates a node that was created as the child at `child`.
pub enum UpdateCodeView {
    /// Nothing to update: a static text.
    Nothing,
    /// The text is set again; `wrap` as when it was created.
    SetText { child: int, braces: int, wrap: bool },
    /// The slot's data is compared and set again, and the slot told whether
    /// it changed.
    Slot { child: int, data: SlotDataView },
    /// An element: the attributes set again, and the code of its children
    /// for slots added, changed or kept.
    Tag {
        child: int,
        slot_var: Option<int>,
        attrs: Seq<(int, int)>,
        create_children: Seq<CreateCodeView>,
        update_children: Seq<UpdateCodeView>,
    },
    /// An `if`/`else` chain or a `match`: for each branch, the code that
    /// creates its children (where another branch was selected before) and
    /// the code that updates them.
    Branches { child: int, count: int, arms: Seq<(Seq<CreateCodeView>, Seq<UpdateCodeView>)> },
    /// A `for` loop: the code that creates the children of a new item and the
    /// code that updates those of a kept one.
    ForLoop {
        child: int,
        keyed: bool,
        create_children: Seq<CreateCodeView>,
        update_children: Seq<UpdateCodeView>,
    },
}

/// The code that updates the node `n`, the child at `child`.
pub open spec fn update_code(ts: Seq<TokenTree>, n: TemplateNodeView, child: int, g: LocaleGroupView) -> UpdateCodeView
    decreases n,
{
    match n {
        TemplateNodeView::StaticText(_) => UpdateCodeView::Nothing,
        TemplateNodeView::DynamicText(b) => UpdateCodeView::SetText {
            child,
            braces: b,
            wrap: g.status is NotNeeded,
        },
        TemplateNodeView::Slot { data, .. } => UpdateCodeView::Slot { child, data: slot_data(ts, data) },
        TemplateNodeView::Tag { slot_var_name, attrs, children, .. } => UpdateCodeView::Tag {
            child,
            slot_var: slot_var_name,
            attrs: update_attrs(ts, attrs, attrs.len() as int),
            create_children: create_codes(ts, children, true, g),
            update_children: update_codes(ts, children, g),
        },
        TemplateNodeView::IfElse(bs) => UpdateCodeView::Branches {
            child,
            count: bs.len() as int,
            arms: branch_update_codes(ts, bs, g),
        },
        TemplateNodeView::Match { braces, arms, .. } => UpdateCodeView::Branches {
            child,
            count: arms.len() as int,
            arms: arm_update_codes(braces_tokens(ts, braces), arms, g),
        },
        TemplateNodeView::ForLoop { key, braces, children, .. } => UpdateCodeView::ForLoop {
            child,
            keyed: key is Some,
            create_children: create_codes(braces_tokens(ts, braces), children, true, g),
            update_children: update_codes(braces_tokens(ts, braces), children, g),
        },
    }
}

/// The code that updates each of the nodes `s`, each the child at its index.
pub open spec fn update_codes(ts: Seq<TokenTree>, s: Seq<TemplateNodeView>, g: LocaleGroupView) -> Seq<UpdateCodeView>
    decreases s,
{
    if s.len() == 0 {
        Seq::empty()
    } else {
        update_codes(ts, s.subrange(0, s.len() - 1), g).push(
            update_code(ts, s[s.len() - 1], s.len() - 1, g),
        )
    }
}

/// For each branch of an `if`/`else` chain, the code that creates and the
/// code that updates its children.
pub open spec fn branch_update_codes(
    ts: Seq<TokenTree>,
    s: Seq<(Option<(int, int)>, Option<int>, Seq<TemplateNodeView>)>,
    g: LocaleGroupView,
) -> Seq<(Seq<CreateCodeView>, Seq<UpdateCodeView>)>
    decreases s,
{
    if s.len() == 0 {
        Seq::empty()
    } else {
        branch_update_codes(ts, s.subrange(0, s.len() - 1), g).push(
            (
                create_codes(opt_braces_tokens(ts, s[s.len() - 1].1), s[s.len() - 1].2, true, g),
                update_codes(opt_braces_tokens(ts, s[s.len() - 1].1), s[s.len() - 1].2, g),
            ),
        )
    }
}

/// For each arm of a `match`, the code that creates and the code that
/// updates its children.
pub open spec fn arm_update_codes(
    ts: Seq<TokenTree>,
    s: Seq<((int, int), Option<(int, int)>, int, Seq<TemplateNodeView>)>,
    g: LocaleGroupView,
) -> Seq<(Seq<CreateCodeView>, Seq<UpdateCodeView>)>
    decreases s,
{
    if s.len() == 0 {
        Seq::empty()
    } else {
        arm_update_codes(ts, s.subrange(0, s.len() - 1), g).push(
            (
                create_codes(braces_tokens(ts, s[s.len() - 1].2), s[s.len() - 1].3, true, g),
                update_codes(braces_tokens(ts, s[s.len() - 1].2), s[s.len() - 1].3, g),
            ),
        )
    }
}

/// The code that updates a node.
pub enum UpdateCode {
    Nothing,
    SetText { child: usize, braces: usize, wrap: bool },
    Slot { child: usize, data: SlotData },
    Tag {
        child: usize,
        slot_var: Option<usize>,
        attrs: Vec<(usize, usize)>,
        create_children: Vec<CreateCode>,
        update_children: Vec<UpdateCode>,
    },
    Branches { child: usize, count: usize, arms: Vec<(Vec<CreateCode>, Vec<UpdateCode>)> },
    ForLoop {
        child: usize,
        keyed: bool,
        create_children: Vec<CreateCode>,
        update_children: Vec<UpdateCode>,
    },
}

/// The view of the code that updates a node.
pub open spec fn update_view(c: UpdateCode) -> UpdateCodeView
    decreases c,
{
    match c {
        UpdateCode::Nothing => UpdateCodeView::Nothing,
        UpdateCode::SetText { child, braces, wrap } => UpdateCodeView::SetText {
            child: child as int,
            braces: braces as int,
            wrap,
        },
        UpdateCode::Slot { child, data } => UpdateCodeView::Slot { child: child as int, data: data@ },
        UpdateCode::Tag { child, slot_var, attrs, create_children, update_children } => UpdateCodeView::Tag {
            child: child as int,
            slot_var: match slot_var {
                Some(v) => Some(v as int),
                None => None,
            },
            attrs: pairs_view(attrs@),
            create_children: create_views(create_children@),
            update_children: update_views(update_children@),
        },
        UpdateCode::Branches { child, count, arms } => UpdateCodeView::Branches {
            child: child as int,
            count: count as int,
            arms: arms_update_views(arms@),
        },
        UpdateCode::ForLoop { child, keyed, create_children, update_children } => UpdateCodeView::ForLoop {
            child: child as int,
            keyed,
            create_children: create_views(create_children@),
            update_children: update_views(update_children@),
        },
    }
}

/// The views of the codes that update nodes.
pub open spec fn update_views(s: Seq<UpdateCode>) -> Seq<UpdateCodeView>
    decreases s,
{
    if s.len() == 0 {
        Seq::empty()
    } else {
        update_views(s.subrange(0, s.len() - 1)).push(update_view(s[s.len() - 1]))
    }
}

/// The views of the codes of branches.
pub open spec fn arms_update_views(s: Seq<(Vec<CreateCode>, Vec<UpdateCode>)>) -> Seq<
    (Seq<CreateCodeView>, Seq<UpdateCodeView>),
>
    decreases s,
{
    if s.len() == 0 {
        Seq::empty()
    } else {
        arms_update_views(s.subrange(0, s.len() - 1)).push(
            (create_views(s[s.len() - 1].0@), update_views(s[s.len() - 1].1@)),
        )
    }
}

impl View for UpdateCode {
    type V = UpdateCodeView;

    open spec fn view(&self) -> UpdateCodeView {
        update_view(*self)
    }
}

/// The code that updates the node `node` of the template `ts`, the child at
/// `child`.
pub fn template_update_code(ts: &Vec<TokenTree>, node: &TemplateNode, child: usize, locale: &LocaleGroup) -> (r: UpdateCode)
    ensures
        r@ == update_code(ts@, node@, child as int, locale@),
    decreases node,
{
    match node {
        TemplateNode::StaticText(_) => UpdateCode::Nothing,
        TemplateNode::DynamicText(b) => UpdateCode::SetText { child, braces: *b, wrap: !locale.need_trans() },
        TemplateNode::Slot { data, .. } => UpdateCode::Slot { child, data: slot_data_code(ts, data) },
        TemplateNode::Tag { slot_var_name, attrs, children, .. } => {
            let attr_codes = update_attr_codes(ts, attrs);
            let creates = template_create_codes(ts, children, true, locale);
            let updates = template_update_codes(ts, children, locale);
            UpdateCode::Tag {
                child,
                slot_var: *slot_var_name,
                attrs: attr_codes,
                create_children: creates,
                update_children: updates,
            }
        },
        TemplateNode::IfElse(bs) => {
            let empty: Vec<TokenTree> = Vec::new();
            let ghost bv = branches_view(bs@);
            proof {
                lemma_branches_index(bs@);
            }
            let mut arms: Vec<(Vec<CreateCode>, Vec<UpdateCode>)> = Vec::new();
            let mut i: usize = 0;
            while i < bs.len()
                invariant
                    *node matches TemplateNode::IfElse(b) && b == *bs,
                    empty@.len() == 0,
                    i <= bs@.len(),
                    bv == branches_view(bs@),
                    bv.len() == bs@.len(),
                    forall|k: int|
                        0 <= k < bs@.len() ==> #[trigger] bv[k].2 == nodes_view(bs@[k].2@) && bv[k].1
                            == opt_pos_view(bs@[k].1),
                    arms@.len() == i,
                    arms_update_views(arms@) == branch_update_codes(ts@, bv.take(i as int), locale@),
                decreases bs@.len() - i,
            {
                proof {
                    assert(decreases_to!(bs@ => bs@[i as int]));
                    assert(decreases_to!(bs@[i as int] => bs@[i as int].2));
                }
                let sub = braces_tokens_of(ts, bs[i].1, &empty);
                let creates = template_create_codes(sub, &bs[i].2, true, locale);
                let updates = template_update_codes(sub, &bs[i].2, locale);
                proof {
                    assert(bv.take(i + 1).subrange(0, i as int) =~= bv.take(i as int));
                }
                let ghost prev = arms@;
                arms.push((creates, updates));
                proof {
                    assert(arms@.subrange(0, arms@.len() - 1) =~= prev);
                }
                i = i + 1;
            }
            proof {
                assert(bv.take(bs@.len() as int) =~= bv);
            }
            UpdateCode::Branches { child, count: bs.len(), arms }
        },
        TemplateNode::Match { braces, arms: ms, .. } => {
            let empty: Vec<TokenTree> = Vec::new();
            let mt = braces_tokens_of(ts, Some(*braces), &empty);
            let ghost mv = arms_view(ms@);
            proof {
                lemma_arms_index(ms@);
            }
            let mut arms: Vec<(Vec<CreateCode>, Vec<UpdateCode>)> = Vec::new();
            let mut i: usize = 0;
            while i < ms.len()
                invariant
                    *node matches TemplateNode::Match { arms: a, braces: bb, .. } && a == *ms && bb == *braces,
                    empty@.len() == 0,
                    mt@ == braces_tokens(ts@, *braces as int),
                    i <= ms@.len(),
                    mv == arms_view(ms@),
                    mv.len() == ms@.len(),
                    forall|k: int|
                        0 <= k < ms@.len() ==> #[trigger] mv[k].3 == nodes_view(ms@[k].3@) && mv[k].2
                            == ms@[k].2 as int,
                    arms@.len() == i,
                    arms_update_views(arms@) == arm_update_codes(mt@, mv.take(i as int), locale@),
                decreases ms@.len() - i,
            {
                proof {
                    assert(decreases_to!(ms@ => ms@[i as int]));
                    assert(decreases_to!(ms@[i as int] => ms@[i as int].3));
                }
                let sub = braces_tokens_of(mt, Some(ms[i].2), &empty);
                let creates = template_create_codes(sub, &ms[i].3, true, locale);
                let updates = template_update_codes(sub, &ms[i].3, locale);
                proof {
                    assert(mv.take(i + 1).subrange(0, i as int) =~= mv.take(i as int));
                }
                let ghost prev = arms@;
                arms.push((creates, updates));
                proof {
                    assert(arms@.subrange(0, arms@.len() - 1) =~= prev);
                }
                i = i + 1;
            }
            proof {
                assert(mv.take(ms@.len() as int) =~= mv);
            }
            UpdateCode::Branches { child, count: ms.len(), arms }
        },
        TemplateNode::ForLoop { key, braces, children, .. } => {
            let empty: Vec<TokenTree> = Vec::new();
            let sub = braces_tokens_of(ts, Some(*braces), &empty);
            let creates = template_create_codes(sub, children, true, locale);
            let updates = template_update_codes(sub, children, locale);
            UpdateCode::ForLoop {
                child,
                keyed: key.is_some(),
                create_children: creates,
                update_children: updates,
            }
        },
    }
}

/// The code that updates each of the nodes `children`, each the child at its
/// index (the nodes of a template: the code of the whole template).
pub fn template_update_codes(ts: &Vec<TokenTree>, children: &Vec<TemplateNode>, locale: &LocaleGroup) -> (r: Vec<UpdateCode>)
    ensures
        r@.len() == children@.len(),
        update_views(r@) == update_codes(ts@, nodes_view(children@), locale@),
    decreases children,
{
    let ghost nv = nodes_view(children@);
    proof {
        lemma_nodes_index(children@);
    }
    let mut out: Vec<UpdateCode> = Vec::new();
    let mut i: usize = 0;
    while i < children.len()
        invariant
            i <= children@.len(),
            nv == nodes_view(children@),
            nv.len() == children@.len(),
            forall|k: int| 0 <= k < children@.len() ==> #[trigger] nv[k] == node_view(children@[k]),
            out@.len() == i,
            update_views(out@) == update_codes(ts@, nv.take(i as int), locale@),
        decreases children@.len() - i,
    {
        let c = template_update_code(ts, &children[i], i, locale);
        proof {
            assert(nv.take(i + 1).subrange(0, i as int) =~= nv.take(i as int));
        }
        let ghost prev = out@;
        out.push(c);
        proof {
            assert(out@.subrange(0, out@.len() - 1) =~= prev);
        }
        i = i + 1;
    }
    proof {
        assert(nv.take(children@.len() as int) =~= nv);
    }
    out
}

/// Counting more attributes counts no fewer items, and one more for each
/// further attribute of the same list property.
proof fn lemma_list_count_grows(ts: Seq<TokenTree>, attrs: Seq<TemplateAttrView>, i: int, b: int, l: Seq<char>)
    requires
        0 <= i <= b <= attrs.len(),
    ensures
        list_count(ts, attrs, i, l) <= list_count(ts, attrs, b, l),
        i < b && list_name(ts, attrs[i]) == Some(l) ==> list_count(ts, attrs, i, l) + 1 <= list_count(
            ts,
            attrs,
            b,
            l,
        ),
    decreases b - i,
{
    if i < b {
        lemma_list_count_grows(ts, attrs, i, b - 1, l);
        if i < b - 1 {
            lemma_list_count_grows(ts, attrs, i + 1, b - 1, l);
        }
    }
}

/// The items of a list property that the attributes of an element set lie
/// within the number of items the list is given, and no two attributes set
/// the same item: where the attributes at `i` and `j` (`i` before `j`) set
/// items of the same list property, the item of the one at `i` comes first,
/// and both are below the list's number of items.
pub proof fn lemma_list_items_distinct(ts: Seq<TokenTree>, attrs: Seq<TemplateAttrView>, i: int, j: int)
    requires
        0 <= i < j < attrs.len(),
        list_name(ts, attrs[i]) is Some,
        list_name(ts, attrs[i]) == list_name(ts, attrs[j]),
    ensures
        0 <= list_index(ts, attrs, i) < list_index(ts, attrs, j) < list_count(
            ts,
            attrs,
            attrs.len() as int,
            list_name(ts, attrs[i])->0,
        ),
{
    let l = list_name(ts, attrs[i])->0;
    lemma_list_count_grows(ts, attrs, 0, i, l);
    lemma_list_count_grows(ts, attrs, i, j, l);
    lemma_list_count_grows(ts, attrs, j, attrs.len() as int, l);
}

/// Each node of a template is updated as the child at its own index.
pub proof fn lemma_update_child_index(ts: Seq<TokenTree>, s: Seq<TemplateNodeView>, g: LocaleGroupView)
    ensures
        update_codes(ts, s, g).len() == s.len(),
        forall|i: int| 0 <= i < s.len() ==> #[trigger] update_codes(ts, s, g)[i] == update_code(ts, s[i], i, g),
    decreases s.len(),
{
    if s.len() > 0 {
        let p = s.subrange(0, s.len() - 1);
        lemma_update_child_index(ts, p, g);
        assert forall|i: int| 0 <= i < s.len() implies #[trigger] update_codes(ts, s, g)[i] == update_code(
            ts,
            s[i],
            i,
            g,
        ) by {
            if i < s.len() - 1 {
                assert(p[i] == s[i]);
            }
        }
    }
}

/// The code that creates each node, one by one.
proof fn lemma_create_codes_index(ts: Seq<TokenTree>, s: Seq<TemplateNodeView>, added: bool, g: LocaleGroupView)
    ensures
        create_codes(ts, s, added, g).len() == s.len(),
        forall|i: int| 0 <= i < s.len() ==> #[trigger] create_codes(ts, s, added, g)[i] == create_code(ts, s[i], added, g),
    decreases s.len(),
{
    if s.len() > 0 {
        let p = s.subrange(0, s.len() - 1);
        lemma_create_codes_index(ts, p, added, g);
        assert forall|i: int| 0 <= i < s.len() implies #[trigger] create_codes(ts, s, added, g)[i] == create_code(
            ts,
            s[i],
            added,
            g,
        ) by {
            if i < s.len() - 1 {
                assert(p[i] == s[i]);
            }
        }
    }
}

/// The code of a template creates a node for each of its nodes and updates
/// each of them in turn: a static text is created once and never updated,
/// every other node is updated, and of the same kind as it was created (a
/// text as a text, a slot as a slot, an element as an element, branches as
/// branches, a list as a list).
pub proof fn lemma_create_update_agree(ts: Seq<TokenTree>, s: Seq<TemplateNodeView>, added: bool, g: LocaleGroupView)
    ensures
        create_codes(ts, s, added, g).len() == s.len(),
        update_codes(ts, s, g).len() == s.len(),
        forall|i: int|
            0 <= i < s.len() ==> {
                let c = #[trigger] create_codes(ts, s, added, g)[i];
                let u = update_codes(ts, s, g)[i];
                &&& (c is StaticText <==> u is Nothing)
                &&& (c is DynamicText <==> u is SetText)
                &&& (c is Slot <==> u is Slot)
                &&& (c is Tag <==> u is Tag)
                &&& (c is Branches <==> u is Branches)
                &&& (c is ForLoop <==> u is ForLoop)
            },
{
    lemma_create_codes_index(ts, s, added, g);
    lemma_update_child_index(ts, s, g);
}

} // verus!
