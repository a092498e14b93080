//! The component attribute and the component struct it is put on: the
//! attribute's parameters (`Backend = path`, `Backend = impl path`,
//! `SlotData = path`), and what the component's code is made from: its
//! name and type parameters, the backend parameter, the slot data type, and
//! its one `template!` field with the template's nodes.
use vstd::prelude::*;

use proc_macro2::Span;

use crate::style_items::{path_at, path_parse};
use crate::template::{error_span_at, ident_parse, is_punct, span_at};
use crate::i18n::LocaleGroup;
use crate::template_code::{
    create_codes, create_views, template_create_codes, template_update_codes, update_codes, update_views,
    CreateCode, UpdateCode,
};
use crate::template_node::{kw_at, nodes_parse, nodes_view, parse_template, TemplateNode, TemplateNodeView};
use crate::text::str_eq;
use crate::i18n_args::punct_at;
use crate::token_parse::{fail, Failed, TokenTree};
use crate::values::ParseError;

verus! {

/// A parameter of the component attribute; the name by its position.
pub enum AttrItemView {
    Backend { name: int, span: Span, impl_token: bool, path: (bool, Seq<Seq<char>>) },
    SlotData { name: int, span: Span, path: (bool, Seq<Seq<char>>) },
}

/// The parameter at `pos`, and the position after it.
pub open spec fn attr_item_parse(ts: Seq<TokenTree>, pos: int, scope: Span) -> Result<(AttrItemView, int), Failed> {
    match ident_parse(ts, pos, scope) {
        Err(e) => Err(e),
        Ok(_) => {
            let name = ts[pos]->Ident_0.name@;
            if name != "Backend"@ && name != "SlotData"@ {
                Err(fail(ts[pos]->Ident_0.span, "Unknown attribute parameter"@))
            } else if !punct_at(ts, pos + 1, '=') {
                Err(fail(span_at(ts, pos + 1, scope), "expected `=`"@))
            } else if name == "Backend"@ {
                let imp = kw_at(ts, pos + 2, "impl"@);
                match path_parse(ts, if imp { pos + 3 } else { pos + 2 }, scope) {
                    Err(e) => Err(e),
                    Ok(p) => Ok(
                        (
                            AttrItemView::Backend {
                                name: pos,
                                span: ts[pos]->Ident_0.span,
                                impl_token: imp,
                                path: p.value,
                            },
                            p.next,
                        ),
                    ),
                }
            } else {
                match path_parse(ts, pos + 2, scope) {
                    Err(e) => Err(e),
                    Ok(p) => Ok(
                        (AttrItemView::SlotData { name: pos, span: ts[pos]->Ident_0.span, path: p.value }, p.next),
                    ),
                }
            }
        },
    }
}

/// The parameters from `pos` on, separated by commas (a last comma may end
/// them).
pub open spec fn attr_items_parse(ts: Seq<TokenTree>, pos: int, scope: Span) -> Result<Seq<AttrItemView>, Failed>
    decreases ts.len() - pos,
{
    if pos >= ts.len() {
        Ok(Seq::empty())
    } else {
        match attr_item_parse(ts, pos, scope) {
            Err(e) => Err(e),
            Ok((item, next)) => {
                if next <= pos || next > ts.len() {
                    Err(fail(scope, Seq::empty()))
                } else if next == ts.len() {
                    Ok(seq![item])
                } else if !punct_at(ts, next, ',') {
                    Err(fail(span_at(ts, next, scope), "expected `,`"@))
                } else {
                    match attr_items_parse(ts, next + 1, scope) {
                        Err(e) => Err(e),
                        Ok(rest) => Ok(seq![item] + rest),
                    }
                }
            },
        }
    }
}

/// A parameter of the component attribute.
pub enum ComponentAttrItem {
    Backend { name: usize, span: Span, impl_token: bool, path: (bool, Vec<String>) },
    SlotData { name: usize, span: Span, path: (bool, Vec<String>) },
}

/// A path by its view.
pub open spec fn path_of(p: (bool, Vec<String>)) -> (bool, Seq<Seq<char>>) {
    (p.0, p.1@.map_values(|s: String| s@))
}

impl View for ComponentAttrItem {
    type V = AttrItemView;

    open spec fn view(&self) -> AttrItemView {
        match self {
            ComponentAttrItem::Backend { name, span, impl_token, path } => AttrItemView::Backend {
                name: *name as int,
                span: *span,
                impl_token: *impl_token,
                path: path_of(*path),
            },
            ComponentAttrItem::SlotData { name, span, path } => AttrItemView::SlotData {
                name: *name as int,
                span: *span,
                path: path_of(*path),
            },
        }
    }
}

/// Parameters by their views.
pub open spec fn items_view(v: Seq<ComponentAttrItem>) -> Seq<AttrItemView> {
    v.map_values(|x: ComponentAttrItem| x@)
}

fn attr_item_at(ts: &Vec<TokenTree>, pos: usize, scope: Span) -> (r: Result<(ComponentAttrItem, usize), ParseError>)
    ensures
        match attr_item_parse(ts@, pos as int, scope) {
            Ok((v, next)) => r matches Ok((x, n)) && x@ == v && n == next,
            Err(f) => r matches Err(e) && e.span == f.span && e.message@ == f.message,
        },
{
    match crate::template::ident_at(ts, pos, scope) {
        Err(e) => {
            return Err(e);
        },
        Ok(_) => {},
    }
    let len = ts.len();
    let (span, backend, known) = match &ts[pos] {
        TokenTree::Ident(i) => {
            let b = str_eq(i.name.as_str(), "Backend");
            let s = str_eq(i.name.as_str(), "SlotData");
            (i.span, b, b || s)
        },
        _ => {
            return Err(ParseError::new(scope, ""));
        },
    };
    proof {
        reveal_strlit("Backend");
        reveal_strlit("SlotData");
        reveal_strlit("impl");
    }
    if !known {
        return Err(ParseError::new(span, "Unknown attribute parameter"));
    }
    if !is_punct(ts, pos + 1, '=') {
        return Err(ParseError::new(error_span_at(ts, pos + 1, scope), "expected `=`"));
    }
    if backend {
        let imp = pos + 2 < len && match &ts[pos + 2] {
            TokenTree::Ident(i) => str_eq(i.name.as_str(), "impl"),
            _ => false,
        };
        let start = if imp {
            pos + 3
        } else {
            pos + 2
        };
        match path_at(ts, start, scope) {
            Err(e) => Err(e),
            Ok((p, n)) => Ok((ComponentAttrItem::Backend { name: pos, span, impl_token: imp, path: p }, n)),
        }
    } else {
        match path_at(ts, pos + 2, scope) {
            Err(e) => Err(e),
            Ok((p, n)) => Ok((ComponentAttrItem::SlotData { name: pos, span, path: p }, n)),
        }
    }
}

fn attr_items_at(ts: &Vec<TokenTree>, pos: usize, scope: Span) -> (r: Result<Vec<ComponentAttrItem>, ParseError>)
    ensures
        match attr_items_parse(ts@, pos as int, scope) {
            Ok(v) => r matches Ok(x) && items_view(x@) == v,
            Err(f) => r matches Err(e) && e.span == f.span && e.message@ == f.message,
        },
    decreases ts@.len() - pos,
{
    if pos >= ts.len() {
        let v: Vec<ComponentAttrItem> = Vec::new();
        assert(items_view(v@) =~= Seq::<AttrItemView>::empty());
        return Ok(v);
    }
    let (item, next) = match attr_item_at(ts, pos, scope) {
        Err(e) => {
            return Err(e);
        },
        Ok(x) => x,
    };
    if next <= pos || next > ts.len() {
        proof {
            reveal_strlit("");
        }
        return Err(ParseError::new(scope, ""));
    }
    if next == ts.len() {
        let mut v: Vec<ComponentAttrItem> = Vec::new();
        let ghost iv = item@;
        v.push(item);
        assert(items_view(v@) =~= seq![iv]);
        return Ok(v);
    }
    if !is_punct(ts, next, ',') {
        return Err(ParseError::new(error_span_at(ts, next, scope), "expected `,`"));
    }
    match attr_items_at(ts, next + 1, scope) {
        Err(e) => Err(e),
        Ok(mut rest) => {
            let ghost rv = items_view(rest@);
            let ghost iv = item@;
            rest.insert(0, item);
            assert(items_view(rest@) =~= seq![iv] + rv);
            Ok(rest)
        },
    }
}

/// The parameters of the component attribute.
pub struct ComponentAttr {
    pub items: Vec<ComponentAttrItem>,
}

impl ComponentAttr {
    /// The parameters in the attribute's tokens.
    pub fn parse(ts: &Vec<TokenTree>, scope: Span) -> (r: Result<ComponentAttr, ParseError>)
        ensures
            match attr_items_parse(ts@, 0, scope) {
                Ok(v) => r matches Ok(x) && items_view(x.items@) == v,
                Err(f) => r matches Err(e) && e.span == f.span && e.message@ == f.message,
            },
    {
        match attr_items_at(ts, 0, scope) {
            Err(e) => Err(e),
            Ok(items) => Ok(ComponentAttr { items }),
        }
    }
}

/// A field of the component struct: its name, and, where its type is a
/// `template!` invocation, the template's tokens with the span of the
/// invocation and that of its closing delimiter.
pub struct ComponentField {
    pub ident: Option<String>,
    pub template: Option<(Vec<TokenTree>, Span, Span)>,
}

/// The component struct: its name, the names of its type, lifetime and
/// const parameters, whether its fields are named, its span and its fields.
pub struct ComponentItem {
    pub ident: String,
    pub generic_names: Vec<String>,
    pub named: bool,
    pub span: Span,
    pub fields: Vec<ComponentField>,
}

/// The backend parameter: none given (a type parameter bound by the
/// backend trait), `impl path` (a type parameter bound by `path`), or the
/// backend type `path` itself.
pub enum BackendParamView {
    Default,
    Impl((bool, Seq<Seq<char>>)),
    Concrete((bool, Seq<Seq<char>>)),
}

/// The backend parameter and the slot data type given by the parameters
/// from `i` on, `backend` and `slot` being those given before; an error at
/// the first parameter given twice.
pub open spec fn attr_config(
    items: Seq<AttrItemView>,
    i: int,
    backend: Option<BackendParamView>,
    slot: Option<(bool, Seq<Seq<char>>)>,
) -> Result<(Option<BackendParamView>, Option<(bool, Seq<Seq<char>>)>), Failed>
    decreases items.len() - i,
{
    if i >= items.len() {
        Ok((backend, slot))
    } else {
        match items[i] {
            AttrItemView::Backend { span, impl_token, path, .. } => if backend is Some {
                Err(fail(span, "Duplicated attribute parameter"@))
            } else {
                attr_config(
                    items,
                    i + 1,
                    Some(
                        if impl_token {
                            BackendParamView::Impl(path)
                        } else {
                            BackendParamView::Concrete(path)
                        },
                    ),
                    slot,
                )
            },
            AttrItemView::SlotData { span, path, .. } => if slot is Some {
                Err(fail(span, "Duplicated attribute parameter"@))
            } else {
                attr_config(items, i + 1, backend, Some(path))
            },
        }
    }
}

/// The index of the `template!` field among the fields from `i` on, `found`
/// being the one found before; an error at a second one.
pub open spec fn template_field_find(fields: Seq<ComponentField>, i: int, found: Option<int>) -> Result<
    Option<int>,
    Failed,
>
    decreases fields.len() - i,
{
    if i >= fields.len() {
        Ok(found)
    } else if fields[i].template is Some {
        if found is Some {
            let t = fields[i].template->0;
            Err(fail(t.1, "a component struct can only contain one `template!` field"@))
        } else {
            template_field_find(fields, i + 1, Some(i))
        }
    } else {
        template_field_find(fields, i + 1, found)
    }
}

/// What a component's code is made from.
pub struct ComponentBodyView {
    pub name: Seq<char>,
    pub generic_names: Seq<Seq<char>>,
    pub backend: BackendParamView,
    pub slot_data: Option<(bool, Seq<Seq<char>>)>,
    pub template_field: int,
    pub template: Result<Seq<TemplateNodeView>, Failed>,
}

/// The body for the attribute's parameters `items` and the struct `item`.
pub open spec fn component_body(items: Seq<AttrItemView>, item: ComponentItem) -> Result<
    ComponentBodyView,
    Failed,
> {
    match attr_config(items, 0, None, None) {
        Err(e) => Err(e),
        Ok((backend, slot)) => if !item.named {
            Err(fail(item.span, "a component struct must be a named struct"@))
        } else {
            match template_field_find(item.fields@, 0, None) {
                Err(e) => Err(e),
                Ok(None) => Err(fail(item.span, "a component struct must contain a `template!` field"@)),
                Ok(Some(j)) => {
                    let t = item.fields@[j].template->0;
                    Ok(
                        ComponentBodyView {
                            name: item.ident@,
                            generic_names: item.generic_names@.map_values(|s: String| s@),
                            backend: match backend {
                                Some(b) => b,
                                None => BackendParamView::Default,
                            },
                            slot_data: slot,
                            template_field: j,
                            template: match nodes_parse(t.0@, 0, t.2) {
                                Ok((ns, _)) => Ok(ns),
                                Err(e) => Err(e),
                            },
                        },
                    )
                },
            }
        },
    }
}

/// The backend parameter of a component.
pub enum BackendParam {
    Default,
    Impl((bool, Vec<String>)),
    Concrete((bool, Vec<String>)),
}

impl View for BackendParam {
    type V = BackendParamView;

    open spec fn view(&self) -> BackendParamView {
        match self {
            BackendParam::Default => BackendParamView::Default,
            BackendParam::Impl(p) => BackendParamView::Impl(path_of(*p)),
            BackendParam::Concrete(p) => BackendParamView::Concrete(path_of(*p)),
        }
    }
}

/// What a component's code is made from: its name and type parameters,
/// the backend parameter, the slot data type (`()` where none is given),
/// the index of the `template!` field, and the template's nodes or the
/// error in reading them.
pub struct ComponentBody {
    pub name: String,
    pub generic_names: Vec<String>,
    pub backend: BackendParam,
    pub slot_data: Option<(bool, Vec<String>)>,
    pub template_field: usize,
    pub template: Result<Vec<TemplateNode>, ParseError>,
}

/// Whether `b` is the body `v`.
pub open spec fn body_is(b: ComponentBody, v: ComponentBodyView) -> bool {
    &&& b.name@ == v.name
    &&& b.generic_names@.map_values(|s: String| s@) == v.generic_names
    &&& b.backend@ == v.backend
    &&& match b.slot_data {
        Some(p) => v.slot_data == Some(path_of(p)),
        None => v.slot_data is None,
    }
    &&& b.template_field == v.template_field
    &&& match (b.template, v.template) {
        (Ok(x), Ok(ns)) => nodes_view(x@) == ns,
        (Err(e), Err(f)) => e.span == f.span && e.message@ == f.message,
        _ => false,
    }
}

fn copy_strings(v: &Vec<String>) -> (r: Vec<String>)
    ensures
        r@.map_values(|s: String| s@) == v@.map_values(|s: String| s@),
{
    let mut r: Vec<String> = Vec::new();
    let mut i: usize = 0;
    while i < v.len()
        invariant
            i <= v@.len(),
            r@.map_values(|s: String| s@) == v@.take(i as int).map_values(|s: String| s@),
        decreases v@.len() - i,
    {
        let ghost r0 = r@;
        let x = crate::text::to_owned_string(v[i].as_str());
        r.push(x);
        proof {
            assert(r@ =~= r0.push(x));
            assert(v@.take(i + 1) =~= v@.take(i as int).push(v@[i as int]));
            assert(r@.map_values(|s: String| s@) =~= r0.map_values(|s: String| s@).push(x@));
        }
        i = i + 1;
        assert(r@.map_values(|s: String| s@) =~= v@.take(i as int).map_values(|s: String| s@));
    }
    assert(v@.take(i as int) =~= v@);
    r
}

fn copy_path(p: &(bool, Vec<String>)) -> (r: (bool, Vec<String>))
    ensures
        path_of(r) == path_of(*p),
{
    (p.0, copy_strings(&p.1))
}

impl ComponentBody {
    /// The body for the component attribute `attr` and the struct `item`.
    pub fn new(attr: &ComponentAttr, item: &ComponentItem) -> (r: Result<ComponentBody, ParseError>)
        ensures
            match component_body(items_view(attr.items@), *item) {
                Ok(v) => r matches Ok(b) && body_is(b, v),
                Err(f) => r matches Err(e) && e.span == f.span && e.message@ == f.message,
            },
    {
        let ghost iv = items_view(attr.items@);
        let mut backend: Option<BackendParam> = None;
        let mut slot: Option<(bool, Vec<String>)> = None;
        let mut i: usize = 0;
        while i < attr.items.len()
            invariant
                i <= attr.items@.len(),
                iv == items_view(attr.items@),
                attr_config(iv, 0, None, None) == attr_config(
                    iv,
                    i as int,
                    match backend {
                        Some(b) => Some(b@),
                        None => None,
                    },
                    match slot {
                        Some(p) => Some(path_of(p)),
                        None => None,
                    },
                ),
            decreases attr.items@.len() - i,
        {
            assert(iv[i as int] == attr.items@[i as int]@);
            match &attr.items[i] {
                ComponentAttrItem::Backend { span, impl_token, path, .. } => {
                    if backend.is_some() {
                        return Err(ParseError::new(*span, "Duplicated attribute parameter"));
                    }
                    backend = Some(
                        if *impl_token {
                            BackendParam::Impl(copy_path(path))
                        } else {
                            BackendParam::Concrete(copy_path(path))
                        },
                    );
                },
                ComponentAttrItem::SlotData { span, path, .. } => {
                    if slot.is_some() {
                        return Err(ParseError::new(*span, "Duplicated attribute parameter"));
                    }
                    slot = Some(copy_path(path));
                },
            }
            i = i + 1;
        }
        if !item.named {
            return Err(ParseError::new(item.span, "a component struct must be a named struct"));
        }
        let mut found: Option<usize> = None;
        let mut j: usize = 0;
        while j < item.fields.len()
            invariant
                j <= item.fields@.len(),
                item.named,
                attr_config(items_view(attr.items@), 0, None, None) is Ok,
                found matches Some(f) ==> f < j && item.fields@[f as int].template is Some,
                template_field_find(item.fields@, 0, None) == template_field_find(
                    item.fields@,
                    j as int,
                    match found {
                        Some(f) => Some(f as int),
                        None => None,
                    },
                ),
            decreases item.fields@.len() - j,
        {
            if let Some(t) = &item.fields[j].template {
                assert(item.fields@[j as int].template == Some(*t));
                if found.is_some() {
                    return Err(
                        ParseError::new(t.1, "a component struct can only contain one `template!` field"),
                    );
                }
                found = Some(j);
            }
            j = j + 1;
        }
        let f = match found {
            None => {
                return Err(ParseError::new(item.span, "a component struct must contain a `template!` field"));
            },
            Some(f) => f,
        };
        let t = match &item.fields[f].template {
            Some(t) => t,
            None => {
                return Err(ParseError::new(item.span, ""));
            },
        };
        let template = parse_template(&t.0, t.2);
        Ok(
            ComponentBody {
                name: crate::text::to_owned_string(item.ident.as_str()),
                generic_names: copy_strings(&item.generic_names),
                backend: match backend {
                    Some(b) => b,
                    None => BackendParam::Default,
                },
                slot_data: slot,
                template_field: f,
                template,
            },
        )
    }
}

/// The code of a component: the type parameter that its template impl adds
/// for the backend, with that parameter's bound (`None` where the backend is
/// a concrete type; the bound's path, or `None` for the backend trait
/// itself), the backend type (`None` for that added parameter, or the
/// concrete type's path), the slot data type (`()` where none is given), the
/// index of the `template!` field, and the code that creates and the code
/// that updates the template, or the error in reading it, which stands as a
/// compile error in place of the impl.
pub struct ComponentCode {
    pub impl_param: Option<Option<(bool, Vec<String>)>>,
    pub backend: Option<(bool, Vec<String>)>,
    pub slot_data: Option<(bool, Vec<String>)>,
    pub template_field: usize,
    pub template: Result<(Vec<CreateCode>, Vec<UpdateCode>), ParseError>,
}

fn copy_opt_path(p: &Option<(bool, Vec<String>)>) -> (r: Option<(bool, Vec<String>)>)
    ensures
        match (r, *p) {
            (Some(x), Some(y)) => path_of(x) == path_of(y),
            (None, None) => true,
            _ => false,
        },
{
    match p {
        Some(x) => Some(copy_path(x)),
        None => None,
    }
}

impl ComponentBody {
    /// The code of the component, `ts` being the tokens of its template and
    /// `locale` the translations its texts take.
    pub fn code(&self, ts: &Vec<TokenTree>, locale: &LocaleGroup) -> (r: ComponentCode)
        ensures
            match self.backend {
                BackendParam::Default => {
                    &&& r.impl_param == Some(None::<(bool, Vec<String>)>)
                    &&& r.backend is None
                },
                BackendParam::Impl(p) => {
                    &&& r.impl_param matches Some(Some(q)) && path_of(q) == path_of(p)
                    &&& r.backend is None
                },
                BackendParam::Concrete(p) => {
                    &&& r.impl_param is None
                    &&& r.backend matches Some(q) && path_of(q) == path_of(p)
                },
            },
            match (r.slot_data, self.slot_data) {
                (Some(x), Some(y)) => path_of(x) == path_of(y),
                (None, None) => true,
                _ => false,
            },
            r.template_field == self.template_field,
            match self.template {
                Ok(ns) => r.template matches Ok((c, u)) && create_views(c@) == create_codes(
                    ts@,
                    nodes_view(ns@),
                    false,
                    locale@,
                ) && update_views(u@) == update_codes(ts@, nodes_view(ns@), locale@),
                Err(e) => r.template matches Err(f) && f.span == e.span && f.message@ == e.message@,
            },
    {
        let (impl_param, backend) = match &self.backend {
            BackendParam::Default => (Some(None), None),
            BackendParam::Impl(p) => (Some(Some(copy_path(p))), None),
            BackendParam::Concrete(p) => (None, Some(copy_path(p))),
        };
        let template = match &self.template {
            Ok(ns) => Ok((template_create_codes(ts, ns, false, locale), template_update_codes(ts, ns, locale))),
            Err(e) => Err(ParseError::new(e.span, e.message.as_str())),
        };
        ComponentCode {
            impl_param,
            backend,
            slot_data: copy_opt_path(&self.slot_data),
            template_field: self.template_field,
            template,
        }
    }
}

} // verus!
