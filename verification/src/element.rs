//! The DOM element definitions: each element type creates an element of its
//! tag name, with a class list, custom attributes and its own attributes.
//!
//! The element list is found in [MDN](https://developer.mozilla.org/en-US/docs/Web/HTML/Element) .
#![allow(non_camel_case_types)]
use vstd::prelude::*;

use crate::class_list::{ClassSlot, DomClassList};
use crate::custom_attr::{DomCustomAttrs, DomStrAttr};
use crate::prerender::PrerenderingElement;

verus! {

/// The parts every DOM element has: its class list, its custom attributes
/// and its prerendered state.
pub struct DomElement {
    pub class: DomClassList,
    pub attr: DomCustomAttrs,
    pub elem: PrerenderingElement,
}

impl DomElement {
    /// A fresh element of a tag name: no classes, no attributes.
    pub open spec fn is_fresh(&self, tag_name: Seq<char>) -> bool {
        &&& self.class@ == Seq::<ClassSlot>::empty()
        &&& self.attr@ == Seq::<Option<Seq<char>>>::empty()
        &&& self.elem@.tag_name == tag_name
        &&& self.elem@.classes == Seq::<Seq<char>>::empty()
        &&& self.elem@.attrs == Seq::<(Seq<char>, Seq<char>)>::empty()
    }

    pub fn new(tag_name: &'static str) -> (r: Self)
        ensures
            r.is_fresh(tag_name@),
    {
        DomElement {
            class: DomClassList::new(),
            attr: DomCustomAttrs::new(),
            elem: PrerenderingElement::new(tag_name),
        }
    }
}

// forms

/// The `<datalist>` element.
pub struct datalist {
    pub base: DomElement,
}

impl datalist {
    /// A new `<datalist>` element.
    pub fn new() -> (r: Self)
        ensures
            r.base.is_fresh("datalist"@),
    {
        datalist { base: DomElement::new("datalist") }
    }
}

/// The `<label>` element.
pub struct label {
    pub base: DomElement,
    /// The `for` attribute.
    pub html_for: DomStrAttr,
}

impl label {
    /// A new `<label>` element; its `for` attribute is empty.
    pub fn new() -> (r: Self)
        ensures
            r.base.is_fresh("label"@),
            r.html_for.name_spec() == "for"@,
            r.html_for.value_spec() == Seq::<char>::empty(),
    {
        let r = label { base: DomElement::new("label"), html_for: DomStrAttr::new("for", String::new()) };
        r
    }
}

/// The `<legend>` element.
pub struct legend {
    pub base: DomElement,
}

impl legend {
    /// A new `<legend>` element.
    pub fn new() -> (r: Self)
        ensures
            r.base.is_fresh("legend"@),
    {
        legend { base: DomElement::new("legend") }
    }
}

// inline text semantics

/// The `<abbr>` element.
pub struct abbr {
    pub base: DomElement,
}

impl abbr {
    /// A new `<abbr>` element.
    pub fn new() -> (r: Self)
        ensures
            r.base.is_fresh("abbr"@),
    {
        abbr { base: DomElement::new("abbr") }
    }
}

/// The `<b>` element.
pub struct b {
    pub base: DomElement,
}

impl b {
    /// A new `<b>` element.
    pub fn new() -> (r: Self)
        ensures
            r.base.is_fresh("b"@),
    {
        b { base: DomElement::new("b") }
    }
}

/// The `<bdi>` element.
pub struct bdi {
    pub base: DomElement,
}

impl bdi {
    /// A new `<bdi>` element.
    pub fn new() -> (r: Self)
        ensures
            r.base.is_fresh("bdi"@),
    {
        bdi { base: DomElement::new("bdi") }
    }
}

/// The `<bdo>` element.
pub struct bdo {
    pub base: DomElement,
}

impl bdo {
    /// A new `<bdo>` element.
    pub fn new() -> (r: Self)
        ensures
            r.base.is_fresh("bdo"@),
    {
        bdo { base: DomElement::new("bdo") }
    }
}

/// The `<br>` element.
pub struct br {
    pub base: DomElement,
}

impl br {
    /// A new `<br>` element.
    pub fn new() -> (r: Self)
        ensures
            r.base.is_fresh("br"@),
    {
        br { base: DomElement::new("br") }
    }
}

/// The `<site>` element.
pub struct site {
    pub base: DomElement,
}

impl site {
    /// A new `<site>` element.
    pub fn new() -> (r: Self)
        ensures
            r.base.is_fresh("site"@),
    {
        site { base: DomElement::new("site") }
    }
}

/// The `<code>` element.
pub struct code {
    pub base: DomElement,
}

impl code {
    /// A new `<code>` element.
    pub fn new() -> (r: Self)
        ensures
            r.base.is_fresh("code"@),
    {
        code { base: DomElement::new("code") }
    }
}

/// The `<em>` element.
pub struct em {
    pub base: DomElement,
}

impl em {
    /// A new `<em>` element.
    pub fn new() -> (r: Self)
        ensures
            r.base.is_fresh("em"@),
    {
        em { base: DomElement::new("em") }
    }
}

/// The `<i>` element.
pub struct i {
    pub base: DomElement,
}

impl i {
    /// A new `<i>` element.
    pub fn new() -> (r: Self)
        ensures
            r.base.is_fresh("i"@),
    {
        i { base: DomElement::new("i") }
    }
}

/// The `<kbd>` element.
pub struct kbd {
    pub base: DomElement,
}

impl kbd {
    /// A new `<kbd>` element.
    pub fn new() -> (r: Self)
        ensures
            r.base.is_fresh("kbd"@),
    {
        kbd { base: DomElement::new("kbd") }
    }
}

/// The `<mark>` element.
pub struct mark {
    pub base: DomElement,
}

impl mark {
    /// A new `<mark>` element.
    pub fn new() -> (r: Self)
        ensures
            r.base.is_fresh("mark"@),
    {
        mark { base: DomElement::new("mark") }
    }
}

/// The `<rp>` element.
pub struct rp {
    pub base: DomElement,
}

impl rp {
    /// A new `<rp>` element.
    pub fn new() -> (r: Self)
        ensures
            r.base.is_fresh("rp"@),
    {
        rp { base: DomElement::new("rp") }
    }
}

/// The `<rt>` element.
pub struct rt {
    pub base: DomElement,
}

impl rt {
    /// A new `<rt>` element.
    pub fn new() -> (r: Self)
        ensures
            r.base.is_fresh("rt"@),
    {
        rt { base: DomElement::new("rt") }
    }
}

/// The `<ruby>` element.
pub struct ruby {
    pub base: DomElement,
}

impl ruby {
    /// A new `<ruby>` element.
    pub fn new() -> (r: Self)
        ensures
            r.base.is_fresh("ruby"@),
    {
        ruby { base: DomElement::new("ruby") }
    }
}

/// The `<s>` element.
pub struct s {
    pub base: DomElement,
}

impl s {
    /// A new `<s>` element.
    pub fn new() -> (r: Self)
        ensures
            r.base.is_fresh("s"@),
    {
        s { base: DomElement::new("s") }
    }
}

/// The `<samp>` element.
pub struct samp {
    pub base: DomElement,
}

impl samp {
    /// A new `<samp>` element.
    pub fn new() -> (r: Self)
        ensures
            r.base.is_fresh("samp"@),
    {
        samp { base: DomElement::new("samp") }
    }
}

/// The `<small>` element.
pub struct small {
    pub base: DomElement,
}

impl small {
    /// A new `<small>` element.
    pub fn new() -> (r: Self)
        ensures
            r.base.is_fresh("small"@),
    {
        small { base: DomElement::new("small") }
    }
}

/// The `<span>` element.
pub struct span {
    pub base: DomElement,
}

impl span {
    /// A new `<span>` element.
    pub fn new() -> (r: Self)
        ensures
            r.base.is_fresh("span"@),
    {
        span { base: DomElement::new("span") }
    }
}

/// The `<strong>` element.
pub struct strong {
    pub base: DomElement,
}

impl strong {
    /// A new `<strong>` element.
    pub fn new() -> (r: Self)
        ensures
            r.base.is_fresh("strong"@),
    {
        strong { base: DomElement::new("strong") }
    }
}

/// The `<sub>` element.
pub struct sub {
    pub base: DomElement,
}

impl sub {
    /// A new `<sub>` element.
    pub fn new() -> (r: Self)
        ensures
            r.base.is_fresh("sub"@),
    {
        sub { base: DomElement::new("sub") }
    }
}

/// The `<sup>` element.
pub struct sup {
    pub base: DomElement,
}

impl sup {
    /// A new `<sup>` element.
    pub fn new() -> (r: Self)
        ensures
            r.base.is_fresh("sup"@),
    {
        sup { base: DomElement::new("sup") }
    }
}

/// The `<u>` element.
pub struct u {
    pub base: DomElement,
}

impl u {
    /// A new `<u>` element.
    pub fn new() -> (r: Self)
        ensures
            r.base.is_fresh("u"@),
    {
        u { base: DomElement::new("u") }
    }
}

/// The `<var>` element.
pub struct var {
    pub base: DomElement,
}

impl var {
    /// A new `<var>` element.
    pub fn new() -> (r: Self)
        ensures
            r.base.is_fresh("var"@),
    {
        var { base: DomElement::new("var") }
    }
}

/// The `<wbr>` element.
pub struct wbr {
    pub base: DomElement,
}

impl wbr {
    /// A new `<wbr>` element.
    pub fn new() -> (r: Self)
        ensures
            r.base.is_fresh("wbr"@),
    {
        wbr { base: DomElement::new("wbr") }
    }
}

// table content

/// The `<caption>` element.
pub struct caption {
    pub base: DomElement,
}

impl caption {
    /// A new `<caption>` element.
    pub fn new() -> (r: Self)
        ensures
            r.base.is_fresh("caption"@),
    {
        caption { base: DomElement::new("caption") }
    }
}

/// The `<table>` element.
pub struct table {
    pub base: DomElement,
}

impl table {
    /// A new `<table>` element.
    pub fn new() -> (r: Self)
        ensures
            r.base.is_fresh("table"@),
    {
        table { base: DomElement::new("table") }
    }
}

/// The `<tbody>` element.
pub struct tbody {
    pub base: DomElement,
}

impl tbody {
    /// A new `<tbody>` element.
    pub fn new() -> (r: Self)
        ensures
            r.base.is_fresh("tbody"@),
    {
        tbody { base: DomElement::new("tbody") }
    }
}

/// The `<tfoot>` element.
pub struct tfoot {
    pub base: DomElement,
}

impl tfoot {
    /// A new `<tfoot>` element.
    pub fn new() -> (r: Self)
        ensures
            r.base.is_fresh("tfoot"@),
    {
        tfoot { base: DomElement::new("tfoot") }
    }
}

/// The `<thead>` element.
pub struct thead {
    pub base: DomElement,
}

impl thead {
    /// A new `<thead>` element.
    pub fn new() -> (r: Self)
        ensures
            r.base.is_fresh("thead"@),
    {
        thead { base: DomElement::new("thead") }
    }
}

/// The `<tr>` element.
pub struct tr {
    pub base: DomElement,
}

impl tr {
    /// A new `<tr>` element.
    pub fn new() -> (r: Self)
        ensures
            r.base.is_fresh("tr"@),
    {
        tr { base: DomElement::new("tr") }
    }
}

// text content

/// The `<dd>` element.
pub struct dd {
    pub base: DomElement,
}

impl dd {
    /// A new `<dd>` element.
    pub fn new() -> (r: Self)
        ensures
            r.base.is_fresh("dd"@),
    {
        dd { base: DomElement::new("dd") }
    }
}

/// The `<div>` element.
pub struct div {
    pub base: DomElement,
}

impl div {
    /// A new `<div>` element.
    pub fn new() -> (r: Self)
        ensures
            r.base.is_fresh("div"@),
    {
        div { base: DomElement::new("div") }
    }
}

/// The `<dl>` element.
pub struct dl {
    pub base: DomElement,
}

impl dl {
    /// A new `<dl>` element.
    pub fn new() -> (r: Self)
        ensures
            r.base.is_fresh("dl"@),
    {
        dl { base: DomElement::new("dl") }
    }
}

/// The `<dt>` element.
pub struct dt {
    pub base: DomElement,
}

impl dt {
    /// A new `<dt>` element.
    pub fn new() -> (r: Self)
        ensures
            r.base.is_fresh("dt"@),
    {
        dt { base: DomElement::new("dt") }
    }
}

/// The `<figcaption>` element.
pub struct figcaption {
    pub base: DomElement,
}

impl figcaption {
    /// A new `<figcaption>` element.
    pub fn new() -> (r: Self)
        ensures
            r.base.is_fresh("figcaption"@),
    {
        figcaption { base: DomElement::new("figcaption") }
    }
}

/// The `<figure>` element.
pub struct figure {
    pub base: DomElement,
}

impl figure {
    /// A new `<figure>` element.
    pub fn new() -> (r: Self)
        ensures
            r.base.is_fresh("figure"@),
    {
        figure { base: DomElement::new("figure") }
    }
}

/// The `<hr>` element.
pub struct hr {
    pub base: DomElement,
}

impl hr {
    /// A new `<hr>` element.
    pub fn new() -> (r: Self)
        ensures
            r.base.is_fresh("hr"@),
    {
        hr { base: DomElement::new("hr") }
    }
}

/// The `<menu>` element.
pub struct menu {
    pub base: DomElement,
}

impl menu {
    /// A new `<menu>` element.
    pub fn new() -> (r: Self)
        ensures
            r.base.is_fresh("menu"@),
    {
        menu { base: DomElement::new("menu") }
    }
}

/// The `<ol>` element.
pub struct ol {
    pub base: DomElement,
}

impl ol {
    /// A new `<ol>` element.
    pub fn new() -> (r: Self)
        ensures
            r.base.is_fresh("ol"@),
    {
        ol { base: DomElement::new("ol") }
    }
}

/// The `<p>` element.
pub struct p {
    pub base: DomElement,
}

impl p {
    /// A new `<p>` element.
    pub fn new() -> (r: Self)
        ensures
            r.base.is_fresh("p"@),
    {
        p { base: DomElement::new("p") }
    }
}

/// The `<pre>` element.
pub struct pre {
    pub base: DomElement,
}

impl pre {
    /// A new `<pre>` element.
    pub fn new() -> (r: Self)
        ensures
            r.base.is_fresh("pre"@),
    {
        pre { base: DomElement::new("pre") }
    }
}

/// The `<ul>` element.
pub struct ul {
    pub base: DomElement,
}

impl ul {
    /// A new `<ul>` element.
    pub fn new() -> (r: Self)
        ensures
            r.base.is_fresh("ul"@),
    {
        ul { base: DomElement::new("ul") }
    }
}

} // verus!
