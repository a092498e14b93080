//! Some utilities to define custom DOM attributes.
//!
//! Sometimes it is needed to add some custom attribute to DOM elements;
//! they are used with the `attr:xxx` template syntax. The values last written
//! are kept, so that only changes reach the DOM.
use vstd::prelude::*;

use crate::prerender::{attrs_removed, attrs_set, PrerenderingElement};
use crate::text::{str_eq, to_owned_string};

verus! {

/// A change of one DOM attribute.
pub enum AttrChange {
    /// Set the attribute to the value.
    SetValue(&'static str, String),
    /// Remove the attribute.
    Remove(&'static str),
}

/// The abstract value of an attribute change.
pub enum AttrChangeView {
    SetValue(Seq<char>, Seq<char>),
    Remove(Seq<char>),
}

impl View for AttrChange {
    type V = AttrChangeView;

    open spec fn view(&self) -> AttrChangeView {
        match self {
            AttrChange::SetValue(name, value) => AttrChangeView::SetValue(name@, value@),
            AttrChange::Remove(name) => AttrChangeView::Remove(name@),
        }
    }
}

/// The attributes after a change.
pub open spec fn attrs_changed(
    attrs: Seq<(Seq<char>, Seq<char>)>,
    c: AttrChangeView,
) -> Seq<(Seq<char>, Seq<char>)> {
    match c {
        AttrChangeView::SetValue(name, value) => attrs_set(attrs, name, value),
        AttrChangeView::Remove(name) => attrs_removed(attrs, name),
    }
}

impl PrerenderingElement {
    /// Applies an attribute change to a prerendered element.
    pub fn apply_attr_change(&mut self, change: AttrChange)
        ensures
            final(self)@.tag_name == old(self)@.tag_name,
            final(self)@.classes == old(self)@.classes,
            final(self)@.attrs == attrs_changed(old(self)@.attrs, change@),
    {
        match change {
            AttrChange::SetValue(name, value) => self.set_attribute(name, value),
            AttrChange::Remove(name) => self.remove_attribute(name),
        }
    }
}

/// The custom DOM attributes.
///
/// Can be used in template with `attr:name="value"` syntax, e.g. `attr:aria-hidden="true"`.
/// Caution! This bypass type checks and directly write to DOM.
/// Do not use this if there are other proper attributes.
pub struct DomCustomAttrs {
    inner: Vec<Option<String>>,
}

/// The abstract value of one written attribute value.
pub open spec fn opt_view(o: Option<String>) -> Option<Seq<char>> {
    match o {
        Some(s) => Some(s@),
        None => None,
    }
}

impl View for DomCustomAttrs {
    type V = Seq<Option<Seq<char>>>;

    closed spec fn view(&self) -> Seq<Option<Seq<char>>> {
        self.inner@.map_values(|o: Option<String>| opt_view(o))
    }
}

impl DomCustomAttrs {
    /// No attribute slots.
    pub fn new() -> (r: Self)
        ensures
            r@ == Seq::<Option<Seq<char>>>::empty(),
    {
        let r = Self { inner: Vec::new() };
        assert(r@ =~= Seq::<Option<Seq<char>>>::empty());
        r
    }

    /// Makes `count` attribute slots, none written yet.
    pub fn init_list(&mut self, count: usize)
        ensures
            final(self)@.len() == count,
            forall|i: int| 0 <= i < count ==> #[trigger] final(self)@[i] == None::<Seq<char>>,
    {
        let mut v: Vec<Option<String>> = Vec::new();
        let mut i: usize = 0;
        while i < count
            invariant
                i <= count,
                v@.len() == i,
                forall|j: int| 0 <= j < i ==> #[trigger] v@[j] == None::<String>,
            decreases count - i,
        {
            v.push(None);
            i = i + 1;
        }
        self.inner = v;
    }

    /// Writes slot `index` with the value `src` where it differs from the
    /// value last written; returns the change of the DOM attribute `attr_name`.
    pub fn compare_and_set_str(&mut self, index: usize, attr_name: &'static str, src: &str) -> (r:
        Option<AttrChange>)
        requires
            index < old(self)@.len(),
        ensures
            old(self)@[index as int] == Some(src@) ==> {
                &&& r is None
                &&& final(self)@ == old(self)@
            },
            old(self)@[index as int] != Some(src@) ==> {
                &&& r matches Some(c) && c@ == AttrChangeView::SetValue(attr_name@, src@)
                &&& final(self)@ == old(self)@.update(index as int, Some(src@))
            },
    {
        let same = match &self.inner[index] {
            Some(x) => str_eq(x.as_str(), src),
            None => false,
        };
        if same {
            return None;
        }
        let ghost before = self.inner@;
        self.inner.set(index, Some(to_owned_string(src)));
        assert(self@ =~= old(self)@.update(index as int, Some(src@))) by {
            assert forall|j: int| 0 <= j < self@.len() implies #[trigger] self@[j] == old(self)@.update(
                index as int,
                Some(src@),
            )[j] by {
                if j != index {
                    assert(self.inner@[j] == before[j]);
                }
            }
        }
        Some(AttrChange::SetValue(attr_name, to_owned_string(src)))
    }

    /// Writes slot `index` with a boolean attribute: present with an empty
    /// value when `src` holds, absent otherwise; returns the change of the DOM
    /// attribute `attr_name` where it differs from what was last written.
    pub fn compare_and_set_bool(&mut self, index: usize, attr_name: &'static str, src: bool) -> (r:
        Option<AttrChange>)
        requires
            index < old(self)@.len(),
        ensures
            ({
                let v = if src {
                    Some(Seq::<char>::empty())
                } else {
                    None
                };
                &&& old(self)@[index as int] == v ==> r is None && final(self)@ == old(self)@
                &&& old(self)@[index as int] != v ==> {
                    &&& final(self)@ == old(self)@.update(index as int, v)
                    &&& r matches Some(c) && c@ == (if src {
                        AttrChangeView::SetValue(attr_name@, Seq::empty())
                    } else {
                        AttrChangeView::Remove(attr_name@)
                    })
                }
            }),
    {
        let same = match &self.inner[index] {
            Some(x) => src && x.as_str().unicode_len() == 0,
            None => !src,
        };
        if same {
            proof {
                if src {
                    assert(self.inner@[index as int] matches Some(x) && x@ =~= Seq::<char>::empty());
                }
            }
            return None;
        }
        let ghost before = self.inner@;
        let ghost v = if src {
            Some(Seq::<char>::empty())
        } else {
            None
        };
        if src {
            self.inner.set(index, Some(String::new()));
        } else {
            self.inner.set(index, None);
        }
        assert(self@ =~= old(self)@.update(index as int, v)) by {
            assert forall|j: int| 0 <= j < self@.len() implies #[trigger] self@[j] == old(self)@.update(
                index as int,
                v,
            )[j] by {
                if j != index {
                    assert(self.inner@[j] == before[j]);
                } else if src {
                    assert(self@[j] matches Some(x) && x =~= Seq::<char>::empty());
                }
            }
        }
        if src {
            Some(AttrChange::SetValue(attr_name, String::new()))
        } else {
            Some(AttrChange::Remove(attr_name))
        }
    }
}

/// A string attribute of an element: the value last written.
pub struct DomStrAttr {
    inner: String,
    attr_name: &'static str,
}

impl DomStrAttr {
    /// An attribute named `attr_name`, with `inner` as the value already written.
    pub fn new(attr_name: &'static str, inner: String) -> (r: Self)
        ensures
            r.value_spec() == inner@,
            r.name_spec() == attr_name@,
    {
        Self { inner, attr_name }
    }

    pub closed spec fn value_spec(&self) -> Seq<char> {
        self.inner@
    }

    pub closed spec fn name_spec(&self) -> Seq<char> {
        self.attr_name@
    }

    /// The value last written.
    pub fn value(&self) -> (r: &str)
        ensures
            r@ == self.value_spec(),
    {
        self.inner.as_str()
    }

    /// Writes `src` where it differs from the value last written; returns the
    /// change of the DOM attribute.
    pub fn compare_and_set_ref(&mut self, src: &str) -> (r: Option<AttrChange>)
        ensures
            final(self).name_spec() == old(self).name_spec(),
            final(self).value_spec() == src@,
            old(self).value_spec() == src@ ==> r is None,
            old(self).value_spec() != src@ ==> (r matches Some(c) && c@ == AttrChangeView::SetValue(
                old(self).name_spec(),
                src@,
            )),
    {
        if str_eq(self.inner.as_str(), src) {
            return None;
        }
        self.inner = to_owned_string(src);
        Some(AttrChange::SetValue(self.attr_name, to_owned_string(src)))
    }
}

/// A boolean attribute of an element: the value last written.
pub struct DomBoolAttr {
    inner: bool,
    attr_name: &'static str,
}

impl DomBoolAttr {
    /// An attribute named `attr_name`, with `inner` as the value already written.
    pub fn new(attr_name: &'static str, inner: bool) -> (r: Self)
        ensures
            r.value_spec() == inner,
            r.name_spec() == attr_name@,
    {
        Self { inner, attr_name }
    }

    pub closed spec fn value_spec(&self) -> bool {
        self.inner
    }

    pub closed spec fn name_spec(&self) -> Seq<char> {
        self.attr_name@
    }

    /// The value last written.
    pub fn value(&self) -> (r: bool)
        ensures
            r == self.value_spec(),
    {
        self.inner
    }

    /// Writes `src` where it differs from the value last written; a true
    /// attribute is set with an empty value, a false one removed.
    pub fn compare_and_set_ref(&mut self, src: bool) -> (r: Option<AttrChange>)
        ensures
            final(self).name_spec() == old(self).name_spec(),
            final(self).value_spec() == src,
            old(self).value_spec() == src ==> r is None,
            old(self).value_spec() != src ==> (r matches Some(c) && c@ == (if src {
                AttrChangeView::SetValue(old(self).name_spec(), Seq::empty())
            } else {
                AttrChangeView::Remove(old(self).name_spec())
            })),
    {
        if self.inner == src {
            return None;
        }
        self.inner = src;
        if src {
            Some(AttrChange::SetValue(self.attr_name, String::new()))
        } else {
            Some(AttrChange::Remove(self.attr_name))
        }
    }
}

} // verus!
