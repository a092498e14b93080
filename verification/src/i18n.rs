//! Translation lookup at build time: a translation group of the current
//! locale, the result of looking a source text up in it, and the record of
//! the lookup kept for later formatting of the translation file.
use vstd::prelude::*;

use crate::css_token::{debug_str, debug_str_text};
use crate::i18n_format::{FormatMetadataItem, Locale, LocaleNamespace};
use crate::text::{str_eq, to_owned_string};

verus! {

/// The group that translations go to when no group is named.
pub const DEFAULT_GROUP_NAME: &'static str = "translation";

/// The abstract value of translation entries: source text and translation.
pub open spec fn entries_view(v: Seq<(String, String)>) -> Seq<(Seq<char>, Seq<char>)> {
    v.map_values(|e: (String, String)| (e.0@, e.1@))
}

/// The first entry for `key`, if any.
pub open spec fn lookup(entries: Seq<(Seq<char>, Seq<char>)>, key: Seq<char>) -> Option<Seq<char>>
    decreases entries.len(),
{
    if entries.len() == 0 {
        None
    } else {
        match lookup(entries.drop_last(), key) {
            Some(v) => Some(v),
            None => if entries.last().0 == key {
                Some(entries.last().1)
            } else {
                None
            },
        }
    }
}

/// The position of the first namespace named `group`, if any.
pub open spec fn namespace_pos(locale: Seq<LocaleNamespace>, group: Seq<char>) -> Option<int>
    decreases locale.len(),
{
    if locale.len() == 0 {
        None
    } else {
        match namespace_pos(locale.drop_last(), group) {
            Some(i) => Some(i),
            None => if locale.last().name@ == group {
                Some(locale.len() - 1)
            } else {
                None
            },
        }
    }
}

proof fn lemma_namespace_pos(locale: Seq<LocaleNamespace>, group: Seq<char>)
    ensures
        namespace_pos(locale, group) matches Some(i) ==> 0 <= i < locale.len() && locale[i].name@
            == group,
    decreases locale.len(),
{
    if locale.len() > 0 {
        lemma_namespace_pos(locale.drop_last(), group);
    }
}

/// Whether a group's translations are needed, and where they are.
pub enum LocaleGroupStatus<'a> {
    /// No locale is in use: texts stay as written.
    NotNeeded,
    /// The translations of the group.
    Normal(&'a LocaleNamespace),
    /// The locale has no such group.
    Missing(String),
}

/// A translation group of the current locale.
pub struct LocaleGroup<'a> {
    namespace: Option<String>,
    inner: LocaleGroupStatus<'a>,
}

/// The abstract status of a translation group.
pub enum GroupStatusView {
    NotNeeded,
    Normal(Seq<(Seq<char>, Seq<char>)>),
    Missing(Seq<char>),
}

/// The abstract value of a translation group: the namespace its lookups are
/// recorded under (where lookups are recorded at all), and its status.
pub struct LocaleGroupView {
    pub namespace: Option<Seq<char>>,
    pub status: GroupStatusView,
}

impl<'a> View for LocaleGroup<'a> {
    type V = LocaleGroupView;

    closed spec fn view(&self) -> LocaleGroupView {
        LocaleGroupView {
            namespace: match &self.namespace {
                Some(n) => Some(n@),
                None => None,
            },
            status: match self.inner {
                LocaleGroupStatus::NotNeeded => GroupStatusView::NotNeeded,
                LocaleGroupStatus::Normal(ns) => GroupStatusView::Normal(entries_view(ns.entries@)),
                LocaleGroupStatus::Missing(g) => GroupStatusView::Missing(g@),
            },
        }
    }
}

/// The group `group` of the locale in use (`None` where no locale is in use);
/// `record` tells whether lookups are recorded as format metadata.
pub open spec fn group_of(locale: Option<Seq<LocaleNamespace>>, record: bool, group: Seq<char>) -> LocaleGroupView {
    LocaleGroupView {
        namespace: if record {
            Some(group)
        } else {
            None
        },
        status: match locale {
            None => GroupStatusView::NotNeeded,
            Some(l) => match namespace_pos(l, group) {
                Some(i) => GroupStatusView::Normal(entries_view(l[i].entries@)),
                None => GroupStatusView::Missing(group),
            },
        },
    }
}

/// The result of a translation lookup.
pub enum TransRes<'a> {
    /// No locale is in use.
    NotNeeded,
    /// The translation.
    Done(&'a str),
    /// The group has no translation of the text.
    LackTrans,
    /// The locale has no such group.
    LackTransGroup(&'a str),
}

/// The abstract value of a translation lookup result.
pub enum TransResView {
    NotNeeded,
    Done(Seq<char>),
    LackTrans,
    LackTransGroup(Seq<char>),
}

impl<'a> View for TransRes<'a> {
    type V = TransResView;

    open spec fn view(&self) -> TransResView {
        match self {
            TransRes::NotNeeded => TransResView::NotNeeded,
            TransRes::Done(s) => TransResView::Done(s@),
            TransRes::LackTrans => TransResView::LackTrans,
            TransRes::LackTransGroup(g) => TransResView::LackTransGroup(g@),
        }
    }
}

/// The result of looking `s` up in a group.
pub open spec fn trans_of(g: LocaleGroupView, s: Seq<char>) -> TransResView {
    match g.status {
        GroupStatusView::NotNeeded => TransResView::NotNeeded,
        GroupStatusView::Normal(entries) => match lookup(entries, s) {
            Some(t) => TransResView::Done(t),
            None => TransResView::LackTrans,
        },
        GroupStatusView::Missing(group) => TransResView::LackTransGroup(group),
    }
}

/// The abstract value of a recorded lookup: namespace, source text, translation.
pub open spec fn record_view(r: FormatMetadataItem) -> (Seq<char>, Seq<char>, Option<Seq<char>>) {
    (
        r.namespace@,
        r.src@,
        match r.translated {
            Some(t) => Some(t@),
            None => None,
        },
    )
}

/// The record of looking `s` up in a group: only where lookups are recorded
/// and a locale is in use.
pub open spec fn record_of(g: LocaleGroupView, s: Seq<char>) -> Option<(Seq<char>, Seq<char>, Option<Seq<char>>)> {
    match g.namespace {
        None => None,
        Some(ns) => match trans_of(g, s) {
            TransResView::NotNeeded => None,
            TransResView::Done(t) => Some((ns, s, Some(t))),
            _ => Some((ns, s, None)),
        },
    }
}

/// The text that a translation lookup gives (`Ok`), or the compile error it
/// raises (`Err`).
pub open spec fn trans_text(res: TransResView, src: Seq<char>) -> Result<Seq<char>, Seq<char>> {
    match res {
        TransResView::NotNeeded => Ok(src),
        TransResView::Done(t) => Ok(t),
        TransResView::LackTrans => Err("lacks translation"@),
        TransResView::LackTransGroup(g) => Err(
            "translation group "@ + debug_str_text(g) + " not found"@,
        ),
    }
}

impl<'a> LocaleGroup<'a> {
    /// The group `group` of the locale in use (`None` where no locale is in
    /// use); `record` tells whether lookups are recorded as format metadata.
    pub fn get(locale: Option<&'a Locale>, record: bool, group: &str) -> (r: LocaleGroup<'a>)
        ensures
            r@ == group_of(
                match locale {
                    Some(l) => Some(l@),
                    None => None,
                },
                record,
                group@,
            ),
    {
        let namespace = if record {
            Some(to_owned_string(group))
        } else {
            None
        };
        let inner = match locale {
            None => LocaleGroupStatus::NotNeeded,
            Some(l) => {
                let mut found: Option<&'a LocaleNamespace> = None;
                let mut i: usize = 0;
                while i < l.len()
                    invariant
                        i <= l@.len(),
                        match namespace_pos(l@.take(i as int), group@) {
                            Some(k) => found matches Some(ns) && 0 <= k < i && *ns == l@[k],
                            None => found is None,
                        },
                    decreases l@.len() - i,
                {
                    proof {
                        assert(l@.take(i + 1).drop_last() =~= l@.take(i as int));
                        lemma_namespace_pos(l@.take(i as int), group@);
                    }
                    if found.is_none() && str_eq(l[i].name.as_str(), group) {
                        found = Some(&l[i]);
                    }
                    i = i + 1;
                }
                assert(l@.take(i as int) =~= l@);
                match found {
                    Some(ns) => LocaleGroupStatus::Normal(ns),
                    None => LocaleGroupStatus::Missing(to_owned_string(group)),
                }
            },
        };
        LocaleGroup { namespace, inner }
    }

    /// The default group, `translation`.
    pub fn get_default(locale: Option<&'a Locale>, record: bool) -> (r: LocaleGroup<'a>)
        ensures
            r@ == group_of(
                match locale {
                    Some(l) => Some(l@),
                    None => None,
                },
                record,
                DEFAULT_GROUP_NAME@,
            ),
    {
        Self::get(locale, record, DEFAULT_GROUP_NAME)
    }

    /// Whether texts are translated at all (a locale is in use).
    pub fn need_trans(&self) -> (r: bool)
        ensures
            r == !(self@.status is NotNeeded),
    {
        if let LocaleGroupStatus::NotNeeded = self.inner {
            false
        } else {
            true
        }
    }

    /// Looks `s` up; also gives the record of the lookup to keep as format
    /// metadata, where lookups are recorded.
    pub fn trans(&'a self, s: &'a str) -> (r: (TransRes<'a>, Option<FormatMetadataItem<'a>>))
        ensures
            r.0@ == trans_of(self@, s@),
            match r.1 {
                Some(item) => record_of(self@, s@) == Some(record_view(item)),
                None => record_of(self@, s@) is None,
            },
    {
        match &self.inner {
            LocaleGroupStatus::Normal(x) => {
                let entries = &x.entries;
                let mut found: Option<&'a str> = None;
                let mut i: usize = 0;
                while i < entries.len()
                    invariant
                        i <= entries@.len(),
                        match lookup(entries_view(entries@).take(i as int), s@) {
                            Some(t) => found matches Some(f) && f@ == t,
                            None => found is None,
                        },
                    decreases entries@.len() - i,
                {
                    proof {
                        assert(entries_view(entries@).take(i + 1).drop_last() =~= entries_view(
                            entries@,
                        ).take(i as int));
                        assert(entries_view(entries@).take(i + 1).last() == (
                            entries@[i as int].0@,
                            entries@[i as int].1@,
                        ));
                    }
                    if found.is_none() && str_eq(entries[i].0.as_str(), s) {
                        found = Some(entries[i].1.as_str());
                    }
                    i = i + 1;
                }
                assert(entries_view(entries@).take(i as int) =~= entries_view(entries@));
                let ret = match found {
                    None => TransRes::LackTrans,
                    Some(t) => TransRes::Done(t),
                };
                let record = match &self.namespace {
                    Some(ns) => Some(
                        FormatMetadataItem { namespace: ns.as_str(), src: s, translated: found },
                    ),
                    None => None,
                };
                (ret, record)
            },
            LocaleGroupStatus::Missing(x) => {
                let record = match &self.namespace {
                    Some(ns) => Some(
                        FormatMetadataItem { namespace: ns.as_str(), src: s, translated: None },
                    ),
                    None => None,
                };
                (TransRes::LackTransGroup(x.as_str()), record)
            },
            LocaleGroupStatus::NotNeeded => (TransRes::NotNeeded, None),
        }
    }
}

/// The text that a translation lookup of `src` gives, or the message of the
/// compile error that it raises.
pub fn trans_text_of(res: &TransRes, src: &str) -> (r: Result<String, String>)
    ensures
        match r {
            Ok(t) => trans_text(res@, src@) == Ok::<Seq<char>, Seq<char>>(t@),
            Err(m) => trans_text(res@, src@) == Err::<Seq<char>, Seq<char>>(m@),
        },
{
    match res {
        TransRes::NotNeeded => Ok(to_owned_string(src)),
        TransRes::Done(t) => Ok(to_owned_string(*t)),
        TransRes::LackTrans => {
            let m = to_owned_string("lacks translation");
            Err(m)
        },
        TransRes::LackTransGroup(g) => {
            let mut m = to_owned_string("translation group ");
            let d = debug_str(*g);
            m.append(d.as_str());
            m.append(" not found");
            proof {
                assert(m@ =~= "translation group "@ + debug_str_text(g@) + " not found"@);
            }
            Err(m)
        },
    }
}

/// The code that a translation macro expands to.
pub enum TransCode {
    /// A compile error with this message, at the source text.
    CompileError(String),
    /// The text as a locale string: static where the macro has no variables,
    /// else formatted with them; `at_source` tells that the text is the
    /// source literal itself (no locale is in use), kept at its place.
    Translated { text: String, formatted: bool, at_source: bool },
}

/// The abstract value of the code that a translation macro expands to.
pub enum TransCodeView {
    CompileError(Seq<char>),
    Translated { text: Seq<char>, formatted: bool, at_source: bool },
}

impl View for TransCode {
    type V = TransCodeView;

    open spec fn view(&self) -> TransCodeView {
        match self {
            TransCode::CompileError(m) => TransCodeView::CompileError(m@),
            TransCode::Translated { text, formatted, at_source } => TransCodeView::Translated {
                text: text@,
                formatted: *formatted,
                at_source: *at_source,
            },
        }
    }
}

/// The code for a lookup result `res` of the source text `src`, with
/// `var_count` variables given to the macro.
pub open spec fn trans_code_of(res: TransResView, src: Seq<char>, var_count: nat) -> TransCodeView {
    match trans_text(res, src) {
        Err(m) => TransCodeView::CompileError(m),
        Ok(t) => TransCodeView::Translated {
            text: t,
            formatted: var_count > 0,
            at_source: res is NotNeeded,
        },
    }
}

/// The code that a translation macro expands to, for the lookup result
/// `res` of the source text `src` and `var_count` variables.
pub fn trans_code(res: &TransRes, src: &str, var_count: usize) -> (r: TransCode)
    ensures
        r@ == trans_code_of(res@, src@, var_count as nat),
{
    let at_source = match res {
        TransRes::NotNeeded => true,
        _ => false,
    };
    match trans_text_of(res, src) {
        Err(m) => TransCode::CompileError(m),
        Ok(t) => TransCode::Translated { text: t, formatted: var_count > 0, at_source },
    }
}

} // verus!
