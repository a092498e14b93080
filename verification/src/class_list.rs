//! Class list handling: which classes an element (or a component passing
//! classes on) has enabled, and the class toggles that bring the DOM class
//! list up to date when they change.
use vstd::prelude::*;

use std::rc::Rc;

use crate::text::str_eq;

verus! {

/// One class toggle for the DOM class list: the class name, and whether it is
/// switched on (`true`) or off.
pub type ClassToggle = (&'static str, bool);

/// The abstract value of a class toggle.
pub open spec fn toggle_view(t: ClassToggle) -> (Seq<char>, bool) {
    (t.0@, t.1)
}

/// The abstract value of a list of class toggles.
pub open spec fn toggles_view(v: Seq<ClassToggle>) -> Seq<(Seq<char>, bool)> {
    v.map_values(|t: ClassToggle| toggle_view(t))
}

/// The abstract value of one item of external classes.
pub enum ClassEntry {
    /// A class name, and whether it is enabled.
    Enabled(bool, Seq<char>),
    /// Classes passed on from another component.
    External(Seq<ClassEntry>),
}

/// The toggles that switch the enabled classes of an entry on (`on`) or off.
pub open spec fn entry_toggles(e: ClassEntry, on: bool) -> Seq<(Seq<char>, bool)>
    decreases e,
{
    match e {
        ClassEntry::Enabled(enabled, c) => if enabled {
            seq![(c, on)]
        } else {
            Seq::empty()
        },
        ClassEntry::External(es) => entries_toggles(es, on),
    }
}

/// The toggles that switch the enabled classes of entries on or off, in order.
pub open spec fn entries_toggles(es: Seq<ClassEntry>, on: bool) -> Seq<(Seq<char>, bool)>
    decreases es,
{
    if es.len() == 0 {
        Seq::empty()
    } else {
        entries_toggles(es.subrange(0, es.len() - 1), on) + entry_toggles(es[es.len() - 1], on)
    }
}

/// The pieces of a toggle list, joined in order.
pub open spec fn joined(parts: Seq<Seq<(Seq<char>, bool)>>) -> Seq<(Seq<char>, bool)>
    decreases parts.len(),
{
    if parts.len() == 0 {
        Seq::empty()
    } else {
        joined(parts.drop_last()) + parts.last()
    }
}

/// A possible outcome of updating the old entries `old` to the new entries
/// `new`: the old value afterwards, `after`, and the toggles `t`.
///
/// Where the two are not the same instance, all old classes are switched off
/// and all new classes on, and the old value stays as it was. Where they are,
/// the items are compared pairwise (see `same_instance_outcome`). Whether two
/// values are the same instance is decided by their allocation, at every level.
pub open spec fn diff_outcome(
    new: Seq<ClassEntry>,
    old: Seq<ClassEntry>,
    after: Seq<ClassEntry>,
    t: Seq<(Seq<char>, bool)>,
) -> bool
    decreases new, 2int,
{
    ||| (after == old && t == entries_toggles(old, false) + entries_toggles(new, true))
    ||| same_instance_outcome(new, old, after, t)
}

/// The outcome of the update of a value by the same instance: the first
/// `min(new.len(), old.len())` items are updated pairwise, each giving its
/// toggles in turn; the remaining old items stay.
pub open spec fn same_instance_outcome(
    new: Seq<ClassEntry>,
    old: Seq<ClassEntry>,
    after: Seq<ClassEntry>,
    t: Seq<(Seq<char>, bool)>,
) -> bool
    decreases new, 1int,
{
    let m = if new.len() < old.len() {
        new.len()
    } else {
        old.len()
    };
    &&& after.len() == old.len()
    &&& forall|i: int| m <= i < old.len() ==> after[i] == old[i]
    &&& exists|parts: Seq<Seq<(Seq<char>, bool)>>|
        {
            &&& parts.len() == m
            &&& t == joined(parts)
            &&& forall|i: int|
                0 <= i < m ==> item_outcome(#[trigger] new[i], old[i], after[i], parts[i])
        }
}

/// The outcome of updating one old item `o` to the new item `n`.
///
/// A new class item replaces the old item, toggled (to its new state) where
/// the two differ. New external classes over old external classes update
/// them recursively; over an old class item they replace it, their enabled
/// classes switched on.
pub open spec fn item_outcome(
    n: ClassEntry,
    o: ClassEntry,
    a: ClassEntry,
    p: Seq<(Seq<char>, bool)>,
) -> bool
    decreases n, 0int,
{
    match n {
        ClassEntry::Enabled(enabled, c) => a == n && p == (if o != n {
            seq![(c, enabled)]
        } else {
            Seq::empty()
        }),
        ClassEntry::External(ns) => match o {
            ClassEntry::External(os) => match a {
                ClassEntry::External(as_) => diff_outcome(ns, os, as_, p),
                _ => false,
            },
            _ => a == n && p == entries_toggles(ns, true),
        },
    }
}

/// The toggles that switch classes off.
pub open spec fn switched_off(t: Seq<(Seq<char>, bool)>) -> Seq<(Seq<char>, bool)> {
    t.map_values(|x: (Seq<char>, bool)| (x.0, false))
}

/// Switching the classes of an entry off touches exactly the classes that
/// switching it on touches, in the same order.
pub proof fn lemma_deinit_mirrors_init(e: ClassEntry)
    ensures
        entry_toggles(e, false) == switched_off(entry_toggles(e, true)),
    decreases e, 1nat,
{
    match e {
        ClassEntry::Enabled(enabled, c) => {
            assert(entry_toggles(e, false) =~= switched_off(entry_toggles(e, true)));
        },
        ClassEntry::External(es) => {
            lemma_entries_deinit_mirrors_init(es);
        },
    }
}

/// Switching classes off touches exactly the classes that switching them
/// on touches, in the same order.
pub proof fn lemma_entries_deinit_mirrors_init(es: Seq<ClassEntry>)
    ensures
        entries_toggles(es, false) == switched_off(entries_toggles(es, true)),
    decreases es, 0nat,
{
    if es.len() > 0 {
        let init = es.subrange(0, es.len() - 1);
        lemma_entries_deinit_mirrors_init(init);
        lemma_deinit_mirrors_init(es[es.len() - 1]);
        assert(entries_toggles(es, false) =~= switched_off(entries_toggles(es, true)));
    } else {
        assert(entries_toggles(es, false) =~= switched_off(entries_toggles(es, true)));
    }
}

/// Updating a value from classes of identical content, whatever the
/// instances, leaves the value as it was.
pub proof fn lemma_identical_update_keeps(x: Seq<ClassEntry>, a: Seq<ClassEntry>, t: Seq<(Seq<char>, bool)>)
    requires
        diff_outcome(x, x, a, t),
    ensures
        a == x,
    decreases x, 1nat,
{
    if !(a == x && t == entries_toggles(x, false) + entries_toggles(x, true)) {
        assert(same_instance_outcome(x, x, a, t));
        let parts = choose|parts: Seq<Seq<(Seq<char>, bool)>>|
            {
                &&& parts.len() == x.len()
                &&& t == joined(parts)
                &&& forall|i: int| 0 <= i < x.len() ==> item_outcome(#[trigger] x[i], x[i], a[i], parts[i])
            };
        assert forall|i: int| 0 <= i < x.len() implies a[i] == x[i] by {
            assert(item_outcome(x[i], x[i], a[i], parts[i]));
            lemma_identical_item_keeps(x[i], a[i], parts[i]);
        }
        assert(a =~= x);
    }
}

proof fn lemma_identical_item_keeps(n: ClassEntry, a: ClassEntry, p: Seq<(Seq<char>, bool)>)
    requires
        item_outcome(n, n, a, p),
    ensures
        a == n,
    decreases n, 0nat,
{
    if let ClassEntry::External(ns) = n {
        if let ClassEntry::External(as_) = a {
            lemma_identical_update_keeps(ns, as_, p);
        }
    }
}

/// Whether two `Rc` handles point to the same allocation.
///
/// Calls `std::rc::Rc::ptr_eq`. The allocation behind a handle is not part of
/// the value that Verus sees, so nothing is stated of the result.
#[verifier::external_body]
fn same_allocation(a: &Rc<()>, b: &Rc<()>) -> bool {
    Rc::ptr_eq(a, b)
}

/// Another handle to the allocation of `a`.
///
/// Calls `Rc::clone`, which returns a new pointer to the same allocation, so
/// the value behind it is the same.
#[verifier::external_body]
fn share(a: &Rc<()>) -> (r: Rc<()>)
    ensures
        r == *a,
{
    Rc::clone(a)
}

/// One item of external classes.
pub enum DomExternalClassItem {
    Enabled(bool, &'static str),
    External(DomExternalClasses),
}

/// The external classes type used to pass class list between components.
///
/// This type has similar iterface to the `DomClassList` .
/// It can be used as a property that accepts classes,
/// and then pass the classes to other components and elements.
pub struct DomExternalClasses {
    id: Rc<()>,
    items: Vec<DomExternalClassItem>,
}

spec fn item_entry(it: DomExternalClassItem) -> ClassEntry
    decreases it,
{
    match it {
        DomExternalClassItem::Enabled(enabled, c) => ClassEntry::Enabled(enabled, c@),
        DomExternalClassItem::External(x) => ClassEntry::External(items_entries(x.items@)),
    }
}

spec fn items_entries(s: Seq<DomExternalClassItem>) -> Seq<ClassEntry>
    decreases s,
{
    if s.len() == 0 {
        Seq::empty()
    } else {
        items_entries(s.subrange(0, s.len() - 1)).push(item_entry(s[s.len() - 1]))
    }
}

proof fn lemma_items_entries(s: Seq<DomExternalClassItem>)
    ensures
        items_entries(s).len() == s.len(),
        forall|i: int| 0 <= i < s.len() ==> #[trigger] items_entries(s)[i] == item_entry(s[i]),
    decreases s.len(),
{
    if s.len() > 0 {
        lemma_items_entries(s.subrange(0, s.len() - 1));
    }
}

impl View for DomExternalClasses {
    type V = Seq<ClassEntry>;

    closed spec fn view(&self) -> Seq<ClassEntry> {
        items_entries(self.items@)
    }
}

/// Pushing toggles one by one extends the abstract toggle list.
proof fn lemma_toggles_push(v: Seq<ClassToggle>, t: ClassToggle)
    ensures
        toggles_view(v.push(t)) == toggles_view(v).push(toggle_view(t)),
{
    assert(toggles_view(v.push(t)) =~= toggles_view(v).push(toggle_view(t)));
}

impl DomExternalClasses {
    /// Initialize an external class.
    pub fn new() -> (r: Self)
        ensures
            r@ == Seq::<ClassEntry>::empty(),
    {
        let r = Self { id: Rc::new(()), items: Vec::new() };
        assert(r@ =~= Seq::<ClassEntry>::empty());
        r
    }

    /// A copy of these classes (the same instance), with the toggles that
    /// switch their enabled classes on appended to `toggles`.
    pub fn init_list(&self, toggles: &mut Vec<ClassToggle>) -> (r: Self)
        ensures
            r@ == self@,
            toggles_view(final(toggles)@) == toggles_view(old(toggles)@) + entries_toggles(
                self@,
                true,
            ),
        decreases self,
    {
        let ghost t0 = toggles_view(toggles@);
        let mut items: Vec<DomExternalClassItem> = Vec::new();
        let n = self.items.len();
        let mut i: usize = 0;
        proof {
            lemma_items_entries(self.items@);
        }
        while i < n
            invariant
                n == self.items@.len(),
                i <= n,
                items_entries(self.items@).len() == n,
                forall|j: int| 0 <= j < n ==> #[trigger] items_entries(self.items@)[j] == item_entry(self.items@[j]),
                items_entries(items@) == items_entries(self.items@).take(i as int),
                toggles_view(toggles@) == t0 + entries_toggles(items_entries(self.items@).take(i as int), true),
            decreases n - i,
        {
            let ghost es = items_entries(self.items@);
            let item = match &self.items[i] {
                DomExternalClassItem::Enabled(enabled, class_name) => {
                    if *enabled {
                        proof {
                            lemma_toggles_push(toggles@, (*class_name, true));
                        }
                        toggles.push((*class_name, true));
                    }
                    DomExternalClassItem::Enabled(*enabled, *class_name)
                },
                DomExternalClassItem::External(x) => {
                    proof {
                        assert(decreases_to!(self => self.items));
                    }
                    let ghost tb = toggles_view(toggles@);
                    let c = x.init_list(toggles);
                    assert(entry_toggles(es[i as int], true) == entries_toggles(x@, true));
                    DomExternalClassItem::External(c)
                },
            };
            let ghost before = items@;
            items.push(item);
            proof {
                assert(items@.subrange(0, items@.len() - 1) =~= before);
                assert(es.take(i + 1).subrange(0, i as int) =~= es.take(i as int));
                assert(item_entry(item) == es[i as int]);
                assert(items_entries(items@) =~= es.take(i + 1));
                assert(es.take(i + 1)[i as int] == es[i as int]);
                assert(entries_toggles(es.take(i + 1), true) == entries_toggles(es.take(i as int), true)
                    + entry_toggles(es[i as int], true));
                assert(toggles_view(toggles@) =~= t0 + entries_toggles(es.take(i + 1), true));
            }
            i = i + 1;
        }
        let r = Self { id: share(&self.id), items };
        assert(items_entries(self.items@).take(n as int) =~= items_entries(self.items@));
        r
    }

    /// Appends the toggles that switch the enabled classes off.
    pub fn deinit_list(&self, toggles: &mut Vec<ClassToggle>)
        ensures
            toggles_view(final(toggles)@) == toggles_view(old(toggles)@) + entries_toggles(
                self@,
                false,
            ),
        decreases self,
    {
        let ghost t0 = toggles_view(toggles@);
        let n = self.items.len();
        let mut i: usize = 0;
        proof {
            lemma_items_entries(self.items@);
        }
        while i < n
            invariant
                n == self.items@.len(),
                i <= n,
                items_entries(self.items@).len() == n,
                forall|j: int| 0 <= j < n ==> #[trigger] items_entries(self.items@)[j] == item_entry(self.items@[j]),
                toggles_view(toggles@) == t0 + entries_toggles(items_entries(self.items@).take(i as int), false),
            decreases n - i,
        {
            let ghost es = items_entries(self.items@);
            match &self.items[i] {
                DomExternalClassItem::Enabled(enabled, class_name) => {
                    if *enabled {
                        proof {
                            lemma_toggles_push(toggles@, (*class_name, false));
                        }
                        toggles.push((*class_name, false));
                    }
                },
                DomExternalClassItem::External(x) => {
                    proof {
                        assert(decreases_to!(self => self.items));
                    }
                    x.deinit_list(toggles);
                },
            }
            proof {
                assert(es.take(i + 1).subrange(0, i as int) =~= es.take(i as int));
                assert(es.take(i + 1)[i as int] == es[i as int]);
                assert(entries_toggles(es.take(i + 1), false) == entries_toggles(es.take(i as int), false)
                    + entry_toggles(es[i as int], false));
                assert(toggles_view(toggles@) =~= t0 + entries_toggles(es.take(i + 1), false));
            }
            i = i + 1;
        }
        assert(items_entries(self.items@).take(n as int) =~= items_entries(self.items@));
    }

    /// Brings `prev` (a value made from an earlier version of these classes)
    /// up to date, appending the toggles that bring the DOM class list along.
    ///
    /// Where `prev` is not the same instance, its classes are switched off and
    /// these switched on, and `prev` itself is left as it was.
    pub fn diff_list(&self, prev: &mut Self, toggles: &mut Vec<ClassToggle>)
        ensures
            exists|t: Seq<(Seq<char>, bool)>|
                {
                    &&& toggles_view(final(toggles)@) == toggles_view(old(toggles)@) + t
                    &&& diff_outcome(self@, old(prev)@, final(prev)@, t)
                },
        decreases self, 1nat,
    {
        let ghost t0 = toggles_view(toggles@);
        if same_allocation(&self.id, &prev.id) {
            self.diff_items(prev, toggles);
        } else {
            prev.deinit_list(toggles);
            let _ = self.init_list(toggles);
            let ghost t = entries_toggles(prev@, false) + entries_toggles(self@, true);
            assert(toggles_view(toggles@) =~= t0 + t);
            assert(diff_outcome(self@, old(prev)@, prev@, t));
        }
    }

    /// Updates `prev` item by item: what `diff_list` does where `prev` is the
    /// same instance as these classes. (Where it is not, `diff_list` calls
    /// `deinit_list` on `prev` and then `init_list` on these classes.)
    pub fn diff_items(&self, prev: &mut Self, toggles: &mut Vec<ClassToggle>)
        ensures
            exists|t: Seq<(Seq<char>, bool)>|
                {
                    &&& toggles_view(final(toggles)@) == toggles_view(old(toggles)@) + t
                    &&& same_instance_outcome(self@, old(prev)@, final(prev)@, t)
                },
        decreases self, 0nat,
    {
        let ghost t0 = toggles_view(toggles@);
        let ghost nn = self@;
        let ghost oo = prev@;
        let len_new = self.items.len();
        let len_old = prev.items.len();
        let m = if len_new < len_old { len_new } else { len_old };
        let ghost mut parts: Seq<Seq<(Seq<char>, bool)>> = Seq::empty();
        proof {
            lemma_items_entries(self.items@);
            lemma_items_entries(prev.items@);
        }
        let mut i: usize = 0;
        while i < m
            invariant
                len_new == self.items@.len(),
                len_old == prev.items@.len(),
                m <= len_new,
                m <= len_old,
                m == (if nn.len() < oo.len() { nn.len() } else { oo.len() }),
                i <= m,
                nn == self@,
                nn.len() == len_new,
                oo.len() == len_old,
                forall|j: int| 0 <= j < len_new ==> #[trigger] nn[j] == item_entry(self.items@[j]),
                items_entries(prev.items@).len() == len_old,
                forall|j: int|
                    0 <= j < len_old ==> #[trigger] items_entries(prev.items@)[j] == item_entry(
                        prev.items@[j],
                    ),
                forall|j: int| i <= j < len_old ==> #[trigger] items_entries(prev.items@)[j] == oo[j],
                parts.len() == i,
                toggles_view(toggles@) == t0 + joined(parts),
                forall|j: int|
                    0 <= j < i ==> item_outcome(
                        #[trigger] nn[j],
                        oo[j],
                        items_entries(prev.items@)[j],
                        parts[j],
                    ),
            decreases m - i,
        {
            let ghost tb = toggles_view(toggles@);
            let ghost ob = prev.items@;
            let mut slot = DomExternalClassItem::Enabled(false, "");
            prev.items.set_and_swap(i, &mut slot);
            assert(oo[i as int] == item_entry(slot)) by {
                assert(items_entries(ob)[i as int] == oo[i as int]);
            }
            assert(nn[i as int] == item_entry(self.items@[i as int]));
            let ghost p: Seq<(Seq<char>, bool)>;
            let new_item = match &self.items[i] {
                DomExternalClassItem::Enabled(enabled, class_name) => {
                    let differ = match &slot {
                        DomExternalClassItem::Enabled(b, c) => *b != *enabled || !str_eq(
                            *c,
                            *class_name,
                        ),
                        DomExternalClassItem::External(_) => true,
                    };
                    assert(nn[i as int] == ClassEntry::Enabled(*enabled, class_name@));
                    assert(differ == (item_entry(slot) != nn[i as int]));
                    if differ {
                        proof {
                            lemma_toggles_push(toggles@, (*class_name, *enabled));
                        }
                        toggles.push((*class_name, *enabled));
                        proof {
                            p = seq![(class_name@, *enabled)];
                        }
                    } else {
                        proof {
                            p = Seq::empty();
                        }
                    }
                    assert(toggles_view(toggles@) =~= tb + p);
                    DomExternalClassItem::Enabled(*enabled, *class_name)
                },
                DomExternalClassItem::External(newc) => {
                    proof {
                        assert(decreases_to!(self => self.items));
                    }
                    match slot {
                        DomExternalClassItem::External(mut oldc) => {
                            let ghost oc = oldc@;
                            newc.diff_list(&mut oldc, toggles);
                            proof {
                                p = choose|t: Seq<(Seq<char>, bool)>|
                                    {
                                        &&& toggles_view(toggles@) == tb + t
                                        &&& diff_outcome(newc@, oc, oldc@, t)
                                    };
                            }
                            DomExternalClassItem::External(oldc)
                        },
                        DomExternalClassItem::Enabled(..) => {
                            let c = newc.init_list(toggles);
                            proof {
                                p = entries_toggles(newc@, true);
                            }
                            DomExternalClassItem::External(c)
                        },
                    }
                },
            };
            prev.items.set(i, new_item);
            proof {
                lemma_items_entries(prev.items@);
                assert(item_outcome(nn[i as int], oo[i as int], item_entry(new_item), p));
                assert(joined(parts.push(p)).len() >= 0);
                assert(parts.push(p).drop_last() =~= parts);
                parts = parts.push(p);
                assert(toggles_view(toggles@) =~= t0 + joined(parts));
                assert forall|j: int|
                    0 <= j < i + 1 implies item_outcome(
                    #[trigger] nn[j],
                    oo[j],
                    items_entries(prev.items@)[j],
                    parts[j],
                ) by {
                    if j < i {
                        assert(prev.items@[j] == ob[j]);
                    }
                }
                assert forall|j: int| i + 1 <= j < len_old implies #[trigger] items_entries(
                    prev.items@,
                )[j] == oo[j] by {
                    assert(prev.items@[j] == ob[j]);
                    assert(items_entries(ob)[j] == oo[j]);
                }
            }
            i = i + 1;
        }
        proof {
            let after = prev@;
            assert(after.len() == oo.len());
            assert forall|j: int| m <= j < oo.len() implies after[j] == oo[j] by {
                assert(items_entries(prev.items@)[j] == oo[j]);
            }
            assert(same_instance_outcome(nn, oo, after, joined(parts)));
        }
    }

    /// Makes `count` class slots, each a disabled class with no name (used
    /// where these classes are a property that a template fills).
    pub fn init_items(&mut self, count: usize)
        ensures
            final(self)@.len() == count,
            forall|i: int|
                0 <= i < count ==> #[trigger] final(self)@[i] == ClassEntry::Enabled(
                    false,
                    Seq::empty(),
                ),
    {
        let mut items: Vec<DomExternalClassItem> = Vec::new();
        let mut i: usize = 0;
        while i < count
            invariant
                i <= count,
                items@.len() == i,
                forall|j: int| 0 <= j < i ==> #[trigger] items@[j] == DomExternalClassItem::Enabled(false, ""),
            decreases count - i,
        {
            items.push(DomExternalClassItem::Enabled(false, ""));
            i = i + 1;
        }
        self.items = items;
        proof {
            reveal_strlit("");
            lemma_items_entries(self.items@);
            assert forall|i: int| 0 <= i < count implies #[trigger] self@[i] == ClassEntry::Enabled(
                false,
                Seq::empty(),
            ) by {
                assert(item_entry(self.items@[i]) == ClassEntry::Enabled(false, ""@));
                assert(""@ =~= Seq::<char>::empty());
            }
        }
    }

    /// Sets the class slot `index` to `class_name` enabled or not; returns
    /// whether anything changed. A slot that already has that enabled state
    /// keeps its class name.
    pub fn compare_and_set_class(&mut self, index: usize, class_name: &'static str, enabled: bool) -> (changed: bool)
        requires
            index < old(self)@.len(),
        ensures
            changed == !(old(self)@[index as int] matches ClassEntry::Enabled(x, _) && x == enabled),
            final(self)@ == (if changed {
                old(self)@.update(index as int, ClassEntry::Enabled(enabled, class_name@))
            } else {
                old(self)@
            }),
    {
        proof {
            lemma_items_entries(self.items@);
        }
        let ghost before = self.items@;
        let same = match &self.items[index] {
            DomExternalClassItem::Enabled(x, _) => *x == enabled,
            DomExternalClassItem::External(_) => false,
        };
        if same {
            return false;
        }
        self.items.set(index, DomExternalClassItem::Enabled(enabled, class_name));
        proof {
            lemma_items_entries(self.items@);
            assert(self@ =~= old(self)@.update(index as int, ClassEntry::Enabled(enabled, class_name@))) by {
                assert forall|j: int| 0 <= j < self@.len() implies #[trigger] self@[j] == old(self)@.update(
                    index as int,
                    ClassEntry::Enabled(enabled, class_name@),
                )[j] by {
                    if j != index {
                        assert(self.items@[j] == before[j]);
                    }
                }
            }
        }
        true
    }

    /// Sets the class slot `index` to the external classes `src`: an
    /// external slot is brought up to date from `src`, any other slot is
    /// replaced by a copy of it. Returns whether any class was toggled.
    pub fn compare_and_set_external(&mut self, index: usize, src: &DomExternalClasses) -> (changed: bool)
        requires
            index < old(self)@.len(),
        ensures
            final(self)@.len() == old(self)@.len(),
            forall|j: int| 0 <= j < old(self)@.len() && j != index ==> #[trigger] final(self)@[j] == old(self)@[j],
            exists|t: Seq<(Seq<char>, bool)>, a: ClassEntry|
                {
                    &&& changed == (t.len() > 0)
                    &&& final(self)@[index as int] == a
                    &&& item_outcome(ClassEntry::External(src@), old(self)@[index as int], a, t)
                },
    {
        proof {
            lemma_items_entries(self.items@);
        }
        let ghost before = self.items@;
        let ghost o = old(self)@[index as int];
        let mut toggles: Vec<ClassToggle> = Vec::new();
        let mut slot = DomExternalClassItem::Enabled(false, "");
        self.items.set_and_swap(index, &mut slot);
        assert(item_entry(slot) == o);
        let item = match slot {
            DomExternalClassItem::External(mut x) => {
                src.diff_list(&mut x, &mut toggles);
                DomExternalClassItem::External(x)
            },
            DomExternalClassItem::Enabled(..) => {
                let x = src.init_list(&mut toggles);
                DomExternalClassItem::External(x)
            },
        };
        self.items.set(index, item);
        proof {
            lemma_items_entries(self.items@);
            assert forall|j: int| 0 <= j < old(self)@.len() && j != index implies #[trigger] self@[j]
                == old(self)@[j] by {
                assert(self.items@[j] == before[j]);
            }
            let t = toggles_view(toggles@);
            assert(toggles_view(Seq::<ClassToggle>::empty()) =~= Seq::<(Seq<char>, bool)>::empty());
            assert(item_outcome(ClassEntry::External(src@), o, self@[index as int], t));
        }
        toggles.len() > 0
    }
}

/// The abstract value of one class slot of an element.
pub enum ClassSlot {
    /// A class of the element's own template, enabled or not.
    Enabled(bool),
    /// Classes passed on from a component.
    External(Seq<ClassEntry>),
}

/// One class slot of an element.
pub enum DomClassItem {
    Enabled(bool),
    External(DomExternalClasses),
}

/// The manager for DOM `ClassList` .
pub struct DomClassList {
    enabled: Vec<DomClassItem>,
}

pub open spec fn slot_of(it: DomClassItem) -> ClassSlot {
    match it {
        DomClassItem::Enabled(b) => ClassSlot::Enabled(b),
        DomClassItem::External(x) => ClassSlot::External(x@),
    }
}

impl View for DomClassList {
    type V = Seq<ClassSlot>;

    closed spec fn view(&self) -> Seq<ClassSlot> {
        self.enabled@.map_values(|it: DomClassItem| slot_of(it))
    }
}

impl DomClassList {
    /// A class list with no slots.
    pub fn new() -> (r: Self)
        ensures
            r@ == Seq::<ClassSlot>::empty(),
    {
        let r = Self { enabled: Vec::new() };
        assert(r@ =~= Seq::<ClassSlot>::empty());
        r
    }

    /// Makes `count` class slots, each disabled.
    pub fn init_list(&mut self, count: usize)
        ensures
            final(self)@.len() == count,
            forall|i: int| 0 <= i < count ==> #[trigger] final(self)@[i] == ClassSlot::Enabled(false),
    {
        let mut v: Vec<DomClassItem> = Vec::new();
        let mut i: usize = 0;
        while i < count
            invariant
                i <= count,
                v@.len() == i,
                forall|j: int| 0 <= j < i ==> #[trigger] v@[j] == DomClassItem::Enabled(false),
            decreases count - i,
        {
            v.push(DomClassItem::Enabled(false));
            i = i + 1;
        }
        self.enabled = v;
    }

    /// Sets class slot `index` (whose class is `class_name`) enabled or not;
    /// where the slot does not already have that state, the class is toggled.
    pub fn compare_and_set_class(
        &mut self,
        index: usize,
        class_name: &'static str,
        enabled: bool,
        toggles: &mut Vec<ClassToggle>,
    )
        requires
            index < old(self)@.len(),
        ensures
            old(self)@[index as int] == ClassSlot::Enabled(enabled) ==> {
                &&& final(self)@ == old(self)@
                &&& final(toggles)@ == old(toggles)@
            },
            old(self)@[index as int] != ClassSlot::Enabled(enabled) ==> {
                &&& final(self)@ == old(self)@.update(index as int, ClassSlot::Enabled(enabled))
                &&& final(toggles)@ == old(toggles)@.push((class_name, enabled))
            },
    {
        let ghost before = self.enabled@;
        let same = match &self.enabled[index] {
            DomClassItem::Enabled(x) => *x == enabled,
            DomClassItem::External(_) => false,
        };
        if same {
            return;
        }
        toggles.push((class_name, enabled));
        self.enabled.set(index, DomClassItem::Enabled(enabled));
        assert(self@ =~= old(self)@.update(index as int, ClassSlot::Enabled(enabled))) by {
            assert forall|j: int| 0 <= j < self@.len() implies #[trigger] self@[j] == old(self)@.update(
                index as int,
                ClassSlot::Enabled(enabled),
            )[j] by {
                if j != index {
                    assert(self.enabled@[j] == before[j]);
                }
            }
        }
    }

    /// Sets class slot `index` to the external classes `src`: an external
    /// slot is brought up to date from `src`, any other slot is replaced by a
    /// copy of it with its enabled classes switched on.
    pub fn compare_and_set_external(
        &mut self,
        index: usize,
        src: &DomExternalClasses,
        toggles: &mut Vec<ClassToggle>,
    )
        requires
            index < old(self)@.len(),
        ensures
            final(self)@.len() == old(self)@.len(),
            forall|j: int| 0 <= j < old(self)@.len() && j != index ==> #[trigger] final(self)@[j] == old(self)@[j],
            old(self)@[index as int] is Enabled ==> {
                &&& final(self)@[index as int] == ClassSlot::External(src@)
                &&& toggles_view(final(toggles)@) == toggles_view(old(toggles)@) + entries_toggles(src@, true)
            },
            old(self)@[index as int] matches ClassSlot::External(x) ==> exists|
                t: Seq<(Seq<char>, bool)>,
                a: Seq<ClassEntry>,
            |
                {
                    &&& final(self)@[index as int] == ClassSlot::External(a)
                    &&& toggles_view(final(toggles)@) == toggles_view(old(toggles)@) + t
                    &&& diff_outcome(src@, x, a, t)
                },
    {
        let ghost before = self.enabled@;
        let ghost t0 = toggles_view(toggles@);
        let mut slot = DomClassItem::Enabled(false);
        self.enabled.set_and_swap(index, &mut slot);
        let ghost mut wt: Seq<(Seq<char>, bool)> = Seq::empty();
        let ghost mut wa: Seq<ClassEntry> = Seq::empty();
        let item = match slot {
            DomClassItem::External(mut x) => {
                let ghost x0 = x@;
                src.diff_list(&mut x, toggles);
                proof {
                    wt = choose|t: Seq<(Seq<char>, bool)>|
                        {
                            &&& toggles_view(toggles@) == t0 + t
                            &&& diff_outcome(src@, x0, x@, t)
                        };
                    wa = x@;
                }
                DomClassItem::External(x)
            },
            DomClassItem::Enabled(..) => {
                let x = src.init_list(toggles);
                DomClassItem::External(x)
            },
        };
        self.enabled.set(index, item);
        assert forall|j: int| 0 <= j < old(self)@.len() && j != index implies #[trigger] self@[j]
            == old(self)@[j] by {
            assert(self.enabled@[j] == before[j]);
        }
        assert(self@[index as int] == slot_of(item));
        proof {
            if let ClassSlot::External(x) = old(self)@[index as int] {
                assert(self@[index as int] == ClassSlot::External(wa));
                assert(diff_outcome(src@, x, wa, wt));
            }
        }
    }
}

} // verus!
