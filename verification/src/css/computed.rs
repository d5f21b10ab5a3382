//! Computed styles and the cascade.

use crate::css::property::{Property, PropertyName};
use crate::css::values::{Value, ValueView};
use vstd::prelude::*;

verus! {

/// The map described by a list of (name, value) entries; later entries win.
pub open spec fn entries_map<N, K>(s: Seq<(N, Value<K>)>) -> Map<N, ValueView<K>>
    decreases s.len(),
{
    if s.len() == 0 {
        Map::empty()
    } else {
        entries_map(s.drop_last()).insert(s.last().0, s.last().1@)
    }
}

/// No property name occurs twice in the entry list.
pub open spec fn names_unique<N, K>(s: Seq<(N, Value<K>)>) -> bool {
    forall|i: int, j: int| 0 <= i < j < s.len() ==> s[i].0 != s[j].0
}

/// The value of `name` in a map of computed values; `unset` when absent.
pub open spec fn lookup<N, K>(m: Map<N, ValueView<K>>, name: N) -> ValueView<K> {
    if m.contains_key(name) {
        m[name]
    } else {
        ValueView::Unset
    }
}

/// A parent value as seen by a child: cascade directives resolve to the
/// property's initial value.
pub open spec fn resolved_parent<N: PropertyName<K>, K>(name: N, parent: ValueView<K>) -> ValueView<K> {
    if parent.is_specified() {
        parent
    } else {
        name.initial()
    }
}

/// The value a property takes after cascading `parent` into `value`.
pub open spec fn cascade_value<N: PropertyName<K>, K>(
    name: N,
    value: ValueView<K>,
    parent: ValueView<K>,
) -> ValueView<K> {
    match value {
        ValueView::Inherit => resolved_parent(name, parent),
        ValueView::Unset => if name.inherited() {
            resolved_parent(name, parent)
        } else {
            name.initial()
        },
        ValueView::Initial => name.initial(),
        _ => value,
    }
}

/// The computed style of a child after cascading from `parent`.
pub open spec fn cascaded<N: PropertyName<K>, K>(
    child: Map<N, ValueView<K>>,
    parent: Map<N, ValueView<K>>,
) -> Map<N, ValueView<K>> {
    Map::new(
        |n: N| child.contains_key(n) || parent.contains_key(n),
        |n: N| cascade_value(n, lookup(child, n), lookup(parent, n)),
    )
}

/// The value `get_defined` reports for a property.
pub open spec fn defined_value<N: PropertyName<K>, K>(m: Map<N, ValueView<K>>, name: N) -> ValueView<K> {
    let v = lookup(m, name);
    if v.is_specified() {
        v
    } else {
        name.initial()
    }
}

/// Every property of the enumeration has a specified initial value.
pub open spec fn initial_values_specified<N: PropertyName<K>, K>() -> bool {
    forall|n: N| #[trigger] n.initial().is_specified()
}

pub proof fn lemma_entries_map_unique<N, K>(s: Seq<(N, Value<K>)>)
    requires
        names_unique(s),
    ensures
        forall|i: int|
            0 <= i < s.len() ==> #[trigger] entries_map(s).contains_key(s[i].0) && entries_map(s)[s[i].0]
                == s[i].1@,
        forall|n: N|
            #[trigger] entries_map(s).contains_key(n) ==> exists|i: int| 0 <= i < s.len() && s[i].0 == n,
    decreases s.len(),
{
    if s.len() > 0 {
        let t = s.drop_last();
        assert(names_unique(t));
        lemma_entries_map_unique(t);
        assert forall|i: int| 0 <= i < s.len() implies #[trigger] entries_map(s).contains_key(s[i].0)
            && entries_map(s)[s[i].0] == s[i].1@ by {
            if i < s.len() - 1 {
                assert(t[i] == s[i]);
                assert(entries_map(t).contains_key(t[i].0));
                assert(s[i].0 != s.last().0);
            }
        }
        assert forall|n: N| #[trigger] entries_map(s).contains_key(n) implies exists|i: int|
            0 <= i < s.len() && s[i].0 == n by {
            if n != s.last().0 {
                assert(entries_map(t).contains_key(n));
                let i = choose|i: int| 0 <= i < t.len() && t[i].0 == n;
                assert(s[i] == t[i]);
                assert(0 <= i < s.len() && s[i].0 == n);
            } else {
                assert(s[s.len() - 1].0 == n);
            }
        }
    }
}

/// An enumeration of the properties and values applied to a particular
/// element.
#[derive(Clone, Debug)]
pub struct ComputedStyle<N, K> {
    entries: Vec<(N, Value<K>)>,
}

impl<N, K> View for ComputedStyle<N, K> {
    type V = Map<N, ValueView<K>>;

    closed spec fn view(&self) -> Map<N, ValueView<K>> {
        entries_map(self.entries@)
    }
}

impl<N: PropertyName<K>, K: Copy> ComputedStyle<N, K> {
    /// The style is well formed: no property is listed twice.
    pub closed spec fn wf(&self) -> bool {
        names_unique(self.entries@)
    }

    /// An empty computed style: every property is unset.
    pub fn new() -> (r: Self)
        ensures
            r.wf(),
            r@ == Map::<N, ValueView<K>>::empty(),
    {
        ComputedStyle { entries: Vec::new() }
    }

    /// The position of `name` in the entry list.
    fn position(&self, name: &N) -> (r: Option<usize>)
        requires
            self.wf(),
        ensures
            match r {
                Some(i) => i < self.entries@.len() && self.entries@[i as int].0 == *name,
                None => forall|i: int| 0 <= i < self.entries@.len() ==> self.entries@[i].0 != *name,
            },
    {
        let mut i: usize = 0;
        while i < self.entries.len()
            invariant
                i <= self.entries@.len(),
                forall|j: int| 0 <= j < i ==> self.entries@[j].0 != *name,
            decreases self.entries.len() - i,
        {
            if self.entries[i].0.same_property(name) {
                return Some(i);
            }
            i = i + 1;
        }
        None
    }

    /// Retrieve the raw value of a property; `unset` if it is not present.
    pub fn get(&self, name: &N) -> (r: Value<K>)
        requires
            self.wf(),
        ensures
            r@ == lookup(self@, *name),
    {
        proof {
            lemma_entries_map_unique(self.entries@);
        }
        match self.position(name) {
            Some(i) => self.entries[i].1.duplicate(),
            None => Value::Unset,
        }
    }

    /// Retrieve the value of a property, forcing it to not be `unset`,
    /// `initial` or `inherit`: those become the property's initial value.
    ///
    /// Use this to read property values after cascading.
    pub fn get_defined(&self, name: &N) -> (r: Value<K>)
        requires
            self.wf(),
        ensures
            r@ == defined_value(self@, *name),
    {
        let undef = self.get(name);
        if undef.specified() {
            undef
        } else {
            name.initial_value()
        }
    }

    /// Add a property to the computed style, overriding any previous value.
    pub fn add_property(&mut self, property: Property<N, K>)
        requires
            old(self).wf(),
        ensures
            final(self).wf(),
            final(self)@ == old(self)@.insert(property.0, property.1@),
    {
        proof {
            lemma_entries_map_unique(self.entries@);
        }
        let Property(name, value) = property;
        let ghost v = value@;
        match self.position(&name) {
            Some(i) => {
                let ghost before = self.entries@;
                self.entries.set(i, (name, value));
                proof {
                    assert(self.entries@ == before.update(i as int, (name, value)));
                    assert(names_unique(self.entries@)) by {
                        assert forall|a: int, b: int| 0 <= a < b < self.entries@.len() implies self.entries@[a].0
                            != self.entries@[b].0 by {
                            assert(before[a].0 != before[b].0);
                        }
                    }
                    lemma_entries_map_unique(self.entries@);
                    lemma_entries_map_unique(before);
                    let goal = entries_map(before).insert(name, v);
                    assert forall|n: N| #[trigger] self@.contains_key(n) == goal.contains_key(n) by {
                        if self@.contains_key(n) {
                            let k = choose|k: int| 0 <= k < self.entries@.len() && self.entries@[k].0 == n;
                            if k != i {
                                assert(entries_map(before).contains_key(before[k].0));
                            }
                        }
                        if entries_map(before).contains_key(n) {
                            let k = choose|k: int| 0 <= k < before.len() && before[k].0 == n;
                            assert(self@.contains_key(self.entries@[k].0));
                        }
                        if n == name {
                            assert(self@.contains_key(self.entries@[i as int].0));
                        }
                    }
                    assert forall|n: N| #[trigger] self@.contains_key(n) implies self@[n] == goal[n] by {
                        let k = choose|k: int| 0 <= k < self.entries@.len() && self.entries@[k].0 == n;
                        assert(self@[self.entries@[k].0] == self.entries@[k].1@);
                        if k != i {
                            assert(entries_map(before)[before[k].0] == before[k].1@);
                        }
                    }
                    assert(self@ =~= goal);
                }
            },
            None => {
                self.entries.push((name, value));
                proof {
                    assert(self.entries@.drop_last() =~= old(self).entries@);
                }
            },
        }
    }

    /// Resolve a cascade directive of `value` against the parent's value.
    ///
    /// Returns `None` when `value` is already a specified value.
    fn resolve_unset(name: &N, value: &Value<K>, parent_value: &Value<K>) -> (r: Option<Value<K>>)
        ensures
            match r {
                Some(v) => !value@.is_specified() && v@ == cascade_value(
                    *name,
                    value@,
                    parent_value@,
                ),
                None => value@.is_specified(),
            },
    {
        let parent_value = if parent_value.specified() {
            parent_value.duplicate()
        } else {
            name.initial_value()
        };
        match value {
            Value::Inherit => Some(parent_value),
            Value::Unset => if name.is_inherited() {
                Some(parent_value)
            } else {
                Some(name.initial_value())
            },
            Value::Initial => Some(name.initial_value()),
            _ => None,
        }
    }

    /// Cascade properties from a parent's computed style into this one.
    ///
    /// Every property mentioned by either style is resolved; properties
    /// mentioned by neither stay unset. With no parent (the root of the
    /// hierarchy) directives resolve to initial values.
    pub fn cascade(&mut self, parent: Option<&Self>)
        requires
            old(self).wf(),
            parent matches Some(p) ==> p.wf(),
        ensures
            final(self).wf(),
            final(self)@ == cascaded(
                old(self)@,
                match parent {
                    Some(p) => p@,
                    None => Map::empty(),
                },
            ),
    {
        let ghost parent_map = match parent {
            Some(p) => p@,
            None => Map::<N, ValueView<K>>::empty(),
        };
        let ghost target = cascaded(old(self)@, parent_map);
        proof {
            lemma_entries_map_unique(self.entries@);
            if let Some(p) = parent {
                lemma_entries_map_unique(p.entries@);
            }
        }
        let mut out: ComputedStyle<N, K> = ComputedStyle::new();
        let mut i: usize = 0;
        while i < self.entries.len()
            invariant
                i <= self.entries@.len(),
                out.wf(),
                names_unique(self.entries@),
                entries_map(self.entries@) == old(self)@,
                parent_map == match parent {
                    Some(p) => p@,
                    None => Map::<N, ValueView<K>>::empty(),
                },
                parent matches Some(p) ==> p.wf(),
                target == cascaded(old(self)@, parent_map),
                forall|n: N| #[trigger] out@.contains_key(n) ==> target.contains_key(n) && out@[n] == target[n],
                forall|m: int| 0 <= m < i ==> out@.contains_key(#[trigger] self.entries@[m].0),
            decreases self.entries.len() - i,
        {
            let name = self.entries[i].0;
            let parent_value = match parent {
                Some(p) => p.get(&name),
                None => Value::Unset,
            };
            proof {
                lemma_entries_map_unique(self.entries@);
                assert(old(self)@.contains_key(name));
                assert(old(self)@[name] == self.entries@[i as int].1@);
                assert(lookup(parent_map, name) == parent_value@);
            }
            let value = match Self::resolve_unset(&name, &self.entries[i].1, &parent_value) {
                Some(v) => v,
                None => self.entries[i].1.duplicate(),
            };
            out.add_property(Property(name, value));
            i = i + 1;
        }
        if let Some(p) = parent {
            let mut j: usize = 0;
            while j < p.entries.len()
                invariant
                    j <= p.entries@.len(),
                    out.wf(),
                    p.wf(),
                    names_unique(self.entries@),
                    entries_map(self.entries@) == old(self)@,
                    parent_map == p@,
                    target == cascaded(old(self)@, parent_map),
                    forall|n: N| #[trigger] out@.contains_key(n) ==> target.contains_key(n) && out@[n] == target[n],
                    forall|m: int| 0 <= m < self.entries@.len() ==> out@.contains_key(#[trigger] self.entries@[m].0),
                    forall|m: int| 0 <= m < j ==> out@.contains_key(#[trigger] p.entries@[m].0),
                decreases p.entries.len() - j,
            {
                let name = p.entries[j].0;
                proof {
                    lemma_entries_map_unique(self.entries@);
                    lemma_entries_map_unique(p.entries@);
                }
                match self.position(&name) {
                    Some(k) => {
                        assert(out@.contains_key(self.entries@[k as int].0));
                    },
                    None => {
                        proof {
                            assert(p@.contains_key(name));
                            assert(p@[name] == p.entries@[j as int].1@);
                            if old(self)@.contains_key(name) {
                                let k = choose|k: int| 0 <= k < self.entries@.len() && self.entries@[k].0 == name;
                            }
                        }
                        let value = match Self::resolve_unset(&name, &Value::Unset, &p.entries[j].1) {
                            Some(v) => v,
                            None => Value::Unset,
                        };
                        out.add_property(Property(name, value));
                    },
                }
                j = j + 1;
            }
            proof {
                assert forall|n: N| #[trigger] target.contains_key(n) implies out@.contains_key(n) by {
                    if old(self)@.contains_key(n) {
                        let m = choose|m: int| 0 <= m < self.entries@.len() && self.entries@[m].0 == n;
                        assert(out@.contains_key(self.entries@[m].0));
                    } else {
                        let m = choose|m: int| 0 <= m < p.entries@.len() && p.entries@[m].0 == n;
                        assert(out@.contains_key(p.entries@[m].0));
                    }
                }
                assert(out@ =~= target);
            }
        } else {
            proof {
                assert forall|n: N| #[trigger] target.contains_key(n) implies out@.contains_key(n) by {
                    let m = choose|m: int| 0 <= m < self.entries@.len() && self.entries@[m].0 == n;
                    assert(out@.contains_key(self.entries@[m].0));
                }
                assert(out@ =~= target);
            }
        }
        self.entries = out.entries;
        proof {
            assert(self@ == out@);
        }
    }
}

} // verus!

verus! {

impl<N: PropertyName<K>, K: Copy> Default for ComputedStyle<N, K> {
    fn default() -> (r: Self)
        ensures
            r.wf(),
            r@ == Map::<N, ValueView<K>>::empty(),
    {
        ComputedStyle::new()
    }
}

/// After a cascade, reading a property gives: the child's own specified
/// value if it has one; the initial value for `initial`; the parent's
/// (defined) value for `inherit`; and for an unset property the parent's
/// value when the property is inherited, its initial value otherwise.
pub proof fn law_cascade_defined_value<N: PropertyName<K>, K>(
    child: Map<N, ValueView<K>>,
    parent: Map<N, ValueView<K>>,
    name: N,
)
    requires
        initial_values_specified::<N, K>(),
    ensures
        defined_value(cascaded(child, parent), name) == match lookup(child, name) {
            ValueView::Inherit => defined_value(parent, name),
            ValueView::Initial => name.initial(),
            ValueView::Unset => if name.inherited() {
                defined_value(parent, name)
            } else {
                name.initial()
            },
            v => v,
        },
{
    let _ = name.initial().is_specified();
}

/// A cascade leaves no property unresolved: every property the child or the
/// parent mentions ends up with a specified value.
pub proof fn law_cascade_resolves_all<N: PropertyName<K>, K>(
    child: Map<N, ValueView<K>>,
    parent: Map<N, ValueView<K>>,
)
    requires
        initial_values_specified::<N, K>(),
    ensures
        forall|n: N| #[trigger]
            cascaded(child, parent).contains_key(n) ==> cascaded(child, parent)[n].is_specified(),
{
    assert forall|n: N| #[trigger] cascaded(child, parent).contains_key(n) implies cascaded(
        child,
        parent,
    )[n].is_specified() by {
        let _ = n.initial().is_specified();
    }
}

/// Cascading twice from the same parent changes nothing more.
pub proof fn law_cascade_idempotent<N: PropertyName<K>, K>(
    child: Map<N, ValueView<K>>,
    parent: Map<N, ValueView<K>>,
)
    requires
        initial_values_specified::<N, K>(),
    ensures
        cascaded(cascaded(child, parent), parent) == cascaded(child, parent),
{
    law_cascade_resolves_all(child, parent);
    let once = cascaded(child, parent);
    assert forall|n: N| #[trigger] cascaded(once, parent).contains_key(n) implies cascaded(
        once,
        parent,
    )[n] == once[n] by {
        assert(once.contains_key(n));
    }
    assert(cascaded(once, parent) =~= once);
}

/// Reading a property never yields a cascade directive.
pub proof fn law_defined_value_specified<N: PropertyName<K>, K>(m: Map<N, ValueView<K>>, name: N)
    requires
        initial_values_specified::<N, K>(),
    ensures
        defined_value(m, name).is_specified(),
{
    let _ = name.initial().is_specified();
}

/// Adding a property and then reading it back gives the added value when
/// it is specified.
pub proof fn law_add_then_get<N: PropertyName<K>, K>(
    m: Map<N, ValueView<K>>,
    name: N,
    value: ValueView<K>,
)
    requires
        value.is_specified(),
    ensures
        defined_value(m.insert(name, value), name) == value,
{
}

} // verus!
