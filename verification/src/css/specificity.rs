//! CSS specificity sorting.

use vstd::prelude::*;

verus! {

/// A measure of the sorting weight of individual CSS rules.
///
/// Rules gain specificity by way of id, class, or element combinators. The
/// components are ordered by id, class, element and finally the index of the
/// rule in its stylesheet, which breaks ties between equally specific rules.
#[derive(PartialEq, Eq, Structural, PartialOrd, Ord, Clone, Copy, Debug)]
pub struct Specificity {
    pub id: u32,
    pub class: u32,
    pub element: u32,
    pub rule_index: u32,
}

/// Strict lexicographic order on (id, class, element, rule_index).
pub open spec fn spec_lt(a: Specificity, b: Specificity) -> bool {
    if a.id != b.id {
        a.id < b.id
    } else if a.class != b.class {
        a.class < b.class
    } else if a.element != b.element {
        a.element < b.element
    } else {
        a.rule_index < b.rule_index
    }
}

/// Component-wise sum; `None` where a component would not fit in a `u32`.
pub open spec fn spec_add(a: Specificity, b: Specificity) -> Option<Specificity> {
    if a.id + b.id <= u32::MAX && a.class + b.class <= u32::MAX && a.element + b.element
        <= u32::MAX && a.rule_index + b.rule_index <= u32::MAX {
        Some(
            Specificity {
                id: (a.id + b.id) as u32,
                class: (a.class + b.class) as u32,
                element: (a.element + b.element) as u32,
                rule_index: (a.rule_index + b.rule_index) as u32,
            },
        )
    } else {
        None
    }
}

impl Specificity {
    /// The specificity of a selector with no weighted combinators.
    pub fn zero() -> (r: Specificity)
        ensures
            r == (Specificity { id: 0, class: 0, element: 0, rule_index: 0 }),
    {
        Specificity { id: 0, class: 0, element: 0, rule_index: 0 }
    }

    /// Build a specificity from its four components.
    pub fn from_components(id: u32, class: u32, element: u32, rule_index: u32) -> (r: Specificity)
        ensures
            r == (Specificity { id, class, element, rule_index }),
    {
        Specificity { id, class, element, rule_index }
    }

    /// The contribution of an id combinator.
    pub fn id() -> (r: Specificity)
        ensures
            r == (Specificity { id: 1, class: 0, element: 0, rule_index: 0 }),
    {
        Specificity { id: 1, class: 0, element: 0, rule_index: 0 }
    }

    /// The contribution of a class combinator.
    pub fn class() -> (r: Specificity)
        ensures
            r == (Specificity { id: 0, class: 1, element: 0, rule_index: 0 }),
    {
        Specificity { id: 0, class: 1, element: 0, rule_index: 0 }
    }

    /// The contribution of an element combinator.
    pub fn element() -> (r: Specificity)
        ensures
            r == (Specificity { id: 0, class: 0, element: 1, rule_index: 0 }),
    {
        Specificity { id: 0, class: 0, element: 1, rule_index: 0 }
    }

    /// Component-wise addition.
    pub fn plus(self, rhs: Specificity) -> (r: Specificity)
        requires
            spec_add(self, rhs) is Some,
        ensures
            spec_add(self, rhs) == Some(r),
    {
        Specificity {
            id: self.id + rhs.id,
            class: self.class + rhs.class,
            element: self.element + rhs.element,
            rule_index: self.rule_index + rhs.rule_index,
        }
    }

    /// Whether `self` sorts strictly before `other`.
    pub fn less_than(&self, other: &Specificity) -> (r: bool)
        ensures
            r == spec_lt(*self, *other),
    {
        if self.id != other.id {
            self.id < other.id
        } else if self.class != other.class {
            self.class < other.class
        } else if self.element != other.element {
            self.element < other.element
        } else {
            self.rule_index < other.rule_index
        }
    }
}

/// Specificity order is a strict total order.
pub proof fn lemma_specificity_order(a: Specificity, b: Specificity, c: Specificity)
    ensures
        !spec_lt(a, a),
        spec_lt(a, b) ==> !spec_lt(b, a),
        spec_lt(a, b) && spec_lt(b, c) ==> spec_lt(a, c),
        a != b ==> spec_lt(a, b) || spec_lt(b, a),
{
}


/// Specificity compares ids first, then classes, then elements; the rule
/// index only breaks ties between equally specific selectors. So a selector
/// with more ids beats one with more classes or elements, one with more
/// classes (and as many ids) beats one with more elements, one with more
/// elements (and as many ids and classes) beats any rule order, and only
/// between equally specific selectors does the later rule sort last.
pub proof fn law_specificity_is_lexicographic(a: Specificity, b: Specificity)
    ensures
        a.id < b.id ==> spec_lt(a, b) && !spec_lt(b, a),
        a.id == b.id && a.class < b.class ==> spec_lt(a, b) && !spec_lt(b, a),
        a.id == b.id && a.class == b.class && a.element < b.element ==> spec_lt(a, b) && !spec_lt(b, a),
        a.id == b.id && a.class == b.class && a.element == b.element ==> (spec_lt(a, b) <==> a.rule_index
            < b.rule_index),
{
}
} // verus!
