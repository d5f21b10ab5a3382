//! Stylesheet object model: rules, stylesheets and style computation.

use crate::css::combinators::{eval_spec, law_eval_empty, lemma_counts_bounded, count_classes, count_elements, count_ids, Combinator, StyleNode};
use crate::css::computed::ComputedStyle;
use crate::css::property::{Property, PropertyName};
use crate::css::specificity::{spec_lt, lemma_specificity_order, Specificity};
use crate::css::values::ValueView;
use vstd::prelude::*;

verus! {

/// The candidate set after evaluating a selector right to left.
pub open spec fn run_selector<S: StyleNode>(sel: Seq<Combinator>, candidates: Seq<S>) -> Seq<S>
    decreases sel.len(),
{
    if sel.len() == 0 {
        candidates
    } else {
        run_selector(sel.drop_last(), eval_spec(sel.last(), candidates))
    }
}

/// A selector matches a node when evaluating it leaves a candidate.
pub open spec fn selector_matches<S: StyleNode>(sel: Seq<Combinator>, node: S) -> bool {
    run_selector(sel, seq![node]).len() > 0
}

/// The specificity of a selector in the rule at position `index`.
pub open spec fn selector_specificity(sel: Seq<Combinator>, index: u32) -> Specificity {
    Specificity {
        id: count_ids(sel) as u32,
        class: count_classes(sel) as u32,
        element: count_elements(sel) as u32,
        rule_index: index,
    }
}

/// A CSS rule: properties applied to the elements matching a selector.
#[derive(Clone, Debug)]
pub struct Rule<N, K> {
    /// Combinators, evaluated right to left against a candidate set.
    selector: Vec<Combinator>,
    /// Properties in source order, each with its `!important` flag.
    properties: Vec<(Property<N, K>, bool)>,
    /// The index of the rule within its stylesheet.
    rule_index: u32,
}

impl<N, K> Rule<N, K> {
    /// The selector of the rule.
    pub closed spec fn selector(&self) -> Seq<Combinator> {
        self.selector@
    }

    /// The declarations of the rule, in source order.
    pub closed spec fn declarations(&self) -> Seq<(Property<N, K>, bool)> {
        self.properties@
    }

    /// The index of the rule within its stylesheet.
    pub closed spec fn index(&self) -> u32 {
        self.rule_index
    }

    /// The rule's selector is short enough for its specificity counts to
    /// fit in their `u32` components.
    pub open spec fn wf(&self) -> bool {
        self.selector().len() <= u32::MAX
    }

    /// The specificity of the rule.
    pub open spec fn spec_specificity(&self) -> Specificity {
        selector_specificity(self.selector(), self.index())
    }

    /// Construct a rule from a list of combinators.
    pub fn from_combinators(combinators: Vec<Combinator>) -> (r: Self)
        requires
            combinators@.len() <= u32::MAX,
        ensures
            r.wf(),
            r.selector() == combinators@,
            r.declarations() == Seq::<(Property<N, K>, bool)>::empty(),
            r.index() == 0,
    {
        Rule { selector: combinators, properties: Vec::new(), rule_index: 0 }
    }

    /// Set the index of the rule within its stylesheet.
    fn set_rule_index(&mut self, index: u32)
        ensures
            final(self).selector() == old(self).selector(),
            final(self).declarations() == old(self).declarations(),
            final(self).index() == index,
    {
        self.rule_index = index;
    }

    /// Add a declaration; `is_important` marks it `!important`.
    pub fn add_property(&mut self, property: Property<N, K>, is_important: bool)
        ensures
            final(self).selector() == old(self).selector(),
            final(self).declarations() == old(self).declarations().push((property, is_important)),
            final(self).index() == old(self).index(),
    {
        self.properties.push((property, is_important));
    }

    /// Determine if the rule's selector matches a node.
    fn applies_to<S: StyleNode>(&self, node: S) -> (r: bool)
        ensures
            r == selector_matches(self.selector(), node),
    {
        let mut candidates: Vec<S> = Vec::new();
        candidates.push(node);
        let mut i: usize = self.selector.len();
        proof {
            assert(self.selector@.subrange(0, i as int) =~= self.selector@);
            assert(candidates@ =~= seq![node]);
        }
        while i > 0
            invariant
                i <= self.selector@.len(),
                run_selector(self.selector@, seq![node]) == run_selector(
                    self.selector@.subrange(0, i as int),
                    candidates@,
                ),
            decreases i,
        {
            proof {
                assert(self.selector@.subrange(0, i as int).drop_last() =~= self.selector@.subrange(
                    0,
                    i - 1,
                ));
            }
            self.selector[i - 1].eval(&mut candidates);
            i = i - 1;
            if candidates.len() == 0 {
                proof {
                    assert(candidates@ =~= Seq::<S>::empty());
                    lemma_run_empty::<S>(self.selector@.subrange(0, i as int));
                }
                return false;
            }
        }
        proof {
            assert(self.selector@.subrange(0, 0) =~= Seq::<Combinator>::empty());
        }
        candidates.len() > 0
    }

    /// The specificity of the rule: its weighted combinators and its index.
    fn specificity(&self) -> (r: Specificity)
        requires
            self.wf(),
        ensures
            r == self.spec_specificity(),
    {
        let mut specificity = Specificity::from_components(0, 0, 0, self.rule_index);
        let mut i: usize = 0;
        proof {
            lemma_counts_bounded(self.selector@);
        }
        while i < self.selector.len()
            invariant
                i <= self.selector@.len(),
                self.selector@.len() <= u32::MAX,
                specificity == selector_specificity(self.selector@.subrange(0, i as int), self.rule_index),
            decreases self.selector.len() - i,
        {
            proof {
                let pre = self.selector@.subrange(0, i + 1);
                assert(pre.drop_last() =~= self.selector@.subrange(0, i as int));
                lemma_counts_bounded(pre);
            }
            specificity = specificity.plus(self.selector[i].specificity());
            i = i + 1;
        }
        proof {
            assert(self.selector@.subrange(0, self.selector@.len() as int) =~= self.selector@);
        }
        specificity
    }
}

/// A selector never revives an empty candidate set.
pub proof fn lemma_run_empty<S: StyleNode>(sel: Seq<Combinator>)
    ensures
        run_selector(sel, Seq::<S>::empty()) == Seq::<S>::empty(),
    decreases sel.len(),
{
    if sel.len() > 0 {
        law_eval_empty::<S>(sel.last());
        lemma_run_empty::<S>(sel.drop_last());
    }
}

/// Apply the declarations with the given importance, in order.
pub open spec fn apply_declarations<N, K>(
    m: Map<N, ValueView<K>>,
    decls: Seq<(Property<N, K>, bool)>,
    important: bool,
) -> Map<N, ValueView<K>>
    decreases decls.len(),
{
    if decls.len() == 0 {
        m
    } else {
        let before = apply_declarations(m, decls.drop_last(), important);
        if decls.last().1 == important {
            before.insert(decls.last().0.0, decls.last().0.1@)
        } else {
            before
        }
    }
}

/// Apply the declarations of the given importance of the rules listed in
/// `order`, rule after rule.
pub open spec fn apply_rules<N, K>(
    m: Map<N, ValueView<K>>,
    rules: Seq<Rule<N, K>>,
    order: Seq<usize>,
    important: bool,
) -> Map<N, ValueView<K>>
    decreases order.len(),
{
    if order.len() == 0 {
        m
    } else {
        apply_declarations(
            apply_rules(m, rules, order.drop_last(), important),
            rules[order.last() as int].declarations(),
            important,
        )
    }
}

/// The style given by the rules in `order`: all normal declarations first,
/// then the `!important` ones, which override normal declarations whatever
/// their specificity.
pub open spec fn style_of<N, K>(rules: Seq<Rule<N, K>>, order: Seq<usize>) -> Map<N, ValueView<K>> {
    apply_rules(apply_rules(Map::empty(), rules, order, false), rules, order, true)
}

/// `order` lists rule indices by strictly increasing specificity.
pub open spec fn sorted_by_specificity<N, K>(rules: Seq<Rule<N, K>>, order: Seq<usize>) -> bool {
    &&& forall|a: int| 0 <= a < order.len() ==> #[trigger] order[a] < rules.len()
    &&& forall|a: int, b: int|
        0 <= a < b < order.len() ==> spec_lt(
            rules[order[a] as int].spec_specificity(),
            rules[order[b] as int].spec_specificity(),
        )
}

/// `order` holds exactly the indices of the rules matching `node`.
pub open spec fn lists_matching_rules<N, K, S: StyleNode>(
    rules: Seq<Rule<N, K>>,
    order: Seq<usize>,
    node: S,
) -> bool {
    forall|k: usize| #[trigger]
        order.contains(k) <==> (k < rules.len() && selector_matches(rules[k as int].selector(), node))
}

/// A stylesheet: the rules in declaration order.
#[derive(Clone, Debug)]
pub struct Stylesheet<N, K> {
    rules: Vec<Rule<N, K>>,
}

impl<N, K> Stylesheet<N, K> {
    /// The rules of the stylesheet.
    pub closed spec fn rules(&self) -> Seq<Rule<N, K>> {
        self.rules@
    }

    /// Each rule knows its position, and positions fit in a `u32`.
    pub open spec fn wf(&self) -> bool {
        &&& self.rules().len() <= u32::MAX
        &&& forall|k: int|
            0 <= k < self.rules().len() ==> #[trigger] self.rules()[k].index() == k && self.rules()[k].wf()
    }

    /// An empty stylesheet.
    pub fn new() -> (r: Self)
        ensures
            r.wf(),
            r.rules() == Seq::<Rule<N, K>>::empty(),
    {
        Stylesheet { rules: Vec::new() }
    }

    /// Add a rule to the stylesheet; it is given the next rule index.
    pub fn append_rule(&mut self, rule: Rule<N, K>)
        requires
            old(self).wf(),
            rule.wf(),
            old(self).rules().len() < u32::MAX,
        ensures
            final(self).wf(),
            final(self).rules().len() == old(self).rules().len() + 1,
            forall|k: int| 0 <= k < old(self).rules().len() ==> #[trigger] final(self).rules()[k] == old(self).rules()[k],
            final(self).rules().last().selector() == rule.selector(),
            final(self).rules().last().declarations() == rule.declarations(),
            final(self).rules().last().index() == old(self).rules().len(),
    {
        let mut rule = rule;
        rule.set_rule_index(self.rules.len() as u32);
        self.rules.push(rule);
        proof {
            assert forall|k: int| 0 <= k < self.rules().len() implies #[trigger] self.rules()[k].index() == k
                && self.rules()[k].wf() by {
                if k < old(self).rules().len() {
                    assert(self.rules()[k] == old(self).rules()[k]);
                }
            }
        }
    }
}

impl<N, K> Default for Stylesheet<N, K> {
    fn default() -> (r: Self)
        ensures
            r.wf(),
            r.rules() == Seq::<Rule<N, K>>::empty(),
    {
        Stylesheet::new()
    }
}

impl<N: PropertyName<K>, K: Copy> Stylesheet<N, K> {
    /// Compute the style that this stylesheet gives a node.
    ///
    /// The rules matching the node are applied by increasing specificity;
    /// `!important` declarations override normal ones.
    pub fn compute_styles<S: StyleNode>(&self, node: S) -> (r: ComputedStyle<N, K>)
        requires
            self.wf(),
        ensures
            r.wf(),
            exists|order: Seq<usize>| #[trigger]
                sorted_by_specificity(self.rules(), order) && lists_matching_rules(self.rules(), order, node)
                    && r@ == style_of(self.rules(), order),
    {
        let mut order: Vec<usize> = Vec::new();
        let mut k: usize = 0;
        while k < self.rules.len()
            invariant
                self.wf(),
                k <= self.rules@.len(),
                sorted_by_specificity(self.rules@, order@),
                forall|j: usize| #[trigger]
                    order@.contains(j) <==> (j < k && selector_matches(self.rules@[j as int].selector(), node)),
            decreases self.rules.len() - k,
        {
            if self.rules[k].applies_to(node) {
                proof {
                    assert(self.rules@[k as int].index() == k);
                }
                let key = self.rules[k].specificity();
                let mut p: usize = 0;
                while p < order.len()
                    invariant
                        self.wf(),
                        k < self.rules@.len(),
                        key == self.rules@[k as int].spec_specificity(),
                        p <= order@.len(),
                        sorted_by_specificity(self.rules@, order@),
                        forall|j: usize| #[trigger] order@.contains(j) ==> j < k,
                        forall|q: int| 0 <= q < p ==> spec_lt(self.rules@[#[trigger] order@[q] as int].spec_specificity(), key),
                    ensures
                        p <= order@.len(),
                        forall|q: int| 0 <= q < p ==> spec_lt(self.rules@[#[trigger] order@[q] as int].spec_specificity(), key),
                        p < order@.len() ==> spec_lt(key, self.rules@[order@[p as int] as int].spec_specificity()),
                    decreases order.len() - p,
                {
                    proof {
                        assert(order@[p as int] < self.rules@.len());
                        assert(self.rules@[order@[p as int] as int].index() == order@[p as int]);
                    }
                    let other = self.rules[order[p]].specificity();
                    if key.less_than(&other) {
                        break;
                    }
                    proof {
                        let o = order@[p as int];
                        assert(order@.contains(o));
                        assert(self.rules@[o as int].index() == o);
                        assert(self.rules@[k as int].index() == k);
                        lemma_specificity_order(key, other, key);
                    }
                    p = p + 1;
                }
                proof {
                    assert forall|q: int| p <= q < order@.len() implies spec_lt(
                        key,
                        self.rules@[#[trigger] order@[q] as int].spec_specificity(),
                    ) by {
                        let op = self.rules@[order@[p as int] as int].spec_specificity();
                        let oq = self.rules@[order@[q] as int].spec_specificity();
                        lemma_specificity_order(key, op, oq);
                    }
                }
                let ghost before = order@;
                order.insert(p, k);
                proof {
                    assert forall|j: usize| #[trigger] order@.contains(j) <==> (j < k + 1
                        && selector_matches(self.rules@[j as int].selector(), node)) by {
                        if order@.contains(j) {
                            let q = choose|q: int| 0 <= q < order@.len() && order@[q] == j;
                            if q < p {
                                assert(before[q] == j);
                                assert(before.contains(j));
                            } else if q > p {
                                assert(before[q - 1] == j);
                                assert(before.contains(j));
                            }
                        }
                        if j < k + 1 && selector_matches(self.rules@[j as int].selector(), node) {
                            if j < k {
                                assert(before.contains(j));
                                let q = choose|q: int| 0 <= q < before.len() && before[q] == j;
                                if q < p {
                                    assert(order@[q] == j);
                                } else {
                                    assert(order@[q + 1] == j);
                                }
                            } else {
                                assert(order@[p as int] == j);
                            }
                        }
                    }
                    assert forall|a: int, b: int| 0 <= a < b < order@.len() implies spec_lt(
                        self.rules@[order@[a] as int].spec_specificity(),
                        self.rules@[order@[b] as int].spec_specificity(),
                    ) by {
                        if a < p && b < p {
                            assert(order@[a] == before[a] && order@[b] == before[b]);
                        } else if a < p && b == p {
                            assert(order@[a] == before[a]);
                        } else if a < p && b > p {
                            assert(order@[a] == before[a] && order@[b] == before[b - 1]);
                        } else if a == p {
                            assert(order@[b] == before[b - 1]);
                        } else {
                            assert(order@[a] == before[a - 1] && order@[b] == before[b - 1]);
                        }
                    }
                    assert forall|a: int| 0 <= a < order@.len() implies #[trigger] order@[a] < self.rules@.len() by {
                        if a < p {
                            assert(order@[a] == before[a]);
                        } else if a > p {
                            assert(order@[a] == before[a - 1]);
                        }
                    }
                }
            } else {
                proof {
                    assert forall|j: usize| #[trigger] order@.contains(j) <==> (j < k + 1
                        && selector_matches(self.rules@[j as int].selector(), node)) by {
                        if order@.contains(j) {
                            let q = choose|q: int| 0 <= q < order@.len() && order@[q] == j;
                        }
                    }
                }
            }
            k = k + 1;
        }
        let mut computed_style: ComputedStyle<N, K> = ComputedStyle::new();
        self.apply_pass(&order, false, &mut computed_style);
        self.apply_pass(&order, true, &mut computed_style);
        proof {
            assert(sorted_by_specificity(self.rules(), order@) && lists_matching_rules(self.rules(), order@, node));
        }
        computed_style
    }

    /// Apply the declarations of the given importance of the rules in
    /// `order`.
    fn apply_pass(&self, order: &Vec<usize>, important: bool, style: &mut ComputedStyle<N, K>)
        requires
            old(style).wf(),
            forall|a: int| 0 <= a < order@.len() ==> #[trigger] order@[a] < self.rules@.len(),
        ensures
            final(style).wf(),
            final(style)@ == apply_rules(old(style)@, self.rules(), order@, important),
    {
        let mut i: usize = 0;
        while i < order.len()
            invariant
                i <= order@.len(),
                style.wf(),
                forall|a: int| 0 <= a < order@.len() ==> #[trigger] order@[a] < self.rules@.len(),
                style@ == apply_rules(old(style)@, self.rules(), order@.subrange(0, i as int), important),
            decreases order.len() - i,
        {
            let rule = &self.rules[order[i]];
            let ghost at_rule = style@;
            let mut j: usize = 0;
            while j < rule.properties.len()
                invariant
                    j <= rule.properties@.len(),
                    style.wf(),
                    style@ == apply_declarations(at_rule, rule.properties@.subrange(0, j as int), important),
                decreases rule.properties.len() - j,
            {
                proof {
                    assert(rule.properties@.subrange(0, j + 1).drop_last() =~= rule.properties@.subrange(0, j as int));
                }
                let decl = &rule.properties[j];
                if decl.1 == important {
                    let value = decl.0.1.duplicate();
                    style.add_property(Property(decl.0.0, value));
                }
                j = j + 1;
            }
            proof {
                assert(rule.properties@.subrange(0, rule.properties@.len() as int) =~= rule.properties@);
                assert(order@.subrange(0, i + 1).drop_last() =~= order@.subrange(0, i as int));
            }
            i = i + 1;
        }
        proof {
            assert(order@.subrange(0, order@.len() as int) =~= order@);
        }
    }
}

/// Orders sorted by specificity that list the same rules are the same
/// order.
proof fn lemma_sorted_orders_equal<N, K>(rules: Seq<Rule<N, K>>, o1: Seq<usize>, o2: Seq<usize>)
    requires
        forall|k: int| 0 <= k < rules.len() ==> #[trigger] rules[k].index() == k,
        sorted_by_specificity(rules, o1),
        sorted_by_specificity(rules, o2),
        forall|x: usize| #![trigger o1.contains(x)] #![trigger o2.contains(x)] o1.contains(x) <==> o2.contains(x),
    ensures
        o1 == o2,
    decreases o1.len(),
{
    if o1.len() == 0 {
        if o2.len() > 0 {
            assert(o2.contains(o2[0]));
        }
        assert(o1 =~= o2);
    } else if o2.len() == 0 {
        assert(o1.contains(o1[0]));
    } else {
        let m1 = o1.last();
        let m2 = o2.last();
        assert(o1.contains(m1));
        assert(o2.contains(m2));
        let i1 = choose|i: int| 0 <= i < o2.len() && o2[i] == m1;
        let i2 = choose|i: int| 0 <= i < o1.len() && o1[i] == m2;
        if m1 != m2 {
            assert(rules[m1 as int].index() == m1);
            assert(rules[m2 as int].index() == m2);
            assert(i1 < o2.len() - 1);
            assert(i2 < o1.len() - 1);
            lemma_specificity_order(
                rules[m1 as int].spec_specificity(),
                rules[m2 as int].spec_specificity(),
                rules[m1 as int].spec_specificity(),
            );
        }
        let t1 = o1.drop_last();
        let t2 = o2.drop_last();
        assert forall|x: usize| #![trigger t1.contains(x)] #![trigger t2.contains(x)] t1.contains(x) <==> t2.contains(x) by {
            if t1.contains(x) {
                let a = choose|a: int| 0 <= a < t1.len() && t1[a] == x;
                assert(o1.contains(x));
                let b = choose|b: int| 0 <= b < o2.len() && o2[b] == x;
                if b == o2.len() - 1 {
                    assert(spec_lt(
                        rules[o1[a] as int].spec_specificity(),
                        rules[o1[o1.len() - 1] as int].spec_specificity(),
                    ));
                }
                assert(t2[b] == x);
            }
            if t2.contains(x) {
                let a = choose|a: int| 0 <= a < t2.len() && t2[a] == x;
                assert(o2.contains(x));
                let b = choose|b: int| 0 <= b < o1.len() && o1[b] == x;
                if b == o1.len() - 1 {
                    assert(spec_lt(
                        rules[o2[a] as int].spec_specificity(),
                        rules[o2[o2.len() - 1] as int].spec_specificity(),
                    ));
                }
                assert(t1[b] == x);
            }
        }
        lemma_sorted_orders_equal(rules, t1, t2);
        assert(o1 =~= t1.push(m1));
        assert(o2 =~= t2.push(m2));
    }
}

/// The rules applied to a node form exactly one order: sorting the matching
/// rules by specificity leaves no choice, so `compute_styles` is fully
/// determined by its contract.
pub proof fn law_matching_order_unique<N, K, S: StyleNode>(
    sheet: Stylesheet<N, K>,
    node: S,
    o1: Seq<usize>,
    o2: Seq<usize>,
)
    requires
        sheet.wf(),
        sorted_by_specificity(sheet.rules(), o1),
        lists_matching_rules(sheet.rules(), o1, node),
        sorted_by_specificity(sheet.rules(), o2),
        lists_matching_rules(sheet.rules(), o2, node),
    ensures
        o1 == o2,
{
    assert forall|x: usize| #[trigger] o1.contains(x) <==> o2.contains(x) by {
        let _ = o1.contains(x);
        let _ = o2.contains(x);
    }
    assert forall|k: int| 0 <= k < sheet.rules().len() implies #[trigger] sheet.rules()[k].index() == k by {
    }
    lemma_sorted_orders_equal(sheet.rules(), o1, o2);
}

} // verus!
