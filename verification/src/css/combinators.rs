//! CSS combinators and the tree structure they are evaluated against.

use crate::css::specificity::Specificity;
use vstd::prelude::*;

verus! {

/// The tree structure being styled.
///
/// Style nodes are opaque, copyable references into some tree with element
/// names, classes and ids. Implementations state each answer through the
/// matching `spec_*` function, and give every node a `depth` that is larger
/// than the depth of its parent, so that walking to the root terminates. An
/// implementation that does not define them leaves its answers unstated.
pub trait StyleNode: Sized + Copy {
    /// Whether the node is an element with the given tag name.
    open spec fn spec_is_element(&self, tag_name: Seq<char>) -> bool {
        vstd::pervasive::arbitrary::<spec_fn(Self, Seq<char>, int) -> bool>()(*self, tag_name, 0)
    }

    /// Whether the node carries the given CSS class.
    open spec fn spec_has_class(&self, class: Seq<char>) -> bool {
        vstd::pervasive::arbitrary::<spec_fn(Self, Seq<char>, int) -> bool>()(*self, class, 1)
    }

    /// Whether the node carries the given id.
    open spec fn spec_has_id(&self, id: Seq<char>) -> bool {
        vstd::pervasive::arbitrary::<spec_fn(Self, Seq<char>, int) -> bool>()(*self, id, 2)
    }

    /// The parent of the node, `None` at the root.
    open spec fn spec_parent(&self) -> Option<Self> {
        vstd::pervasive::arbitrary::<spec_fn(Self) -> Option<Self>>()(*self)
    }

    /// The distance bound from the node to the root.
    open spec fn depth(&self) -> nat {
        vstd::pervasive::arbitrary::<spec_fn(Self) -> nat>()(*self)
    }

    /// Determine if the node is a particular element type.
    fn is_element(&self, tag_name: &str) -> (r: bool)
        ensures
            r == self.spec_is_element(tag_name@),
    ;

    /// Determine if the node possesses a particular CSS class.
    fn has_class(&self, class: &str) -> (r: bool)
        ensures
            r == self.spec_has_class(class@),
    ;

    /// Determine if the node possesses a particular id.
    fn has_id(&self, id: &str) -> (r: bool)
        ensures
            r == self.spec_has_id(id@),
    ;

    /// Retrieve the parent of this node, or `None` for the root.
    fn parent(&self) -> (r: Option<Self>)
        ensures
            r == self.spec_parent(),
            r matches Some(p) ==> p.depth() < self.depth(),
    ;
}

/// A selector is a list of combinators; these are the supported ones.
#[derive(Clone, Debug, PartialEq)]
pub enum Combinator {
    /// Matches any element.
    Any,
    /// Matches descendents.
    Descendent,
    /// Matches children.
    Child,
    /// Matches elements by tag name.
    IsElement(String),
    /// Matches a particular element class.
    HasClass(String),
    /// Matches an element's id.
    HasId(String),
}

/// The ancestors of a node, nearest first, following at most `fuel` parent
/// links.
pub open spec fn ancestors<S: StyleNode>(node: S, fuel: nat) -> Seq<S>
    decreases fuel,
{
    if fuel == 0 {
        Seq::empty()
    } else {
        match node.spec_parent() {
            Some(p) => seq![p] + ancestors(p, (fuel - 1) as nat),
            None => Seq::empty(),
        }
    }
}

/// The ancestors of every candidate, in candidate order.
pub open spec fn all_ancestors<S: StyleNode>(candidates: Seq<S>) -> Seq<S>
    decreases candidates.len(),
{
    if candidates.len() == 0 {
        Seq::empty()
    } else {
        all_ancestors(candidates.drop_last()) + ancestors(candidates.last(), candidates.last().depth())
    }
}

/// The parents of the candidates that have one, in candidate order.
pub open spec fn all_parents<S: StyleNode>(candidates: Seq<S>) -> Seq<S>
    decreases candidates.len(),
{
    if candidates.len() == 0 {
        Seq::empty()
    } else {
        all_parents(candidates.drop_last()) + match candidates.last().spec_parent() {
            Some(p) => seq![p],
            None => Seq::empty(),
        }
    }
}

/// Whether a filtering combinator keeps a node.
pub open spec fn keeps<S: StyleNode>(c: Combinator, node: S) -> bool {
    match c {
        Combinator::IsElement(t) => node.spec_is_element(t@),
        Combinator::HasClass(t) => node.spec_has_class(t@),
        Combinator::HasId(t) => node.spec_has_id(t@),
        _ => true,
    }
}

/// The candidates a filtering combinator keeps, in order.
pub open spec fn kept<S: StyleNode>(c: Combinator, candidates: Seq<S>) -> Seq<S>
    decreases candidates.len(),
{
    if candidates.len() == 0 {
        Seq::empty()
    } else {
        kept(c, candidates.drop_last()) + if keeps(c, candidates.last()) {
            seq![candidates.last()]
        } else {
            Seq::empty()
        }
    }
}

/// The candidate set after evaluating one combinator.
pub open spec fn eval_spec<S: StyleNode>(c: Combinator, candidates: Seq<S>) -> Seq<S> {
    match c {
        Combinator::Any => candidates,
        Combinator::Descendent => all_ancestors(candidates),
        Combinator::Child => all_parents(candidates),
        _ => kept(c, candidates),
    }
}

/// Number of combinators of each weighted kind in a selector.
pub open spec fn count_ids(sel: Seq<Combinator>) -> nat
    decreases sel.len(),
{
    if sel.len() == 0 {
        0
    } else {
        count_ids(sel.drop_last()) + if sel.last() is HasId { 1nat } else { 0nat }
    }
}

pub open spec fn count_classes(sel: Seq<Combinator>) -> nat
    decreases sel.len(),
{
    if sel.len() == 0 {
        0
    } else {
        count_classes(sel.drop_last()) + if sel.last() is HasClass { 1nat } else { 0nat }
    }
}

pub open spec fn count_elements(sel: Seq<Combinator>) -> nat
    decreases sel.len(),
{
    if sel.len() == 0 {
        0
    } else {
        count_elements(sel.drop_last()) + if sel.last() is IsElement { 1nat } else { 0nat }
    }
}

pub proof fn lemma_counts_bounded(sel: Seq<Combinator>)
    ensures
        count_ids(sel) <= sel.len(),
        count_classes(sel) <= sel.len(),
        count_elements(sel) <= sel.len(),
    decreases sel.len(),
{
    if sel.len() > 0 {
        lemma_counts_bounded(sel.drop_last());
    }
}

/// Collect the ancestors of `node` onto `out`.
fn push_ancestors<S: StyleNode>(node: S, out: &mut Vec<S>)
    ensures
        final(out)@ == old(out)@ + ancestors(node, node.depth()),
{
    let ghost start = out@;
    let mut cur = node;
    let ghost mut fuel: nat = node.depth();
    loop
        invariant
            fuel >= cur.depth(),
            start == old(out)@,
            start + ancestors(node, node.depth()) == out@ + ancestors(cur, fuel),
        decreases cur.depth(),
    {
        match cur.parent() {
            Some(p) => {
                proof {
                    assert(ancestors(cur, fuel) == seq![p] + ancestors(p, (fuel - 1) as nat));
                    assert(out@ + ancestors(cur, fuel) =~= out@.push(p) + ancestors(p, (fuel - 1) as nat));
                    fuel = (fuel - 1) as nat;
                }
                out.push(p);
                cur = p;
            },
            None => {
                proof {
                    assert(ancestors(cur, fuel) =~= Seq::<S>::empty());
                    assert(out@ + ancestors(cur, fuel) =~= out@);
                }
                return;
            },
        }
    }
}

impl Combinator {
    /// Evaluate the combinator against a candidate set.
    ///
    /// Starting from a set holding the element being tested, combinators
    /// are evaluated from the end of the selector; an empty set means the
    /// element does not match.
    pub fn eval<S: StyleNode>(&self, candidates: &mut Vec<S>)
        ensures
            final(candidates)@ == eval_spec(*self, old(candidates)@),
    {
        let mut new_candidates: Vec<S> = Vec::new();
        match self {
            Combinator::Any => {
                return;
            },
            Combinator::Descendent => {
                let mut i: usize = 0;
                while i < candidates.len()
                    invariant
                        i <= candidates@.len(),
                        new_candidates@ == all_ancestors(candidates@.subrange(0, i as int)),
                    decreases candidates.len() - i,
                {
                    proof {
                        assert(candidates@.subrange(0, i + 1).drop_last() =~= candidates@.subrange(0, i as int));
                    }
                    push_ancestors(candidates[i], &mut new_candidates);
                    i = i + 1;
                }
                proof {
                    assert(candidates@.subrange(0, candidates@.len() as int) =~= candidates@);
                }
            },
            Combinator::Child => {
                let mut i: usize = 0;
                while i < candidates.len()
                    invariant
                        i <= candidates@.len(),
                        new_candidates@ == all_parents(candidates@.subrange(0, i as int)),
                    decreases candidates.len() - i,
                {
                    proof {
                        assert(candidates@.subrange(0, i + 1).drop_last() =~= candidates@.subrange(0, i as int));
                    }
                    match candidates[i].parent() {
                        Some(p) => {
                            proof {
                                assert(new_candidates@.push(p) =~= new_candidates@ + seq![p]);
                            }
                            new_candidates.push(p);
                        },
                        None => {
                            proof {
                                assert(new_candidates@ =~= new_candidates@ + Seq::<S>::empty());
                            }
                        },
                    }
                    i = i + 1;
                }
                proof {
                    assert(candidates@.subrange(0, candidates@.len() as int) =~= candidates@);
                }
            },
            _ => {
                let mut i: usize = 0;
                while i < candidates.len()
                    invariant
                        i <= candidates@.len(),
                        !(*self is Any || *self is Descendent || *self is Child),
                        new_candidates@ == kept(*self, candidates@.subrange(0, i as int)),
                    decreases candidates.len() - i,
                {
                    proof {
                        assert(candidates@.subrange(0, i + 1).drop_last() =~= candidates@.subrange(0, i as int));
                    }
                    let child = candidates[i];
                    let keep = match self {
                        Combinator::IsElement(t) => child.is_element(t.as_str()),
                        Combinator::HasClass(t) => child.has_class(t.as_str()),
                        Combinator::HasId(t) => child.has_id(t.as_str()),
                        _ => true,
                    };
                    if keep {
                        proof {
                            assert(new_candidates@.push(child) =~= new_candidates@ + seq![child]);
                        }
                        new_candidates.push(child);
                    } else {
                        proof {
                            assert(new_candidates@ =~= new_candidates@ + Seq::<S>::empty());
                        }
                    }
                    i = i + 1;
                }
                proof {
                    assert(candidates@.subrange(0, candidates@.len() as int) =~= candidates@);
                }
            },
        }
        *candidates = new_candidates;
    }

    /// How much specificity this combinator contributes to rules that
    /// include it.
    pub fn specificity(&self) -> (r: Specificity)
        ensures
            r == (Specificity {
                id: if *self is HasId { 1 } else { 0 },
                class: if *self is HasClass { 1 } else { 0 },
                element: if *self is IsElement { 1 } else { 0 },
                rule_index: 0,
            }),
    {
        match self {
            Combinator::Any => Specificity::zero(),
            Combinator::Descendent => Specificity::zero(),
            Combinator::Child => Specificity::zero(),
            Combinator::IsElement(_) => Specificity::element(),
            Combinator::HasClass(_) => Specificity::class(),
            Combinator::HasId(_) => Specificity::id(),
        }
    }
}

/// Every combinator turns an empty candidate set into an empty one.
pub proof fn law_eval_empty<S: StyleNode>(c: Combinator)
    ensures
        eval_spec(c, Seq::<S>::empty()) == Seq::<S>::empty(),
{
    assert(all_ancestors(Seq::<S>::empty()) == Seq::<S>::empty());
    assert(all_parents(Seq::<S>::empty()) == Seq::<S>::empty());
    assert(kept(c, Seq::<S>::empty()) == Seq::<S>::empty());
}


/// Filtering by tag name, class or id keeps exactly the candidates that
/// match: whatever it keeps matches and was a candidate, and every matching
/// candidate is kept.
pub proof fn law_filters_keep_exactly_the_matches<S: StyleNode>(c: Combinator, candidates: Seq<S>)
    requires
        c is IsElement || c is HasClass || c is HasId,
    ensures
        forall|j: int|
            0 <= j < eval_spec(c, candidates).len() ==> keeps(c, #[trigger] eval_spec(c, candidates)[j])
                && candidates.contains(eval_spec(c, candidates)[j]),
        forall|i: int|
            0 <= i < candidates.len() && keeps(c, #[trigger] candidates[i]) ==> eval_spec(c, candidates).contains(
                candidates[i],
            ),
    decreases candidates.len(),
{
    if candidates.len() > 0 {
        let init = candidates.drop_last();
        law_filters_keep_exactly_the_matches(c, init);
        let r = eval_spec(c, candidates);
        let ri = eval_spec(c, init);
        assert forall|j: int| 0 <= j < r.len() implies keeps(c, #[trigger] r[j]) && candidates.contains(r[j]) by {
            if j < ri.len() {
                assert(r[j] == ri[j]);
                let m = choose|m: int| 0 <= m < init.len() && init[m] == ri[j];
                assert(candidates[m] == init[m]);
            } else {
                assert(r[j] == candidates.last());
                assert(candidates[candidates.len() - 1] == candidates.last());
            }
        }
        assert forall|i: int| 0 <= i < candidates.len() && keeps(c, #[trigger] candidates[i]) implies r.contains(
            candidates[i],
        ) by {
            if i < candidates.len() - 1 {
                assert(init[i] == candidates[i]);
                let m = choose|m: int| 0 <= m < ri.len() && ri[m] == init[i];
                assert(r[m] == ri[m]);
            } else {
                assert(r[r.len() - 1] == candidates.last());
            }
        }
    }
}

/// The child combinator moves to the parents: whatever it gives is the
/// parent of a candidate, and every candidate with a parent gives it.
pub proof fn law_child_gives_the_parents<S: StyleNode>(candidates: Seq<S>)
    ensures
        forall|j: int|
            #![trigger eval_spec(Combinator::Child, candidates)[j]]
            0 <= j < eval_spec(Combinator::Child, candidates).len() ==> exists|i: int|
                0 <= i < candidates.len() && #[trigger] candidates[i].spec_parent() == Some(
                    eval_spec(Combinator::Child, candidates)[j],
                ),
        forall|i: int|
            0 <= i < candidates.len() && (#[trigger] candidates[i].spec_parent()) is Some ==> eval_spec(
                Combinator::Child,
                candidates,
            ).contains(candidates[i].spec_parent().unwrap()),
    decreases candidates.len(),
{
    if candidates.len() > 0 {
        let init = candidates.drop_last();
        law_child_gives_the_parents(init);
        let r = all_parents(candidates);
        let ri = all_parents(init);
        assert forall|j: int| #![trigger r[j]] 0 <= j < r.len() implies exists|i: int|
            0 <= i < candidates.len() && #[trigger] candidates[i].spec_parent() == Some(r[j]) by {
            assert(eval_spec(Combinator::Child, init) == ri);
            if j < ri.len() {
                assert(r[j] == ri[j]);
                assert(eval_spec(Combinator::Child, init)[j] == ri[j]);
                let i = choose|i: int| 0 <= i < init.len() && #[trigger] init[i].spec_parent() == Some(ri[j]);
                assert(candidates[i] == init[i]);
                assert(candidates[i].spec_parent() == Some(r[j]));
            } else {
                assert(candidates[candidates.len() - 1] == candidates.last());
                assert(candidates.last().spec_parent() == Some(r[j]));
                assert(candidates[candidates.len() - 1].spec_parent() == Some(r[j]));
            }
        }
        assert forall|i: int|
            0 <= i < candidates.len() && (#[trigger] candidates[i].spec_parent()) is Some implies r.contains(
            candidates[i].spec_parent().unwrap(),
        ) by {
            if i < candidates.len() - 1 {
                assert(init[i] == candidates[i]);
                let m = choose|m: int| 0 <= m < ri.len() && ri[m] == init[i].spec_parent().unwrap();
                assert(r[m] == ri[m]);
            } else {
                assert(r[r.len() - 1] == candidates.last().spec_parent().unwrap());
            }
        }
    }
}
} // verus!
