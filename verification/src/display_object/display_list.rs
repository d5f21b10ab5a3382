//! A clip's display list: the objects at each depth, and how PlaceObject
//! tags change them.

use crate::display_object::goto::{ColorTransform, Depth, Matrix, PlaceObject, PlaceObjectAction, PlaceObjectView};
use crate::display_object::movie_clip::DisplayObjectId;
use std::collections::BTreeMap;
use vstd::prelude::*;

verus! {

broadcast use {vstd::laws_cmp::group_laws_cmp, vstd::std_specs::btree::group_btree_axioms};

/// An object on the display list, with the display properties that
/// placements set.
#[derive(Clone, Debug)]
pub struct DisplayedObject {
    /// The character it is an instance of.
    pub character_id: u16,
    pub matrix: Matrix,
    pub color_transform: ColorTransform,
    pub name: String,
    pub clip_depth: Depth,
    /// Morph shapes show the blend at `ratio` between their two shapes.
    pub is_morph_shape: bool,
    pub ratio: u16,
}

/// The mathematical form of a [`DisplayedObject`].
pub ghost struct DisplayedObjectView {
    pub character_id: u16,
    pub matrix: Matrix,
    pub color_transform: ColorTransform,
    pub name: Seq<char>,
    pub clip_depth: Depth,
    pub is_morph_shape: bool,
    pub ratio: u16,
}

impl View for DisplayedObject {
    type V = DisplayedObjectView;

    open spec fn view(&self) -> DisplayedObjectView {
        DisplayedObjectView {
            character_id: self.character_id,
            matrix: self.matrix,
            color_transform: self.color_transform,
            name: self.name@,
            clip_depth: self.clip_depth,
            is_morph_shape: self.is_morph_shape,
            ratio: self.ratio,
        }
    }
}

/// An object with the properties a placement gives applied: each property
/// the placement sets replaces the object's; a ratio applies to morph
/// shapes only.
pub open spec fn applied(obj: DisplayedObjectView, p: PlaceObjectView) -> DisplayedObjectView {
    DisplayedObjectView {
        matrix: p.matrix.unwrap_or(obj.matrix),
        color_transform: p.color_transform.unwrap_or(obj.color_transform),
        name: p.name.unwrap_or(obj.name),
        ratio: if obj.is_morph_shape && p.ratio is Some {
            p.ratio.unwrap()
        } else {
            obj.ratio
        },
        clip_depth: p.clip_depth.unwrap_or(obj.clip_depth),
        ..obj
    }
}

/// A new instance that replaces an object keeps the object's transform.
pub open spec fn replacing(new: DisplayedObjectView, prev: DisplayedObjectView) -> DisplayedObjectView {
    DisplayedObjectView { matrix: prev.matrix, color_transform: prev.color_transform, ..new }
}

/// The display list after a placement. `instance` is the new instance of
/// the placement's character, `None` where it cannot be instantiated: the
/// list then stays as it is. A modification applies to the object at its
/// depth, if there is one.
pub open spec fn placed_on(
    list: Map<Depth, DisplayedObjectView>,
    p: PlaceObjectView,
    instance: Option<DisplayedObjectView>,
) -> Map<Depth, DisplayedObjectView> {
    match p.action {
        PlaceObjectAction::Place(_) => match instance {
            Some(o) => list.insert(p.depth, applied(o, p)),
            None => list,
        },
        PlaceObjectAction::Modify => if list.contains_key(p.depth) {
            list.insert(p.depth, applied(list[p.depth], p))
        } else {
            list
        },
        PlaceObjectAction::Replace(_) => match instance {
            Some(o) => list.insert(
                p.depth,
                applied(
                    if list.contains_key(p.depth) {
                        replacing(o, list[p.depth])
                    } else {
                        o
                    },
                    p,
                ),
            ),
            None => list,
        },
    }
}

/// Apply the display properties of a placement to an object.
pub fn apply_place_object(obj: &mut DisplayedObject, place: &PlaceObject)
    ensures
        final(obj)@ == applied(old(obj)@, place@),
{
    if let Some(matrix) = place.matrix {
        obj.matrix = matrix;
    }
    if let Some(color_transform) = place.color_transform {
        obj.color_transform = color_transform;
    }
    if let Some(name) = &place.name {
        obj.name = String::from_str(name.as_str());
    }
    if let Some(ratio) = place.ratio {
        if obj.is_morph_shape {
            obj.ratio = ratio;
        }
    }
    if let Some(clip_depth) = place.clip_depth {
        obj.clip_depth = clip_depth;
    }
}

/// The objects of a clip's display list, by depth.
pub struct DisplayList {
    children: BTreeMap<Depth, DisplayedObject>,
}

impl View for DisplayList {
    type V = Map<Depth, DisplayedObjectView>;

    closed spec fn view(&self) -> Map<Depth, DisplayedObjectView> {
        self.children@.map_values(|o: DisplayedObject| o@)
    }
}

impl DisplayList {
    /// An empty display list.
    pub fn new() -> (r: Self)
        ensures
            r@ == Map::<Depth, DisplayedObjectView>::empty(),
    {
        let r = DisplayList { children: BTreeMap::new() };
        assert(r@ =~= Map::<Depth, DisplayedObjectView>::empty());
        r
    }

    /// The object at a depth.
    pub fn get(&self, depth: Depth) -> (r: Option<&DisplayedObject>)
        ensures
            match r {
                Some(o) => self@.contains_key(depth) && o@ == self@[depth],
                None => !self@.contains_key(depth),
            },
    {
        self.children.get(&depth)
    }

    /// Remove every object.
    pub fn clear(&mut self)
        ensures
            final(self)@ == Map::<Depth, DisplayedObjectView>::empty(),
    {
        self.children = BTreeMap::new();
        assert(self@ =~= Map::<Depth, DisplayedObjectView>::empty());
    }

    /// Carry out a PlaceObject tag. `instance` is the new instance of the
    /// tag's character for a placement or replacement, `None` where the
    /// character cannot be instantiated.
    pub fn place_object(&mut self, place: &PlaceObject, instance: Option<DisplayedObject>)
        ensures
            final(self)@ == placed_on(
                old(self)@,
                place@,
                match instance {
                    Some(o) => Some(o@),
                    None => None,
                },
            ),
    {
        let ghost before = self@;
        let depth = place.depth;
        match place.action {
            PlaceObjectAction::Place(_) => {
                if let Some(mut character) = instance {
                    apply_place_object(&mut character, place);
                    let ghost v = character@;
                    self.children.insert(depth, character);
                    proof {
                        assert(self@ =~= before.insert(depth, v));
                    }
                }
            },
            PlaceObjectAction::Modify => {
                if let Some(mut child) = self.children.remove(&depth) {
                    apply_place_object(&mut child, place);
                    let ghost v = child@;
                    self.children.insert(depth, child);
                    proof {
                        assert(self@ =~= before.insert(depth, v));
                    }
                } else {
                    proof {
                        assert(self@ =~= before);
                    }
                }
            },
            PlaceObjectAction::Replace(_) => {
                if let Some(mut character) = instance {
                    match self.children.get(&depth) {
                        Some(prev) => {
                            character.matrix = prev.matrix;
                            character.color_transform = prev.color_transform;
                        },
                        None => {},
                    }
                    apply_place_object(&mut character, place);
                    let ghost v = character@;
                    self.children.insert(depth, character);
                    proof {
                        assert(self@ =~= before.insert(depth, v));
                    }
                }
            },
        }
    }

    /// Carry out a RemoveObject tag: the object at the depth goes, and is
    /// returned.
    pub fn remove_object(&mut self, depth: Depth) -> (r: Option<DisplayedObject>)
        ensures
            final(self)@ == old(self)@.remove(depth),
            match r {
                Some(o) => old(self)@.contains_key(depth) && o@ == old(self)@[depth],
                None => !old(self)@.contains_key(depth),
            },
    {
        let ghost before = self@;
        let r = self.children.remove(&depth);
        proof {
            assert(self@ =~= before.remove(depth));
        }
        r
    }
}

/// A modification that sets nothing leaves the display list as it is.
pub proof fn law_empty_modify_changes_nothing(list: Map<Depth, DisplayedObjectView>, p: PlaceObjectView)
    requires
        p.action is Modify,
        p.matrix is None,
        p.color_transform is None,
        p.name is None,
        p.ratio is None,
        p.clip_depth is None,
    ensures
        placed_on(list, p, None) == list,
{
    if list.contains_key(p.depth) {
        assert(applied(list[p.depth], p) == list[p.depth]);
        assert(list.insert(p.depth, list[p.depth]) =~= list);
    }
}

/// A replacement keeps the transform of the object it replaces unless it
/// sets one itself, and takes the new character.
pub proof fn law_replace_keeps_transform(
    list: Map<Depth, DisplayedObjectView>,
    p: PlaceObjectView,
    instance: DisplayedObjectView,
)
    requires
        p.action is Replace,
        list.contains_key(p.depth),
        p.matrix is None,
        p.color_transform is None,
    ensures
        placed_on(list, p, Some(instance))[p.depth].matrix == list[p.depth].matrix,
        placed_on(list, p, Some(instance))[p.depth].color_transform == list[p.depth].color_transform,
        placed_on(list, p, Some(instance))[p.depth].character_id == instance.character_id,
{
}

/// The list without the first occurrence of `child`, if it has one.
pub open spec fn without_child(list: Seq<DisplayObjectId>, child: DisplayObjectId) -> Seq<DisplayObjectId>
    decreases list.len(),
{
    if list.len() == 0 {
        list
    } else if list[0] == child {
        list.skip(1)
    } else {
        seq![list[0]] + without_child(list.skip(1), child)
    }
}

/// The order in which a clip's children run their frames: the child added
/// last runs first. It does not decide the rendering order.
pub struct ExecList {
    children: Vec<DisplayObjectId>,
}

impl View for ExecList {
    type V = Seq<DisplayObjectId>;

    closed spec fn view(&self) -> Seq<DisplayObjectId> {
        self.children@
    }
}

impl ExecList {
    /// An empty execution list.
    pub fn new() -> (r: Self)
        ensures
            r@ == Seq::<DisplayObjectId>::empty(),
    {
        ExecList { children: Vec::new() }
    }

    /// The children, in execution order.
    pub fn children(&self) -> (r: &Vec<DisplayObjectId>)
        ensures
            r@ == self@,
    {
        &self.children
    }

    /// Add a child to the front of the execution list.
    pub fn add_child_to_exec_list(&mut self, child: DisplayObjectId)
        ensures
            final(self)@ == seq![child] + old(self)@,
    {
        self.children.insert(0, child);
        assert(self@ =~= seq![child] + old(self)@);
    }

    /// Remove a child from the execution list; a child that is not in it
    /// leaves it as it is.
    pub fn remove_child_from_exec_list(&mut self, child: DisplayObjectId)
        ensures
            final(self)@ == without_child(old(self)@, child),
    {
        let ghost before = self@;
        let mut i: usize = 0;
        proof {
            assert(before.skip(0) =~= before);
        }
        while i < self.children.len()
            invariant
                before == old(self)@,
                self@ == before,
                i <= before.len(),
                forall|k: int| 0 <= k < i ==> before[k] != child,
                without_child(before, child) == before.take(i as int) + without_child(before.skip(i as int), child),
            decreases before.len() - i,
        {
            proof {
                assert(before.skip(i as int).skip(1) =~= before.skip(i + 1));
                assert(before.skip(i as int)[0] == before[i as int]);
            }
            if self.children[i] == child {
                self.children.remove(i);
                proof {
                    assert(self@ =~= before.take(i as int) + before.skip(i as int).skip(1));
                    assert(without_child(before.skip(i as int), child) == before.skip(i as int).skip(1));
                }
                return;
            }
            proof {
                assert(before.take(i as int) + (seq![before[i as int]] + without_child(before.skip(i + 1), child))
                    =~= before.take(i + 1) + without_child(before.skip(i + 1), child));
            }
            i = i + 1;
        }
        proof {
            assert(before.skip(i as int) =~= Seq::<DisplayObjectId>::empty());
            assert(before.take(i as int) =~= before);
        }
    }
}

/// Adding a child and removing it again restores the execution list.
pub proof fn law_add_then_remove_restores(list: Seq<DisplayObjectId>, child: DisplayObjectId)
    ensures
        without_child(seq![child] + list, child) == list,
{
    assert((seq![child] + list).skip(1) =~= list);
}


/// Applying a placement to an object: each display property the placement
/// gives becomes the object's, each it leaves out stays as it was, a ratio
/// changes morph shapes only, and the object stays an instance of the same
/// character.
pub proof fn law_placement_sets_given_properties(obj: DisplayedObjectView, p: PlaceObjectView)
    ensures
        ({
            let r = applied(obj, p);
            &&& p.matrix matches Some(m) ==> r.matrix == m
            &&& p.matrix is None ==> r.matrix == obj.matrix
            &&& p.color_transform matches Some(c) ==> r.color_transform == c
            &&& p.color_transform is None ==> r.color_transform == obj.color_transform
            &&& p.name matches Some(n) ==> r.name == n
            &&& p.name is None ==> r.name == obj.name
            &&& p.clip_depth matches Some(d) ==> r.clip_depth == d
            &&& p.clip_depth is None ==> r.clip_depth == obj.clip_depth
            &&& obj.is_morph_shape ==> (p.ratio matches Some(q) ==> r.ratio == q)
            &&& (p.ratio is None || !obj.is_morph_shape) ==> r.ratio == obj.ratio
            &&& r.character_id == obj.character_id
            &&& r.is_morph_shape == obj.is_morph_shape
        }),
{
}

/// A placement changes its own depth only: every other depth keeps its
/// object. A placement or replacement whose character was instantiated
/// leaves an object at its depth, and a modification where there is an
/// object leaves it there with the placement's properties applied.
pub proof fn law_placement_touches_only_its_depth(
    list: Map<Depth, DisplayedObjectView>,
    p: PlaceObjectView,
    instance: Option<DisplayedObjectView>,
    other: Depth,
)
    ensures
        other != p.depth ==> (placed_on(list, p, instance).contains_key(other) == list.contains_key(other) && (
        list.contains_key(other) ==> placed_on(list, p, instance)[other] == list[other])),
        !(p.action is Modify) && instance is Some ==> placed_on(list, p, instance).contains_key(p.depth),
        p.action is Modify && list.contains_key(p.depth) ==> placed_on(list, p, instance)[p.depth] == applied(
            list[p.depth],
            p,
        ),
        p.action is Modify && !list.contains_key(p.depth) ==> placed_on(list, p, instance) == list,
{
}
} // verus!
