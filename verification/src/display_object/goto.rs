//! The placement commands that a goto aggregates.
//!
//! A movie clip's timeline is stored as deltas from frame to frame, so a
//! goto steps through the frames up to its target. Objects that would
//! persist over the goto should keep their properties, and objects should
//! not be created just to be destroyed again: the PlaceObject and
//! RemoveObject tags met on the way are aggregated into one command per
//! depth, and the display list is changed once, at the end.

use smallvec::SmallVec;
use vstd::prelude::*;

verus! {

/// A character depth in a display list.
pub type Depth = i16;

/// A frame number, counted from 1.
pub type FrameNumber = u16;

/// What a PlaceObject tag does at its depth.
#[derive(Clone, Copy, Debug, PartialEq, Eq, Structural)]
pub enum PlaceObjectAction {
    /// Place a new instance of a character.
    Place(u16),
    /// Change the properties of the object there.
    Modify,
    /// Replace the object there by an instance of a character.
    Replace(u16),
}

/// A 2D transform. Scale and skew are `f32` values, held as their bits;
/// the translation is in twips.
#[derive(Clone, Copy, Debug, PartialEq, Eq, Structural)]
pub struct Matrix {
    pub scale_x: u32,
    pub scale_y: u32,
    pub rotate_skew_0: u32,
    pub rotate_skew_1: u32,
    pub translate_x: i32,
    pub translate_y: i32,
}

/// The bits of the `f32` value 1.0.
pub const ONE_F32_BITS: u32 = 0x3F80_0000u32;

/// The identity transform.
pub open spec fn identity_matrix() -> Matrix {
    Matrix {
        scale_x: ONE_F32_BITS,
        scale_y: ONE_F32_BITS,
        rotate_skew_0: 0,
        rotate_skew_1: 0,
        translate_x: 0,
        translate_y: 0,
    }
}

impl Default for Matrix {
    fn default() -> (r: Self)
        ensures
            r == identity_matrix(),
    {
        Matrix {
            scale_x: ONE_F32_BITS,
            scale_y: ONE_F32_BITS,
            rotate_skew_0: 0,
            rotate_skew_1: 0,
            translate_x: 0,
            translate_y: 0,
        }
    }
}

/// A colour transform: `f32` multipliers, held as their bits, and additions.
#[derive(Clone, Copy, Debug, PartialEq, Eq, Structural)]
pub struct ColorTransform {
    pub r_multiply: u32,
    pub g_multiply: u32,
    pub b_multiply: u32,
    pub a_multiply: u32,
    pub r_add: i16,
    pub g_add: i16,
    pub b_add: i16,
    pub a_add: i16,
}

/// The colour transform that changes nothing.
pub open spec fn identity_color_transform() -> ColorTransform {
    ColorTransform {
        r_multiply: ONE_F32_BITS,
        g_multiply: ONE_F32_BITS,
        b_multiply: ONE_F32_BITS,
        a_multiply: ONE_F32_BITS,
        r_add: 0,
        g_add: 0,
        b_add: 0,
        a_add: 0,
    }
}

impl Default for ColorTransform {
    fn default() -> (r: Self)
        ensures
            r == identity_color_transform(),
    {
        ColorTransform {
            r_multiply: ONE_F32_BITS,
            g_multiply: ONE_F32_BITS,
            b_multiply: ONE_F32_BITS,
            a_multiply: ONE_F32_BITS,
            r_add: 0,
            g_add: 0,
            b_add: 0,
            a_add: 0,
        }
    }
}

/// An RGBA colour.
#[derive(Clone, Copy, Debug, PartialEq, Eq, Structural)]
pub struct Color {
    pub r: u8,
    pub g: u8,
    pub b: u8,
    pub a: u8,
}

/// A PlaceObject tag: what it does at its depth, and the display
/// properties it sets.
#[derive(Clone, Debug)]
pub struct PlaceObject {
    pub version: u8,
    pub action: PlaceObjectAction,
    pub depth: Depth,
    pub matrix: Option<Matrix>,
    pub color_transform: Option<ColorTransform>,
    pub ratio: Option<u16>,
    pub name: Option<String>,
    pub clip_depth: Option<Depth>,
    pub class_name: Option<String>,
    pub background_color: Option<Color>,
}

/// The view of an optional string.
pub open spec fn opt_str(s: Option<String>) -> Option<Seq<char>> {
    match s {
        Some(t) => Some(t@),
        None => None,
    }
}

/// The mathematical form of a [`PlaceObject`].
pub ghost struct PlaceObjectView {
    pub version: u8,
    pub action: PlaceObjectAction,
    pub depth: Depth,
    pub matrix: Option<Matrix>,
    pub color_transform: Option<ColorTransform>,
    pub ratio: Option<u16>,
    pub name: Option<Seq<char>>,
    pub clip_depth: Option<Depth>,
    pub class_name: Option<Seq<char>>,
    pub background_color: Option<Color>,
}

impl View for PlaceObject {
    type V = PlaceObjectView;

    open spec fn view(&self) -> PlaceObjectView {
        PlaceObjectView {
            version: self.version,
            action: self.action,
            depth: self.depth,
            matrix: self.matrix,
            color_transform: self.color_transform,
            ratio: self.ratio,
            name: opt_str(self.name),
            clip_depth: self.clip_depth,
            class_name: opt_str(self.class_name),
            background_color: self.background_color,
        }
    }
}

fn duplicate_str(s: &Option<String>) -> (r: Option<String>)
    ensures
        opt_str(r) == opt_str(*s),
{
    match s {
        Some(t) => Some(t.clone()),
        None => None,
    }
}

impl PlaceObject {
    /// A copy of the tag.
    pub fn duplicate(&self) -> (r: PlaceObject)
        ensures
            r@ == self@,
    {
        PlaceObject {
            version: self.version,
            action: self.action,
            depth: self.depth,
            matrix: self.matrix,
            color_transform: self.color_transform,
            ratio: self.ratio,
            name: duplicate_str(&self.name),
            clip_depth: self.clip_depth,
            class_name: duplicate_str(&self.class_name),
            background_color: self.background_color,
        }
    }
}

/// A display tag of a frame, as a goto reads it.
#[derive(Clone, Debug)]
pub enum GotoTag {
    /// A PlaceObject tag.
    Place(PlaceObject),
    /// A RemoveObject tag, at its depth.
    Remove(Depth),
}

/// The mathematical form of a [`GotoTag`].
pub ghost enum GotoTagView {
    Place(PlaceObjectView),
    Remove(Depth),
}

impl View for GotoTag {
    type V = GotoTagView;

    open spec fn view(&self) -> GotoTagView {
        match self {
            GotoTag::Place(p) => GotoTagView::Place(p@),
            GotoTag::Remove(d) => GotoTagView::Remove(*d),
        }
    }
}

/// The display tags of one frame of a timeline, with the position in the
/// tag stream at which the frame starts.
#[derive(Clone, Debug)]
pub struct FrameTags {
    pub start: u64,
    pub tags: Vec<GotoTag>,
}

/// The views of a list of tags.
pub open spec fn tags_view(tags: Seq<GotoTag>) -> Seq<GotoTagView> {
    tags.map_values(|t: GotoTag| t@)
}

/// The views of the frames of a timeline: start position and tags.
pub open spec fn frames_view(frames: Seq<FrameTags>) -> Seq<(u64, Seq<GotoTagView>)> {
    frames.map_values(|f: FrameTags| (f.start, tags_view(f.tags@)))
}

/// The number of tags in the first `k` frames.
pub open spec fn tags_before(frames: Seq<(u64, Seq<GotoTagView>)>, k: int) -> nat
    decreases k,
{
    if k <= 0 {
        0
    } else {
        tags_before(frames, k - 1) + frames[k - 1].1.len()
    }
}

/// More frames hold no fewer tags.
pub proof fn lemma_tags_before_monotone(frames: Seq<(u64, Seq<GotoTagView>)>, a: int, b: int)
    requires
        a <= b,
    ensures
        tags_before(frames, a) <= tags_before(frames, b),
    decreases b - a,
{
    if a < b {
        lemma_tags_before_monotone(frames, a, b - 1);
    }
}

/// The properties that a rewind sets to their defaults where a placement
/// leaves them out: a rewind starts from an empty display list, so an
/// object that persists must lose what earlier frames gave it.
pub open spec fn with_rewind_defaults(p: PlaceObjectView, is_rewind: bool) -> PlaceObjectView {
    if is_rewind && p.action is Place {
        PlaceObjectView {
            matrix: Some(p.matrix.unwrap_or(identity_matrix())),
            color_transform: Some(p.color_transform.unwrap_or(identity_color_transform())),
            ratio: Some(p.ratio.unwrap_or(0)),
            name: Some(p.name.unwrap_or(Seq::empty())),
            clip_depth: Some(p.clip_depth.unwrap_or(0)),
            class_name: Some(p.class_name.unwrap_or(Seq::empty())),
            ..p
        }
    } else {
        p
    }
}

/// The aggregated placement of one depth.
#[derive(Debug)]
pub struct GotoPlaceObject {
    /// The frame on which this character was first placed.
    pub frame: FrameNumber,
    /// The display properties of the object.
    pub place_object: PlaceObject,
    /// Increasing index of this place command, for ordering.
    pub index: usize,
}

/// The mathematical form of a [`GotoPlaceObject`].
pub ghost struct GotoView {
    pub frame: FrameNumber,
    pub place_object: PlaceObjectView,
    pub index: usize,
}

impl View for GotoPlaceObject {
    type V = GotoView;

    open spec fn view(&self) -> GotoView {
        GotoView { frame: self.frame, place_object: self.place_object@, index: self.index }
    }
}

/// The character a command instantiates: 0 where it only modifies.
pub open spec fn command_id(p: PlaceObjectView) -> u16 {
    match p.action {
        PlaceObjectAction::Place(id) => id,
        PlaceObjectAction::Replace(id) => id,
        PlaceObjectAction::Modify => 0,
    }
}

/// The later optional value where it is given, else the earlier one.
pub open spec fn latest<T>(cur: Option<T>, next: Option<T>) -> Option<T> {
    if next is Some {
        next
    } else {
        cur
    }
}

/// A later placement at the same depth merged into an earlier one: a
/// modification keeps the action and the frame of the earlier placement,
/// another action takes over with its frame; each property given later
/// replaces the earlier one.
pub open spec fn merged(cur: GotoView, next: GotoView) -> GotoView {
    let c = cur.place_object;
    let n = next.place_object;
    GotoView {
        frame: if n.action is Modify {
            cur.frame
        } else {
            next.frame
        },
        place_object: PlaceObjectView {
            action: if n.action is Modify {
                c.action
            } else {
                n.action
            },
            matrix: latest(c.matrix, n.matrix),
            color_transform: latest(c.color_transform, n.color_transform),
            ratio: latest(c.ratio, n.ratio),
            name: latest(c.name, n.name),
            clip_depth: latest(c.clip_depth, n.clip_depth),
            class_name: latest(c.class_name, n.class_name),
            background_color: latest(c.background_color, n.background_color),
            ..c
        },
        index: cur.index,
    }
}

impl GotoPlaceObject {
    /// The command of a PlaceObject tag met on `frame`.
    pub fn new(frame: FrameNumber, place_object: PlaceObject, is_rewind: bool, index: usize) -> (r: Self)
        ensures
            r@ == (GotoView { frame, place_object: with_rewind_defaults(place_object@, is_rewind), index }),
    {
        let mut place_object = place_object;
        if is_rewind {
            if let PlaceObjectAction::Place(_) = place_object.action {
                if place_object.matrix.is_none() {
                    place_object.matrix = Some(Matrix::default());
                }
                if place_object.color_transform.is_none() {
                    place_object.color_transform = Some(ColorTransform::default());
                }
                if place_object.ratio.is_none() {
                    place_object.ratio = Some(0);
                }
                if place_object.name.is_none() {
                    place_object.name = Some(String::new());
                }
                if place_object.clip_depth.is_none() {
                    place_object.clip_depth = Some(0);
                }
                if place_object.class_name.is_none() {
                    place_object.class_name = Some(String::new());
                }
            }
        }
        GotoPlaceObject { frame, place_object, index }
    }

    /// The character to instantiate; 0 where the command only modifies.
    pub fn id(&self) -> (r: u16)
        ensures
            r == command_id(self@.place_object),
    {
        match self.place_object.action {
            PlaceObjectAction::Place(id) => id,
            PlaceObjectAction::Replace(id) => id,
            PlaceObjectAction::Modify => 0,
        }
    }

    /// Whether the command replaces the object at its depth.
    pub fn modifies_original_item(&self) -> (r: bool)
        ensures
            r == (self@.place_object.action is Replace),
    {
        if let PlaceObjectAction::Replace(_) = self.place_object.action {
            true
        } else {
            false
        }
    }

    /// The depth the command places at.
    pub fn depth(&self) -> (r: Depth)
        ensures
            r == self@.place_object.depth,
    {
        self.place_object.depth
    }

    /// Merge a later placement at the same depth into this one.
    pub fn merge(&mut self, next: &mut GotoPlaceObject)
        ensures
            final(self)@ == merged(old(self)@, old(next)@),
    {
        let cur_place = &mut self.place_object;
        let next_place = &mut next.place_object;
        match next_place.action {
            PlaceObjectAction::Modify => {},
            new => {
                cur_place.action = new;
                self.frame = next.frame;
            },
        }
        if next_place.matrix.is_some() {
            cur_place.matrix = next_place.matrix.take();
        }
        if next_place.color_transform.is_some() {
            cur_place.color_transform = next_place.color_transform.take();
        }
        if next_place.ratio.is_some() {
            cur_place.ratio = next_place.ratio.take();
        }
        if next_place.name.is_some() {
            cur_place.name = next_place.name.take();
        }
        if next_place.clip_depth.is_some() {
            cur_place.clip_depth = next_place.clip_depth.take();
        }
        if next_place.class_name.is_some() {
            cur_place.class_name = next_place.class_name.take();
        }
        if next_place.background_color.is_some() {
            cur_place.background_color = next_place.background_color.take();
        }
    }
}


/// The index of the first command from `from` at a depth, or the number of commands.
pub open spec fn depth_index(cmds: Seq<GotoView>, depth: Depth, from: int) -> int
    decreases cmds.len() - from,
{
    if from < 0 || from >= cmds.len() {
        cmds.len() as int
    } else if cmds[from].place_object.depth == depth {
        from
    } else {
        depth_index(cmds, depth, from + 1)
    }
}

/// The commands after a placement: merged into the command at its depth,
/// or appended.
pub open spec fn placed(cmds: Seq<GotoView>, g: GotoView) -> Seq<GotoView> {
    let i = depth_index(cmds, g.place_object.depth, 0);
    if i < cmds.len() {
        cmds.update(i, merged(cmds[i], g))
    } else {
        cmds.push(g)
    }
}

/// The commands after a removal: the command at the depth is dropped.
pub open spec fn removed(cmds: Seq<GotoView>, depth: Depth) -> Seq<GotoView> {
    let i = depth_index(cmds, depth, 0);
    if i < cmds.len() {
        cmds.remove(i)
    } else {
        cmds
    }
}

/// The commands are ordered by index, and each depth has one command.
pub open spec fn commands_wf(cmds: Seq<GotoView>) -> bool {
    &&& forall|i: int, j: int| 0 <= i < j < cmds.len() ==> #[trigger] cmds[i].index < #[trigger] cmds[j].index
    &&& forall|i: int, j: int|
        0 <= i < cmds.len() && 0 <= j < cmds.len() && i != j ==> #[trigger] cmds[i].place_object.depth
            != #[trigger] cmds[j].place_object.depth
}

/// The commands of objects first placed before `frame`, in order.
pub open spec fn placed_before(cmds: Seq<GotoView>, frame: FrameNumber) -> Seq<GotoView>
    decreases cmds.len(),
{
    if cmds.len() == 0 {
        Seq::empty()
    } else {
        (if cmds[0].frame < frame {
            seq![cmds[0]]
        } else {
            Seq::empty()
        }) + placed_before(cmds.skip(1), frame)
    }
}

/// The commands of objects first placed on or after `frame`, in order.
pub open spec fn placed_from(cmds: Seq<GotoView>, frame: FrameNumber) -> Seq<GotoView>
    decreases cmds.len(),
{
    if cmds.len() == 0 {
        Seq::empty()
    } else {
        (if cmds[0].frame >= frame {
            seq![cmds[0]]
        } else {
            Seq::empty()
        }) + placed_from(cmds.skip(1), frame)
    }
}

proof fn lemma_depth_index(cmds: Seq<GotoView>, depth: Depth, from: int)
    requires
        0 <= from,
    ensures
        ({
            let i = depth_index(cmds, depth, from);
            &&& (from <= i < cmds.len() ==> cmds[i].place_object.depth == depth)
            &&& (from <= i <= cmds.len() || i == cmds.len())
            &&& forall|k: int| from <= k < i && k < cmds.len() ==> (#[trigger] cmds[k]).place_object.depth != depth
        }),
    decreases cmds.len() - from,
{
    if from < cmds.len() && cmds[from].place_object.depth != depth {
        lemma_depth_index(cmds, depth, from + 1);
    }
}

proof fn lemma_depth_index_at(cmds: Seq<GotoView>, depth: Depth, from: int, i: int)
    requires
        0 <= from <= i <= cmds.len(),
        forall|k: int| from <= k < i ==> (#[trigger] cmds[k]).place_object.depth != depth,
        i < cmds.len() ==> cmds[i].place_object.depth == depth,
    ensures
        depth_index(cmds, depth, from) == i,
    decreases i - from,
{
    if from < i {
        lemma_depth_index_at(cmds, depth, from + 1, i);
    }
}

/// The views of a list of commands.
pub open spec fn commands_view(v: Seq<GotoPlaceObject>) -> Seq<GotoView> {
    v.map_values(|g: GotoPlaceObject| g@)
}

/// The placement commands of a goto, one per depth, ordered by index.
pub struct GotoCommands {
    commands: Vec<GotoPlaceObject>,
    next_index: usize,
}

impl View for GotoCommands {
    type V = Seq<GotoView>;

    closed spec fn view(&self) -> Seq<GotoView> {
        commands_view(self.commands@)
    }
}

impl GotoCommands {
    /// The index the next placement gets.
    pub closed spec fn next_index(&self) -> usize {
        self.next_index
    }

    /// The commands are ordered by index, each depth has one, and every
    /// index so far is below the next one.
    pub closed spec fn wf(&self) -> bool {
        &&& commands_wf(self@)
        &&& forall|i: int| 0 <= i < self@.len() ==> (#[trigger] self@[i]).index < self.next_index
    }

    /// No commands yet; the first placement gets index 1.
    pub fn new() -> (r: Self)
        ensures
            r@ == Seq::<GotoView>::empty(),
            r.next_index() == 1,
            r.wf(),
    {
        let r = GotoCommands { commands: Vec::new(), next_index: 1 };
        assert(r@ =~= Seq::<GotoView>::empty());
        r
    }

    /// The position of the command at a depth, or the number of commands.
    fn position(&self, depth: Depth) -> (r: usize)
        ensures
            r == depth_index(self@, depth, 0),
    {
        let mut i: usize = 0;
        while i < self.commands.len()
            invariant
                i <= self@.len(),
                self@.len() == self.commands@.len(),
                forall|k: int| 0 <= k < i ==> (#[trigger] self@[k]).place_object.depth != depth,
            decreases self@.len() - i,
        {
            if self.commands[i].depth() == depth {
                proof {
                    lemma_depth_index_at(self@, depth, 0, i as int);
                }
                return i;
            }
            i = i + 1;
        }
        proof {
            lemma_depth_index_at(self@, depth, 0, i as int);
        }
        i
    }

    /// A PlaceObject tag met on `frame`: its command is merged into the
    /// command at its depth, or added with the next index.
    pub fn place_object(&mut self, frame: FrameNumber, place_object: PlaceObject, is_rewind: bool)
        requires
            old(self).wf(),
            old(self).next_index() < usize::MAX,
        ensures
            final(self)@ == placed(
                old(self)@,
                GotoView {
                    frame,
                    place_object: with_rewind_defaults(place_object@, is_rewind),
                    index: old(self).next_index(),
                },
            ),
            final(self).next_index() == old(self).next_index() + 1,
            final(self).wf(),
    {
        let ghost before = self@;
        let index = self.next_index;
        let mut goto_place = GotoPlaceObject::new(frame, place_object, is_rewind, index);
        let depth = goto_place.depth();
        let i = self.position(depth);
        proof {
            lemma_depth_index(before, depth, 0);
        }
        let ghost g = goto_place@;
        if i < self.commands.len() {
            let mut cur = self.commands.remove(i);
            cur.merge(&mut goto_place);
            self.commands.insert(i, cur);
            proof {
                assert(self@ =~= before.update(i as int, merged(before[i as int], g)));
            }
        } else {
            self.commands.push(goto_place);
            proof {
                assert(self@ =~= before.push(goto_place@));
            }
        }
        self.next_index = index + 1;
        proof {
            let after = self@;
            assert forall|a: int, b: int| 0 <= a < b < after.len() implies #[trigger] after[a].index < #[trigger] after[b].index by {
                if b < before.len() {
                    assert(before[a].index < before[b].index);
                } else {
                    assert(before[a].index < index);
                }
            }
            assert forall|a: int, b: int|
                0 <= a < after.len() && 0 <= b < after.len() && a != b implies #[trigger] after[a].place_object.depth
                    != #[trigger] after[b].place_object.depth by {
                if a < before.len() && b < before.len() {
                    assert(before[a].place_object.depth != before[b].place_object.depth);
                }
            }
            assert forall|a: int| 0 <= a < after.len() implies (#[trigger] after[a]).index < self.next_index by {
                if a < before.len() {
                    assert(before[a].index < index);
                }
            }
        }
    }

    /// A RemoveObject tag: the command at its depth is dropped.
    pub fn remove_object(&mut self, depth: Depth)
        requires
            old(self).wf(),
        ensures
            final(self)@ == removed(old(self)@, depth),
            final(self).next_index() == old(self).next_index(),
            final(self).wf(),
    {
        let ghost before = self@;
        let i = self.position(depth);
        if i < self.commands.len() {
            self.commands.remove(i);
            proof {
                assert(self@ =~= before.remove(i as int));
                let after = self@;
                assert forall|a: int, b: int| 0 <= a < b < after.len() implies #[trigger] after[a].index
                    < #[trigger] after[b].index by {
                    let a0 = if a < i { a } else { a + 1 };
                    let b0 = if b < i { b } else { b + 1 };
                    assert(after[a] == before[a0] && after[b] == before[b0]);
                    assert(before[a0].index < before[b0].index);
                }
                assert forall|a: int, b: int|
                    0 <= a < after.len() && 0 <= b < after.len() && a != b implies #[trigger] after[a].place_object.depth
                        != #[trigger] after[b].place_object.depth by {
                    let a0 = if a < i { a } else { a + 1 };
                    let b0 = if b < i { b } else { b + 1 };
                    assert(after[a] == before[a0] && after[b] == before[b0]);
                    assert(before[a0].place_object.depth != before[b0].place_object.depth);
                }
                assert forall|a: int| 0 <= a < after.len() implies (#[trigger] after[a]).index < self.next_index by {
                    let a0 = if a < i { a } else { a + 1 };
                    assert(after[a] == before[a0]);
                }
            }
        }
    }

    /// The commands, split into those of objects first placed before
    /// `frame`, which run before the goto's target frame, and the others,
    /// which run after it; each part in index order.
    pub fn split_at_frame(self, frame: FrameNumber) -> (r: (Vec<GotoPlaceObject>, Vec<GotoPlaceObject>))
        ensures
            commands_view(r.0@) == placed_before(self@, frame),
            commands_view(r.1@) == placed_from(self@, frame),
    {
        let ghost all = self@;
        let mut rest = self.commands;
        let mut before: Vec<GotoPlaceObject> = Vec::new();
        let mut after: Vec<GotoPlaceObject> = Vec::new();
        proof {
            assert(commands_view(before@) =~= Seq::<GotoView>::empty());
            assert(commands_view(after@) =~= Seq::<GotoView>::empty());
        }
        while rest.len() > 0
            invariant
                commands_view(before@) + placed_before(commands_view(rest@), frame) == placed_before(all, frame),
                commands_view(after@) + placed_from(commands_view(rest@), frame) == placed_from(all, frame),
            decreases rest@.len(),
        {
            let ghost r = commands_view(rest@);
            let ghost b = commands_view(before@);
            let ghost a = commands_view(after@);
            let c = rest.remove(0);
            proof {
                assert(commands_view(rest@) =~= r.skip(1));
                assert(r[0] == c@);
            }
            if c.frame < frame {
                before.push(c);
                proof {
                    assert(commands_view(before@) =~= b.push(c@));
                    assert(commands_view(before@) + placed_before(r.skip(1), frame) =~= b + placed_before(r, frame));
                    assert(a + placed_from(r.skip(1), frame) =~= a + placed_from(r, frame));
                }
            } else {
                after.push(c);
                proof {
                    assert(commands_view(after@) =~= a.push(c@));
                    assert(commands_view(after@) + placed_from(r.skip(1), frame) =~= a + placed_from(r, frame));
                    assert(b + placed_before(r.skip(1), frame) =~= b + placed_before(r, frame));
                }
            }
        }
        proof {
            assert(commands_view(rest@) =~= Seq::<GotoView>::empty());
            assert(commands_view(before@) =~= placed_before(all, frame));
            assert(commands_view(after@) =~= placed_from(all, frame));
        }
        (before, after)
    }
}

/// How a goto command is carried out on the display list.
#[derive(Clone, Copy, Debug, PartialEq, Eq, Structural)]
pub enum GotoCommandAction {
    /// The object at the depth persists: the command's properties are applied to it.
    ApplyToExisting,
    /// A new instance of the command's character is created at the depth.
    Instantiate,
}

/// The action of a goto command. An object already at the depth is kept
/// where the command only modifies, and on a rewind, which removed every
/// object placed after the target frame beforehand; otherwise the command
/// creates its character.
pub fn goto_command_action(has_child: bool, command: &GotoPlaceObject, is_rewind: bool) -> (r: GotoCommandAction)
    ensures
        r == (if has_child && (command_id(command@.place_object) == 0 || is_rewind) {
            GotoCommandAction::ApplyToExisting
        } else {
            GotoCommandAction::Instantiate
        }),
{
    if has_child && (command.id() == 0 || is_rewind) {
        GotoCommandAction::ApplyToExisting
    } else {
        GotoCommandAction::Instantiate
    }
}

/// Depths held in a `smallvec::SmallVec` that keeps its first sixteen
/// items inline.
#[verifier::external_body]
pub struct DepthList {
    items: SmallVec<[Depth; 16]>,
}

/// The items of a small vector of depths, in order.
pub uninterp spec fn small_depths(v: DepthList) -> Seq<Depth>;

/// `SmallVec::new`: no items.
#[verifier::external_body]
fn small_depths_new() -> (r: DepthList)
    ensures
        small_depths(r).len() == 0,
{
    DepthList { items: SmallVec::new() }
}

/// `SmallVec::push`: the item is added at the end.
#[verifier::external_body]
fn small_depths_push(v: &mut DepthList, d: Depth)
    ensures
        small_depths(*final(v)) == small_depths(*old(v)).push(d),
{
    v.items.push(d);
}

/// `SmallVec::as_slice`: the items, in order.
#[verifier::external_body]
pub(crate) fn small_depths_slice(v: &DepthList) -> (r: &[Depth])
    ensures
        r@ == small_depths(*v),
{
    v.items.as_slice()
}

/// The depths of the children, given with the frame each was placed on,
/// that a rewind to `frame` removes: those placed after it, in order.
pub open spec fn placed_after(children: Seq<(Depth, FrameNumber)>, frame: FrameNumber) -> Seq<Depth>
    decreases children.len(),
{
    if children.len() == 0 {
        Seq::empty()
    } else {
        placed_after(children.drop_last(), frame) + (if children.last().1 > frame {
            seq![children.last().0]
        } else {
            Seq::empty()
        })
    }
}

/// The children that a rewind to `frame` removes, before it steps forward
/// from frame 1: those placed after the target frame.
pub fn rewind_removals(children: &[(Depth, FrameNumber)], frame: FrameNumber) -> (r: DepthList)
    ensures
        small_depths(r) == placed_after(children@, frame),
{
    let mut out = small_depths_new();
    let mut i: usize = 0;
    proof {
        assert(small_depths(out) =~= placed_after(children@.take(0), frame));
    }
    while i < children.len()
        invariant
            i <= children@.len(),
            small_depths(out) == placed_after(children@.take(i as int), frame),
        decreases children@.len() - i,
    {
        proof {
            assert(children@.take(i + 1).drop_last() =~= children@.take(i as int));
        }
        let (depth, place_frame) = children[i];
        if place_frame > frame {
            small_depths_push(&mut out, depth);
        }
        i = i + 1;
        proof {
            assert(small_depths(out) =~= placed_after(children@.take(i as int), frame));
        }
    }
    proof {
        assert(children@.take(i as int) =~= children@);
    }
    out
}

impl DepthList {
    /// The depths, in order.
    pub fn to_vec(&self) -> (r: Vec<Depth>)
        ensures
            r@ == small_depths(*self),
    {
        let items = small_depths_slice(self);
        let mut out: Vec<Depth> = Vec::new();
        let mut i: usize = 0;
        while i < items.len()
            invariant
                i <= items@.len(),
                out@ == items@.take(i as int),
            decreases items@.len() - i,
        {
            out.push(items[i]);
            i = i + 1;
            proof {
                assert(out@ =~= items@.take(i as int));
            }
        }
        proof {
            assert(items@.take(i as int) =~= items@);
        }
        out
    }
}

/// A placement leaves exactly one command at its depth, and a removal none.
pub proof fn law_one_command_per_depth(cmds: Seq<GotoView>, g: GotoView, depth: Depth)
    requires
        commands_wf(cmds),
        forall|i: int| 0 <= i < cmds.len() ==> (#[trigger] cmds[i]).index < g.index,
    ensures
        commands_wf(placed(cmds, g)),
        exists|i: int| 0 <= i < placed(cmds, g).len() && (#[trigger] placed(cmds, g)[i]).place_object.depth == g.place_object.depth,
        commands_wf(removed(cmds, depth)),
        forall|i: int| 0 <= i < removed(cmds, depth).len() ==> (#[trigger] removed(cmds, depth)[i]).place_object.depth != depth,
{
    lemma_depth_index(cmds, g.place_object.depth, 0);
    lemma_depth_index(cmds, depth, 0);
    let p = placed(cmds, g);
    let j = depth_index(cmds, g.place_object.depth, 0);
    if j < cmds.len() {
        assert(p[j].place_object.depth == g.place_object.depth);
    } else {
        assert(p[cmds.len() as int].place_object.depth == g.place_object.depth);
    }
    assert forall|a: int, b: int| 0 <= a < b < p.len() implies #[trigger] p[a].index < #[trigger] p[b].index by {
        if b < cmds.len() {
            assert(cmds[a].index < cmds[b].index);
        } else {
            assert(cmds[a].index < g.index);
        }
    }
    assert forall|a: int, b: int|
        0 <= a < p.len() && 0 <= b < p.len() && a != b implies #[trigger] p[a].place_object.depth
            != #[trigger] p[b].place_object.depth by {
        if a < cmds.len() && b < cmds.len() {
            assert(cmds[a].place_object.depth != cmds[b].place_object.depth);
        }
    }
    let r = removed(cmds, depth);
    let i = depth_index(cmds, depth, 0);
    if i < cmds.len() {
        assert forall|a: int, b: int| 0 <= a < b < r.len() implies #[trigger] r[a].index < #[trigger] r[b].index by {
            let a0 = if a < i { a } else { a + 1 };
            let b0 = if b < i { b } else { b + 1 };
            assert(r[a] == cmds[a0] && r[b] == cmds[b0]);
            assert(cmds[a0].index < cmds[b0].index);
        }
        assert forall|a: int, b: int|
            0 <= a < r.len() && 0 <= b < r.len() && a != b implies #[trigger] r[a].place_object.depth
                != #[trigger] r[b].place_object.depth by {
            let a0 = if a < i { a } else { a + 1 };
            let b0 = if b < i { b } else { b + 1 };
            assert(r[a] == cmds[a0] && r[b] == cmds[b0]);
            assert(cmds[a0].place_object.depth != cmds[b0].place_object.depth);
        }
        assert forall|a: int| 0 <= a < r.len() implies (#[trigger] r[a]).place_object.depth != depth by {
            let a0 = if a < i { a } else { a + 1 };
            assert(r[a] == cmds[a0]);
            if a0 != i {
                assert(cmds[a0].place_object.depth != cmds[i].place_object.depth);
            }
        }
    }
}

/// A modification keeps the action of the earlier placement and the frame
/// on which the object was first placed.
pub proof fn law_modify_keeps_placement(cur: GotoView, next: GotoView)
    requires
        next.place_object.action is Modify,
    ensures
        merged(cur, next).frame == cur.frame,
        merged(cur, next).place_object.action == cur.place_object.action,
        merged(cur, next).index == cur.index,
{
}


/// Merging a later placement at a depth into the earlier one: every
/// property the later placement gives replaces the earlier value, every
/// property it leaves out keeps the earlier value, and the depth stays. A
/// placement that is not a modification brings its own action and frame.
pub proof fn law_later_properties_win(cur: GotoView, next: GotoView)
    ensures
        ({
            let c = cur.place_object;
            let n = next.place_object;
            let m = merged(cur, next).place_object;
            &&& n.matrix is Some ==> m.matrix == n.matrix
            &&& n.matrix is None ==> m.matrix == c.matrix
            &&& n.color_transform is Some ==> m.color_transform == n.color_transform
            &&& n.color_transform is None ==> m.color_transform == c.color_transform
            &&& n.ratio is Some ==> m.ratio == n.ratio
            &&& n.ratio is None ==> m.ratio == c.ratio
            &&& n.name is Some ==> m.name == n.name
            &&& n.name is None ==> m.name == c.name
            &&& n.clip_depth is Some ==> m.clip_depth == n.clip_depth
            &&& n.clip_depth is None ==> m.clip_depth == c.clip_depth
            &&& n.class_name is Some ==> m.class_name == n.class_name
            &&& n.class_name is None ==> m.class_name == c.class_name
            &&& n.background_color is Some ==> m.background_color == n.background_color
            &&& n.background_color is None ==> m.background_color == c.background_color
            &&& m.depth == c.depth
            &&& !(n.action is Modify) ==> m.action == n.action && merged(cur, next).frame == next.frame
        }),
{
}

/// A rewind starts from an empty display list, so a placement met on it
/// fills every display property it leaves out with the default (the
/// identity transforms, ratio 0, empty names, clip depth 0) and keeps
/// those it gives; any other placement is taken as it is.
pub proof fn law_rewind_placements_are_complete(p: PlaceObjectView, is_rewind: bool)
    ensures
        ({
            let q = with_rewind_defaults(p, is_rewind);
            &&& q.action == p.action && q.depth == p.depth && q.version == p.version
            &&& q.background_color == p.background_color
            &&& (is_rewind && p.action is Place) ==> {
                &&& q.matrix == Some(if p.matrix is Some { p.matrix.unwrap() } else { identity_matrix() })
                &&& q.color_transform == Some(
                    if p.color_transform is Some { p.color_transform.unwrap() } else { identity_color_transform() },
                )
                &&& q.ratio == Some(if p.ratio is Some { p.ratio.unwrap() } else { 0u16 })
                &&& q.name == Some(if p.name is Some { p.name.unwrap() } else { Seq::<char>::empty() })
                &&& q.clip_depth == Some(if p.clip_depth is Some { p.clip_depth.unwrap() } else { 0i16 })
                &&& q.class_name == Some(if p.class_name is Some { p.class_name.unwrap() } else { Seq::<char>::empty() })
            }
            &&& !(is_rewind && p.action is Place) ==> q == p
        }),
{
}
} // verus!
