//! The tags of a movie clip's timeline: what preloading does with each tag
//! and the state its walk keeps, and which tags run when a frame is entered
//! or stepped over by a goto.

use crate::display_object::goto::{Depth, FrameNumber, PlaceObjectAction};
use crate::tag_decoder::TagCode;
use fnv::FnvHashMap;
use vstd::prelude::*;

verus! {

broadcast use {vstd::laws_cmp::group_laws_cmp, vstd::std_specs::btree::group_btree_axioms};

/// What preloading does with a tag; the number is the tag's version where
/// several tags share a handler.
#[derive(Clone, Copy, Debug, PartialEq, Eq, Structural)]
pub enum PreloadAction {
    DefineBits,
    DefineBitsJpeg2,
    DefineBitsJpeg3,
    DefineBitsJpeg4,
    DefineBitsLossless(u8),
    DefineButton(u8),
    DefineButtonCxform,
    DefineButtonSound,
    DefineEditText,
    DefineFont(u8),
    DefineMorphShape(u8),
    DefineShape(u8),
    DefineSound,
    DefineSprite,
    DefineText(u8),
    DoInitAction,
    ExportAssets,
    FrameLabel,
    JpegTables,
    PlaceObject(u8),
    RemoveObject(u8),
    ShowFrame,
    SoundStreamHead(u8),
    SoundStreamBlock,
    /// Preloading ignores the tag.
    Skip,
}

/// The preload action of each tag.
pub open spec fn preload_action_of(tag: TagCode) -> PreloadAction {
    match tag {
        TagCode::DefineBits => PreloadAction::DefineBits,
        TagCode::DefineBitsJpeg2 => PreloadAction::DefineBitsJpeg2,
        TagCode::DefineBitsJpeg3 => PreloadAction::DefineBitsJpeg3,
        TagCode::DefineBitsJpeg4 => PreloadAction::DefineBitsJpeg4,
        TagCode::DefineBitsLossless => PreloadAction::DefineBitsLossless(1),
        TagCode::DefineBitsLossless2 => PreloadAction::DefineBitsLossless(2),
        TagCode::DefineButton => PreloadAction::DefineButton(1),
        TagCode::DefineButton2 => PreloadAction::DefineButton(2),
        TagCode::DefineButtonCxform => PreloadAction::DefineButtonCxform,
        TagCode::DefineButtonSound => PreloadAction::DefineButtonSound,
        TagCode::DefineEditText => PreloadAction::DefineEditText,
        TagCode::DefineFont => PreloadAction::DefineFont(1),
        TagCode::DefineFont2 => PreloadAction::DefineFont(2),
        TagCode::DefineFont3 => PreloadAction::DefineFont(3),
        TagCode::DefineMorphShape => PreloadAction::DefineMorphShape(1),
        TagCode::DefineMorphShape2 => PreloadAction::DefineMorphShape(2),
        TagCode::DefineShape => PreloadAction::DefineShape(1),
        TagCode::DefineShape2 => PreloadAction::DefineShape(2),
        TagCode::DefineShape3 => PreloadAction::DefineShape(3),
        TagCode::DefineShape4 => PreloadAction::DefineShape(4),
        TagCode::DefineSound => PreloadAction::DefineSound,
        TagCode::DefineSprite => PreloadAction::DefineSprite,
        TagCode::DefineText => PreloadAction::DefineText(1),
        TagCode::DefineText2 => PreloadAction::DefineText(2),
        TagCode::DoInitAction => PreloadAction::DoInitAction,
        TagCode::ExportAssets => PreloadAction::ExportAssets,
        TagCode::FrameLabel => PreloadAction::FrameLabel,
        TagCode::JpegTables => PreloadAction::JpegTables,
        TagCode::PlaceObject => PreloadAction::PlaceObject(1),
        TagCode::PlaceObject2 => PreloadAction::PlaceObject(2),
        TagCode::PlaceObject3 => PreloadAction::PlaceObject(3),
        TagCode::PlaceObject4 => PreloadAction::PlaceObject(4),
        TagCode::RemoveObject => PreloadAction::RemoveObject(1),
        TagCode::RemoveObject2 => PreloadAction::RemoveObject(2),
        TagCode::ShowFrame => PreloadAction::ShowFrame,
        TagCode::SoundStreamHead => PreloadAction::SoundStreamHead(1),
        TagCode::SoundStreamHead2 => PreloadAction::SoundStreamHead(2),
        TagCode::SoundStreamBlock => PreloadAction::SoundStreamBlock,
        _ => PreloadAction::Skip,
    }
}

/// The preload action of a tag. DefineFont4 tags are not supported.
pub fn preload_action(tag: TagCode) -> (r: PreloadAction)
    requires
        tag != TagCode::DefineFont4,
    ensures
        r == preload_action_of(tag),
{
    match tag {
        TagCode::DefineBits => PreloadAction::DefineBits,
        TagCode::DefineBitsJpeg2 => PreloadAction::DefineBitsJpeg2,
        TagCode::DefineBitsJpeg3 => PreloadAction::DefineBitsJpeg3,
        TagCode::DefineBitsJpeg4 => PreloadAction::DefineBitsJpeg4,
        TagCode::DefineBitsLossless => PreloadAction::DefineBitsLossless(1),
        TagCode::DefineBitsLossless2 => PreloadAction::DefineBitsLossless(2),
        TagCode::DefineButton => PreloadAction::DefineButton(1),
        TagCode::DefineButton2 => PreloadAction::DefineButton(2),
        TagCode::DefineButtonCxform => PreloadAction::DefineButtonCxform,
        TagCode::DefineButtonSound => PreloadAction::DefineButtonSound,
        TagCode::DefineEditText => PreloadAction::DefineEditText,
        TagCode::DefineFont => PreloadAction::DefineFont(1),
        TagCode::DefineFont2 => PreloadAction::DefineFont(2),
        TagCode::DefineFont3 => PreloadAction::DefineFont(3),
        TagCode::DefineMorphShape => PreloadAction::DefineMorphShape(1),
        TagCode::DefineMorphShape2 => PreloadAction::DefineMorphShape(2),
        TagCode::DefineShape => PreloadAction::DefineShape(1),
        TagCode::DefineShape2 => PreloadAction::DefineShape(2),
        TagCode::DefineShape3 => PreloadAction::DefineShape(3),
        TagCode::DefineShape4 => PreloadAction::DefineShape(4),
        TagCode::DefineSound => PreloadAction::DefineSound,
        TagCode::DefineSprite => PreloadAction::DefineSprite,
        TagCode::DefineText => PreloadAction::DefineText(1),
        TagCode::DefineText2 => PreloadAction::DefineText(2),
        TagCode::DoInitAction => PreloadAction::DoInitAction,
        TagCode::ExportAssets => PreloadAction::ExportAssets,
        TagCode::FrameLabel => PreloadAction::FrameLabel,
        TagCode::JpegTables => PreloadAction::JpegTables,
        TagCode::PlaceObject => PreloadAction::PlaceObject(1),
        TagCode::PlaceObject2 => PreloadAction::PlaceObject(2),
        TagCode::PlaceObject3 => PreloadAction::PlaceObject(3),
        TagCode::PlaceObject4 => PreloadAction::PlaceObject(4),
        TagCode::RemoveObject => PreloadAction::RemoveObject(1),
        TagCode::RemoveObject2 => PreloadAction::RemoveObject(2),
        TagCode::ShowFrame => PreloadAction::ShowFrame,
        TagCode::SoundStreamHead => PreloadAction::SoundStreamHead(1),
        TagCode::SoundStreamHead2 => PreloadAction::SoundStreamHead(2),
        TagCode::SoundStreamBlock => PreloadAction::SoundStreamBlock,
        _ => PreloadAction::Skip,
    }
}


/// The FNV hasher of the `fnv` crate, which morph-shape tables hash with.
#[verifier::external_type_specification]
#[verifier::external_body]
pub struct ExFnvHasher(fnv::FnvHasher);

/// std's builder of default-constructed hashers.
#[verifier::external_type_specification]
#[verifier::external_body]
#[verifier::reject_recursive_types(H)]
pub struct ExBuildHasherDefault<H>(std::hash::BuildHasherDefault<H>);

/// No morph shape at any depth.
pub open spec fn no_morphs() -> Map<Depth, u16> {
    Map::empty()
}

/// `FnvHashMap::default`: an empty map.
#[verifier::external_body]
fn fnv_map_new() -> (r: FnvHashMap<Depth, u16>)
    ensures
        r@ == no_morphs(),
{
    FnvHashMap::default()
}

/// `HashMap::insert` on an FNV map (`fnv::FnvHashMap`, a std `HashMap`
/// whose hasher is the deterministic FNV hasher): the key now maps to the
/// value, and the other keys are unchanged. The value it replaced, which
/// it returns, is dropped here.
#[verifier::external_body]
fn fnv_map_insert(m: &mut FnvHashMap<Depth, u16>, k: Depth, v: u16)
    ensures
        final(m)@ == old(m)@.insert(k, v),
{
    m.insert(k, v);
}

/// `HashMap::remove` on an FNV map: the key no longer maps to anything, and
/// the other keys are unchanged. The value it removed, which it returns,
/// is dropped here.
#[verifier::external_body]
fn fnv_map_remove(m: &mut FnvHashMap<Depth, u16>, k: Depth)
    ensures
        final(m)@ == old(m)@.remove(k),
{
    m.remove(&k);
}

/// `HashMap::get` on an FNV map: the value the key maps to, if any.
#[verifier::external_body]
fn fnv_map_get(m: &FnvHashMap<Depth, u16>, k: Depth) -> (r: Option<u16>)
    ensures
        r == (if m@.contains_key(k) {
            Some(m@[k])
        } else {
            None
        }),
{
    m.get(&k).copied()
}

/// Whether `id` is among the ids of the morph shapes defined so far.
pub open spec fn is_morph(morph_ids: Seq<u16>, id: u16) -> bool {
    morph_ids.contains(id)
}

/// The state of a preload walk: the frame being preloaded, the morph shape
/// at each depth, and whether the clip has a sound stream.
pub struct PreloadState {
    cur_frame: FrameNumber,
    ids: FnvHashMap<Depth, u16>,
    has_audio_stream: bool,
}

/// The mathematical form of a [`PreloadState`].
pub ghost struct PreloadView {
    pub cur_frame: FrameNumber,
    pub ids: Map<Depth, u16>,
    pub has_audio_stream: bool,
}

impl View for PreloadState {
    type V = PreloadView;

    closed spec fn view(&self) -> PreloadView {
        PreloadView { cur_frame: self.cur_frame, ids: self.ids@, has_audio_stream: self.has_audio_stream }
    }
}

/// The morph shape ids at each depth after a placement, and the morph shape
/// whose ratio the placement registers, if any. A placement or replacement
/// of a morph shape records it at the depth; a modification applies to the
/// morph shape recorded there; a replacement by another character forgets
/// the depth.
pub open spec fn placed_morph(
    ids: Map<Depth, u16>,
    action: PlaceObjectAction,
    depth: Depth,
    ratio: Option<u16>,
    morph_ids: Seq<u16>,
) -> (Map<Depth, u16>, Option<(u16, u16)>) {
    let registered = |id: u16|
        match ratio {
            Some(r) => Some((id, r)),
            None => None,
        };
    match action {
        PlaceObjectAction::Place(id) => if is_morph(morph_ids, id) {
            (ids.insert(depth, id), registered(id))
        } else {
            (ids, None)
        },
        PlaceObjectAction::Modify => if ids.contains_key(depth) && is_morph(morph_ids, ids[depth]) {
            (ids, registered(ids[depth]))
        } else {
            (ids, None)
        },
        PlaceObjectAction::Replace(id) => if is_morph(morph_ids, id) {
            (ids.insert(depth, id), registered(id))
        } else {
            (ids.remove(depth), None)
        },
    }
}

fn contains_id(morph_ids: &[u16], id: u16) -> (r: bool)
    ensures
        r == is_morph(morph_ids@, id),
{
    let mut i: usize = 0;
    while i < morph_ids.len()
        invariant
            i <= morph_ids@.len(),
            forall|k: int| 0 <= k < i ==> morph_ids@[k] != id,
        decreases morph_ids@.len() - i,
    {
        if morph_ids[i] == id {
            assert(morph_ids@[i as int] == id);
            return true;
        }
        i = i + 1;
    }
    false
}

impl PreloadState {
    /// The state at the start of a clip: frame 1, nothing placed, no sound stream.
    pub fn new() -> (r: Self)
        ensures
            r@ == (PreloadView { cur_frame: 1, ids: Map::empty(), has_audio_stream: false }),
    {
        PreloadState { cur_frame: 1, ids: fnv_map_new(), has_audio_stream: false }
    }

    /// The frame being preloaded.
    pub fn cur_frame(&self) -> (r: FrameNumber)
        ensures
            r == self@.cur_frame,
    {
        self.cur_frame
    }

    /// A ShowFrame tag: the next frame starts.
    pub fn show_frame(&mut self)
        requires
            old(self)@.cur_frame < u16::MAX,
        ensures
            final(self)@ == (PreloadView { cur_frame: (old(self)@.cur_frame + 1) as u16, ..old(self)@ }),
    {
        self.cur_frame = self.cur_frame + 1;
    }

    /// A SoundStreamHead tag: the clip has a sound stream, which starts on
    /// the current frame, returned.
    pub fn sound_stream_head(&mut self) -> (r: FrameNumber)
        ensures
            r == old(self)@.cur_frame,
            final(self)@ == (PreloadView { has_audio_stream: true, ..old(self)@ }),
    {
        self.has_audio_stream = true;
        self.cur_frame
    }

    /// A SoundStreamBlock tag: its data belongs to the current frame of the
    /// clip's sound stream; `None` for a clip without a stream head so far.
    pub fn sound_stream_block(&self) -> (r: Option<FrameNumber>)
        ensures
            r == (if self@.has_audio_stream {
                Some(self@.cur_frame)
            } else {
                None
            }),
    {
        if self.has_audio_stream {
            Some(self.cur_frame)
        } else {
            None
        }
    }

    /// A PlaceObject tag: track the morph shape at its depth, and return
    /// the morph shape and ratio to register, if any.
    pub fn place_object(&mut self, action: PlaceObjectAction, depth: Depth, ratio: Option<u16>, morph_ids: &[u16]) -> (r: Option<(u16, u16)>)
        ensures
            (final(self)@.ids, r) == placed_morph(old(self)@.ids, action, depth, ratio, morph_ids@),
            final(self)@.cur_frame == old(self)@.cur_frame,
            final(self)@.has_audio_stream == old(self)@.has_audio_stream,
    {
        match action {
            PlaceObjectAction::Place(id) => {
                if contains_id(morph_ids, id) {
                    fnv_map_insert(&mut self.ids, depth, id);
                    match ratio {
                        Some(r) => Some((id, r)),
                        None => None,
                    }
                } else {
                    None
                }
            },
            PlaceObjectAction::Modify => {
                match fnv_map_get(&self.ids, depth) {
                    Some(id) => {
                        if contains_id(morph_ids, id) {
                            fnv_map_insert(&mut self.ids, depth, id);
                            proof {
                                assert(self@.ids =~= old(self)@.ids);
                            }
                            match ratio {
                                Some(r) => Some((id, r)),
                                None => None,
                            }
                        } else {
                            None
                        }
                    },
                    None => None,
                }
            },
            PlaceObjectAction::Replace(id) => {
                if contains_id(morph_ids, id) {
                    fnv_map_insert(&mut self.ids, depth, id);
                    match ratio {
                        Some(r) => Some((id, r)),
                        None => None,
                    }
                } else {
                    fnv_map_remove(&mut self.ids, depth);
                    None
                }
            },
        }
    }

    /// A RemoveObject tag: the depth is forgotten.
    pub fn remove_object(&mut self, depth: Depth)
        ensures
            final(self)@ == (PreloadView { ids: old(self)@.ids.remove(depth), ..old(self)@ }),
    {
        fnv_map_remove(&mut self.ids, depth);
    }

    /// Whether the walk met a sound stream, which the audio backend is then
    /// told has ended.
    pub fn ends_sound_stream(&self) -> (r: bool)
        ensures
            r == self@.has_audio_stream,
    {
        self.has_audio_stream
    }

    /// The morph shape recorded at a depth.
    pub fn morph_at(&self, depth: Depth) -> (r: Option<u16>)
        ensures
            r == (if self@.ids.contains_key(depth) {
                Some(self@.ids[depth])
            } else {
                None
            }),
    {
        fnv_map_get(&self.ids, depth)
    }
}

/// What entering a frame does with one of its tags.
#[derive(Clone, Copy, Debug, PartialEq, Eq, Structural)]
pub enum FrameTagAction {
    DoAction,
    PlaceObject(u8),
    RemoveObject(u8),
    SetBackgroundColor,
    StartSound,
    SoundStreamBlock,
    /// The tag does nothing when the frame runs.
    Skip,
}

/// The action of a tag when its frame runs. Display list tags run only
/// where display actions do: a goto's final frame is re-run without them.
pub open spec fn frame_tag_action_of(tag: TagCode, run_display_actions: bool) -> FrameTagAction {
    match tag {
        TagCode::DoAction => FrameTagAction::DoAction,
        TagCode::PlaceObject if run_display_actions => FrameTagAction::PlaceObject(1),
        TagCode::PlaceObject2 if run_display_actions => FrameTagAction::PlaceObject(2),
        TagCode::PlaceObject3 if run_display_actions => FrameTagAction::PlaceObject(3),
        TagCode::PlaceObject4 if run_display_actions => FrameTagAction::PlaceObject(4),
        TagCode::RemoveObject if run_display_actions => FrameTagAction::RemoveObject(1),
        TagCode::RemoveObject2 if run_display_actions => FrameTagAction::RemoveObject(2),
        TagCode::SetBackgroundColor => FrameTagAction::SetBackgroundColor,
        TagCode::StartSound => FrameTagAction::StartSound,
        TagCode::SoundStreamBlock => FrameTagAction::SoundStreamBlock,
        _ => FrameTagAction::Skip,
    }
}

/// The action of a tag when its frame runs.
pub fn frame_tag_action(tag: TagCode, run_display_actions: bool) -> (r: FrameTagAction)
    ensures
        r == frame_tag_action_of(tag, run_display_actions),
{
    match tag {
        TagCode::DoAction => FrameTagAction::DoAction,
        TagCode::PlaceObject if run_display_actions => FrameTagAction::PlaceObject(1),
        TagCode::PlaceObject2 if run_display_actions => FrameTagAction::PlaceObject(2),
        TagCode::PlaceObject3 if run_display_actions => FrameTagAction::PlaceObject(3),
        TagCode::PlaceObject4 if run_display_actions => FrameTagAction::PlaceObject(4),
        TagCode::RemoveObject if run_display_actions => FrameTagAction::RemoveObject(1),
        TagCode::RemoveObject2 if run_display_actions => FrameTagAction::RemoveObject(2),
        TagCode::SetBackgroundColor => FrameTagAction::SetBackgroundColor,
        TagCode::StartSound => FrameTagAction::StartSound,
        TagCode::SoundStreamBlock => FrameTagAction::SoundStreamBlock,
        _ => FrameTagAction::Skip,
    }
}

/// Whether a frame's sound stream stops after its tags ran: a playing
/// stream has a block on each frame, so a frame without one ends it.
pub fn stops_audio_stream(actions: &[FrameTagAction]) -> (r: bool)
    ensures
        r == !actions@.contains(FrameTagAction::SoundStreamBlock),
{
    let mut i: usize = 0;
    while i < actions.len()
        invariant
            i <= actions@.len(),
            forall|k: int| 0 <= k < i ==> actions@[k] != FrameTagAction::SoundStreamBlock,
        decreases actions@.len() - i,
    {
        if actions[i] == FrameTagAction::SoundStreamBlock {
            assert(actions@[i as int] == FrameTagAction::SoundStreamBlock);
            return false;
        }
        i = i + 1;
    }
    true
}

/// What a goto does with a tag of a frame it steps over: only display list
/// tags are aggregated, by their version.
pub open spec fn goto_tag_action_of(tag: TagCode) -> FrameTagAction {
    match tag {
        TagCode::PlaceObject => FrameTagAction::PlaceObject(1),
        TagCode::PlaceObject2 => FrameTagAction::PlaceObject(2),
        TagCode::PlaceObject3 => FrameTagAction::PlaceObject(3),
        TagCode::PlaceObject4 => FrameTagAction::PlaceObject(4),
        TagCode::RemoveObject => FrameTagAction::RemoveObject(1),
        TagCode::RemoveObject2 => FrameTagAction::RemoveObject(2),
        _ => FrameTagAction::Skip,
    }
}

/// The action of a tag of a frame a goto steps over.
pub fn goto_tag_action(tag: TagCode) -> (r: FrameTagAction)
    ensures
        r == goto_tag_action_of(tag),
{
    match tag {
        TagCode::PlaceObject => FrameTagAction::PlaceObject(1),
        TagCode::PlaceObject2 => FrameTagAction::PlaceObject(2),
        TagCode::PlaceObject3 => FrameTagAction::PlaceObject(3),
        TagCode::PlaceObject4 => FrameTagAction::PlaceObject(4),
        TagCode::RemoveObject => FrameTagAction::RemoveObject(1),
        TagCode::RemoveObject2 => FrameTagAction::RemoveObject(2),
        _ => FrameTagAction::Skip,
    }
}

/// A goto aggregates what a running frame with display actions would do to
/// the display list, and nothing else.
pub proof fn law_goto_tags_are_display_tags(tag: TagCode)
    ensures
        goto_tag_action_of(tag) == (match frame_tag_action_of(tag, true) {
            FrameTagAction::PlaceObject(v) => FrameTagAction::PlaceObject(v),
            FrameTagAction::RemoveObject(v) => FrameTagAction::RemoveObject(v),
            _ => FrameTagAction::Skip,
        }),
{
}

/// A tag met by a preload walk that changes its state or yields something
/// for the clip, with the fields the walk reads. The other tags register
/// characters or run actions, as `preload_action` tells; the tags of a
/// DefineSprite are walked with a state of their own.
#[derive(Clone, Debug)]
pub enum PreloadEvent {
    /// A ShowFrame tag.
    ShowFrame,
    /// A SoundStreamHead or SoundStreamHead2 tag.
    SoundStreamHead,
    /// A SoundStreamBlock tag.
    SoundStreamBlock,
    /// A DefineMorphShape or DefineMorphShape2 tag, with its id.
    DefineMorphShape(u16),
    /// A PlaceObject tag of any version.
    PlaceObject { action: PlaceObjectAction, depth: Depth, ratio: Option<u16> },
    /// A RemoveObject tag of either version.
    RemoveObject(Depth),
    /// A FrameLabel tag.
    FrameLabel(String),
}

/// The mathematical form of a [`PreloadEvent`].
pub ghost enum PreloadEventView {
    ShowFrame,
    SoundStreamHead,
    SoundStreamBlock,
    DefineMorphShape(u16),
    PlaceObject { action: PlaceObjectAction, depth: Depth, ratio: Option<u16> },
    RemoveObject(Depth),
    FrameLabel(Seq<char>),
}

impl View for PreloadEvent {
    type V = PreloadEventView;

    open spec fn view(&self) -> PreloadEventView {
        match self {
            PreloadEvent::ShowFrame => PreloadEventView::ShowFrame,
            PreloadEvent::SoundStreamHead => PreloadEventView::SoundStreamHead,
            PreloadEvent::SoundStreamBlock => PreloadEventView::SoundStreamBlock,
            PreloadEvent::DefineMorphShape(id) => PreloadEventView::DefineMorphShape(*id),
            PreloadEvent::PlaceObject { action, depth, ratio } => PreloadEventView::PlaceObject {
                action: *action,
                depth: *depth,
                ratio: *ratio,
            },
            PreloadEvent::RemoveObject(d) => PreloadEventView::RemoveObject(*d),
            PreloadEvent::FrameLabel(l) => PreloadEventView::FrameLabel(l@),
        }
    }
}

/// What a preload walk yields for the clip.
#[derive(Clone, Debug, PartialEq, Eq)]
pub enum PreloadOutput {
    /// The clip's sound stream starts on this frame.
    StreamHead(FrameNumber),
    /// A block of the sound stream belongs to this frame.
    StreamBlock(FrameNumber),
    /// A morph shape is shown at this ratio: (id, ratio).
    MorphRatio(u16, u16),
    /// A frame label and the frame it names.
    Label(String, FrameNumber),
}

/// The mathematical form of a [`PreloadOutput`].
pub ghost enum PreloadOutputView {
    StreamHead(FrameNumber),
    StreamBlock(FrameNumber),
    MorphRatio(u16, u16),
    Label(Seq<char>, FrameNumber),
}

impl View for PreloadOutput {
    type V = PreloadOutputView;

    open spec fn view(&self) -> PreloadOutputView {
        match self {
            PreloadOutput::StreamHead(f) => PreloadOutputView::StreamHead(*f),
            PreloadOutput::StreamBlock(f) => PreloadOutputView::StreamBlock(*f),
            PreloadOutput::MorphRatio(id, r) => PreloadOutputView::MorphRatio(*id, *r),
            PreloadOutput::Label(l, f) => PreloadOutputView::Label(l@, *f),
        }
    }
}

/// The state of a preload walk, the morph shapes defined so far, and what
/// the walk has yielded.
pub ghost struct PreloadWalkView {
    pub state: PreloadView,
    pub morph_ids: Seq<u16>,
    pub out: Seq<PreloadOutputView>,
}

/// One tag of a preload walk.
pub open spec fn preload_step(w: PreloadWalkView, e: PreloadEventView) -> PreloadWalkView {
    match e {
        PreloadEventView::ShowFrame => PreloadWalkView {
            state: PreloadView { cur_frame: (w.state.cur_frame + 1) as u16, ..w.state },
            ..w
        },
        PreloadEventView::SoundStreamHead => PreloadWalkView {
            state: PreloadView { has_audio_stream: true, ..w.state },
            out: w.out.push(PreloadOutputView::StreamHead(w.state.cur_frame)),
            ..w
        },
        PreloadEventView::SoundStreamBlock => if w.state.has_audio_stream {
            PreloadWalkView { out: w.out.push(PreloadOutputView::StreamBlock(w.state.cur_frame)), ..w }
        } else {
            w
        },
        PreloadEventView::DefineMorphShape(id) => PreloadWalkView { morph_ids: w.morph_ids.push(id), ..w },
        PreloadEventView::PlaceObject { action, depth, ratio } => {
            let (ids, reg) = placed_morph(w.state.ids, action, depth, ratio, w.morph_ids);
            PreloadWalkView {
                state: PreloadView { ids, ..w.state },
                out: match reg {
                    Some((id, r)) => w.out.push(PreloadOutputView::MorphRatio(id, r)),
                    None => w.out,
                },
                ..w
            }
        },
        PreloadEventView::RemoveObject(d) => PreloadWalkView {
            state: PreloadView { ids: w.state.ids.remove(d), ..w.state },
            ..w
        },
        PreloadEventView::FrameLabel(l) => PreloadWalkView {
            out: w.out.push(PreloadOutputView::Label(l, w.state.cur_frame)),
            ..w
        },
    }
}

/// The tags of a preload walk, in order.
pub open spec fn preload_steps(w: PreloadWalkView, events: Seq<PreloadEventView>) -> PreloadWalkView
    decreases events.len(),
{
    if events.len() == 0 {
        w
    } else {
        preload_step(preload_steps(w, events.drop_last()), events.last())
    }
}

/// The number of ShowFrame tags.
pub open spec fn frames_shown(events: Seq<PreloadEventView>) -> nat
    decreases events.len(),
{
    if events.len() == 0 {
        0
    } else {
        frames_shown(events.drop_last()) + if events.last() is ShowFrame {
            1nat
        } else {
            0nat
        }
    }
}

/// The views of a list of outputs.
pub open spec fn outputs_view(out: Seq<PreloadOutput>) -> Seq<PreloadOutputView> {
    out.map_values(|o: PreloadOutput| o@)
}

/// The views of a list of events.
pub open spec fn events_view(events: Seq<PreloadEvent>) -> Seq<PreloadEventView> {
    events.map_values(|e: PreloadEvent| e@)
}

/// Walk the tags of a clip for preloading: count its frames, follow its
/// sound stream and the morph shapes at each depth, and yield, in order,
/// the stream head and blocks with their frames, the ratios at which morph
/// shapes are shown, and the frame labels with their frames.
pub fn preload_walk(state: &mut PreloadState, morph_ids: &mut Vec<u16>, events: &Vec<PreloadEvent>) -> (r: Vec<PreloadOutput>)
    requires
        old(state)@.cur_frame + frames_shown(events_view(events@)) <= u16::MAX,
    ensures
        ({
            let w = preload_steps(
                PreloadWalkView { state: old(state)@, morph_ids: old(morph_ids)@, out: Seq::empty() },
                events_view(events@),
            );
            &&& final(state)@ == w.state
            &&& final(morph_ids)@ == w.morph_ids
            &&& outputs_view(r@) == w.out
        }),
{
    let ghost ev = events_view(events@);
    let ghost w0 = PreloadWalkView { state: state@, morph_ids: morph_ids@, out: Seq::empty() };
    let mut out: Vec<PreloadOutput> = Vec::new();
    let mut i: usize = 0;
    proof {
        assert(ev.take(0) =~= Seq::<PreloadEventView>::empty());
        assert(outputs_view(out@) =~= Seq::<PreloadOutputView>::empty());
    }
    while i < events.len()
        invariant
            i <= events@.len(),
            ev == events_view(events@),
            w0.state.cur_frame + frames_shown(ev) <= u16::MAX,
            (PreloadWalkView { state: state@, morph_ids: morph_ids@, out: outputs_view(out@) }) == preload_steps(
                w0,
                ev.take(i as int),
            ),
            state@.cur_frame == w0.state.cur_frame + frames_shown(ev.take(i as int)),
        decreases events@.len() - i,
    {
        let ghost cur = preload_steps(w0, ev.take(i as int));
        proof {
            assert(ev.take(i + 1).drop_last() =~= ev.take(i as int));
            assert(ev.take(i + 1).last() == events@[i as int]@);
            lemma_frames_shown_prefix(ev, i + 1);
        }
        let ghost next = preload_step(cur, events@[i as int]@);
        match &events[i] {
            PreloadEvent::ShowFrame => {
                state.show_frame();
            },
            PreloadEvent::SoundStreamHead => {
                let f = state.sound_stream_head();
                out.push(PreloadOutput::StreamHead(f));
            },
            PreloadEvent::SoundStreamBlock => {
                match state.sound_stream_block() {
                    Some(f) => {
                        out.push(PreloadOutput::StreamBlock(f));
                    },
                    None => {},
                }
            },
            PreloadEvent::DefineMorphShape(id) => {
                morph_ids.push(*id);
            },
            PreloadEvent::PlaceObject { action, depth, ratio } => {
                match state.place_object(*action, *depth, *ratio, morph_ids.as_slice()) {
                    Some((id, r)) => {
                        out.push(PreloadOutput::MorphRatio(id, r));
                    },
                    None => {},
                }
            },
            PreloadEvent::RemoveObject(d) => {
                state.remove_object(*d);
            },
            PreloadEvent::FrameLabel(l) => {
                let f = state.cur_frame();
                out.push(PreloadOutput::Label(l.clone(), f));
            },
        }
        proof {
            assert(outputs_view(out@) =~= next.out);
            assert(state@ == next.state);
            assert(morph_ids@ =~= next.morph_ids);
        }
        i = i + 1;
    }
    proof {
        assert(ev.take(i as int) =~= ev);
    }
    out
}

proof fn lemma_frames_shown_prefix(ev: Seq<PreloadEventView>, k: int)
    requires
        0 <= k <= ev.len(),
    ensures
        frames_shown(ev.take(k)) <= frames_shown(ev),
    decreases ev.len() - k,
{
    if k < ev.len() {
        lemma_frames_shown_prefix(ev, k + 1);
        assert(ev.take(k + 1).drop_last() =~= ev.take(k));
    } else {
        assert(ev.take(k) =~= ev);
    }
}

/// The frame labels among a preload walk's outputs, with their frames, in
/// order.
pub open spec fn preload_labels(out: Seq<PreloadOutputView>) -> Seq<(Seq<char>, FrameNumber)>
    decreases out.len(),
{
    if out.len() == 0 {
        Seq::empty()
    } else {
        preload_labels(out.drop_last()) + match out.last() {
            PreloadOutputView::Label(l, f) => seq![(l, f)],
            _ => Seq::empty(),
        }
    }
}


/// The tag whose handler a preload action is: the inverse of
/// `preload_action_of`, read from the tag names (a versioned action is the
/// tag of that family whose name carries the version).
pub open spec fn preload_action_tag(a: PreloadAction) -> Option<TagCode> {
    match a {
        PreloadAction::DefineBits => Some(TagCode::DefineBits),
        PreloadAction::DefineBitsJpeg2 => Some(TagCode::DefineBitsJpeg2),
        PreloadAction::DefineBitsJpeg3 => Some(TagCode::DefineBitsJpeg3),
        PreloadAction::DefineBitsJpeg4 => Some(TagCode::DefineBitsJpeg4),
        PreloadAction::DefineBitsLossless(1) => Some(TagCode::DefineBitsLossless),
        PreloadAction::DefineBitsLossless(2) => Some(TagCode::DefineBitsLossless2),
        PreloadAction::DefineButton(1) => Some(TagCode::DefineButton),
        PreloadAction::DefineButton(2) => Some(TagCode::DefineButton2),
        PreloadAction::DefineButtonCxform => Some(TagCode::DefineButtonCxform),
        PreloadAction::DefineButtonSound => Some(TagCode::DefineButtonSound),
        PreloadAction::DefineEditText => Some(TagCode::DefineEditText),
        PreloadAction::DefineFont(1) => Some(TagCode::DefineFont),
        PreloadAction::DefineFont(2) => Some(TagCode::DefineFont2),
        PreloadAction::DefineFont(3) => Some(TagCode::DefineFont3),
        PreloadAction::DefineMorphShape(1) => Some(TagCode::DefineMorphShape),
        PreloadAction::DefineMorphShape(2) => Some(TagCode::DefineMorphShape2),
        PreloadAction::DefineShape(1) => Some(TagCode::DefineShape),
        PreloadAction::DefineShape(2) => Some(TagCode::DefineShape2),
        PreloadAction::DefineShape(3) => Some(TagCode::DefineShape3),
        PreloadAction::DefineShape(4) => Some(TagCode::DefineShape4),
        PreloadAction::DefineSound => Some(TagCode::DefineSound),
        PreloadAction::DefineSprite => Some(TagCode::DefineSprite),
        PreloadAction::DefineText(1) => Some(TagCode::DefineText),
        PreloadAction::DefineText(2) => Some(TagCode::DefineText2),
        PreloadAction::DoInitAction => Some(TagCode::DoInitAction),
        PreloadAction::ExportAssets => Some(TagCode::ExportAssets),
        PreloadAction::FrameLabel => Some(TagCode::FrameLabel),
        PreloadAction::JpegTables => Some(TagCode::JpegTables),
        PreloadAction::PlaceObject(1) => Some(TagCode::PlaceObject),
        PreloadAction::PlaceObject(2) => Some(TagCode::PlaceObject2),
        PreloadAction::PlaceObject(3) => Some(TagCode::PlaceObject3),
        PreloadAction::PlaceObject(4) => Some(TagCode::PlaceObject4),
        PreloadAction::RemoveObject(1) => Some(TagCode::RemoveObject),
        PreloadAction::RemoveObject(2) => Some(TagCode::RemoveObject2),
        PreloadAction::ShowFrame => Some(TagCode::ShowFrame),
        PreloadAction::SoundStreamHead(1) => Some(TagCode::SoundStreamHead),
        PreloadAction::SoundStreamHead(2) => Some(TagCode::SoundStreamHead2),
        PreloadAction::SoundStreamBlock => Some(TagCode::SoundStreamBlock),
        _ => None,
    }
}

/// Every tag that preloading handles is handled as that very tag: its
/// action names the tag back, so a versioned tag (DefineShape4, PlaceObject3,
/// ...) is read with its own version and never with another's. Hence no two
/// tags share an action unless preloading skips both.
pub proof fn law_preload_action_is_the_tags_own(t1: TagCode, t2: TagCode)
    ensures
        !(preload_action_of(t1) is Skip) ==> preload_action_tag(preload_action_of(t1)) == Some(t1),
        preload_action_of(t1) is Skip ==> preload_action_tag(preload_action_of(t1)) is None,
        t1 != t2 && preload_action_of(t1) == preload_action_of(t2) ==> preload_action_of(t1) is Skip,
{
}

/// A frame runs the same display list tags that preloading reads, with the
/// same versions, and only where display actions run; the other tags act
/// the same either way.
pub proof fn law_frame_display_tags_match_preload(tag: TagCode)
    ensures
        forall|v: u8| #![auto]
            frame_tag_action_of(tag, true) == FrameTagAction::PlaceObject(v) <==> preload_action_of(tag)
                == PreloadAction::PlaceObject(v),
        forall|v: u8| #![auto]
            frame_tag_action_of(tag, true) == FrameTagAction::RemoveObject(v) <==> preload_action_of(tag)
                == PreloadAction::RemoveObject(v),
        !(frame_tag_action_of(tag, false) is PlaceObject) && !(frame_tag_action_of(tag, false) is RemoveObject),
        !(frame_tag_action_of(tag, true) is PlaceObject) && !(frame_tag_action_of(tag, true) is RemoveObject)
            ==> frame_tag_action_of(tag, false) == frame_tag_action_of(tag, true),
{
}

/// How a placement changes the morph shapes a preload walk tracks: placing
/// or replacing with a morph shape records it at the depth, and registers
/// it at the placement's ratio; a modification registers the morph shape
/// recorded at the depth at the new ratio; replacing with another character
/// forgets the depth; other depths are never touched.
pub proof fn law_morph_tracking(
    ids: Map<Depth, u16>,
    action: PlaceObjectAction,
    depth: Depth,
    ratio: Option<u16>,
    morph_ids: Seq<u16>,
    other: Depth,
)
    ensures
        ({
            let (after, reg) = placed_morph(ids, action, depth, ratio, morph_ids);
            &&& other != depth ==> (after.contains_key(other) == ids.contains_key(other) && (ids.contains_key(other)
                ==> after[other] == ids[other]))
            &&& reg matches Some((id, r)) ==> morph_ids.contains(id) && ratio == Some(r) && after.contains_key(depth)
                && after[depth] == id
            &&& action matches PlaceObjectAction::Place(id) ==> (morph_ids.contains(id) ==> after.contains_key(depth)
                && after[depth] == id && reg == (if ratio is Some { Some((id, ratio.unwrap())) } else { None }))
            &&& action matches PlaceObjectAction::Replace(id) ==> (morph_ids.contains(id) ==> after.contains_key(
                depth) && after[depth] == id) && (!morph_ids.contains(id) ==> !after.contains_key(depth) && reg is None)
            &&& action is Modify ==> after == ids && (ids.contains_key(depth) && morph_ids.contains(ids[depth])
                && ratio is Some ==> reg == Some((ids[depth], ratio.unwrap())))
        }),
{
}
} // verus!
