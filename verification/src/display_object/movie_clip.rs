//! The playhead and child list of a movie clip.

use crate::display_object::goto::{
    frames_view, lemma_tags_before_monotone, placed, placed_after, removed, rewind_removals, small_depths_slice, tags_before, tags_view,
    with_rewind_defaults, FrameTags, GotoCommands, GotoTag, GotoTagView, GotoView,
};
use crate::display_object::preload::{outputs_view, preload_labels, PreloadOutput, PreloadOutputView};
use std::collections::BTreeMap;
use vstd::prelude::*;

verus! {

broadcast use {vstd::laws_cmp::group_laws_cmp, vstd::std_specs::btree::group_btree_axioms};

/// A 1-based frame number; 0 means the playhead is before the first frame.
pub type FrameNumber = u16;

/// The depth a child occupies in its parent's display list.
pub type Depth = i16;

/// A display object, identified by its handle in the display tree.
#[derive(Clone, Copy, Debug, PartialEq, Eq, Structural)]
pub struct DisplayObjectId(pub u32);

/// What happens when the playhead runs one frame.
#[derive(Clone, Copy, Debug, PartialEq, Eq, Structural)]
pub enum FrameAdvance {
    /// The playhead moved to the next frame, whose tags are to be run.
    Advanced,
    /// The last frame was reached: the clip loops by a goto to frame 1.
    Looped,
    /// Single-frame clips do not play: the clip stopped.
    Stopped,
}

/// How a goto is carried out.
#[derive(Clone, Copy, Debug, PartialEq, Eq, Structural)]
pub struct GotoPlan {
    /// The goto goes backwards: the timeline restarts from frame 1 and
    /// children placed after the target frame are removed.
    pub is_rewind: bool,
    /// The last frame whose tags are run: the target, limited to the
    /// clip's length.
    pub clamped_frame: FrameNumber,
}

/// A movie clip's timeline state and its children by depth.
pub struct MovieClip {
    id: u16,
    current_frame: FrameNumber,
    total_frames: FrameNumber,
    playing: bool,
    tag_stream_pos: u64,
    children: BTreeMap<Depth, DisplayObjectId>,
    frame_labels: Vec<(String, FrameNumber)>,
    audio_stream: Option<u32>,
}

/// The mathematical form of a [`MovieClip`].
pub ghost struct MovieClipView {
    pub id: u16,
    pub current_frame: FrameNumber,
    pub total_frames: FrameNumber,
    pub playing: bool,
    pub tag_stream_pos: u64,
    pub children: Map<Depth, DisplayObjectId>,
    pub frame_labels: Seq<(Seq<char>, FrameNumber)>,
    pub audio_stream: Option<u32>,
}

impl View for MovieClip {
    type V = MovieClipView;

    closed spec fn view(&self) -> MovieClipView {
        MovieClipView {
            id: self.id,
            current_frame: self.current_frame,
            total_frames: self.total_frames,
            playing: self.playing,
            tag_stream_pos: self.tag_stream_pos,
            children: self.children@,
            frame_labels: self.frame_labels@.map_values(|l: (String, FrameNumber)| (l.0@, l.1)),
            audio_stream: self.audio_stream,
        }
    }
}

/// The code point of the ASCII lower-case form of a character.
pub open spec fn ascii_lower(c: char) -> u32 {
    if 'A' <= c <= 'Z' {
        ((c as u32) + 32) as u32
    } else {
        c as u32
    }
}

/// Whether two strings are equal ignoring ASCII case.
pub open spec fn eq_ignore_ascii_case(a: Seq<char>, b: Seq<char>) -> bool {
    a.len() == b.len() && forall|i: int| 0 <= i < a.len() ==> ascii_lower(#[trigger] a[i]) == ascii_lower(b[i])
}

/// The frame of the first label matching `label` without regard to ASCII
/// case: a label defined again later does not replace it.
pub open spec fn label_frame(labels: Seq<(Seq<char>, FrameNumber)>, label: Seq<char>) -> Option<FrameNumber>
    decreases labels.len(),
{
    if labels.len() == 0 {
        None
    } else if eq_ignore_ascii_case(labels[0].0, label) {
        Some(labels[0].1)
    } else {
        label_frame(labels.skip(1), label)
    }
}

/// The children after moving the child at `from` to depth `to`: an occupant
/// of `to` takes the place at `from`.
pub open spec fn swapped(m: Map<Depth, DisplayObjectId>, from: Depth, to: Depth) -> Map<Depth, DisplayObjectId> {
    if m.contains_key(to) {
        m.insert(to, m[from]).insert(from, m[to])
    } else {
        m.remove(from).insert(to, m[from])
    }
}

/// The code point of the ASCII lower-case form of a character.
fn to_ascii_lower(c: char) -> (r: u32)
    ensures
        r == ascii_lower(c),
{
    if 'A' <= c && c <= 'Z' {
        (c as u32) + 32
    } else {
        c as u32
    }
}

/// Whether two strings are equal ignoring ASCII case.
fn equal_ignore_ascii_case(a: &str, b: &str) -> (r: bool)
    ensures
        r == eq_ignore_ascii_case(a@, b@),
{
    let n = a.unicode_len();
    if n != b.unicode_len() {
        return false;
    }
    let mut i: usize = 0;
    while i < n
        invariant
            n == a@.len(),
            n == b@.len(),
            i <= n,
            forall|j: int| 0 <= j < i ==> ascii_lower(#[trigger] a@[j]) == ascii_lower(b@[j]),
        decreases n - i,
    {
        if to_ascii_lower(a.get_char(i)) != to_ascii_lower(b.get_char(i)) {
            return false;
        }
        i = i + 1;
    }
    true
}

impl MovieClip {
    /// An empty, stopped clip of one frame.
    pub fn new() -> (r: MovieClip)
        ensures
            r@ == (MovieClipView {
                id: 0,
                current_frame: 0,
                total_frames: 1,
                playing: false,
                tag_stream_pos: 0,
                children: Map::empty(),
                frame_labels: Seq::empty(),
                audio_stream: None,
            }),
    {
        let r = MovieClip {
            id: 0,
            current_frame: 0,
            total_frames: 1,
            playing: false,
            tag_stream_pos: 0,
            children: BTreeMap::new(),
            frame_labels: Vec::new(),
            audio_stream: None,
        };
        proof {
            assert(r.frame_labels@.map_values(|l: (String, FrameNumber)| (l.0@, l.1)) =~= Seq::empty());
        }
        r
    }

    /// A playing clip of the given character id and length.
    pub fn new_with_data(id: u16, num_frames: FrameNumber) -> (r: MovieClip)
        ensures
            r@ == (MovieClipView {
                id,
                current_frame: 0,
                total_frames: num_frames,
                playing: true,
                tag_stream_pos: 0,
                children: Map::empty(),
                frame_labels: Seq::empty(),
                audio_stream: None,
            }),
    {
        let r = MovieClip {
            id,
            current_frame: 0,
            total_frames: num_frames,
            playing: true,
            tag_stream_pos: 0,
            children: BTreeMap::new(),
            frame_labels: Vec::new(),
            audio_stream: None,
        };
        proof {
            assert(r.frame_labels@.map_values(|l: (String, FrameNumber)| (l.0@, l.1)) =~= Seq::empty());
        }
        r
    }

    /// Replace the timeline with a new movie of `total_frames` frames:
    /// playback restarts from the beginning with the new movie's (empty)
    /// labels, the streamed audio is dropped, and the children are kept
    /// across the load.
    pub fn replace_with_movie(&mut self, total_frames: FrameNumber)
        ensures
            final(self)@ == (MovieClipView {
                id: 0,
                current_frame: 0,
                total_frames,
                playing: true,
                tag_stream_pos: 0,
                children: old(self)@.children,
                frame_labels: Seq::empty(),
                audio_stream: None,
            }),
    {
        self.id = 0;
        self.current_frame = 0;
        self.total_frames = total_frames;
        self.playing = true;
        self.tag_stream_pos = 0;
        self.frame_labels = Vec::new();
        self.audio_stream = None;
        proof {
            assert(self.frame_labels@.map_values(|l: (String, FrameNumber)| (l.0@, l.1)) =~= Seq::empty());
        }
    }

    /// The sound stream the clip is playing, if any.
    pub fn audio_stream(&self) -> (r: Option<u32>)
        ensures
            r == self@.audio_stream,
    {
        self.audio_stream
    }

    /// Record the sound stream that the clip's stream blocks started.
    pub fn set_audio_stream(&mut self, handle: u32)
        ensures
            final(self)@ == (MovieClipView { audio_stream: Some(handle), ..old(self)@ }),
    {
        self.audio_stream = Some(handle);
    }

    /// Stop the clip's sound stream: it is returned, for the audio backend
    /// to stop, and the clip has none afterwards.
    pub fn stop_audio_stream(&mut self) -> (r: Option<u32>)
        ensures
            r == old(self)@.audio_stream,
            final(self)@ == (MovieClipView { audio_stream: None, ..old(self)@ }),
    {
        let r = self.audio_stream;
        self.audio_stream = None;
        r
    }

    /// Whether the clip is playing.
    pub fn playing(&self) -> (r: bool)
        ensures
            r == self@.playing,
    {
        self.playing
    }

    /// The current frame.
    pub fn current_frame(&self) -> (r: FrameNumber)
        ensures
            r == self@.current_frame,
    {
        self.current_frame
    }

    /// The number of frames of the clip.
    pub fn total_frames(&self) -> (r: FrameNumber)
        ensures
            r == self@.total_frames,
    {
        self.total_frames
    }

    /// The number of frames loaded: the whole clip.
    pub fn frames_loaded(&self) -> (r: FrameNumber)
        ensures
            r == self@.total_frames,
    {
        self.total_frames
    }

    /// Start playing; only clips with more than one frame play.
    pub fn play(&mut self)
        ensures
            final(self)@ == (MovieClipView { playing: old(self)@.playing || old(self)@.total_frames > 1, ..old(self)@ }),
    {
        if self.total_frames > 1 {
            self.playing = true;
        }
    }

    /// Stop playing.
    pub fn stop(&mut self)
        ensures
            final(self)@ == (MovieClipView { playing: false, ..old(self)@ }),
    {
        self.playing = false;
    }

    /// Prepare a goto to `frame` (1-based): stop or play as asked, clamp the
    /// frame to at least 1, and return how to run the goto, or `None` when
    /// the clip is already on that frame.
    pub fn goto_frame(&mut self, frame: FrameNumber, stop: bool) -> (r: Option<GotoPlan>)
        ensures
            final(self)@ == (MovieClipView {
                playing: if stop { false } else { old(self)@.playing || old(self)@.total_frames > 1 },
                ..old(self)@
            }),
            ({
                let target = if frame < 1 { 1 } else { frame };
                if target == old(self)@.current_frame {
                    r is None
                } else {
                    r == Some(GotoPlan {
                        is_rewind: target < old(self)@.current_frame,
                        clamped_frame: if target <= old(self)@.total_frames { target } else { old(self)@.total_frames },
                    })
                }
            }),
    {
        if stop {
            self.stop();
        } else {
            self.play();
        }
        let frame = if frame < 1 { 1 } else { frame };
        if frame != self.current_frame {
            Some(self.plan_goto(frame))
        } else {
            None
        }
    }

    /// How a goto to `frame` runs from the current frame.
    pub fn plan_goto(&self, frame: FrameNumber) -> (r: GotoPlan)
        ensures
            r == (GotoPlan {
                is_rewind: frame < self@.current_frame,
                clamped_frame: if frame <= self@.total_frames { frame } else { self@.total_frames },
            }),
    {
        GotoPlan {
            is_rewind: frame < self.current_frame,
            clamped_frame: if frame <= self.total_frames { frame } else { self.total_frames },
        }
    }

    /// Reset the playhead to before the first frame, as a rewinding goto
    /// does before replaying the timeline.
    pub fn rewind(&mut self)
        ensures
            final(self)@ == (MovieClipView { current_frame: 0, tag_stream_pos: 0, ..old(self)@ }),
    {
        self.current_frame = 0;
        self.tag_stream_pos = 0;
    }

    /// Queue a goto to the next frame, stopped, if there is one.
    pub fn next_frame(&mut self) -> (r: Option<GotoPlan>)
        ensures
            old(self)@.current_frame < old(self)@.total_frames ==> {
                &&& final(self)@ == (MovieClipView { playing: false, ..old(self)@ })
                &&& r == Some(GotoPlan {
                    is_rewind: false,
                    clamped_frame: (old(self)@.current_frame + 1) as u16,
                })
            },
            old(self)@.current_frame >= old(self)@.total_frames ==> final(self)@ == old(self)@ && r is None,
    {
        if self.current_frame < self.total_frames {
            self.goto_frame(self.current_frame + 1, true)
        } else {
            None
        }
    }

    /// Queue a goto to the previous frame, stopped, if there is one.
    pub fn prev_frame(&mut self) -> (r: Option<GotoPlan>)
        ensures
            old(self)@.current_frame > 1 ==> {
                &&& final(self)@ == (MovieClipView { playing: false, ..old(self)@ })
                &&& r == Some(GotoPlan {
                    is_rewind: true,
                    clamped_frame: if old(self)@.current_frame - 1 <= old(self)@.total_frames {
                        (old(self)@.current_frame - 1) as u16
                    } else {
                        old(self)@.total_frames
                    },
                })
            },
            old(self)@.current_frame <= 1 ==> final(self)@ == old(self)@ && r is None,
    {
        if self.current_frame > 1 {
            self.goto_frame(self.current_frame - 1, true)
        } else {
            None
        }
    }

    /// Run the playhead one frame: advance, loop back to frame 1, or stop a
    /// single-frame clip.
    pub fn advance_frame(&mut self) -> (r: FrameAdvance)
        ensures
            old(self)@.current_frame < old(self)@.total_frames ==> r == FrameAdvance::Advanced && final(self)@
                == (MovieClipView { current_frame: (old(self)@.current_frame + 1) as u16, ..old(self)@ }),
            old(self)@.current_frame >= old(self)@.total_frames && old(self)@.total_frames > 1 ==> r
                == FrameAdvance::Looped && final(self)@ == old(self)@,
            old(self)@.current_frame >= old(self)@.total_frames && old(self)@.total_frames <= 1 ==> r
                == FrameAdvance::Stopped && final(self)@ == (MovieClipView { playing: false, ..old(self)@ }),
    {
        if self.current_frame < self.total_frames {
            self.current_frame = self.current_frame + 1;
            FrameAdvance::Advanced
        } else if self.total_frames > 1 {
            FrameAdvance::Looped
        } else {
            self.stop();
            FrameAdvance::Stopped
        }
    }

    /// Step the playhead forward one frame during a goto, recording the
    /// position reached in the tag stream.
    pub fn step_goto_frame(&mut self, tag_stream_pos: u64)
        requires
            old(self)@.current_frame < u16::MAX,
        ensures
            final(self)@ == (MovieClipView {
                current_frame: (old(self)@.current_frame + 1) as u16,
                tag_stream_pos,
                ..old(self)@
            }),
    {
        self.current_frame = self.current_frame + 1;
        self.tag_stream_pos = tag_stream_pos;
    }

    /// Record a frame label for `frame`; labels are looked up without regard
    /// to ASCII case, and the first definition of a label stands.
    pub fn add_frame_label(&mut self, label: String, frame: FrameNumber)
        ensures
            final(self)@ == (MovieClipView { frame_labels: old(self)@.frame_labels.push((label@, frame)), ..old(self)@ }),
    {
        let ghost l = label@;
        self.frame_labels.push((label, frame));
        proof {
            assert(self.frame_labels@.map_values(|l: (String, FrameNumber)| (l.0@, l.1)) =~= old(
                self,
            ).frame_labels@.map_values(|l: (String, FrameNumber)| (l.0@, l.1)).push((l, frame)));
        }
    }

    /// Record the frame labels a preload walk yielded, in order; the first
    /// definition of a label stands.
    pub fn add_preload_labels(&mut self, outputs: &Vec<PreloadOutput>)
        ensures
            final(self)@ == (MovieClipView {
                frame_labels: old(self)@.frame_labels + preload_labels(outputs_view(outputs@)),
                ..old(self)@
            }),
    {
        let ghost ov = outputs_view(outputs@);
        let mut i: usize = 0;
        proof {
            assert(ov.take(0) =~= Seq::<PreloadOutputView>::empty());
            assert(old(self)@.frame_labels + preload_labels(ov.take(0)) =~= old(self)@.frame_labels);
        }
        while i < outputs.len()
            invariant
                i <= outputs@.len(),
                ov == outputs_view(outputs@),
                self@ == (MovieClipView {
                    frame_labels: old(self)@.frame_labels + preload_labels(ov.take(i as int)),
                    ..old(self)@
                }),
            decreases outputs@.len() - i,
        {
            proof {
                assert(ov.take(i + 1).drop_last() =~= ov.take(i as int));
                assert(ov.take(i + 1).last() == outputs@[i as int]@);
            }
            match &outputs[i] {
                PreloadOutput::Label(l, f) => {
                    let label = l.clone();
                    assert(label@ == l@);
                    self.add_frame_label(label, *f);
                    proof {
                        assert(preload_labels(ov.take(i + 1)) =~= preload_labels(ov.take(i as int)) + seq![(l@, *f)]);
                        assert(self@.frame_labels =~= old(self)@.frame_labels + preload_labels(ov.take(i + 1)));
                    }
                },
                _ => {
                    proof {
                        assert(preload_labels(ov.take(i + 1)) =~= preload_labels(ov.take(i as int)));
                    }
                },
            }
            i = i + 1;
        }
        proof {
            assert(ov.take(i as int) =~= ov);
        }
    }

    /// The frame a label names; labels are case insensitive.
    pub fn frame_label_to_number(&self, frame_label: &str) -> (r: Option<FrameNumber>)
        ensures
            r == label_frame(self@.frame_labels, frame_label@),
    {
        let ghost labels = self@.frame_labels;
        let mut i: usize = 0;
        proof {
            assert(labels.skip(0) =~= labels);
        }
        while i < self.frame_labels.len()
            invariant
                i <= self.frame_labels@.len(),
                labels == self@.frame_labels,
                label_frame(labels, frame_label@) == label_frame(labels.skip(i as int), frame_label@),
            decreases self.frame_labels@.len() - i,
        {
            proof {
                assert(labels.skip(i as int).skip(1) =~= labels.skip(i + 1));
                assert(labels.skip(i as int)[0] == (self.frame_labels@[i as int].0@, self.frame_labels@[i as int].1));
            }
            if equal_ignore_ascii_case(self.frame_labels[i].0.as_str(), frame_label) {
                return Some(self.frame_labels[i].1);
            }
            i = i + 1;
        }
        proof {
            assert(labels.skip(i as int) =~= Seq::<(Seq<char>, FrameNumber)>::empty());
        }
        None
    }

    /// The child at a depth.
    pub fn child_at_depth(&self, depth: Depth) -> (r: Option<DisplayObjectId>)
        ensures
            match r {
                Some(c) => self@.children.contains_key(depth) && self@.children[depth] == c,
                None => !self@.children.contains_key(depth),
            },
    {
        match self.children.get(&depth) {
            Some(c) => Some(*c),
            None => None,
        }
    }

    /// Place a child at a depth, returning the child it replaces, which
    /// the caller removes from the execution list.
    pub fn add_child_from_avm(&mut self, child: DisplayObjectId, depth: Depth) -> (r: Option<DisplayObjectId>)
        ensures
            final(self)@ == (MovieClipView { children: old(self)@.children.insert(depth, child), ..old(self)@ }),
            match r {
                Some(c) => old(self)@.children.contains_key(depth) && old(self)@.children[depth] == c,
                None => !old(self)@.children.contains_key(depth),
            },
    {
        self.children.insert(depth, child)
    }

    /// Remove the child at a depth, returning it.
    pub fn remove_child_from_avm(&mut self, depth: Depth) -> (r: Option<DisplayObjectId>)
        ensures
            final(self)@ == (MovieClipView { children: old(self)@.children.remove(depth), ..old(self)@ }),
            match r {
                Some(c) => old(self)@.children.contains_key(depth) && old(self)@.children[depth] == c,
                None => !old(self)@.children.contains_key(depth),
            },
    {
        self.children.remove(&depth)
    }

    /// Move the child at depth `from` to depth `to`. A child already at
    /// `to` moves to `from`. Returns that displaced child.
    pub fn swap_child_to_depth(&mut self, from: Depth, to: Depth) -> (r: Option<DisplayObjectId>)
        requires
            old(self)@.children.contains_key(from),
        ensures
            final(self)@ == (MovieClipView { children: swapped(old(self)@.children, from, to), ..old(self)@ }),
            match r {
                Some(c) => old(self)@.children.contains_key(to) && old(self)@.children[to] == c,
                None => !old(self)@.children.contains_key(to),
            },
    {
        let child = *self.children.get(&from).unwrap();
        match self.children.insert(to, child) {
            Some(prev) => {
                self.children.insert(from, prev);
                Some(prev)
            },
            None => {
                self.children.remove(&from);
                proof {
                    assert(self.children@ =~= old(self)@.children.remove(from).insert(to, child));
                }
                None
            },
        }
    }

    /// The highest depth in use, or `None` when there are no children.
    pub fn highest_depth(&self) -> (r: Option<Depth>)
        ensures
            match r {
                Some(d) => self@.children.contains_key(d) && forall|k: Depth| #[trigger]
                    self@.children.contains_key(k) ==> k <= d,
                None => self@.children.dom() == Set::<Depth>::empty(),
            },
    {
        let mut d: i32 = 32767;
        while d >= -32768
            invariant
                -32769 <= d <= 32767,
                forall|k: Depth| #[trigger] self@.children.contains_key(k) ==> k <= d,
            decreases d + 32769,
        {
            let depth: Depth = d as i16;
            if self.children.contains_key(&depth) {
                return Some(depth);
            }
            d = d - 1;
        }
        proof {
            assert(self@.children.dom() =~= Set::<Depth>::empty());
        }
        None
    }
}

/// Moving a child to a free depth and back restores the display list.
pub proof fn law_swap_back_to_free_depth(m: Map<Depth, DisplayObjectId>, from: Depth, to: Depth)
    requires
        m.contains_key(from),
        !m.contains_key(to),
    ensures
        swapped(swapped(m, from, to), to, from) == m,
{
    assert(swapped(swapped(m, from, to), to, from) =~= m);
}

/// Exchanging two occupied depths twice restores the display list.
pub proof fn law_swap_twice(m: Map<Depth, DisplayObjectId>, from: Depth, to: Depth)
    requires
        m.contains_key(from),
        m.contains_key(to),
    ensures
        swapped(swapped(m, from, to), to, from) == m,
{
    assert(swapped(swapped(m, from, to), to, from) =~= m);
}

/// What a goto has built as it walks the timeline: the aggregated
/// placement commands, the index the next placement gets, the children,
/// and the children removed on the way, which leave the execution list.
pub ghost struct GotoWalkState {
    pub commands: Seq<GotoView>,
    pub next_index: int,
    pub children: Map<Depth, DisplayObjectId>,
    pub removed: Seq<DisplayObjectId>,
}

/// One display tag met on `frame`. A placement is merged into the commands;
/// a removal drops the command at its depth and, when going forward, also
/// the child that was already there before the goto.
pub open spec fn walk_tag(s: GotoWalkState, tag: GotoTagView, frame: FrameNumber, is_rewind: bool) -> GotoWalkState {
    match tag {
        GotoTagView::Place(p) => GotoWalkState {
            commands: placed(
                s.commands,
                GotoView {
                    frame,
                    place_object: with_rewind_defaults(p, is_rewind),
                    index: s.next_index as usize,
                },
            ),
            next_index: s.next_index + 1,
            ..s
        },
        GotoTagView::Remove(d) => if !is_rewind && s.children.contains_key(d) {
            GotoWalkState {
                commands: removed(s.commands, d),
                children: s.children.remove(d),
                removed: s.removed.push(s.children[d]),
                ..s
            }
        } else {
            GotoWalkState { commands: removed(s.commands, d), ..s }
        },
    }
}

/// The display tags of one frame, in order.
pub open spec fn walk_tags(s: GotoWalkState, tags: Seq<GotoTagView>, frame: FrameNumber, is_rewind: bool) -> GotoWalkState
    decreases tags.len(),
{
    if tags.len() == 0 {
        s
    } else {
        walk_tag(walk_tags(s, tags.drop_last(), frame, is_rewind), tags.last(), frame, is_rewind)
    }
}

/// The frames after `from` up to `to`; the tags of frame `k` are
/// `frames[k - 1]`.
pub open spec fn walk_frames(
    s: GotoWalkState,
    frames: Seq<(u64, Seq<GotoTagView>)>,
    from: int,
    to: int,
    is_rewind: bool,
) -> GotoWalkState
    decreases to - from,
{
    if to <= from {
        s
    } else {
        walk_tags(walk_frames(s, frames, from, to - 1, is_rewind), frames[to - 1].1, to as FrameNumber, is_rewind)
    }
}

/// Removing the children at the given depths, in order, collecting the
/// children removed.
pub open spec fn remove_depths(
    children: Map<Depth, DisplayObjectId>,
    removed: Seq<DisplayObjectId>,
    depths: Seq<Depth>,
) -> (Map<Depth, DisplayObjectId>, Seq<DisplayObjectId>)
    decreases depths.len(),
{
    if depths.len() == 0 {
        (children, removed)
    } else {
        let (c, r) = remove_depths(children, removed, depths.drop_last());
        if c.contains_key(depths.last()) {
            (c.remove(depths.last()), r.push(c[depths.last()]))
        } else {
            (c, r)
        }
    }
}

/// The frame a goto to `frame` walks from: frame 0 for a rewind, which
/// replays the timeline, and the current frame otherwise.
pub open spec fn goto_start(clip: MovieClipView, frame: FrameNumber) -> int {
    if frame < clip.current_frame {
        0
    } else {
        clip.current_frame as int
    }
}

/// The target frame limited to the clip's length.
pub open spec fn goto_clamped(clip: MovieClipView, frame: FrameNumber) -> int {
    if frame <= clip.total_frames {
        frame as int
    } else {
        clip.total_frames as int
    }
}

/// The frame a goto walks to: the clamped target, or the last frame of the
/// timeline if it ends before; no frame is walked when the walk would go
/// backwards.
pub open spec fn goto_end(clip: MovieClipView, num_frames: int, frame: FrameNumber) -> int {
    let lim = if goto_clamped(clip, frame) <= num_frames {
        goto_clamped(clip, frame)
    } else {
        num_frames
    };
    if goto_start(clip, frame) < lim {
        lim
    } else {
        goto_start(clip, frame)
    }
}

/// What a goto to `frame` builds: on a rewind, the children placed after
/// the target are removed first; then the frames are walked.
pub open spec fn goto_walk(
    clip: MovieClipView,
    place_frames: Seq<(Depth, FrameNumber)>,
    frames: Seq<(u64, Seq<GotoTagView>)>,
    frame: FrameNumber,
) -> GotoWalkState {
    let is_rewind = frame < clip.current_frame;
    let (children, gone) = if is_rewind {
        remove_depths(clip.children, Seq::empty(), placed_after(place_frames, frame))
    } else {
        (clip.children, Seq::empty())
    };
    walk_frames(
        GotoWalkState { commands: Seq::empty(), next_index: 1, children, removed: gone },
        frames,
        goto_start(clip, frame),
        goto_end(clip, frames.len() as int, frame),
        is_rewind,
    )
}

/// What a goto leaves to be done once its walk is over.
pub struct GotoWalk {
    /// The goto went backwards.
    pub is_rewind: bool,
    /// The walk reached the target frame: the playhead stands just before
    /// it, and the frame is to be run without its display tags, which
    /// advances the playhead onto it.
    pub hit_target_frame: bool,
    /// The children removed during the goto, which leave the execution list.
    pub removed: Vec<DisplayObjectId>,
    /// The placement commands, to be run on the display list.
    pub commands: GotoCommands,
    /// The sound stream the goto stopped, for the audio backend to stop.
    pub stopped_stream: Option<u32>,
}

proof fn lemma_walk_tags_step(s: GotoWalkState, tags: Seq<GotoTagView>, j: int, frame: FrameNumber, is_rewind: bool)
    requires
        0 <= j < tags.len(),
    ensures
        walk_tags(s, tags.take(j + 1), frame, is_rewind) == walk_tag(
            walk_tags(s, tags.take(j), frame, is_rewind),
            tags[j],
            frame,
            is_rewind,
        ),
{
    assert(tags.take(j + 1).drop_last() =~= tags.take(j));
    assert(tags.take(j + 1).last() == tags[j]);
}

impl MovieClip {
    /// Walk the timeline for a goto to `frame` (at least 1), given the
    /// frame each child was placed on and the display tags of every frame of
    /// the clip. A rewind first restarts the playhead and removes the
    /// children placed after the target; then the frames up to the target,
    /// limited to the clip's length, are stepped through and their tags
    /// aggregated into one command per depth. If the target frame was
    /// reached, the playhead is left just before it, at its position in
    /// the tag stream, for the frame to be run; otherwise it is left on the
    /// clamped target.
    pub fn run_goto(&mut self, place_frames: &[(Depth, FrameNumber)], frames: &Vec<FrameTags>, frame: FrameNumber) -> (r: GotoWalk)
        requires
            frame >= 1,
            tags_before(frames_view(frames@), frames@.len() as int) < usize::MAX,
        ensures
            ({
                let w = goto_walk(old(self)@, place_frames@, frames_view(frames@), frame);
                let start = goto_start(old(self)@, frame);
                let end = goto_end(old(self)@, frames@.len() as int, frame);
                &&& r.is_rewind == (frame < old(self)@.current_frame)
                &&& r.hit_target_frame == (end == frame)
                &&& r.commands@ == w.commands
                &&& r.commands.wf()
                &&& r.removed@ == w.removed
                &&& r.stopped_stream == old(self)@.audio_stream
                &&& final(self)@ == (MovieClipView {
                    current_frame: if end == frame {
                        (frame - 1) as FrameNumber
                    } else {
                        goto_clamped(old(self)@, frame) as FrameNumber
                    },
                    tag_stream_pos: if end == frame && end > start {
                        frames@[end - 1].start
                    } else if r.is_rewind {
                        0
                    } else {
                        old(self)@.tag_stream_pos
                    },
                    children: w.children,
                    audio_stream: None,
                    ..old(self)@
                })
            }),
    {
        let stopped_stream = self.stop_audio_stream();
        let ghost labels0 = self.frame_labels@;
        let ghost fv = frames_view(frames@);
        let ghost old_clip = self@;
        let is_rewind = frame < self.current_frame;
        let mut gone: Vec<DisplayObjectId> = Vec::new();
        if is_rewind {
            self.current_frame = 0;
            self.tag_stream_pos = 0;
            let removals = rewind_removals(place_frames, frame);
            let depths = small_depths_slice(&removals);
            let mut i: usize = 0;
            proof {
                assert(depths@.take(0) =~= Seq::<Depth>::empty());
            }
            while i < depths.len()
                invariant
                    i <= depths@.len(),
                    (self.children@, gone@) == remove_depths(old_clip.children, Seq::empty(), depths@.take(i as int)),
                    self.current_frame == 0,
                    self.tag_stream_pos == 0,
                    self.id == old_clip.id,
                    self.total_frames == old_clip.total_frames,
                    self.playing == old_clip.playing,
                    self.frame_labels@ == labels0,
                    self.audio_stream.is_none(),
                decreases depths@.len() - i,
            {
                proof {
                    assert(depths@.take(i + 1).drop_last() =~= depths@.take(i as int));
                    assert(depths@.take(i + 1).last() == depths@[i as int]);
                }
                match self.children.remove(&depths[i]) {
                    Some(c) => {
                        gone.push(c);
                    },
                    None => {},
                }
                i = i + 1;
            }
            proof {
                assert(depths@.take(i as int) =~= depths@);
            }
        }
        let clamped: FrameNumber = if frame <= self.total_frames {
            frame
        } else {
            self.total_frames
        };
        let ghost start = goto_start(old_clip, frame);
        let ghost w0 = GotoWalkState {
            commands: Seq::empty(),
            next_index: 1,
            children: self.children@,
            removed: gone@,
        };
        let ghost pos0 = self.tag_stream_pos;
        let mut frame_pos: u64 = self.tag_stream_pos;
        let mut commands = GotoCommands::new();
        while self.current_frame < clamped && (self.current_frame as usize) < frames.len()
            invariant
                fv == frames_view(frames@),
                tags_before(fv, fv.len() as int) < usize::MAX,
                start <= self.current_frame,
                self.current_frame == start || (self.current_frame <= clamped && self.current_frame <= frames@.len()),
                (GotoWalkState {
                    commands: commands@,
                    next_index: commands.next_index() as int,
                    children: self.children@,
                    removed: gone@,
                }) == walk_frames(w0, fv, start, self.current_frame as int, is_rewind),
                commands.wf(),
                commands.next_index() <= 1 + tags_before(fv, self.current_frame as int),
                frame_pos == if self.current_frame > start {
                    frames@[self.current_frame - 1].start
                } else {
                    pos0
                },
                self.tag_stream_pos == pos0,
                self.id == old_clip.id,
                self.total_frames == old_clip.total_frames,
                self.playing == old_clip.playing,
                self.frame_labels@ == labels0,
                    self.audio_stream.is_none(),
            decreases clamped - self.current_frame,
        {
            let k = self.current_frame as usize;
            let ghost before = walk_frames(w0, fv, start, k as int, is_rewind);
            self.current_frame = self.current_frame + 1;
            frame_pos = frames[k].start;
            let fnum = self.current_frame;
            let tags = &frames[k].tags;
            let ghost tv = tags_view(tags@);
            proof {
                assert(fv[k as int] == (frames@[k as int].start, tv));
                lemma_tags_before_monotone(fv, k + 1, fv.len() as int);
                assert(tv.take(0) =~= Seq::<GotoTagView>::empty());
            }
            let mut j: usize = 0;
            while j < tags.len()
                invariant
                    j <= tags@.len(),
                    tv == tags_view(tags@),
                    (GotoWalkState {
                        commands: commands@,
                        next_index: commands.next_index() as int,
                        children: self.children@,
                        removed: gone@,
                    }) == walk_tags(before, tv.take(j as int), fnum, is_rewind),
                    commands.wf(),
                    commands.next_index() <= 1 + tags_before(fv, k as int) + j,
                    tags_before(fv, k + 1) == tags_before(fv, k as int) + tv.len(),
                    tags_before(fv, k + 1) < usize::MAX,
                    self.current_frame == fnum,
                    self.tag_stream_pos == pos0,
                    self.id == old_clip.id,
                    self.total_frames == old_clip.total_frames,
                    self.playing == old_clip.playing,
                    self.frame_labels@ == labels0,
                    self.audio_stream.is_none(),
                decreases tags@.len() - j,
            {
                proof {
                    lemma_walk_tags_step(before, tv, j as int, fnum, is_rewind);
                    assert(tv[j as int] == tags@[j as int]@);
                }
                let ghost cur = walk_tags(before, tv.take(j as int), fnum, is_rewind);
                let ghost next = walk_tag(cur, tv[j as int], fnum, is_rewind);
                match &tags[j] {
                    GotoTag::Place(p) => {
                        commands.place_object(fnum, p.duplicate(), is_rewind);
                        assert(commands@ =~= next.commands);
                    },
                    GotoTag::Remove(d) => {
                        commands.remove_object(*d);
                        assert(commands@ =~= next.commands);
                        if !is_rewind {
                            match self.children.remove(d) {
                                Some(c) => {
                                    gone.push(c);
                                },
                                None => {},
                            }
                        }
                        assert(self.children@ =~= next.children);
                        assert(gone@ =~= next.removed);
                    },
                }
                j = j + 1;
            }
            proof {
                assert(tv.take(j as int) =~= tv);
            }
        }
        let hit = self.current_frame == frame;
        if hit {
            self.current_frame = frame - 1;
            self.tag_stream_pos = frame_pos;
        } else {
            self.current_frame = clamped;
        }
        GotoWalk { is_rewind, hit_target_frame: hit, removed: gone, commands, stopped_stream }
    }
}

proof fn lemma_remove_depths_removes(
    children: Map<Depth, DisplayObjectId>,
    gone: Seq<DisplayObjectId>,
    depths: Seq<Depth>,
    i: int,
)
    requires
        0 <= i < depths.len(),
    ensures
        !remove_depths(children, gone, depths).0.contains_key(depths[i]),
    decreases depths.len(),
{
    let (c, r) = remove_depths(children, gone, depths.drop_last());
    if i < depths.len() - 1 {
        assert(depths.drop_last()[i] == depths[i]);
        lemma_remove_depths_removes(children, gone, depths.drop_last(), i);
    }
}

proof fn lemma_placed_after_has(place_frames: Seq<(Depth, FrameNumber)>, frame: FrameNumber, i: int)
    requires
        0 <= i < place_frames.len(),
        place_frames[i].1 > frame,
    ensures
        placed_after(place_frames, frame).contains(place_frames[i].0),
    decreases place_frames.len(),
{
    let init = place_frames.drop_last();
    if i < place_frames.len() - 1 {
        assert(init[i] == place_frames[i]);
        lemma_placed_after_has(init, frame, i);
        let k = choose|k: int| 0 <= k < placed_after(init, frame).len() && placed_after(init, frame)[k] == place_frames[i].0;
        assert(placed_after(place_frames, frame)[k] == place_frames[i].0);
    } else {
        let pa = placed_after(place_frames, frame);
        assert(pa[pa.len() - 1] == place_frames.last().0);
    }
}

proof fn lemma_rewind_walk_keeps_children(s: GotoWalkState, frames: Seq<(u64, Seq<GotoTagView>)>, from: int, to: int)
    ensures
        walk_frames(s, frames, from, to, true).children == s.children,
    decreases to - from,
{
    if to > from {
        lemma_rewind_walk_keeps_children(s, frames, from, to - 1);
        lemma_rewind_tags_keep_children(walk_frames(s, frames, from, to - 1, true), frames[to - 1].1, to as FrameNumber);
    }
}

proof fn lemma_rewind_tags_keep_children(s: GotoWalkState, tags: Seq<GotoTagView>, frame: FrameNumber)
    ensures
        walk_tags(s, tags, frame, true).children == s.children,
    decreases tags.len(),
{
    if tags.len() > 0 {
        lemma_rewind_tags_keep_children(s, tags.drop_last(), frame);
    }
}

/// Where a goto ends: on the target frame, limited to the clip's length.
/// When the walk reaches the target, the playhead stands just before it and
/// running the frame advances it there. A rewind leaves none of the
/// children placed after the target. The one exception to the first part
/// is a goto to the current frame of a playhead past the clip's end: it
/// stays on that frame.
pub proof fn law_goto_end_state(
    clip: MovieClipView,
    place_frames: Seq<(Depth, FrameNumber)>,
    frames: Seq<(u64, Seq<GotoTagView>)>,
    frame: FrameNumber,
)
    requires
        frame >= 1,
        !(frame == clip.current_frame && frame > clip.total_frames),
    ensures
        (if goto_end(clip, frames.len() as int, frame) == frame {
            frame as int
        } else {
            goto_clamped(clip, frame)
        }) == (if frame <= clip.total_frames {
            frame as int
        } else {
            clip.total_frames as int
        }),
        frame < clip.current_frame ==> forall|i: int|
            0 <= i < place_frames.len() && (#[trigger] place_frames[i]).1 > frame ==> !goto_walk(
                clip,
                place_frames,
                frames,
                frame,
            ).children.contains_key(place_frames[i].0),
{
    if frame < clip.current_frame {
        let (children, gone) = remove_depths(clip.children, Seq::empty(), placed_after(place_frames, frame));
        let w0 = GotoWalkState { commands: Seq::empty(), next_index: 1, children, removed: gone };
        lemma_rewind_walk_keeps_children(
            w0,
            frames,
            goto_start(clip, frame),
            goto_end(clip, frames.len() as int, frame),
        );
        assert forall|i: int| 0 <= i < place_frames.len() && (#[trigger] place_frames[i]).1 > frame implies !goto_walk(
            clip,
            place_frames,
            frames,
            frame,
        ).children.contains_key(place_frames[i].0) by {
            lemma_placed_after_has(place_frames, frame, i);
            let pa = placed_after(place_frames, frame);
            let k = choose|k: int| 0 <= k < pa.len() && pa[k] == place_frames[i].0;
            lemma_remove_depths_removes(clip.children, Seq::empty(), pa, k);
        }
    }
}

} // verus!
