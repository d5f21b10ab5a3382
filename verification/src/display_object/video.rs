//! Video players: the encoded frames of a SWF video stream, by frame number.

use std::collections::BTreeMap;
use vstd::prelude::*;

verus! {

broadcast use {vstd::laws_cmp::group_laws_cmp, vstd::std_specs::btree::group_btree_axioms};

/// A DefineVideoStream tag: the stream's character id and dimensions.
#[derive(Clone, Copy, Debug, PartialEq, Eq, Structural)]
pub struct DefineVideoStream {
    pub id: u16,
    pub num_frames: u16,
    pub width: u16,
    pub height: u16,
}

/// A video player tied to a SWF file's video stream.
pub struct Video {
    streamdef: DefineVideoStream,
    frames: BTreeMap<u16, Vec<u8>>,
}

/// The mathematical form of a [`Video`].
pub ghost struct VideoView {
    pub streamdef: DefineVideoStream,
    pub frames: Map<u16, Seq<u8>>,
}

impl View for Video {
    type V = VideoView;

    closed spec fn view(&self) -> VideoView {
        VideoView { streamdef: self.streamdef, frames: self.frames@.map_values(|f: Vec<u8>| f@) }
    }
}

impl Video {
    /// A player of a stream, with no frame data yet.
    pub fn from_swf_tag(streamdef: DefineVideoStream) -> (r: Self)
        ensures
            r@ == (VideoView { streamdef, frames: Map::empty() }),
    {
        let r = Video { streamdef, frames: BTreeMap::new() };
        assert(r@.frames =~= Map::<u16, Seq<u8>>::empty());
        r
    }

    /// Store the encoded data of a frame, replacing earlier data of that frame.
    pub fn preload_swf_frame(&mut self, frame_num: u16, data: Vec<u8>)
        ensures
            final(self)@ == (VideoView { frames: old(self)@.frames.insert(frame_num, data@), ..old(self)@ }),
    {
        let ghost d = data@;
        self.frames.insert(frame_num, data);
        proof {
            assert(self@.frames =~= old(self)@.frames.insert(frame_num, d));
        }
    }

    /// The character id of the stream.
    pub fn id(&self) -> (r: u16)
        ensures
            r == self@.streamdef.id,
    {
        self.streamdef.id
    }

    /// The encoded data of a frame, if it was preloaded.
    pub fn frame(&self, frame_num: u16) -> (r: Option<&Vec<u8>>)
        ensures
            match r {
                Some(f) => self@.frames.contains_key(frame_num) && f@ == self@.frames[frame_num],
                None => !self@.frames.contains_key(frame_num),
            },
    {
        self.frames.get(&frame_num)
    }
}

} // verus!
