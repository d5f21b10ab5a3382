//! Sound streams: while a clip preloads, the blocks of its sound stream are
//! collected into one buffer per clip.

use std::collections::BTreeMap;
use vstd::prelude::*;

verus! {

broadcast use {vstd::laws_cmp::group_laws_cmp, vstd::std_specs::btree::group_btree_axioms};

/// How a sound's samples are encoded.
#[derive(Clone, Copy, Debug, PartialEq, Eq, Structural)]
pub enum AudioCompression {
    UncompressedUnknownEndian,
    Adpcm,
    Mp3,
    Uncompressed,
    Nellymoser16Khz,
    Nellymoser8Khz,
    Nellymoser,
    Speex,
}

/// The format of a sound.
#[derive(Clone, Copy, Debug, PartialEq, Eq, Structural)]
pub struct SoundFormat {
    pub compression: AudioCompression,
    pub sample_rate: u16,
    pub is_stereo: bool,
    pub is_16_bit: bool,
}

/// The bytes in front of the samples of a stream block: an MP3 block
/// starts with its sample count and seek offset.
pub open spec fn block_header_len(compression: AudioCompression) -> int {
    if compression == AudioCompression::Mp3 {
        4
    } else {
        2
    }
}

/// The sound stream of a clip: its format and the samples collected so far.
#[derive(Clone, Debug)]
pub struct StreamData {
    pub format: SoundFormat,
    pub audio_data: Vec<u8>,
}

/// The mathematical form of a [`StreamData`].
pub ghost struct StreamView {
    pub format: SoundFormat,
    pub audio_data: Seq<u8>,
}

impl View for StreamData {
    type V = StreamView;

    open spec fn view(&self) -> StreamView {
        StreamView { format: self.format, audio_data: self.audio_data@ }
    }
}

/// The sound streams being preloaded, by clip id.
pub struct StreamPreloader {
    streams: BTreeMap<u16, StreamData>,
}

impl View for StreamPreloader {
    type V = Map<u16, StreamView>;

    closed spec fn view(&self) -> Map<u16, StreamView> {
        self.streams@.map_values(|s: StreamData| s@)
    }
}

impl StreamPreloader {
    /// No streams.
    pub fn new() -> (r: Self)
        ensures
            r@ == Map::<u16, StreamView>::empty(),
    {
        let r = StreamPreloader { streams: BTreeMap::new() };
        assert(r@ =~= Map::<u16, StreamView>::empty());
        r
    }

    /// A clip's sound stream head: the clip gets an empty stream of that
    /// format, unless it has one already.
    pub fn preload_sound_stream_head(&mut self, clip_id: u16, format: SoundFormat)
        ensures
            final(self)@ == if old(self)@.contains_key(clip_id) {
                old(self)@
            } else {
                old(self)@.insert(clip_id, StreamView { format, audio_data: Seq::empty() })
            },
    {
        if !self.streams.contains_key(&clip_id) {
            let ghost before = self@;
            self.streams.insert(clip_id, StreamData { format, audio_data: Vec::new() });
            proof {
                assert(self@ =~= before.insert(clip_id, StreamView { format, audio_data: Seq::empty() }));
            }
        }
    }

    /// A block of a clip's sound stream: its samples, after the block's
    /// header, are appended to the stream. A clip without a stream head
    /// keeps no samples.
    pub fn preload_sound_stream_block(&mut self, clip_id: u16, audio_data: &[u8])
        requires
            old(self)@.contains_key(clip_id) ==> audio_data@.len() >= block_header_len(
                old(self)@[clip_id].format.compression,
            ),
        ensures
            final(self)@ == if old(self)@.contains_key(clip_id) {
                let s = old(self)@[clip_id];
                old(self)@.insert(
                    clip_id,
                    StreamView {
                        audio_data: s.audio_data + audio_data@.skip(block_header_len(s.format.compression)),
                        ..s
                    },
                )
            } else {
                old(self)@
            },
    {
        let ghost before = self@;
        if let Some(mut stream) = self.streams.remove(&clip_id) {
            let skip: usize = if stream.format.compression == AudioCompression::Mp3 {
                4
            } else {
                2
            };
            let ghost old_data = stream.audio_data@;
            let mut i: usize = skip;
            while i < audio_data.len()
                invariant
                    skip <= i <= audio_data@.len(),
                    stream.audio_data@ == old_data + audio_data@.subrange(skip as int, i as int),
                    stream.format == before[clip_id].format,
                decreases audio_data@.len() - i,
            {
                stream.audio_data.push(audio_data[i]);
                i = i + 1;
                proof {
                    assert(stream.audio_data@ =~= old_data + audio_data@.subrange(skip as int, i as int));
                }
            }
            let ghost v = stream@;
            self.streams.insert(clip_id, stream);
            proof {
                assert(audio_data@.subrange(skip as int, audio_data@.len() as int) =~= audio_data@.skip(skip as int));
                assert(self@ =~= before.insert(clip_id, v));
            }
        } else {
            proof {
                assert(self@ =~= before);
            }
        }
    }

    /// The end of a clip's preload: its stream, if it has one, is complete
    /// and leaves the preloader.
    pub fn preload_sound_stream_end(&mut self, clip_id: u16) -> (r: Option<StreamData>)
        ensures
            final(self)@ == old(self)@.remove(clip_id),
            match r {
                Some(s) => old(self)@.contains_key(clip_id) && s@ == old(self)@[clip_id],
                None => !old(self)@.contains_key(clip_id),
            },
    {
        let ghost before = self@;
        let r = self.streams.remove(&clip_id);
        proof {
            assert(self@ =~= before.remove(clip_id));
        }
        r
    }
}

} // verus!
