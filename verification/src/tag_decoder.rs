//! The SWF tag stream: tag codes, tag headers, and the walk over a
//! stream's tags up to a stop tag.

use vstd::prelude::*;

verus! {

/// Whether the tag walk goes on after a tag.
#[derive(Clone, Copy, Debug, PartialEq, Eq, Structural)]
pub enum DecoderStatus {
    Continue,
    Stop,
}

/// The SWF tags, by their codes in the file format.
#[derive(Clone, Copy, Debug, PartialEq, Eq, Structural)]
pub enum TagCode {
    End,
    ShowFrame,
    DefineShape,
    PlaceObject,
    RemoveObject,
    DefineBits,
    DefineButton,
    JpegTables,
    SetBackgroundColor,
    DefineFont,
    DefineText,
    DoAction,
    DefineFontInfo,
    DefineSound,
    StartSound,
    DefineButtonSound,
    SoundStreamHead,
    SoundStreamBlock,
    DefineBitsLossless,
    DefineBitsJpeg2,
    DefineShape2,
    DefineButtonCxform,
    Protect,
    PlaceObject2,
    RemoveObject2,
    DefineShape3,
    DefineText2,
    DefineButton2,
    DefineBitsJpeg3,
    DefineBitsLossless2,
    DefineEditText,
    DefineSprite,
    FrameLabel,
    SoundStreamHead2,
    DefineMorphShape,
    DefineFont2,
    ExportAssets,
    ImportAssets,
    EnableDebugger,
    DoInitAction,
    DefineVideoStream,
    VideoFrame,
    DefineFontInfo2,
    EnableDebugger2,
    ScriptLimits,
    SetTabIndex,
    FileAttributes,
    PlaceObject3,
    ImportAssets2,
    DefineFontAlignZones,
    CsmTextSettings,
    DefineFont3,
    SymbolClass,
    Metadata,
    DefineScalingGrid,
    DoAbc,
    DefineShape4,
    DefineMorphShape2,
    DefineSceneAndFrameLabelData,
    DefineBinaryData,
    DefineFontName,
    StartSound2,
    DefineBitsJpeg4,
    DefineFont4,
    EnableTelemetry,
    PlaceObject4,
}

/// The code of each tag in the file format.
pub open spec fn tag_number(tag: TagCode) -> u16 {
    match tag {
        TagCode::End => 0,
        TagCode::ShowFrame => 1,
        TagCode::DefineShape => 2,
        TagCode::PlaceObject => 4,
        TagCode::RemoveObject => 5,
        TagCode::DefineBits => 6,
        TagCode::DefineButton => 7,
        TagCode::JpegTables => 8,
        TagCode::SetBackgroundColor => 9,
        TagCode::DefineFont => 10,
        TagCode::DefineText => 11,
        TagCode::DoAction => 12,
        TagCode::DefineFontInfo => 13,
        TagCode::DefineSound => 14,
        TagCode::StartSound => 15,
        TagCode::DefineButtonSound => 17,
        TagCode::SoundStreamHead => 18,
        TagCode::SoundStreamBlock => 19,
        TagCode::DefineBitsLossless => 20,
        TagCode::DefineBitsJpeg2 => 21,
        TagCode::DefineShape2 => 22,
        TagCode::DefineButtonCxform => 23,
        TagCode::Protect => 24,
        TagCode::PlaceObject2 => 26,
        TagCode::RemoveObject2 => 28,
        TagCode::DefineShape3 => 32,
        TagCode::DefineText2 => 33,
        TagCode::DefineButton2 => 34,
        TagCode::DefineBitsJpeg3 => 35,
        TagCode::DefineBitsLossless2 => 36,
        TagCode::DefineEditText => 37,
        TagCode::DefineSprite => 39,
        TagCode::FrameLabel => 43,
        TagCode::SoundStreamHead2 => 45,
        TagCode::DefineMorphShape => 46,
        TagCode::DefineFont2 => 48,
        TagCode::ExportAssets => 56,
        TagCode::ImportAssets => 57,
        TagCode::EnableDebugger => 58,
        TagCode::DoInitAction => 59,
        TagCode::DefineVideoStream => 60,
        TagCode::VideoFrame => 61,
        TagCode::DefineFontInfo2 => 62,
        TagCode::EnableDebugger2 => 64,
        TagCode::ScriptLimits => 65,
        TagCode::SetTabIndex => 66,
        TagCode::FileAttributes => 69,
        TagCode::PlaceObject3 => 70,
        TagCode::ImportAssets2 => 71,
        TagCode::DefineFontAlignZones => 73,
        TagCode::CsmTextSettings => 74,
        TagCode::DefineFont3 => 75,
        TagCode::SymbolClass => 76,
        TagCode::Metadata => 77,
        TagCode::DefineScalingGrid => 78,
        TagCode::DoAbc => 82,
        TagCode::DefineShape4 => 83,
        TagCode::DefineMorphShape2 => 84,
        TagCode::DefineSceneAndFrameLabelData => 86,
        TagCode::DefineBinaryData => 87,
        TagCode::DefineFontName => 88,
        TagCode::StartSound2 => 89,
        TagCode::DefineBitsJpeg4 => 90,
        TagCode::DefineFont4 => 91,
        TagCode::EnableTelemetry => 93,
        TagCode::PlaceObject4 => 94,
    }
}

/// The tag with a given code, if the format defines one.
pub open spec fn tag_of(code: u16) -> Option<TagCode> {
    if exists|t: TagCode| tag_number(t) == code {
        Some(choose|t: TagCode| tag_number(t) == code)
    } else {
        None
    }
}

impl TagCode {
    /// The code of this tag in the file format.
    pub fn code(self) -> (r: u16)
        ensures
            r == tag_number(self),
    {
        match self {
            TagCode::End => 0,
            TagCode::ShowFrame => 1,
            TagCode::DefineShape => 2,
            TagCode::PlaceObject => 4,
            TagCode::RemoveObject => 5,
            TagCode::DefineBits => 6,
            TagCode::DefineButton => 7,
            TagCode::JpegTables => 8,
            TagCode::SetBackgroundColor => 9,
            TagCode::DefineFont => 10,
            TagCode::DefineText => 11,
            TagCode::DoAction => 12,
            TagCode::DefineFontInfo => 13,
            TagCode::DefineSound => 14,
            TagCode::StartSound => 15,
            TagCode::DefineButtonSound => 17,
            TagCode::SoundStreamHead => 18,
            TagCode::SoundStreamBlock => 19,
            TagCode::DefineBitsLossless => 20,
            TagCode::DefineBitsJpeg2 => 21,
            TagCode::DefineShape2 => 22,
            TagCode::DefineButtonCxform => 23,
            TagCode::Protect => 24,
            TagCode::PlaceObject2 => 26,
            TagCode::RemoveObject2 => 28,
            TagCode::DefineShape3 => 32,
            TagCode::DefineText2 => 33,
            TagCode::DefineButton2 => 34,
            TagCode::DefineBitsJpeg3 => 35,
            TagCode::DefineBitsLossless2 => 36,
            TagCode::DefineEditText => 37,
            TagCode::DefineSprite => 39,
            TagCode::FrameLabel => 43,
            TagCode::SoundStreamHead2 => 45,
            TagCode::DefineMorphShape => 46,
            TagCode::DefineFont2 => 48,
            TagCode::ExportAssets => 56,
            TagCode::ImportAssets => 57,
            TagCode::EnableDebugger => 58,
            TagCode::DoInitAction => 59,
            TagCode::DefineVideoStream => 60,
            TagCode::VideoFrame => 61,
            TagCode::DefineFontInfo2 => 62,
            TagCode::EnableDebugger2 => 64,
            TagCode::ScriptLimits => 65,
            TagCode::SetTabIndex => 66,
            TagCode::FileAttributes => 69,
            TagCode::PlaceObject3 => 70,
            TagCode::ImportAssets2 => 71,
            TagCode::DefineFontAlignZones => 73,
            TagCode::CsmTextSettings => 74,
            TagCode::DefineFont3 => 75,
            TagCode::SymbolClass => 76,
            TagCode::Metadata => 77,
            TagCode::DefineScalingGrid => 78,
            TagCode::DoAbc => 82,
            TagCode::DefineShape4 => 83,
            TagCode::DefineMorphShape2 => 84,
            TagCode::DefineSceneAndFrameLabelData => 86,
            TagCode::DefineBinaryData => 87,
            TagCode::DefineFontName => 88,
            TagCode::StartSound2 => 89,
            TagCode::DefineBitsJpeg4 => 90,
            TagCode::DefineFont4 => 91,
            TagCode::EnableTelemetry => 93,
            TagCode::PlaceObject4 => 94,
        }
    }

    /// The tag with a given code; `None` for a code the format does not define.
    pub fn from_u16(code: u16) -> (r: Option<TagCode>)
        ensures
            r == tag_of(code),
    {
        let r = match code {
            0 => Some(TagCode::End),
            1 => Some(TagCode::ShowFrame),
            2 => Some(TagCode::DefineShape),
            4 => Some(TagCode::PlaceObject),
            5 => Some(TagCode::RemoveObject),
            6 => Some(TagCode::DefineBits),
            7 => Some(TagCode::DefineButton),
            8 => Some(TagCode::JpegTables),
            9 => Some(TagCode::SetBackgroundColor),
            10 => Some(TagCode::DefineFont),
            11 => Some(TagCode::DefineText),
            12 => Some(TagCode::DoAction),
            13 => Some(TagCode::DefineFontInfo),
            14 => Some(TagCode::DefineSound),
            15 => Some(TagCode::StartSound),
            17 => Some(TagCode::DefineButtonSound),
            18 => Some(TagCode::SoundStreamHead),
            19 => Some(TagCode::SoundStreamBlock),
            20 => Some(TagCode::DefineBitsLossless),
            21 => Some(TagCode::DefineBitsJpeg2),
            22 => Some(TagCode::DefineShape2),
            23 => Some(TagCode::DefineButtonCxform),
            24 => Some(TagCode::Protect),
            26 => Some(TagCode::PlaceObject2),
            28 => Some(TagCode::RemoveObject2),
            32 => Some(TagCode::DefineShape3),
            33 => Some(TagCode::DefineText2),
            34 => Some(TagCode::DefineButton2),
            35 => Some(TagCode::DefineBitsJpeg3),
            36 => Some(TagCode::DefineBitsLossless2),
            37 => Some(TagCode::DefineEditText),
            39 => Some(TagCode::DefineSprite),
            43 => Some(TagCode::FrameLabel),
            45 => Some(TagCode::SoundStreamHead2),
            46 => Some(TagCode::DefineMorphShape),
            48 => Some(TagCode::DefineFont2),
            56 => Some(TagCode::ExportAssets),
            57 => Some(TagCode::ImportAssets),
            58 => Some(TagCode::EnableDebugger),
            59 => Some(TagCode::DoInitAction),
            60 => Some(TagCode::DefineVideoStream),
            61 => Some(TagCode::VideoFrame),
            62 => Some(TagCode::DefineFontInfo2),
            64 => Some(TagCode::EnableDebugger2),
            65 => Some(TagCode::ScriptLimits),
            66 => Some(TagCode::SetTabIndex),
            69 => Some(TagCode::FileAttributes),
            70 => Some(TagCode::PlaceObject3),
            71 => Some(TagCode::ImportAssets2),
            73 => Some(TagCode::DefineFontAlignZones),
            74 => Some(TagCode::CsmTextSettings),
            75 => Some(TagCode::DefineFont3),
            76 => Some(TagCode::SymbolClass),
            77 => Some(TagCode::Metadata),
            78 => Some(TagCode::DefineScalingGrid),
            82 => Some(TagCode::DoAbc),
            83 => Some(TagCode::DefineShape4),
            84 => Some(TagCode::DefineMorphShape2),
            86 => Some(TagCode::DefineSceneAndFrameLabelData),
            87 => Some(TagCode::DefineBinaryData),
            88 => Some(TagCode::DefineFontName),
            89 => Some(TagCode::StartSound2),
            90 => Some(TagCode::DefineBitsJpeg4),
            91 => Some(TagCode::DefineFont4),
            93 => Some(TagCode::EnableTelemetry),
            94 => Some(TagCode::PlaceObject4),
            _ => None,
        };
        proof {
            lemma_tag_number_injective();
            match r {
                Some(t) => {
                    assert(tag_number(t) == code);
                },
                None => {
                    assert forall|t: TagCode| tag_number(t) != code by {
                        match t {
                            _ => {},
                        }
                    }
                },
            }
        }
        r
    }
}

proof fn lemma_tag_number_injective()
    ensures
        forall|a: TagCode, b: TagCode| tag_number(a) == tag_number(b) ==> a == b,
{
    assert forall|a: TagCode, b: TagCode| tag_number(a) == tag_number(b) implies a == b by {
        match a {
            _ => match b {
                _ => {},
            },
        }
    }
}

/// Reading a tag's code gives the tag back.
pub proof fn law_tag_code_round_trip(tag: TagCode)
    ensures
        tag_of(tag_number(tag)) == Some(tag),
{
    lemma_tag_number_injective();
}


/// A tag's header, read from a tag stream.
#[derive(Clone, Copy, Debug, PartialEq, Eq, Structural)]
pub struct TagHeader {
    /// The tag's code, and the tag it names, if the format defines one.
    pub code: u16,
    pub tag: Option<TagCode>,
    /// Where the tag's body starts in the stream, and its length in bytes.
    pub body_start: usize,
    pub length: usize,
}

/// The little-endian 16-bit word at `pos`.
pub open spec fn le_u16(data: Seq<u8>, pos: int) -> int {
    data[pos] + 256 * data[pos + 1]
}

/// The little-endian 32-bit word at `pos`.
pub open spec fn le_u32(data: Seq<u8>, pos: int) -> int {
    le_u16(data, pos) + 65536 * le_u16(data, pos + 2)
}

/// The tag header at `pos`: a 16-bit word whose upper ten bits are the
/// code and whose lower six bits are the body's length, where a length of
/// 63 means that a 32-bit length follows. `None` where the stream ends first.
pub open spec fn tag_header_at(data: Seq<u8>, pos: int) -> Option<TagHeader> {
    if pos < 0 || pos + 2 > data.len() {
        None
    } else {
        let word = le_u16(data, pos);
        let code = (word / 64) as u16;
        let short_len = word % 64;
        if short_len < 63 {
            Some(TagHeader { code, tag: tag_of(code), body_start: (pos + 2) as usize, length: short_len as usize })
        } else if pos + 6 > data.len() {
            None
        } else {
            Some(TagHeader { code, tag: tag_of(code), body_start: (pos + 6) as usize, length: le_u32(data, pos + 2) as usize })
        }
    }
}

/// Read the tag header at `pos`.
pub fn read_tag_code_and_length(data: &[u8], pos: usize) -> (r: Option<TagHeader>)
    ensures
        r == tag_header_at(data@, pos as int),
{
    if data.len() < 2 || pos > data.len() - 2 {
        return None;
    }
    let word: u16 = data[pos] as u16 | (data[pos + 1] as u16) << 8u16;
    let lo = data[pos];
    let hi = data[pos + 1];
    assert(word == lo + 256 * hi) by (bit_vector)
        requires
            word == (lo as u16 | (hi as u16) << 8u16),
    ;
    let code: u16 = word >> 6u16;
    let short_len: u16 = word & 0b111111u16;
    assert(code == word / 64 && short_len == word % 64) by (bit_vector)
        requires
            code == word >> 6u16,
            short_len == word & 0b111111u16,
    ;
    let tag = TagCode::from_u16(code);
    if short_len < 63 {
        Some(TagHeader { code, tag, body_start: pos + 2, length: short_len as usize })
    } else if data.len() - pos < 6 {
        None
    } else {
        let b0 = data[pos + 2] as u32;
        let b1 = data[pos + 3] as u32;
        let b2 = data[pos + 4] as u32;
        let b3 = data[pos + 5] as u32;
        let length: u32 = b0 | b1 << 8u32 | b2 << 16u32 | b3 << 24u32;
        assert(length == b0 + 256 * b1 + 65536 * (b2 + 256 * b3)) by (bit_vector)
            requires
                length == (b0 | b1 << 8u32 | b2 << 16u32 | b3 << 24u32),
                b0 < 256,
                b1 < 256,
                b2 < 256,
                b3 < 256,
        ;
        Some(TagHeader { code, tag, body_start: pos + 6, length: length as usize })
    }
}

/// Where the tag after `header` starts.
pub open spec fn tag_end(header: TagHeader) -> int {
    header.body_start + header.length
}

/// The tags from `pos`, up to and including the first `stop_tag`, and
/// whether that tag was reached; the walk ends early where a header, or
/// the next tag's start, lies past the stream's end.
pub open spec fn tags_from(data: Seq<u8>, pos: int, stop_tag: TagCode) -> (Seq<TagHeader>, bool)
    decreases data.len() - pos,
{
    match tag_header_at(data, pos) {
        None => (Seq::empty(), false),
        Some(h) => if h.tag == Some(stop_tag) {
            (seq![h], true)
        } else if !(pos < tag_end(h) <= data.len()) {
            (seq![h], false)
        } else {
            let rest = tags_from(data, tag_end(h), stop_tag);
            (seq![h] + rest.0, rest.1)
        },
    }
}

/// The outcome of a walk over a tag stream.
pub struct TagWalk {
    /// The headers read, in order.
    pub tags: Vec<TagHeader>,
    /// Whether the walk reached its stop tag; otherwise the stream ended.
    pub stopped: bool,
}

/// By default, a tag walk stops at the end tag.
pub fn stop_at_tag(tag: TagCode) -> (r: bool)
    ensures
        r == (tag == TagCode::End),
{
    tag == TagCode::End
}

/// Walk the tags of a stream from `start` until `stop_tag`, which is included.
pub fn decode_tags(data: &[u8], start: usize, stop_tag: TagCode) -> (r: TagWalk)
    ensures
        r.tags@ == tags_from(data@, start as int, stop_tag).0,
        r.stopped == tags_from(data@, start as int, stop_tag).1,
{
    let ghost target = tags_from(data@, start as int, stop_tag);
    let mut tags: Vec<TagHeader> = Vec::new();
    let mut pos = start;
    if pos > data.len() {
        return TagWalk { tags, stopped: false };
    }
    loop
        invariant
            target == tags_from(data@, start as int, stop_tag),
            pos <= data@.len(),
            tags@ + tags_from(data@, pos as int, stop_tag).0 == target.0,
            tags_from(data@, pos as int, stop_tag).1 == target.1,
        decreases data@.len() - pos,
    {
        let ghost before = tags@;
        match read_tag_code_and_length(data, pos) {
            None => {
                proof {
                    assert(tags@ =~= target.0);
                }
                return TagWalk { tags, stopped: false };
            },
            Some(h) => {
                tags.push(h);
                let is_stop = match h.tag {
                    Some(t) => t == stop_tag,
                    None => false,
                };
                if is_stop {
                    proof {
                        assert(tags@ =~= target.0);
                    }
                    return TagWalk { tags, stopped: true };
                }
                if h.length > data.len() - h.body_start {
                    proof {
                        assert(tags@ =~= target.0);
                    }
                    return TagWalk { tags, stopped: false };
                }
                proof {
                    let rest = tags_from(data@, tag_end(h), stop_tag);
                    assert(tags_from(data@, pos as int, stop_tag).0 == seq![h] + rest.0);
                    assert(tags@ + rest.0 =~= before + (seq![h] + rest.0));
                }
                pos = h.body_start + h.length;
            },
        }
    }
}

/// The tags of a walk lie end to end: each header after the first is the
/// one at the end of the tag before it.
pub proof fn law_tags_end_to_end(data: Seq<u8>, pos: int, stop_tag: TagCode, k: int)
    requires
        0 <= k,
        k + 1 < tags_from(data, pos, stop_tag).0.len(),
    ensures
        tag_header_at(data, tag_end(tags_from(data, pos, stop_tag).0[k])) == Some(
            tags_from(data, pos, stop_tag).0[k + 1],
        ),
    decreases data.len() - pos,
{
    let h = tag_header_at(data, pos).unwrap();
    let rest = tags_from(data, tag_end(h), stop_tag);
    assert(tags_from(data, pos, stop_tag).0 == seq![h] + rest.0);
    if k > 0 {
        law_tags_end_to_end(data, tag_end(h), stop_tag, k - 1);
    } else {
        let next = tag_header_at(data, tag_end(h)).unwrap();
        assert(rest.0[0] == next);
    }
}


/// The bytes of a short tag header: the code in the upper ten bits and the
/// length in the lower six bits of a little-endian 16-bit word.
pub open spec fn short_header_bytes(code: int, length: int) -> Seq<u8> {
    let w = code * 64 + length;
    seq![(w % 256) as u8, (w / 256) as u8]
}

/// The bytes of a long tag header: the code with the length marker 63,
/// then the length as a little-endian 32-bit word.
pub open spec fn long_header_bytes(code: int, length: int) -> Seq<u8> {
    short_header_bytes(code, 63) + seq![
        (length % 256) as u8,
        ((length / 256) % 256) as u8,
        ((length / 65536) % 256) as u8,
        (length / 16777216) as u8,
    ]
}

/// Reading a tag header gives back the code and length it was written
/// with, and its body starts right after it: a short header for lengths
/// below 63, a long one for any length that fits in 32 bits.
pub proof fn law_tag_header_round_trip(before: Seq<u8>, after: Seq<u8>, code: u16, length: u32)
    requires
        code < 1024,
    ensures
        length < 63 ==> tag_header_at(before + short_header_bytes(code as int, length as int) + after, before.len() as int)
            == Some(
            TagHeader { code, tag: tag_of(code), body_start: (before.len() + 2) as usize, length: length as usize },
        ),
        tag_header_at(before + long_header_bytes(code as int, length as int) + after, before.len() as int) == Some(
            TagHeader { code, tag: tag_of(code), body_start: (before.len() + 6) as usize, length: length as usize },
        ),
{
    let p = before.len() as int;
    let c = code as int;
    let l = length as int;
    if l < 63 {
        let d = before + short_header_bytes(c, l) + after;
        let w = c * 64 + l;
        assert(0 <= w < 65536) by (nonlinear_arith)
            requires
                0 <= c < 1024,
                0 <= l < 63,
                w == c * 64 + l,
        ;
        assert(d[p] == (w % 256) as u8 && d[p + 1] == (w / 256) as u8);
        assert((w % 256) + 256 * (w / 256) == w) by (nonlinear_arith)
            requires
                0 <= w,
        ;
        assert(w / 64 == c && w % 64 == l) by (nonlinear_arith)
            requires
                w == c * 64 + l,
                0 <= l < 64,
                0 <= c,
        ;
    }
    let d = before + long_header_bytes(c, l) + after;
    let w = c * 64 + 63;
    assert(0 <= w < 65536) by (nonlinear_arith)
        requires
            0 <= c < 1024,
            w == c * 64 + 63,
    ;
    assert(d[p] == (w % 256) as u8 && d[p + 1] == (w / 256) as u8);
    assert(d[p + 2] == (l % 256) as u8 && d[p + 3] == ((l / 256) % 256) as u8);
    assert(d[p + 4] == ((l / 65536) % 256) as u8 && d[p + 5] == (l / 16777216) as u8);
    assert((w % 256) + 256 * (w / 256) == w) by (nonlinear_arith)
        requires
            0 <= w,
    ;
    assert(w / 64 == c && w % 64 == 63) by (nonlinear_arith)
        requires
            w == c * 64 + 63,
            0 <= c,
    ;
    assert(l % 256 + 256 * ((l / 256) % 256) + 65536 * (((l / 65536) % 256) + 256 * (l / 16777216)) == l)
        by (nonlinear_arith)
        requires
            0 <= l < 0x1_0000_0000,
    ;
    assert(l / 16777216 < 256) by (nonlinear_arith)
        requires
            0 <= l < 0x1_0000_0000,
    ;
    assert(le_u32(d, p + 2) == l);
}
} // verus!
