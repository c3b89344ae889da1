//! Enhanced RTMP (E-RTMP) video and audio tag headers: the legacy 0xCC /
//! 0xCA draft layout and the ExHeader layout, and multitrack bodies.
use crate::util::be_u32_at;
use vstd::prelude::*;

verus! {

pub const ENHANCED_VIDEO_CODEC_ID: u8 = 0xCC;

pub const ENHANCED_AUDIO_CODEC_ID: u8 = 0xCA;

/// "av01"
pub const FCC_AV1: u32 = 0x61763031;

/// "avc1"
pub const FCC_AVC: u32 = 0x61766331;

/// "hvc1"
pub const FCC_HEVC: u32 = 0x68766331;

/// "vp09"
pub const FCC_VP09: u32 = 0x76703039;

/// "Opus"
pub const FCC_OPUS: u32 = 0x4F707573;

/// "mp4a"
pub const FCC_MP4A: u32 = 0x6D703461;

/// "fLaC"
pub const FCC_FLAC: u32 = 0x664C6143;

#[derive(Debug, Clone, Copy, PartialEq, Eq, Structural)]
pub enum VideoPacketType {
    SequenceStart,
    CodedFrames,
    SequenceEnd,
    CodedFramesX,
    Metadata,
    Mpeg2TsSequenceStart,
    Multitrack,
    ModEx,
}

#[derive(Debug, Clone, Copy, PartialEq, Eq, Structural)]
pub enum AudioPacketType {
    SequenceStart,
    CodedFrames,
    SequenceEnd,
    MultichannelConfig,
    Multitrack,
    ModEx,
}

#[derive(Debug, Clone, Copy, PartialEq, Eq, Structural)]
pub enum MultitrackType {
    OneTrack,
    ManyTracks,
    ManyTracksManyCodecs,
}

#[derive(Debug, Clone, Copy, PartialEq, Eq, Structural)]
pub enum VideoFrameType {
    KeyFrame,
    InterFrame,
    DisposableInterFrame,
    GeneratedKeyFrame,
    VideoInfoCmd,
}

#[derive(Debug, Clone, Copy, PartialEq, Eq, Structural)]
pub enum EnhancedVideoCodec {
    Av1,
    Avc,
    Hevc,
    Vp9,
    Unknown(u32),
}

#[derive(Debug, Clone, Copy, PartialEq, Eq, Structural)]
pub enum EnhancedAudioCodec {
    Opus,
    Aac,
    Flac,
    Unknown(u32),
}

#[derive(Debug, Clone)]
pub struct EnhancedVideoTrack<'a> {
    pub track_id: u32,
    pub codec: EnhancedVideoCodec,
    pub payload: &'a [u8],
}

#[derive(Debug, Clone)]
pub struct EnhancedAudioTrack<'a> {
    pub track_id: u32,
    pub codec: EnhancedAudioCodec,
    pub payload: &'a [u8],
}

#[derive(Debug, Clone, Copy, PartialEq, Eq, Structural)]
pub struct EnhancedVideoHeader {
    pub packet_type: VideoPacketType,
    pub frame_type: VideoFrameType,
    pub codec: EnhancedVideoCodec,
}

#[derive(Debug, Clone, Copy, PartialEq, Eq, Structural)]
pub struct EnhancedAudioHeader {
    pub packet_type: AudioPacketType,
    pub codec: EnhancedAudioCodec,
}

pub open spec fn video_codec_of(fourcc: u32) -> EnhancedVideoCodec {
    if fourcc == FCC_AV1 {
        EnhancedVideoCodec::Av1
    } else if fourcc == FCC_AVC {
        EnhancedVideoCodec::Avc
    } else if fourcc == FCC_HEVC {
        EnhancedVideoCodec::Hevc
    } else if fourcc == FCC_VP09 {
        EnhancedVideoCodec::Vp9
    } else {
        EnhancedVideoCodec::Unknown(fourcc)
    }
}

pub open spec fn audio_codec_of(fourcc: u32) -> EnhancedAudioCodec {
    if fourcc == FCC_OPUS {
        EnhancedAudioCodec::Opus
    } else if fourcc == FCC_MP4A {
        EnhancedAudioCodec::Aac
    } else if fourcc == FCC_FLAC {
        EnhancedAudioCodec::Flac
    } else {
        EnhancedAudioCodec::Unknown(fourcc)
    }
}

impl EnhancedVideoCodec {
    pub fn from_fourcc(fourcc: u32) -> (r: Self)
        ensures
            r == video_codec_of(fourcc),
    {
        match fourcc {
            FCC_AV1 => EnhancedVideoCodec::Av1,
            FCC_AVC => EnhancedVideoCodec::Avc,
            FCC_HEVC => EnhancedVideoCodec::Hevc,
            FCC_VP09 => EnhancedVideoCodec::Vp9,
            _ => EnhancedVideoCodec::Unknown(fourcc),
        }
    }
}

impl EnhancedAudioCodec {
    pub fn from_fourcc(fourcc: u32) -> (r: Self)
        ensures
            r == audio_codec_of(fourcc),
    {
        match fourcc {
            FCC_OPUS => EnhancedAudioCodec::Opus,
            FCC_MP4A => EnhancedAudioCodec::Aac,
            FCC_FLAC => EnhancedAudioCodec::Flac,
            _ => EnhancedAudioCodec::Unknown(fourcc),
        }
    }
}

/// VideoPacketType of its 4-bit code.
pub open spec fn video_packet_type_of(v: u8) -> Option<VideoPacketType> {
    if v == 0 {
        Some(VideoPacketType::SequenceStart)
    } else if v == 1 {
        Some(VideoPacketType::CodedFrames)
    } else if v == 2 {
        Some(VideoPacketType::SequenceEnd)
    } else if v == 3 {
        Some(VideoPacketType::CodedFramesX)
    } else if v == 4 {
        Some(VideoPacketType::Metadata)
    } else if v == 5 {
        Some(VideoPacketType::Mpeg2TsSequenceStart)
    } else if v == 6 {
        Some(VideoPacketType::Multitrack)
    } else if v == 7 {
        Some(VideoPacketType::ModEx)
    } else {
        None
    }
}

pub open spec fn video_frame_type_of(v: u8) -> Option<VideoFrameType> {
    if v == 1 {
        Some(VideoFrameType::KeyFrame)
    } else if v == 2 {
        Some(VideoFrameType::InterFrame)
    } else if v == 3 {
        Some(VideoFrameType::DisposableInterFrame)
    } else if v == 4 {
        Some(VideoFrameType::GeneratedKeyFrame)
    } else if v == 5 {
        Some(VideoFrameType::VideoInfoCmd)
    } else {
        None
    }
}

pub open spec fn audio_packet_type_of(v: u8) -> Option<AudioPacketType> {
    if v == 0 {
        Some(AudioPacketType::SequenceStart)
    } else if v == 1 {
        Some(AudioPacketType::CodedFrames)
    } else if v == 2 {
        Some(AudioPacketType::SequenceEnd)
    } else if v == 4 {
        Some(AudioPacketType::MultichannelConfig)
    } else if v == 5 {
        Some(AudioPacketType::Multitrack)
    } else if v == 7 {
        Some(AudioPacketType::ModEx)
    } else {
        None
    }
}

fn parse_video_packet_type(v: u8) -> (r: Option<VideoPacketType>)
    ensures
        r == video_packet_type_of(v),
{
    match v {
        0 => Some(VideoPacketType::SequenceStart),
        1 => Some(VideoPacketType::CodedFrames),
        2 => Some(VideoPacketType::SequenceEnd),
        3 => Some(VideoPacketType::CodedFramesX),
        4 => Some(VideoPacketType::Metadata),
        5 => Some(VideoPacketType::Mpeg2TsSequenceStart),
        6 => Some(VideoPacketType::Multitrack),
        7 => Some(VideoPacketType::ModEx),
        _ => None,
    }
}

fn parse_video_frame_type(v: u8) -> (r: Option<VideoFrameType>)
    ensures
        r == video_frame_type_of(v),
{
    match v {
        1 => Some(VideoFrameType::KeyFrame),
        2 => Some(VideoFrameType::InterFrame),
        3 => Some(VideoFrameType::DisposableInterFrame),
        4 => Some(VideoFrameType::GeneratedKeyFrame),
        5 => Some(VideoFrameType::VideoInfoCmd),
        _ => None,
    }
}

fn parse_audio_packet_type(v: u8) -> (r: Option<AudioPacketType>)
    ensures
        r == audio_packet_type_of(v),
{
    match v {
        0 => Some(AudioPacketType::SequenceStart),
        1 => Some(AudioPacketType::CodedFrames),
        2 => Some(AudioPacketType::SequenceEnd),
        4 => Some(AudioPacketType::MultichannelConfig),
        5 => Some(AudioPacketType::Multitrack),
        7 => Some(AudioPacketType::ModEx),
        _ => None,
    }
}

fn fourcc_at(data: &[u8], off: usize) -> (r: u32)
    requires
        off + 4 <= data@.len(),
    ensures
        r == be_u32_at(data@, off as int),
{
    ((data[off] as u32) << 24) | ((data[off + 1] as u32) << 16) | ((data[off + 2] as u32) << 8) | (
    data[off + 3] as u32)
}

pub open spec fn is_avc_or_hevc(c: EnhancedVideoCodec) -> bool {
    c == EnhancedVideoCodec::Avc || c == EnhancedVideoCodec::Hevc
}

fn avc_or_hevc(c: EnhancedVideoCodec) -> (r: bool)
    ensures
        r == is_avc_or_hevc(c),
{
    match c {
        EnhancedVideoCodec::Avc | EnhancedVideoCodec::Hevc => true,
        _ => false,
    }
}

/// The header an enhanced video tag starts with and how many bytes it
/// takes, or the reason it is rejected.
pub open spec fn spec_video_header(d: Seq<u8>) -> Result<(EnhancedVideoHeader, int), Seq<char>> {
    if d.len() < 5 {
        Err("data too short for enhanced video header"@)
    } else if d[0] == ENHANCED_VIDEO_CODEC_ID && d.len() >= 6 {
        match video_packet_type_of(d[1]) {
            None => Err("unknown video packet type"@),
            Some(VideoPacketType::Multitrack) => Ok(
                (
                    EnhancedVideoHeader {
                        packet_type: VideoPacketType::Multitrack,
                        frame_type: VideoFrameType::KeyFrame,
                        codec: EnhancedVideoCodec::Unknown(0),
                    },
                    2,
                ),
            ),
            Some(pt) => {
                let codec = video_codec_of(be_u32_at(d, 2));
                let frame_type = if pt == VideoPacketType::SequenceStart {
                    VideoFrameType::KeyFrame
                } else {
                    VideoFrameType::InterFrame
                };
                if is_avc_or_hevc(codec) && d.len() < 9 {
                    Err("data too short for avc/hevc header"@)
                } else {
                    Ok(
                        (
                            EnhancedVideoHeader { packet_type: pt, frame_type, codec },
                            if is_avc_or_hevc(codec) {
                                9
                            } else {
                                6
                            },
                        ),
                    )
                }
            },
        }
    } else if d[0] & 0x80 == 0 {
        Err("not an enhanced video header"@)
    } else {
        match (video_frame_type_of((d[0] >> 4u8) & 0x07), video_packet_type_of(d[0] & 0x0F)) {
            (None, _) => Err("unknown video frame type"@),
            (_, None) => Err("unknown video packet type"@),
            (Some(ft), Some(VideoPacketType::Multitrack)) => Ok(
                (
                    EnhancedVideoHeader {
                        packet_type: VideoPacketType::Multitrack,
                        frame_type: ft,
                        codec: EnhancedVideoCodec::Unknown(0),
                    },
                    1,
                ),
            ),
            (Some(ft), Some(pt)) => {
                let codec = video_codec_of(be_u32_at(d, 1));
                let has_cts = pt == VideoPacketType::CodedFrames && is_avc_or_hevc(codec);
                if has_cts && d.len() < 8 {
                    Err("data too short for composition time"@)
                } else {
                    Ok(
                        (
                            EnhancedVideoHeader { packet_type: pt, frame_type: ft, codec },
                            if has_cts {
                                8
                            } else {
                                5
                            },
                        ),
                    )
                }
            },
        }
    }
}

/// Where the frame data of an ExHeader video tag starts: right after the
/// FourCC (byte 5) for every packet type and codec, except coded frames
/// (packet type 1) of AVC or HEVC, whose 3-byte composition time is
/// skipped (byte 8; a shorter tag is refused).
pub proof fn lemma_exheader_payload_start(d: Seq<u8>)
    requires
        d.len() >= 5,
        d[0] & 0x80u8 != 0,
        !(d[0] == ENHANCED_VIDEO_CODEC_ID && d.len() >= 6),
        1 <= (d[0] >> 4u8) & 0x07u8 <= 5,
        d[0] & 0x0Fu8 <= 7,
        d[0] & 0x0Fu8 != 6,
    ensures
        ({
            let pt = d[0] & 0x0Fu8;
            let fourcc = be_u32_at(d, 1);
            let cts = pt == 1 && (fourcc == FCC_AVC || fourcc == FCC_HEVC);
            &&& cts && d.len() < 8 ==> spec_video_header(d) is Err
            &&& cts && d.len() >= 8 ==> (spec_video_header(d) matches Ok((_, k)) && k == 8)
            &&& !cts ==> (spec_video_header(d) matches Ok((h, k)) && k == 5
                && video_packet_type_of(pt) == Some(h.packet_type))
        }),
{
}

/// Parses an enhanced video tag header (legacy 0xCC draft or ExHeader
/// layout) and returns it with the rest of the tag. For AVC/HEVC the
/// composition time is skipped; for a multitrack tag the rest starts at
/// the multitrack control byte.
pub fn parse_enhanced_video_header(data: &[u8]) -> (r: Result<
    (EnhancedVideoHeader, &[u8]),
    &'static str,
>)
    ensures
        match spec_video_header(data@) {
            Ok((h, k)) => (r matches Ok((rh, rest)) && rh == h && rest@ == data@.subrange(
                k,
                data@.len() as int,
            )),
            Err(m) => (r matches Err(e) && e@ == m),
        },
{
    if data.len() < 5 {
        return Err("data too short for enhanced video header");
    }
    if data[0] == ENHANCED_VIDEO_CODEC_ID && data.len() >= 6 {
        let packet_type = match parse_video_packet_type(data[1]) {
            Some(p) => p,
            None => return Err("unknown video packet type"),
        };
        if let VideoPacketType::Multitrack = packet_type {
            let h = EnhancedVideoHeader {
                packet_type,
                frame_type: VideoFrameType::KeyFrame,
                codec: EnhancedVideoCodec::Unknown(0),
            };
            return Ok((h, vstd::slice::slice_subrange(data, 2, data.len())));
        }
        let codec = EnhancedVideoCodec::from_fourcc(fourcc_at(data, 2));
        let mut consumed: usize = 6;
        if avc_or_hevc(codec) {
            if data.len() < 9 {
                return Err("data too short for avc/hevc header");
            }
            consumed = 9;
        }
        let frame_type = match packet_type {
            VideoPacketType::SequenceStart => VideoFrameType::KeyFrame,
            _ => VideoFrameType::InterFrame,
        };
        let h = EnhancedVideoHeader { packet_type, frame_type, codec };
        return Ok((h, vstd::slice::slice_subrange(data, consumed, data.len())));
    }
    let first_byte = data[0];
    if first_byte & 0x80 == 0 {
        return Err("not an enhanced video header");
    }
    let frame_type = match parse_video_frame_type((first_byte >> 4) & 0x07) {
        Some(f) => f,
        None => return Err("unknown video frame type"),
    };
    let packet_type = match parse_video_packet_type(first_byte & 0x0F) {
        Some(p) => p,
        None => return Err("unknown video packet type"),
    };
    if let VideoPacketType::Multitrack = packet_type {
        let h = EnhancedVideoHeader {
            packet_type,
            frame_type,
            codec: EnhancedVideoCodec::Unknown(0),
        };
        return Ok((h, vstd::slice::slice_subrange(data, 1, data.len())));
    }
    let codec = EnhancedVideoCodec::from_fourcc(fourcc_at(data, 1));
    let mut consumed: usize = 5;
    let is_coded = match packet_type {
        VideoPacketType::CodedFrames => true,
        _ => false,
    };
    if is_coded && avc_or_hevc(codec) {
        if data.len() < 8 {
            return Err("data too short for composition time");
        }
        consumed = 8;
    }
    let h = EnhancedVideoHeader { packet_type, frame_type, codec };
    Ok((h, vstd::slice::slice_subrange(data, consumed, data.len())))
}

/// The legacy 0xCA layout's packet type codes.
pub open spec fn legacy_audio_packet_type_of(v: u8) -> Option<AudioPacketType> {
    if v == 0 {
        Some(AudioPacketType::SequenceStart)
    } else if v == 1 {
        Some(AudioPacketType::CodedFrames)
    } else if v == 2 {
        Some(AudioPacketType::SequenceEnd)
    } else if v == 6 {
        Some(AudioPacketType::Multitrack)
    } else {
        None
    }
}

/// The header an enhanced audio tag starts with and how many bytes it
/// takes, or the reason it is rejected.
pub open spec fn spec_audio_header(d: Seq<u8>) -> Result<(EnhancedAudioHeader, int), Seq<char>> {
    if d.len() == 0 {
        Err("data too short for enhanced audio header"@)
    } else if d[0] == ENHANCED_AUDIO_CODEC_ID {
        if d.len() < 6 {
            Err("data too short for enhanced audio header (legacy)"@)
        } else {
            match legacy_audio_packet_type_of(d[1]) {
                None => Err("unknown audio packet type (legacy)"@),
                Some(AudioPacketType::Multitrack) => Ok(
                    (
                        EnhancedAudioHeader {
                            packet_type: AudioPacketType::Multitrack,
                            codec: EnhancedAudioCodec::Unknown(0),
                        },
                        2,
                    ),
                ),
                Some(pt) => Ok(
                    (
                        EnhancedAudioHeader { packet_type: pt, codec: audio_codec_of(be_u32_at(d, 2)) },
                        6,
                    ),
                ),
            }
        }
    } else {
        match audio_packet_type_of(d[0] & 0x0F) {
            None => Err("unknown audio packet type"@),
            Some(AudioPacketType::Multitrack) => Ok(
                (
                    EnhancedAudioHeader {
                        packet_type: AudioPacketType::Multitrack,
                        codec: EnhancedAudioCodec::Unknown(0),
                    },
                    1,
                ),
            ),
            Some(pt) => if d.len() < 5 {
                Err("data too short for enhanced audio header"@)
            } else {
                Ok(
                    (
                        EnhancedAudioHeader { packet_type: pt, codec: audio_codec_of(be_u32_at(d, 1)) },
                        5,
                    ),
                )
            },
        }
    }
}

/// Parses an enhanced audio tag header (legacy 0xCA draft or ExHeader
/// layout) and returns it with the rest of the tag.
pub fn parse_enhanced_audio_header(data: &[u8]) -> (r: Result<
    (EnhancedAudioHeader, &[u8]),
    &'static str,
>)
    ensures
        match spec_audio_header(data@) {
            Ok((h, k)) => (r matches Ok((rh, rest)) && rh == h && rest@ == data@.subrange(
                k,
                data@.len() as int,
            )),
            Err(m) => (r matches Err(e) && e@ == m),
        },
{
    if data.len() == 0 {
        return Err("data too short for enhanced audio header");
    }
    if data[0] == ENHANCED_AUDIO_CODEC_ID {
        if data.len() < 6 {
            return Err("data too short for enhanced audio header (legacy)");
        }
        let packet_type = match data[1] {
            0 => AudioPacketType::SequenceStart,
            1 => AudioPacketType::CodedFrames,
            2 => AudioPacketType::SequenceEnd,
            6 => AudioPacketType::Multitrack,
            _ => return Err("unknown audio packet type (legacy)"),
        };
        if let AudioPacketType::Multitrack = packet_type {
            let h = EnhancedAudioHeader { packet_type, codec: EnhancedAudioCodec::Unknown(0) };
            return Ok((h, vstd::slice::slice_subrange(data, 2, data.len())));
        }
        let codec = EnhancedAudioCodec::from_fourcc(fourcc_at(data, 2));
        let h = EnhancedAudioHeader { packet_type, codec };
        return Ok((h, vstd::slice::slice_subrange(data, 6, data.len())));
    }
    let packet_type = match parse_audio_packet_type(data[0] & 0x0F) {
        Some(p) => p,
        None => return Err("unknown audio packet type"),
    };
    if let AudioPacketType::Multitrack = packet_type {
        let h = EnhancedAudioHeader { packet_type, codec: EnhancedAudioCodec::Unknown(0) };
        return Ok((h, vstd::slice::slice_subrange(data, 1, data.len())));
    }
    if data.len() < 5 {
        return Err("data too short for enhanced audio header");
    }
    let codec = EnhancedAudioCodec::from_fourcc(fourcc_at(data, 1));
    let h = EnhancedAudioHeader { packet_type, codec };
    Ok((h, vstd::slice::slice_subrange(data, 5, data.len())))
}

// ── Multitrack bodies ────────────────────────────────────────────

pub open spec fn multitrack_type_of(b: u8) -> Option<MultitrackType> {
    let t = (b >> 4u8) & 0x0F;
    if t == 0 {
        Some(MultitrackType::OneTrack)
    } else if t == 1 {
        Some(MultitrackType::ManyTracks)
    } else if t == 2 {
        Some(MultitrackType::ManyTracksManyCodecs)
    } else {
        None
    }
}

fn parse_multitrack_type(b: u8) -> (r: Option<MultitrackType>)
    ensures
        r == multitrack_type_of(b),
{
    match (b >> 4) & 0x0F {
        0 => Some(MultitrackType::OneTrack),
        1 => Some(MultitrackType::ManyTracks),
        2 => Some(MultitrackType::ManyTracksManyCodecs),
        _ => None,
    }
}

/// A 24-bit big-endian size.
pub open spec fn be_u24_at(d: Seq<u8>, off: int) -> int {
    d[off] * 0x10000 + d[off + 1] * 0x100 + d[off + 2]
}

/// Where a track's fields are: (track id, codec, payload start, payload
/// length).
pub type VideoTrackSpan = (u32, EnhancedVideoCodec, int, int);

pub type AudioTrackSpan = (u32, EnhancedAudioCodec, int, int);

/// One track of a multitrack video body at `off`: track id, the codec
/// (per track for ManyTracksManyCodecs, else shared), a 24-bit size unless
/// OneTrack (which takes the rest), and the payload, from which the 3-byte
/// composition time of AVC/HEVC coded frames is stripped. Gives the span
/// and the offset after the track.
pub open spec fn spec_video_track_at(
    d: Seq<u8>,
    mt: MultitrackType,
    inner: Option<VideoPacketType>,
    shared: EnhancedVideoCodec,
    off: int,
) -> Result<(VideoTrackSpan, int), Seq<char>> {
    let track_id = d[off] as u32;
    let o1 = off + 1;
    if mt == MultitrackType::ManyTracksManyCodecs && d.len() < o1 + 4 {
        Err("data too short for manytracksmanycodecs fourcc"@)
    } else {
        let codec = if mt == MultitrackType::ManyTracksManyCodecs {
            video_codec_of(be_u32_at(d, o1))
        } else {
            shared
        };
        let o2 = if mt == MultitrackType::ManyTracksManyCodecs {
            o1 + 4
        } else {
            o1
        };
        if mt != MultitrackType::OneTrack && d.len() < o2 + 3 {
            Err("data too short for track size"@)
        } else {
            let size = if mt != MultitrackType::OneTrack {
                be_u24_at(d, o2)
            } else {
                d.len() - o2
            };
            let o3 = if mt != MultitrackType::OneTrack {
                o2 + 3
            } else {
                o2
            };
            let strip = inner == Some(VideoPacketType::CodedFrames) && is_avc_or_hevc(codec);
            if d.len() < o3 + size {
                Err("data too short for track payload"@)
            } else if strip && size < 3 {
                Err("data too short for avc/hevc composition time"@)
            } else if strip {
                Ok(((track_id, codec, o3 + 3, size - 3), o3 + size))
            } else {
                Ok(((track_id, codec, o3, size), o3 + size))
            }
        }
    }
}

/// One track of a multitrack audio body at `off` (as for video, with no
/// composition time).
pub open spec fn spec_audio_track_at(
    d: Seq<u8>,
    mt: MultitrackType,
    shared: EnhancedAudioCodec,
    off: int,
) -> Result<(AudioTrackSpan, int), Seq<char>> {
    let track_id = d[off] as u32;
    let o1 = off + 1;
    if mt == MultitrackType::ManyTracksManyCodecs && d.len() < o1 + 4 {
        Err("data too short for manytracksmanycodecs fourcc"@)
    } else {
        let codec = if mt == MultitrackType::ManyTracksManyCodecs {
            audio_codec_of(be_u32_at(d, o1))
        } else {
            shared
        };
        let o2 = if mt == MultitrackType::ManyTracksManyCodecs {
            o1 + 4
        } else {
            o1
        };
        if mt != MultitrackType::OneTrack && d.len() < o2 + 3 {
            Err("data too short for track size"@)
        } else {
            let size = if mt != MultitrackType::OneTrack {
                be_u24_at(d, o2)
            } else {
                d.len() - o2
            };
            let o3 = if mt != MultitrackType::OneTrack {
                o2 + 3
            } else {
                o2
            };
            if d.len() < o3 + size {
                Err("data too short for track payload"@)
            } else {
                Ok(((track_id, codec, o3, size), o3 + size))
            }
        }
    }
}

pub proof fn lemma_video_track_advances(
    d: Seq<u8>,
    mt: MultitrackType,
    inner: Option<VideoPacketType>,
    shared: EnhancedVideoCodec,
    off: int,
)
    requires
        0 <= off < d.len(),
    ensures
        spec_video_track_at(d, mt, inner, shared, off) matches Ok((_, next)) ==> off < next
            <= d.len(),
{
    if mt != MultitrackType::OneTrack && d.len() >= off + 4 {
        let o2 = if mt == MultitrackType::ManyTracksManyCodecs { off + 5 } else { off + 1 };
        if d.len() >= o2 + 3 {
            assert(be_u24_at(d, o2) >= 0) by (nonlinear_arith)
                requires
                    0 <= d[o2] && 0 <= d[o2 + 1] && 0 <= d[o2 + 2],
            ;
        }
    }
}

pub proof fn lemma_audio_track_advances(
    d: Seq<u8>,
    mt: MultitrackType,
    shared: EnhancedAudioCodec,
    off: int,
)
    requires
        0 <= off < d.len(),
    ensures
        spec_audio_track_at(d, mt, shared, off) matches Ok((_, next)) ==> off < next <= d.len(),
{
    if mt != MultitrackType::OneTrack && d.len() >= off + 4 {
        let o2 = if mt == MultitrackType::ManyTracksManyCodecs { off + 5 } else { off + 1 };
        if d.len() >= o2 + 3 {
            assert(be_u24_at(d, o2) >= 0) by (nonlinear_arith)
                requires
                    0 <= d[o2] && 0 <= d[o2 + 1] && 0 <= d[o2 + 2],
            ;
        }
    }
}

/// `p` followed by the spans of a successful parse; an error stays.
pub open spec fn prepend_spans<T>(p: Seq<T>, r: Result<Seq<T>, Seq<char>>) -> Result<
    Seq<T>,
    Seq<char>,
> {
    match r {
        Ok(s) => Ok(p + s),
        Err(e) => Err(e),
    }
}

/// The tracks of a multitrack video body from `off` to the end (one only
/// for OneTrack), or the first track's error.
pub open spec fn spec_video_tracks(
    d: Seq<u8>,
    mt: MultitrackType,
    inner: Option<VideoPacketType>,
    shared: EnhancedVideoCodec,
    off: int,
) -> Result<Seq<VideoTrackSpan>, Seq<char>>
    decreases d.len() - off,
{
    if off >= d.len() || off < 0 {
        Ok(Seq::empty())
    } else {
        match spec_video_track_at(d, mt, inner, shared, off) {
            Err(e) => Err(e),
            Ok((t, next)) => if mt == MultitrackType::OneTrack {
                Ok(seq![t])
            } else {
                proof {
                    lemma_video_track_advances(d, mt, inner, shared, off);
                }
                prepend_spans(seq![t], spec_video_tracks(d, mt, inner, shared, next))
            },
        }
    }
}

/// The tracks of a multitrack audio body from `off` to the end.
pub open spec fn spec_audio_tracks(
    d: Seq<u8>,
    mt: MultitrackType,
    shared: EnhancedAudioCodec,
    off: int,
) -> Result<Seq<AudioTrackSpan>, Seq<char>>
    decreases d.len() - off,
{
    if off >= d.len() || off < 0 {
        Ok(Seq::empty())
    } else {
        match spec_audio_track_at(d, mt, shared, off) {
            Err(e) => Err(e),
            Ok((t, next)) => if mt == MultitrackType::OneTrack {
                Ok(seq![t])
            } else {
                proof {
                    lemma_audio_track_advances(d, mt, shared, off);
                }
                prepend_spans(seq![t], spec_audio_tracks(d, mt, shared, next))
            },
        }
    }
}

/// The shared codec and first track offset of a multitrack body: the
/// FourCC after the control byte, except for ManyTracksManyCodecs.
pub open spec fn multitrack_prefix(d: Seq<u8>, mt: MultitrackType) -> Option<(u32, int)> {
    if mt == MultitrackType::ManyTracksManyCodecs {
        Some((0, 1))
    } else if d.len() < 5 {
        None
    } else {
        Some((be_u32_at(d, 1), 5))
    }
}

pub open spec fn spec_video_multitrack(d: Seq<u8>) -> Result<
    (MultitrackType, Option<VideoPacketType>, Seq<VideoTrackSpan>),
    Seq<char>,
> {
    if d.len() == 0 {
        Err("data too short for multitrack header"@)
    } else {
        match multitrack_type_of(d[0]) {
            None => Err("unknown multitrack type"@),
            Some(mt) => {
                let inner = video_packet_type_of(d[0] & 0x0F);
                match multitrack_prefix(d, mt) {
                    None => Err("data too short for shared fourcc"@),
                    Some((fcc, off)) => {
                        let shared = if mt == MultitrackType::ManyTracksManyCodecs {
                            EnhancedVideoCodec::Unknown(0)
                        } else {
                            video_codec_of(fcc)
                        };
                        match spec_video_tracks(d, mt, inner, shared, off) {
                            Ok(t) => Ok((mt, inner, t)),
                            Err(e) => Err(e),
                        }
                    },
                }
            },
        }
    }
}

pub open spec fn spec_audio_multitrack(d: Seq<u8>) -> Result<
    (MultitrackType, Option<AudioPacketType>, Seq<AudioTrackSpan>),
    Seq<char>,
> {
    if d.len() == 0 {
        Err("data too short for multitrack header"@)
    } else {
        match multitrack_type_of(d[0]) {
            None => Err("unknown multitrack type"@),
            Some(mt) => {
                let inner = audio_packet_type_of(d[0] & 0x0F);
                match multitrack_prefix(d, mt) {
                    None => Err("data too short for shared fourcc"@),
                    Some((fcc, off)) => {
                        let shared = if mt == MultitrackType::ManyTracksManyCodecs {
                            EnhancedAudioCodec::Unknown(0)
                        } else {
                            audio_codec_of(fcc)
                        };
                        match spec_audio_tracks(d, mt, shared, off) {
                            Ok(t) => Ok((mt, inner, t)),
                            Err(e) => Err(e),
                        }
                    },
                }
            },
        }
    }
}

/// The parsed tracks are the spans, with payloads taken from `d`.
pub open spec fn video_tracks_are(t: Seq<EnhancedVideoTrack>, d: Seq<u8>, s: Seq<VideoTrackSpan>) -> bool {
    &&& t.len() == s.len()
    &&& forall|i: int|
        0 <= i < t.len() ==> {
            &&& (#[trigger] t[i]).track_id == s[i].0
            &&& t[i].codec == s[i].1
            &&& t[i].payload@ == d.subrange(s[i].2, s[i].2 + s[i].3)
        }
}

pub open spec fn audio_tracks_are(t: Seq<EnhancedAudioTrack>, d: Seq<u8>, s: Seq<AudioTrackSpan>) -> bool {
    &&& t.len() == s.len()
    &&& forall|i: int|
        0 <= i < t.len() ==> {
            &&& (#[trigger] t[i]).track_id == s[i].0
            &&& t[i].codec == s[i].1
            &&& t[i].payload@ == d.subrange(s[i].2, s[i].2 + s[i].3)
        }
}

fn u24_at(data: &[u8], off: usize) -> (r: usize)
    requires
        off + 3 <= data@.len(),
    ensures
        r == be_u24_at(data@, off as int),
{
    let a = data[off] as usize;
    let b = data[off + 1] as usize;
    let c = data[off + 2] as usize;
    let r = (a << 16) | (b << 8) | c;
    assert(r == a * 0x10000 + b * 0x100 + c) by (bit_vector)
        requires
            a < 256,
            b < 256,
            c < 256,
            r == (a << 16) | (b << 8) | c,
    ;
    r
}

fn parse_video_track<'a>(
    data: &'a [u8],
    offset: usize,
    many_codecs: bool,
    one_track: bool,
    strip_cts: bool,
    shared: EnhancedVideoCodec,
    Ghost(mt): Ghost<MultitrackType>,
    Ghost(inner): Ghost<Option<VideoPacketType>>,
) -> (r: Result<(EnhancedVideoTrack<'a>, usize), &'static str>)
    requires
        offset < data@.len(),
        many_codecs == (mt == MultitrackType::ManyTracksManyCodecs),
        one_track == (mt == MultitrackType::OneTrack),
        strip_cts == (inner == Some(VideoPacketType::CodedFrames)),
    ensures
        match spec_video_track_at(data@, mt, inner, shared, offset as int) {
            Ok((t, next)) => (r matches Ok((tr, rn)) && rn == next && tr.track_id == t.0
                && tr.codec == t.1 && tr.payload@ == data@.subrange(t.2, t.2 + t.3)),
            Err(m) => (r matches Err(e) && e@ == m),
        },
{
    let mut offset = offset;
    let track_id = data[offset] as u32;
    offset += 1;
    let codec = if many_codecs {
        if data.len() - offset < 4 {
            return Err("data too short for manytracksmanycodecs fourcc");
        }
        let c = EnhancedVideoCodec::from_fourcc(fourcc_at(data, offset));
        offset += 4;
        c
    } else {
        shared
    };
    let size = if !one_track {
        if data.len() - offset < 3 {
            return Err("data too short for track size");
        }
        let sz = u24_at(data, offset);
        offset += 3;
        sz
    } else {
        data.len() - offset
    };
    if data.len() - offset < size {
        return Err("data too short for track payload");
    }
    let mut payload = vstd::slice::slice_subrange(data, offset, offset + size);
    let next = offset + size;
    if strip_cts && avc_or_hevc(codec) {
        if payload.len() < 3 {
            return Err("data too short for avc/hevc composition time");
        }
        payload = vstd::slice::slice_subrange(payload, 3, payload.len());
        assert(payload@ =~= data@.subrange(offset + 3, offset + 3 + (size - 3)));
    }
    Ok((EnhancedVideoTrack { track_id, codec, payload }, next))
}

fn parse_audio_track<'a>(
    data: &'a [u8],
    offset: usize,
    many_codecs: bool,
    one_track: bool,
    shared: EnhancedAudioCodec,
    Ghost(mt): Ghost<MultitrackType>,
) -> (r: Result<(EnhancedAudioTrack<'a>, usize), &'static str>)
    requires
        offset < data@.len(),
        many_codecs == (mt == MultitrackType::ManyTracksManyCodecs),
        one_track == (mt == MultitrackType::OneTrack),
    ensures
        match spec_audio_track_at(data@, mt, shared, offset as int) {
            Ok((t, next)) => (r matches Ok((tr, rn)) && rn == next && tr.track_id == t.0
                && tr.codec == t.1 && tr.payload@ == data@.subrange(t.2, t.2 + t.3)),
            Err(m) => (r matches Err(e) && e@ == m),
        },
{
    let mut offset = offset;
    let track_id = data[offset] as u32;
    offset += 1;
    let codec = if many_codecs {
        if data.len() - offset < 4 {
            return Err("data too short for manytracksmanycodecs fourcc");
        }
        let c = EnhancedAudioCodec::from_fourcc(fourcc_at(data, offset));
        offset += 4;
        c
    } else {
        shared
    };
    let size = if !one_track {
        if data.len() - offset < 3 {
            return Err("data too short for track size");
        }
        let sz = u24_at(data, offset);
        offset += 3;
        sz
    } else {
        data.len() - offset
    };
    if data.len() - offset < size {
        return Err("data too short for track payload");
    }
    let payload = vstd::slice::slice_subrange(data, offset, offset + size);
    Ok((EnhancedAudioTrack { track_id, codec, payload }, offset + size))
}

/// Parses a multitrack video body (after the header): the multitrack type
/// and inner packet type, then each track with its payload.
pub fn parse_enhanced_video_multitrack(data: &[u8]) -> (r: Result<
    (MultitrackType, Option<VideoPacketType>, Vec<EnhancedVideoTrack<'_>>),
    &'static str,
>)
    ensures
        match spec_video_multitrack(data@) {
            Ok((mt, inner, spans)) => (r matches Ok((rmt, rinner, tracks)) && rmt == mt && rinner
                == inner && video_tracks_are(tracks@, data@, spans)),
            Err(m) => (r matches Err(e) && e@ == m),
        },
{
    if data.len() == 0 {
        return Err("data too short for multitrack header");
    }
    let multitrack_type = match parse_multitrack_type(data[0]) {
        Some(t) => t,
        None => return Err("unknown multitrack type"),
    };
    let inner_packet_type = parse_video_packet_type(data[0] & 0x0F);
    let many_codecs = match multitrack_type {
        MultitrackType::ManyTracksManyCodecs => true,
        _ => false,
    };
    let one_track = match multitrack_type {
        MultitrackType::OneTrack => true,
        _ => false,
    };
    let strip_cts = match inner_packet_type {
        Some(VideoPacketType::CodedFrames) => true,
        _ => false,
    };
    let mut offset: usize = 1;
    let mut shared_codec = EnhancedVideoCodec::Unknown(0);
    if !many_codecs {
        if data.len() < 5 {
            return Err("data too short for shared fourcc");
        }
        shared_codec = EnhancedVideoCodec::from_fourcc(fourcc_at(data, 1));
        offset = 5;
    }
    let ghost mt = multitrack_type;
    let ghost inner = inner_packet_type;
    let ghost start = offset as int;
    let ghost mut spans: Seq<VideoTrackSpan> = Seq::empty();
    let mut tracks: Vec<EnhancedVideoTrack<'_>> = Vec::new();
    let mut done = false;
    assert(spans + Seq::<VideoTrackSpan>::empty() =~= spans);
    while offset < data.len() && !done
        invariant
            spec_video_multitrack(data@) == match spec_video_tracks(
                data@,
                mt,
                inner,
                shared_codec,
                start,
            ) {
                Ok(t) => Ok((mt, inner, t)),
                Err(e) => Err(e),
            },
            offset <= data@.len(),
            many_codecs == (mt == MultitrackType::ManyTracksManyCodecs),
            one_track == (mt == MultitrackType::OneTrack),
            strip_cts == (inner == Some(VideoPacketType::CodedFrames)),
            !done ==> spec_video_tracks(data@, mt, inner, shared_codec, start) == prepend_spans(
                spans,
                spec_video_tracks(data@, mt, inner, shared_codec, offset as int),
            ),
            done ==> spec_video_tracks(data@, mt, inner, shared_codec, start) == Ok::<
                Seq<VideoTrackSpan>,
                Seq<char>,
            >(spans),
            video_tracks_are(tracks@, data@, spans),
        decreases data.len() - offset,
    {
        let ghost off0 = offset as int;
        proof {
            lemma_video_track_advances(data@, mt, inner, shared_codec, off0);
        }
        let (track, next) = match parse_video_track(
            data,
            offset,
            many_codecs,
            one_track,
            strip_cts,
            shared_codec,
            Ghost(mt),
            Ghost(inner),
        ) {
            Ok(p) => p,
            Err(e) => {
                assert(spec_video_tracks(data@, mt, inner, shared_codec, off0) == Err::<
                    Seq<VideoTrackSpan>,
                    Seq<char>,
                >(e@));
                return Err(e);
            },
        };
        let ghost t = spec_video_track_at(data@, mt, inner, shared_codec, off0)->Ok_0.0;
        let ghost old_tracks = tracks@;
        let ghost old_spans = spans;
        tracks.push(track);
        proof {
            spans = spans.push(t);
            assert forall|i: int| 0 <= i < tracks@.len() implies {
                &&& (#[trigger] tracks@[i]).track_id == spans[i].0
                &&& tracks@[i].codec == spans[i].1
                &&& tracks@[i].payload@ == data@.subrange(spans[i].2, spans[i].2 + spans[i].3)
            } by {
                if i < tracks@.len() - 1 {
                    assert(tracks@[i] == old_tracks[i]);
                }
            }
            if !one_track {
                match spec_video_tracks(data@, mt, inner, shared_codec, next as int) {
                    Ok(rest) => {
                        assert(old_spans + (seq![t] + rest) =~= spans + rest);
                    },
                    Err(_) => {},
                }
            } else {
                assert(old_spans + seq![t] =~= spans);
            }
        }
        offset = next;
        if one_track {
            done = true;
        }
    }
    Ok((multitrack_type, inner_packet_type, tracks))
}

/// Parses a multitrack audio body (after the header): the multitrack type
/// and inner packet type, then each track with its payload.
pub fn parse_enhanced_audio_multitrack(data: &[u8]) -> (r: Result<
    (MultitrackType, Option<AudioPacketType>, Vec<EnhancedAudioTrack<'_>>),
    &'static str,
>)
    ensures
        match spec_audio_multitrack(data@) {
            Ok((mt, inner, spans)) => (r matches Ok((rmt, rinner, tracks)) && rmt == mt && rinner
                == inner && audio_tracks_are(tracks@, data@, spans)),
            Err(m) => (r matches Err(e) && e@ == m),
        },
{
    if data.len() == 0 {
        return Err("data too short for multitrack header");
    }
    let multitrack_type = match parse_multitrack_type(data[0]) {
        Some(t) => t,
        None => return Err("unknown multitrack type"),
    };
    let inner_packet_type = parse_audio_packet_type(data[0] & 0x0F);
    let many_codecs = match multitrack_type {
        MultitrackType::ManyTracksManyCodecs => true,
        _ => false,
    };
    let one_track = match multitrack_type {
        MultitrackType::OneTrack => true,
        _ => false,
    };
    let mut offset: usize = 1;
    let mut shared_codec = EnhancedAudioCodec::Unknown(0);
    if !many_codecs {
        if data.len() < 5 {
            return Err("data too short for shared fourcc");
        }
        shared_codec = EnhancedAudioCodec::from_fourcc(fourcc_at(data, 1));
        offset = 5;
    }
    let ghost mt = multitrack_type;
    let ghost start = offset as int;
    let ghost mut spans: Seq<AudioTrackSpan> = Seq::empty();
    let mut tracks: Vec<EnhancedAudioTrack<'_>> = Vec::new();
    let mut done = false;
    assert(spans + Seq::<AudioTrackSpan>::empty() =~= spans);
    while offset < data.len() && !done
        invariant
            spec_audio_multitrack(data@) == match spec_audio_tracks(data@, mt, shared_codec, start) {
                Ok(t) => Ok((mt, inner_packet_type, t)),
                Err(e) => Err(e),
            },
            offset <= data@.len(),
            many_codecs == (mt == MultitrackType::ManyTracksManyCodecs),
            one_track == (mt == MultitrackType::OneTrack),
            !done ==> spec_audio_tracks(data@, mt, shared_codec, start) == prepend_spans(
                spans,
                spec_audio_tracks(data@, mt, shared_codec, offset as int),
            ),
            done ==> spec_audio_tracks(data@, mt, shared_codec, start) == Ok::<
                Seq<AudioTrackSpan>,
                Seq<char>,
            >(spans),
            audio_tracks_are(tracks@, data@, spans),
        decreases data.len() - offset,
    {
        let ghost off0 = offset as int;
        proof {
            lemma_audio_track_advances(data@, mt, shared_codec, off0);
        }
        let (track, next) = match parse_audio_track(
            data,
            offset,
            many_codecs,
            one_track,
            shared_codec,
            Ghost(mt),
        ) {
            Ok(p) => p,
            Err(e) => {
                assert(spec_audio_tracks(data@, mt, shared_codec, off0) == Err::<
                    Seq<AudioTrackSpan>,
                    Seq<char>,
                >(e@));
                return Err(e);
            },
        };
        let ghost t = spec_audio_track_at(data@, mt, shared_codec, off0)->Ok_0.0;
        let ghost old_tracks = tracks@;
        let ghost old_spans = spans;
        tracks.push(track);
        proof {
            spans = spans.push(t);
            assert forall|i: int| 0 <= i < tracks@.len() implies {
                &&& (#[trigger] tracks@[i]).track_id == spans[i].0
                &&& tracks@[i].codec == spans[i].1
                &&& tracks@[i].payload@ == data@.subrange(spans[i].2, spans[i].2 + spans[i].3)
            } by {
                if i < tracks@.len() - 1 {
                    assert(tracks@[i] == old_tracks[i]);
                }
            }
            if !one_track {
                match spec_audio_tracks(data@, mt, shared_codec, next as int) {
                    Ok(rest) => {
                        assert(old_spans + (seq![t] + rest) =~= spans + rest);
                    },
                    Err(_) => {},
                }
            } else {
                assert(old_spans + seq![t] =~= spans);
            }
        }
        offset = next;
        if one_track {
            done = true;
        }
    }
    Ok((multitrack_type, inner_packet_type, tracks))
}

/// Whether bytes 1..5 hold a video FourCC this server knows.
pub open spec fn known_video_fourcc_at(d: Seq<u8>) -> bool {
    d.len() >= 5 && {
        let f = be_u32_at(d, 1);
        f == FCC_AV1 || f == FCC_AVC || f == FCC_HEVC || f == FCC_VP09
    }
}

fn fourcc_at_bytes_1_4(data: &[u8]) -> (r: Option<u32>)
    ensures
        r is Some <==> known_video_fourcc_at(data@),
        r matches Some(f) ==> f == be_u32_at(data@, 1),
{
    if data.len() < 5 {
        return None;
    }
    let fcc = fourcc_at(data, 1);
    match fcc {
        FCC_AV1 | FCC_AVC | FCC_HEVC | FCC_VP09 => Some(fcc),
        _ => None,
    }
}

/// Whether a video tag uses an enhanced header: the ExHeader bit with a
/// multitrack packet type or a known FourCC, or the legacy 0xCC marker.
pub open spec fn spec_is_enhanced_video(d: Seq<u8>) -> bool {
    d.len() > 0 && ((d.len() >= 5 && d[0] & 0x80 != 0 && (d[0] & 0x0F == 6
        || known_video_fourcc_at(d))) || d[0] == ENHANCED_VIDEO_CODEC_ID)
}

pub fn is_enhanced_video(data: &[u8]) -> (r: bool)
    ensures
        r == spec_is_enhanced_video(data@),
{
    if data.len() == 0 {
        return false;
    }
    if data.len() >= 5 {
        let is_ex_header = (data[0] & 0x80) != 0;
        if is_ex_header {
            if data[0] & 0x0F == 6 {
                return true;
            }
            if fourcc_at_bytes_1_4(data).is_some() {
                return true;
            }
        }
    }
    data[0] == ENHANCED_VIDEO_CODEC_ID
}

/// Whether an audio tag uses an enhanced header: sound format 9, or the
/// legacy 0xCA marker.
pub open spec fn spec_is_enhanced_audio(d: Seq<u8>) -> bool {
    d.len() > 0 && (d[0] & 0xF0 == 0x90 || d[0] == ENHANCED_AUDIO_CODEC_ID)
}

pub fn is_enhanced_audio(data: &[u8]) -> (r: bool)
    ensures
        r == spec_is_enhanced_audio(data@),
{
    if data.len() == 0 {
        return false;
    }
    if data[0] & 0xF0 == 0x90 {
        return true;
    }
    data[0] == ENHANCED_AUDIO_CODEC_ID
}

} // verus!
