//! Codec identifiers of RTMP tags: the muxer codec they map to and their
//! display names.
use crate::hls::fmp4::{AudioCodec, VideoCodec};
use crate::rtmp::enhanced::{EnhancedAudioCodec, EnhancedVideoCodec};
use crate::text::{push_decimal, push_str, spec_decimal};
use vstd::prelude::*;

verus! {

/// The fMP4 video codec of an Enhanced RTMP video codec, if supported.
pub fn map_enhanced_video_codec(codec: EnhancedVideoCodec) -> (r: Option<VideoCodec>)
    ensures
        r == match codec {
            EnhancedVideoCodec::Av1 => Some(VideoCodec::AV1),
            EnhancedVideoCodec::Avc => Some(VideoCodec::H264),
            EnhancedVideoCodec::Hevc => Some(VideoCodec::H265),
            _ => None::<VideoCodec>,
        },
{
    match codec {
        EnhancedVideoCodec::Av1 => Some(VideoCodec::AV1),
        EnhancedVideoCodec::Avc => Some(VideoCodec::H264),
        EnhancedVideoCodec::Hevc => Some(VideoCodec::H265),
        _ => None,
    }
}

/// The fMP4 audio codec of an Enhanced RTMP audio codec, if supported.
pub fn map_enhanced_audio_codec(codec: EnhancedAudioCodec) -> (r: Option<AudioCodec>)
    ensures
        r == match codec {
            EnhancedAudioCodec::Opus => Some(AudioCodec::Opus),
            EnhancedAudioCodec::Flac => Some(AudioCodec::Flac),
            EnhancedAudioCodec::Aac => Some(AudioCodec::Aac),
            _ => None::<AudioCodec>,
        },
{
    match codec {
        EnhancedAudioCodec::Opus => Some(AudioCodec::Opus),
        EnhancedAudioCodec::Flac => Some(AudioCodec::Flac),
        EnhancedAudioCodec::Aac => Some(AudioCodec::Aac),
        _ => None,
    }
}

/// Display name of a legacy FLV video codec id or a video FourCC; the
/// decimal id when unknown.
pub open spec fn spec_video_codec_id_name(id: u32) -> Seq<char> {
    if id == 7 || id == 0x61766331 {
        "H264"@
    } else if id == 12 || id == 0x68657631 || id == 0x68766331 {
        "HEVC"@
    } else if id == 13 || id == 0x61763031 {
        "AV1"@
    } else if id == 0x76703039 {
        "VP9"@
    } else if id == 0x76766331 {
        "VVC"@
    } else {
        spec_decimal(id as nat)
    }
}

/// Display name of a legacy FLV audio codec id or an audio FourCC; the
/// decimal id when unknown.
pub open spec fn spec_audio_codec_id_name(id: u32) -> Seq<char> {
    if id == 0 {
        "Linear PCM"@
    } else if id == 2 {
        "MP3"@
    } else if id == 10 {
        "AAC"@
    } else if id == 11 {
        "Speex"@
    } else if id == 0x4F707573 {
        "Opus"@
    } else if id == 0x664C6143 {
        "FLAC"@
    } else if id == 0x61632D33 {
        "AC-3"@
    } else if id == 0x65632D33 {
        "E-AC-3"@
    } else {
        spec_decimal(id as nat)
    }
}

fn string_from(t: &str) -> (s: String)
    ensures
        s@ == t@,
{
    let mut s = String::new();
    push_str(&mut s, t);
    assert(s@ =~= t@);
    s
}

pub fn video_codec_id_name(id: u32) -> (r: String)
    ensures
        r@ == spec_video_codec_id_name(id),
{
    match id {
        7 => string_from("H264"),
        12 => string_from("HEVC"),
        13 => string_from("AV1"),
        0x61766331 => string_from("H264"),
        0x68657631 => string_from("HEVC"),
        0x68766331 => string_from("HEVC"),
        0x61763031 => string_from("AV1"),
        0x76703039 => string_from("VP9"),
        0x76766331 => string_from("VVC"),
        other => {
            let mut s = String::new();
            push_decimal(&mut s, other as u64);
            assert(s@ =~= spec_decimal(other as nat));
            s
        },
    }
}

pub fn audio_codec_id_name(id: u32) -> (r: String)
    ensures
        r@ == spec_audio_codec_id_name(id),
{
    match id {
        0 => string_from("Linear PCM"),
        2 => string_from("MP3"),
        10 => string_from("AAC"),
        11 => string_from("Speex"),
        0x4F707573 => string_from("Opus"),
        0x664C6143 => string_from("FLAC"),
        0x61632D33 => string_from("AC-3"),
        0x65632D33 => string_from("E-AC-3"),
        other => {
            let mut s = String::new();
            push_decimal(&mut s, other as u64);
            assert(s@ =~= spec_decimal(other as nat));
            s
        },
    }
}


/// The name a video codec is shown under in the stream listing.
pub open spec fn spec_video_codec_display_name(c: VideoCodec) -> Seq<char> {
    match c {
        VideoCodec::H264 => "H264"@,
        VideoCodec::H265 => "HEVC"@,
        VideoCodec::AV1 => "AV1"@,
    }
}

/// The name an audio codec is shown under in the stream listing.
pub open spec fn spec_audio_codec_display_name(c: AudioCodec) -> Seq<char> {
    match c {
        AudioCodec::Aac => "AAC"@,
        AudioCodec::Opus => "Opus"@,
        AudioCodec::Flac => "FLAC"@,
    }
}

pub fn video_codec_display_name(c: VideoCodec) -> (r: String)
    ensures
        r@ == spec_video_codec_display_name(c),
{
    match c {
        VideoCodec::H264 => string_from("H264"),
        VideoCodec::H265 => string_from("HEVC"),
        VideoCodec::AV1 => string_from("AV1"),
    }
}

pub fn audio_codec_display_name(c: AudioCodec) -> (r: String)
    ensures
        r@ == spec_audio_codec_display_name(c),
{
    match c {
        AudioCodec::Aac => string_from("AAC"),
        AudioCodec::Opus => string_from("Opus"),
        AudioCodec::Flac => string_from("FLAC"),
    }
}

} // verus!
