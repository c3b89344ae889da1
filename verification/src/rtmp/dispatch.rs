//! What an ingest session does with each media message: the legacy FLV
//! video and audio tag layouts, the action an Enhanced RTMP packet type
//! asks of a track, the master playlist of a multi-track stream and the
//! playlist URL of a track.
use super::enhanced::{AudioPacketType, VideoPacketType};
use crate::hls::segments::{push_segment_file_name, spec_segment_file_name};
use crate::text::{push_decimal, push_str, spec_decimal};
use vstd::prelude::*;

verus! {

/// A legacy FLV video tag (first byte: frame type, codec id).
#[derive(Clone, Copy, Debug)]
pub enum LegacyVideo {
    /// An AVC sequence header; the decoder configuration starts at `start`.
    AvcConfig { start: usize },
    /// An AVC frame starting at `start`, with its composition time offset.
    AvcFrame { start: usize, key: bool, cto: i32 },
    /// AVC end of sequence.
    AvcEnd,
    /// Another AVC packet type, ignored.
    AvcIgnored,
    /// A frame of another codec, starting at `start` (byte 1).
    Other { start: usize, key: bool },
}

/// A legacy FLV audio tag (first byte: sound format and flags).
#[derive(Clone, Copy, Debug)]
pub enum LegacyAudio {
    /// An AAC AudioSpecificConfig starting at `start` (byte 2).
    AacConfig { start: usize },
    /// An AAC frame starting at `start` (byte 2).
    AacFrame { start: usize },
    /// Another AAC packet type, ignored.
    AacIgnored,
    /// An Opus identification header ("OpusHead...") starting at `start`
    /// (byte 5).
    OpusConfig { start: usize },
    /// An Opus packet starting at `start` (byte 5).
    OpusFrame { start: usize },
    /// The FLAC stream header ("fLaC" and STREAMINFO) starting at `start`
    /// (byte 1).
    FlacConfig { start: usize },
    /// A FLAC frame (sync byte 0xFF) starting at `start` (byte 5).
    FlacFrame { start: usize },
    /// A FLAC packet that is not a frame, skipped.
    FlacSkipped,
    /// A FLAC packet that fits neither the configuration nor a frame.
    FlacIgnored,
    /// Audio of another format, starting at `start` (byte 1).
    Other { start: usize },
}

/// What a track does with an Enhanced RTMP packet.
#[derive(Clone, Copy, Debug)]
pub enum TrackAction {
    /// Take the payload as the codec configuration.
    SetConfig,
    /// Close the open segment (end of sequence).
    Finalize,
    /// Take the payload as colour and HDR metadata.
    Metadata,
    /// Queue the payload as a frame.
    WriteFrame,
}

/// The 24-bit big-endian value at `off`, sign-extended.
pub open spec fn signed24_at(d: Seq<u8>, off: int) -> int {
    let v = d[off] as int * 65536 + d[off + 1] as int * 256 + d[off + 2] as int;
    if d[off] >= 0x80 {
        v - 0x100_0000
    } else {
        v
    }
}

/// The layout of a legacy video tag: codec id 7 is AVC, whose second byte
/// is the packet type and bytes 2..5 the composition time (0 when the tag
/// is shorter); the payload follows byte 5.
pub open spec fn spec_legacy_video(d: Seq<u8>) -> LegacyVideo
    recommends
        d.len() > 0,
{
    let key = d[0] >> 4u8 == 1;
    if d[0] & 0x0Fu8 == 7 && d.len() >= 2 {
        let start: usize = if d.len() >= 5 {
            5
        } else {
            d.len() as usize
        };
        if d[1] == 0 {
            LegacyVideo::AvcConfig { start }
        } else if d[1] == 1 {
            LegacyVideo::AvcFrame {
                start,
                key,
                cto: if d.len() >= 5 {
                    signed24_at(d, 2) as i32
                } else {
                    0
                },
            }
        } else if d[1] == 2 {
            LegacyVideo::AvcEnd
        } else {
            LegacyVideo::AvcIgnored
        }
    } else {
        LegacyVideo::Other { start: 1, key }
    }
}

/// Reads the layout of a non-empty legacy video tag.
pub fn classify_legacy_video(data: &[u8]) -> (r: LegacyVideo)
    requires
        data@.len() > 0,
    ensures
        r == spec_legacy_video(data@),
        video_payload_start(r) matches Some(s) ==> s <= data@.len(),
{
    let key = data[0] >> 4 == 1;
    if data[0] & 0x0F == 7 && data.len() >= 2 {
        let start: usize = if data.len() >= 5 {
            5
        } else {
            data.len()
        };
        if data[1] == 0 {
            LegacyVideo::AvcConfig { start }
        } else if data[1] == 1 {
            let cto: i32 = if data.len() >= 5 {
                let v: i32 = data[2] as i32 * 65536 + data[3] as i32 * 256 + data[4] as i32;
                if data[2] >= 0x80 {
                    v - 0x100_0000
                } else {
                    v
                }
            } else {
                0
            };
            LegacyVideo::AvcFrame { start, key, cto }
        } else if data[1] == 2 {
            LegacyVideo::AvcEnd
        } else {
            LegacyVideo::AvcIgnored
        }
    } else {
        LegacyVideo::Other { start: 1, key }
    }
}

pub open spec fn starts_with(d: Seq<u8>, off: int, p: Seq<u8>) -> bool {
    off + p.len() <= d.len() && d.subrange(off, off + p.len()) == p
}

/// The layout of a legacy audio tag. Sound format 10 is AAC (byte 1: packet
/// type). Format 9 carries Opus after "Opus" (the identification header
/// starts "OpusHead") or FLAC after "fLaC": the first FLAC packet of at
/// least 38 bytes after byte 0 is the configuration, once FLAC is
/// configured a longer packet holds a frame when its byte 5 is the sync
/// byte 0xFF. Anything else is passed on from byte 1.
/// Where the payload of a legacy video tag starts, for the kinds that
/// carry one.
pub open spec fn video_payload_start(v: LegacyVideo) -> Option<usize> {
    match v {
        LegacyVideo::AvcConfig { start } => Some(start),
        LegacyVideo::AvcFrame { start, .. } => Some(start),
        LegacyVideo::Other { start, .. } => Some(start),
        _ => None,
    }
}

/// Where the payload of a legacy audio tag starts, for the kinds that
/// carry one.
pub open spec fn audio_payload_start(a: LegacyAudio) -> Option<usize> {
    match a {
        LegacyAudio::AacConfig { start } => Some(start),
        LegacyAudio::AacFrame { start } => Some(start),
        LegacyAudio::OpusConfig { start } => Some(start),
        LegacyAudio::OpusFrame { start } => Some(start),
        LegacyAudio::FlacConfig { start } => Some(start),
        LegacyAudio::FlacFrame { start } => Some(start),
        LegacyAudio::Other { start } => Some(start),
        _ => None,
    }
}

pub open spec fn spec_legacy_audio(d: Seq<u8>, flac_configured: bool) -> LegacyAudio
    recommends
        d.len() > 0,
{
    let format = d[0] >> 4u8;
    if format == 10 && d.len() >= 2 {
        if d[1] == 0 {
            LegacyAudio::AacConfig { start: 2 }
        } else if d[1] == 1 {
            LegacyAudio::AacFrame { start: 2 }
        } else {
            LegacyAudio::AacIgnored
        }
    } else if format == 9 && d.len() > 5 {
        if starts_with(d, 1, seq![0x4Fu8, 0x70u8, 0x75u8, 0x73u8]) {
            if starts_with(d, 5, seq![0x4Fu8, 0x70u8, 0x75u8, 0x73u8, 0x48u8, 0x65u8, 0x61u8, 0x64u8]) {
                LegacyAudio::OpusConfig { start: 5 }
            } else {
                LegacyAudio::OpusFrame { start: 5 }
            }
        } else if starts_with(d, 1, seq![0x66u8, 0x4Cu8, 0x61u8, 0x43u8]) {
            if !flac_configured && d.len() - 1 >= 38 {
                LegacyAudio::FlacConfig { start: 1 }
            } else if flac_configured && d.len() - 1 > 4 {
                if d[5] == 0xFF {
                    LegacyAudio::FlacFrame { start: 5 }
                } else {
                    LegacyAudio::FlacSkipped
                }
            } else {
                LegacyAudio::FlacIgnored
            }
        } else {
            LegacyAudio::Other { start: 1 }
        }
    } else {
        LegacyAudio::Other { start: 1 }
    }
}

fn has_prefix(d: &[u8], off: usize, p: &[u8]) -> (r: bool)
    ensures
        r == starts_with(d@, off as int, p@),
{
    if off > d.len() || p.len() > d.len() - off {
        return false;
    }
    let _dlen = d.len();
    let mut i: usize = 0;
    while i < p.len()
        invariant
            i <= p@.len(),
            off + p@.len() <= d@.len(),
            d@.len() <= usize::MAX,
            forall|k: int| 0 <= k < i ==> d@[off + k] == p@[k],
        decreases p.len() - i,
    {
        if d[off + i] != p[i] {
            assert(d@.subrange(off as int, off + p@.len())[i as int] != p@[i as int]);
            return false;
        }
        i += 1;
    }
    assert(d@.subrange(off as int, off + p@.len()) =~= p@);
    true
}

/// Reads the layout of a non-empty legacy audio tag; `flac_configured`
/// tells whether the track's audio codec is already FLAC.
pub fn classify_legacy_audio(data: &[u8], flac_configured: bool) -> (r: LegacyAudio)
    requires
        data@.len() > 0,
    ensures
        r == spec_legacy_audio(data@, flac_configured),
        audio_payload_start(r) matches Some(s) ==> s <= data@.len(),
{
    let format = data[0] >> 4;
    if format == 10 && data.len() >= 2 {
        if data[1] == 0 {
            LegacyAudio::AacConfig { start: 2 }
        } else if data[1] == 1 {
            LegacyAudio::AacFrame { start: 2 }
        } else {
            LegacyAudio::AacIgnored
        }
    } else if format == 9 && data.len() > 5 {
        let opus: [u8; 4] = [0x4F, 0x70, 0x75, 0x73];
        let opus_head: [u8; 8] = [0x4F, 0x70, 0x75, 0x73, 0x48, 0x65, 0x61, 0x64];
        let flac: [u8; 4] = [0x66, 0x4C, 0x61, 0x43];
        assert(opus@ =~= seq![0x4Fu8, 0x70u8, 0x75u8, 0x73u8]);
        assert(opus_head@ =~= seq![0x4Fu8, 0x70u8, 0x75u8, 0x73u8, 0x48u8, 0x65u8, 0x61u8, 0x64u8]);
        assert(flac@ =~= seq![0x66u8, 0x4Cu8, 0x61u8, 0x43u8]);
        if has_prefix(data, 1, opus.as_slice()) {
            if has_prefix(data, 5, opus_head.as_slice()) {
                LegacyAudio::OpusConfig { start: 5 }
            } else {
                LegacyAudio::OpusFrame { start: 5 }
            }
        } else if has_prefix(data, 1, flac.as_slice()) {
            if !flac_configured && data.len() - 1 >= 38 {
                LegacyAudio::FlacConfig { start: 1 }
            } else if flac_configured && data.len() - 1 > 4 {
                if data[5] == 0xFF {
                    LegacyAudio::FlacFrame { start: 5 }
                } else {
                    LegacyAudio::FlacSkipped
                }
            } else {
                LegacyAudio::FlacIgnored
            }
        } else {
            LegacyAudio::Other { start: 1 }
        }
    } else {
        LegacyAudio::Other { start: 1 }
    }
}

/// The action of a video packet type (the inner type of a multitrack
/// packet): configuration, end of sequence, metadata, else a frame.
pub open spec fn spec_video_track_action(pt: Option<VideoPacketType>) -> TrackAction {
    match pt {
        Some(VideoPacketType::SequenceStart) => TrackAction::SetConfig,
        Some(VideoPacketType::SequenceEnd) => TrackAction::Finalize,
        Some(VideoPacketType::Metadata) => TrackAction::Metadata,
        _ => TrackAction::WriteFrame,
    }
}

pub fn video_track_action(pt: Option<VideoPacketType>) -> (r: TrackAction)
    ensures
        r == spec_video_track_action(pt),
{
    match pt {
        Some(VideoPacketType::SequenceStart) => TrackAction::SetConfig,
        Some(VideoPacketType::SequenceEnd) => TrackAction::Finalize,
        Some(VideoPacketType::Metadata) => TrackAction::Metadata,
        _ => TrackAction::WriteFrame,
    }
}

/// The action of an audio packet type (the inner type of a multitrack
/// packet): configuration, end of sequence, else a frame.
pub open spec fn spec_audio_track_action(pt: Option<AudioPacketType>) -> TrackAction {
    match pt {
        Some(AudioPacketType::SequenceStart) => TrackAction::SetConfig,
        Some(AudioPacketType::SequenceEnd) => TrackAction::Finalize,
        _ => TrackAction::WriteFrame,
    }
}

pub fn audio_track_action(pt: Option<AudioPacketType>) -> (r: TrackAction)
    ensures
        r == spec_audio_track_action(pt),
{
    match pt {
        Some(AudioPacketType::SequenceStart) => TrackAction::SetConfig,
        Some(AudioPacketType::SequenceEnd) => TrackAction::Finalize,
        _ => TrackAction::WriteFrame,
    }
}

/// The estimated bandwidth of the `i`-th alternate track: 1.5 Mbit/s less
/// 0.5 Mbit/s per earlier alternate, at least 0.5 Mbit/s.
pub open spec fn alternate_bandwidth(i: int) -> int {
    let b = 1_500_000 - i * 500_000;
    if b >= 500_000 {
        b
    } else {
        500_000
    }
}

pub open spec fn master_entries(ids: Seq<u32>, n: int) -> Seq<char>
    decreases n,
{
    if n <= 0 {
        Seq::empty()
    } else {
        master_entries(ids, n - 1) + "#EXT-X-STREAM-INF:BANDWIDTH="@ + spec_decimal(
            alternate_bandwidth(n - 1) as nat,
        ) + "\n"@ + "track_"@ + spec_decimal(ids[n - 1] as nat) + "/index.m3u8\n"@
    }
}

/// The master playlist of a multi-track stream: the default playlist at
/// 2.5 Mbit/s, then one entry per alternate track.
pub open spec fn spec_master_playlist(ids: Seq<u32>) -> Seq<char> {
    "#EXTM3U\n"@ + "#EXT-X-VERSION:6\n"@ + "#EXT-X-STREAM-INF:BANDWIDTH=2500000\n"@
        + "index.m3u8\n"@ + master_entries(ids, ids.len() as int)
}

/// Builds the master playlist of a stream with the given alternate tracks.
pub fn master_playlist(track_ids: &[u32]) -> (r: String)
    requires
        track_ids@.len() * 500_000 <= u32::MAX + 500_000,
    ensures
        r@ == spec_master_playlist(track_ids@),
{
    let mut s = String::new();
    push_str(&mut s, "#EXTM3U\n");
    push_str(&mut s, "#EXT-X-VERSION:6\n");
    push_str(&mut s, "#EXT-X-STREAM-INF:BANDWIDTH=2500000\n");
    push_str(&mut s, "index.m3u8\n");
    let ghost h = s@;
    let mut i: usize = 0;
    while i < track_ids.len()
        invariant
            i <= track_ids@.len(),
            track_ids@.len() * 500_000 <= u32::MAX + 500_000,
            s@ == h + master_entries(track_ids@, i as int),
        decreases track_ids.len() - i,
    {
        let step: u32 = i as u32 * 500_000;
        let b0: u32 = 1_500_000u32.saturating_sub(step);
        let bandwidth: u32 = if b0 >= 500_000 {
            b0
        } else {
            500_000
        };
        assert(bandwidth == alternate_bandwidth(i as int));
        push_str(&mut s, "#EXT-X-STREAM-INF:BANDWIDTH=");
        push_decimal(&mut s, bandwidth as u64);
        push_str(&mut s, "\n");
        push_str(&mut s, "track_");
        push_decimal(&mut s, track_ids[i] as u64);
        push_str(&mut s, "/index.m3u8\n");
        i += 1;
        assert(s@ =~= h + master_entries(track_ids@, i as int));
    }
    assert(s@ =~= spec_master_playlist(track_ids@));
    s
}

/// The playlist URL of a track: the stream's default playlist for track 0,
/// else the track's own directory.
pub open spec fn spec_track_hls_url(key: Seq<char>, track_id: u32) -> Seq<char> {
    if track_id == 0 {
        "/hls/"@ + key + "/index.m3u8"@
    } else {
        "/hls/"@ + key + "/track_"@ + spec_decimal(track_id as nat) + "/index.m3u8"@
    }
}

pub fn track_hls_url(stream_key: &str, track_id: u32) -> (r: String)
    ensures
        r@ == spec_track_hls_url(stream_key@, track_id),
{
    let mut s = String::new();
    push_str(&mut s, "/hls/");
    push_str(&mut s, stream_key);
    if track_id == 0 {
        push_str(&mut s, "/index.m3u8");
    } else {
        push_str(&mut s, "/track_");
        push_decimal(&mut s, track_id as u64);
        push_str(&mut s, "/index.m3u8");
    }
    assert(s@ =~= spec_track_hls_url(stream_key@, track_id));
    s
}

/// The directory of a track under the stream's HLS directory: none for
/// track 0, else `track_<id>`.
pub open spec fn spec_track_dir(track_id: u32) -> Seq<char> {
    "track_"@ + spec_decimal(track_id as nat)
}

pub fn track_dir(track_id: u32) -> (r: String)
    ensures
        r@ == spec_track_dir(track_id),
{
    let mut s = String::new();
    push_str(&mut s, "track_");
    push_decimal(&mut s, track_id as u64);
    s
}

/// The file name of the segment file being written, before it is renamed
/// into place.
pub fn temp_segment_file_name(index: u32) -> (r: String)
    ensures
        r@ == spec_segment_file_name(index) + ".tmp"@,
{
    let mut s = String::new();
    push_segment_file_name(&mut s, index);
    push_str(&mut s, ".tmp");
    s
}

} // verus!
