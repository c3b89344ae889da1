//! The init segment: ftyp, then moov with one trak per configured track,
//! mvex for fragmented playback and a udta naming the encoder.
use super::av1::{av1_config_is_ok, av1_config_ok, av1c_box_from_config, spec_av1c_box_from_config};
use super::boxes::{full_box, mp4_box, write_box, write_fullbox};
use super::codec::{
    build_dfla, build_dops, build_esds, opus_head_body, opus_head_start, parse_flac_streaminfo,
    spec_build_dfla, spec_build_dops, spec_build_esds, spec_parse_flac_streaminfo,
};
use super::{AudioCodec, Fmp4Muxer, MuxerView, VideoCodec};
use crate::util::{be16, be32, push_bytes, push_u16_be, push_u32_be, push_zeros, zeros};
use vstd::prelude::*;

verus! {

// ── The init segment as bytes ────────────────────────────────────

/// Compatible brands: iso6, mp41, cmfc, then cmfv and cmfa for the tracks
/// present and av01 for AV1 video.
pub open spec fn ftyp_brands(m: MuxerView) -> Seq<u8> {
    seq![0x69u8, 0x73u8, 0x6fu8, 0x36u8] + seq![0x6du8, 0x70u8, 0x34u8, 0x31u8] + seq![0x63u8, 0x6du8, 0x66u8, 0x63u8] + (if m.video_codec is Some {
        seq![0x63u8, 0x6du8, 0x66u8, 0x76u8]
    } else {
        Seq::empty()
    }) + (if m.audio_codec is Some {
        seq![0x63u8, 0x6du8, 0x66u8, 0x61u8]
    } else {
        Seq::empty()
    }) + (if m.video_codec == Some(VideoCodec::AV1) {
        seq![0x61u8, 0x76u8, 0x30u8, 0x31u8]
    } else {
        Seq::empty()
    })
}

/// ftyp: major brand cmfc (CMAF), minor version 0x200.
pub open spec fn ftyp_box(m: MuxerView) -> Seq<u8> {
    mp4_box(seq![0x66u8, 0x74u8, 0x79u8, 0x70u8], seq![0x63u8, 0x6du8, 0x66u8, 0x63u8] + be32(0x200) + ftyp_brands(m))
}

/// The identity transformation matrix of mvhd and tkhd.
pub open spec fn unity_matrix() -> Seq<u8> {
    seq![0x00u8, 0x01u8, 0x00u8, 0x00u8, 0x00u8, 0x00u8, 0x00u8, 0x00u8, 0x00u8, 0x00u8, 0x00u8, 0x00u8, 0x00u8, 0x00u8, 0x00u8, 0x00u8, 0x00u8, 0x01u8, 0x00u8, 0x00u8, 0x00u8, 0x00u8, 0x00u8, 0x00u8, 0x00u8, 0x00u8, 0x00u8, 0x00u8, 0x00u8, 0x00u8, 0x00u8, 0x00u8, 0x40u8, 0x00u8, 0x00u8, 0x00u8]
}

/// The ID a new track would get: 3 when an audio track (ID 2) is present,
/// else 2.
pub open spec fn next_track_id(m: MuxerView) -> u32 {
    if m.audio_codec is Some {
        3
    } else {
        2
    }
}

/// mvhd: timescale 1000, rate 1.0, volume 1.0, unity matrix.
pub open spec fn mvhd_box(m: MuxerView) -> Seq<u8> {
    full_box(
        seq![0x6du8, 0x76u8, 0x68u8, 0x64u8],
        0,
        0,
        be32(0) + be32(0) + be32(1000) + be32(0) + be32(0x00010000) + be16(0x0100) + zeros(10)
            + unity_matrix() + zeros(24) + be32(next_track_id(m)),
    )
}

/// tkhd, flags enabled | in movie.
pub open spec fn tkhd_box(track_id: u32, volume: u16, width: u32, height: u32) -> Seq<u8> {
    full_box(
        seq![0x74u8, 0x6bu8, 0x68u8, 0x64u8],
        0,
        3,
        be32(0) + be32(0) + be32(track_id) + be32(0) + be32(0) + zeros(8) + be16(0) + be16(0)
            + be16(volume) + be16(0) + unity_matrix() + be32(width) + be32(height),
    )
}

/// The edit list entries: video has an empty edit followed by the media
/// from time 0; audio has the single media edit.
pub open spec fn elst_entries(is_video: bool) -> Seq<u8> {
    if is_video {
        be32(2) + be32(0) + be32(0xFFFFFFFF) + be16(1) + be16(0) + be32(0) + be32(0) + be16(1)
            + be16(0)
    } else {
        be32(1) + be32(0) + be32(0) + be16(1) + be16(0)
    }
}

pub open spec fn edts_box(is_video: bool) -> Seq<u8> {
    mp4_box(seq![0x65u8, 0x64u8, 0x74u8, 0x73u8], full_box(seq![0x65u8, 0x6cu8, 0x73u8, 0x74u8], 0, 0, elst_entries(is_video)))
}

/// mdhd with the given timescale, language "und".
pub open spec fn mdhd_box(timescale: u32) -> Seq<u8> {
    full_box(
        seq![0x6du8, 0x64u8, 0x68u8, 0x64u8],
        0,
        0,
        be32(0) + be32(0) + be32(timescale) + be32(0) + be16(0x55C4) + be16(0),
    )
}

pub open spec fn hdlr_box(handler: Seq<u8>, name: Seq<u8>) -> Seq<u8> {
    full_box(seq![0x68u8, 0x64u8, 0x6cu8, 0x72u8], 0, 0, be32(0) + handler + zeros(12) + name)
}

pub open spec fn vmhd_box() -> Seq<u8> {
    full_box(seq![0x76u8, 0x6du8, 0x68u8, 0x64u8], 0, 1, be16(0) + zeros(6))
}

pub open spec fn smhd_box() -> Seq<u8> {
    full_box(seq![0x73u8, 0x6du8, 0x68u8, 0x64u8], 0, 0, be16(0) + be16(0))
}

/// dinf with one self-contained data reference.
pub open spec fn dinf_box() -> Seq<u8> {
    mp4_box(seq![0x64u8, 0x69u8, 0x6eu8, 0x66u8], full_box(seq![0x64u8, 0x72u8, 0x65u8, 0x66u8], 0, 0, be32(1) + full_box(seq![0x75u8, 0x72u8, 0x6cu8, 0x20u8], 0, 1, Seq::empty())))
}

/// A sample table box with no entries.
pub open spec fn empty_table_box(t: Seq<u8>) -> Seq<u8> {
    full_box(t, 0, 0, be32(0))
}

pub open spec fn stsz_box() -> Seq<u8> {
    full_box(seq![0x73u8, 0x74u8, 0x73u8, 0x7au8], 0, 0, be32(0) + be32(0))
}

/// The empty stts, stsc, stsz and stco of a fragmented track.
pub open spec fn stbl_tail() -> Seq<u8> {
    empty_table_box(seq![0x73u8, 0x74u8, 0x74u8, 0x73u8]) + empty_table_box(seq![0x73u8, 0x74u8, 0x73u8, 0x63u8]) + stsz_box() + empty_table_box(seq![0x73u8, 0x74u8, 0x63u8, 0x6fu8])
}

/// The 32-byte compressorname field.
pub open spec fn compressor_name(codec: VideoCodec) -> Seq<u8> {
    if codec == VideoCodec::AV1 {
        seq![10u8] + seq![0x41u8, 0x4fu8, 0x4du8, 0x20u8, 0x43u8, 0x6fu8, 0x64u8, 0x69u8, 0x6eu8, 0x67u8] + zeros(21)
    } else {
        seq![17u8] + seq![0x4cu8, 0x69u8, 0x76u8, 0x65u8, 0x73u8, 0x74u8, 0x72u8, 0x65u8, 0x61u8, 0x6du8, 0x53u8, 0x65u8, 0x72u8, 0x76u8, 0x65u8, 0x72u8, 0x00u8] + zeros(14)
    }
}

pub open spec fn sample_entry_type(codec: VideoCodec) -> Seq<u8> {
    match codec {
        VideoCodec::H264 => seq![0x61u8, 0x76u8, 0x63u8, 0x31u8],
        VideoCodec::H265 => seq![0x68u8, 0x76u8, 0x63u8, 0x31u8],
        VideoCodec::AV1 => seq![0x61u8, 0x76u8, 0x30u8, 0x31u8],
    }
}

pub open spec fn config_box_type(codec: VideoCodec) -> Seq<u8> {
    match codec {
        VideoCodec::H264 => seq![0x61u8, 0x76u8, 0x63u8, 0x43u8],
        VideoCodec::H265 => seq![0x68u8, 0x76u8, 0x63u8, 0x43u8],
        VideoCodec::AV1 => seq![0x61u8, 0x76u8, 0x31u8, 0x43u8],
    }
}

/// The decoder configuration record: the stored config as it is, made
/// into an av1C record for AV1; empty when no config was set.
pub open spec fn video_config_record(m: MuxerView, codec: VideoCodec) -> Seq<u8> {
    match m.video_config {
        Some(c) => if codec == VideoCodec::AV1 {
            spec_av1c_box_from_config(c)
        } else {
            c
        },
        None => Seq::empty(),
    }
}

/// colr (nclx) when a colour description was set.
pub open spec fn colr_box(m: MuxerView) -> Seq<u8> {
    match m.video_color_config {
        Some(c) => mp4_box(
            seq![0x63u8, 0x6fu8, 0x6cu8, 0x72u8],
            seq![0x6eu8, 0x63u8, 0x6cu8, 0x78u8] + be16(c.color_primaries) + be16(c.transfer_characteristics) + be16(
                c.matrix_coefficients,
            ) + seq![
                if c.full_range {
                    0x80u8
                } else {
                    0x00u8
                },
            ],
        ),
        None => Seq::empty(),
    }
}

/// clli (MaxCLL, MaxFALL) when HDR metadata was set.
pub open spec fn clli_box(m: MuxerView) -> Seq<u8> {
    match m.hdr_metadata {
        Some(h) => mp4_box(
            seq![0x63u8, 0x6cu8, 0x6cu8, 0x69u8],
            be16(h.max_content_light_level) + be16(h.max_frame_average_light_level),
        ),
        None => Seq::empty(),
    }
}

/// mdcv when HDR metadata was set: primaries in G, B, R order, white point,
/// max and min luminance.
pub open spec fn mdcv_box(m: MuxerView) -> Seq<u8> {
    match m.hdr_metadata {
        Some(h) => mp4_box(
            seq![0x6du8, 0x64u8, 0x63u8, 0x76u8],
            be16(h.display_primaries_x[1]) + be16(h.display_primaries_y[1]) + be16(
                h.display_primaries_x[2],
            ) + be16(h.display_primaries_y[2]) + be16(h.display_primaries_x[0]) + be16(
                h.display_primaries_y[0],
            ) + be16(h.white_point_x) + be16(h.white_point_y) + be32(h.max_luminance) + be32(
                h.min_luminance,
            ),
        ),
        None => Seq::empty(),
    }
}

/// The fixed fields of a visual sample entry: data reference 1, size,
/// 72 dpi, one frame per sample, compressor name, depth 24.
pub open spec fn visual_entry_fields(m: MuxerView, codec: VideoCodec) -> Seq<u8> {
    zeros(6) + be16(1) + be16(0) + be16(0) + zeros(12) + be16(m.video_width) + be16(m.video_height)
        + be32(0x00480000) + be32(0x00480000) + be32(0) + be16(1) + compressor_name(codec) + be16(
        0x0018,
    ) + be16(0xFFFF)
}

pub open spec fn visual_sample_entry(m: MuxerView, codec: VideoCodec) -> Seq<u8> {
    mp4_box(
        sample_entry_type(codec),
        visual_entry_fields(m, codec) + mp4_box(
            config_box_type(codec),
            video_config_record(m, codec),
        ) + mp4_box(seq![0x70u8, 0x61u8, 0x73u8, 0x70u8], be32(1) + be32(1)) + colr_box(m) + clli_box(m) + mdcv_box(m),
    )
}

pub open spec fn stsd_video_box(m: MuxerView) -> Seq<u8> {
    full_box(
        seq![0x73u8, 0x74u8, 0x73u8, 0x64u8],
        0,
        0,
        be32(1) + match m.video_codec {
            Some(c) => visual_sample_entry(m, c),
            None => Seq::empty(),
        },
    )
}

pub open spec fn video_trak_box(m: MuxerView) -> Seq<u8> {
    mp4_box(
        seq![0x74u8, 0x72u8, 0x61u8, 0x6bu8],
        tkhd_box(
            1,
            0,
            ((m.video_width as u32) << 16u32) as u32,
            ((m.video_height as u32) << 16u32) as u32,
        ) + edts_box(true) + mp4_box(
            seq![0x6du8, 0x64u8, 0x69u8, 0x61u8],
            mdhd_box(m.video_fps_num as u32) + hdlr_box(seq![0x76u8, 0x69u8, 0x64u8, 0x65u8], seq![0x56u8, 0x69u8, 0x64u8, 0x65u8, 0x6fu8, 0x48u8, 0x61u8, 0x6eu8, 0x64u8, 0x6cu8, 0x65u8, 0x72u8, 0x00u8]) + mp4_box(
                seq![0x6du8, 0x69u8, 0x6eu8, 0x66u8],
                vmhd_box() + dinf_box() + mp4_box(seq![0x73u8, 0x74u8, 0x62u8, 0x6cu8], stsd_video_box(m) + stbl_tail()),
            ),
        ),
    )
}

/// The OpusHead pre-skip (little-endian, bytes 2..4 of the header fields).
pub open spec fn opus_pre_skip(h: Seq<u8>) -> u16 {
    ((h[2] as u16) | ((h[3] as u16) << 8u16)) as u16
}

/// The roll distance written in the Opus sgpd: minus the pre-skip, as 16
/// bits; -1 (0xFFFF) without a config of at least 12 header bytes.
pub open spec fn opus_roll_field(c: Option<Seq<u8>>) -> u16 {
    match c {
        Some(cfg) => {
            let h = opus_head_body(cfg);
            if h.len() < 12 {
                0xFFFF
            } else {
                ((0x10000 - opus_pre_skip(h)) % 0x10000) as u16
            }
        },
        None => 0xFFFF,
    }
}

/// Whether the negated pre-skip fits in 16 signed bits (it does not for
/// a pre-skip of 0x8000).
pub open spec fn opus_roll_in_range(c: Option<Seq<u8>>) -> bool {
    match c {
        Some(cfg) => {
            let h = opus_head_body(cfg);
            h.len() >= 12 ==> opus_pre_skip(h) != 0x8000
        },
        None => true,
    }
}

/// sgpd of the Opus roll group.
pub open spec fn sgpd_opus_box(m: MuxerView) -> Seq<u8> {
    full_box(seq![0x73u8, 0x67u8, 0x70u8, 0x64u8], 0, 0, seq![0x72u8, 0x6fu8, 0x6cu8, 0x6cu8] + be32(1) + be16(opus_roll_field(m.audio_config)))
}

/// The fixed fields of an audio sample entry.
pub open spec fn audio_entry_fields(channels: u16, rate: u32) -> Seq<u8> {
    zeros(6) + be16(1) + zeros(8) + be16(channels) + be16(16) + be16(0) + be16(0) + be32(
        (rate << 16u32) as u32,
    )
}

pub open spec fn mp4a_entry(m: MuxerView) -> Seq<u8> {
    mp4_box(
        seq![0x6du8, 0x70u8, 0x34u8, 0x61u8],
        audio_entry_fields(1, m.audio_sample_rate) + full_box(
            seq![0x65u8, 0x73u8, 0x64u8, 0x73u8],
            0,
            0,
            match m.audio_config {
                Some(c) => spec_build_esds(c),
                None => Seq::empty(),
            },
        ) + mp4_box(seq![0x62u8, 0x74u8, 0x72u8, 0x74u8], be32(0) + be32(128000) + be32(128000)),
    )
}

/// The Opus channel count: from the dOps record, 2 when absent or 0.
pub open spec fn opus_channels(m: MuxerView) -> u8 {
    match m.audio_config {
        Some(c) => {
            let d = spec_build_dops(c);
            if d.len() > 1 && d[1] >= 1 {
                d[1]
            } else {
                2
            }
        },
        None => 2,
    }
}

pub open spec fn opus_entry(m: MuxerView) -> Seq<u8> {
    mp4_box(
        seq![0x4fu8, 0x70u8, 0x75u8, 0x73u8],
        audio_entry_fields(opus_channels(m) as u16, 48000) + mp4_box(
            seq![0x64u8, 0x4fu8, 0x70u8, 0x73u8],
            match m.audio_config {
                Some(c) => spec_build_dops(c),
                None => seq![
                    0x00u8,
                    opus_channels(m),
                    0x00u8,
                    0x00u8,
                    0x00u8,
                    0x00u8,
                    0xBBu8,
                    0x80u8,
                    0x00u8,
                    0x00u8,
                    0x00u8,
                ],
            },
        ),
    )
}

/// (sample rate, channels) of a FLAC track: from STREAMINFO, else
/// (44100, 1).
pub open spec fn flac_params(m: MuxerView) -> (u32, u16) {
    match m.audio_config {
        Some(c) => match spec_parse_flac_streaminfo(c) {
            Some(p) => p,
            None => (44100, 1),
        },
        None => (44100, 1),
    }
}

pub open spec fn flac_entry(m: MuxerView) -> Seq<u8> {
    mp4_box(
        seq![0x66u8, 0x4cu8, 0x61u8, 0x43u8],
        audio_entry_fields(flac_params(m).1, flac_params(m).0) + full_box(
            seq![0x64u8, 0x66u8, 0x4cu8, 0x61u8],
            0,
            0,
            match m.audio_config {
                Some(c) => spec_build_dfla(c),
                None => Seq::empty(),
            },
        ),
    )
}

pub open spec fn stsd_audio_box(m: MuxerView) -> Seq<u8> {
    full_box(
        seq![0x73u8, 0x74u8, 0x73u8, 0x64u8],
        0,
        0,
        be32(1) + match m.audio_codec {
            Some(AudioCodec::Opus) => opus_entry(m),
            Some(AudioCodec::Flac) => flac_entry(m),
            _ => mp4a_entry(m),
        },
    )
}

pub open spec fn audio_trak_box(m: MuxerView) -> Seq<u8> {
    mp4_box(
        seq![0x74u8, 0x72u8, 0x61u8, 0x6bu8],
        tkhd_box(2, 0x0100, 0, 0) + edts_box(false) + mp4_box(
            seq![0x6du8, 0x64u8, 0x69u8, 0x61u8],
            mdhd_box(m.audio_sample_rate) + hdlr_box(seq![0x73u8, 0x6fu8, 0x75u8, 0x6eu8], seq![0x53u8, 0x6fu8, 0x75u8, 0x6eu8, 0x64u8, 0x48u8, 0x61u8, 0x6eu8, 0x64u8, 0x6cu8, 0x65u8, 0x72u8, 0x00u8]) + mp4_box(
                seq![0x6du8, 0x69u8, 0x6eu8, 0x66u8],
                smhd_box() + dinf_box() + mp4_box(
                    seq![0x73u8, 0x74u8, 0x62u8, 0x6cu8],
                    stsd_audio_box(m) + (if m.audio_codec == Some(AudioCodec::Opus) {
                        sgpd_opus_box(m)
                    } else {
                        Seq::empty()
                    }) + stbl_tail(),
                ),
            ),
        ),
    )
}

/// trex: default sample description 1, no other defaults.
pub open spec fn trex_box(track_id: u32) -> Seq<u8> {
    full_box(seq![0x74u8, 0x72u8, 0x65u8, 0x78u8], 0, 0, be32(track_id) + be32(1) + be32(0) + be32(0) + be32(0))
}

pub open spec fn mvex_box(m: MuxerView) -> Seq<u8> {
    mp4_box(
        seq![0x6du8, 0x76u8, 0x65u8, 0x78u8],
        (if m.video_codec is Some {
            trex_box(1)
        } else {
            Seq::empty()
        }) + (if m.audio_codec is Some {
            trex_box(2)
        } else {
            Seq::empty()
        }),
    )
}

/// udta/meta with an ilst whose tool entry names the encoder.
pub open spec fn udta_box() -> Seq<u8> {
    mp4_box(
        seq![0x75u8, 0x64u8, 0x74u8, 0x61u8],
        full_box(
            seq![0x6du8, 0x65u8, 0x74u8, 0x61u8],
            0,
            0,
            full_box(seq![0x68u8, 0x64u8, 0x6cu8, 0x72u8], 0, 0, be32(0) + seq![0x6du8, 0x64u8, 0x69u8, 0x72u8] + zeros(12) + seq![0x61u8, 0x70u8, 0x70u8, 0x6cu8, 0x00u8]) + mp4_box(
                seq![0x69u8, 0x6cu8, 0x73u8, 0x74u8],
                mp4_box(seq![0xa9u8, 0x74u8, 0x6fu8, 0x6fu8], full_box(seq![0x64u8, 0x61u8, 0x74u8, 0x61u8], 0, 1, be32(0) + seq![0x4cu8, 0x69u8, 0x76u8, 0x65u8, 0x73u8, 0x74u8, 0x72u8, 0x65u8, 0x61u8, 0x6du8, 0x53u8, 0x65u8, 0x72u8, 0x76u8, 0x65u8, 0x72u8])),
            ),
        ),
    )
}

pub open spec fn moov_box(m: MuxerView) -> Seq<u8> {
    mp4_box(
        seq![0x6du8, 0x6fu8, 0x6fu8, 0x76u8],
        mvhd_box(m) + (if m.video_codec is Some {
            video_trak_box(m)
        } else {
            Seq::empty()
        }) + (if m.audio_codec is Some {
            audio_trak_box(m)
        } else {
            Seq::empty()
        }) + mvex_box(m) + udta_box(),
    )
}

/// The init segment: ftyp then moov.
pub open spec fn spec_init_segment(m: MuxerView) -> Seq<u8> {
    ftyp_box(m) + moov_box(m)
}

/// Whether the init segment can be built without overflow: an AV1 config
/// must be walkable, an AAC config's descriptor lengths must fit, and an
/// Opus pre-skip must be negatable in 16 bits.
pub open spec fn init_in_range(m: MuxerView) -> bool {
    &&& (m.video_codec == Some(VideoCodec::AV1) && m.video_config is Some) ==> av1_config_ok(
        m.video_config->0,
    )
    &&& (m.audio_codec == Some(AudioCodec::Aac) && m.audio_config is Some) ==> m.audio_config->0.len()
        + 32 <= usize::MAX
    &&& m.audio_codec == Some(AudioCodec::Opus) ==> opus_roll_in_range(m.audio_config)
}

// ── Writers ──────────────────────────────────────────────────────

fn write_tkhd(w: &mut Vec<u8>, track_id: u32, volume: u16, width: u32, height: u32)
    ensures
        final(w)@ == old(w)@ + tkhd_box(track_id, volume, width, height),
{
    let mut data: Vec<u8> = Vec::new();
    push_u32_be(&mut data, 0);
    push_u32_be(&mut data, 0);
    push_u32_be(&mut data, track_id);
    push_u32_be(&mut data, 0);
    push_u32_be(&mut data, 0);
    push_zeros(&mut data, 8);
    push_u16_be(&mut data, 0);
    push_u16_be(&mut data, 0);
    push_u16_be(&mut data, volume);
    push_u16_be(&mut data, 0);
    push_bytes(&mut data, &[0x00, 0x01, 0x00, 0x00, 0x00, 0x00, 0x00, 0x00, 0x00, 0x00, 0x00, 0x00, 0x00, 0x00, 0x00, 0x00, 0x00, 0x01, 0x00, 0x00, 0x00, 0x00, 0x00, 0x00, 0x00, 0x00, 0x00, 0x00, 0x00, 0x00, 0x00, 0x00, 0x40, 0x00, 0x00, 0x00]);
    push_u32_be(&mut data, width);
    push_u32_be(&mut data, height);
    assert(data@ =~= be32(0) + be32(0) + be32(track_id) + be32(0) + be32(0) + zeros(8) + be16(0)
        + be16(0) + be16(volume) + be16(0) + unity_matrix() + be32(width) + be32(height));
    write_fullbox(w, &[0x74, 0x6b, 0x68, 0x64], 0, 0x000003, data.as_slice());
}

fn write_edts(w: &mut Vec<u8>, is_video: bool)
    ensures
        final(w)@ == old(w)@ + edts_box(is_video),
{
    let mut elst: Vec<u8> = Vec::new();
    if is_video {
        push_u32_be(&mut elst, 2);
        push_u32_be(&mut elst, 0);
        push_u32_be(&mut elst, 0xFFFFFFFF);
        push_u16_be(&mut elst, 1);
        push_u16_be(&mut elst, 0);
        push_u32_be(&mut elst, 0);
        push_u32_be(&mut elst, 0);
        push_u16_be(&mut elst, 1);
        push_u16_be(&mut elst, 0);
    } else {
        push_u32_be(&mut elst, 1);
        push_u32_be(&mut elst, 0);
        push_u32_be(&mut elst, 0);
        push_u16_be(&mut elst, 1);
        push_u16_be(&mut elst, 0);
    }
    assert(elst@ =~= elst_entries(is_video));
    let mut edts: Vec<u8> = Vec::new();
    write_fullbox(&mut edts, &[0x65, 0x6c, 0x73, 0x74], 0, 0, elst.as_slice());
    write_box(w, &[0x65, 0x64, 0x74, 0x73], edts.as_slice());
}

fn write_mdhd(w: &mut Vec<u8>, timescale: u32)
    ensures
        final(w)@ == old(w)@ + mdhd_box(timescale),
{
    let mut data: Vec<u8> = Vec::new();
    push_u32_be(&mut data, 0);
    push_u32_be(&mut data, 0);
    push_u32_be(&mut data, timescale);
    push_u32_be(&mut data, 0);
    push_u16_be(&mut data, 0x55C4);
    push_u16_be(&mut data, 0);
    assert(data@ =~= be32(0) + be32(0) + be32(timescale) + be32(0) + be16(0x55C4) + be16(0));
    write_fullbox(w, &[0x6d, 0x64, 0x68, 0x64], 0, 0, data.as_slice());
}

fn write_hdlr(w: &mut Vec<u8>, handler_type: &[u8; 4], name: &[u8])
    ensures
        final(w)@ == old(w)@ + hdlr_box(handler_type@, name@),
{
    let mut data: Vec<u8> = Vec::new();
    push_u32_be(&mut data, 0);
    push_bytes(&mut data, handler_type);
    push_zeros(&mut data, 12);
    push_bytes(&mut data, name);
    assert(data@ =~= be32(0) + handler_type@ + zeros(12) + name@);
    write_fullbox(w, &[0x68, 0x64, 0x6c, 0x72], 0, 0, data.as_slice());
}

fn write_vmhd(w: &mut Vec<u8>)
    ensures
        final(w)@ == old(w)@ + vmhd_box(),
{
    let mut data: Vec<u8> = Vec::new();
    push_u16_be(&mut data, 0);
    push_zeros(&mut data, 6);
    assert(data@ =~= be16(0) + zeros(6));
    write_fullbox(w, &[0x76, 0x6d, 0x68, 0x64], 0, 0x000001, data.as_slice());
}

fn write_smhd(w: &mut Vec<u8>)
    ensures
        final(w)@ == old(w)@ + smhd_box(),
{
    let mut data: Vec<u8> = Vec::new();
    push_u16_be(&mut data, 0);
    push_u16_be(&mut data, 0);
    assert(data@ =~= be16(0) + be16(0));
    write_fullbox(w, &[0x73, 0x6d, 0x68, 0x64], 0, 0, data.as_slice());
}

fn write_dinf(w: &mut Vec<u8>)
    ensures
        final(w)@ == old(w)@ + dinf_box(),
{
    let mut dref: Vec<u8> = Vec::new();
    push_u32_be(&mut dref, 1);
    let url: Vec<u8> = Vec::new();
    write_fullbox(&mut dref, &[0x75, 0x72, 0x6c, 0x20], 0, 0x000001, url.as_slice());
    assert(url@ =~= Seq::<u8>::empty());
    let mut data: Vec<u8> = Vec::new();
    write_fullbox(&mut data, &[0x64, 0x72, 0x65, 0x66], 0, 0, dref.as_slice());
    write_box(w, &[0x64, 0x69, 0x6e, 0x66], data.as_slice());
}

fn write_empty_table(w: &mut Vec<u8>, box_type: &[u8; 4])
    ensures
        final(w)@ == old(w)@ + empty_table_box(box_type@),
{
    let mut data: Vec<u8> = Vec::new();
    push_u32_be(&mut data, 0);
    write_fullbox(w, box_type, 0, 0, data.as_slice());
}

fn write_stbl_tail(w: &mut Vec<u8>)
    ensures
        final(w)@ == old(w)@ + stbl_tail(),
{
    write_empty_table(w, &[0x73, 0x74, 0x74, 0x73]);
    write_empty_table(w, &[0x73, 0x74, 0x73, 0x63]);
    let mut stsz: Vec<u8> = Vec::new();
    push_u32_be(&mut stsz, 0);
    push_u32_be(&mut stsz, 0);
    assert(stsz@ =~= be32(0) + be32(0));
    write_fullbox(w, &[0x73, 0x74, 0x73, 0x7a], 0, 0, stsz.as_slice());
    write_empty_table(w, &[0x73, 0x74, 0x63, 0x6f]);
    assert(w@ =~= old(w)@ + stbl_tail());
}

fn write_trex(w: &mut Vec<u8>, track_id: u32)
    ensures
        final(w)@ == old(w)@ + trex_box(track_id),
{
    let mut data: Vec<u8> = Vec::new();
    push_u32_be(&mut data, track_id);
    push_u32_be(&mut data, 1);
    push_u32_be(&mut data, 0);
    push_u32_be(&mut data, 0);
    push_u32_be(&mut data, 0);
    assert(data@ =~= be32(track_id) + be32(1) + be32(0) + be32(0) + be32(0));
    write_fullbox(w, &[0x74, 0x72, 0x65, 0x78], 0, 0, data.as_slice());
}

fn write_udta(w: &mut Vec<u8>)
    ensures
        final(w)@ == old(w)@ + udta_box(),
{
    let mut hdlr: Vec<u8> = Vec::new();
    push_u32_be(&mut hdlr, 0);
    push_bytes(&mut hdlr, &[0x6d, 0x64, 0x69, 0x72]);
    push_zeros(&mut hdlr, 12);
    push_bytes(&mut hdlr, &[0x61, 0x70, 0x70, 0x6c, 0x00]);
    assert(hdlr@ =~= be32(0) + seq![0x6du8, 0x64u8, 0x69u8, 0x72u8] + zeros(12) + seq![0x61u8, 0x70u8, 0x70u8, 0x6cu8, 0x00u8]);
    let mut meta: Vec<u8> = Vec::new();
    write_fullbox(&mut meta, &[0x68, 0x64, 0x6c, 0x72], 0, 0, hdlr.as_slice());
    let mut data: Vec<u8> = Vec::new();
    push_u32_be(&mut data, 0);
    push_bytes(&mut data, &[0x4c, 0x69, 0x76, 0x65, 0x73, 0x74, 0x72, 0x65, 0x61, 0x6d, 0x53, 0x65, 0x72, 0x76, 0x65, 0x72]);
    assert(data@ =~= be32(0) + seq![0x4cu8, 0x69u8, 0x76u8, 0x65u8, 0x73u8, 0x74u8, 0x72u8, 0x65u8, 0x61u8, 0x6du8, 0x53u8, 0x65u8, 0x72u8, 0x76u8, 0x65u8, 0x72u8]);
    let mut too: Vec<u8> = Vec::new();
    write_fullbox(&mut too, &[0x64, 0x61, 0x74, 0x61], 0, 0x000001, data.as_slice());
    let mut ilst: Vec<u8> = Vec::new();
    write_box(&mut ilst, &[0xa9, 0x74, 0x6f, 0x6f], too.as_slice());
    write_box(&mut meta, &[0x69, 0x6c, 0x73, 0x74], ilst.as_slice());
    let mut udta: Vec<u8> = Vec::new();
    write_fullbox(&mut udta, &[0x6d, 0x65, 0x74, 0x61], 0, 0, meta.as_slice());
    write_box(w, &[0x75, 0x64, 0x74, 0x61], udta.as_slice());
}

fn push_audio_entry_fields(w: &mut Vec<u8>, channels: u16, rate: u32)
    ensures
        final(w)@ == old(w)@ + audio_entry_fields(channels, rate),
{
    push_zeros(w, 6);
    push_u16_be(w, 1);
    push_zeros(w, 8);
    push_u16_be(w, channels);
    push_u16_be(w, 16);
    push_u16_be(w, 0);
    push_u16_be(w, 0);
    push_u32_be(w, rate << 16);
    assert(w@ =~= old(w)@ + audio_entry_fields(channels, rate));
}

impl Fmp4Muxer {
    /// Whether `init_segment` can run on this configuration.
    pub fn init_is_in_range(&self) -> (r: bool)
        ensures
            r == init_in_range(self@),
    {
        let av1_ok = match self.video_codec {
            Some(VideoCodec::AV1) => match &self.video_config {
                Some(c) => av1_config_is_ok(c.as_slice()),
                None => true,
            },
            _ => true,
        };
        let esds_ok = match self.audio_codec {
            Some(AudioCodec::Aac) => match &self.audio_config {
                Some(c) => c.len() <= usize::MAX - 32,
                None => true,
            },
            _ => true,
        };
        let opus_ok = match self.audio_codec {
            Some(AudioCodec::Opus) => self.opus_roll_checked().is_some(),
            _ => true,
        };
        av1_ok && esds_ok && opus_ok
    }

    /// The init segment: ftyp and moov describing the configured tracks.
    pub fn init_segment(&self) -> (r: Vec<u8>)
        requires
            init_in_range(self@),
        ensures
            r@ == spec_init_segment(self@),
    {
        let mut buf: Vec<u8> = Vec::new();
        self.write_ftyp(&mut buf);
        self.write_moov(&mut buf);
        assert(buf@ =~= spec_init_segment(self@));
        buf
    }

    fn write_ftyp(&self, w: &mut Vec<u8>)
        ensures
            final(w)@ == old(w)@ + ftyp_box(self@),
    {
        let mut brands: Vec<u8> = Vec::new();
        push_bytes(&mut brands, &[0x69, 0x73, 0x6f, 0x36]);
        push_bytes(&mut brands, &[0x6d, 0x70, 0x34, 0x31]);
        push_bytes(&mut brands, &[0x63, 0x6d, 0x66, 0x63]);
        if self.video_codec.is_some() {
            push_bytes(&mut brands, &[0x63, 0x6d, 0x66, 0x76]);
        }
        if self.audio_codec.is_some() {
            push_bytes(&mut brands, &[0x63, 0x6d, 0x66, 0x61]);
        }
        match self.video_codec {
            Some(VideoCodec::AV1) => push_bytes(&mut brands, &[0x61, 0x76, 0x30, 0x31]),
            _ => {},
        }
        assert(brands@ =~= ftyp_brands(self@));
        let mut data: Vec<u8> = Vec::new();
        push_bytes(&mut data, &[0x63, 0x6d, 0x66, 0x63]);
        push_u32_be(&mut data, 0x00000200);
        push_bytes(&mut data, brands.as_slice());
        assert(data@ =~= seq![0x63u8, 0x6du8, 0x66u8, 0x63u8] + be32(0x200) + ftyp_brands(self@));
        write_box(w, &[0x66, 0x74, 0x79, 0x70], data.as_slice());
    }

    fn write_moov(&self, w: &mut Vec<u8>)
        requires
            init_in_range(self@),
        ensures
            final(w)@ == old(w)@ + moov_box(self@),
    {
        let mut moov: Vec<u8> = Vec::new();
        self.write_mvhd(&mut moov);
        let ghost a = moov@;
        if self.video_codec.is_some() {
            self.write_video_trak(&mut moov);
        }
        let ghost b = moov@;
        assert(b =~= a + (if self@.video_codec is Some {
            video_trak_box(self@)
        } else {
            Seq::empty()
        }));
        if self.audio_codec.is_some() {
            self.write_audio_trak(&mut moov);
        }
        let ghost c = moov@;
        assert(c =~= b + (if self@.audio_codec is Some {
            audio_trak_box(self@)
        } else {
            Seq::empty()
        }));
        self.write_mvex(&mut moov);
        write_udta(&mut moov);
        assert(moov@ =~= mvhd_box(self@) + (if self@.video_codec is Some {
            video_trak_box(self@)
        } else {
            Seq::empty()
        }) + (if self@.audio_codec is Some {
            audio_trak_box(self@)
        } else {
            Seq::empty()
        }) + mvex_box(self@) + udta_box());
        write_box(w, &[0x6d, 0x6f, 0x6f, 0x76], moov.as_slice());
    }

    fn write_mvhd(&self, w: &mut Vec<u8>)
        ensures
            final(w)@ == old(w)@ + mvhd_box(self@),
    {
        let mut data: Vec<u8> = Vec::new();
        push_u32_be(&mut data, 0);
        push_u32_be(&mut data, 0);
        push_u32_be(&mut data, 1000);
        push_u32_be(&mut data, 0);
        push_u32_be(&mut data, 0x00010000);
        push_u16_be(&mut data, 0x0100);
        push_zeros(&mut data, 10);
        push_bytes(&mut data, &[0x00, 0x01, 0x00, 0x00, 0x00, 0x00, 0x00, 0x00, 0x00, 0x00, 0x00, 0x00, 0x00, 0x00, 0x00, 0x00, 0x00, 0x01, 0x00, 0x00, 0x00, 0x00, 0x00, 0x00, 0x00, 0x00, 0x00, 0x00, 0x00, 0x00, 0x00, 0x00, 0x40, 0x00, 0x00, 0x00]);
        push_zeros(&mut data, 24);
        let max_track_id: u32 = if self.audio_codec.is_some() {
            2
        } else {
            1
        };
        push_u32_be(&mut data, max_track_id + 1);
        assert(data@ =~= be32(0) + be32(0) + be32(1000) + be32(0) + be32(0x00010000) + be16(0x0100)
            + zeros(10) + unity_matrix() + zeros(24) + be32(next_track_id(self@)));
        write_fullbox(w, &[0x6d, 0x76, 0x68, 0x64], 0, 0, data.as_slice());
    }

    fn write_video_trak(&self, w: &mut Vec<u8>)
        requires
            init_in_range(self@),
            self@.video_codec is Some,
        ensures
            final(w)@ == old(w)@ + video_trak_box(self@),
    {
        let mut stbl: Vec<u8> = Vec::new();
        self.write_stsd_video(&mut stbl);
        write_stbl_tail(&mut stbl);
        let mut minf: Vec<u8> = Vec::new();
        write_vmhd(&mut minf);
        write_dinf(&mut minf);
        write_box(&mut minf, &[0x73, 0x74, 0x62, 0x6c], stbl.as_slice());
        let mut mdia: Vec<u8> = Vec::new();
        write_mdhd(&mut mdia, self.video_fps_num as u32);
        write_hdlr(&mut mdia, &[0x76, 0x69, 0x64, 0x65], &[0x56, 0x69, 0x64, 0x65, 0x6f, 0x48, 0x61, 0x6e, 0x64, 0x6c, 0x65, 0x72, 0x00]);
        write_box(&mut mdia, &[0x6d, 0x69, 0x6e, 0x66], minf.as_slice());
        let mut trak: Vec<u8> = Vec::new();
        write_tkhd(
            &mut trak,
            1,
            0,
            (self.video_width as u32) << 16,
            (self.video_height as u32) << 16,
        );
        write_edts(&mut trak, true);
        write_box(&mut trak, &[0x6d, 0x64, 0x69, 0x61], mdia.as_slice());
        write_box(w, &[0x74, 0x72, 0x61, 0x6b], trak.as_slice());
    }

    fn write_stsd_video(&self, w: &mut Vec<u8>)
        requires
            init_in_range(self@),
        ensures
            final(w)@ == old(w)@ + stsd_video_box(self@),
    {
        let mut data: Vec<u8> = Vec::new();
        push_u32_be(&mut data, 1);
        match self.video_codec {
            Some(c) => self.write_visual_sample_entry(&mut data, c),
            None => {},
        }
        assert(data@ =~= be32(1) + match self@.video_codec {
            Some(c) => visual_sample_entry(self@, c),
            None => Seq::empty(),
        });
        write_fullbox(w, &[0x73, 0x74, 0x73, 0x64], 0, 0, data.as_slice());
    }

    fn video_config_record(&self, codec: VideoCodec) -> (r: Vec<u8>)
        requires
            init_in_range(self@),
            self@.video_codec == Some(codec),
        ensures
            r@ == video_config_record(self@, codec),
    {
        match &self.video_config {
            Some(cfg) => match codec {
                VideoCodec::AV1 => av1c_box_from_config(cfg.as_slice()),
                _ => vstd::slice::slice_to_vec(cfg.as_slice()),
            },
            None => Vec::new(),
        }
    }

    fn write_visual_sample_entry(&self, w: &mut Vec<u8>, codec: VideoCodec)
        requires
            init_in_range(self@),
            self@.video_codec == Some(codec),
        ensures
            final(w)@ == old(w)@ + visual_sample_entry(self@, codec),
    {
        let mut data: Vec<u8> = Vec::new();
        push_zeros(&mut data, 6);
        push_u16_be(&mut data, 1);
        push_u16_be(&mut data, 0);
        push_u16_be(&mut data, 0);
        push_zeros(&mut data, 12);
        push_u16_be(&mut data, self.video_width);
        push_u16_be(&mut data, self.video_height);
        push_u32_be(&mut data, 0x00480000);
        push_u32_be(&mut data, 0x00480000);
        push_u32_be(&mut data, 0);
        push_u16_be(&mut data, 1);
        match codec {
            VideoCodec::AV1 => {
                data.push(10);
                push_bytes(&mut data, &[0x41, 0x4f, 0x4d, 0x20, 0x43, 0x6f, 0x64, 0x69, 0x6e, 0x67]);
                push_zeros(&mut data, 21);
            },
            _ => {
                data.push(17);
                push_bytes(&mut data, &[0x4c, 0x69, 0x76, 0x65, 0x73, 0x74, 0x72, 0x65, 0x61, 0x6d, 0x53, 0x65, 0x72, 0x76, 0x65, 0x72, 0x00]);
                push_zeros(&mut data, 14);
            },
        }
        push_u16_be(&mut data, 0x0018);
        push_u16_be(&mut data, 0xFFFF);
        assert(data@ =~= visual_entry_fields(self@, codec));
        let record = self.video_config_record(codec);
        match codec {
            VideoCodec::H264 => write_box(&mut data, &[0x61, 0x76, 0x63, 0x43], record.as_slice()),
            VideoCodec::H265 => write_box(&mut data, &[0x68, 0x76, 0x63, 0x43], record.as_slice()),
            VideoCodec::AV1 => write_box(&mut data, &[0x61, 0x76, 0x31, 0x43], record.as_slice()),
        }
        let mut pasp: Vec<u8> = Vec::new();
        push_u32_be(&mut pasp, 1);
        push_u32_be(&mut pasp, 1);
        assert(pasp@ =~= be32(1) + be32(1));
        write_box(&mut data, &[0x70, 0x61, 0x73, 0x70], pasp.as_slice());
        self.write_colr(&mut data);
        self.write_clli(&mut data);
        self.write_mdcv(&mut data);
        assert(data@ =~= visual_entry_fields(self@, codec) + mp4_box(
            config_box_type(codec),
            video_config_record(self@, codec),
        ) + mp4_box(seq![0x70u8, 0x61u8, 0x73u8, 0x70u8], be32(1) + be32(1)) + colr_box(self@) + clli_box(self@) + mdcv_box(
            self@,
        ));
        match codec {
            VideoCodec::H264 => write_box(w, &[0x61, 0x76, 0x63, 0x31], data.as_slice()),
            VideoCodec::H265 => write_box(w, &[0x68, 0x76, 0x63, 0x31], data.as_slice()),
            VideoCodec::AV1 => write_box(w, &[0x61, 0x76, 0x30, 0x31], data.as_slice()),
        }
    }

    fn write_colr(&self, w: &mut Vec<u8>)
        ensures
            final(w)@ == old(w)@ + colr_box(self@),
    {
        match self.video_color_config {
            Some(cfg) => {
                let mut data: Vec<u8> = Vec::new();
                push_bytes(&mut data, &[0x6e, 0x63, 0x6c, 0x78]);
                push_u16_be(&mut data, cfg.color_primaries);
                push_u16_be(&mut data, cfg.transfer_characteristics);
                push_u16_be(&mut data, cfg.matrix_coefficients);
                data.push(
                    if cfg.full_range {
                        0x80
                    } else {
                        0x00
                    },
                );
                assert(data@ =~= seq![0x6eu8, 0x63u8, 0x6cu8, 0x78u8] + be16(cfg.color_primaries) + be16(
                    cfg.transfer_characteristics,
                ) + be16(cfg.matrix_coefficients) + seq![
                    if cfg.full_range {
                        0x80u8
                    } else {
                        0x00u8
                    },
                ]);
                write_box(w, &[0x63, 0x6f, 0x6c, 0x72], data.as_slice());
            },
            None => {
                assert(w@ =~= old(w)@ + colr_box(self@));
            },
        }
    }

    fn write_clli(&self, w: &mut Vec<u8>)
        ensures
            final(w)@ == old(w)@ + clli_box(self@),
    {
        match self.hdr_metadata {
            Some(hdr) => {
                let mut data: Vec<u8> = Vec::new();
                push_u16_be(&mut data, hdr.max_content_light_level);
                push_u16_be(&mut data, hdr.max_frame_average_light_level);
                assert(data@ =~= be16(hdr.max_content_light_level) + be16(
                    hdr.max_frame_average_light_level,
                ));
                write_box(w, &[0x63, 0x6c, 0x6c, 0x69], data.as_slice());
            },
            None => {
                assert(w@ =~= old(w)@ + clli_box(self@));
            },
        }
    }

    fn write_mdcv(&self, w: &mut Vec<u8>)
        ensures
            final(w)@ == old(w)@ + mdcv_box(self@),
    {
        match self.hdr_metadata {
            Some(hdr) => {
                let mut data: Vec<u8> = Vec::new();
                push_u16_be(&mut data, hdr.display_primaries_x[1]);
                push_u16_be(&mut data, hdr.display_primaries_y[1]);
                push_u16_be(&mut data, hdr.display_primaries_x[2]);
                push_u16_be(&mut data, hdr.display_primaries_y[2]);
                push_u16_be(&mut data, hdr.display_primaries_x[0]);
                push_u16_be(&mut data, hdr.display_primaries_y[0]);
                push_u16_be(&mut data, hdr.white_point_x);
                push_u16_be(&mut data, hdr.white_point_y);
                push_u32_be(&mut data, hdr.max_luminance);
                push_u32_be(&mut data, hdr.min_luminance);
                assert(data@ =~= be16(hdr.display_primaries_x[1]) + be16(hdr.display_primaries_y[1])
                    + be16(hdr.display_primaries_x[2]) + be16(hdr.display_primaries_y[2]) + be16(
                    hdr.display_primaries_x[0],
                ) + be16(hdr.display_primaries_y[0]) + be16(hdr.white_point_x) + be16(
                    hdr.white_point_y,
                ) + be32(hdr.max_luminance) + be32(hdr.min_luminance));
                write_box(w, &[0x6d, 0x64, 0x63, 0x76], data.as_slice());
            },
            None => {
                assert(w@ =~= old(w)@ + mdcv_box(self@));
            },
        }
    }

    fn write_audio_trak(&self, w: &mut Vec<u8>)
        requires
            init_in_range(self@),
            self@.audio_codec is Some,
        ensures
            final(w)@ == old(w)@ + audio_trak_box(self@),
    {
        let mut stbl: Vec<u8> = Vec::new();
        self.write_stsd_audio(&mut stbl);
        let ghost a = stbl@;
        match self.audio_codec {
            Some(AudioCodec::Opus) => self.write_sgpd_opus(&mut stbl),
            _ => {},
        }
        assert(stbl@ =~= a + (if self@.audio_codec == Some(AudioCodec::Opus) {
            sgpd_opus_box(self@)
        } else {
            Seq::empty()
        }));
        write_stbl_tail(&mut stbl);
        let mut minf: Vec<u8> = Vec::new();
        write_smhd(&mut minf);
        write_dinf(&mut minf);
        write_box(&mut minf, &[0x73, 0x74, 0x62, 0x6c], stbl.as_slice());
        let mut mdia: Vec<u8> = Vec::new();
        write_mdhd(&mut mdia, self.audio_sample_rate);
        write_hdlr(&mut mdia, &[0x73, 0x6f, 0x75, 0x6e], &[0x53, 0x6f, 0x75, 0x6e, 0x64, 0x48, 0x61, 0x6e, 0x64, 0x6c, 0x65, 0x72, 0x00]);
        write_box(&mut mdia, &[0x6d, 0x69, 0x6e, 0x66], minf.as_slice());
        let mut trak: Vec<u8> = Vec::new();
        write_tkhd(&mut trak, 2, 0x0100, 0, 0);
        write_edts(&mut trak, false);
        write_box(&mut trak, &[0x6d, 0x64, 0x69, 0x61], mdia.as_slice());
        write_box(w, &[0x74, 0x72, 0x61, 0x6b], trak.as_slice());
    }

    /// The sgpd roll field, or None where the pre-skip cannot be negated.
    fn opus_roll_checked(&self) -> (r: Option<u16>)
        ensures
            r is Some <==> opus_roll_in_range(self@.audio_config),
            r matches Some(v) ==> v == opus_roll_field(self@.audio_config),
    {
        match &self.audio_config {
            None => Some(0xFFFF),
            Some(c) => {
                let k = opus_head_start(c.as_slice());
                if c.len() - k < 12 {
                    Some(0xFFFF)
                } else {
                    let ghost h = opus_head_body(c@);
                    assert(h[2] == c@[k + 2] && h[3] == c@[k + 3]);
                    let p: u16 = (c[k + 2] as u16) | ((c[k + 3] as u16) << 8);
                    if p == 0x8000 {
                        None
                    } else if p == 0 {
                        Some(0)
                    } else {
                        Some(65535 - p + 1)
                    }
                }
            },
        }
    }

    fn write_sgpd_opus(&self, w: &mut Vec<u8>)
        requires
            opus_roll_in_range(self@.audio_config),
        ensures
            final(w)@ == old(w)@ + sgpd_opus_box(self@),
    {
        let roll = match self.opus_roll_checked() {
            Some(v) => v,
            None => 0xFFFF,
        };
        let mut data: Vec<u8> = Vec::new();
        push_bytes(&mut data, &[0x72, 0x6f, 0x6c, 0x6c]);
        push_u32_be(&mut data, 1);
        push_u16_be(&mut data, roll);
        assert(data@ =~= seq![0x72u8, 0x6fu8, 0x6cu8, 0x6cu8] + be32(1) + be16(opus_roll_field(self@.audio_config)));
        write_fullbox(w, &[0x73, 0x67, 0x70, 0x64], 0, 0, data.as_slice());
    }

    fn write_stsd_audio(&self, w: &mut Vec<u8>)
        requires
            init_in_range(self@),
            self@.audio_codec is Some,
        ensures
            final(w)@ == old(w)@ + stsd_audio_box(self@),
    {
        let mut data: Vec<u8> = Vec::new();
        push_u32_be(&mut data, 1);
        match self.audio_codec {
            Some(AudioCodec::Opus) => self.write_opus_sample_entry(&mut data),
            Some(AudioCodec::Flac) => self.write_flac_sample_entry(&mut data),
            _ => self.write_mp4a_sample_entry(&mut data),
        }
        assert(data@ =~= be32(1) + match self@.audio_codec {
            Some(AudioCodec::Opus) => opus_entry(self@),
            Some(AudioCodec::Flac) => flac_entry(self@),
            _ => mp4a_entry(self@),
        });
        write_fullbox(w, &[0x73, 0x74, 0x73, 0x64], 0, 0, data.as_slice());
    }

    fn write_mp4a_sample_entry(&self, w: &mut Vec<u8>)
        requires
            self@.audio_config is Some ==> self@.audio_config->0.len() + 32 <= usize::MAX,
        ensures
            final(w)@ == old(w)@ + mp4a_entry(self@),
    {
        let mut data: Vec<u8> = Vec::new();
        push_audio_entry_fields(&mut data, 1, self.audio_sample_rate);
        let esds: Vec<u8> = match &self.audio_config {
            Some(c) => build_esds(c.as_slice()),
            None => Vec::new(),
        };
        write_fullbox(&mut data, &[0x65, 0x73, 0x64, 0x73], 0, 0, esds.as_slice());
        let mut btrt: Vec<u8> = Vec::new();
        push_u32_be(&mut btrt, 0);
        push_u32_be(&mut btrt, 128000);
        push_u32_be(&mut btrt, 128000);
        assert(btrt@ =~= be32(0) + be32(128000) + be32(128000));
        write_box(&mut data, &[0x62, 0x74, 0x72, 0x74], btrt.as_slice());
        write_box(w, &[0x6d, 0x70, 0x34, 0x61], data.as_slice());
    }

    fn write_opus_sample_entry(&self, w: &mut Vec<u8>)
        ensures
            final(w)@ == old(w)@ + opus_entry(self@),
    {
        let dops: Vec<u8> = match &self.audio_config {
            Some(c) => build_dops(c.as_slice()),
            None => Vec::new(),
        };
        let channel_count: u8 = match &self.audio_config {
            Some(_) => if dops.len() > 1 && dops[1] >= 1 {
                dops[1]
            } else {
                2
            },
            None => 2,
        };
        let mut data: Vec<u8> = Vec::new();
        push_audio_entry_fields(&mut data, channel_count as u16, 48000);
        match &self.audio_config {
            Some(_) => write_box(&mut data, &[0x64, 0x4f, 0x70, 0x73], dops.as_slice()),
            None => {
                let d = vec![
                    0x00u8,
                    channel_count,
                    0x00,
                    0x00,
                    0x00,
                    0x00,
                    0xBB,
                    0x80,
                    0x00,
                    0x00,
                    0x00,
                ];
                write_box(&mut data, &[0x64, 0x4f, 0x70, 0x73], d.as_slice());
            },
        }
        write_box(w, &[0x4f, 0x70, 0x75, 0x73], data.as_slice());
    }

    fn write_flac_sample_entry(&self, w: &mut Vec<u8>)
        ensures
            final(w)@ == old(w)@ + flac_entry(self@),
    {
        let (sample_rate, channel_count): (u32, u16) = match &self.audio_config {
            Some(c) => match parse_flac_streaminfo(c.as_slice()) {
                Some(p) => p,
                None => (44100, 1),
            },
            None => (44100, 1),
        };
        let mut data: Vec<u8> = Vec::new();
        push_audio_entry_fields(&mut data, channel_count, sample_rate);
        let dfla: Vec<u8> = match &self.audio_config {
            Some(c) => build_dfla(c.as_slice()),
            None => Vec::new(),
        };
        write_fullbox(&mut data, &[0x64, 0x66, 0x4c, 0x61], 0, 0, dfla.as_slice());
        write_box(w, &[0x66, 0x4c, 0x61, 0x43], data.as_slice());
    }

    fn write_mvex(&self, w: &mut Vec<u8>)
        ensures
            final(w)@ == old(w)@ + mvex_box(self@),
    {
        let mut data: Vec<u8> = Vec::new();
        if self.video_codec.is_some() {
            write_trex(&mut data, 1);
        }
        if self.audio_codec.is_some() {
            write_trex(&mut data, 2);
        }
        assert(data@ =~= (if self@.video_codec is Some {
            trex_box(1)
        } else {
            Seq::empty()
        }) + (if self@.audio_codec is Some {
            trex_box(2)
        } else {
            Seq::empty()
        }));
        write_box(w, &[0x6d, 0x76, 0x65, 0x78], data.as_slice());
    }
}

} // verus!
