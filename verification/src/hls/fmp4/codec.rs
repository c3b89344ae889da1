//! Codec configuration records (esds, dOps, dfLa), FLAC STREAMINFO fields
//! and RFC 6381 codec strings.
use super::av1::{
    av1_config_is_ok,
    av1_config_ok, av1_obus_can_rewrite, av1_obus_rewritable, find_seq_header, locate_seq_header, parse_av1_sequence_header,
    spec_av1c_box_from_config, spec_ensure_av1_obu_size_fields, spec_parse_av1_sequence_header,
    SeqHeaderSearch,
};
use super::{AudioCodec, ColorConfig, Fmp4Muxer, MuxerView, VideoCodec};
use crate::text::{
    push_char, push_decimal, push_decimal2, push_hex2, push_radix, push_str, spec_decimal,
    spec_decimal2, spec_hex2, spec_radix,
};
use crate::util::{be32, be_u32_at, be_u64_at, push_bytes, push_u32_be};
use vstd::prelude::*;

pub use super::av1::{av1c_box_from_config, ensure_av1_obu_size_fields};

verus! {

// ── esds ─────────────────────────────────────────────────────────

/// A descriptor length in the four-byte expanded form (7 bits per byte,
/// continuation bit on all but the last).
pub open spec fn exp_len4(v: u64) -> Seq<u8> {
    seq![
        (((v >> 21u64) & 0x7Fu64) | 0x80u64) as u8,
        (((v >> 14u64) & 0x7Fu64) | 0x80u64) as u8,
        (((v >> 7u64) & 0x7Fu64) | 0x80u64) as u8,
        (v & 0x7Fu64) as u8,
    ]
}

/// The esds content for an MPEG-4 AAC AudioSpecificConfig: ES, decoder
/// config, decoder specific info and SL config descriptors.
pub open spec fn spec_build_esds(asc: Seq<u8>) -> Seq<u8> {
    let n = asc.len() as u64;
    seq![0x03u8] + exp_len4((n + 32) as u64) + seq![0x00u8, 0x01u8, 0x00u8] + seq![0x04u8]
        + exp_len4((n + 18) as u64) + seq![0x40u8, 0x15u8, 0u8, 0u8, 0u8] + be32(128000) + be32(
        128000,
    ) + seq![0x05u8] + exp_len4(n) + asc + seq![0x06u8] + exp_len4(1) + seq![0x02u8]
}

fn push_exp_len4(w: &mut Vec<u8>, v: u64)
    ensures
        final(w)@ == old(w)@ + exp_len4(v),
{
    w.push((((v >> 21) & 0x7F) | 0x80) as u8);
    w.push((((v >> 14) & 0x7F) | 0x80) as u8);
    w.push((((v >> 7) & 0x7F) | 0x80) as u8);
    w.push((v & 0x7F) as u8);
    assert(w@ =~= old(w)@ + exp_len4(v));
}

/// Builds the esds box content around an AudioSpecificConfig.
pub fn build_esds(audio_specific_config: &[u8]) -> (r: Vec<u8>)
    requires
        audio_specific_config@.len() + 32 <= usize::MAX,
    ensures
        r@ == spec_build_esds(audio_specific_config@),
{
    let n = audio_specific_config.len() as u64;
    let mut esds: Vec<u8> = Vec::new();
    esds.push(0x03);
    push_exp_len4(&mut esds, n + 32);
    esds.push(0x00);
    esds.push(0x01);
    esds.push(0x00);
    esds.push(0x04);
    push_exp_len4(&mut esds, n + 18);
    esds.push(0x40);
    esds.push(0x15);
    esds.push(0);
    esds.push(0);
    esds.push(0);
    push_u32_be(&mut esds, 128000);
    push_u32_be(&mut esds, 128000);
    esds.push(0x05);
    push_exp_len4(&mut esds, n);
    push_bytes(&mut esds, audio_specific_config);
    esds.push(0x06);
    push_exp_len4(&mut esds, 1);
    esds.push(0x02);
    assert(esds@ =~= spec_build_esds(audio_specific_config@));
    esds
}

// ── dOps ─────────────────────────────────────────────────────────

pub open spec fn opus_head_magic() -> Seq<u8> {
    seq![0x4Fu8, 0x70u8, 0x75u8, 0x73u8, 0x48u8, 0x65u8, 0x61u8, 0x64u8]
}

/// The OpusHead fields after an optional "OpusHead" signature.
pub open spec fn opus_head_body(c: Seq<u8>) -> Seq<u8> {
    if c.len() > 8 && c.subrange(0, 8) == opus_head_magic() {
        c.subrange(8, c.len() as int)
    } else {
        c
    }
}

/// The dOps record for an OpusHead: version 0, the fields turned from
/// little- to big-endian, a channel count of 0 replaced by 2, and the
/// channel mapping kept for mapping families other than 0. Too short a
/// header gives a default stereo 48 kHz record.
pub open spec fn spec_build_dops(opus_head: Seq<u8>) -> Seq<u8> {
    let h = opus_head_body(opus_head);
    if h.len() < 11 {
        seq![0x00u8, 0x02u8, 0x00u8, 0x00u8, 0x00u8, 0x00u8, 0xBBu8, 0x80u8, 0x00u8, 0x00u8, 0x00u8]
    } else {
        let cc = if h[1] >= 1 {
            h[1]
        } else {
            2u8
        };
        seq![0x00u8, cc, h[3], h[2], h[7], h[6], h[5], h[4], h[9], h[8], h[10]] + (if h[10] != 0
            && h.len() > 11 {
            h.subrange(11, h.len() as int)
        } else {
            Seq::empty()
        })
    }
}

pub(crate) fn opus_head_start(c: &[u8]) -> (k: usize)
    ensures
        opus_head_body(c@) == c@.subrange(k as int, c@.len() as int),
        k <= c@.len(),
{
    if c.len() > 8 && c[0] == 0x4F && c[1] == 0x70 && c[2] == 0x75 && c[3] == 0x73 && c[4] == 0x48
        && c[5] == 0x65 && c[6] == 0x61 && c[7] == 0x64 {
        assert(c@.subrange(0, 8) =~= opus_head_magic());
        8
    } else {
        assert(c@.subrange(0, c@.len() as int) =~= c@);
        if c.len() > 8 {
            assert(c@.subrange(0, 8) != opus_head_magic()) by {
                if c@.subrange(0, 8) == opus_head_magic() {
                    assert(c@.subrange(0, 8)[0] == c@[0]);
                    assert(c@.subrange(0, 8)[1] == c@[1]);
                    assert(c@.subrange(0, 8)[2] == c@[2]);
                    assert(c@.subrange(0, 8)[3] == c@[3]);
                    assert(c@.subrange(0, 8)[4] == c@[4]);
                    assert(c@.subrange(0, 8)[5] == c@[5]);
                    assert(c@.subrange(0, 8)[6] == c@[6]);
                    assert(c@.subrange(0, 8)[7] == c@[7]);
                }
            }
        }
        0
    }
}

/// Converts an OpusHead (RFC 7845) to dOps box content (ISO-BMFF).
pub fn build_dops(opus_head: &[u8]) -> (r: Vec<u8>)
    ensures
        r@ == spec_build_dops(opus_head@),
{
    let k = opus_head_start(opus_head);
    let head = vstd::slice::slice_subrange(opus_head, k, opus_head.len());
    if head.len() < 11 {
        let r = vec![0x00u8, 0x02, 0x00, 0x00, 0x00, 0x00, 0xBB, 0x80, 0x00, 0x00, 0x00];
        assert(r@ =~= spec_build_dops(opus_head@));
        return r;
    }
    let channel_count = if head[1] >= 1 {
        head[1]
    } else {
        2
    };
    let family = head[10];
    let mut dops = vec![
        0x00u8,
        channel_count,
        head[3],
        head[2],
        head[7],
        head[6],
        head[5],
        head[4],
        head[9],
        head[8],
        family,
    ];
    if family != 0 && head.len() > 11 {
        push_bytes(&mut dops, vstd::slice::slice_subrange(head, 11, head.len()));
    }
    assert(dops@ =~= spec_build_dops(opus_head@));
    dops
}

// ── FLAC ─────────────────────────────────────────────────────────

pub open spec fn flac_magic() -> Seq<u8> {
    seq![0x66u8, 0x4Cu8, 0x61u8, 0x43u8]
}

/// The 34-byte STREAMINFO block of a FLAC config: after a "fLaC" signature
/// when the config has one, else the first 34 bytes.
pub open spec fn spec_flac_streaminfo(c: Seq<u8>) -> Option<Seq<u8>> {
    if c.len() >= 38 && c.subrange(0, 4) == flac_magic() {
        Some(c.subrange(4, 38))
    } else if c.len() >= 34 {
        Some(c.subrange(0, 34))
    } else {
        None
    }
}

fn strip_flac_header(config: &[u8]) -> (r: Option<&[u8]>)
    ensures
        r matches Some(s) ==> spec_flac_streaminfo(config@) == Some(s@),
        r is None ==> spec_flac_streaminfo(config@) is None,
{
    let tagged = config.len() >= 4 && config[0] == 0x66 && config[1] == 0x4C && config[2] == 0x61
        && config[3] == 0x43;
    proof {
        if config@.len() >= 4 {
            if tagged {
                assert(config@.subrange(0, 4) =~= flac_magic());
            } else {
                assert(config@.subrange(0, 4) != flac_magic()) by {
                    if config@.subrange(0, 4) == flac_magic() {
                        assert(config@.subrange(0, 4)[0] == config@[0]);
                        assert(config@.subrange(0, 4)[1] == config@[1]);
                        assert(config@.subrange(0, 4)[2] == config@[2]);
                        assert(config@.subrange(0, 4)[3] == config@[3]);
                    }
                }
            }
        }
    }
    if config.len() >= 38 && tagged {
        Some(vstd::slice::slice_subrange(config, 4, 38))
    } else if config.len() >= 34 {
        Some(vstd::slice::slice_subrange(config, 0, 34))
    } else {
        None
    }
}

/// (sample rate, channel count) of a STREAMINFO block: bytes 10..18 hold
/// sample_rate (20 bits) and channels - 1 (3 bits) at the top.
pub open spec fn flac_fields(si: Seq<u8>) -> (u32, u16) {
    let val = be_u64_at(si, 10);
    (((val >> 44u64) & 0xFFFFFu64) as u32, (((val >> 41u64) & 0x7u64) + 1) as u16)
}

pub open spec fn spec_parse_flac_streaminfo(config: Seq<u8>) -> Option<(u32, u16)> {
    match spec_flac_streaminfo(config) {
        Some(si) => Some(flac_fields(si)),
        None => None,
    }
}

/// Reads sample rate and channel count from a FLAC config (38 bytes with a
/// "fLaC" prefix, or a bare 34-byte STREAMINFO).
pub fn parse_flac_streaminfo(config: &[u8]) -> (r: Option<(u32, u16)>)
    ensures
        r == spec_parse_flac_streaminfo(config@),
{
    let si = match strip_flac_header(config) {
        Some(s) => s,
        None => return None,
    };
    let val = crate::util::read_u64(vstd::slice::slice_subrange(si, 10, 18));
    proof {
        let sub = si@.subrange(10, 18);
        assert(sub[0] == si@[10] && sub[1] == si@[11] && sub[2] == si@[12] && sub[3] == si@[13]);
        assert(sub[4] == si@[14] && sub[5] == si@[15] && sub[6] == si@[16] && sub[7] == si@[17]);
    }
    let sample_rate = ((val >> 44) & 0xFFFFF) as u32;
    assert((val >> 41u64) & 0x7u64 <= 7) by (bit_vector);
    let channel_count = (((val >> 41) & 0x7) + 1) as u16;
    Some((sample_rate, channel_count))
}

/// The dfLa content: one STREAMINFO metadata block marked last, or nothing
/// for too short a config.
pub open spec fn spec_build_dfla(config: Seq<u8>) -> Seq<u8> {
    match spec_flac_streaminfo(config) {
        Some(si) => seq![0x80u8, 0x00u8, 0x00u8, 0x22u8] + si,
        None => Seq::empty(),
    }
}

/// Builds dfLa box content from a FLAC config.
pub fn build_dfla(config: &[u8]) -> (r: Vec<u8>)
    ensures
        r@ == spec_build_dfla(config@),
{
    let mut dfla: Vec<u8> = Vec::new();
    let si = match strip_flac_header(config) {
        Some(s) => s,
        None => return dfla,
    };
    dfla.push(0x80);
    dfla.push(0x00);
    dfla.push(0x00);
    dfla.push(0x22);
    push_bytes(&mut dfla, si);
    assert(dfla@ =~= spec_build_dfla(config@));
    dfla
}

// ── RFC 6381 codec strings ───────────────────────────────────────

/// Whether `r` has the bits of `x` in reverse order.
pub open spec fn is_bit_reverse(x: u32, r: u32) -> bool {
    forall|i: u32| i < 32 ==> #[trigger] ((r >> i) & 1u32) == ((x >> ((31u32 - i) as u32)) & 1u32)
}

/// `x` with its 32 bits in reverse order: bit `i` moves to bit `31 - i`.
pub open spec fn bit_reverse32(x: u32) -> u32 {
    ((((x >> 0u32) & 1u32) << 31u32) | (((x >> 1u32) & 1u32) << 30u32) |
        (((x >> 2u32) & 1u32) << 29u32) | (((x >> 3u32) & 1u32) << 28u32) |
        (((x >> 4u32) & 1u32) << 27u32) | (((x >> 5u32) & 1u32) << 26u32) |
        (((x >> 6u32) & 1u32) << 25u32) | (((x >> 7u32) & 1u32) << 24u32) |
        (((x >> 8u32) & 1u32) << 23u32) | (((x >> 9u32) & 1u32) << 22u32) |
        (((x >> 10u32) & 1u32) << 21u32) | (((x >> 11u32) & 1u32) << 20u32) |
        (((x >> 12u32) & 1u32) << 19u32) | (((x >> 13u32) & 1u32) << 18u32) |
        (((x >> 14u32) & 1u32) << 17u32) | (((x >> 15u32) & 1u32) << 16u32) |
        (((x >> 16u32) & 1u32) << 15u32) | (((x >> 17u32) & 1u32) << 14u32) |
        (((x >> 18u32) & 1u32) << 13u32) | (((x >> 19u32) & 1u32) << 12u32) |
        (((x >> 20u32) & 1u32) << 11u32) | (((x >> 21u32) & 1u32) << 10u32) |
        (((x >> 22u32) & 1u32) << 9u32) | (((x >> 23u32) & 1u32) << 8u32) |
        (((x >> 24u32) & 1u32) << 7u32) | (((x >> 25u32) & 1u32) << 6u32) |
        (((x >> 26u32) & 1u32) << 5u32) | (((x >> 27u32) & 1u32) << 4u32) |
        (((x >> 28u32) & 1u32) << 3u32) | (((x >> 29u32) & 1u32) << 2u32) |
        (((x >> 30u32) & 1u32) << 1u32) | (((x >> 31u32) & 1u32) << 0u32)) as u32
}

/// Reversing the bit order twice gives the value back.
pub proof fn lemma_bit_reverse_involution(x: u32)
    ensures
        bit_reverse32(bit_reverse32(x)) == x,
{
    let r = bit_reverse32(x);
    assert(bit_reverse32(r) == x) by (bit_vector)
        requires
            r == bit_reverse32(x),
    ;
}

proof fn lemma_swap_network(x: u32, r: u32)
    by (bit_vector)
    requires
        ({
            let v1 = ((x & 0x55555555u32) << 1u32) | ((x >> 1u32) & 0x55555555u32);
            let v2 = ((v1 & 0x33333333u32) << 2u32) | ((v1 >> 2u32) & 0x33333333u32);
            let v3 = ((v2 & 0x0F0F0F0Fu32) << 4u32) | ((v2 >> 4u32) & 0x0F0F0F0Fu32);
            let v4 = ((v3 & 0x00FF00FFu32) << 8u32) | ((v3 >> 8u32) & 0x00FF00FFu32);
            r == ((v4 >> 16u32) | (v4 << 16u32))
        }),
    ensures
        forall|i: u32| i < 32 ==> #[trigger] ((r >> i) & 1u32) == ((x >> ((31u32 - i) as u32)) & 1u32),
{
}

proof fn lemma_swap_network_value(x: u32, r: u32)
    by (bit_vector)
    requires
        ({
            let v1 = ((x & 0x55555555u32) << 1u32) | ((x >> 1u32) & 0x55555555u32);
            let v2 = ((v1 & 0x33333333u32) << 2u32) | ((v1 >> 2u32) & 0x33333333u32);
            let v3 = ((v2 & 0x0F0F0F0Fu32) << 4u32) | ((v2 >> 4u32) & 0x0F0F0F0Fu32);
            let v4 = ((v3 & 0x00FF00FFu32) << 8u32) | ((v3 >> 8u32) & 0x00FF00FFu32);
            r == ((v4 >> 16u32) | (v4 << 16u32))
        }),
    ensures
        r == bit_reverse32(x),
{
}

/// The trailing-zero-trimmed length of `s`.
pub open spec fn trimmed_len(s: Seq<u8>) -> nat
    decreases s.len(),
{
    if s.len() == 0 {
        0
    } else if s.last() == 0 {
        trimmed_len(s.drop_last())
    } else {
        s.len()
    }
}

/// The bytes of `s` as lower-case hex pairs joined by dots.
pub open spec fn dotted_hex(s: Seq<u8>) -> Seq<char>
    decreases s.len(),
{
    if s.len() == 0 {
        Seq::empty()
    } else if s.len() == 1 {
        spec_hex2(s[0], false)
    } else {
        dotted_hex(s.drop_last()) + seq!['.'] + spec_hex2(s.last(), false)
    }
}

/// "avc1." and profile, constraint flags and level as upper-case hex.
pub open spec fn avc_codec_string(c: Seq<u8>) -> Seq<char> {
    "avc1."@ + spec_hex2(c[1], true) + spec_hex2(c[2], true) + spec_hex2(c[3], true)
}

/// "hvc1.", profile, compatibility flags (bit-reversed, hex), tier and
/// level, then the constraint bytes without trailing zeros.
pub open spec fn hvc_codec_string(c: Seq<u8>) -> Seq<char> {
    let profile_idc = c[1] & 0x1Fu8;
    let pc = bit_reverse32(be_u32_at(c, 2));
    let constraints = c.subrange(6, 12);
    let cstr = dotted_hex(constraints.subrange(0, trimmed_len(constraints) as int));
    let tier = if (c[1] >> 5u8) & 0x01u8 == 1 {
        'H'
    } else {
        'L'
    };
    let pc_str = if pc != 0 {
        spec_radix(pc as nat, 16, false)
    } else {
        "0"@
    };
    let base = "hvc1."@ + spec_decimal(profile_idc as nat) + seq!['.'] + pc_str + seq!['.', tier]
        + spec_decimal(c[12] as nat);
    if cstr.len() == 0 {
        base
    } else {
        base + seq!['.'] + cstr
    }
}

/// Bit depth from av1C: 12 or 10 for profile 2 high bit depth, 10 or 8
/// by high_bitdepth for profiles up to 2, else 8.
pub open spec fn av1_bit_depth(profile: u8, high_bitdepth: u8, twelve_bit: u8) -> u8 {
    if profile == 2 && high_bitdepth == 1 {
        if twelve_bit == 1 {
            12
        } else {
            10
        }
    } else if profile <= 2 {
        if high_bitdepth == 1 {
            10
        } else {
            8
        }
    } else {
        8
    }
}

/// The av1C record the AV1 codec string is read from.
pub open spec fn av1c_of_config(c: Seq<u8>) -> Seq<u8> {
    if c.len() > 0 && c[0] == 0x81 {
        c
    } else {
        spec_av1c_box_from_config(c)
    }
}

/// "av01.", profile, two-digit level, tier (M/H) and bit depth; None for an
/// av1C shorter than four bytes.
pub open spec fn av1_codec_string(c: Seq<u8>) -> Option<Seq<char>> {
    let a = av1c_of_config(c);
    if a.len() < 4 {
        None
    } else {
        let profile = (a[1] >> 5u8) & 0x07u8;
        let level = a[1] & 0x1Fu8;
        let tier = if (a[2] >> 7u8) & 0x01u8 == 1 {
            'H'
        } else {
            'M'
        };
        let depth = av1_bit_depth(profile, (a[2] >> 6u8) & 0x01u8, (a[2] >> 5u8) & 0x01u8);
        Some(
            "av01."@ + spec_decimal(profile as nat) + seq!['.'] + spec_decimal2(level as nat)
                + seq![tier] + spec_decimal(depth as nat),
        )
    }
}

/// The AV1 codec string of an av1C record ends with its tier letter and
/// bit depth (AV1 BitDepth): 12 for profile 2 with high_bitdepth and
/// twelve_bit, 10 for high_bitdepth otherwise (profiles 0 to 2), and 8
/// without high_bitdepth.
pub proof fn lemma_av1_string_bit_depth(c: Seq<u8>)
    requires
        c.len() >= 4,
        c[0] == 0x81,
        (c[1] >> 5u8) & 0x07u8 <= 2,
    ensures
        av1_codec_string(c) is Some,
        ({
            let s = av1_codec_string(c)->0;
            let n = s.len();
            let profile = (c[1] >> 5u8) & 0x07u8;
            let hb = (c[2] >> 6u8) & 0x01u8 == 1;
            let tw = (c[2] >> 5u8) & 0x01u8 == 1;
            let tier = if (c[2] >> 7u8) & 0x01u8 == 1 {
                'H'
            } else {
                'M'
            };
            &&& hb && profile == 2 && tw ==> n >= 3 && s[n - 3] == tier && s[n - 2] == '1' && s[n
                - 1] == '2'
            &&& hb && !(profile == 2 && tw) ==> n >= 3 && s[n - 3] == tier && s[n - 2] == '1'
                && s[n - 1] == '0'
            &&& !hb ==> n >= 2 && s[n - 2] == tier && s[n - 1] == '8'
        }),
{
    reveal_with_fuel(spec_radix, 3);
    assert(spec_decimal(12) =~= seq!['1', '2']);
    assert(spec_decimal(10) =~= seq!['1', '0']);
    assert(spec_decimal(8) =~= seq!['8']);
    assert(av1c_of_config(c) == c);
}

/// The video codec string, when the codec and enough config are known.
pub open spec fn spec_video_codec_string(m: MuxerView) -> Option<Seq<char>> {
    match (m.video_codec, m.video_config) {
        (Some(VideoCodec::H264), Some(c)) => if c.len() < 4 {
            None
        } else {
            Some(avc_codec_string(c))
        },
        (Some(VideoCodec::H265), Some(c)) => if c.len() < 13 {
            None
        } else {
            Some(hvc_codec_string(c))
        },
        (Some(VideoCodec::AV1), Some(c)) => av1_codec_string(c),
        _ => None,
    }
}

pub open spec fn spec_audio_codec_string(m: MuxerView) -> Option<Seq<char>> {
    match m.audio_codec {
        Some(AudioCodec::Aac) => Some("mp4a.40.2"@),
        Some(AudioCodec::Opus) => Some("opus"@),
        Some(AudioCodec::Flac) => Some("fLaC"@),
        None => None,
    }
}

/// The CODECS attribute: video and audio codec strings joined by a comma.
pub open spec fn spec_codec_string(m: MuxerView) -> Option<Seq<char>> {
    match (spec_video_codec_string(m), spec_audio_codec_string(m)) {
        (Some(v), Some(a)) => Some(v + seq![','] + a),
        _ => None,
    }
}

/// Whether the codec string can be computed: an AV1 config must be
/// walkable.
pub open spec fn codec_string_in_range(m: MuxerView) -> bool {
    (m.video_codec == Some(VideoCodec::AV1) && m.video_config is Some) ==> av1_config_ok(
        m.video_config->0,
    )
}

pub open spec fn string_opt(o: Option<String>) -> Option<Seq<char>> {
    match o {
        Some(s) => Some(s@),
        None => None,
    }
}

impl Fmp4Muxer {
    /// The 32 bits of `x` in reverse order.
    pub fn reverse_bits_32(x: u32) -> (r: u32)
        ensures
            is_bit_reverse(x, r),
            r == bit_reverse32(x),
    {
        let mut v = x;
        v = ((v & 0x55555555) << 1) | ((v >> 1) & 0x55555555);
        v = ((v & 0x33333333) << 2) | ((v >> 2) & 0x33333333);
        v = ((v & 0x0F0F0F0F) << 4) | ((v >> 4) & 0x0F0F0F0F);
        v = ((v & 0x00FF00FF) << 8) | ((v >> 8) & 0x00FF00FF);
        let r = (v >> 16) | (v << 16);
        proof {
            lemma_swap_network(x, r);
            lemma_swap_network_value(x, r);
        }
        r
    }

    /// Whether `codec_string` can run: an AV1 configuration, when set,
    /// holds a well-formed sequence header walk.
    pub fn codec_string_is_in_range(&self) -> (r: bool)
        ensures
            r == codec_string_in_range(self@),
    {
        match (&self.video_codec, &self.video_config) {
            (Some(VideoCodec::AV1), Some(c)) => av1_config_is_ok(c.as_slice()),
            _ => true,
        }
    }

    /// The CODECS attribute value, e.g. "avc1.42C01E,mp4a.40.2"; None unless
    /// both the video and the audio codec string are known.
    pub fn codec_string(&self) -> (r: Option<String>)
        requires
            codec_string_in_range(self@),
        ensures
            string_opt(r) == spec_codec_string(self@),
    {
        let v = match self.video_codec_string() {
            Some(v) => v,
            None => return None,
        };
        let a = match self.audio_codec_string() {
            Some(a) => a,
            None => return None,
        };
        let mut s = v;
        push_char(&mut s, ',');
        push_str(&mut s, a.as_str());
        Some(s)
    }

    /// The RFC 6381 codec string of the video track.
    pub fn video_codec_string(&self) -> (r: Option<String>)
        requires
            codec_string_in_range(self@),
        ensures
            string_opt(r) == spec_video_codec_string(self@),
    {
        let codec = match self.video_codec {
            Some(c) => c,
            None => return None,
        };
        let config = match &self.video_config {
            Some(c) => c.as_slice(),
            None => return None,
        };
        match codec {
            VideoCodec::H264 => {
                if config.len() < 4 {
                    return None;
                }
                let mut s = String::new();
                push_str(&mut s, "avc1.");
                push_hex2(&mut s, config[1], true);
                push_hex2(&mut s, config[2], true);
                push_hex2(&mut s, config[3], true);
                Some(s)
            },
            VideoCodec::H265 => {
                if config.len() < 13 {
                    return None;
                }
                Some(hvc_string(config))
            },
            VideoCodec::AV1 => av1_string(config),
        }
    }

    fn audio_codec_string(&self) -> (r: Option<String>)
        ensures
            string_opt(r) == spec_audio_codec_string(self@),
    {
        match self.audio_codec {
            Some(AudioCodec::Aac) => Some("mp4a.40.2".to_string()),
            Some(AudioCodec::Opus) => Some("opus".to_string()),
            Some(AudioCodec::Flac) => Some("fLaC".to_string()),
            None => None,
        }
    }
}

proof fn lemma_trimmed_len_step(s: Seq<u8>, k: int)
    requires
        0 < k <= s.len(),
        s[k - 1] == 0,
    ensures
        trimmed_len(s.subrange(0, k)) == trimmed_len(s.subrange(0, k - 1)),
{
    assert(s.subrange(0, k).drop_last() =~= s.subrange(0, k - 1));
}

proof fn lemma_dotted_step(s: Seq<u8>, i: int)
    requires
        0 < i < s.len(),
    ensures
        dotted_hex(s.subrange(0, i + 1)) == dotted_hex(s.subrange(0, i)) + seq!['.'] + spec_hex2(
            s[i],
            false,
        ),
{
    assert(s.subrange(0, i + 1).drop_last() =~= s.subrange(0, i));
}

fn hvc_string(config: &[u8]) -> (r: String)
    requires
        config@.len() >= 13,
    ensures
        r@ == hvc_codec_string(config@),
{
    let c = config;
    let tier_flag = (c[1] >> 5) & 0x01;
    let profile_idc = c[1] & 0x1F;
    let compat = crate::util::read_u32(vstd::slice::slice_subrange(c, 2, 6));
    proof {
        let sub = c@.subrange(2, 6);
        assert(sub[0] == c@[2] && sub[1] == c@[3] && sub[2] == c@[4] && sub[3] == c@[5]);
    }
    let profile_compatibility = Fmp4Muxer::reverse_bits_32(compat);
    let constraints = vstd::slice::slice_subrange(c, 6, 12);
    let level_idc = c[12];
    let tier = if tier_flag == 1 {
        'H'
    } else {
        'L'
    };
    let mut s = String::new();
    push_str(&mut s, "hvc1.");
    push_decimal(&mut s, profile_idc as u64);
    push_char(&mut s, '.');
    if profile_compatibility != 0 {
        push_radix(&mut s, profile_compatibility as u64, 16, false);
    } else {
        push_str(&mut s, "0");
    }
    push_char(&mut s, '.');
    push_char(&mut s, tier);
    push_decimal(&mut s, level_idc as u64);
    let ghost base = s@;
    assert(constraints@.subrange(0, 6) =~= constraints@);
    let mut k: usize = 6;
    while k > 0 && constraints[k - 1] == 0
        invariant
            k <= 6,
            constraints@.len() == 6,
            trimmed_len(constraints@) == trimmed_len(constraints@.subrange(0, k as int)),
        decreases k,
    {
        proof {
            lemma_trimmed_len_step(constraints@, k as int);
        }
        k -= 1;
    }
    proof {
        assert(constraints@.subrange(0, 6) =~= constraints@);
        if k > 0 {
            assert(constraints@.subrange(0, k as int).last() != 0);
        }
        assert(trimmed_len(constraints@) == k);
    }
    if k > 0 {
        push_char(&mut s, '.');
    }
    let ghost dot = s@;
    let mut i: usize = 0;
    while i < k
        invariant
            k <= 6,
            constraints@.len() == 6,
            i <= k,
            s@ == dot + dotted_hex(constraints@.subrange(0, i as int)),
        decreases k - i,
    {
        if i > 0 {
            proof {
                lemma_dotted_step(constraints@, i as int);
            }
            push_char(&mut s, '.');
        } else {
            assert(constraints@.subrange(0, 1).len() == 1);
        }
        push_hex2(&mut s, constraints[i], false);
        i += 1;
        assert(s@ =~= dot + dotted_hex(constraints@.subrange(0, i as int)));
    }
    assert(s@ =~= hvc_codec_string(config@));
    s
}

fn av1_string(config: &[u8]) -> (r: Option<String>)
    requires
        av1_config_ok(config@),
    ensures
        string_opt(r) == av1_codec_string(config@),
{
    let av1c: Vec<u8> = if config.len() > 0 && config[0] == 0x81 {
        vstd::slice::slice_to_vec(config)
    } else {
        av1c_box_from_config(config)
    };
    if av1c.len() < 4 {
        return None;
    }
    let profile = (av1c[1] >> 5) & 0x07;
    let level_idx = av1c[1] & 0x1F;
    let seq_tier_0 = (av1c[2] >> 7) & 0x01;
    let high_bitdepth = (av1c[2] >> 6) & 0x01;
    let twelve_bit = (av1c[2] >> 5) & 0x01;
    let bit_depth: u8 = if profile == 2 && high_bitdepth == 1 {
        if twelve_bit == 1 {
            12
        } else {
            10
        }
    } else if profile <= 2 {
        if high_bitdepth == 1 {
            10
        } else {
            8
        }
    } else {
        8
    };
    let tier = if seq_tier_0 == 1 {
        'H'
    } else {
        'M'
    };
    let mut s = String::new();
    push_str(&mut s, "av01.");
    push_decimal(&mut s, profile as u64);
    push_char(&mut s, '.');
    push_decimal2(&mut s, level_idx as u64);
    push_char(&mut s, tier);
    push_decimal(&mut s, bit_depth as u64);
    assert(s@ =~= av1_codec_string(config@)->0);
    Some(s)
}

// ── AV1 colour description ───────────────────────────────────────

/// Whether `av1_color_config_from_config` can run: the OBUs can be
/// normalised and, once normalised, walked without a size overflow.
pub open spec fn av1_color_in_range(config: Seq<u8>) -> bool {
    &&& av1_obus_rewritable(config)
    &&& !(find_seq_header(spec_ensure_av1_obu_size_fields(config), 0) is Overflow)
}

/// The colour description of the sequence header found in a config after
/// its OBU size fields are normalised; None without a sequence header or
/// when primaries, transfer and matrix are all 0.
pub open spec fn spec_av1_color_config(config: Seq<u8>) -> Option<ColorConfig> {
    let n = spec_ensure_av1_obu_size_fields(config);
    match find_seq_header(n, 0) {
        SeqHeaderSearch::Found(s, len) => match spec_parse_av1_sequence_header(
            n.subrange(s, s + len),
        ) {
            Some(h) => if h.color_primaries == 0 && h.transfer_characteristics == 0
                && h.matrix_coefficients == 0 {
                None
            } else {
                Some(
                    ColorConfig {
                        color_primaries: h.color_primaries,
                        transfer_characteristics: h.transfer_characteristics,
                        matrix_coefficients: h.matrix_coefficients,
                        full_range: h.full_range,
                    },
                )
            },
            None => None,
        },
        _ => None,
    }
}

/// Whether `av1_color_config_from_config` can run on `config`.
pub fn av1_color_config_is_in_range(config: &[u8]) -> (r: bool)
    ensures
        r == av1_color_in_range(config@),
{
    if !av1_obus_can_rewrite(config) {
        return false;
    }
    let n = ensure_av1_obu_size_fields(config);
    match locate_seq_header(n.as_slice()) {
        Err(()) => false,
        _ => true,
    }
}

/// Extracts the colour description from an AV1 codec config: the OBUs are
/// given size fields, the sequence header OBU is found and parsed.
pub fn av1_color_config_from_config(config: &[u8]) -> (r: Option<ColorConfig>)
    requires
        av1_color_in_range(config@),
    ensures
        r == spec_av1_color_config(config@),
{
    let n = ensure_av1_obu_size_fields(config);
    let (s, len) = match locate_seq_header(n.as_slice()) {
        Ok(Some(found)) => found,
        _ => return None,
    };
    assert(s + len <= n@.len());
    let h = match parse_av1_sequence_header(vstd::slice::slice_subrange(n.as_slice(), s, s + len)) {
        Some(h) => h,
        None => return None,
    };
    if h.color_primaries == 0 && h.transfer_characteristics == 0 && h.matrix_coefficients == 0 {
        return None;
    }
    Some(
        ColorConfig {
            color_primaries: h.color_primaries,
            transfer_characteristics: h.transfer_characteristics,
            matrix_coefficients: h.matrix_coefficients,
            full_range: h.full_range,
        },
    )
}

} // verus!
