//! Media fragments: a moof with one traf per track that has samples, then
//! an mdat with the sample payloads in track order.
use super::boxes::{full_box, mp4_box, write_box, write_fullbox};
use super::{
    audio_average_in_range, durations_set, frame_ticks, video_gaps_in_range, AudioCodec,
    Fmp4Muxer, MuxerView, Sample,
};
use crate::util::{be32, be64, push_bytes, push_fourcc, push_u32_be, push_u64_be, size32, wrap32};
use vstd::prelude::*;

verus! {

// ── Fragments as bytes ───────────────────────────────────────────

/// The sample payloads one after another.
pub open spec fn payload(s: Seq<Sample>) -> Seq<u8>
    decreases s.len(),
{
    if s.len() == 0 {
        Seq::empty()
    } else {
        payload(s.drop_last()) + s.last().data@
    }
}

/// Whether some sample has a nonzero composition offset.
pub open spec fn has_cto(s: Seq<Sample>) -> bool {
    exists|i: int| 0 <= i < s.len() && #[trigger] s[i].composition_time_offset != 0
}

/// The per-sample trun entries: size, and composition offset when any
/// sample has one.
pub open spec fn trun_entries(s: Seq<Sample>, cto: bool) -> Seq<u8>
    decreases s.len(),
{
    if s.len() == 0 {
        Seq::empty()
    } else {
        trun_entries(s.drop_last(), cto) + be32(s.last().size) + (if cto {
            be32(s.last().composition_time_offset as u32)
        } else {
            Seq::empty()
        })
    }
}

/// trun flags: data offset, first-sample flags (video), sample size, and
/// composition offsets when present.
pub open spec fn trun_flags(is_video: bool, cto: bool) -> u32 {
    let f1: u32 = if is_video {
        0x000001u32 | 0x000004u32
    } else {
        0x000001u32
    };
    let f2: u32 = f1 | 0x000200u32;
    if cto {
        f2 | 0x000800u32
    } else {
        f2
    }
}

/// trun: version 1 (signed offsets) when composition offsets are present.
pub open spec fn trun_box(track_id: u32, s: Seq<Sample>, data_offset: u32) -> Seq<u8> {
    let is_video = track_id == 1;
    let cto = has_cto(s);
    full_box(
        seq![0x74u8, 0x72u8, 0x75u8, 0x6eu8],
        if cto {
            1
        } else {
            0
        },
        trun_flags(is_video, cto),
        be32(s.len() as u32) + be32(data_offset) + (if is_video {
            be32(
                if s.len() > 0 {
                    s[0].flags
                } else {
                    0x02000000
                },
            )
        } else {
            Seq::empty()
        }) + trun_entries(s, cto),
    )
}

/// tfhd with default-base-is-moof and default duration, size and flags.
pub open spec fn tfhd_box(track_id: u32, duration: u32, size: u32, flags: u32) -> Seq<u8> {
    full_box(seq![0x74u8, 0x66u8, 0x68u8, 0x64u8], 0, 0x020038, be32(track_id) + be32(duration) + be32(size) + be32(flags))
}

/// tfdt, version 1 (64-bit base decode time).
pub open spec fn tfdt_box(base: u64) -> Seq<u8> {
    full_box(seq![0x74u8, 0x66u8, 0x64u8, 0x74u8], 1, 0, be64(base))
}

/// sbgp mapping all `count` samples to the Opus roll group.
pub open spec fn sbgp_box(count: u32) -> Seq<u8> {
    full_box(seq![0x73u8, 0x62u8, 0x67u8, 0x70u8], 0, 0, seq![0x72u8, 0x6fu8, 0x6cu8, 0x6cu8] + be32(1) + be32(count) + be32(1))
}

pub open spec fn mfhd_box(sequence_number: u32) -> Seq<u8> {
    full_box(seq![0x6du8, 0x66u8, 0x68u8, 0x64u8], 0, 0, be32(sequence_number))
}

/// Whether `track_id` is an Opus audio track (which carries sbgp).
pub open spec fn is_opus_track(m: MuxerView, track_id: u32) -> bool {
    track_id != 1 && m.audio_codec == Some(AudioCodec::Opus)
}

/// The base decode time in the track timescale: video milliseconds scaled
/// by the frame rate and rounded; audio of a known codec is already in its
/// timescale; other audio milliseconds are scaled by the sample rate.
pub open spec fn scaled_base_dts(m: MuxerView, track_id: u32, base: u64) -> u64 {
    if track_id == 1 {
        ((base * m.video_fps_num + 500) / 1000) as u64
    } else if m.audio_codec is Some {
        base
    } else {
        ((base * m.audio_sample_rate + 500) / 1000) as u64
    }
}

pub open spec fn traf_box(
    m: MuxerView,
    track_id: u32,
    base: u64,
    s: Seq<Sample>,
    data_offset: u32,
) -> Seq<u8> {
    let is_video = track_id == 1;
    mp4_box(
        seq![0x74u8, 0x72u8, 0x61u8, 0x66u8],
        tfhd_box(
            track_id,
            if is_video {
                m.video_fps_den as u32
            } else {
                frame_ticks(m)
            },
            if s.len() > 0 {
                s[0].size
            } else {
                0
            },
            if is_video {
                0x01010000
            } else {
                0x02000000
            },
        ) + tfdt_box(scaled_base_dts(m, track_id, base)) + (if is_opus_track(m, track_id) {
            sbgp_box(s.len() as u32)
        } else {
            Seq::empty()
        }) + trun_box(track_id, s, data_offset),
    )
}

/// The size of a traf, computed ahead of writing it.
pub open spec fn traf_size(m: MuxerView, track_id: u32, s: Seq<Sample>) -> int {
    let is_video = track_id == 1;
    let trun_header = 20 + (if is_video {
        4int
    } else {
        0int
    });
    let entry = 4 + (if has_cto(s) {
        4int
    } else {
        0int
    });
    8 + 28 + 20 + (if is_opus_track(m, track_id) {
        28int
    } else {
        0int
    }) + trun_header + s.len() * entry
}

/// Layout of a fragment holding video samples `v` and audio samples `a`:
/// (trun data offset of the video track, of the audio track, moof bytes).
pub open spec fn moof_layout(m: MuxerView, seq: u32, v: Seq<Sample>, a: Seq<Sample>) -> (
    int,
    int,
    Seq<u8>,
) {
    let vsize = if v.len() > 0 {
        traf_size(m, 1, v)
    } else {
        0
    };
    let asize = if a.len() > 0 {
        traf_size(m, 2, a)
    } else {
        0
    };
    let v_off = 24 + vsize + asize + 8;
    let a_off = v_off + payload(v).len();
    let moof = mp4_box(
        seq![0x6du8, 0x6fu8, 0x6fu8, 0x66u8],
        mfhd_box(seq) + (if v.len() > 0 {
            traf_box(m, 1, m.video_base_dts, v, v_off as u32)
        } else {
            Seq::empty()
        }) + (if a.len() > 0 {
            traf_box(m, 2, m.audio_base_dts, a, a_off as u32)
        } else {
            Seq::empty()
        }),
    );
    (v_off, a_off, moof)
}

/// A fragment: moof, then mdat with the video payloads followed by the
/// audio payloads.
pub open spec fn fragment_bytes(m: MuxerView, seq: u32, v: Seq<Sample>, a: Seq<Sample>) -> Seq<u8> {
    moof_layout(m, seq, v, a).2 + mp4_box(seq![0x6du8, 0x64u8, 0x61u8, 0x74u8], payload(v) + payload(a))
}

/// The fragment of all queued samples, numbered one past the last.
pub open spec fn spec_combined_fragment(m: MuxerView) -> Seq<u8> {
    fragment_bytes(
        m,
        (m.video_sequence_number + 1) as u32,
        m.video_samples,
        m.audio_samples,
    )
}

/// The fragment of the queued video samples alone.
pub open spec fn spec_video_fragment(m: MuxerView) -> Seq<u8> {
    fragment_bytes(m, (m.video_sequence_number + 1) as u32, m.video_samples, Seq::empty())
}

/// Whether writing a fragment of `v` and `a` keeps its arithmetic in range.
pub open spec fn fragment_in_range(m: MuxerView, v: Seq<Sample>, a: Seq<Sample>) -> bool {
    &&& video_gaps_in_range(m)
    &&& audio_average_in_range(m)
    &&& v.len() > 0 ==> m.video_base_dts * m.video_fps_num + 500 <= u64::MAX
    &&& (a.len() > 0 && m.audio_codec is None) ==> m.audio_base_dts * m.audio_sample_rate + 500
        <= u64::MAX
    &&& 24 + traf_size(m, 1, v) + traf_size(m, 2, a) + 8 + payload(v).len() + payload(a).len()
        <= usize::MAX
}

/// Whether `flush_combined_fragment` can run.
pub open spec fn flush_in_range(m: MuxerView) -> bool {
    &&& m.video_sequence_number < u32::MAX
    &&& fragment_in_range(m, m.video_samples, m.audio_samples)
}

/// Whether `flush_video_fragment` can run.
pub open spec fn video_flush_in_range(m: MuxerView) -> bool {
    &&& m.video_sequence_number < u32::MAX
    &&& fragment_in_range(m, m.video_samples, Seq::empty())
}

// ── Lemmas ───────────────────────────────────────────────────────

pub proof fn lemma_payload_prefix(s: Seq<Sample>, i: int)
    requires
        0 <= i < s.len(),
    ensures
        payload(s.subrange(0, i + 1)) == payload(s.subrange(0, i)) + s[i].data@,
{
    assert(s.subrange(0, i + 1).drop_last() =~= s.subrange(0, i));
}

pub proof fn lemma_entries_prefix(s: Seq<Sample>, i: int, cto: bool)
    requires
        0 <= i < s.len(),
    ensures
        trun_entries(s.subrange(0, i + 1), cto) == trun_entries(s.subrange(0, i), cto) + be32(
            s[i].size,
        ) + (if cto {
            be32(s[i].composition_time_offset as u32)
        } else {
            Seq::empty()
        }),
{
    assert(s.subrange(0, i + 1).drop_last() =~= s.subrange(0, i));
}

pub proof fn lemma_entries_len(s: Seq<Sample>, cto: bool)
    ensures
        trun_entries(s, cto).len() == s.len() * (4 + (if cto {
            4int
        } else {
            0int
        })),
    decreases s.len(),
{
    if s.len() > 0 {
        lemma_entries_len(s.drop_last(), cto);
        assert(s.len() * (4 + (if cto {
            4int
        } else {
            0int
        })) == (s.len() - 1) * (4 + (if cto {
            4int
        } else {
            0int
        })) + (4 + (if cto {
            4int
        } else {
            0int
        }))) by (nonlinear_arith);
    }
}

/// The size computed ahead of writing a traf is the size of the traf
/// written.
pub proof fn lemma_traf_size(m: MuxerView, track_id: u32, base: u64, s: Seq<Sample>, off: u32)
    ensures
        traf_box(m, track_id, base, s, off).len() == traf_size(m, track_id, s),
{
    lemma_entries_len(s, has_cto(s));
}

/// In a fragment, each track's trun data offset (counted from the start of
/// the moof) is where that track's first payload byte lies in the mdat, as
/// long as the offsets fit in the 32-bit field.
pub proof fn lemma_data_offsets(m: MuxerView, seq: u32, v: Seq<Sample>, a: Seq<Sample>)
    requires
        moof_layout(m, seq, v, a).1 + payload(a).len() < 0x1_0000_0000,
    ensures
        ({
            let (v_off, a_off, moof) = moof_layout(m, seq, v, a);
            let f = fragment_bytes(m, seq, v, a);
            &&& v_off == moof.len() + 8
            &&& f.subrange(v_off, v_off + payload(v).len()) == payload(v)
            &&& f.subrange(a_off, a_off + payload(a).len()) == payload(a)
        }),
{
    let (v_off, a_off, moof) = moof_layout(m, seq, v, a);
    let vo = v_off as u32;
    let ao = a_off as u32;
    if v.len() > 0 {
        lemma_traf_size(m, 1, m.video_base_dts, v, vo);
    }
    if a.len() > 0 {
        lemma_traf_size(m, 2, m.audio_base_dts, a, ao);
    }
    let f = fragment_bytes(m, seq, v, a);
    let body = payload(v) + payload(a);
    assert(f =~= moof + (be32(wrap32(body.len() + 8int)) + seq![0x6du8, 0x64u8, 0x61u8, 0x74u8] + body));
    assert(f.subrange(v_off, v_off + payload(v).len()) =~= payload(v));
    assert(f.subrange(a_off, a_off + payload(a).len()) =~= payload(a));
}

/// Samples with the same payloads and composition offsets have the same
/// payload bytes and the same composition flag.
pub proof fn lemma_same_payload(s: Seq<Sample>, t: Seq<Sample>)
    requires
        s.len() == t.len(),
        forall|i: int|
            0 <= i < s.len() ==> (#[trigger] t[i]).data@ == s[i].data@
                && t[i].composition_time_offset == s[i].composition_time_offset,
    ensures
        payload(t) == payload(s),
        has_cto(t) == has_cto(s),
    decreases s.len(),
{
    if s.len() > 0 {
        lemma_same_payload(s.drop_last(), t.drop_last());
        assert(t[t.len() - 1].data@ == s[s.len() - 1].data@);
    }
    if has_cto(s) {
        let i = choose|i: int| 0 <= i < s.len() && #[trigger] s[i].composition_time_offset != 0;
        assert(t[i].composition_time_offset != 0);
    }
    if has_cto(t) {
        let i = choose|i: int| 0 <= i < t.len() && #[trigger] t[i].composition_time_offset != 0;
        assert(s[i].composition_time_offset != 0);
    }
}

/// Assigning durations keeps a fragment writable.
pub proof fn lemma_durations_in_range(m: MuxerView, video_only: bool)
    requires
        fragment_in_range(
            m,
            m.video_samples,
            if video_only {
                Seq::empty()
            } else {
                m.audio_samples
            },
        ),
    ensures
        ({
            let n = durations_set(m);
            fragment_in_range(
                n,
                n.video_samples,
                if video_only {
                    Seq::empty()
                } else {
                    n.audio_samples
                },
            )
        }),
{
    let n = durations_set(m);
    lemma_same_payload(m.video_samples, n.video_samples);
    lemma_same_payload(m.audio_samples, n.audio_samples);
    assert(video_gaps_in_range(n)) by {
        assert forall|i: int| 0 <= i < n.video_samples.len() - 1 implies #[trigger] n.video_samples[i].dts
            <= n.video_samples[i + 1].dts && (n.video_samples[i + 1].dts - n.video_samples[i].dts)
            * n.video_fps_num + 500 <= u64::MAX by {
            assert(m.video_samples[i].dts <= m.video_samples[i + 1].dts);
        }
    }
    if n.audio_samples.len() > 1 {
        assert(n.audio_samples.last().dts == m.audio_samples.last().dts);
        assert(n.audio_samples[0].dts == m.audio_samples[0].dts);
    }
    assert(Seq::<Sample>::empty().len() == 0);
    lemma_same_payload(Seq::<Sample>::empty(), Seq::<Sample>::empty());
}

// ── Writers ──────────────────────────────────────────────────────

fn push_payload(w: &mut Vec<u8>, s: &[Sample])
    ensures
        final(w)@ == old(w)@ + payload(s@),
{
    let mut i: usize = 0;
    while i < s.len()
        invariant
            i <= s@.len(),
            w@ == old(w)@ + payload(s@.subrange(0, i as int)),
        decreases s.len() - i,
    {
        proof {
            lemma_payload_prefix(s@, i as int);
        }
        push_bytes(w, s[i].data.as_slice());
        i += 1;
    }
    assert(s@.subrange(0, s@.len() as int) =~= s@);
}

fn payload_len(s: &[Sample]) -> (r: usize)
    requires
        payload(s@).len() <= usize::MAX,
    ensures
        r == payload(s@).len(),
{
    let mut total: usize = 0;
    let mut i: usize = 0;
    while i < s.len()
        invariant
            i <= s@.len(),
            total == payload(s@.subrange(0, i as int)).len(),
            payload(s@).len() <= usize::MAX,
        decreases s.len() - i,
    {
        proof {
            lemma_payload_prefix(s@, i as int);
            lemma_payload_monotone(s@, i + 1);
        }
        total = total + s[i].data.len();
        i += 1;
    }
    assert(s@.subrange(0, s@.len() as int) =~= s@);
    total
}

pub proof fn lemma_payload_monotone(s: Seq<Sample>, i: int)
    requires
        0 <= i <= s.len(),
    ensures
        payload(s.subrange(0, i)).len() <= payload(s).len(),
    decreases s.len() - i,
{
    if i < s.len() {
        lemma_payload_prefix(s, i);
        lemma_payload_monotone(s, i + 1);
    } else {
        assert(s.subrange(0, i) =~= s);
    }
}

fn samples_have_cto(s: &[Sample]) -> (r: bool)
    ensures
        r == has_cto(s@),
{
    let mut i: usize = 0;
    while i < s.len()
        invariant
            i <= s@.len(),
            forall|k: int| 0 <= k < i ==> s@[k].composition_time_offset == 0,
        decreases s.len() - i,
    {
        if s[i].composition_time_offset != 0 {
            return true;
        }
        i += 1;
    }
    false
}

fn write_mfhd(w: &mut Vec<u8>, sequence_number: u32)
    ensures
        final(w)@ == old(w)@ + mfhd_box(sequence_number),
{
    let mut data: Vec<u8> = Vec::new();
    push_u32_be(&mut data, sequence_number);
    write_fullbox(w, &[0x6d, 0x66, 0x68, 0x64], 0, 0, data.as_slice());
}

fn write_tfhd(w: &mut Vec<u8>, track_id: u32, duration: u32, size: u32, flags: u32)
    ensures
        final(w)@ == old(w)@ + tfhd_box(track_id, duration, size, flags),
{
    let mut data: Vec<u8> = Vec::new();
    push_u32_be(&mut data, track_id);
    push_u32_be(&mut data, duration);
    push_u32_be(&mut data, size);
    push_u32_be(&mut data, flags);
    assert(data@ =~= be32(track_id) + be32(duration) + be32(size) + be32(flags));
    assert(0x020000u32 | 0x000008u32 | 0x000010u32 | 0x000020u32 == 0x020038u32) by (bit_vector);
    write_fullbox(w, &[0x74, 0x66, 0x68, 0x64], 0, 0x020000 | 0x000008 | 0x000010 | 0x000020, data.as_slice());
}

fn write_tfdt(w: &mut Vec<u8>, base: u64)
    ensures
        final(w)@ == old(w)@ + tfdt_box(base),
{
    let mut data: Vec<u8> = Vec::new();
    push_u64_be(&mut data, base);
    write_fullbox(w, &[0x74, 0x66, 0x64, 0x74], 1, 0, data.as_slice());
}

fn write_sbgp_opus(w: &mut Vec<u8>, count: u32)
    ensures
        final(w)@ == old(w)@ + sbgp_box(count),
{
    let mut data: Vec<u8> = Vec::new();
    push_bytes(&mut data, &[0x72, 0x6f, 0x6c, 0x6c]);
    push_u32_be(&mut data, 1);
    push_u32_be(&mut data, count);
    push_u32_be(&mut data, 1);
    assert(data@ =~= seq![0x72u8, 0x6fu8, 0x6cu8, 0x6cu8] + be32(1) + be32(count) + be32(1));
    write_fullbox(w, &[0x73, 0x62, 0x67, 0x70], 0, 0, data.as_slice());
}

fn write_trun(w: &mut Vec<u8>, track_id: u32, s: &[Sample], data_offset: u32)
    ensures
        final(w)@ == old(w)@ + trun_box(track_id, s@, data_offset),
{
    let is_video = track_id == 1;
    let cto = samples_have_cto(s);
    let version: u8 = if cto {
        1
    } else {
        0
    };
    let f1: u32 = if is_video {
        0x000001u32 | 0x000004u32
    } else {
        0x000001u32
    };
    let f2: u32 = f1 | 0x000200u32;
    let flags: u32 = if cto {
        f2 | 0x000800u32
    } else {
        f2
    };
    let mut data: Vec<u8> = Vec::new();
    push_u32_be(&mut data, s.len() as u32);
    push_u32_be(&mut data, data_offset);
    if is_video {
        let first_flags = if s.len() > 0 {
            s[0].flags
        } else {
            0x02000000
        };
        push_u32_be(&mut data, first_flags);
    }
    let ghost head = data@;
    let mut i: usize = 0;
    while i < s.len()
        invariant
            i <= s@.len(),
            cto == has_cto(s@),
            data@ == head + trun_entries(s@.subrange(0, i as int), cto),
        decreases s.len() - i,
    {
        proof {
            lemma_entries_prefix(s@, i as int, cto);
        }
        push_u32_be(&mut data, s[i].size);
        if cto {
            push_u32_be(&mut data, s[i].composition_time_offset as u32);
        }
        i += 1;
    }
    assert(s@.subrange(0, s@.len() as int) =~= s@);
    write_fullbox(w, &[0x74, 0x72, 0x75, 0x6e], version, flags, data.as_slice());
}

impl Fmp4Muxer {
    fn compute_traf_size(&self, track_id: u32, s: &[Sample]) -> (r: usize)
        requires
            traf_size(self@, track_id, s@) <= usize::MAX,
        ensures
            r == traf_size(self@, track_id, s@),
    {
        let is_video = track_id == 1;
        let cto = samples_have_cto(s);
        let is_opus_audio = !is_video && match self.audio_codec {
            Some(AudioCodec::Opus) => true,
            _ => false,
        };
        let tfhd_size: usize = 28;
        let trun_header: usize = if is_video {
            12 + 4 + 4 + 4
        } else {
            12 + 4 + 4
        };
        let entry_size: usize = if cto {
            8
        } else {
            4
        };
        assert(s@.len() * entry_size <= usize::MAX) by (nonlinear_arith)
            requires
                traf_size(self@, track_id, s@) <= usize::MAX,
                traf_size(self@, track_id, s@) >= s@.len() * entry_size,
        ;
        let trun_size = trun_header + s.len() * entry_size;
        let sbgp_size: usize = if is_opus_audio {
            28
        } else {
            0
        };
        8 + tfhd_size + 20 + sbgp_size + trun_size
    }

    fn write_traf(&self, w: &mut Vec<u8>, track_id: u32, base: u64, s: &[Sample], data_offset: u32)
        requires
            audio_average_in_range(self@),
            track_id == 1 ==> base * self@.video_fps_num + 500 <= u64::MAX,
            (track_id != 1 && self@.audio_codec is None) ==> base * self@.audio_sample_rate + 500
                <= u64::MAX,
        ensures
            final(w)@ == old(w)@ + traf_box(self@, track_id, base, s@, data_offset),
    {
        let is_video = track_id == 1;
        let is_opus_audio = !is_video && match self.audio_codec {
            Some(AudioCodec::Opus) => true,
            _ => false,
        };
        let scaled_base: u64 = if is_video {
            (base * self.video_fps_num + 500) / 1000
        } else if self.audio_codec.is_some() {
            base
        } else {
            (base * self.audio_sample_rate as u64 + 500) / 1000
        };
        let duration: u32 = if is_video {
            self.video_fps_den as u32
        } else {
            self.audio_frame_duration_ticks()
        };
        let default_size: u32 = if s.len() > 0 {
            s[0].size
        } else {
            0
        };
        let default_flags: u32 = if is_video {
            0x01010000
        } else {
            0x02000000
        };
        let mut traf: Vec<u8> = Vec::new();
        write_tfhd(&mut traf, track_id, duration, default_size, default_flags);
        write_tfdt(&mut traf, scaled_base);
        let ghost a = traf@;
        if is_opus_audio {
            write_sbgp_opus(&mut traf, s.len() as u32);
        }
        assert(traf@ =~= a + (if is_opus_track(self@, track_id) {
            sbgp_box(s@.len() as u32)
        } else {
            Seq::empty()
        }));
        write_trun(&mut traf, track_id, s, data_offset);
        write_box(w, &[0x74, 0x72, 0x61, 0x66], traf.as_slice());
    }

    /// Writes the fragment of `v` (video) and `a` (audio) numbered `seq`.
    fn write_fragment(&self, seq: u32, v: &[Sample], a: &[Sample]) -> (r: Vec<u8>)
        requires
            fragment_in_range(self@, v@, a@),
            v@.len() > 0 ==> v@ == self@.video_samples,
            a@.len() > 0 ==> a@ == self@.audio_samples,
        ensures
            r@ == fragment_bytes(self@, seq, v@, a@),
    {
        let ghost m = self@;
        proof {
            lemma_payload_monotone(v@, 0);
        }
        let vsize: usize = if v.len() > 0 {
            self.compute_traf_size(1, v)
        } else {
            0
        };
        let asize: usize = if a.len() > 0 {
            self.compute_traf_size(2, a)
        } else {
            0
        };
        let vpay = payload_len(v);
        let apay = payload_len(a);
        let moof_size = 8 + 16 + vsize + asize;
        let v_off = moof_size + 8;
        let a_off = v_off + vpay;
        let mut moof: Vec<u8> = Vec::new();
        write_mfhd(&mut moof, seq);
        let ghost b0 = moof@;
        if v.len() > 0 {
            self.write_traf(&mut moof, 1, self.video_base_dts, v, v_off as u32);
        }
        let ghost b1 = moof@;
        assert(b1 =~= b0 + (if v@.len() > 0 {
            traf_box(m, 1, m.video_base_dts, v@, v_off as u32)
        } else {
            Seq::empty()
        }));
        if a.len() > 0 {
            self.write_traf(&mut moof, 2, self.audio_base_dts, a, a_off as u32);
        }
        assert(moof@ =~= mfhd_box(seq) + (if v@.len() > 0 {
            traf_box(m, 1, m.video_base_dts, v@, v_off as u32)
        } else {
            Seq::empty()
        }) + (if a@.len() > 0 {
            traf_box(m, 2, m.audio_base_dts, a@, a_off as u32)
        } else {
            Seq::empty()
        }));
        let mut buf: Vec<u8> = Vec::new();
        write_box(&mut buf, &[0x6d, 0x6f, 0x6f, 0x66], moof.as_slice());
        let mdat_size = size32(vpay + apay, 8);
        push_u32_be(&mut buf, mdat_size);
        push_fourcc(&mut buf, &[0x6d, 0x64, 0x61, 0x74]);
        push_payload(&mut buf, v);
        push_payload(&mut buf, a);
        assert(buf@ =~= fragment_bytes(m, seq, v@, a@));
        buf
    }

    /// Writes one fragment (moof + mdat) of all queued samples, video track
    /// first, and empties the queues; None when nothing is queued.
    pub fn flush_combined_fragment(&mut self) -> (r: Option<Vec<u8>>)
        requires
            flush_in_range(old(self)@),
        ensures
            (old(self)@.video_samples.len() == 0 && old(self)@.audio_samples.len() == 0) ==> (r
                is None && final(self)@ == old(self)@),
            (old(self)@.video_samples.len() > 0 || old(self)@.audio_samples.len() > 0) ==> {
                &&& r matches Some(f) && f@ == spec_combined_fragment(durations_set(old(self)@))
                &&& final(self)@ == (MuxerView {
                    video_samples: Seq::empty(),
                    audio_samples: Seq::empty(),
                    video_sequence_number: (old(self)@.video_sequence_number + 1) as u32,
                    ..old(self)@
                })
            },
    {
        if self.video_samples.len() == 0 && self.audio_samples.len() == 0 {
            return None;
        }
        proof {
            lemma_durations_in_range(self@, false);
        }
        self.compute_and_set_durations();
        self.video_sequence_number = self.video_sequence_number + 1;
        let buf = self.write_fragment(
            self.video_sequence_number,
            self.video_samples.as_slice(),
            self.audio_samples.as_slice(),
        );
        self.video_samples.clear();
        self.audio_samples.clear();
        Some(buf)
    }

    /// Writes one fragment of the queued video samples alone and empties
    /// the video queue; None when no video is queued. Durations are
    /// assigned to both queues first.
    pub fn flush_video_fragment(&mut self) -> (r: Option<Vec<u8>>)
        requires
            video_flush_in_range(old(self)@),
        ensures
            old(self)@.video_samples.len() == 0 ==> (r is None && final(self)@ == old(self)@),
            old(self)@.video_samples.len() > 0 ==> {
                &&& r matches Some(f) && f@ == spec_video_fragment(durations_set(old(self)@))
                &&& final(self)@ == (MuxerView {
                    video_samples: Seq::empty(),
                    video_sequence_number: (old(self)@.video_sequence_number + 1) as u32,
                    ..durations_set(old(self)@)
                })
            },
    {
        if self.video_samples.len() == 0 {
            return None;
        }
        proof {
            lemma_durations_in_range(self@, true);
        }
        self.compute_and_set_durations();
        self.video_sequence_number = self.video_sequence_number + 1;
        let none: Vec<Sample> = Vec::new();
        let buf = self.write_fragment(
            self.video_sequence_number,
            self.video_samples.as_slice(),
            none.as_slice(),
        );
        self.video_samples.clear();
        Some(buf)
    }
}


proof fn lemma_payload_step(s: Seq<Sample>, i: int)
    requires
        0 <= i < s.len(),
    ensures
        payload(s.subrange(0, i + 1)).len() == payload(s.subrange(0, i)).len() + s[i].data@.len(),
{
    let p = s.subrange(0, i + 1);
    assert(p.drop_last() =~= s.subrange(0, i));
}

/// The product of two 64-bit values, exactly.
pub fn mul_wide(a: u64, b: u64) -> (r: u128)
    ensures
        r == a * b,
        r <= u64::MAX * (u64::MAX as int),
{
    assert(a * b <= u64::MAX * (u64::MAX as int)) by (nonlinear_arith)
        requires
            a <= u64::MAX,
            b <= u64::MAX,
    ;
    assert(u64::MAX * (u64::MAX as int) < u128::MAX);
    (a as u128) * (b as u128)
}

/// The payload length of `s`, as a wide integer.
fn payload_len_wide(s: &[Sample]) -> (r: u128)
    ensures
        r == payload(s@).len(),
{
    let mut acc: u128 = 0;
    let mut i: usize = 0;
    while i < s.len()
        invariant
            i <= s@.len(),
            acc == payload(s@.subrange(0, i as int)).len(),
            acc <= i * (usize::MAX as int),
        decreases s.len() - i,
    {
        proof {
            lemma_payload_step(s@, i as int);
        }
        let n = s[i].data.len();
        assert(acc + n <= (i + 1) * (usize::MAX as int)) by (nonlinear_arith)
            requires
                acc <= i * (usize::MAX as int),
                n <= usize::MAX,
        ;
        assert((i + 1) * (usize::MAX as int) <= u128::MAX) by (nonlinear_arith)
            requires
                i < usize::MAX,
                usize::MAX <= u64::MAX,
        ;
        acc = acc + n as u128;
        i += 1;
    }
    assert(s@.subrange(0, s@.len() as int) =~= s@);
    acc
}

impl Fmp4Muxer {
    fn traf_size_wide(&self, track_id: u32, s: &[Sample]) -> (r: u128)
        ensures
            r == traf_size(self@, track_id, s@),
            r <= 200 + 8 * (u64::MAX as int),
    {
        let is_video = track_id == 1;
        let cto = samples_have_cto(s);
        let is_opus_audio = !is_video && match self.audio_codec {
            Some(AudioCodec::Opus) => true,
            _ => false,
        };
        let trun_header: u128 = if is_video {
            24
        } else {
            20
        };
        let entry: u128 = if cto {
            8
        } else {
            4
        };
        let sbgp: u128 = if is_opus_audio {
            28
        } else {
            0
        };
        let n = s.len() as u128;
        assert(n * entry <= 8 * (u64::MAX as int)) by (nonlinear_arith)
            requires
                n <= u64::MAX,
                entry <= 8,
        ;
        8 + 28 + 20 + sbgp + trun_header + n * entry
    }

    /// Whether flushing all queued samples keeps the fragment's arithmetic
    /// in range (`flush_combined_fragment`'s precondition).
    pub fn flush_is_in_range(&self) -> (r: bool)
        ensures
            r == flush_in_range(self@),
    {
        if self.video_sequence_number == u32::MAX {
            return false;
        }
        if !self.video_gaps_are_in_range() || !self.audio_average_is_in_range() {
            return false;
        }
        let v = self.video_samples.as_slice();
        let a = self.audio_samples.as_slice();
        if v.len() > 0 && mul_wide(self.video_base_dts, self.video_fps_num) + 500 > u64::MAX as u128 {
            return false;
        }
        if a.len() > 0 && self.audio_codec.is_none() && mul_wide(
            self.audio_base_dts,
            self.audio_sample_rate as u64,
        ) + 500 > u64::MAX as u128 {
            return false;
        }
        let vt = self.traf_size_wide(1, v);
        let at = self.traf_size_wide(2, a);
        let vp = payload_len_wide(v);
        let ap = payload_len_wide(a);
        if vp > usize::MAX as u128 || ap > usize::MAX as u128 {
            return false;
        }
        assert(vt <= 200 + 8 * (u64::MAX as int) && at <= 200 + 8 * (u64::MAX as int));
        24 + vt + at + 8 + vp + ap <= usize::MAX as u128
    }
}


} // verus!
