//! Fragmented MP4 (CMAF) muxer: an init segment (ftyp + moov) describing
//! the tracks, then one moof + mdat fragment per flush.
pub mod av1;
pub mod boxes;
pub mod codec;
pub mod fragment;
pub mod init;

pub use codec::ensure_av1_obu_size_fields;
use fragment::mul_wide;

use std::borrow::Cow;
use vstd::prelude::*;

verus! {

#[derive(Clone, Copy, PartialEq, Eq, Debug, Structural)]
pub enum VideoCodec {
    H264,
    H265,
    AV1,
}

#[derive(Clone, Copy, PartialEq, Eq, Debug, Structural)]
pub enum AudioCodec {
    Aac,
    Opus,
    Flac,
}

/// One media sample waiting for the next fragment.
#[derive(Clone, Debug)]
pub struct Sample {
    pub data: Vec<u8>,
    pub dts: u64,
    pub duration: u32,
    pub size: u32,
    pub flags: u32,
    pub composition_time_offset: i32,
}

/// nclx colour description written as a `colr` box.
#[derive(Clone, Copy, Debug)]
pub struct ColorConfig {
    pub color_primaries: u16,
    pub transfer_characteristics: u16,
    pub matrix_coefficients: u16,
    pub full_range: bool,
}

/// Content light level and mastering display data (`clli`, `mdcv`).
#[derive(Clone, Copy, Debug)]
pub struct HdrMetadata {
    pub max_content_light_level: u16,
    pub max_frame_average_light_level: u16,
    pub display_primaries_x: [u16; 3],
    pub display_primaries_y: [u16; 3],
    pub white_point_x: u16,
    pub white_point_y: u16,
    pub max_luminance: u32,
    pub min_luminance: u32,
}

pub struct Fmp4Muxer {
    video_codec: Option<VideoCodec>,
    audio_codec: Option<AudioCodec>,
    video_width: u16,
    video_height: u16,
    video_config: Option<Vec<u8>>,
    audio_config: Option<Vec<u8>>,
    video_color_config: Option<ColorConfig>,
    hdr_metadata: Option<HdrMetadata>,
    video_samples: Vec<Sample>,
    audio_samples: Vec<Sample>,
    video_sequence_number: u32,
    video_base_dts: u64,
    // Known audio codecs keep decode time in the audio timescale (samples),
    // so that tfdt stays on the codec's frame grid (1024 for AAC).
    audio_base_dts: u64,
    audio_next_dts: u64,
    audio_sample_rate: u32,
    video_fps_num: u64,
    video_fps_den: u64,
}

/// The state of a muxer as plain values.
pub struct MuxerView {
    pub video_codec: Option<VideoCodec>,
    pub audio_codec: Option<AudioCodec>,
    pub video_width: u16,
    pub video_height: u16,
    pub video_config: Option<Seq<u8>>,
    pub audio_config: Option<Seq<u8>>,
    pub video_color_config: Option<ColorConfig>,
    pub hdr_metadata: Option<HdrMetadata>,
    pub video_samples: Seq<Sample>,
    pub audio_samples: Seq<Sample>,
    pub video_sequence_number: u32,
    pub video_base_dts: u64,
    pub audio_base_dts: u64,
    pub audio_next_dts: u64,
    pub audio_sample_rate: u32,
    pub video_fps_num: u64,
    pub video_fps_den: u64,
}

pub open spec fn bytes_opt(o: Option<Vec<u8>>) -> Option<Seq<u8>> {
    match o {
        Some(v) => Some(v@),
        None => None,
    }
}

impl View for Fmp4Muxer {
    type V = MuxerView;

    closed spec fn view(&self) -> MuxerView {
        MuxerView {
            video_codec: self.video_codec,
            audio_codec: self.audio_codec,
            video_width: self.video_width,
            video_height: self.video_height,
            video_config: bytes_opt(self.video_config),
            audio_config: bytes_opt(self.audio_config),
            video_color_config: self.video_color_config,
            hdr_metadata: self.hdr_metadata,
            video_samples: self.video_samples@,
            audio_samples: self.audio_samples@,
            video_sequence_number: self.video_sequence_number,
            video_base_dts: self.video_base_dts,
            audio_base_dts: self.audio_base_dts,
            audio_next_dts: self.audio_next_dts,
            audio_sample_rate: self.audio_sample_rate,
            video_fps_num: self.video_fps_num,
            video_fps_den: self.video_fps_den,
        }
    }
}

// ── Timing arithmetic ────────────────────────────────────────────

/// Integer division by 1000 rounding toward zero, as Rust's `/` on signed
/// integers does.
pub open spec fn trunc_div1000(a: int) -> int {
    if a >= 0 {
        a / 1000
    } else {
        -((-a) / 1000)
    }
}

/// PTS − DTS in milliseconds, both read as signed 64-bit values.
pub open spec fn pts_minus_dts(dts: u64, pts: u64) -> int {
    (pts as i64) as int - (dts as i64) as int
}

/// The rounded numerator of a composition offset: (pts − dts) · fps ± 500.
pub open spec fn cto_numerator(dts: u64, pts: u64, fps_num: u64) -> int {
    let d = pts_minus_dts(dts, pts);
    let x = d * ((fps_num as i64) as int);
    if d >= 0 {
        x + 500
    } else {
        x - 500
    }
}

/// Whether computing a composition offset stays within 64-bit signed
/// arithmetic.
pub open spec fn cto_in_range(dts: u64, pts: u64, fps_num: u64) -> bool {
    let d = pts_minus_dts(dts, pts);
    &&& i64::MIN <= d <= i64::MAX
    &&& i64::MIN <= d * ((fps_num as i64) as int) <= i64::MAX
    &&& i64::MIN <= cto_numerator(dts, pts, fps_num) <= i64::MAX
}

/// The composition time offset in video timescale ticks: (pts − dts)
/// milliseconds scaled by the frame rate, rounded half away from zero.
pub open spec fn spec_cto(dts: u64, pts: u64, fps_num: u64) -> i32 {
    trunc_div1000(cto_numerator(dts, pts, fps_num)) as i32
}

/// AAC sampling frequency table (ISO/IEC 14496-3), indices 13..15 reserved.
pub open spec fn aac_sample_rate(idx: int) -> u32 {
    if idx == 0 { 96000 }
    else if idx == 1 { 88200 }
    else if idx == 2 { 64000 }
    else if idx == 3 { 48000 }
    else if idx == 4 { 44100 }
    else if idx == 5 { 32000 }
    else if idx == 6 { 24000 }
    else if idx == 7 { 22050 }
    else if idx == 8 { 16000 }
    else if idx == 9 { 12000 }
    else if idx == 10 { 11025 }
    else if idx == 11 { 8000 }
    else if idx == 12 { 7350 }
    else { 0 }
}

/// Setting an AAC AudioSpecificConfig makes the audio timescale the
/// sampling frequency its 4-bit index names (ISO/IEC 14496-3): 96000,
/// 88200, 64000, 48000, 44100, 32000, 24000, 22050, 16000, 12000, 11025,
/// 8000 and 7350 Hz for indices 0 to 12, 0 for the reserved 13 to 15; and
/// two valid indices that give the same rate are the same index.
pub proof fn lemma_aac_config_sample_rate(rate: u32, c: Seq<u8>, c2: Seq<u8>)
    requires
        c.len() >= 2,
        c2.len() >= 2,
    ensures
        ({
            let idx = ((((c[0] as u32) & 0x07u32) << 1u32) | (((c[1] as u32) >> 7u32) & 0x01u32)) as int;
            let r = rate_after_config(Some(AudioCodec::Aac), rate, c);
            &&& idx == 0 ==> r == 96000
            &&& idx == 1 ==> r == 88200
            &&& idx == 2 ==> r == 64000
            &&& idx == 3 ==> r == 48000
            &&& idx == 4 ==> r == 44100
            &&& idx == 5 ==> r == 32000
            &&& idx == 6 ==> r == 24000
            &&& idx == 7 ==> r == 22050
            &&& idx == 8 ==> r == 16000
            &&& idx == 9 ==> r == 12000
            &&& idx == 10 ==> r == 11025
            &&& idx == 11 ==> r == 8000
            &&& idx == 12 ==> r == 7350
            &&& idx > 12 ==> r == 0
        }),
        ({
            let i1 = ((((c[0] as u32) & 0x07u32) << 1u32) | (((c[1] as u32) >> 7u32) & 0x01u32)) as int;
            let i2 = ((((c2[0] as u32) & 0x07u32) << 1u32) | (((c2[1] as u32) >> 7u32) & 0x01u32)) as int;
            i1 <= 12 && i2 <= 12 && rate_after_config(Some(AudioCodec::Aac), rate, c)
                == rate_after_config(Some(AudioCodec::Aac), rate, c2) ==> i1 == i2
        }),
{
}

fn aac_rate_of_index(idx: u32) -> (r: u32)
    ensures
        r == aac_sample_rate(idx as int),
{
    match idx {
        0 => 96000,
        1 => 88200,
        2 => 64000,
        3 => 48000,
        4 => 44100,
        5 => 32000,
        6 => 24000,
        7 => 22050,
        8 => 16000,
        9 => 12000,
        10 => 11025,
        11 => 8000,
        12 => 7350,
        _ => 0,
    }
}

/// The sampling-frequency index of an AudioSpecificConfig.
pub open spec fn aac_rate_index(c: Seq<u8>) -> int {
    ((((c[0] as u32) & 0x07u32) << 1u32) | (((c[1] as u32) >> 7u32) & 0x01u32)) as int
}

/// The audio timescale after an audio config is set.
pub open spec fn rate_after_config(codec: Option<AudioCodec>, rate: u32, c: Seq<u8>) -> u32 {
    match codec {
        Some(AudioCodec::Aac) => if c.len() >= 2 {
            aac_sample_rate(aac_rate_index(c))
        } else {
            rate
        },
        Some(AudioCodec::Opus) => 48000,
        Some(AudioCodec::Flac) => match codec::spec_parse_flac_streaminfo(c) {
            Some((sr, _)) => sr,
            None => rate,
        },
        None => rate,
    }
}

/// Whether the sample-duration average of an audio stream with no known
/// codec can be computed: decode times do not go back and the products fit
/// in 64 bits.
pub open spec fn audio_average_in_range(m: MuxerView) -> bool {
    let s = m.audio_samples;
    m.audio_codec is None && s.len() > 1 ==> {
        let total = s.last().dts - s[0].dts;
        let cnt = s.len() - 1;
        &&& s[0].dts <= s.last().dts
        &&& cnt * 1000 <= u64::MAX
        &&& total * m.audio_sample_rate + (cnt * 1000) / 2 <= u64::MAX
    }
}

/// Duration in audio timescale ticks of one audio frame: fixed per codec;
/// with no codec, the average spacing of the queued samples in milliseconds
/// converted to the timescale (1024 with fewer than two samples).
pub open spec fn frame_ticks(m: MuxerView) -> u32 {
    match m.audio_codec {
        Some(AudioCodec::Aac) => 1024,
        Some(AudioCodec::Opus) => 960,
        Some(AudioCodec::Flac) => 4096,
        None => {
            let s = m.audio_samples;
            if s.len() > 1 {
                let total = s.last().dts - s[0].dts;
                let cnt = s.len() - 1;
                ((total * m.audio_sample_rate + (cnt * 1000) / 2) / (cnt * 1000)) as u32
            } else {
                1024
            }
        },
    }
}

/// Whether per-sample video durations can be computed: decode times do not
/// go back and each scaled gap fits in 64 bits.
pub open spec fn video_gaps_in_range(m: MuxerView) -> bool {
    forall|i: int|
        0 <= i < m.video_samples.len() - 1 ==> {
            &&& #[trigger] m.video_samples[i].dts <= m.video_samples[i + 1].dts
            &&& (m.video_samples[i + 1].dts - m.video_samples[i].dts) * m.video_fps_num + 500
                <= u64::MAX
        }
}

/// Duration of video sample `i`: the gap to the next sample scaled to the
/// timescale (at least 1); the frame-rate denominator for the last one.
pub open spec fn video_duration(m: MuxerView, i: int) -> u32 {
    let s = m.video_samples;
    if i < s.len() - 1 {
        let v = (((s[i + 1].dts - s[i].dts) * m.video_fps_num + 500) / 1000) as u32;
        if v >= 1 {
            v
        } else {
            1
        }
    } else {
        m.video_fps_den as u32
    }
}

/// `s` with the duration field replaced.
pub open spec fn with_duration(s: Sample, d: u32) -> Sample {
    Sample { duration: d, ..s }
}

/// The queued samples after durations are assigned.
pub open spec fn durations_set(m: MuxerView) -> MuxerView {
    MuxerView {
        video_samples: Seq::new(
            m.video_samples.len(),
            |i: int| with_duration(m.video_samples[i], video_duration(m, i)),
        ),
        audio_samples: Seq::new(
            m.audio_samples.len(),
            |i: int| with_duration(m.audio_samples[i], frame_ticks(m)),
        ),
        ..m
    }
}

/// `samples` with durations taken one for one from `d` when the lengths
/// agree, else unchanged.
pub open spec fn durations_given(samples: Seq<Sample>, d: Seq<u32>) -> Seq<Sample> {
    if d.len() == samples.len() {
        Seq::new(samples.len(), |i: int| with_duration(samples[i], d[i]))
    } else {
        samples
    }
}

/// The sample a queued payload becomes.
pub open spec fn new_sample(data: Seq<u8>, s: Sample, dts: u64, flags: u32, cto: i32) -> bool {
    &&& s.data@ == data
    &&& s.dts == dts
    &&& s.size == data.len() as u32
    &&& s.duration == 0
    &&& s.flags == flags
    &&& s.composition_time_offset == cto
}

/// PCM samples at 48 kHz in an Opus packet, from its TOC byte (RFC 6716
/// section 3.1): the frame size of the configuration times the frame count
/// of the code.
pub open spec fn spec_opus_frame_samples(packet: Seq<u8>) -> Option<u32> {
    if packet.len() == 0 {
        None
    } else {
        let toc = packet[0];
        let base = ((toc >> 3u8) & 0x1Fu8) & 0x07u8;
        let code = toc & 0x03u8;
        let per_frame: u32 = if base == 0 {
            120
        } else if base == 1 {
            240
        } else if base == 2 {
            480
        } else if base == 3 {
            960
        } else if base == 4 {
            1920
        } else if base == 5 {
            2880
        } else if base == 6 {
            3840
        } else {
            4800
        };
        let frames: u32 = if code == 0 {
            1
        } else if code == 3 {
            3
        } else {
            2
        };
        Some((per_frame * frames) as u32)
    }
}

/// Samples per Opus packet at 48 kHz from the TOC byte. The muxer does not
/// use it for durations: some encoders write TOC bytes that do not match
/// their 20 ms frames, so Opus frames are taken as 960 samples.
pub fn opus_frame_samples(packet: &[u8]) -> (r: Option<u32>)
    ensures
        r == spec_opus_frame_samples(packet@),
{
    if packet.len() == 0 {
        return None;
    }
    let toc = packet[0];
    let config_raw = (toc >> 3) & 0x1F;
    let config_base = config_raw & 0x07;
    let code = toc & 0x03;
    assert(config_base <= 7) by (bit_vector)
        requires
            config_base == config_raw & 0x07u8,
    ;
    let samples_per_frame: u32 = match config_base {
        0 => 120,
        1 => 240,
        2 => 480,
        3 => 960,
        4 => 1920,
        5 => 2880,
        6 => 3840,
        _ => 4800,
    };
    let frame_count: u32 = match code {
        0 => 1,
        1 | 2 => 2,
        3 => 3,
        _ => 1,
    };
    assert(code <= 3) by (bit_vector)
        requires
            code == toc & 0x03u8,
    ;
    Some(samples_per_frame * frame_count)
}

fn cow_into_vec(data: Cow<'_, [u8]>) -> (v: Vec<u8>)
    ensures
        v@ == data@,
{
    match data {
        Cow::Borrowed(b) => vstd::slice::slice_to_vec(b),
        Cow::Owned(o) => o,
    }
}

/// How queueing an audio sample changes a muxer: an empty payload is
/// dropped; otherwise the sample is appended, its decode time taken from
/// the running frame clock (known codec) or the given timestamp.
pub open spec fn audio_sample_added(before: MuxerView, after: MuxerView, data: Seq<u8>, pts: u64) -> bool {
    &&& data.len() == 0 ==> after == before
    &&& data.len() > 0 ==> {
        let dts = if before.audio_codec is Some {
            before.audio_next_dts
        } else {
            pts
        };
        &&& after.audio_samples.len() == before.audio_samples.len() + 1
        &&& after.audio_samples.drop_last() == before.audio_samples
        &&& new_sample(data, after.audio_samples.last(), dts, 0, 0)
        &&& after == (MuxerView {
            audio_samples: after.audio_samples,
            audio_base_dts: if before.audio_samples.len() == 0 {
                dts
            } else {
                before.audio_base_dts
            },
            audio_next_dts: if before.audio_codec is Some {
                if before.audio_next_dts + frame_ticks(before) <= u64::MAX {
                    (before.audio_next_dts + frame_ticks(before)) as u64
                } else {
                    u64::MAX
                }
            } else {
                before.audio_next_dts
            },
            ..before
        })
    }
}

/// With AAC audio, decode times stay on the 1024-sample frame grid across
/// samples and fragments: when the frame clock is on the grid, a queued
/// sample's decode time, the fragment's base decode time and the next
/// frame clock are on it too (short of the clock's 64-bit limit).
pub proof fn lemma_aac_frame_grid(before: MuxerView, after: MuxerView, data: Seq<u8>, pts: u64)
    requires
        before.audio_codec == Some(AudioCodec::Aac),
        before.audio_next_dts % 1024 == 0,
        before.audio_samples.len() > 0 ==> before.audio_base_dts % 1024 == 0,
        before.audio_next_dts + 1024 <= u64::MAX,
        data.len() > 0,
        audio_sample_added(before, after, data, pts),
    ensures
        after.audio_samples.last().dts % 1024 == 0,
        after.audio_base_dts % 1024 == 0,
        after.audio_next_dts % 1024 == 0,
        after.audio_next_dts == before.audio_next_dts + 1024,
{
}

impl Fmp4Muxer {
    pub fn new() -> (m: Self)
        ensures
            m@ == (MuxerView {
                video_codec: None,
                audio_codec: None,
                video_width: 1920,
                video_height: 1080,
                video_config: None,
                audio_config: None,
                video_color_config: None,
                hdr_metadata: None,
                video_samples: Seq::empty(),
                audio_samples: Seq::empty(),
                video_sequence_number: 0,
                video_base_dts: 0,
                audio_base_dts: 0,
                audio_next_dts: 0,
                audio_sample_rate: 44100,
                video_fps_num: 30,
                video_fps_den: 1,
            }),
    {
        let m = Fmp4Muxer {
            video_codec: None,
            audio_codec: None,
            video_width: 1920,
            video_height: 1080,
            video_config: None,
            audio_config: None,
            video_color_config: None,
            hdr_metadata: None,
            video_samples: Vec::new(),
            audio_samples: Vec::new(),
            video_sequence_number: 0,
            video_base_dts: 0,
            audio_base_dts: 0,
            audio_next_dts: 0,
            audio_sample_rate: 44100,
            video_fps_num: 30,
            video_fps_den: 1,
        };
        assert(m@.video_samples =~= Seq::empty());
        assert(m@.audio_samples =~= Seq::empty());
        m
    }

    pub fn set_video_framerate(&mut self, num: u64, den: u64)
        ensures
            final(self)@ == (MuxerView { video_fps_num: num, video_fps_den: den, ..old(self)@ }),
    {
        self.video_fps_num = num;
        self.video_fps_den = den;
    }

    pub fn set_video_color_config(&mut self, cfg: ColorConfig)
        ensures
            final(self)@ == (MuxerView { video_color_config: Some(cfg), ..old(self)@ }),
    {
        self.video_color_config = Some(cfg);
    }

    pub fn set_hdr_metadata(&mut self, hdr: HdrMetadata)
        ensures
            final(self)@ == (MuxerView { hdr_metadata: Some(hdr), ..old(self)@ }),
    {
        self.hdr_metadata = Some(hdr);
    }

    pub fn video_codec(&self) -> (r: Option<VideoCodec>)
        ensures
            r == self@.video_codec,
    {
        self.video_codec
    }

    pub fn set_video_codec(&mut self, codec: VideoCodec, width: u16, height: u16)
        ensures
            final(self)@ == (MuxerView {
                video_codec: Some(codec),
                video_width: width,
                video_height: height,
                ..old(self)@
            }),
    {
        self.video_codec = Some(codec);
        self.video_width = width;
        self.video_height = height;
    }

    pub fn set_audio_codec(&mut self, codec: AudioCodec)
        ensures
            final(self)@ == (MuxerView { audio_codec: Some(codec), ..old(self)@ }),
    {
        self.audio_codec = Some(codec);
    }

    pub fn set_video_config(&mut self, config: Vec<u8>)
        ensures
            final(self)@ == (MuxerView { video_config: Some(config@), ..old(self)@ }),
    {
        self.video_config = Some(config);
    }

    /// Stores the audio codec config; for AAC, Opus and FLAC the audio
    /// timescale is taken from it.
    pub fn set_audio_config(&mut self, config: Vec<u8>)
        ensures
            final(self)@ == (MuxerView {
                audio_config: Some(config@),
                audio_sample_rate: rate_after_config(
                    old(self)@.audio_codec,
                    old(self)@.audio_sample_rate,
                    config@,
                ),
                ..old(self)@
            }),
    {
        match self.audio_codec {
            Some(AudioCodec::Aac) => {
                if config.len() >= 2 {
                    let rate_index = ((config[0] as u32 & 0x07) << 1) | ((config[1] as u32 >> 7)
                        & 0x01);
                    self.audio_sample_rate = aac_rate_of_index(rate_index);
                }
            },
            Some(AudioCodec::Opus) => {
                self.audio_sample_rate = 48000;
            },
            Some(AudioCodec::Flac) => {
                if let Some((sr, _)) = codec::parse_flac_streaminfo(config.as_slice()) {
                    self.audio_sample_rate = sr;
                }
            },
            None => {},
        }
        self.audio_config = Some(config);
    }

    /// The queued video samples.
    pub fn video_samples(&self) -> (r: &[Sample])
        ensures
            r@ == self@.video_samples,
    {
        self.video_samples.as_slice()
    }

    /// The queued audio samples.
    pub fn audio_samples(&self) -> (r: &[Sample])
        ensures
            r@ == self@.audio_samples,
    {
        self.audio_samples.as_slice()
    }

    /// Whether `add_video_sample(_, dts, pts, _)` keeps its arithmetic in
    /// range.
    pub fn video_sample_in_range(&self, dts: u64, pts: u64) -> (r: bool)
        ensures
            r == cto_in_range(dts, pts, self@.video_fps_num),
    {
        let d: i128 = (pts as i64) as i128 - (dts as i64) as i128;
        let f: i128 = (self.video_fps_num as i64) as i128;
        if d < i64::MIN as i128 || d > i64::MAX as i128 {
            return false;
        }
        assert(-0x4000_0000_0000_0000_0000_0000_0000_0000int <= d * f <= 0x4000_0000_0000_0000_0000_0000_0000_0000int)
            by (nonlinear_arith)
            requires
                i64::MIN <= d <= i64::MAX,
                i64::MIN <= f <= i64::MAX,
        ;
        let x: i128 = d * f;
        if x < i64::MIN as i128 || x > i64::MAX as i128 {
            return false;
        }
        let a: i128 = if d >= 0 {
            x + 500
        } else {
            x - 500
        };
        i64::MIN as i128 <= a && a <= i64::MAX as i128
    }

    /// Queues a video sample. The first sample of a fragment sets the
    /// fragment's base decode time; the composition offset is converted
    /// from milliseconds to the video timescale.
    pub fn add_video_sample(&mut self, data: Cow<'_, [u8]>, dts: u64, pts: u64, is_keyframe: bool)
        requires
            cto_in_range(dts, pts, old(self)@.video_fps_num),
        ensures
            final(self)@.video_samples.len() == old(self)@.video_samples.len() + 1,
            final(self)@.video_samples.drop_last() == old(self)@.video_samples,
            new_sample(
                data@,
                final(self)@.video_samples.last(),
                dts,
                if is_keyframe {
                    0x02000000
                } else {
                    0x01010000
                },
                spec_cto(dts, pts, old(self)@.video_fps_num),
            ),
            final(self)@ == (MuxerView {
                video_samples: final(self)@.video_samples,
                video_base_dts: if old(self)@.video_samples.len() == 0 {
                    dts
                } else {
                    old(self)@.video_base_dts
                },
                ..old(self)@
            }),
    {
        if self.video_samples.len() == 0 {
            self.video_base_dts = dts;
        }
        let bytes = cow_into_vec(data);
        let size = bytes.len() as u32;
        let flags: u32 = if is_keyframe {
            0x02000000
        } else {
            0x01010000
        };
        let d: i128 = (pts as i64) as i128 - (dts as i64) as i128;
        let f: i128 = (self.video_fps_num as i64) as i128;
        let x: i128 = d * f;
        let a: i128 = if d >= 0 {
            x + 500
        } else {
            x - 500
        };
        let q: i128 = if a >= 0 {
            ((a as u128) / 1000) as i128
        } else {
            -((((-a) as u128) / 1000) as i128)
        };
        let cto = q as i32;
        self.video_samples.push(
            Sample { data: bytes, dts, size, duration: 0, flags, composition_time_offset: cto },
        );
        assert(self@.video_samples.drop_last() =~= old(self)@.video_samples);
    }

    /// Queues an audio sample; empty payloads are dropped. With a known
    /// codec the decode time is the running total of frame durations in the
    /// audio timescale; otherwise it is the given timestamp.
    pub fn add_audio_sample(&mut self, data: Cow<'_, [u8]>, pts: u64)
        ensures
            audio_sample_added(old(self)@, final(self)@, data@, pts),
    {
        let bytes = cow_into_vec(data);
        if bytes.len() == 0 {
            return;
        }
        let dts = if self.audio_codec.is_some() {
            self.audio_next_dts
        } else {
            pts
        };
        if self.audio_samples.len() == 0 {
            self.audio_base_dts = dts;
        }
        let size = bytes.len() as u32;
        self.audio_samples.push(
            Sample { data: bytes, dts, size, duration: 0, flags: 0, composition_time_offset: 0 },
        );
        assert(self@.audio_samples.drop_last() =~= old(self)@.audio_samples);
        if self.audio_codec.is_some() {
            let ticks = self.audio_frame_duration_ticks();
            self.audio_next_dts = self.audio_next_dts.saturating_add(ticks as u64);
        }
    }

    /// Whether the queued video decode times never go back and each gap
    /// scales to the timescale within 64 bits.
    pub fn video_gaps_are_in_range(&self) -> (r: bool)
        ensures
            r == video_gaps_in_range(self@),
    {
        let s = self.video_samples.as_slice();
        let n = s.len();
        if n < 2 {
            return true;
        }
        let mut i: usize = 0;
        while i + 1 < n
            invariant
                n == s@.len() == self@.video_samples.len(),
                s@ == self@.video_samples,
                i + 1 <= n,
                forall|k: int|
                    0 <= k < i ==> {
                        &&& #[trigger] s@[k].dts <= s@[k + 1].dts
                        &&& (s@[k + 1].dts - s@[k].dts) * self@.video_fps_num + 500 <= u64::MAX
                    },
            decreases n - i,
        {
            if s[i].dts > s[i + 1].dts {
                return false;
            }
            let gap = s[i + 1].dts - s[i].dts;
            if mul_wide(gap, self.video_fps_num) + 500 > u64::MAX as u128 {
                return false;
            }
            i += 1;
        }
        true
    }

    /// Whether the average spacing of queued audio can be computed
    /// (`audio_average_in_range`).
    pub fn audio_average_is_in_range(&self) -> (r: bool)
        ensures
            r == audio_average_in_range(self@),
    {
        let s = self.audio_samples.as_slice();
        let n = s.len();
        if self.audio_codec.is_some() || n <= 1 {
            return true;
        }
        if s[0].dts > s[n - 1].dts {
            return false;
        }
        let total = s[n - 1].dts - s[0].dts;
        let cnt = (n - 1) as u128;
        if cnt * 1000 > u64::MAX as u128 {
            return false;
        }
        mul_wide(total, self.audio_sample_rate as u64) + (cnt * 1000) / 2 <= u64::MAX as u128
    }

    /// Whether `last_video_sample_duration` can run.
    pub fn last_video_duration_is_in_range(&self) -> (r: bool)
        ensures
            r == (self@.video_fps_num > 0 && self@.video_fps_den > 0 ==> self@.video_fps_den
                * 1000 + self@.video_fps_num / 2 <= u64::MAX),
    {
        if self.video_fps_num > 0 && self.video_fps_den > 0 {
            (self.video_fps_den as u128) * 1000 + (self.video_fps_num / 2) as u128 <= u64::MAX as u128
        } else {
            true
        }
    }

    /// Nominal duration in milliseconds of one video frame at the declared
    /// frame rate, rounded; 33 when the frame rate is unset.
    pub fn last_video_sample_duration(&self) -> (r: u64)
        requires
            self@.video_fps_num > 0 && self@.video_fps_den > 0 ==> self@.video_fps_den * 1000
                + self@.video_fps_num / 2 <= u64::MAX,
        ensures
            r == (if self@.video_fps_num > 0 && self@.video_fps_den > 0 {
                (self@.video_fps_den * 1000 + self@.video_fps_num / 2) / (self@.video_fps_num as int)
            } else {
                33
            }),
    {
        if self.video_fps_num > 0 && self.video_fps_den > 0 {
            (self.video_fps_den * 1000 + self.video_fps_num / 2) / self.video_fps_num
        } else {
            33
        }
    }

    /// Duration in milliseconds of one audio frame, rounded; 21 when the
    /// sample rate is 0.
    pub fn last_audio_sample_duration(&self) -> (r: u64)
        requires
            audio_average_in_range(self@),
        ensures
            r == (if self@.audio_sample_rate > 0 {
                (frame_ticks(self@) * 1000 + self@.audio_sample_rate / 2) / (
                self@.audio_sample_rate as int)
            } else {
                21
            }),
    {
        let ticks = self.audio_frame_duration_ticks() as u64;
        let rate = self.audio_sample_rate as u64;
        match (ticks * 1000 + rate / 2).checked_div(rate) {
            Some(v) => v,
            None => 21,
        }
    }

    fn audio_frame_duration_ticks(&self) -> (r: u32)
        requires
            audio_average_in_range(self@),
        ensures
            r == frame_ticks(self@),
    {
        match self.audio_codec {
            Some(AudioCodec::Aac) => 1024,
            Some(AudioCodec::Opus) => 960,
            Some(AudioCodec::Flac) => 4096,
            None => {
                let n = self.audio_samples.len();
                if n > 1 {
                    let total = self.audio_samples[n - 1].dts - self.audio_samples[0].dts;
                    let cnt = n as u64 - 1;
                    ((total * self.audio_sample_rate as u64 + (cnt * 1000) / 2) / (cnt * 1000))
                        as u32
                } else {
                    1024
                }
            },
        }
    }

    /// Assigns every queued sample its duration in its track's timescale.
    pub fn compute_and_set_durations(&mut self)
        requires
            video_gaps_in_range(old(self)@),
            audio_average_in_range(old(self)@),
        ensures
            final(self)@ == durations_set(old(self)@),
    {
        let ghost m = self@;
        let n = self.video_samples.len();
        let mut i: usize = 0;
        while i < n
            invariant
                n == m.video_samples.len(),
                i <= n,
                video_gaps_in_range(m),
                self@ == (MuxerView { video_samples: self@.video_samples, ..m }),
                self@.video_samples.len() == n,
                forall|k: int|
                    0 <= k < i ==> self@.video_samples[k] == with_duration(
                        m.video_samples[k],
                        video_duration(m, k),
                    ),
                forall|k: int| i <= k < n ==> self@.video_samples[k] == m.video_samples[k],
            decreases n - i,
        {
            let dur: u32 = if i + 1 < n {
                assert(m.video_samples[i as int].dts <= m.video_samples[i + 1].dts);
                let delta = self.video_samples[i + 1].dts - self.video_samples[i].dts;
                let v = ((delta * self.video_fps_num + 500) / 1000) as u32;
                if v >= 1 {
                    v
                } else {
                    1
                }
            } else {
                self.video_fps_den as u32
            };
            self.video_samples[i].duration = dur;
            i += 1;
        }
        assert(self@.video_samples =~= durations_set(m).video_samples);
        let ticks = if self.audio_samples.len() > 0 {
            self.audio_frame_duration_ticks()
        } else {
            0
        };
        let na = self.audio_samples.len();
        let mut j: usize = 0;
        while j < na
            invariant
                na == m.audio_samples.len(),
                j <= na,
                na > 0 ==> ticks == frame_ticks(m),
                self@ == (MuxerView {
                    video_samples: durations_set(m).video_samples,
                    audio_samples: self@.audio_samples,
                    ..m
                }),
                self@.audio_samples.len() == na,
                forall|k: int|
                    0 <= k < j ==> self@.audio_samples[k] == with_duration(
                        m.audio_samples[k],
                        frame_ticks(m),
                    ),
                forall|k: int| j <= k < na ==> self@.audio_samples[k] == m.audio_samples[k],
            decreases na - j,
        {
            self.audio_samples[j].duration = ticks;
            j += 1;
        }
        assert(self@.audio_samples =~= durations_set(m).audio_samples);
    }

    /// Sets the video sample durations one for one, when `durations` has
    /// one entry per queued video sample.
    pub fn set_video_durations(&mut self, durations: Vec<u32>)
        ensures
            final(self)@ == (MuxerView {
                video_samples: durations_given(old(self)@.video_samples, durations@),
                ..old(self)@
            }),
    {
        let ghost m = self@;
        if durations.len() != self.video_samples.len() {
            return;
        }
        let n = durations.len();
        let mut i: usize = 0;
        while i < n
            invariant
                n == durations@.len(),
                n == m.video_samples.len(),
                i <= n,
                self@ == (MuxerView { video_samples: self@.video_samples, ..m }),
                self@.video_samples.len() == n,
                forall|k: int|
                    0 <= k < i ==> self@.video_samples[k] == with_duration(
                        m.video_samples[k],
                        durations@[k],
                    ),
                forall|k: int| i <= k < n ==> self@.video_samples[k] == m.video_samples[k],
            decreases n - i,
        {
            self.video_samples[i].duration = durations[i];
            i += 1;
        }
        assert(self@.video_samples =~= durations_given(m.video_samples, durations@));
    }

    /// Sets the audio sample durations one for one, when `durations` has
    /// one entry per queued audio sample.
    pub fn set_audio_durations(&mut self, durations: Vec<u32>)
        ensures
            final(self)@ == (MuxerView {
                audio_samples: durations_given(old(self)@.audio_samples, durations@),
                ..old(self)@
            }),
    {
        let ghost m = self@;
        if durations.len() != self.audio_samples.len() {
            return;
        }
        let n = durations.len();
        let mut i: usize = 0;
        while i < n
            invariant
                n == durations@.len(),
                n == m.audio_samples.len(),
                i <= n,
                self@ == (MuxerView { audio_samples: self@.audio_samples, ..m }),
                self@.audio_samples.len() == n,
                forall|k: int|
                    0 <= k < i ==> self@.audio_samples[k] == with_duration(
                        m.audio_samples[k],
                        durations@[k],
                    ),
                forall|k: int| i <= k < n ==> self@.audio_samples[k] == m.audio_samples[k],
            decreases n - i,
        {
            self.audio_samples[i].duration = durations[i];
            i += 1;
        }
        assert(self@.audio_samples =~= durations_given(m.audio_samples, durations@));
    }
}

} // verus!
