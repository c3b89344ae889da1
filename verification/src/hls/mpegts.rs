//! MPEG-TS muxer: PAT/PMT sections and PES packets split into 188-byte
//! transport packets.
use crate::util::{be32, push_bytes, push_u32_be, push_zeros, zeros};
use vstd::prelude::*;

verus! {

pub const TS_PACKET_SIZE: usize = 188;

pub const SYNC_BYTE: u8 = 0x47;

pub const PAT_PID: u16 = 0x0000;

pub const PMT_PID: u16 = 0x1000;

pub const VIDEO_PID: u16 = 0x0100;

pub const AUDIO_PID: u16 = 0x0101;

pub const PROGRAM_NUMBER: u16 = 0x0001;

#[derive(Clone, Copy, PartialEq, Eq, Debug, Structural)]
pub enum StreamType {
    H264,
    H265,
    AV1,
    AAC,
}

/// The PMT stream_type value of a stream type.
pub open spec fn spec_stream_type_id(t: StreamType) -> u8 {
    match t {
        StreamType::H264 => 0x1B,
        StreamType::H265 => 0x24,
        StreamType::AV1 => 0x06,
        StreamType::AAC => 0x0F,
    }
}

impl StreamType {
    /// The stream_type byte written in the PMT.
    pub fn stream_type_id(&self) -> (r: u8)
        ensures
            r == spec_stream_type_id(*self),
    {
        match self {
            StreamType::H264 => 0x1B,
            StreamType::H265 => 0x24,
            StreamType::AV1 => 0x06,
            StreamType::AAC => 0x0F,
        }
    }

    pub fn is_video(&self) -> (r: bool)
        ensures
            r == (*self != StreamType::AAC),
    {
        match self {
            StreamType::H264 | StreamType::H265 | StreamType::AV1 => true,
            _ => false,
        }
    }

    /// Whether the PMT entry carries a registration descriptor (AV1 only).
    pub fn needs_registration_descriptor(&self) -> (r: bool)
        ensures
            r == (*self == StreamType::AV1),
    {
        match self {
            StreamType::AV1 => true,
            _ => false,
        }
    }

    /// The registration descriptor's format identifier: "av01" for AV1.
    pub fn registration_fourcc(&self) -> (r: Option<&'static [u8; 4]>)
        ensures
            *self == StreamType::AV1 ==> (r matches Some(f) && f@ == seq![0x61u8, 0x76u8, 0x30u8, 0x31u8]),
            *self != StreamType::AV1 ==> r is None,
    {
        match self {
            StreamType::AV1 => Some(&[0x61, 0x76, 0x30, 0x31]),
            _ => None,
        }
    }
}

// ── CRC ──────────────────────────────────────────────────────────

/// One bit step of the reflected CRC-32 (polynomial 0xEDB88320).
pub open spec fn crc_step(c: u32) -> u32 {
    if c & 1u32 != 0 {
        ((c >> 1u32) ^ 0xEDB88320u32) as u32
    } else {
        (c >> 1u32) as u32
    }
}

/// `n` bit steps.
pub open spec fn crc_steps(c: u32, n: nat) -> u32
    decreases n,
{
    if n == 0 {
        c
    } else {
        crc_steps(crc_step(c), (n - 1) as nat)
    }
}

/// The CRC register after the bytes of `d`.
pub open spec fn crc_update(c: u32, d: Seq<u8>) -> u32
    decreases d.len(),
{
    if d.len() == 0 {
        c
    } else {
        crc_steps(crc_update(c, d.drop_last()) ^ (d.last() as u32), 8)
    }
}

/// CRC-32 (reflected, initial value and final xor 0xFFFFFFFF).
pub open spec fn spec_crc32(d: Seq<u8>) -> u32 {
    !crc_update(0xFFFFFFFFu32, d)
}

fn crc32(data: &[u8]) -> (r: u32)
    ensures
        r == spec_crc32(data@),
{
    let mut crc: u32 = 0xFFFFFFFF;
    let mut i: usize = 0;
    while i < data.len()
        invariant
            i <= data@.len(),
            crc == crc_update(0xFFFFFFFFu32, data@.subrange(0, i as int)),
        decreases data.len() - i,
    {
        let ghost start = crc ^ (data[i as int] as u32);
        crc = crc ^ data[i] as u32;
        let mut k: u32 = 0;
        while k < 8
            invariant
                k <= 8,
                crc_steps(start, 8) == crc_steps(crc, (8 - k) as nat),
            decreases 8 - k,
        {
            if crc & 1 != 0 {
                crc = (crc >> 1) ^ 0xEDB88320;
            } else {
                crc = crc >> 1;
            }
            k += 1;
        }
        assert(data@.subrange(0, i + 1).drop_last() =~= data@.subrange(0, i as int));
        i += 1;
    }
    assert(data@.subrange(0, data@.len() as int) =~= data@);
    !crc
}

// ── PSI ──────────────────────────────────────────────────────────

/// A PSI section: table id, section syntax and length (data plus CRC),
/// the data, then its CRC-32.
pub open spec fn psi_section(table_id: u8, d: Seq<u8>) -> Seq<u8> {
    let len = (d.len() + 4) as u16;
    let head = seq![table_id, (0xB0u8 | (((len >> 8u16) as u8) & 0x0Fu8)) as u8, (len & 0xFFu16) as u8]
        + d;
    head + be32(spec_crc32(head))
}

/// PAT: transport stream 1, version 0, program 1 on the PMT PID.
pub open spec fn pat_section_data() -> Seq<u8> {
    seq![0x00u8, 0x01u8, 0xC1u8, 0x00u8, 0x00u8, 0x00u8, 0x01u8, 0xF0u8, 0x00u8]
}

/// One PMT elementary stream entry: type, PID, ES info.
pub open spec fn pmt_entry(t: StreamType, pid_hi: u8, pid_lo: u8) -> Seq<u8> {
    seq![spec_stream_type_id(t), pid_hi, pid_lo] + if t == StreamType::AV1 {
        seq![0xF0u8, 6u8, 0x05u8, 4u8] + seq![0x61u8, 0x76u8, 0x30u8, 0x31u8]
    } else {
        seq![0xF0u8, 0x00u8]
    }
}

/// PMT: program 1, PCR on the video PID, then the video and audio entries
/// that are configured.
pub open spec fn pmt_section_data(video: Option<StreamType>, audio: Option<StreamType>) -> Seq<u8> {
    seq![0x00u8, 0x01u8, 0xC1u8, 0x00u8, 0x00u8, 0xE1u8, 0x00u8, 0xF0u8, 0x00u8] + (match video {
        Some(t) => pmt_entry(t, 0xE1, 0x00),
        None => Seq::empty(),
    }) + (match audio {
        Some(t) => seq![spec_stream_type_id(t), 0xE1u8, 0x01u8, 0xF0u8, 0x00u8],
        None => Seq::empty(),
    })
}

/// A section split into transport packets: the first carries an
/// adaptation field of one flag byte and a zero pointer field (181 bytes
/// of section), the rest 184 bytes each; unused bytes are 0.
pub open spec fn psi_packets(d: Seq<u8>, pid: u16, off: int) -> Seq<Seq<u8>>
    decreases d.len() - off,
{
    if off >= d.len() || off < 0 {
        Seq::empty()
    } else {
        let first = off == 0;
        let hdr = if first {
            seq![0x47u8, (0x40u8 | ((pid >> 8u16) as u8)) as u8, (pid & 0xFFu16) as u8, 0x3Fu8, 1u8, 0u8, 0u8]
        } else {
            seq![0x47u8, ((pid >> 8u16) as u8), (pid & 0xFFu16) as u8, 0x1Fu8]
        };
        let cap = 188 - hdr.len();
        let end = if off + cap <= d.len() {
            off + cap
        } else {
            d.len() as int
        };
        seq![pad188(hdr + d.subrange(off, end))] + psi_packets(d, pid, end)
    }
}

/// A packet filled up to 188 bytes with zeros.
pub open spec fn pad188(p: Seq<u8>) -> Seq<u8> {
    p + zeros((188 - p.len()) as nat)
}

/// The PAT as transport packets.
pub open spec fn spec_pat() -> Seq<u8> {
    flatten_packets(psi_packets(psi_section(0x00, pat_section_data()), 0x0000, 0))
}

/// The PMT as transport packets.
pub open spec fn spec_pmt(video: Option<StreamType>, audio: Option<StreamType>) -> Seq<u8> {
    flatten_packets(psi_packets(psi_section(0x02, pmt_section_data(video, audio)), 0x1000, 0))
}

pub open spec fn flatten_packets(p: Seq<Seq<u8>>) -> Seq<u8>
    decreases p.len(),
{
    if p.len() == 0 {
        Seq::empty()
    } else {
        flatten_packets(p.drop_last()) + p.last()
    }
}

// ── PES ──────────────────────────────────────────────────────────

/// The 5-byte PTS field with marker bits ('0010' prefix).
pub open spec fn pts_field(pts: u64) -> Seq<u8> {
    seq![
        (0x21u8 | ((((pts >> 30u64) & 0x07u64) as u8) << 1u8)) as u8,
        ((pts >> 22u64) & 0xFFu64) as u8,
        (0x80u8 | (((pts >> 15u64) & 0x7Fu64) as u8)) as u8,
        ((pts >> 7u64) & 0xFFu64) as u8,
        (0x80u8 | ((pts & 0x7Fu64) as u8)) as u8,
    ]
}

/// A PES header with unspecified packet length and a PTS only.
pub open spec fn pes_header(pts: u64, stream_id: u8) -> Seq<u8> {
    seq![0x00u8, 0x00u8, 0x01u8, stream_id, 0x00u8, 0x00u8, 0x80u8, 0x80u8, 5u8] + pts_field(pts)
}

/// The adaptation field of a video PES's first packet: 12 bytes with the
/// PCR (extension 0) and stuffing.
pub open spec fn pcr_adaptation(dts: u64) -> Seq<u8> {
    seq![
        12u8,
        0x10u8,
        ((dts >> 25u64) & 0xFFu64) as u8,
        ((dts >> 17u64) & 0xFFu64) as u8,
        ((dts >> 9u64) & 0xFFu64) as u8,
        ((dts >> 1u64) & 0xFFu64) as u8,
        (((dts << 7u64) as u8) | 0x7Eu8) as u8,
        0u8,
        0xFFu8,
        0xFFu8,
        0xFFu8,
        0xFFu8,
        0xFFu8,
    ]
}

/// The packets of a PES on a PID: the first with adaptation field `adapt`
/// and payload unit start, then continuation packets; the continuity
/// counter advances by one per packet, modulo 16.
pub open spec fn pes_packets(
    full: Seq<u8>,
    pid_hi: u8,
    pid_lo: u8,
    adapt: Seq<u8>,
    cc: u8,
    off: int,
) -> Seq<Seq<u8>>
    decreases full.len() - off,
{
    if off >= full.len() || off < 0 || 4 + adapt.len() >= 188 {
        Seq::empty()
    } else {
        let hdr = if off == 0 {
            seq![0x47u8, (0x40u8 | pid_hi) as u8, pid_lo, (0x70u8 | (cc & 0x0Fu8)) as u8] + adapt
        } else {
            seq![0x47u8, pid_hi, pid_lo, (0x50u8 | (cc & 0x0Fu8)) as u8]
        };
        let cap = 188 - hdr.len();
        let end = if off + cap <= full.len() {
            off + cap
        } else {
            full.len() as int
        };
        seq![pad188(hdr + full.subrange(off, end))] + pes_packets(
            full,
            pid_hi,
            pid_lo,
            adapt,
            ((cc + 1) % 16) as u8,
            end,
        )
    }
}

/// The NAL units of an FLV AVC sequence header (0x17 0x00 ...) with
/// 4-byte start codes, read from `off`: each 4-byte length and the unit
/// when it fits.
pub open spec fn avc_seq_nals(d: Seq<u8>, off: int) -> Seq<u8>
    decreases d.len() - off,
{
    if off + 4 < d.len() && off >= 0 {
        let n = crate::util::be_u32_at(d, off) as int;
        let o = off + 4;
        if o + n <= d.len() {
            seq![0u8, 0u8, 0u8, 1u8] + d.subrange(o, o + n) + avc_seq_nals(d, o + n)
        } else {
            avc_seq_nals(d, o)
        }
    } else {
        Seq::empty()
    }
}

/// The PES payload of a video frame: for H.264 sequence headers the
/// parameter sets as start-code NAL units, else the data as given.
pub open spec fn video_pes_payload(codec: Option<StreamType>, d: Seq<u8>) -> Seq<u8> {
    if codec == Some(StreamType::H264) && d.len() > 2 && d[0] == 0x17 && d[1] == 0x00 {
        avc_seq_nals(d, 5 + 2 * (((d[2] & 0x03u8) as int) + 1))
    } else {
        d
    }
}

pub open spec fn packets_view(r: Seq<Vec<u8>>) -> Seq<Seq<u8>> {
    Seq::new(r.len(), |i: int| r[i]@)
}

pub struct MpegTsMuxer {
    video_codec: Option<StreamType>,
    audio_codec: Option<StreamType>,
    video_cc: u8,
    audio_cc: u8,
    has_sent_initial: bool,
    pcr_base: u64,
}

pub struct MpegTsView {
    pub video_codec: Option<StreamType>,
    pub audio_codec: Option<StreamType>,
    pub video_cc: u8,
    pub audio_cc: u8,
    pub has_sent_initial: bool,
    pub pcr_base: u64,
}

impl View for MpegTsMuxer {
    type V = MpegTsView;

    closed spec fn view(&self) -> MpegTsView {
        MpegTsView {
            video_codec: self.video_codec,
            audio_codec: self.audio_codec,
            video_cc: self.video_cc,
            audio_cc: self.audio_cc,
            has_sent_initial: self.has_sent_initial,
            pcr_base: self.pcr_base,
        }
    }
}

impl MpegTsMuxer {
    #[verifier::type_invariant]
    closed spec fn counters_in_range(&self) -> bool {
        self.video_cc < 16 && self.audio_cc < 16
    }

    pub fn new() -> (r: Self)
        ensures
            r@ == (MpegTsView {
                video_codec: None,
                audio_codec: None,
                video_cc: 0,
                audio_cc: 0,
                has_sent_initial: false,
                pcr_base: 0,
            }),
    {
        MpegTsMuxer {
            video_codec: None,
            audio_codec: None,
            video_cc: 0,
            audio_cc: 0,
            has_sent_initial: false,
            pcr_base: 0,
        }
    }

    pub fn set_video_codec(&mut self, codec: StreamType)
        ensures
            final(self)@ == (MpegTsView { video_codec: Some(codec), ..old(self)@ }),
    {
        proof {
            use_type_invariant(&*self);
        }
        self.video_codec = Some(codec);
    }

    pub fn set_audio_codec(&mut self, codec: StreamType)
        ensures
            final(self)@ == (MpegTsView { audio_codec: Some(codec), ..old(self)@ }),
    {
        proof {
            use_type_invariant(&*self);
        }
        self.audio_codec = Some(codec);
    }

    /// The PAT and the PMT, each as transport packets.
    pub fn initial_packets(&mut self) -> (r: Vec<Vec<u8>>)
        ensures
            final(self)@ == (MpegTsView { has_sent_initial: true, ..old(self)@ }),
            r@.len() == 2,
            r@[0]@ == spec_pat(),
            r@[1]@ == spec_pmt(old(self)@.video_codec, old(self)@.audio_codec),
    {
        proof {
            use_type_invariant(&*self);
        }
        self.has_sent_initial = true;
        let pat = self.create_pat();
        let pmt = self.create_pmt();
        let mut r: Vec<Vec<u8>> = Vec::new();
        r.push(pat);
        r.push(pmt);
        r
    }

    /// The PAT as transport packets.
    pub fn create_pat(&self) -> (r: Vec<u8>)
        ensures
            r@ == spec_pat(),
    {
        proof {
            lemma_pid_bytes();
        }
        let mut data: Vec<u8> = Vec::new();
        data.push(0x00);
        data.push(0x01);
        data.push(0xC1);
        data.push(0x00);
        data.push(0x00);
        data.push((PROGRAM_NUMBER >> 8) as u8);
        data.push(PROGRAM_NUMBER as u8);
        data.push(0xE0 | ((PMT_PID >> 8) as u8));
        data.push((PMT_PID & 0xFF) as u8);
        assert(data@ =~= pat_section_data());
        let psi = make_section(0x00, data.as_slice());
        packetize_psi(psi.as_slice(), PAT_PID)
    }

    /// The PMT as transport packets.
    pub fn create_pmt(&self) -> (r: Vec<u8>)
        ensures
            r@ == spec_pmt(self@.video_codec, self@.audio_codec),
    {
        proof {
            lemma_pid_bytes();
        }
        let mut data: Vec<u8> = Vec::new();
        data.push((PROGRAM_NUMBER >> 8) as u8);
        data.push(PROGRAM_NUMBER as u8);
        data.push(0xC1);
        data.push(0x00);
        data.push(0x00);
        data.push(0xE0 | ((VIDEO_PID >> 8) as u8));
        data.push((VIDEO_PID & 0xFF) as u8);
        data.push(0xF0);
        data.push(0x00);
        let ghost a = data@;
        match self.video_codec {
            Some(codec) => {
                data.push(codec.stream_type_id());
                data.push(0xE0 | ((VIDEO_PID >> 8) as u8));
                data.push((VIDEO_PID & 0xFF) as u8);
                if codec.needs_registration_descriptor() {
                    match codec.registration_fourcc() {
                        Some(fcc) => {
                            data.push(0xF0);
                            data.push(6);
                            data.push(0x05);
                            data.push(4);
                            data.push(fcc[0]);
                            data.push(fcc[1]);
                            data.push(fcc[2]);
                            data.push(fcc[3]);
                        },
                        None => {},
                    }
                } else {
                    data.push(0xF0);
                    data.push(0x00);
                }
            },
            None => {},
        }
        assert(data@ =~= a + match self@.video_codec {
            Some(t) => pmt_entry(t, 0xE1, 0x00),
            None => Seq::empty(),
        });
        let ghost b = data@;
        match self.audio_codec {
            Some(codec) => {
                data.push(codec.stream_type_id());
                data.push(0xE0 | ((AUDIO_PID >> 8) as u8));
                data.push((AUDIO_PID & 0xFF) as u8);
                data.push(0xF0);
                data.push(0x00);
            },
            None => {},
        }
        assert(data@ =~= pmt_section_data(self@.video_codec, self@.audio_codec));
        let psi = make_section(0x02, data.as_slice());
        packetize_psi(psi.as_slice(), PMT_PID)
    }

    /// Packetizes one video access unit on the video PID, with the PCR in
    /// the first packet.
    pub fn add_video_nal(&mut self, data: &[u8], dts: u64, pts: u64) -> (r: Vec<Vec<u8>>)
        requires
            dts * 300 <= u64::MAX,
            (video_pes_payload(old(self)@.video_codec, data@).len() as u32) + 8 <= u32::MAX,
        ensures
            ({
                let sid: u8 = if old(self)@.video_codec == Some(StreamType::AV1) {
                    0x06
                } else {
                    0xE0
                };
                let full = pes_header(pts, sid) + video_pes_payload(old(self)@.video_codec, data@);
                let p = pes_packets(full, 0x01, 0x00, pcr_adaptation(dts), old(self)@.video_cc, 0);
                &&& packets_view(r@) == p
                &&& final(self)@ == (MpegTsView {
                    pcr_base: dts,
                    video_cc: ((old(self)@.video_cc + p.len()) % 16) as u8,
                    ..old(self)@
                })
            }),
    {
        proof {
            use_type_invariant(&*self);
        }
        self.pcr_base = dts;
        let pes_stream_id: u8 = match self.video_codec {
            Some(StreamType::AV1) => 0x06,
            _ => 0xE0,
        };
        let mut pes_data: Vec<u8> = Vec::new();
        let is_h264 = match self.video_codec {
            Some(StreamType::H264) => true,
            _ => false,
        };
        if is_h264 && data.len() > 2 && data[0] == 0x17 && data[1] == 0x00 {
            let avcc_len = ((data[2] as usize) & 0x03) + 1;
            append_avc_seq_nals(&mut pes_data, data, 2 + 3 + avcc_len * 2);
        } else {
            push_bytes(&mut pes_data, data);
        }
        assert(pes_data@ =~= video_pes_payload(self@.video_codec, data@));
        let _data_len: u32 = pes_data.len() as u32 + 8;
        let mut full: Vec<u8> = Vec::new();
        push_pes_header(&mut full, pts, pes_stream_id);
        push_bytes(&mut full, pes_data.as_slice());
        let pcr = dts * 300;
        let pcr_base_val = pcr / 300;
        let pcr_ext = (pcr % 300) as u8;
        let mut adapt: Vec<u8> = Vec::new();
        adapt.push(12);
        adapt.push(0x10);
        adapt.push(((pcr_base_val >> 25) & 0xFF) as u8);
        adapt.push(((pcr_base_val >> 17) & 0xFF) as u8);
        adapt.push(((pcr_base_val >> 9) & 0xFF) as u8);
        adapt.push(((pcr_base_val >> 1) & 0xFF) as u8);
        assert(pcr_ext == 0);
        adapt.push(((pcr_base_val << 7) as u8) | 0x7E | ((((pcr_ext as u16) >> 8) & 0x01) as u8));
        adapt.push(pcr_ext & 0xFF);
        push_stuffing(&mut adapt, 5);
        proof {
            assert(pcr_base_val == dts);
            assert((pcr_ext as u16) >> 8u16 == 0) by (bit_vector)
                requires
                    pcr_ext == 0,
            ;
            assert(((pcr_base_val << 7) as u8) | 0x7E | ((((pcr_ext as u16) >> 8) & 0x01) as u8)
                == (((dts << 7u64) as u8) | 0x7Eu8) as u8) by (bit_vector)
                requires
                    pcr_base_val == dts,
                    pcr_ext == 0,
            ;
            assert(pcr_ext & 0xFF == 0) by (bit_vector)
                requires
                    pcr_ext == 0,
            ;
        }
        assert(adapt@ =~= pcr_adaptation(dts));
        let cc = self.video_cc;
        let (packets, next_cc) = packetize_pes(full.as_slice(), 0x01, 0x00, adapt.as_slice(), cc);
        self.video_cc = next_cc;
        packets
    }

    /// Packetizes one AAC frame on the audio PID (PES PTS only).
    pub fn add_audio_aac(&mut self, data: &[u8], pts: u64) -> (r: Vec<Vec<u8>>)
        requires
            (data@.len() as u32) + 8 <= u32::MAX,
        ensures
            ({
                let full = pes_header(pts, 0xC0) + data@;
                let p = pes_packets(full, 0x01, 0x01, seq![1u8, 0u8], old(self)@.audio_cc, 0);
                &&& packets_view(r@) == p
                &&& final(self)@ == (MpegTsView {
                    audio_cc: ((old(self)@.audio_cc + p.len()) % 16) as u8,
                    ..old(self)@
                })
            }),
    {
        proof {
            use_type_invariant(&*self);
        }
        let _data_len: u32 = data.len() as u32 + 8;
        let mut full: Vec<u8> = Vec::new();
        push_pes_header(&mut full, pts, 0xC0);
        push_bytes(&mut full, data);
        let mut adapt: Vec<u8> = Vec::new();
        adapt.push(1);
        adapt.push(0x00);
        assert(adapt@ =~= seq![1u8, 0u8]);
        let cc = self.audio_cc;
        let (packets, next_cc) = packetize_pes(full.as_slice(), 0x01, 0x01, adapt.as_slice(), cc);
        self.audio_cc = next_cc;
        packets
    }
}

proof fn lemma_pid_bytes()
    ensures
        (PROGRAM_NUMBER >> 8) as u8 == 0x00,
        PROGRAM_NUMBER as u8 == 0x01,
        0xE0u8 | ((PMT_PID >> 8) as u8) == 0xF0,
        (PMT_PID & 0xFF) as u8 == 0x00,
        0xE0u8 | ((VIDEO_PID >> 8) as u8) == 0xE1,
        (VIDEO_PID & 0xFF) as u8 == 0x00,
        0xE0u8 | ((AUDIO_PID >> 8) as u8) == 0xE1,
        (AUDIO_PID & 0xFF) as u8 == 0x01,
{
    assert((0x0001u16 >> 8u16) as u8 == 0x00u8) by (bit_vector);
    assert(0x0001u16 as u8 == 0x01u8) by (bit_vector);
    assert(0xE0u8 | ((0x1000u16 >> 8u16) as u8) == 0xF0u8) by (bit_vector);
    assert((0x1000u16 & 0xFFu16) as u8 == 0x00u8) by (bit_vector);
    assert(0xE0u8 | ((0x0100u16 >> 8u16) as u8) == 0xE1u8) by (bit_vector);
    assert((0x0100u16 & 0xFFu16) as u8 == 0x00u8) by (bit_vector);
    assert(0xE0u8 | ((0x0101u16 >> 8u16) as u8) == 0xE1u8) by (bit_vector);
    assert((0x0101u16 & 0xFFu16) as u8 == 0x01u8) by (bit_vector);
}

fn push_stuffing(w: &mut Vec<u8>, n: usize)
    ensures
        final(w)@ == old(w)@ + Seq::new(n as nat, |i: int| 0xFFu8),
{
    let mut i: usize = 0;
    while i < n
        invariant
            i <= n,
            w@ == old(w)@ + Seq::new(i as nat, |k: int| 0xFFu8),
        decreases n - i,
    {
        w.push(0xFF);
        i += 1;
        assert(w@ =~= old(w)@ + Seq::new(i as nat, |k: int| 0xFFu8));
    }
}

fn append_avc_seq_nals(w: &mut Vec<u8>, data: &[u8], start: usize)
    ensures
        final(w)@ == old(w)@ + avc_seq_nals(data@, start as int),
{
    let mut nal_offset = start;
    while nal_offset < data.len() && data.len() - nal_offset > 4
        invariant
            old(w)@ + avc_seq_nals(data@, start as int) == w@ + avc_seq_nals(
                data@,
                nal_offset as int,
            ),
        decreases data.len() - nal_offset,
    {
        let nal_size = crate::util::read_u32(
            vstd::slice::slice_subrange(data, nal_offset, nal_offset + 4),
        ) as usize;
        proof {
            let sub = data@.subrange(nal_offset as int, nal_offset + 4);
            assert(sub[0] == data@[nal_offset as int] && sub[1] == data@[nal_offset + 1]
                && sub[2] == data@[nal_offset + 2] && sub[3] == data@[nal_offset + 3]);
        }
        nal_offset += 4;
        if nal_size <= data.len() - nal_offset {
            let ghost before = w@;
            push_bytes(w, &[0x00, 0x00, 0x00, 0x01]);
            push_bytes(w, vstd::slice::slice_subrange(data, nal_offset, nal_offset + nal_size));
            assert(w@ =~= before + (seq![0u8, 0u8, 0u8, 1u8] + data@.subrange(
                nal_offset as int,
                nal_offset + nal_size,
            )));
            nal_offset += nal_size;
        }
    }
}

fn push_pes_header(w: &mut Vec<u8>, pts: u64, stream_id: u8)
    ensures
        final(w)@ == old(w)@ + pes_header(pts, stream_id),
{
    w.push(0x00);
    w.push(0x00);
    w.push(0x01);
    w.push(stream_id);
    // PES_packet_length 0: unspecified, valid for video and split across
    // transport packets.
    w.push(0x00);
    w.push(0x00);
    w.push(0x80);
    w.push(0x80);
    w.push(5);
    let pts30 = ((pts >> 30) & 0x07) as u8;
    let pts22 = ((pts >> 22) & 0xFF) as u8;
    let pts15 = ((pts >> 15) & 0x7F) as u8;
    let pts7 = ((pts >> 7) & 0xFF) as u8;
    let pts0 = (pts & 0x7F) as u8;
    w.push(0x21 | (pts30 << 1));
    w.push(pts22);
    w.push(0x80 | pts15);
    w.push(pts7);
    w.push(0x80 | pts0);
    assert(w@ =~= old(w)@ + pes_header(pts, stream_id));
}

/// The table header, the data and the CRC of a PSI section.
fn make_section(table_id: u8, data: &[u8]) -> (r: Vec<u8>)
    requires
        data@.len() + 4 <= u16::MAX,
    ensures
        r@ == psi_section(table_id, data@),
{
    let section_length = (data.len() + 4) as u16;
    let mut psi: Vec<u8> = Vec::new();
    psi.push(table_id);
    psi.push(0xB0 | (((section_length >> 8) as u8) & 0x0F));
    psi.push((section_length & 0xFF) as u8);
    push_bytes(&mut psi, data);
    assert(psi@ =~= seq![
        table_id,
        (0xB0u8 | (((section_length >> 8u16) as u8) & 0x0Fu8)) as u8,
        (section_length & 0xFFu16) as u8,
    ] + data@);
    let crc = crc32(psi.as_slice());
    push_u32_be(&mut psi, crc);
    psi
}

/// Splits a PSI section into transport packets on `pid`.
fn packetize_psi(data: &[u8], pid: u16) -> (r: Vec<u8>)
    ensures
        r@ == flatten_packets(psi_packets(data@, pid, 0)),
{
    let mut result: Vec<u8> = Vec::new();
    let mut offset: usize = 0;
    while offset < data.len()
        invariant
            offset <= data@.len(),
            flatten_packets(psi_packets(data@, pid, 0)) == result@ + flatten_packets(
                psi_packets(data@, pid, offset as int),
            ),
        decreases data.len() - offset,
    {
        let mut packet: Vec<u8> = Vec::new();
        packet.push(SYNC_BYTE);
        if offset == 0 {
            packet.push(0x40 | ((pid >> 8) as u8));
            packet.push((pid & 0xFF) as u8);
            assert((3u8 << 4u8) | 0x0Fu8 == 0x3Fu8) by (bit_vector);
            packet.push((3u8 << 4) | 0x0F);
            packet.push(1);
            packet.push(0);
            packet.push(0);
        } else {
            packet.push((pid >> 8) as u8);
            packet.push((pid & 0xFF) as u8);
            assert((1u8 << 4u8) | 0x0Fu8 == 0x1Fu8) by (bit_vector);
            packet.push((1u8 << 4) | 0x0F);
        }
        let remaining = TS_PACKET_SIZE - packet.len();
        let chunk_size = if remaining < data.len() - offset {
            remaining
        } else {
            data.len() - offset
        };
        let ghost hdr = packet@;
        assert(hdr =~= (if offset == 0 {
            seq![0x47u8, (0x40u8 | ((pid >> 8u16) as u8)) as u8, (pid & 0xFFu16) as u8, 0x3Fu8, 1u8, 0u8, 0u8]
        } else {
            seq![0x47u8, ((pid >> 8u16) as u8), (pid & 0xFFu16) as u8, 0x1Fu8]
        }));
        push_bytes(&mut packet, vstd::slice::slice_subrange(data, offset, offset + chunk_size));
        let used = packet.len();
        push_zeros(&mut packet, TS_PACKET_SIZE - used);
        let ghost rest = psi_packets(data@, pid, offset + chunk_size);
        proof {
            assert(packet@ == pad188(hdr + data@.subrange(offset as int, offset + chunk_size)));
            assert(psi_packets(data@, pid, offset as int) == seq![packet@] + rest);
            lemma_flatten_cons(packet@, rest);
        }
        let ghost before = result@;
        push_bytes(&mut result, packet.as_slice());
        assert(before + flatten_packets(seq![packet@] + rest) =~= result@ + flatten_packets(rest));
        offset += chunk_size;
    }
    result
}

pub proof fn lemma_flatten_cons(p: Seq<u8>, rest: Seq<Seq<u8>>)
    ensures
        flatten_packets(seq![p] + rest) == p + flatten_packets(rest),
    decreases rest.len(),
{
    let s = seq![p] + rest;
    if rest.len() == 0 {
        assert(s =~= seq![p]);
        assert(s.drop_last() =~= Seq::<Seq<u8>>::empty());
        assert(flatten_packets(s) == flatten_packets(s.drop_last()) + s.last());
        assert(flatten_packets(s) =~= p);
        assert(p + flatten_packets(rest) =~= p);
    } else {
        lemma_flatten_cons(p, rest.drop_last());
        assert(s.drop_last() =~= seq![p] + rest.drop_last());
        assert(s.last() == rest.last());
        assert(flatten_packets(s) == flatten_packets(s.drop_last()) + s.last());
        assert(flatten_packets(rest) == flatten_packets(rest.drop_last()) + rest.last());
        assert(p + flatten_packets(rest) =~= p + flatten_packets(rest.drop_last()) + rest.last());
    }
}

/// Splits a PES into transport packets; returns the packets and the next
/// continuity counter.
fn packetize_pes(full: &[u8], pid_hi: u8, pid_lo: u8, adapt: &[u8], cc: u8) -> (r: (
    Vec<Vec<u8>>,
    u8,
))
    requires
        cc < 16,
        4 + adapt@.len() < 188,
    ensures
        packets_view(r.0@) == pes_packets(full@, pid_hi, pid_lo, adapt@, cc, 0),
        r.1 == ((cc + pes_packets(full@, pid_hi, pid_lo, adapt@, cc, 0).len()) % 16) as u8,
        r.1 < 16,
{
    let mut packets: Vec<Vec<u8>> = Vec::new();
    let mut offset: usize = 0;
    let mut c: u8 = cc;
    while offset < full.len()
        invariant
            offset <= full@.len(),
            c < 16,
            4 + adapt@.len() < 188,
            pes_packets(full@, pid_hi, pid_lo, adapt@, cc, 0) == packets_view(packets@)
                + pes_packets(full@, pid_hi, pid_lo, adapt@, c, offset as int),
            c == (cc + packets@.len()) % 16,
        decreases full.len() - offset,
    {
        let mut packet: Vec<u8> = Vec::new();
        packet.push(SYNC_BYTE);
        if offset == 0 {
            packet.push(0x40 | pid_hi);
            packet.push(pid_lo);
            packet.push((0x01u8 << 6) | (3u8 << 4) | (c & 0x0F));
            push_bytes(&mut packet, adapt);
        } else {
            packet.push(pid_hi);
            packet.push(pid_lo);
            packet.push((0x01u8 << 6) | (1u8 << 4) | (c & 0x0F));
        }
        proof {
            assert((0x01u8 << 6u8) | (3u8 << 4u8) | (c & 0x0Fu8) == (0x70u8 | (c & 0x0Fu8)))
                by (bit_vector);
            assert((0x01u8 << 6u8) | (1u8 << 4u8) | (c & 0x0Fu8) == (0x50u8 | (c & 0x0Fu8)))
                by (bit_vector);
        }
        let ghost hdr = packet@;
        assert(hdr == (if offset == 0 {
            seq![0x47u8, (0x40u8 | pid_hi) as u8, pid_lo, (0x70u8 | (c & 0x0Fu8)) as u8] + adapt@
        } else {
            seq![0x47u8, pid_hi, pid_lo, (0x50u8 | (c & 0x0Fu8)) as u8]
        }));
        let remaining = TS_PACKET_SIZE - packet.len();
        let chunk = if remaining <= full.len() - offset {
            remaining
        } else {
            full.len() - offset
        };
        push_bytes(&mut packet, vstd::slice::slice_subrange(full, offset, offset + chunk));
        let used = packet.len();
        push_zeros(&mut packet, TS_PACKET_SIZE - used);
        assert(packet@ == pad188(hdr + full@.subrange(offset as int, offset + chunk)));
        let ghost before = packets_view(packets@);
        packets.push(packet);
        assert(packets_view(packets@) =~= before + seq![packets@.last()@]);
        proof {
            assert(seq![packets@.last()@] + pes_packets(
                full@,
                pid_hi,
                pid_lo,
                adapt@,
                ((c + 1) % 16) as u8,
                offset + chunk,
            ) == pes_packets(full@, pid_hi, pid_lo, adapt@, c, offset as int));
        }
        let c1: u8 = c + 1;
        let c_next: u8 = c1 & 0x0F;
        assert(c_next == c1 % 16 && c_next < 16) by (bit_vector)
            requires
                c1 < 17,
                c_next == c1 & 0x0Fu8,
        ;
        c = c_next;
        offset += chunk;
    }
    (packets, c)
}


/// Every transport packet of a PES is 188 bytes, starts with the sync
/// byte 0x47 and carries continuity counter `cc + i` (modulo 16) in its
/// low four bits of byte 3.
pub proof fn lemma_pes_packets_well_formed(
    full: Seq<u8>,
    pid_hi: u8,
    pid_lo: u8,
    adapt: Seq<u8>,
    cc: u8,
    off: int,
)
    requires
        cc < 16,
    ensures
        forall|i: int|
            0 <= i < pes_packets(full, pid_hi, pid_lo, adapt, cc, off).len() ==> {
                let p = #[trigger] pes_packets(full, pid_hi, pid_lo, adapt, cc, off)[i];
                &&& p.len() == 188
                &&& p[0] == 0x47
                &&& p[3] & 0x0Fu8 == ((cc + i) % 16) as u8
            },
    decreases full.len() - off,
{
    let ps = pes_packets(full, pid_hi, pid_lo, adapt, cc, off);
    if !(off >= full.len() || off < 0 || 4 + adapt.len() >= 188) {
        let hdr = if off == 0 {
            seq![0x47u8, (0x40u8 | pid_hi) as u8, pid_lo, (0x70u8 | (cc & 0x0Fu8)) as u8] + adapt
        } else {
            seq![0x47u8, pid_hi, pid_lo, (0x50u8 | (cc & 0x0Fu8)) as u8]
        };
        let cap = 188 - hdr.len();
        let end = if off + cap <= full.len() {
            off + cap
        } else {
            full.len() as int
        };
        let c2 = ((cc + 1) % 16) as u8;
        lemma_pes_packets_well_formed(full, pid_hi, pid_lo, adapt, c2, end);
        let rest = pes_packets(full, pid_hi, pid_lo, adapt, c2, end);
        let first = pad188(hdr + full.subrange(off, end));
        assert(ps == seq![first] + rest);
        assert(first.len() == 188);
        assert(first[0] == 0x47);
        assert(first[3] == hdr[3]);
        assert((0x70u8 | (cc & 0x0Fu8)) & 0x0Fu8 == cc && (0x50u8 | (cc & 0x0Fu8)) & 0x0Fu8 == cc)
            by (bit_vector)
            requires
                cc < 16,
        ;
        assert forall|i: int| 0 <= i < ps.len() implies {
            let p = #[trigger] ps[i];
            &&& p.len() == 188
            &&& p[0] == 0x47
            &&& p[3] & 0x0Fu8 == ((cc + i) % 16) as u8
        } by {
            if i > 0 {
                assert(ps[i] == rest[i - 1]);
                assert((c2 + (i - 1)) % 16 == (cc + i) % 16);
            }
        }
    }
}

/// Every transport packet of a table section is 188 bytes and starts
/// with the sync byte 0x47.
pub proof fn lemma_psi_packets_well_formed(d: Seq<u8>, pid: u16, off: int)
    ensures
        forall|i: int|
            0 <= i < psi_packets(d, pid, off).len() ==> {
                let p = #[trigger] psi_packets(d, pid, off)[i];
                &&& p.len() == 188
                &&& p[0] == 0x47
            },
    decreases d.len() - off,
{
    let ps = psi_packets(d, pid, off);
    if !(off >= d.len() || off < 0) {
        let first = off == 0;
        let hdr = if first {
            seq![0x47u8, (0x40u8 | ((pid >> 8u16) as u8)) as u8, (pid & 0xFFu16) as u8, 0x3Fu8, 1u8, 0u8, 0u8]
        } else {
            seq![0x47u8, ((pid >> 8u16) as u8), (pid & 0xFFu16) as u8, 0x1Fu8]
        };
        let cap = 188 - hdr.len();
        let end = if off + cap <= d.len() {
            off + cap
        } else {
            d.len() as int
        };
        lemma_psi_packets_well_formed(d, pid, end);
        let rest = psi_packets(d, pid, end);
        let p0 = pad188(hdr + d.subrange(off, end));
        assert(ps == seq![p0] + rest);
        assert forall|i: int| 0 <= i < ps.len() implies {
            let p = #[trigger] ps[i];
            &&& p.len() == 188
            &&& p[0] == 0x47
        } by {
            if i > 0 {
                assert(ps[i] == rest[i - 1]);
            }
        }
    }
}

} // verus!
