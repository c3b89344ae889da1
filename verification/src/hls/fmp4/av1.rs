//! AV1 bitstream helpers: an MSB-first bit reader, the sequence header OBU
//! parser, OBU size-field normalisation (LEB128) and the av1C record.
use crate::util::{be16, be32};
use vstd::prelude::*;

verus! {

// ── Bit-level model ──────────────────────────────────────────────

/// Bit `pos` of `d`, most significant bit of each byte first; 0 past the end.
pub open spec fn bit_at(d: Seq<u8>, pos: int) -> u8 {
    if 0 <= pos < 8 * d.len() {
        ((d[pos / 8] >> ((7 - pos % 8) as u8)) & 1u8) as u8
    } else {
        0
    }
}

/// Reader position after one bit: it stops at the end of the data.
pub open spec fn next_pos(d: Seq<u8>, pos: int) -> int {
    if pos < 8 * d.len() {
        pos + 1
    } else {
        pos
    }
}

/// Reader position after `n` bits.
pub open spec fn adv(d: Seq<u8>, pos: int, n: int) -> int {
    if pos + n <= 8 * d.len() {
        pos + n
    } else if pos <= 8 * d.len() {
        8 * d.len() as int
    } else {
        pos
    }
}

/// The value of `n` bits read MSB-first from `pos` (bits past the end read 0).
pub open spec fn bits_val(d: Seq<u8>, pos: int, n: nat) -> u64
    decreases n,
{
    if n == 0 {
        0
    } else {
        (((bits_val(d, pos, (n - 1) as nat) << 1u64) as u64) | (bit_at(
            d,
            adv(d, pos, n - 1),
        ) as u64)) as u64
    }
}

/// A value read from `n <= 32` bits is below `2^n`.
pub proof fn lemma_bits_val_bound(d: Seq<u8>, pos: int, n: nat)
    requires
        n <= 32,
    ensures
        bits_val(d, pos, n) < (1u64 << (n as u64)),
    decreases n,
{
    if n == 0 {
        assert((1u64 << 0u64) == 1) by (bit_vector);
    } else {
        lemma_bits_val_bound(d, pos, (n - 1) as nat);
        let x = bits_val(d, pos, (n - 1) as nat);
        let b = bit_at(d, adv(d, pos, n - 1)) as u64;
        let k = (n - 1) as u64;
        assert(n as u64 == k + 1);
        assert(b <= 1) by {
            let p = adv(d, pos, n - 1);
            if 0 <= p < 8 * d.len() {
                let byte = d[p / 8];
                let sh = (7 - p % 8) as u8;
                assert((byte >> sh) & 1u8 <= 1u8) by (bit_vector);
            }
        }
        assert(((x << 1u64) | b) < (1u64 << (k + 1))) by (bit_vector)
            requires
                x < (1u64 << k),
                b <= 1,
                k < 32,
        ;
    }
}

proof fn lemma_adv_step(d: Seq<u8>, pos: int, n: int)
    requires
        0 <= pos <= 8 * d.len(),
        n >= 0,
    ensures
        adv(d, pos, n + 1) == next_pos(d, adv(d, pos, n)),
        0 <= adv(d, pos, n) <= 8 * d.len(),
        adv(d, pos, 0) == pos,
{
}

/// MSB-first reader over a byte slice; reads past the end give 0 bits.
pub struct BitReader<'a> {
    pub data: &'a [u8],
    pub byte_offset: usize,
    pub bit_offset: u8,
}

impl<'a> BitReader<'a> {
    /// The reader's position in bits.
    pub open spec fn pos(&self) -> int {
        self.byte_offset * 8 + self.bit_offset
    }

    pub open spec fn wf(&self) -> bool {
        &&& self.byte_offset <= self.data@.len()
        &&& self.bit_offset < 8
        &&& self.byte_offset == self.data@.len() ==> self.bit_offset == 0
    }

    pub fn new(data: &'a [u8]) -> (r: Self)
        ensures
            r.wf(),
            r.pos() == 0,
            r.data@ == data@,
    {
        BitReader { data, byte_offset: 0, bit_offset: 0 }
    }

    pub fn read_bit(&mut self) -> (b: u8)
        requires
            old(self).wf(),
        ensures
            final(self).wf(),
            final(self).data@ == old(self).data@,
            b == bit_at(old(self).data@, old(self).pos()),
            final(self).pos() == next_pos(old(self).data@, old(self).pos()),
            b <= 1,
    {
        if self.byte_offset >= self.data.len() {
            return 0;
        }
        let byte = self.data[self.byte_offset];
        let bo = self.bit_offset;
        let bit = (byte >> (7 - bo)) & 1;
        proof {
            let p = self.pos();
            assert(p / 8 == self.byte_offset as int && p % 8 == self.bit_offset as int)
                by (nonlinear_arith)
                requires
                    p == self.byte_offset * 8 + self.bit_offset,
                    self.bit_offset < 8,
            ;
            assert(bit <= 1) by (bit_vector)
                requires
                    bit == (byte >> (7 - bo) as u8) & 1u8,
            ;
        }
        self.bit_offset += 1;
        if self.bit_offset == 8 {
            self.bit_offset = 0;
            self.byte_offset += 1;
        }
        bit
    }

    pub fn read_bits(&mut self, n: u8) -> (v: u64)
        requires
            old(self).wf(),
        ensures
            final(self).wf(),
            final(self).data@ == old(self).data@,
            v == bits_val(old(self).data@, old(self).pos(), n as nat),
            final(self).pos() == adv(old(self).data@, old(self).pos(), n as int),
    {
        let ghost p0 = self.pos();
        let mut result = 0u64;
        let mut i: u8 = 0;
        while i < n
            invariant
                self.wf(),
                self.data@ == old(self).data@,
                p0 == old(self).pos(),
                0 <= p0 <= 8 * self.data@.len(),
                i <= n,
                result == bits_val(self.data@, p0, i as nat),
                self.pos() == adv(self.data@, p0, i as int),
            decreases n - i,
        {
            proof {
                lemma_adv_step(self.data@, p0, i as int);
            }
            let b = self.read_bit();
            result = (result << 1) | b as u64;
            i += 1;
        }
        result
    }
}

// ── Sequence header OBU ──────────────────────────────────────────

/// Fields of an AV1 sequence header that the av1C record and colour
/// signalling need.
#[derive(Clone, Copy)]
pub struct Av1SeqHeader {
    pub seq_profile: u8,
    pub seq_level_idx_0: u8,
    pub seq_tier_0: u8,
    pub high_bitdepth: u8,
    pub twelve_bit: u8,
    pub monochrome: u8,
    pub chroma_subsampling_x: u8,
    pub chroma_subsampling_y: u8,
    pub chroma_sample_position: u8,
    pub color_primaries: u16,
    pub transfer_characteristics: u16,
    pub matrix_coefficients: u16,
    pub full_range: bool,
}

/// Reads one bit: (value, position after).
pub open spec fn rd1(d: Seq<u8>, p: int) -> (u8, int) {
    (bit_at(d, p), next_pos(d, p))
}

/// Reads `n` bits: (value, position after).
pub open spec fn rdn(d: Seq<u8>, p: int, n: nat) -> (u64, int) {
    (bits_val(d, p, n), adv(d, p, n as int))
}

/// The leading-zero count of a UVLC code (capped at 31) and the position
/// after the terminating bit.
pub open spec fn uvlc_zeros(d: Seq<u8>, p: int, lz: u8) -> (u8, int)
    decreases 31 - lz,
{
    let (b, q) = rd1(d, p);
    if b == 0 && lz < 31 {
        uvlc_zeros(d, q, (lz + 1) as u8)
    } else {
        (lz, q)
    }
}

/// Walks the operating points `i..=cnt`, keeping level and tier of point 0.
pub open spec fn op_points(
    d: Seq<u8>,
    p: int,
    i: int,
    cnt: int,
    decoder_model: u8,
    buffer_delay_len_minus_1: u8,
    initial_display_delay: u8,
    level0: u8,
    tier0: u8,
) -> (u8, u8, int)
    decreases cnt + 1 - i,
{
    if i > cnt {
        (level0, tier0, p)
    } else {
        let p1 = adv(d, p, 12);
        let (lv, p2) = rdn(d, p1, 5);
        let level = lv as u8;
        let (tier, p3) = if level > 7 {
            rd1(d, p2)
        } else {
            (0u8, p2)
        };
        let (l0, t0) = if i == 0 {
            (level, tier)
        } else {
            (level0, tier0)
        };
        let p4 = if decoder_model == 1 {
            let (present, q) = rd1(d, p3);
            if present == 1 {
                let n = buffer_delay_len_minus_1 + 1;
                next_pos(d, adv(d, adv(d, q, n), n))
            } else {
                q
            }
        } else {
            p3
        };
        let p5 = if initial_display_delay == 1 {
            let (present, q) = rd1(d, p4);
            if present == 1 {
                adv(d, q, 4)
            } else {
                q
            }
        } else {
            p4
        };
        op_points(
            d,
            p5,
            i + 1,
            cnt,
            decoder_model,
            buffer_delay_len_minus_1,
            initial_display_delay,
            l0,
            t0,
        )
    }
}

/// The timing and decoder model information: (decoder_model_info_present,
/// buffer_delay_length_minus_1, position after).
pub open spec fn seq_header_timing(d: Seq<u8>, p: int) -> (u8, u8, int) {
    let (timing, p) = rd1(d, p);
    if timing == 1 {
        let p = adv(d, adv(d, p, 32), 32);
        let (equal_interval, p) = rd1(d, p);
        let p = if equal_interval == 0 {
            let (lz, q) = uvlc_zeros(d, p, 0);
            if lz > 0 && lz < 31 {
                adv(d, q, lz as int)
            } else {
                q
            }
        } else {
            p
        };
        let (dm, p) = rd1(d, p);
        if dm == 1 {
            let (b, p) = rdn(d, p, 5);
            (dm, b as u8, adv(d, adv(d, adv(d, p, 32), 5), 5))
        } else {
            (dm, 0u8, p)
        }
    } else {
        (0u8, 0u8, p)
    }
}

/// Everything from the start of the sequence header up to the frame size
/// fields: (reduced_still_picture_header, level_0, tier_0, position after).
pub open spec fn seq_header_prefix(d: Seq<u8>, p: int) -> (u8, u8, u8, int) {
    let (_still, p) = rd1(d, p);
    let (reduced, p) = rd1(d, p);
    if reduced == 1 {
        let (lv, p) = rdn(d, p, 5);
        (reduced, lv as u8, 0u8, p)
    } else {
        let (decoder_model, bdl, p) = seq_header_timing(d, p);
        let (idd, p) = rd1(d, p);
        let (cnt, p) = rdn(d, p, 5);
        let (l0, t0, p) = op_points(d, p, 0, cnt as u8 as int, decoder_model, bdl, idd, 0, 0);
        (reduced, l0, t0, p)
    }
}

/// Position after the frame size and frame id fields.
pub open spec fn seq_header_frame_fields_end(d: Seq<u8>, reduced: u8, p: int) -> int {
    let (wb, p) = rdn(d, p, 4);
    let (hb, p) = rdn(d, p, 4);
    let p = adv(d, p, (wb as u8 + 1) as int);
    let p = adv(d, p, (hb as u8 + 1) as int);
    let (frame_ids, p) = if reduced == 1 {
        (0u8, p)
    } else {
        rd1(d, p)
    };
    if frame_ids == 1 {
        adv(d, adv(d, p, 4), 3)
    } else {
        p
    }
}

/// Position after the coding tool flags of a full (not reduced) header.
pub open spec fn seq_header_full_tools_end(d: Seq<u8>, p: int) -> int {
    let p = adv(d, p, 4);
    let (order_hint, p) = rd1(d, p);
    let p = if order_hint == 1 {
        adv(d, p, 2)
    } else {
        p
    };
    let (choose_sct, p) = rd1(d, p);
    let (force_sct, p) = if choose_sct == 1 {
        (2u8, p)
    } else {
        rd1(d, p)
    };
    let p = if force_sct > 0 {
        let (choose_imv, p) = rd1(d, p);
        if choose_imv == 0 {
            next_pos(d, p)
        } else {
            p
        }
    } else {
        p
    };
    if order_hint == 1 {
        adv(d, p, 3)
    } else {
        p
    }
}

/// Position after the frame size, frame id and coding tool fields.
pub open spec fn seq_header_tools_end(d: Seq<u8>, reduced: u8, p: int) -> int {
    let p = seq_header_frame_fields_end(d, reduced, p);
    let p = adv(d, p, 3);
    let p = if reduced == 0 {
        seq_header_full_tools_end(d, p)
    } else {
        p
    };
    adv(d, p, 3)
}

/// The colour configuration, read from position `p` for a stream of the
/// given profile.
pub open spec fn seq_header_color(d: Seq<u8>, profile: u8, level0: u8, tier0: u8, p: int) -> Av1SeqHeader {
    let (hbd, p) = rd1(d, p);
    let (twelve, p) = if profile == 2 && hbd == 1 {
        rd1(d, p)
    } else {
        (0u8, p)
    };
    let bit_depth: int = if profile == 2 && hbd == 1 {
        if twelve == 1 {
            12
        } else {
            10
        }
    } else if profile <= 2 {
        if hbd == 1 {
            10
        } else {
            8
        }
    } else {
        8
    };
    let (mono, p) = if profile == 1 {
        (0u8, p)
    } else {
        rd1(d, p)
    };
    let (cdp, p) = rd1(d, p);
    let (cp, tc, mc, p) = if cdp == 1 {
        let (cp, p) = rdn(d, p, 8);
        let (tc, p) = rdn(d, p, 8);
        let (mc, p) = rdn(d, p, 8);
        (cp as u16, tc as u16, mc as u16, p)
    } else {
        (0u16, 0u16, 0u16, p)
    };
    let (full_range, sx, sy, csp) = if mono == 1 {
        let (fr, p) = rd1(d, p);
        (fr == 1, 1u8, 1u8, 0u8)
    } else if cp == 1 && tc == 13 && mc == 0 {
        (true, 0u8, 0u8, 0u8)
    } else {
        let (fr, p) = rd1(d, p);
        let (sx, sy, p) = if profile == 0 {
            (1u8, 1u8, p)
        } else if profile == 1 {
            (0u8, 0u8, p)
        } else if bit_depth == 12 {
            let (sx, p) = rd1(d, p);
            if sx == 1 {
                let (sy, p) = rd1(d, p);
                (sx, sy, p)
            } else {
                (sx, 0u8, p)
            }
        } else {
            (1u8, 0u8, p)
        };
        let csp = if sx == 1 && sy == 1 {
            rdn(d, p, 2).0 as u8
        } else {
            0u8
        };
        (fr == 1, sx, sy, csp)
    };
    Av1SeqHeader {
        seq_profile: profile,
        seq_level_idx_0: level0,
        seq_tier_0: tier0,
        high_bitdepth: hbd,
        twelve_bit: twelve,
        monochrome: mono,
        chroma_subsampling_x: sx,
        chroma_subsampling_y: sy,
        chroma_sample_position: csp,
        color_primaries: cp,
        transfer_characteristics: tc,
        matrix_coefficients: mc,
        full_range,
    }
}

/// The colour configuration of a sequence header (AV1 §5.5.2) is read in
/// this order from its first bit: high_bitdepth; twelve_bit, only for
/// profile 2 with high bit depth; mono_chrome, for every profile but 1;
/// color_description_present_flag; and, when that flag is set, the 8-bit
/// colour primaries, transfer characteristics and matrix coefficients
/// (all 0 when it is clear).
pub proof fn lemma_seq_header_color_fields(d: Seq<u8>, profile: u8, level0: u8, tier0: u8, p: int)
    requires
        0 <= p,
        p + 28 <= 8 * d.len(),
        profile <= 2,
    ensures
        ({
            let h = seq_header_color(d, profile, level0, tier0, p);
            let t: int = if profile == 2 && bit_at(d, p) == 1 {
                1
            } else {
                0
            };
            let m: int = if profile == 1 {
                0
            } else {
                1
            };
            let q = p + 1 + t + m;
            &&& h.seq_profile == profile
            &&& h.high_bitdepth == bit_at(d, p)
            &&& h.twelve_bit == (if t == 1 {
                bit_at(d, p + 1)
            } else {
                0
            })
            &&& h.monochrome == (if profile == 1 {
                0
            } else {
                bit_at(d, p + 1 + t)
            })
            &&& bit_at(d, q) == 1 ==> h.color_primaries == bits_val(d, q + 1, 8) as u16
                && h.transfer_characteristics == bits_val(d, q + 9, 8) as u16
                && h.matrix_coefficients == bits_val(d, q + 17, 8) as u16
            &&& bit_at(d, q) != 1 ==> h.color_primaries == 0 && h.transfer_characteristics == 0
                && h.matrix_coefficients == 0
        }),
{
    let t: int = if profile == 2 && bit_at(d, p) == 1 {
        1
    } else {
        0
    };
    let m: int = if profile == 1 {
        0
    } else {
        1
    };
    let q = p + 1 + t + m;
    assert(next_pos(d, p) == p + 1);
    assert(next_pos(d, p + 1) == p + 2);
    assert(next_pos(d, p + 1 + t) == p + 2 + t);
    assert(next_pos(d, q) == q + 1);
    assert(adv(d, q + 1, 8) == q + 9);
    assert(adv(d, q + 9, 8) == q + 17);
}

/// The sequence header fields of an OBU payload (AV1 spec §5.5), or None
/// for a payload shorter than two bytes.
pub open spec fn spec_parse_av1_sequence_header(d: Seq<u8>) -> Option<Av1SeqHeader> {
    if d.len() < 2 {
        None
    } else {
        let profile = bits_val(d, 0, 3) as u8;
        let (reduced, l0, t0, p) = seq_header_prefix(d, adv(d, 0, 3));
        let p = seq_header_tools_end(d, reduced, p);
        Some(seq_header_color(d, profile, l0, t0, p))
    }
}


fn read_uvlc_zeros(r: &mut BitReader) -> (lz: u8)
    requires
        old(r).wf(),
    ensures
        final(r).wf(),
        final(r).data@ == old(r).data@,
        (lz, final(r).pos()) == uvlc_zeros(old(r).data@, old(r).pos(), 0),
{
    let ghost d = r.data@;
    let ghost p0 = r.pos();
    let mut lz: u8 = 0;
    loop
        invariant
            r.wf(),
            r.data@ == d,
            d == old(r).data@,
            p0 == old(r).pos(),
            lz <= 31,
            uvlc_zeros(d, p0, 0) == uvlc_zeros(d, r.pos(), lz),
        decreases 31 - lz,
    {
        let ghost p = r.pos();
        let b = r.read_bit();
        if b == 0 && lz < 31 {
            lz += 1;
        } else {
            return lz;
        }
    }
}

fn read_op_points(r: &mut BitReader, cnt: u8, decoder_model: u8, bdl: u8, idd: u8) -> (res: (u8, u8))
    requires
        old(r).wf(),
        bdl < 32,
    ensures
        final(r).wf(),
        final(r).data@ == old(r).data@,
        (res.0, res.1, final(r).pos()) == op_points(
            old(r).data@,
            old(r).pos(),
            0,
            cnt as int,
            decoder_model,
            bdl,
            idd,
            0,
            0,
        ),
{
    let ghost d = r.data@;
    let ghost p0 = r.pos();
    let mut level0: u8 = 0;
    let mut tier0: u8 = 0;
    let mut i: u16 = 0;
    while i <= cnt as u16
        invariant
            r.wf(),
            r.data@ == d,
            i <= cnt as u16 + 1,
            bdl < 32,
            op_points(d, p0, 0, cnt as int, decoder_model, bdl, idd, 0, 0) == op_points(
                d,
                r.pos(),
                i as int,
                cnt as int,
                decoder_model,
                bdl,
                idd,
                level0,
                tier0,
            ),
        decreases cnt as u16 + 1 - i,
    {
        let _ = r.read_bits(12);
        let level = r.read_bits(5) as u8;
        let mut tier: u8 = 0;
        if level > 7 {
            tier = r.read_bit();
        }
        if i == 0 {
            level0 = level;
            tier0 = tier;
        }
        if decoder_model == 1 {
            let present = r.read_bit();
            if present == 1 {
                let n = bdl + 1;
                let _ = r.read_bits(n);
                let _ = r.read_bits(n);
                let _ = r.read_bit();
            }
        }
        if idd == 1 {
            let present = r.read_bit();
            if present == 1 {
                let _ = r.read_bits(4);
            }
        }
        i += 1;
    }
    (level0, tier0)
}

fn read_timing_info(r: &mut BitReader) -> (res: (u8, u8))
    requires
        old(r).wf(),
    ensures
        final(r).wf(),
        final(r).data@ == old(r).data@,
        (res.0, res.1, final(r).pos()) == seq_header_timing(old(r).data@, old(r).pos()),
        res.1 < 32,
{
    let mut decoder_model: u8 = 0;
    let mut bdl: u8 = 0;
    let timing = r.read_bit();
    if timing == 1 {
        let _ = r.read_bits(32);
        let _ = r.read_bits(32);
        let equal_interval = r.read_bit();
        if equal_interval == 0 {
            let lz = read_uvlc_zeros(r);
            if lz > 0 && lz < 31 {
                let _ = r.read_bits(lz);
            }
        }
        decoder_model = r.read_bit();
        if decoder_model == 1 {
            let ghost pb = r.pos();
            let b = r.read_bits(5);
            proof {
                lemma_bits_val_bound(r.data@, pb, 5);
                assert((1u64 << 5u64) == 32) by (bit_vector);
            }
            bdl = b as u8;
            let _ = r.read_bits(32);
            let _ = r.read_bits(5);
            let _ = r.read_bits(5);
        }
    }
    (decoder_model, bdl)
}

fn read_seq_header_prefix(r: &mut BitReader) -> (res: (u8, u8, u8))
    requires
        old(r).wf(),
    ensures
        final(r).wf(),
        final(r).data@ == old(r).data@,
        (res.0, res.1, res.2, final(r).pos()) == seq_header_prefix(old(r).data@, old(r).pos()),
{
    let _still_picture = r.read_bit();
    let reduced = r.read_bit();
    if reduced == 1 {
        let lv = r.read_bits(5) as u8;
        return (reduced, lv, 0);
    }
    let (decoder_model, bdl) = read_timing_info(r);
    let idd = r.read_bit();
    let cnt = r.read_bits(5) as u8;
    let (l0, t0) = read_op_points(r, cnt, decoder_model, bdl, idd);
    (reduced, l0, t0)
}


fn skip_frame_fields(r: &mut BitReader, reduced: u8)
    requires
        old(r).wf(),
    ensures
        final(r).wf(),
        final(r).data@ == old(r).data@,
        final(r).pos() == seq_header_frame_fields_end(old(r).data@, reduced, old(r).pos()),
{
    let ghost d = r.data@;
    let ghost p0 = r.pos();
    let wb = r.read_bits(4) as u8;
    let hb = r.read_bits(4) as u8;
    proof {
        lemma_bits_val_bound(d, p0, 4);
        lemma_bits_val_bound(d, adv(d, p0, 4), 4);
        assert((1u64 << 4u64) == 16) by (bit_vector);
    }
    let _ = r.read_bits(wb + 1);
    let _ = r.read_bits(hb + 1);
    let frame_ids = if reduced == 1 {
        0
    } else {
        r.read_bit()
    };
    if frame_ids == 1 {
        let _ = r.read_bits(4);
        let _ = r.read_bits(3);
    }
}

fn skip_full_tools(r: &mut BitReader)
    requires
        old(r).wf(),
    ensures
        final(r).wf(),
        final(r).data@ == old(r).data@,
        final(r).pos() == seq_header_full_tools_end(old(r).data@, old(r).pos()),
{
    let _ = r.read_bits(4);
    let order_hint = r.read_bit();
    if order_hint == 1 {
        let _ = r.read_bits(2);
    }
    let choose_sct = r.read_bit();
    let force_sct = if choose_sct == 1 {
        2
    } else {
        r.read_bit()
    };
    if force_sct > 0 {
        let choose_imv = r.read_bit();
        if choose_imv == 0 {
            let _ = r.read_bit();
        }
    }
    if order_hint == 1 {
        let _ = r.read_bits(3);
    }
}

fn skip_seq_header_tools(r: &mut BitReader, reduced: u8)
    requires
        old(r).wf(),
    ensures
        final(r).wf(),
        final(r).data@ == old(r).data@,
        final(r).pos() == seq_header_tools_end(old(r).data@, reduced, old(r).pos()),
{
    skip_frame_fields(r, reduced);
    let _ = r.read_bits(3);
    if reduced == 0 {
        skip_full_tools(r);
    }
    let _ = r.read_bits(3);
}

fn read_seq_header_color(r: &mut BitReader, profile: u8, level0: u8, tier0: u8) -> (h:
    Av1SeqHeader)
    requires
        old(r).wf(),
    ensures
        final(r).wf(),
        final(r).data@ == old(r).data@,
        h == seq_header_color(old(r).data@, profile, level0, tier0, old(r).pos()),
{
    let hbd = r.read_bit();
    let mut twelve: u8 = 0;
    let bit_depth: u8 = if profile == 2 && hbd == 1 {
        twelve = r.read_bit();
        if twelve == 1 {
            12
        } else {
            10
        }
    } else if profile <= 2 {
        if hbd == 1 {
            10
        } else {
            8
        }
    } else {
        8
    };
    let mono = if profile == 1 {
        0
    } else {
        r.read_bit()
    };
    let cdp = r.read_bit();
    let mut cp: u16 = 0;
    let mut tc: u16 = 0;
    let mut mc: u16 = 0;
    if cdp == 1 {
        cp = r.read_bits(8) as u16;
        tc = r.read_bits(8) as u16;
        mc = r.read_bits(8) as u16;
    }
    let full_range: bool;
    let mut sx: u8 = 0;
    let mut sy: u8 = 0;
    let mut csp: u8 = 0;
    if mono == 1 {
        full_range = r.read_bit() == 1;
        sx = 1;
        sy = 1;
    } else if cp == 1 && tc == 13 && mc == 0 {
        full_range = true;
    } else {
        full_range = r.read_bit() == 1;
        if profile == 0 {
            sx = 1;
            sy = 1;
        } else if profile == 1 {
            sx = 0;
            sy = 0;
        } else {
            if bit_depth == 12 {
                sx = r.read_bit();
                if sx == 1 {
                    sy = r.read_bit();
                } else {
                    sy = 0;
                }
            } else {
                sx = 1;
                sy = 0;
            }
        }
        if sx == 1 && sy == 1 {
            csp = r.read_bits(2) as u8;
        }
    }
    Av1SeqHeader {
        seq_profile: profile,
        seq_level_idx_0: level0,
        seq_tier_0: tier0,
        high_bitdepth: hbd,
        twelve_bit: twelve,
        monochrome: mono,
        chroma_subsampling_x: sx,
        chroma_subsampling_y: sy,
        chroma_sample_position: csp,
        color_primaries: cp,
        transfer_characteristics: tc,
        matrix_coefficients: mc,
        full_range,
    }
}

/// Parses the fields of a sequence header OBU payload up through its colour
/// configuration.
pub fn parse_av1_sequence_header(payload: &[u8]) -> (r: Option<Av1SeqHeader>)
    ensures
        r == spec_parse_av1_sequence_header(payload@),
{
    let mut r = BitReader::new(payload);
    if payload.len() < 2 {
        return None;
    }
    let seq_profile = r.read_bits(3) as u8;
    let (reduced, level0, tier0) = read_seq_header_prefix(&mut r);
    skip_seq_header_tools(&mut r, reduced);
    let h = read_seq_header_color(&mut r, seq_profile, level0, tier0);
    Some(h)
}


// ── OBU size fields ──────────────────────────────────────────────

/// Reads a LEB128 size at `pos + nb` (bytes already read: `nb`, value so far:
/// `acc`, next shift: `shift`). At most eight continuation bytes are
/// accepted, and the size must end before the last byte of `data`.
/// Returns (value, bytes read).
pub open spec fn leb128_read(data: Seq<u8>, pos: int, nb: int, shift: u64, acc: u64) -> Option<
    (u64, int),
>
    decreases 64 - shift,
{
    if pos + nb >= data.len() || shift > 56 {
        None
    } else {
        let b = data[pos + nb];
        let acc2 = (acc | ((((b & 0x7Fu8) as u64) << shift) as u64)) as u64;
        if b & 0x80u8 == 0 {
            Some((acc2, nb + 1))
        } else if shift + 7 > 56 {
            None
        } else {
            leb128_read(data, pos, nb + 1, (shift + 7) as u64, acc2)
        }
    }
}

/// A LEB128 read consumes at least one byte and stays inside the data.
pub proof fn lemma_leb128_read_len(data: Seq<u8>, pos: int, nb: int, shift: u64, acc: u64)
    requires
        nb >= 0,
    ensures
        leb128_read(data, pos, nb, shift, acc) matches Some((v, n)) ==> n > nb && pos + n
            <= data.len(),
    decreases 64 - shift,
{
    if !(pos + nb >= data.len() || shift > 56) {
        let b = data[pos + nb];
        if b & 0x80u8 != 0 && shift + 7 <= 56 {
            let acc2 = (acc | ((((b & 0x7Fu8) as u64) << shift) as u64)) as u64;
            lemma_leb128_read_len(data, pos, nb + 1, (shift + 7) as u64, acc2);
        }
    }
}

/// A LEB128 field as written by `leb128_encode` reads back as the value
/// it encodes, consuming exactly its bytes (values below 2^63, whose
/// encoding fits the reader's limit of nine bytes).
pub proof fn lemma_leb128_round_trip(d: Seq<u8>, pos: int, n: u64)
    requires
        pos >= 0,
        n < 0x8000_0000_0000_0000u64,
        pos + leb128_encode(n).len() <= d.len(),
        d.subrange(pos, pos + leb128_encode(n).len()) == leb128_encode(n),
    ensures
        leb128_read(d, pos, 0, 0, 0) == Some((n, leb128_encode(n).len() as int)),
{
    assert(n < (1u64 << 63u64) && 0u64 < (1u64 << 0u64)) by (bit_vector)
        requires
            n < 0x8000_0000_0000_0000u64,
    ;
    lemma_leb128_read_encoded(d, pos, 0, 0, 0, n);
    assert(0u64 | (n << 0u64) == n) by (bit_vector);
}

proof fn lemma_leb128_read_encoded(d: Seq<u8>, pos: int, nb: int, shift: u64, acc: u64, m: u64)
    requires
        nb >= 0,
        pos >= 0,
        shift == 7 * nb,
        shift <= 56,
        pos + nb + leb128_encode(m).len() <= d.len(),
        d.subrange(pos + nb, pos + nb + leb128_encode(m).len()) == leb128_encode(m),
        acc < (1u64 << shift),
        m < (1u64 << ((63 - shift) as u64)),
    ensures
        leb128_read(d, pos, nb, shift, acc) == Some(
            ((acc | (m << shift)) as u64, nb + leb128_encode(m).len()),
        ),
    decreases m,
{
    let e = leb128_encode(m);
    assert(d[pos + nb] == e[0]);
    if m >> 7u64 == 0 {
        let b = (m & 0x7Fu64) as u8;
        assert(e =~= seq![b]);
        assert(b & 0x80u8 == 0 && ((b & 0x7Fu8) as u64) == m) by (bit_vector)
            requires
                m >> 7u64 == 0,
                b == (m & 0x7Fu64) as u8,
        ;
    } else {
        let b = ((m & 0x7Fu64) | 0x80u64) as u8;
        let rest = leb128_encode(m >> 7u64);
        assert(e =~= seq![b] + rest);
        assert(b & 0x80u8 != 0 && ((b & 0x7Fu8) as u64) == m & 0x7Fu64) by (bit_vector)
            requires
                b == ((m & 0x7Fu64) | 0x80u64) as u8,
        ;
        assert(shift + 7 <= 56) by {
            assert(m >= 128u64) by (bit_vector)
                requires
                    m >> 7u64 != 0,
            ;
            assert(shift < 56) by (bit_vector)
                requires
                    m >= 128u64,
                    shift <= 56,
                    m < (1u64 << ((63 - shift) as u64)),
            ;
        }
        let acc2 = (acc | ((m & 0x7Fu64) << shift)) as u64;
        let s2 = (shift + 7) as u64;
        assert(acc2 < (1u64 << s2) && (m >> 7u64) < (1u64 << ((63 - s2) as u64)) && (acc2 | ((m
            >> 7u64) << s2)) == (acc | (m << shift))) by (bit_vector)
            requires
                shift <= 49,
                s2 == shift + 7,
                acc < (1u64 << shift),
                m < (1u64 << ((63 - shift) as u64)),
                acc2 == acc | ((m & 0x7Fu64) << shift),
        ;
        assert(d.subrange(pos + nb + 1, pos + nb + 1 + rest.len()) =~= rest) by {
            assert forall|k: int| 0 <= k < rest.len() implies d.subrange(
                pos + nb + 1,
                pos + nb + 1 + rest.len(),
            )[k] == rest[k] by {
                assert(d[pos + nb + 1 + k] == d.subrange(pos + nb, pos + nb + e.len())[k + 1]);
                assert(e[k + 1] == rest[k]);
            }
        }
        assert(m >> 7u64 < m) by (bit_vector)
            requires
                m >> 7u64 != 0,
        ;
        lemma_leb128_read_encoded(d, pos, nb + 1, s2, acc2, m >> 7u64);
    }
}

/// Size of the OBU header starting at byte `h`: 2 with the extension flag.
pub open spec fn obu_header_size(h: u8) -> int {
    if (h >> 2u8) & 1u8 == 1 {
        2
    } else {
        1
    }
}

pub open spec fn obu_has_size(h: u8) -> bool {
    (h >> 1u8) & 1u8 == 1
}

/// What a walk over the OBUs of `data` from `scan` finds.
pub enum ObuScan {
    /// Every OBU carries a size field.
    AllSized,
    /// A size field is malformed or runs past the end.
    Malformed,
    /// The OBU at this offset has no size field.
    SizeLess(int),
}

pub open spec fn obu_scan(data: Seq<u8>, scan: int) -> ObuScan
    decreases data.len() - scan,
{
    if scan >= data.len() || scan < 0 {
        ObuScan::AllSized
    } else {
        let h = data[scan];
        let hs = obu_header_size(h);
        if obu_has_size(h) {
            proof {
                lemma_leb128_read_len(data, scan + hs, 0, 0, 0);
            }
            match leb128_read(data, scan + hs, 0, 0, 0) {
                None => ObuScan::Malformed,
                Some((size, nb)) => {
                    let next = scan + hs + nb + size;
                    if next > data.len() {
                        ObuScan::Malformed
                    } else {
                        obu_scan(data, next)
                    }
                },
            }
        } else {
            ObuScan::SizeLess(scan)
        }
    }
}

/// LEB128 encoding of `n`, least significant group first.
pub open spec fn leb128_encode(n: u64) -> Seq<u8>
    decreases n,
{
    if n >> 7u64 == 0 {
        seq![(n & 0x7Fu64) as u8]
    } else {
        proof {
            assert(n >> 7u64 < n) by (bit_vector)
                requires
                    n >> 7u64 != 0,
            ;
        }
        seq![((n & 0x7Fu64) | 0x80u64) as u8] + leb128_encode(n >> 7u64)
    }
}

/// The OBUs of `data` from `offset`, with a size field given to the OBU
/// that lacks one (whose payload runs to the end of the data).
pub open spec fn obu_rewrite(data: Seq<u8>, offset: int) -> Seq<u8>
    decreases data.len() - offset,
{
    if offset >= data.len() || offset < 0 {
        Seq::empty()
    } else {
        let h = data[offset];
        let hs = obu_header_size(h);
        if obu_has_size(h) {
            proof {
                lemma_leb128_read_len(data, offset + hs, 0, 0, 0);
            }
            match leb128_read(data, offset + hs, 0, 0, 0) {
                None => Seq::empty(),
                Some((size, nb)) => {
                    let end = offset + hs + nb + size;
                    if end > data.len() {
                        Seq::empty()
                    } else {
                        data.subrange(offset, end) + obu_rewrite(data, end)
                    }
                },
            }
        } else {
            seq![h | 2u8] + (if hs == 2 {
                seq![data[offset + 1]]
            } else {
                Seq::empty()
            }) + leb128_encode((data.len() - offset - hs) as u64) + data.subrange(
                offset + hs,
                data.len() as int,
            )
        }
    }
}

/// Whether the size-field rewrite can run: a size-less OBU with an
/// extension byte must not be cut off after its first header byte.
pub open spec fn av1_obus_rewritable(data: Seq<u8>) -> bool {
    match obu_scan(data, 0) {
        ObuScan::SizeLess(k) => k + obu_header_size(data[k]) <= data.len(),
        _ => true,
    }
}

/// `data` with every OBU carrying a size field: unchanged unless the walk
/// meets an OBU without one.
pub open spec fn spec_ensure_av1_obu_size_fields(data: Seq<u8>) -> Seq<u8> {
    match obu_scan(data, 0) {
        ObuScan::SizeLess(_) => obu_rewrite(data, 0),
        _ => data,
    }
}

/// Reads a LEB128 size starting at `start` with the accepted limits.
fn read_leb128(data: &[u8], start: usize) -> (r: Option<(u64, usize)>)
    requires
        start <= data@.len() + 2,
    ensures
        r matches Some((v, n)) ==> leb128_read(data@, start as int, 0, 0, 0) == Some(
            (v, n as int),
        ) && n <= 9,
        r is None ==> leb128_read(data@, start as int, 0, 0, 0) is None,
{
    let mut size: u64 = 0;
    let mut shift: u64 = 0;
    let mut nb: usize = 0;
    loop
        invariant
            start <= data@.len() + 2,
            shift <= 56,
            shift == 7 * nb,
            nb <= 8,
            leb128_read(data@, start as int, 0, 0, 0) == leb128_read(
                data@,
                start as int,
                nb as int,
                shift,
                size,
            ),
        decreases 64 - shift,
    {
        if start >= data.len() || data.len() - start <= nb {
            return None;
        }
        let byte = data[start + nb];
        nb += 1;
        size = size | (((byte & 0x7F) as u64) << shift);
        if byte & 0x80 == 0 {
            return Some((size, nb));
        }
        if shift + 7 > 56 {
            return None;
        }
        shift += 7;
    }
}

fn push_leb128(w: &mut Vec<u8>, n: u64)
    ensures
        final(w)@ == old(w)@ + leb128_encode(n),
{
    let mut sz = n;
    loop
        invariant
            old(w)@ + leb128_encode(n) == w@ + leb128_encode(sz),
        decreases sz,
    {
        let mut byte = (sz & 0x7F) as u8;
        let rest = sz >> 7;
        proof {
            if rest != 0 {
                assert(rest < sz) by (bit_vector)
                    requires
                        rest == sz >> 7u64,
                        rest != 0,
                ;
            }
        }
        if rest != 0 {
            byte |= 0x80;
            assert(byte == ((sz & 0x7Fu64) | 0x80u64) as u8) by (bit_vector)
                requires
                    byte == ((sz & 0x7Fu64) as u8) | 0x80u8,
            ;
        }
        w.push(byte);
        sz = rest;
        if sz == 0 {
            assert(w@ =~= old(w)@ + leb128_encode(n));
            return;
        }
        assert(w@ + leb128_encode(sz) =~= old(w)@ + leb128_encode(n));
    }
}

/// Whether `ensure_av1_obu_size_fields` can run on `data`.
pub fn av1_obus_can_rewrite(data: &[u8]) -> (r: bool)
    ensures
        r == av1_obus_rewritable(data@),
{
    match scan_obus(data) {
        Some(k) => {
            let hs: usize = if (data[k] >> 2) & 1 == 1 {
                2
            } else {
                1
            };
            hs <= data.len() - k
        },
        None => true,
    }
}

/// Walks the OBUs: Some(offset of the first size-less OBU), or None when
/// every OBU is sized or a size field is malformed.
fn scan_obus(data: &[u8]) -> (r: Option<usize>)
    ensures
        r matches Some(k) ==> obu_scan(data@, 0) == ObuScan::SizeLess(k as int) && k
            < data@.len(),
        r is None ==> !(obu_scan(data@, 0) is SizeLess),
{
    let mut scan: usize = 0;
    while scan < data.len()
        invariant
            scan <= data@.len(),
            obu_scan(data@, 0) == obu_scan(data@, scan as int),
        decreases data.len() - scan,
    {
        let h = data[scan];
        let hs: usize = if (h >> 2) & 1 == 1 {
            2
        } else {
            1
        };
        if (h >> 1) & 1 == 1 {
            if hs > data.len() - scan {
                return None;
            }
            match read_leb128(data, scan + hs) {
                None => {
                    return None;
                },
                Some((size, nb)) => {
                    let avail = (data.len() - scan) as u64;
                    if (hs + nb) as u64 > avail || size > avail - (hs + nb) as u64 {
                        return None;
                    }
                    scan = scan + hs + nb + size as usize;
                },
            }
        } else {
            return Some(scan);
        }
    }
    None
}

/// Gives a size field to the OBU that lacks one, so that every OBU of the
/// result has `obu_has_size_field` set (ISO/IEC AV1-ISOBMFF requires it of
/// configOBUs). Data whose OBUs are all sized, or whose size fields are
/// malformed, is returned unchanged.
pub fn ensure_av1_obu_size_fields(data: &[u8]) -> (r: Vec<u8>)
    requires
        av1_obus_rewritable(data@),
    ensures
        r@ == spec_ensure_av1_obu_size_fields(data@),
{
    let first = scan_obus(data);
    if first.is_none() {
        return vstd::slice::slice_to_vec(data);
    }
    let ghost k = first.unwrap() as int;
    let mut result: Vec<u8> = Vec::new();
    let mut offset: usize = 0;
    while offset < data.len()
        invariant
            offset <= data@.len(),
            offset < data@.len() ==> obu_scan(data@, offset as int) == ObuScan::SizeLess(k),
            0 <= k < data@.len(),
            k + obu_header_size(data@[k]) <= data@.len(),
            result@ + obu_rewrite(data@, offset as int) == obu_rewrite(data@, 0),
        decreases data.len() - offset,
    {
        let h = data[offset];
        let hs: usize = if (h >> 2) & 1 == 1 {
            2
        } else {
            1
        };
        if (h >> 1) & 1 == 1 {
            if hs > data.len() - offset {
                return vstd::slice::slice_to_vec(data);
            }
            match read_leb128(data, offset + hs) {
                None => {
                    return vstd::slice::slice_to_vec(data);
                },
                Some((size, nb)) => {
                    let avail = (data.len() - offset) as u64;
                    if (hs + nb) as u64 > avail || size > avail - (hs + nb) as u64 {
                        return vstd::slice::slice_to_vec(data);
                    }
                    let end = offset + hs + nb + size as usize;
                    let piece = vstd::slice::slice_subrange(data, offset, end);
                    crate::util::push_bytes(&mut result, piece);
                    assert(obu_rewrite(data@, offset as int) == data@.subrange(offset as int, end as int) + obu_rewrite(data@, end as int));
                    assert(result@ + obu_rewrite(data@, end as int) =~= obu_rewrite(data@, 0));
                    offset = end;
                },
            }
        } else {
            let ghost before = result@;
            let payload_start = offset + hs;
            let payload_size = data.len() - payload_start;
            result.push(h | 0x02);
            if hs == 2 {
                result.push(data[offset + 1]);
            }
            push_leb128(&mut result, payload_size as u64);
            let tail = vstd::slice::slice_subrange(data, payload_start, data.len());
            crate::util::push_bytes(&mut result, tail);
            assert(result@ =~= before + obu_rewrite(data@, offset as int));
            assert(obu_rewrite(data@, data@.len() as int) =~= Seq::<u8>::empty());
            offset = data.len();
        }
    }
    assert(result@ =~= obu_rewrite(data@, 0));
    result
}


// ── Locating the sequence header and building av1C ───────────────

/// A LEB128 size with no limit on its length: (value, position after,
/// whether a group would be shifted past 64 bits).
pub open spec fn leb128_unbounded(data: Seq<u8>, pos: int, shift: int, acc: u64) -> (u64, int, bool)
    decreases data.len() - pos,
{
    if pos >= data.len() || pos < 0 {
        (acc, pos, false)
    } else if shift >= 64 {
        (acc, pos + 1, true)
    } else {
        let b = data[pos];
        let acc2 = (acc | ((((b & 0x7Fu8) as u64) << (shift as u64)) as u64)) as u64;
        if b & 0x80u8 == 0 {
            (acc2, pos + 1, false)
        } else {
            leb128_unbounded(data, pos + 1, shift + 7, acc2)
        }
    }
}

/// Where the sequence header OBU's payload lies in a config blob.
pub enum SeqHeaderSearch {
    Found(int, int),
    NotFound,
    /// An OBU size field overflows 64 bits.
    Overflow,
}

pub open spec fn find_seq_header(config: Seq<u8>, offset: int) -> SeqHeaderSearch
    decreases config.len() - offset,
{
    if offset >= config.len() || offset < 0 {
        SeqHeaderSearch::NotFound
    } else {
        let h = config[offset];
        let obu_type = (h >> 3u8) & 0x0Fu8;
        let o1 = offset + 1;
        let o2 = if (h >> 2u8) & 1u8 == 1 && o1 < config.len() {
            o1 + 1
        } else {
            o1
        };
        let (size, o3, overflow) = if obu_has_size(h) {
            leb128_unbounded(config, o2, 0, 0)
        } else {
            ((config.len() - o2) as u64, o2, false)
        };
        if overflow || o3 + size > u64::MAX {
            SeqHeaderSearch::Overflow
        } else if obu_type == 1 && o3 + size <= config.len() {
            SeqHeaderSearch::Found(o3, size as int)
        } else if o3 + size >= config.len() {
            SeqHeaderSearch::NotFound
        } else {
            proof {
                lemma_leb128_unbounded_advances(config, o2, 0, 0);
            }
            find_seq_header(config, o3 + size)
        }
    }
}

pub proof fn lemma_leb128_unbounded_advances(data: Seq<u8>, pos: int, shift: int, acc: u64)
    ensures
        leb128_unbounded(data, pos, shift, acc).1 >= pos,
        pos <= data.len() ==> leb128_unbounded(data, pos, shift, acc).1 <= data.len(),
    decreases data.len() - pos,
{
    if !(pos >= data.len() || pos < 0) && shift < 64 {
        let b = data[pos];
        let acc2 = (acc | ((((b & 0x7Fu8) as u64) << (shift as u64)) as u64)) as u64;
        if b & 0x80u8 != 0 {
            lemma_leb128_unbounded_advances(data, pos + 1, shift + 7, acc2);
        }
    }
}

/// The header a config's sequence header OBU parses to, if found.
pub open spec fn config_seq_header(config: Seq<u8>) -> Option<Av1SeqHeader> {
    match find_seq_header(config, 0) {
        SeqHeaderSearch::Found(s, n) => spec_parse_av1_sequence_header(config.subrange(s, s + n)),
        _ => None,
    }
}

/// Whether `av1c_box_from_config` can run on `config`.
pub open spec fn av1_config_ok(config: Seq<u8>) -> bool {
    config.len() == 0 || config[0] == 0x81 || (!(find_seq_header(config, 0) is Overflow)
        && av1_obus_rewritable(config))
}

/// Byte 1 of av1C: seq_profile (3 bits) and seq_level_idx_0 (5 bits).
pub open spec fn av1c_profile_level(h: Option<Av1SeqHeader>) -> u8 {
    match h {
        Some(s) => ((s.seq_profile << 5u8) | (s.seq_level_idx_0 & 0x1Fu8)) as u8,
        None => 0,
    }
}

/// Byte 2 of av1C: tier, bit depth, monochrome and chroma fields.
pub open spec fn av1c_flags(h: Option<Av1SeqHeader>) -> u8 {
    match h {
        Some(s) => ((s.seq_tier_0 << 7u8) | (s.high_bitdepth << 6u8) | (s.twelve_bit << 5u8) | (
        s.monochrome << 4u8) | (s.chroma_subsampling_x << 3u8) | (s.chroma_subsampling_y << 2u8)
            | (s.chroma_sample_position & 0x03u8)) as u8,
        None => 0,
    }
}

/// The av1C box content for a codec config: a config that already is an
/// AV1CodecConfigurationRecord (first byte 0x81) is kept; otherwise the
/// record is built from the sequence header OBU, followed by the OBUs with
/// size fields.
pub open spec fn spec_av1c_box_from_config(config: Seq<u8>) -> Seq<u8> {
    if config.len() == 0 {
        seq![0x81u8, 0x00u8, 0x00u8, 0x00u8]
    } else if config[0] == 0x81 {
        config
    } else {
        let h = config_seq_header(config);
        seq![0x81u8, av1c_profile_level(h), av1c_flags(h), 0x00u8]
            + spec_ensure_av1_obu_size_fields(config)
    }
}

fn read_leb128_unbounded(config: &[u8], start: usize) -> (r: (u64, usize, bool))
    requires
        start <= config@.len(),
    ensures
        (r.0, r.1 as int, r.2) == leb128_unbounded(config@, start as int, 0, 0),
{
    let mut pos = start;
    let mut shift: u64 = 0;
    let mut acc: u64 = 0;
    while pos < config.len()
        invariant
            start <= pos <= config@.len(),
            shift < 64 + 7,
            leb128_unbounded(config@, start as int, 0, 0) == leb128_unbounded(
                config@,
                pos as int,
                shift as int,
                acc,
            ),
        decreases config.len() - pos,
    {
        if shift >= 64 {
            return (acc, pos + 1, true);
        }
        let b = config[pos];
        acc = acc | (((b & 0x7F) as u64) << shift);
        pos += 1;
        if b & 0x80 == 0 {
            return (acc, pos, false);
        }
        shift += 7;
    }
    (acc, pos, false)
}

/// Finds the sequence header payload: Ok(Some((start, len))), Ok(None) when
/// absent, Err(()) when a size field overflows.
pub(crate) fn locate_seq_header(config: &[u8]) -> (r: Result<Option<(usize, usize)>, ()>)
    ensures
        r matches Ok(Some((s, n))) ==> find_seq_header(config@, 0) == SeqHeaderSearch::Found(
            s as int,
            n as int,
        ) && s + n <= config@.len(),
        r matches Ok(None) ==> find_seq_header(config@, 0) is NotFound,
        r is Err ==> find_seq_header(config@, 0) is Overflow,
{
    let mut offset: usize = 0;
    while offset < config.len()
        invariant
            offset <= config@.len(),
            find_seq_header(config@, 0) == find_seq_header(config@, offset as int),
        decreases config.len() - offset,
    {
        let h = config[offset];
        let obu_type = (h >> 3) & 0x0F;
        let mut o = offset + 1;
        if (h >> 2) & 1 == 1 && o < config.len() {
            o += 1;
        }
        let (size, o3, overflow) = if (h >> 1) & 1 == 1 {
            read_leb128_unbounded(config, o)
        } else {
            ((config.len() - o) as u64, o, false)
        };
        proof {
            lemma_leb128_unbounded_advances(config@, o as int, 0, 0);
        }
        if overflow || size > u64::MAX - o3 as u64 {
            return Err(());
        }
        if obu_type == 1 && size <= (config.len() - o3) as u64 {
            return Ok(Some((o3, size as usize)));
        }
        if size >= (config.len() - o3) as u64 {
            return Ok(None);
        }
        offset = o3 + size as usize;
    }
    Ok(None)
}

/// Whether `av1c_box_from_config` can run on `config`.
pub fn av1_config_is_ok(config: &[u8]) -> (r: bool)
    ensures
        r == av1_config_ok(config@),
{
    if config.len() == 0 || config[0] == 0x81 {
        return true;
    }
    match locate_seq_header(config) {
        Err(()) => false,
        _ => av1_obus_can_rewrite(config),
    }
}

/// Builds the av1C box content (AV1CodecConfigurationRecord) for a codec
/// config, parsing the sequence header OBU for profile, level and colour
/// format when the config is raw OBUs.
pub fn av1c_box_from_config(config: &[u8]) -> (r: Vec<u8>)
    requires
        av1_config_ok(config@),
    ensures
        r@ == spec_av1c_box_from_config(config@),
{
    if config.len() == 0 {
        let r = vec![0x81u8, 0x00, 0x00, 0x00];
        assert(r@ =~= seq![0x81u8, 0x00u8, 0x00u8, 0x00u8]);
        return r;
    }
    if config[0] == 0x81 {
        return vstd::slice::slice_to_vec(config);
    }
    let h = match locate_seq_header(config) {
        Ok(Some((s, n))) => parse_av1_sequence_header(vstd::slice::slice_subrange(config, s, s + n)),
        _ => None,
    };
    let (profile_level, flags2) = match h {
        Some(s) => (
            (s.seq_profile << 5) | (s.seq_level_idx_0 & 0x1F),
            (s.seq_tier_0 << 7) | (s.high_bitdepth << 6) | (s.twelve_bit << 5) | (s.monochrome << 4)
                | (s.chroma_subsampling_x << 3) | (s.chroma_subsampling_y << 2) | (
            s.chroma_sample_position & 0x03),
        ),
        None => (0u8, 0u8),
    };
    let mut av1c = vec![0x81u8, profile_level, flags2, 0x00];
    let with_sizes = ensure_av1_obu_size_fields(config);
    crate::util::push_bytes(&mut av1c, with_sizes.as_slice());
    assert(h == config_seq_header(config@));
    assert(av1c@ =~= spec_av1c_box_from_config(config@));
    av1c
}

} // verus!
