//! Recording helpers: moving a fragment's decode time onto the recording's
//! timeline, recording file names, and the index of recordings.
use crate::text::{chars_of, string_of};
use crate::util::{be32, be64, be_u32_at, be_u64_at, find_box, find_box_in_range, read_u32, read_u64, spec_find_box_from};
use std::collections::HashMap;
use vstd::prelude::*;

verus! {

/// A box found by the walk lies within the data, with a size of at least 8.
pub proof fn lemma_found_box_bounds(data: Seq<u8>, t: Seq<u8>, off: int)
    requires
        off >= 0,
        spec_find_box_from(data, t, off) is Some,
    ensures
        ({
            let o = spec_find_box_from(data, t, off)->0;
            &&& o >= off
            &&& o + 8 <= data.len()
            &&& 8 <= be_u32_at(data, o)
            &&& o + be_u32_at(data, o) <= data.len()
        }),
    decreases data.len() + 16 - off,
{
    let size = be_u32_at(data, off) as int;
    if off + 8 <= data.len() && size == 1 {
        lemma_found_box_bounds(data, t, off + 16);
    } else if off + 8 <= data.len() && size >= 8 && off + size <= data.len() && data.subrange(
        off + 4,
        off + 8,
    ) != t {
        lemma_found_box_bounds(data, t, off + size);
    }
}

/// Where the first tfdt of the first traf of the first moof is: (offset of
/// its decode time field, version), if the boxes are there and the tfdt is
/// large enough for its decode time: 16 bytes for version 0 (a 32-bit
/// time), 20 for version 1 (a 64-bit time).
pub open spec fn tfdt_field(s: Seq<u8>) -> Option<(int, u8)> {
    match spec_find_box_from(s, seq![0x6du8, 0x6fu8, 0x6fu8, 0x66u8], 0) {
        None => None,
        Some(moof) => {
            let moof_end = moof + be_u32_at(s, moof);
            match spec_find_box_from(
                s.subrange(moof + 8, moof_end),
                seq![0x74u8, 0x72u8, 0x61u8, 0x66u8],
                0,
            ) {
                None => None,
                Some(t) => {
                    let traf = moof + 8 + t;
                    let traf_end = traf + be_u32_at(s, traf);
                    match spec_find_box_from(
                        s.subrange(traf + 8, traf_end),
                        seq![0x74u8, 0x66u8, 0x64u8, 0x74u8],
                        0,
                    ) {
                        None => None,
                        Some(d) => {
                            let tfdt = traf + 8 + d;
                            let size = be_u32_at(s, tfdt);
                            if tfdt + size > s.len() || size < 16 {
                                None
                            } else if s[tfdt + 8] == 1 && size < 20 {
                                None
                            } else {
                                Some((tfdt + 12, s[tfdt + 8]))
                            }
                        },
                    }
                },
            }
        },
    }
}

/// The decode time in a segment moved by `offset`: (new time, bytes after),
/// for version 1 (64-bit) and version 0 (32-bit, stored truncated) tfdt.
pub open spec fn spec_rewrite_tfdt(s: Seq<u8>, offset: u64) -> Option<(int, Seq<u8>)> {
    match tfdt_field(s) {
        Some((ds, 1)) => if ds + 8 <= s.len() {
            let t = be_u64_at(s, ds) + offset;
            Some((t, s.subrange(0, ds) + be64(t as u64) + s.subrange(ds + 8, s.len() as int)))
        } else {
            None
        },
        Some((ds, 0)) => if ds + 4 <= s.len() {
            let t = be_u32_at(s, ds) + offset;
            Some((t, s.subrange(0, ds) + be32(t as u32) + s.subrange(ds + 4, s.len() as int)))
        } else {
            None
        },
        _ => None,
    }
}

/// Whether moving the decode time by `offset` stays within 64 bits.
pub open spec fn tfdt_rewrite_in_range(s: Seq<u8>, offset: u64) -> bool {
    spec_rewrite_tfdt(s, offset) matches Some((t, _)) ==> t <= u64::MAX
}

fn tfdt_location(segment: &[u8]) -> (r: Option<(usize, u8)>)
    ensures
        r matches Some((ds, v)) ==> tfdt_field(segment@) == Some((ds as int, v)) && ds <= segment@.len(),
        r is None ==> tfdt_field(segment@) is None,
{
    let _len = segment.len();
    let moof_t: [u8; 4] = [0x6d, 0x6f, 0x6f, 0x66];
    let traf_t: [u8; 4] = [0x74, 0x72, 0x61, 0x66];
    let tfdt_t: [u8; 4] = [0x74, 0x66, 0x64, 0x74];
    assert(moof_t@ =~= seq![0x6du8, 0x6fu8, 0x6fu8, 0x66u8]);
    assert(traf_t@ =~= seq![0x74u8, 0x72u8, 0x61u8, 0x66u8]);
    assert(tfdt_t@ =~= seq![0x74u8, 0x66u8, 0x64u8, 0x74u8]);
    let moof_pos = match find_box(segment, &moof_t) {
        Some(p) => p,
        None => return None,
    };
    proof {
        lemma_found_box_bounds(segment@, moof_t@, 0);
        assert(moof_pos + 8 <= segment@.len());
    }
    let moof_size = read_u32(vstd::slice::slice_subrange(segment, moof_pos, moof_pos + 4)) as usize;
    proof {
        let sub = segment@.subrange(moof_pos as int, moof_pos + 4);
        assert(sub[0] == segment@[moof_pos as int] && sub[1] == segment@[moof_pos + 1]
            && sub[2] == segment@[moof_pos + 2] && sub[3] == segment@[moof_pos + 3]);
    }
    let moof_end = moof_pos + moof_size;
    let moof_body = vstd::slice::slice_subrange(segment, moof_pos + 8, moof_end);
    let t = match find_box_in_range(moof_body, &traf_t) {
        Some(p) => p,
        None => return None,
    };
    proof {
        lemma_found_box_bounds(moof_body@, traf_t@, 0);
    }
    let traf_pos = moof_pos + 8 + t;
    let traf_size = read_u32(vstd::slice::slice_subrange(segment, traf_pos, traf_pos + 4)) as usize;
    proof {
        let sub = segment@.subrange(traf_pos as int, traf_pos + 4);
        assert(sub[0] == segment@[traf_pos as int] && sub[1] == segment@[traf_pos + 1]
            && sub[2] == segment@[traf_pos + 2] && sub[3] == segment@[traf_pos + 3]);
        assert(moof_body@[t as int] == segment@[traf_pos as int]);
        assert(moof_body@[t + 1] == segment@[traf_pos + 1]);
        assert(moof_body@[t + 2] == segment@[traf_pos + 2]);
        assert(moof_body@[t + 3] == segment@[traf_pos + 3]);
        assert(be_u32_at(moof_body@, t as int) == be_u32_at(segment@, traf_pos as int));
    }
    let traf_end = traf_pos + traf_size;
    let traf_body = vstd::slice::slice_subrange(segment, traf_pos + 8, traf_end);
    let d = match find_box_in_range(traf_body, &tfdt_t) {
        Some(p) => p,
        None => return None,
    };
    proof {
        lemma_found_box_bounds(traf_body@, tfdt_t@, 0);
    }
    let tfdt_pos = traf_pos + 8 + d;
    let tfdt_size = read_u32(vstd::slice::slice_subrange(segment, tfdt_pos, tfdt_pos + 4)) as usize;
    proof {
        let sub = segment@.subrange(tfdt_pos as int, tfdt_pos + 4);
        assert(sub[0] == segment@[tfdt_pos as int] && sub[1] == segment@[tfdt_pos + 1]
            && sub[2] == segment@[tfdt_pos + 2] && sub[3] == segment@[tfdt_pos + 3]);
    }
    if tfdt_size > segment.len() - tfdt_pos || tfdt_size < 16 {
        return None;
    }
    let version = segment[tfdt_pos + 8];
    if version == 1 && tfdt_size < 20 {
        return None;
    }
    Some((tfdt_pos + 12, version))
}

/// Whether `rewrite_segment_tfdt(segment, offset)` can run.
pub fn tfdt_rewrite_is_in_range(segment: &[u8], offset: u64) -> (r: bool)
    ensures
        r == tfdt_rewrite_in_range(segment@, offset),
{
    match tfdt_location(segment) {
        Some((ds, 1)) => {
            if segment.len() - ds >= 8 {
                let t = read_u64(vstd::slice::slice_subrange(segment, ds, ds + 8));
                proof {
                    lemma_read_at(segment@, ds as int);
                }
                t <= u64::MAX - offset
            } else {
                true
            }
        },
        Some((ds, 0)) => {
            if segment.len() - ds >= 4 {
                let t = read_u32(vstd::slice::slice_subrange(segment, ds, ds + 4));
                proof {
                    lemma_read_at(segment@, ds as int);
                }
                t as u64 <= u64::MAX - offset
            } else {
                true
            }
        },
        _ => true,
    }
}

proof fn lemma_read_at(s: Seq<u8>, ds: int)
    requires
        0 <= ds,
    ensures
        ds + 8 <= s.len() ==> be_u64_at(s.subrange(ds, ds + 8), 0) == be_u64_at(s, ds),
        ds + 4 <= s.len() ==> be_u32_at(s.subrange(ds, ds + 4), 0) == be_u32_at(s, ds),
{
    if ds + 8 <= s.len() {
        let sub = s.subrange(ds, ds + 8);
        assert(sub[0] == s[ds] && sub[1] == s[ds + 1] && sub[2] == s[ds + 2] && sub[3] == s[ds + 3]);
        assert(sub[4] == s[ds + 4] && sub[5] == s[ds + 5] && sub[6] == s[ds + 6] && sub[7] == s[ds
            + 7]);
    }
    if ds + 4 <= s.len() {
        let sub = s.subrange(ds, ds + 4);
        assert(sub[0] == s[ds] && sub[1] == s[ds + 1] && sub[2] == s[ds + 2] && sub[3] == s[ds + 3]);
    }
}

/// Moves the base media decode time of a fragment (first tfdt of the first
/// traf of the first moof) by `offset` and returns the new time; None, with
/// the segment unchanged, when there is no such tfdt. A version 0 tfdt
/// stores the new time truncated to 32 bits.
pub fn rewrite_segment_tfdt(segment: &mut [u8], offset: u64) -> (r: Option<u64>)
    requires
        tfdt_rewrite_in_range(old(segment)@, offset),
    ensures
        match spec_rewrite_tfdt(old(segment)@, offset) {
            Some((t, bytes)) => r == Some(t as u64) && final(segment)@ == bytes,
            None => r is None && final(segment)@ == old(segment)@,
        },
{
    let loc = tfdt_location(segment);
    match loc {
        Some((ds, 1)) => {
            if ds <= segment.len() && segment.len() - ds >= 8 {
                let base = read_u64(vstd::slice::slice_subrange(segment, ds, ds + 8));
                proof {
                    lemma_read_at(old(segment)@, ds as int);
                }
                let new_time = base + offset;
                write_u64_at(segment, ds, new_time);
                Some(new_time)
            } else {
                None
            }
        },
        Some((ds, 0)) => {
            if ds <= segment.len() && segment.len() - ds >= 4 {
                let base = read_u32(vstd::slice::slice_subrange(segment, ds, ds + 4)) as u64;
                proof {
                    lemma_read_at(old(segment)@, ds as int);
                }
                let new_time = base + offset;
                write_u32_at(segment, ds, new_time as u32);
                Some(new_time)
            } else {
                None
            }
        },
        _ => None,
    }
}

fn write_u64_at(data: &mut [u8], off: usize, value: u64)
    requires
        off + 8 <= old(data)@.len(),
    ensures
        final(data)@ == old(data)@.subrange(0, off as int) + be64(value) + old(data)@.subrange(
            off + 8,
            old(data)@.len() as int,
        ),
{
    data[off] = (value >> 56) as u8;
    data[off + 1] = (value >> 48) as u8;
    data[off + 2] = (value >> 40) as u8;
    data[off + 3] = (value >> 32) as u8;
    data[off + 4] = (value >> 24) as u8;
    data[off + 5] = (value >> 16) as u8;
    data[off + 6] = (value >> 8) as u8;
    data[off + 7] = value as u8;
    assert(data@ =~= old(data)@.subrange(0, off as int) + be64(value) + old(data)@.subrange(
        off + 8,
        old(data)@.len() as int,
    ));
}

fn write_u32_at(data: &mut [u8], off: usize, value: u32)
    requires
        off + 4 <= old(data)@.len(),
    ensures
        final(data)@ == old(data)@.subrange(0, off as int) + be32(value) + old(data)@.subrange(
            off + 4,
            old(data)@.len() as int,
        ),
{
    data[off] = (value >> 24) as u8;
    data[off + 1] = (value >> 16) as u8;
    data[off + 2] = (value >> 8) as u8;
    data[off + 3] = value as u8;
    assert(data@ =~= old(data)@.subrange(0, off as int) + be32(value) + old(data)@.subrange(
        off + 4,
        old(data)@.len() as int,
    ));
}

/// Reading the decode time back after a rewrite gives the new time (its
/// low 32 bits for a version 0 tfdt).
pub proof fn lemma_rewrite_reads_back(s: Seq<u8>, offset: u64)
    requires
        spec_rewrite_tfdt(s, offset) is Some,
        tfdt_rewrite_in_range(s, offset),
    ensures
        ({
            let (t, bytes) = spec_rewrite_tfdt(s, offset)->0;
            let (ds, v) = tfdt_field(s)->0;
            &&& bytes.len() == s.len()
            &&& v == 1 ==> be_u64_at(bytes, ds) == t
            &&& v == 0 ==> be_u32_at(bytes, ds) == t as u32
        }),
{
    let (t, bytes) = spec_rewrite_tfdt(s, offset)->0;
    let (ds, v) = tfdt_field(s)->0;
    lemma_tfdt_field_bounds(s);
    if v == 1 {
        let rest = s.subrange(ds + 8, s.len() as int);
        crate::util::lemma_read_u64_of_write(t as u64, rest);
        let w = be64(t as u64) + rest;
        assert(bytes == s.subrange(0, ds) + w);
        assert(bytes[ds] == w[0] && bytes[ds + 1] == w[1] && bytes[ds + 2] == w[2] && bytes[ds + 3]
            == w[3]);
        assert(bytes[ds + 4] == w[4] && bytes[ds + 5] == w[5] && bytes[ds + 6] == w[6] && bytes[ds
            + 7] == w[7]);
    } else {
        let rest = s.subrange(ds + 4, s.len() as int);
        crate::util::lemma_read_u32_of_write(t as u32, rest);
        let w = be32(t as u32) + rest;
        assert(bytes == s.subrange(0, ds) + w);
        assert(bytes[ds] == w[0] && bytes[ds + 1] == w[1] && bytes[ds + 2] == w[2] && bytes[ds + 3]
            == w[3]);
    }
}

proof fn lemma_tfdt_field_bounds(s: Seq<u8>)
    ensures
        tfdt_field(s) matches Some((ds, _)) ==> 12 <= ds <= s.len(),
{
    let m = seq![0x6du8, 0x6fu8, 0x6fu8, 0x66u8];
    if let Some(moof) = spec_find_box_from(s, m, 0) {
        lemma_found_box_bounds(s, m, 0);
        let moof_end = moof + be_u32_at(s, moof);
        let b1 = s.subrange(moof + 8, moof_end);
        let tr = seq![0x74u8, 0x72u8, 0x61u8, 0x66u8];
        if let Some(t) = spec_find_box_from(b1, tr, 0) {
            lemma_found_box_bounds(b1, tr, 0);
            let traf = moof + 8 + t;
            let traf_end = traf + be_u32_at(s, traf);
            let b2 = s.subrange(traf + 8, traf_end);
            let td = seq![0x74u8, 0x66u8, 0x64u8, 0x74u8];
            if traf + 8 <= traf_end <= s.len() {
                if let Some(d) = spec_find_box_from(b2, td, 0) {
                    lemma_found_box_bounds(b2, td, 0);
                }
            }
        }
    }
}

/// The walk that finds a box reads nothing past the found box's header:
/// data that agrees up to there (and has the same length) gives the same
/// result.
proof fn lemma_find_box_frame(d1: Seq<u8>, d2: Seq<u8>, t: Seq<u8>, off: int)
    requires
        off >= 0,
        d1.len() == d2.len(),
        spec_find_box_from(d1, t, off) is Some,
        forall|i: int|
            0 <= i < spec_find_box_from(d1, t, off)->0 + 8 && i < d1.len() ==> d1[i] == d2[i],
    ensures
        spec_find_box_from(d2, t, off) == spec_find_box_from(d1, t, off),
    decreases d1.len() + 16 - off,
{
    let o = spec_find_box_from(d1, t, off)->0;
    lemma_found_box_bounds(d1, t, off);
    if off + 8 <= d1.len() {
        assert(d1[off] == d2[off] && d1[off + 1] == d2[off + 1] && d1[off + 2] == d2[off + 2]
            && d1[off + 3] == d2[off + 3]);
        let size = be_u32_at(d1, off) as int;
        assert(be_u32_at(d2, off) == be_u32_at(d1, off));
        if size == 1 {
            lemma_find_box_frame(d1, d2, t, off + 16);
        } else if size >= 8 && off + size <= d1.len() {
            assert(d1.subrange(off + 4, off + 8) =~= d2.subrange(off + 4, off + 8)) by {
                assert(d1[off + 4] == d2[off + 4] && d1[off + 5] == d2[off + 5] && d1[off + 6]
                    == d2[off + 6] && d1[off + 7] == d2[off + 7]);
            }
            if d1.subrange(off + 4, off + 8) != t {
                lemma_find_box_frame(d1, d2, t, off + size);
            }
        }
    }
}

/// Rewriting bytes at or after the decode time field leaves the field
/// where it was: the box walk that finds it reads only earlier bytes.
proof fn lemma_tfdt_field_frame(s: Seq<u8>, s2: Seq<u8>)
    requires
        tfdt_field(s) is Some,
        s2.len() == s.len(),
        forall|i: int| 0 <= i < (tfdt_field(s)->0).0 ==> s[i] == s2[i],
    ensures
        tfdt_field(s2) == tfdt_field(s),
{
    let ds = (tfdt_field(s)->0).0;
    let m = seq![0x6du8, 0x6fu8, 0x6fu8, 0x66u8];
    let moof = spec_find_box_from(s, m, 0)->0;
    lemma_found_box_bounds(s, m, 0);
    let moof_end = moof + be_u32_at(s, moof);
    let b1 = s.subrange(moof + 8, moof_end);
    let tr = seq![0x74u8, 0x72u8, 0x61u8, 0x66u8];
    let t = spec_find_box_from(b1, tr, 0)->0;
    lemma_found_box_bounds(b1, tr, 0);
    let traf = moof + 8 + t;
    let traf_end = traf + be_u32_at(s, traf);
    assert(be_u32_at(b1, t) == be_u32_at(s, traf)) by {
        assert(b1[t] == s[traf] && b1[t + 1] == s[traf + 1] && b1[t + 2] == s[traf + 2] && b1[t
            + 3] == s[traf + 3]);
    }
    let b2 = s.subrange(traf + 8, traf_end);
    let td = seq![0x74u8, 0x66u8, 0x64u8, 0x74u8];
    let d = spec_find_box_from(b2, td, 0)->0;
    lemma_found_box_bounds(b2, td, 0);
    let tfdt = traf + 8 + d;
    assert(ds == tfdt + 12);
    lemma_find_box_frame(s, s2, m, 0);
    assert(be_u32_at(s2, moof) == be_u32_at(s, moof)) by {
        assert(s[moof] == s2[moof] && s[moof + 1] == s2[moof + 1] && s[moof + 2] == s2[moof + 2]
            && s[moof + 3] == s2[moof + 3]);
    }
    let c1 = s2.subrange(moof + 8, moof_end);
    lemma_find_box_frame(b1, c1, tr, 0);
    assert(be_u32_at(s2, traf) == be_u32_at(s, traf)) by {
        assert(s[traf] == s2[traf] && s[traf + 1] == s2[traf + 1] && s[traf + 2] == s2[traf + 2]
            && s[traf + 3] == s2[traf + 3]);
    }
    let c2 = s2.subrange(traf + 8, traf_end);
    lemma_find_box_frame(b2, c2, td, 0);
    assert(be_u32_at(s2, tfdt) == be_u32_at(s, tfdt)) by {
        assert(s[tfdt] == s2[tfdt] && s[tfdt + 1] == s2[tfdt + 1] && s[tfdt + 2] == s2[tfdt + 2]
            && s[tfdt + 3] == s2[tfdt + 3]);
    }
    assert(s2[tfdt + 8] == s[tfdt + 8]);
}

// ── Recording timeline ───────────────────────────────────────────

/// The decode-time placement of a recording's fragments: the offset added
/// to each fragment's tfdt and the last tfdt written.
pub struct RecordingTimeline {
    offset: u64,
    last_tfdt: Option<u64>,
}

pub struct TimelineView {
    pub offset: u64,
    pub last_tfdt: Option<u64>,
}

impl View for RecordingTimeline {
    type V = TimelineView;

    closed spec fn view(&self) -> TimelineView {
        TimelineView { offset: self.offset, last_tfdt: self.last_tfdt }
    }
}

/// How a fragment is placed: its tfdt moves by the offset; when that lands
/// before the last tfdt written, the offset grows by the gap plus one and
/// the (already moved) fragment moves again by the grown offset. Returns
/// the tfdt written (None with nothing changed when the fragment has no
/// tfdt), the new timeline and the bytes.
pub open spec fn spec_place(v: TimelineView, s: Seq<u8>) -> (Option<int>, TimelineView, Seq<u8>) {
    match spec_rewrite_tfdt(s, v.offset) {
        None => (None, v, s),
        Some((t, b1)) => match v.last_tfdt {
            Some(l) if t < l => {
                let off2 = v.offset + (l - t) + 1;
                match spec_rewrite_tfdt(b1, off2 as u64) {
                    Some((t2, b2)) => (
                        Some(t2),
                        TimelineView { offset: off2 as u64, last_tfdt: Some(t2 as u64) },
                        b2,
                    ),
                    None => (Some(t), TimelineView { offset: off2 as u64, ..v }, b1),
                }
            },
            _ => (Some(t), TimelineView { last_tfdt: Some(t as u64), ..v }, b1),
        },
    }
}

/// Whether placing the fragment keeps every time and the offset in 64 bits.
pub open spec fn place_in_range(v: TimelineView, s: Seq<u8>) -> bool {
    &&& tfdt_rewrite_in_range(s, v.offset)
    &&& match (spec_rewrite_tfdt(s, v.offset), v.last_tfdt) {
        (Some((t, b1)), Some(l)) => t < l ==> {
            let off2 = v.offset + (l - t) + 1;
            &&& off2 <= u64::MAX
            &&& tfdt_rewrite_in_range(b1, off2 as u64)
        },
        _ => true,
    }
}

impl RecordingTimeline {
    pub fn new() -> (r: Self)
        ensures
            r@ == (TimelineView { offset: 0, last_tfdt: None }),
    {
        RecordingTimeline { offset: 0, last_tfdt: None }
    }

    /// Forgets the last tfdt (a new recording file starts).
    pub fn restart_file(&mut self)
        ensures
            final(self)@ == (TimelineView { last_tfdt: None, ..old(self)@ }),
    {
        self.last_tfdt = None;
    }

    pub fn offset(&self) -> (r: u64)
        ensures
            r == self@.offset,
    {
        self.offset
    }

    pub fn last_tfdt(&self) -> (r: Option<u64>)
        ensures
            r == self@.last_tfdt,
    {
        self.last_tfdt
    }

    /// Whether `place_segment` keeps all times in 64 bits for this fragment.
    pub fn place_is_in_range(&self, segment: &[u8]) -> (r: bool)
        ensures
            r == place_in_range(self@, segment@),
    {
        if !tfdt_rewrite_is_in_range(segment, self.offset) {
            return false;
        }
        let mut copy = vstd::slice::slice_to_vec(segment);
        let first = rewrite_segment_tfdt(copy.as_mut_slice(), self.offset);
        match (first, self.last_tfdt) {
            (Some(t), Some(l)) => {
                if t < l {
                    let gap = l - t;
                    if gap >= u64::MAX - self.offset {
                        return false;
                    }
                    tfdt_rewrite_is_in_range(copy.as_slice(), self.offset + gap + 1)
                } else {
                    true
                }
            },
            _ => true,
        }
    }

    /// Moves the fragment's decode time onto the recording's timeline,
    /// bridging a backward jump; returns the tfdt written.
    pub fn place_segment(&mut self, segment: &mut [u8]) -> (r: Option<u64>)
        requires
            place_in_range(old(self)@, old(segment)@),
        ensures
            ({
                let (t, v, bytes) = spec_place(old(self)@, old(segment)@);
                &&& final(self)@ == v
                &&& final(segment)@ == bytes
                &&& match t {
                    Some(x) => r == Some(x as u64),
                    None => r is None,
                }
            }),
    {
        let first = rewrite_segment_tfdt(segment, self.offset);
        match first {
            Some(t) => {
                match self.last_tfdt {
                    Some(l) => {
                        if t < l {
                            let gap = l - t + 1;
                            self.offset = self.offset + gap;
                            proof {
                                let b1 = (spec_rewrite_tfdt(old(segment)@, old(self)@.offset)->0).1;
                                assert(segment@ == b1);
                            }
                            match rewrite_segment_tfdt(segment, self.offset) {
                                Some(t2) => {
                                    self.last_tfdt = Some(t2);
                                    Some(t2)
                                },
                                None => Some(t),
                            }
                        } else {
                            self.last_tfdt = Some(t);
                            Some(t)
                        }
                    },
                    None => {
                        self.last_tfdt = Some(t);
                        Some(t)
                    },
                }
            },
            None => None,
        }
    }
}

/// A recording's decode times never go back: with a 64-bit tfdt, the time
/// written for each fragment is at least the last one written, and after a
/// backward jump strictly past it.
pub proof fn lemma_timeline_monotonic(v: TimelineView, s: Seq<u8>)
    requires
        place_in_range(v, s),
        tfdt_field(s) matches Some((_, ver)) && ver == 1,
    ensures
        ({
            let (t, v2, _) = spec_place(v, s);
            &&& t matches Some(x) ==> v2.last_tfdt == Some(x as u64)
            &&& match (t, v.last_tfdt) {
                (Some(x), Some(l)) => x >= l,
                _ => true,
            }
        }),
{
    if let Some((t, b1)) = spec_rewrite_tfdt(s, v.offset) {
        if let Some(l) = v.last_tfdt {
            if t < l {
                let off2 = v.offset + (l - t) + 1;
                lemma_rewrite_reads_back(s, v.offset);
                lemma_tfdt_field_bounds(s);
                let (ds, ver) = tfdt_field(s)->0;
                assert forall|i: int| 0 <= i < ds implies s[i] == b1[i] by {
                    assert(b1 == s.subrange(0, ds) + be64(t as u64) + s.subrange(
                        ds + 8,
                        s.len() as int,
                    ));
                }
                lemma_tfdt_field_frame(s, b1);
                assert(be_u64_at(b1, ds) == t);
            }
        }
    }
}

/// What a recorder does with an init segment.
#[derive(Clone, Copy, Debug)]
pub enum RecorderInit {
    /// The codec configuration changed while a file is open: close it and
    /// start a new recording with this init segment.
    Rotate,
    /// The open file already has its init segment.
    Keep,
    /// No file is open: start a recording with this init segment.
    Create,
    /// A file is open without an init segment recorded: take this one as
    /// its init segment without writing it.
    Adopt,
}

/// The recorder's decision for an init segment hashing to `new_hash`.
pub open spec fn spec_recorder_init(
    last_hash: Option<u64>,
    new_hash: u64,
    file_open: bool,
    init_written: bool,
) -> RecorderInit {
    if last_hash is Some && last_hash != Some(new_hash) && file_open {
        RecorderInit::Rotate
    } else if init_written && file_open {
        RecorderInit::Keep
    } else if !file_open {
        RecorderInit::Create
    } else {
        RecorderInit::Adopt
    }
}

pub fn recorder_init(last_hash: Option<u64>, new_hash: u64, file_open: bool, init_written: bool) -> (r: RecorderInit)
    ensures
        r == spec_recorder_init(last_hash, new_hash, file_open, init_written),
{
    let changed = match last_hash {
        Some(h) => h != new_hash,
        None => false,
    };
    if changed && file_open {
        RecorderInit::Rotate
    } else if init_written && file_open {
        RecorderInit::Keep
    } else if !file_open {
        RecorderInit::Create
    } else {
        RecorderInit::Adopt
    }
}

// ── Recording names and index ────────────────────────────────────

/// `s` without a ".mp4" suffix.
pub open spec fn mp4_stem(s: Seq<char>) -> Seq<char> {
    if s.len() >= 4 && s.subrange(s.len() - 4, s.len() as int) == seq!['.', 'm', 'p', '4'] {
        s.subrange(0, s.len() - 4)
    } else {
        s
    }
}

/// The index of the last `c` in `s`, or -1.
pub open spec fn last_index_of(s: Seq<char>, c: char) -> int
    decreases s.len(),
{
    if s.len() == 0 {
        -1
    } else if s.last() == c {
        s.len() - 1
    } else {
        last_index_of(s.drop_last(), c)
    }
}

/// The stream key of a recording named `{key}_{YYYYMMDD}_{HHMMSS}.mp4`:
/// the stem up to its second-to-last '_', or the whole stem when it has
/// fewer than two.
pub open spec fn spec_stream_key_of(name: Seq<char>) -> Seq<char> {
    let stem = mp4_stem(name);
    let p1 = last_index_of(stem, '_');
    if p1 < 0 {
        stem
    } else {
        let p2 = last_index_of(stem.subrange(0, p1), '_');
        if p2 < 0 {
            stem
        } else {
            stem.subrange(0, p2)
        }
    }
}

proof fn lemma_last_index(s: Seq<char>, c: char, i: int)
    requires
        -1 <= i < s.len(),
        forall|k: int| i < k < s.len() ==> s[k] != c,
        i >= 0 ==> s[i] == c,
    ensures
        last_index_of(s, c) == i,
    decreases s.len(),
{
    if s.len() > 0 && s.last() != c {
        lemma_last_index(s.drop_last(), c, i);
    }
}

/// Index of the last `c` in `cs[..end]`.
proof fn lemma_last_index_after(p: Seq<char>, c: char, q: Seq<char>)
    requires
        forall|i: int| 0 <= i < q.len() ==> q[i] != c,
    ensures
        last_index_of(p + seq![c] + q, c) == p.len(),
    decreases q.len(),
{
    let s = p + seq![c] + q;
    if q.len() == 0 {
        assert(s.last() == c);
    } else {
        assert(s.drop_last() =~= p + seq![c] + q.drop_last());
        assert(s.last() == q.last());
        lemma_last_index_after(p, c, q.drop_last());
    }
}

/// A recording's file name gives its stream key back: for the name
/// `{key}_{date}_{time}.mp4` that a recording is saved under, where the
/// date and time parts hold no '_', the parsed key is `key`, underscores in
/// the key included.
pub proof fn lemma_stream_key_round_trip(key: Seq<char>, date: Seq<char>, time: Seq<char>)
    requires
        forall|i: int| 0 <= i < date.len() ==> date[i] != '_',
        forall|i: int| 0 <= i < time.len() ==> time[i] != '_',
    ensures
        spec_stream_key_of(key + seq!['_'] + date + seq!['_'] + time + seq!['.', 'm', 'p', '4'])
            == key,
{
    let stem = key + seq!['_'] + date + seq!['_'] + time;
    let name = stem + seq!['.', 'm', 'p', '4'];
    assert(name.subrange(name.len() - 4, name.len() as int) =~= seq!['.', 'm', 'p', '4']);
    assert(name.subrange(0, name.len() - 4) =~= stem);
    assert(mp4_stem(name) == stem);
    let head = key + seq!['_'] + date;
    assert(stem =~= head + seq!['_'] + time);
    lemma_last_index_after(head, '_', time);
    let p1 = head.len() as int;
    assert(stem.subrange(0, p1) =~= key + seq!['_'] + date);
    lemma_last_index_after(key, '_', date);
    assert(stem.subrange(0, p1).subrange(0, key.len() as int) =~= key);
    assert(stem.subrange(0, key.len() as int) =~= key);
}

fn find_last(cs: &[char], end: usize, c: char) -> (r: Option<usize>)
    requires
        end <= cs@.len(),
    ensures
        r matches Some(i) ==> last_index_of(cs@.subrange(0, end as int), c) == i && i < end,
        r is None ==> last_index_of(cs@.subrange(0, end as int), c) == -1,
{
    let mut i: usize = end;
    while i > 0 && cs[i - 1] != c
        invariant
            i <= end,
            end <= cs@.len(),
            forall|k: int| i <= k < end ==> cs@[k] != c,
        decreases i,
    {
        i -= 1;
    }
    proof {
        lemma_last_index(cs@.subrange(0, end as int), c, i - 1);
    }
    if i == 0 {
        None
    } else {
        Some(i - 1)
    }
}

/// Parses the stream key from a recording filename like
/// `{key}_{YYYYMMDD}_{HHMMSS}.mp4`.
pub fn parse_stream_key_from_filename(name: &str) -> (r: String)
    ensures
        r@ == spec_stream_key_of(name@),
{
    let cs = chars_of(name);
    let n = cs.len();
    let mut stem_len = n;
    if n >= 4 && cs[n - 4] == '.' && cs[n - 3] == 'm' && cs[n - 2] == 'p' && cs[n - 1] == '4' {
        stem_len = n - 4;
        assert(cs@.subrange(n - 4, n as int) =~= seq!['.', 'm', 'p', '4']);
    } else if n >= 4 {
        assert(cs@.subrange(n - 4, n as int) != seq!['.', 'm', 'p', '4']) by {
            if cs@.subrange(n - 4, n as int) == seq!['.', 'm', 'p', '4'] {
                assert(cs@.subrange(n - 4, n as int)[0] == cs@[n - 4]);
                assert(cs@.subrange(n - 4, n as int)[1] == cs@[n - 3]);
                assert(cs@.subrange(n - 4, n as int)[2] == cs@[n - 2]);
                assert(cs@.subrange(n - 4, n as int)[3] == cs@[n - 1]);
            }
        }
    }
    let ghost stem = mp4_stem(cs@);
    assert(stem =~= cs@.subrange(0, stem_len as int));
    let p1 = match find_last(cs.as_slice(), stem_len, '_') {
        Some(p) => p,
        None => return string_of(vstd::slice::slice_subrange(cs.as_slice(), 0, stem_len)),
    };
    assert(stem.subrange(0, p1 as int) =~= cs@.subrange(0, p1 as int));
    let p2 = match find_last(cs.as_slice(), p1, '_') {
        Some(p) => p,
        None => return string_of(vstd::slice::slice_subrange(cs.as_slice(), 0, stem_len)),
    };
    assert(stem.subrange(0, p2 as int) =~= cs@.subrange(0, p2 as int));
    string_of(vstd::slice::slice_subrange(cs.as_slice(), 0, p2))
}

/// One entry of the recordings index file.
pub struct RecordingEntry {
    pub filename: String,
    pub stream_key: String,
    pub created_at: String,
    pub size_bytes: u64,
    pub duration_seconds: Option<u64>,
    pub url: String,
    pub thumbnails: HashMap<String, String>,
}

/// The recordings index file.
pub struct RecordingsIndex {
    pub recordings: Vec<RecordingEntry>,
}

} // verus!
