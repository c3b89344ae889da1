//! ISO-BMFF box framing: plain boxes and full boxes.
use crate::util::{be24, be32, be_u32_at, push_bytes, push_fourcc, push_u24_be, push_u32_be, size32, wrap32};
use vstd::prelude::*;

verus! {

/// A box: 32-bit size (header included), four-character type, content.
pub open spec fn mp4_box(t: Seq<u8>, d: Seq<u8>) -> Seq<u8> {
    be32(wrap32(d.len() + 8int)) + t + d
}

/// A full box: a box whose content starts with a version byte and 24 bits
/// of flags.
pub open spec fn full_box(t: Seq<u8>, version: u8, flags: u32, d: Seq<u8>) -> Seq<u8> {
    be32(wrap32(d.len() + 12int)) + t + seq![version] + be24(flags) + d
}

/// Appends a box of type `box_type` around `data`.
pub fn write_box(w: &mut Vec<u8>, box_type: &[u8; 4], data: &[u8])
    ensures
        final(w)@ == old(w)@ + mp4_box(box_type@, data@),
{
    let size = size32(data.len(), 8);
    push_u32_be(w, size);
    push_fourcc(w, box_type);
    push_bytes(w, data);
    assert(w@ =~= old(w)@ + mp4_box(box_type@, data@));
}

/// Appends a full box of type `box_type` around `data`.
pub fn write_fullbox(w: &mut Vec<u8>, box_type: &[u8; 4], version: u8, flags: u32, data: &[u8])
    ensures
        final(w)@ == old(w)@ + full_box(box_type@, version, flags, data@),
{
    let size = size32(data.len(), 12);
    push_u32_be(w, size);
    push_fourcc(w, box_type);
    w.push(version);
    push_u24_be(w, flags);
    push_bytes(w, data);
    assert(w@ =~= old(w)@ + full_box(box_type@, version, flags, data@));
}

/// A box whose length fits in 32 bits records that length in its first
/// four bytes and its type in the next four.
pub proof fn lemma_box_header(t: Seq<u8>, d: Seq<u8>)
    requires
        t.len() == 4,
        d.len() + 8 < 0x1_0000_0000,
    ensures
        mp4_box(t, d).len() == d.len() + 8,
        be_u32_at(mp4_box(t, d), 0) == d.len() + 8,
        mp4_box(t, d).subrange(4, 8) == t,
        mp4_box(t, d).subrange(8, d.len() + 8int) == d,
{
    let b = mp4_box(t, d);
    let n = wrap32(d.len() + 8int);
    assert(n == d.len() + 8int);
    crate::util::lemma_read_u32_of_write(n, t + d);
    assert(b =~= be32(n) + (t + d));
    assert(b.subrange(4, 8) =~= t);
    assert(b.subrange(8, d.len() + 8int) =~= d);
}

/// A full box whose length fits in 32 bits records that length, its type,
/// version and flags in its header.
pub proof fn lemma_full_box_header(t: Seq<u8>, version: u8, flags: u32, d: Seq<u8>)
    requires
        t.len() == 4,
        d.len() + 12 < 0x1_0000_0000,
    ensures
        full_box(t, version, flags, d).len() == d.len() + 12,
        be_u32_at(full_box(t, version, flags, d), 0) == d.len() + 12,
        full_box(t, version, flags, d).subrange(4, 8) == t,
        full_box(t, version, flags, d)[8] == version,
        full_box(t, version, flags, d).subrange(12, d.len() + 12int) == d,
{
    let b = full_box(t, version, flags, d);
    let n = wrap32(d.len() + 12int);
    crate::util::lemma_read_u32_of_write(n, t + seq![version] + be24(flags) + d);
    assert(b =~= be32(n) + (t + seq![version] + be24(flags) + d));
    assert(b.subrange(4, 8) =~= t);
    assert(b.subrange(12, d.len() + 12int) =~= d);
}

} // verus!
