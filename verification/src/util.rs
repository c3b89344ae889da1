//! Big-endian integer encoding and ISO-BMFF box scanning over byte buffers.
use std::collections::hash_map::DefaultHasher;
use std::hash::Hasher;
use vstd::std_specs::hash::DefaultHasherAdditionalSpecFns;
use vstd::prelude::*;

verus! {

// ── Big-endian encodings ─────────────────────────────────────────

/// The two big-endian bytes of `v`.
pub open spec fn be16(v: u16) -> Seq<u8> {
    seq![(v >> 8) as u8, v as u8]
}

/// The four big-endian bytes of `v`.
pub open spec fn be32(v: u32) -> Seq<u8> {
    seq![(v >> 24) as u8, (v >> 16) as u8, (v >> 8) as u8, v as u8]
}

/// The eight big-endian bytes of `v`.
pub open spec fn be64(v: u64) -> Seq<u8> {
    seq![
        (v >> 56) as u8,
        (v >> 48) as u8,
        (v >> 40) as u8,
        (v >> 32) as u8,
        (v >> 24) as u8,
        (v >> 16) as u8,
        (v >> 8) as u8,
        v as u8,
    ]
}

/// The last three bytes of the big-endian encoding of `v`.
pub open spec fn be24(v: u32) -> Seq<u8> {
    seq![(v >> 16) as u8, (v >> 8) as u8, v as u8]
}

/// The 16-bit big-endian value of `s[off..off + 2]`.
pub open spec fn be_u16_at(s: Seq<u8>, off: int) -> u16 {
    (((s[off] as u16) << 8u16) | (s[off + 1] as u16)) as u16
}

/// The 32-bit big-endian value of `s[off..off + 4]`.
pub open spec fn be_u32_at(s: Seq<u8>, off: int) -> u32 {
    (((s[off] as u32) << 24u32) | ((s[off + 1] as u32) << 16u32) | ((s[off + 2] as u32) << 8u32)
        | (s[off + 3] as u32)) as u32
}

/// The 64-bit big-endian value of `s[off..off + 8]`.
pub open spec fn be_u64_at(s: Seq<u8>, off: int) -> u64 {
    (((be_u32_at(s, off) as u64) << 32u64) | (be_u32_at(s, off + 4) as u64)) as u64
}

/// `n` reduced to 32 bits, as a `u32` length field stores it.
pub open spec fn wrap32(n: int) -> u32 {
    (n % 0x1_0000_0000) as u32
}

/// Decoding the big-endian encoding of a 16-bit value gives the value back.
pub proof fn lemma_be16_roundtrip(v: u16)
    ensures
        be_u16_at(be16(v), 0) == v,
{
    let b0 = (v >> 8) as u8;
    let b1 = v as u8;
    assert((((b0 as u16) << 8u16) | (b1 as u16)) as u16 == v) by (bit_vector)
        requires
            b0 == (v >> 8) as u8,
            b1 == v as u8,
    ;
}

/// Decoding the big-endian encoding of a 32-bit value gives the value back.
pub proof fn lemma_be32_roundtrip(v: u32)
    ensures
        be_u32_at(be32(v), 0) == v,
{
    let s = be32(v);
    let b0 = s[0];
    let b1 = s[1];
    let b2 = s[2];
    let b3 = s[3];
    assert((((b0 as u32) << 24u32) | ((b1 as u32) << 16u32) | ((b2 as u32) << 8u32)
        | (b3 as u32)) as u32 == v) by (bit_vector)
        requires
            b0 == (v >> 24) as u8,
            b1 == (v >> 16) as u8,
            b2 == (v >> 8) as u8,
            b3 == v as u8,
    ;
}

/// Decoding the big-endian encoding of a 64-bit value gives the value back.
pub proof fn lemma_be64_roundtrip(v: u64)
    ensures
        be_u64_at(be64(v), 0) == v,
{
    let s = be64(v);
    let hi = be_u32_at(s, 0);
    let lo = be_u32_at(s, 4);
    let (b0, b1, b2, b3, b4, b5, b6, b7) = (s[0], s[1], s[2], s[3], s[4], s[5], s[6], s[7]);
    assert(hi == (v >> 32) as u32) by (bit_vector)
        requires
            hi == (((b0 as u32) << 24u32) | ((b1 as u32) << 16u32) | ((b2 as u32) << 8u32)
                | (b3 as u32)) as u32,
            b0 == (v >> 56) as u8,
            b1 == (v >> 48) as u8,
            b2 == (v >> 40) as u8,
            b3 == (v >> 32) as u8,
    ;
    assert(lo == v as u32) by (bit_vector)
        requires
            lo == (((b4 as u32) << 24u32) | ((b5 as u32) << 16u32) | ((b6 as u32) << 8u32)
                | (b7 as u32)) as u32,
            b4 == (v >> 24) as u8,
            b5 == (v >> 16) as u8,
            b6 == (v >> 8) as u8,
            b7 == v as u8,
    ;
    assert((((hi as u64) << 32u64) | (lo as u64)) as u64 == v) by (bit_vector)
        requires
            hi == (v >> 32) as u32,
            lo == v as u32,
    ;
}

// ── Appending encodings to a buffer ──────────────────────────────

/// Appends the bytes of `data`.
pub fn push_bytes(w: &mut Vec<u8>, data: &[u8])
    ensures
        final(w)@ == old(w)@ + data@,
{
    let mut i: usize = 0;
    while i < data.len()
        invariant
            i <= data@.len(),
            w@ == old(w)@ + data@.subrange(0, i as int),
        decreases data.len() - i,
    {
        w.push(data[i]);
        i += 1;
        assert(w@ =~= old(w)@ + data@.subrange(0, i as int));
    }
    assert(data@.subrange(0, data@.len() as int) =~= data@);
}

/// `n` zero bytes.
pub open spec fn zeros(n: nat) -> Seq<u8> {
    Seq::new(n, |i: int| 0u8)
}

/// Appends `n` zero bytes.
pub fn push_zeros(w: &mut Vec<u8>, n: usize)
    ensures
        final(w)@ == old(w)@ + zeros(n as nat),
{
    let mut i: usize = 0;
    while i < n
        invariant
            i <= n,
            w@ == old(w)@ + Seq::new(i as nat, |k: int| 0u8),
        decreases n - i,
    {
        w.push(0u8);
        i += 1;
        assert(w@ =~= old(w)@ + Seq::new(i as nat, |k: int| 0u8));
    }
    assert(w@ =~= old(w)@ + zeros(n as nat));
}

/// Appends a four-character code.
pub fn push_fourcc(w: &mut Vec<u8>, t: &[u8; 4])
    ensures
        final(w)@ == old(w)@ + t@,
{
    w.push(t[0]);
    w.push(t[1]);
    w.push(t[2]);
    w.push(t[3]);
    assert(w@ =~= old(w)@ + t@);
}

/// Appends the big-endian bytes of a 16-bit value.
pub fn push_u16_be(w: &mut Vec<u8>, v: u16)
    ensures
        final(w)@ == old(w)@ + be16(v),
{
    w.push((v >> 8) as u8);
    w.push(v as u8);
    assert(w@ =~= old(w)@ + be16(v));
}

/// Appends the last three big-endian bytes of a 32-bit value.
pub fn push_u24_be(w: &mut Vec<u8>, v: u32)
    ensures
        final(w)@ == old(w)@ + be24(v),
{
    w.push((v >> 16) as u8);
    w.push((v >> 8) as u8);
    w.push(v as u8);
    assert(w@ =~= old(w)@ + be24(v));
}

/// Appends the big-endian bytes of a 32-bit value.
pub fn push_u32_be(w: &mut Vec<u8>, v: u32)
    ensures
        final(w)@ == old(w)@ + be32(v),
{
    w.push((v >> 24) as u8);
    w.push((v >> 16) as u8);
    w.push((v >> 8) as u8);
    w.push(v as u8);
    assert(w@ =~= old(w)@ + be32(v));
}

/// Appends the big-endian bytes of a 64-bit value.
pub fn push_u64_be(w: &mut Vec<u8>, v: u64)
    ensures
        final(w)@ == old(w)@ + be64(v),
{
    w.push((v >> 56) as u8);
    w.push((v >> 48) as u8);
    w.push((v >> 40) as u8);
    w.push((v >> 32) as u8);
    w.push((v >> 24) as u8);
    w.push((v >> 16) as u8);
    w.push((v >> 8) as u8);
    w.push(v as u8);
    assert(w@ =~= old(w)@ + be64(v));
}

/// `len + extra` reduced to 32 bits, computed without overflow.
pub fn size32(len: usize, extra: u32) -> (r: u32)
    ensures
        r == wrap32(len + extra),
{
    let low: u64 = (len as u64) % 0x1_0000_0000;
    let sum: u64 = low + extra as u64;
    let r = (sum % 0x1_0000_0000) as u32;
    assert((sum as int) % 0x1_0000_0000int == (len + extra) % 0x1_0000_0000int)
        by (nonlinear_arith)
        requires
            low as int == (len as int) % 0x1_0000_0000int,
            sum as int == low + extra,
            len >= 0,
    ;
    r
}

// ── Reading and writing at fixed places ──────────────────────────

/// The `k` low bytes of `n`, least significant first.
pub open spec fn le_bytes(n: nat, k: nat) -> Seq<u8>
    decreases k,
{
    if k == 0 {
        Seq::empty()
    } else {
        seq![(n % 256) as u8] + le_bytes(n / 256, (k - 1) as nat)
    }
}

/// The bytes of a `usize` in one of the two byte orders a machine can have:
/// as wide as a `usize`, least or most significant byte first.
pub open spec fn is_word_bytes(p: Seq<u8>, n: nat) -> bool {
    let w = le_bytes(n, (usize::BITS / 8) as nat);
    p == w || p == w.reverse()
}

/// The bytes of `n` in the machine's native order.
///
/// This calls `usize::to_ne_bytes`. Its documentation says the bytes are
/// the integer's memory representation in native byte order; which order
/// that is depends on the machine, so the contract claims only that it is
/// one of the two.
#[verifier::external_body]
fn usize_ne_bytes(n: usize) -> (r: Vec<u8>)
    ensures
        is_word_bytes(r@, n as nat),
{
    n.to_ne_bytes().to_vec()
}

/// Hash of a byte string with std's default hasher, written as a byte
/// slice hashes itself: its length as a native `usize`, then its bytes.
pub fn hash_bytes(data: &[u8]) -> (r: u64)
    ensures
        exists|p: Seq<u8>|
            #![trigger is_word_bytes(p, data@.len())]
            is_word_bytes(p, data@.len()) && r == DefaultHasher::spec_finish(seq![p, data@]),
{
    let prefix = usize_ne_bytes(data.len());
    let mut hasher = DefaultHasher::new();
    hasher.write(prefix.as_slice());
    hasher.write(data);
    assert(hasher@ =~= seq![prefix@, data@]);
    let r = hasher.finish();
    assert(is_word_bytes(prefix@, data@.len()) && r == DefaultHasher::spec_finish(
        seq![prefix@, data@],
    ));
    r
}

/// Big-endian u32 at `offset`, or 0 where fewer than four bytes remain.
fn read_u32_at(data: &[u8], offset: usize) -> (r: u32)
    ensures
        r == (if offset + 4 <= data@.len() {
            be_u32_at(data@, offset as int)
        } else {
            0
        }),
{
    if offset > data.len() || data.len() - offset < 4 {
        return 0;
    }
    ((data[offset] as u32) << 24) | ((data[offset + 1] as u32) << 16) | ((data[offset + 2] as u32)
        << 8) | (data[offset + 3] as u32)
}

/// The offset of the first top-level box of type `t` met when walking
/// `data` box by box from `off`. A size field of 0 or a malformed box ends
/// the walk; a size field of 1 (64-bit size) skips 16 bytes.
pub open spec fn spec_find_box_from(data: Seq<u8>, t: Seq<u8>, off: int) -> Option<int>
    decreases data.len() + 16 - off,
    when off >= 0
{
    if off + 8 > data.len() {
        None
    } else {
        let size = be_u32_at(data, off) as int;
        if size == 0 {
            None
        } else if size == 1 {
            spec_find_box_from(data, t, off + 16)
        } else if size < 8 || off + size > data.len() {
            None
        } else if data.subrange(off + 4, off + 8) == t {
            Some(off)
        } else {
            spec_find_box_from(data, t, off + size)
        }
    }
}

/// Finds the first top-level box of the given type.
pub fn find_box(data: &[u8], box_type: &[u8; 4]) -> (r: Option<usize>)
    ensures
        r matches Some(o) ==> spec_find_box_from(data@, box_type@, 0) == Some(o as int),
        r is None ==> spec_find_box_from(data@, box_type@, 0) is None,
{
    find_box_in_range(data, box_type)
}

/// Finds the first top-level box of the given type (same walk as `find_box`).
pub fn find_box_in_range(data: &[u8], box_type: &[u8; 4]) -> (r: Option<usize>)
    ensures
        r matches Some(o) ==> spec_find_box_from(data@, box_type@, 0) == Some(o as int),
        r is None ==> spec_find_box_from(data@, box_type@, 0) is None,
{
    let mut offset: usize = 0;
    while offset <= data.len() && data.len() - offset >= 8
        invariant
            offset <= data@.len(),
            spec_find_box_from(data@, box_type@, 0) == spec_find_box_from(
                data@,
                box_type@,
                offset as int,
            ),
        decreases data.len() - offset,
    {
        let size = read_u32_at(data, offset) as usize;
        if size == 0 {
            return None;
        }
        if size == 1 {
            if data.len() - offset < 24 {
                assert(spec_find_box_from(data@, box_type@, offset + 16) is None);
                return None;
            }
            offset += 16;
            continue;
        }
        if size < 8 || size > data.len() - offset {
            return None;
        }
        if data[offset + 4] == box_type[0] && data[offset + 5] == box_type[1] && data[offset + 6]
            == box_type[2] && data[offset + 7] == box_type[3] {
            assert(data@.subrange(offset + 4, offset + 8) =~= box_type@);
            return Some(offset);
        }
        assert(data@.subrange(offset + 4, offset + 8) != box_type@) by {
            if data@.subrange(offset + 4, offset + 8) == box_type@ {
                assert(data@.subrange(offset + 4, offset + 8)[0] == data@[offset + 4]);
                assert(data@.subrange(offset + 4, offset + 8)[1] == data@[offset + 5]);
                assert(data@.subrange(offset + 4, offset + 8)[2] == data@[offset + 6]);
                assert(data@.subrange(offset + 4, offset + 8)[3] == data@[offset + 7]);
            }
        }
        offset += size;
    }
    None
}

/// Big-endian u32 from the first four bytes.
pub fn read_u32(data: &[u8]) -> (r: u32)
    requires
        data@.len() >= 4,
    ensures
        r == be_u32_at(data@, 0),
{
    ((data[0] as u32) << 24) | ((data[1] as u32) << 16) | ((data[2] as u32) << 8) | (data[3] as u32)
}

/// Overwrites the first four bytes with the big-endian encoding of `value`.
pub fn write_u32(data: &mut [u8], value: u32)
    requires
        old(data)@.len() >= 4,
    ensures
        final(data)@ == be32(value) + old(data)@.subrange(4, old(data)@.len() as int),
{
    data[0] = (value >> 24) as u8;
    data[1] = (value >> 16) as u8;
    data[2] = (value >> 8) as u8;
    data[3] = value as u8;
    assert(data@ =~= be32(value) + old(data)@.subrange(4, old(data)@.len() as int));
}

/// Big-endian u64 from the first eight bytes.
pub fn read_u64(data: &[u8]) -> (r: u64)
    requires
        data@.len() >= 8,
    ensures
        r == be_u64_at(data@, 0),
{
    let hi = ((data[0] as u32) << 24) | ((data[1] as u32) << 16) | ((data[2] as u32) << 8) | (
    data[3] as u32);
    let lo = ((data[4] as u32) << 24) | ((data[5] as u32) << 16) | ((data[6] as u32) << 8) | (
    data[7] as u32);
    ((hi as u64) << 32) | (lo as u64)
}

/// Overwrites the first eight bytes with the big-endian encoding of `value`.
pub fn write_u64(data: &mut [u8], value: u64)
    requires
        old(data)@.len() >= 8,
    ensures
        final(data)@ == be64(value) + old(data)@.subrange(8, old(data)@.len() as int),
{
    data[0] = (value >> 56) as u8;
    data[1] = (value >> 48) as u8;
    data[2] = (value >> 40) as u8;
    data[3] = (value >> 32) as u8;
    data[4] = (value >> 24) as u8;
    data[5] = (value >> 16) as u8;
    data[6] = (value >> 8) as u8;
    data[7] = value as u8;
    assert(data@ =~= be64(value) + old(data)@.subrange(8, old(data)@.len() as int));
}

/// Reading back a value written with `write_u32` gives the value.
pub proof fn lemma_read_u32_of_write(value: u32, rest: Seq<u8>)
    ensures
        be_u32_at(be32(value) + rest, 0) == value,
{
    lemma_be32_roundtrip(value);
    assert((be32(value) + rest).subrange(0, 4) =~= be32(value));
    let s = be32(value) + rest;
    assert(s[0] == be32(value)[0] && s[1] == be32(value)[1] && s[2] == be32(value)[2] && s[3]
        == be32(value)[3]);
}

/// Reading back a value written with `write_u64` gives the value.
pub proof fn lemma_read_u64_of_write(value: u64, rest: Seq<u8>)
    ensures
        be_u64_at(be64(value) + rest, 0) == value,
{
    lemma_be64_roundtrip(value);
    let s = be64(value) + rest;
    let e = be64(value);
    assert(s[0] == e[0] && s[1] == e[1] && s[2] == e[2] && s[3] == e[3] && s[4] == e[4] && s[5]
        == e[5] && s[6] == e[6] && s[7] == e[7]);
}

} // verus!
