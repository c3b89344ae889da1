//! AMF0 values: the extent of one value (nested objects and arrays
//! included, to a bounded depth) and field lookup in objects and ECMA
//! arrays.
use crate::util::{be_u32_at, be_u64_at};
use vstd::string::StringSliceAdditionalSpecFns;
use vstd::prelude::*;

verus! {

/// Nesting deeper than this is refused.
pub const AMF_MAX_DEPTH: usize = 16;

/// Where one AMF0 value lies: marker, value bytes `start..end`, total bytes
/// from the marker; or a malformed value; or a truncated one (the input
/// ends inside a value whose length the reader trusts).
pub enum AmfValue {
    Value(u8, int, int, nat),
    Invalid,
    Fault,
}

/// Where a walk over entries or items stops.
pub enum AmfWalk {
    End(int),
    Invalid,
    Fault,
}

pub open spec fn be_u16_at(d: Seq<u8>, off: int) -> int {
    d[off] * 256 + d[off + 1]
}

/// Bytes left from `off`, 0 past the end.
pub open spec fn rest_len(d: Seq<u8>, off: int) -> int {
    if off <= d.len() {
        d.len() - off
    } else {
        0
    }
}

/// The value at the start of `d`, read at nesting `depth`.
pub open spec fn amf_value(d: Seq<u8>, depth: int) -> AmfValue
    decreases d.len(), 1int, 0int,
{
    if depth > AMF_MAX_DEPTH || d.len() == 0 {
        AmfValue::Invalid
    } else {
        let m = d[0];
        if m == 0x00 {
            if d.len() < 9 {
                AmfValue::Invalid
            } else {
                AmfValue::Value(m, 1, 9, 9)
            }
        } else if m == 0x01 {
            if d.len() < 2 {
                AmfValue::Fault
            } else {
                AmfValue::Value(m, 1, 2, 2)
            }
        } else if m == 0x02 {
            if d.len() < 3 || d.len() < 3 + be_u16_at(d, 1) {
                AmfValue::Invalid
            } else {
                AmfValue::Value(m, 3, 3 + be_u16_at(d, 1), (3 + be_u16_at(d, 1)) as nat)
            }
        } else if m == 0x05 || m == 0x06 {
            AmfValue::Value(m, 0, 0, 1)
        } else if m == 0x08 {
            if d.len() < 5 {
                AmfValue::Invalid
            } else {
                match ecma_entries(d, 5, depth) {
                    AmfWalk::End(off) => AmfValue::Value(m, 5, off, off as nat),
                    AmfWalk::Invalid => AmfValue::Invalid,
                    AmfWalk::Fault => AmfValue::Fault,
                }
            }
        } else if m == 0x03 {
            match object_entries(d, 1, depth + 1) {
                AmfWalk::End(off) => AmfValue::Value(m, 1, off, off as nat),
                AmfWalk::Invalid => AmfValue::Invalid,
                AmfWalk::Fault => AmfValue::Fault,
            }
        } else if m == 0x0A {
            if d.len() < 5 {
                AmfValue::Invalid
            } else {
                match strict_items(d, 5, be_u32_at(d, 1) as int, depth) {
                    AmfWalk::End(off) => AmfValue::Value(m, 5, off, off as nat),
                    AmfWalk::Invalid => AmfValue::Invalid,
                    AmfWalk::Fault => AmfValue::Fault,
                }
            }
        } else {
            AmfValue::Invalid
        }
    }
}

/// The entries of an ECMA array from `off` up to the 0x00 0x00 0x09 end
/// marker. Numbers, booleans, strings, null and undefined are skipped in
/// place; objects and arrays are read one level deeper.
pub open spec fn ecma_entries(d: Seq<u8>, off: int, depth: int) -> AmfWalk
    decreases d.len(), 0int, rest_len(d, off),
{
    if off < 0 || off + 3 > d.len() {
        AmfWalk::Invalid
    } else {
        let klen = be_u16_at(d, off);
        if klen == 0 && off + 2 < d.len() && d[off + 2] == 0x09 {
            AmfWalk::End(off + 3)
        } else if off + 2 + klen >= d.len() {
            AmfWalk::Invalid
        } else {
            let o = off + 2 + klen;
            let vm = d[o];
            if vm == 0x00 {
                ecma_entries(d, o + 9, depth)
            } else if vm == 0x01 {
                ecma_entries(d, o + 2, depth)
            } else if vm == 0x02 {
                if o + 2 >= d.len() {
                    AmfWalk::Fault
                } else {
                    ecma_entries(d, o + 3 + be_u16_at(d, o + 1), depth)
                }
            } else if vm == 0x03 || vm == 0x08 || vm == 0x0A {
                match amf_value(d.subrange(o, d.len() as int), depth + 1) {
                    AmfValue::Value(_, _, _, n) => ecma_entries(d, o + n, depth),
                    AmfValue::Invalid => AmfWalk::Invalid,
                    AmfValue::Fault => AmfWalk::Fault,
                }
            } else if vm == 0x05 || vm == 0x06 {
                ecma_entries(d, o + 1, depth)
            } else {
                AmfWalk::Invalid
            }
        }
    }
}

/// The key-value pairs of an object from `off` up to the end marker, each
/// value read at `depth`.
pub open spec fn object_entries(d: Seq<u8>, off: int, depth: int) -> AmfWalk
    decreases d.len(), 0int, rest_len(d, off),
{
    if off < 0 || off + 3 > d.len() {
        AmfWalk::Invalid
    } else {
        let klen = be_u16_at(d, off);
        if klen == 0 && off + 2 < d.len() && d[off + 2] == 0x09 {
            AmfWalk::End(off + 3)
        } else if off + 2 + klen >= d.len() {
            AmfWalk::Invalid
        } else {
            let o = off + 2 + klen;
            match amf_value(d.subrange(o, d.len() as int), depth) {
                AmfValue::Value(_, _, _, n) => object_entries(d, o + n, depth),
                AmfValue::Invalid => AmfWalk::Invalid,
                AmfValue::Fault => AmfWalk::Fault,
            }
        }
    }
}

/// `remaining` items of a strict array from `off`, each read one level
/// deeper; the walk stops early at the end of the data.
pub open spec fn strict_items(d: Seq<u8>, off: int, remaining: int, depth: int) -> AmfWalk
    decreases d.len(), 0int, rest_len(d, off) + if remaining > 0 {
        remaining
    } else {
        0
    },
{
    if remaining > 0 && 0 < off < d.len() {
        match amf_value(d.subrange(off, d.len() as int), depth + 1) {
            AmfValue::Value(_, _, _, n) => strict_items(d, off + n, remaining - 1, depth),
            AmfValue::Invalid => AmfWalk::Invalid,
            AmfValue::Fault => AmfWalk::Fault,
        }
    } else {
        AmfWalk::End(off)
    }
}

/// A field found by name: where its value lies, as (start, length).
pub enum AmfFind {
    Found(int, int),
    Missing,
    Fault,
}

/// The value of the first field named `name` among the key-value pairs of
/// `b` from `off` (keys are compared as bytes); the walk stops at the end
/// marker or at anything malformed.
pub open spec fn lookup_keys(b: Seq<u8>, off: int, name: Seq<u8>) -> AmfFind
    decreases rest_len(b, off),
{
    if off < 0 || off + 2 > b.len() {
        AmfFind::Missing
    } else {
        let klen = be_u16_at(b, off);
        if klen == 0 && off + 2 < b.len() && b[off + 2] == 0x09 {
            AmfFind::Missing
        } else if off + 2 + klen > b.len() || off + 2 + klen >= b.len() {
            AmfFind::Missing
        } else {
            let o = off + 2 + klen;
            match amf_value(b.subrange(o, b.len() as int), 0) {
                AmfValue::Invalid => AmfFind::Missing,
                AmfValue::Fault => AmfFind::Fault,
                AmfValue::Value(_, _, _, n) => if b.subrange(off + 2, o) == name {
                    AmfFind::Found(o, n as int)
                } else {
                    lookup_keys(b, o + n, name)
                },
            }
        }
    }
}

/// The field named `name` of the object or ECMA array at the start of `d`.
pub open spec fn spec_amf_lookup(d: Seq<u8>, name: Seq<u8>) -> AmfFind {
    match amf_value(d, 0) {
        AmfValue::Invalid => AmfFind::Missing,
        AmfValue::Fault => AmfFind::Fault,
        AmfValue::Value(m, _, _, total) => {
            let body = d.subrange(1, total as int);
            let found = if m == 0x08 {
                if body.len() < 4 {
                    AmfFind::Missing
                } else {
                    lookup_keys(body, 4, name)
                }
            } else if m == 0x03 {
                lookup_keys(body, 0, name)
            } else {
                AmfFind::Missing
            };
            match found {
                AmfFind::Found(s, n) => AmfFind::Found(s + 1, n),
                other => other,
            }
        },
    }
}

/// One AMF0 value read from a slice.
pub enum AmfRead<'a> {
    Value(u8, &'a [u8], usize),
    Invalid,
    Fault,
}

enum AmfSkip {
    End(usize),
    Invalid,
    Fault,
}

pub open spec fn read_matches(r: AmfRead, d: Seq<u8>, v: AmfValue) -> bool {
    match (r, v) {
        (AmfRead::Value(m, s, n), AmfValue::Value(sm, a, b, sn)) => m == sm && s@ == d.subrange(a, b)
            && n == sn && 1 <= n <= d.len(),
        (AmfRead::Invalid, AmfValue::Invalid) => true,
        (AmfRead::Fault, AmfValue::Fault) => true,
        _ => false,
    }
}

spec fn skip_matches(r: AmfSkip, d: Seq<u8>, w: AmfWalk) -> bool {
    match (r, w) {
        (AmfSkip::End(x), AmfWalk::End(y)) => x == y && x <= d.len(),
        (AmfSkip::Invalid, AmfWalk::Invalid) => true,
        (AmfSkip::Fault, AmfWalk::Fault) => true,
        _ => false,
    }
}

fn u16_at(data: &[u8], off: usize) -> (r: usize)
    requires
        off + 2 <= data@.len(),
    ensures
        r == be_u16_at(data@, off as int),
        r <= 0xFFFF,
{
    data[off] as usize * 256 + data[off + 1] as usize
}

fn u32_at(data: &[u8], off: usize) -> (r: u32)
    requires
        off + 4 <= data@.len(),
    ensures
        r == be_u32_at(data@, off as int),
{
    ((data[off] as u32) << 24) | ((data[off + 1] as u32) << 16) | ((data[off + 2] as u32) << 8) | (
    data[off + 3] as u32)
}

/// Reads the value at the start of `data` at nesting `depth`.
pub(crate) fn read_value<'a>(data: &'a [u8], depth: usize) -> (r: AmfRead<'a>)
    requires
        depth <= AMF_MAX_DEPTH + 1,
    ensures
        read_matches(r, data@, amf_value(data@, depth as int)),
    decreases data@.len(), 1int,
{
    let len = data.len();
    if depth > AMF_MAX_DEPTH || len == 0 {
        return AmfRead::Invalid;
    }
    let marker = data[0];
    if marker == 0x00 {
        if len < 9 {
            return AmfRead::Invalid;
        }
        AmfRead::Value(marker, vstd::slice::slice_subrange(data, 1, 9), 9)
    } else if marker == 0x01 {
        if len < 2 {
            return AmfRead::Fault;
        }
        AmfRead::Value(marker, vstd::slice::slice_subrange(data, 1, 2), 2)
    } else if marker == 0x02 {
        if len < 3 {
            return AmfRead::Invalid;
        }
        let l = u16_at(data, 1);
        if len - 3 < l {
            return AmfRead::Invalid;
        }
        AmfRead::Value(marker, vstd::slice::slice_subrange(data, 3, 3 + l), 3 + l)
    } else if marker == 0x05 || marker == 0x06 {
        AmfRead::Value(marker, vstd::slice::slice_subrange(data, 0, 0), 1)
    } else if marker == 0x08 {
        if len < 5 {
            return AmfRead::Invalid;
        }
        let mut off: usize = 5;
        loop
            invariant
                5 <= off <= len,
                len == data@.len(),
                depth <= AMF_MAX_DEPTH,
                marker == 0x08,
                data@[0] == 0x08,
                ecma_entries(data@, 5, depth as int) == ecma_entries(data@, off as int, depth as int),
            decreases len - off,
        {
            if len - off < 3 {
                return AmfRead::Invalid;
            }
            let klen = u16_at(data, off);
            if klen == 0 && data[off + 2] == 0x09 {
                let end = off + 3;
                return AmfRead::Value(marker, vstd::slice::slice_subrange(data, 5, end), end);
            }
            if klen >= len - off - 2 {
                return AmfRead::Invalid;
            }
            let o = off + 2 + klen;
            let vm = data[o];
            if vm == 0x00 {
                if len - o < 12 {
                    assert(ecma_entries(data@, o + 9, depth as int) is Invalid);
                    return AmfRead::Invalid;
                }
                off = o + 9;
            } else if vm == 0x01 {
                if len - o < 5 {
                    assert(ecma_entries(data@, o + 2, depth as int) is Invalid);
                    return AmfRead::Invalid;
                }
                off = o + 2;
            } else if vm == 0x02 {
                if len - o <= 2 {
                    return AmfRead::Fault;
                }
                let slen = u16_at(data, o + 1);
                if len - o < 6 + slen {
                    assert(ecma_entries(data@, o + 3 + slen, depth as int) is Invalid);
                    return AmfRead::Invalid;
                }
                off = o + 3 + slen;
            } else if vm == 0x03 || vm == 0x08 || vm == 0x0A {
                let sub = vstd::slice::slice_subrange(data, o, len);
                match read_value(sub, depth + 1) {
                    AmfRead::Value(_, _, n) => {
                        off = o + n;
                    },
                    AmfRead::Invalid => {
                        return AmfRead::Invalid;
                    },
                    AmfRead::Fault => {
                        return AmfRead::Fault;
                    },
                }
            } else if vm == 0x05 || vm == 0x06 {
                if len - o < 4 {
                    assert(ecma_entries(data@, o + 1, depth as int) is Invalid);
                    return AmfRead::Invalid;
                }
                off = o + 1;
            } else {
                return AmfRead::Invalid;
            }
        }
    } else if marker == 0x03 {
        match skip_object(data, 1, depth + 1) {
            AmfSkip::End(off) => AmfRead::Value(marker, vstd::slice::slice_subrange(data, 1, off), off),
            AmfSkip::Invalid => AmfRead::Invalid,
            AmfSkip::Fault => AmfRead::Fault,
        }
    } else if marker == 0x0A {
        if len < 5 {
            return AmfRead::Invalid;
        }
        let count = u32_at(data, 1);
        let mut remaining = count as usize;
        let mut off: usize = 5;
        while remaining > 0 && off < len
            invariant
                5 <= off <= len,
                len == data@.len(),
                depth <= AMF_MAX_DEPTH,
                marker == 0x0A,
                data@[0] == 0x0A,
                count == be_u32_at(data@, 1),
                strict_items(data@, 5, count as int, depth as int) == strict_items(
                    data@,
                    off as int,
                    remaining as int,
                    depth as int,
                ),
            decreases len - off + remaining,
        {
            let sub = vstd::slice::slice_subrange(data, off, len);
            match read_value(sub, depth + 1) {
                AmfRead::Value(_, _, n) => {
                    off = off + n;
                    remaining = remaining - 1;
                },
                AmfRead::Invalid => {
                    return AmfRead::Invalid;
                },
                AmfRead::Fault => {
                    return AmfRead::Fault;
                },
            }
        }
        AmfRead::Value(marker, vstd::slice::slice_subrange(data, 5, off), off)
    } else {
        AmfRead::Invalid
    }
}

/// Skips the key-value pairs of an object from `start` to its end marker.
fn skip_object(data: &[u8], start: usize, depth: usize) -> (r: AmfSkip)
    requires
        1 <= start <= data@.len(),
        depth <= AMF_MAX_DEPTH + 1,
    ensures
        skip_matches(r, data@, object_entries(data@, start as int, depth as int)),
        r matches AmfSkip::End(x) ==> x > start,
    decreases data@.len(), 0int,
{
    let len = data.len();
    let mut off = start;
    loop
        invariant
            start <= off <= len,
            1 <= start,
            len == data@.len(),
            depth <= AMF_MAX_DEPTH + 1,
            object_entries(data@, start as int, depth as int) == object_entries(
                data@,
                off as int,
                depth as int,
            ),
        decreases len - off,
    {
        if len - off < 3 {
            return AmfSkip::Invalid;
        }
        let klen = u16_at(data, off);
        if klen == 0 && data[off + 2] == 0x09 {
            return AmfSkip::End(off + 3);
        }
        if klen >= len - off - 2 {
            return AmfSkip::Invalid;
        }
        let o = off + 2 + klen;
        let sub = vstd::slice::slice_subrange(data, o, len);
        match read_value(sub, depth) {
            AmfRead::Value(_, _, n) => {
                off = o + n;
            },
            AmfRead::Invalid => {
                return AmfSkip::Invalid;
            },
            AmfRead::Fault => {
                return AmfSkip::Fault;
            },
        }
    }
}

/// Reads the AMF0 value at the start of `data`: (marker, value bytes,
/// bytes consumed); None when malformed, truncated or nested too deep.
pub fn amf_next_value(data: &[u8]) -> (r: Option<(u8, &[u8], usize)>)
    ensures
        match amf_value(data@, 0) {
            AmfValue::Value(m, a, b, n) => (r matches Some((rm, rs, rn)) && rm == m && rs@
                == data@.subrange(a, b) && rn == n),
            _ => r is None,
        },
{
    match read_value(data, 0) {
        AmfRead::Value(m, s, n) => Some((m, s, n)),
        _ => None,
    }
}

fn bytes_eq(a: &[u8], b: &[u8]) -> (r: bool)
    ensures
        r == (a@ == b@),
{
    if a.len() != b.len() {
        return false;
    }
    let mut i: usize = 0;
    while i < a.len()
        invariant
            i <= a@.len(),
            a@.len() == b@.len(),
            a@.subrange(0, i as int) == b@.subrange(0, i as int),
        decreases a.len() - i,
    {
        if a[i] != b[i] {
            assert(a@[i as int] != b@[i as int]);
            return false;
        }
        i += 1;
        assert(a@.subrange(0, i as int) =~= a@.subrange(0, i - 1) + seq![a@[i - 1]]);
        assert(b@.subrange(0, i as int) =~= b@.subrange(0, i - 1) + seq![b@[i - 1]]);
    }
    assert(a@ =~= a@.subrange(0, a@.len() as int));
    assert(b@ =~= b@.subrange(0, b@.len() as int));
    true
}

pub(crate) enum Found {
    At(usize, usize),
    Missing,
    Fault,
}

fn lookup_in<'a>(body: &'a [u8], start: usize, name: &[u8]) -> (r: Found)
    requires
        start <= body@.len(),
    ensures
        match (r, lookup_keys(body@, start as int, name@)) {
            (Found::At(s, n), AmfFind::Found(ss, sn)) => s == ss && n == sn && s + n <= body@.len(),
            (Found::Missing, AmfFind::Missing) => true,
            (Found::Fault, AmfFind::Fault) => true,
            _ => false,
        },
{
    let len = body.len();
    let mut off = start;
    loop
        invariant
            off <= len,
            len == body@.len(),
            lookup_keys(body@, start as int, name@) == lookup_keys(body@, off as int, name@),
        decreases len - off,
    {
        if len - off < 2 {
            return Found::Missing;
        }
        let klen = u16_at(body, off);
        if klen == 0 && len - off > 2 && body[off + 2] == 0x09 {
            return Found::Missing;
        }
        if klen >= len - off - 2 {
            return Found::Missing;
        }
        let o = off + 2 + klen;
        let key = vstd::slice::slice_subrange(body, off + 2, o);
        let is_name = bytes_eq(key, name);
        let sub = vstd::slice::slice_subrange(body, o, len);
        match read_value(sub, 0) {
            AmfRead::Value(_, _, n) => {
                if is_name {
                    return Found::At(o, n);
                }
                off = o + n;
            },
            AmfRead::Invalid => {
                return Found::Missing;
            },
            AmfRead::Fault => {
                return Found::Fault;
            },
        }
    }
}

pub(crate) fn lookup<'a>(data: &'a [u8], name: &[u8]) -> (r: Found)
    ensures
        match (r, spec_amf_lookup(data@, name@)) {
            (Found::At(s, n), AmfFind::Found(ss, sn)) => s == ss && n == sn && s + n <= data@.len(),
            (Found::Missing, AmfFind::Missing) => true,
            (Found::Fault, AmfFind::Fault) => true,
            _ => false,
        },
        r matches Found::At(s, n) ==> s + n <= data@.len(),
{
    let (marker, total) = match read_value(data, 0) {
        AmfRead::Value(m, _, n) => (m, n),
        AmfRead::Invalid => {
            return Found::Missing;
        },
        AmfRead::Fault => {
            return Found::Fault;
        },
    };
    let body = vstd::slice::slice_subrange(data, 1, total);
    let found = if marker == 0x08 {
        if body.len() < 4 {
            Found::Missing
        } else {
            lookup_in(body, 4, name)
        }
    } else if marker == 0x03 {
        lookup_in(body, 0, name)
    } else {
        Found::Missing
    };
    match found {
        Found::At(s, n) => Found::At(s + 1, n),
        other => other,
    }
}

/// The value of the field `name` in the AMF0 object or ECMA array at the
/// start of `data` (its marker and bytes); None when absent, malformed or
/// truncated.
pub fn amf_lookup<'a>(data: &'a [u8], name: &str) -> (r: Option<&'a [u8]>)
    ensures
        match spec_amf_lookup(data@, name.spec_bytes()) {
            AmfFind::Found(s, n) => (r matches Some(v) && v@ == data@.subrange(s, s + n)),
            _ => r is None,
        },
{
    let _len = data.len();
    match lookup(data, name.as_bytes()) {
        Found::At(s, n) => Some(vstd::slice::slice_subrange(data, s, s + n)),
        _ => None,
    }
}

/// The raw 64 bits of an AMF0 number (marker 0x00, then a big-endian IEEE
/// double) and the bytes it takes.
pub fn amf_number_bits(data: &[u8]) -> (r: Option<(u64, usize)>)
    ensures
        data@.len() < 9 || data@[0] != 0 ==> r is None,
        data@.len() >= 9 && data@[0] == 0 ==> r == Some((be_u64_at(data@, 1), 9usize)),
{
    if data.len() < 9 || data[0] != 0x00 {
        return None;
    }
    let hi = u32_at(data, 1);
    let lo = u32_at(data, 5);
    Some((((hi as u64) << 32) | (lo as u64), 9))
}

} // verus!
