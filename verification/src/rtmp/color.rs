//! Colour and HDR metadata of an Enhanced RTMP stream: the AMF0
//! "colorInfo" object (its numbers as raw IEEE-754 bits) and the binary
//! layout.
use super::amf::{
    amf_value, lookup, spec_amf_lookup, AmfFind, AmfRead, AmfValue, Found, read_value,
};
use crate::hls::fmp4::{ColorConfig, HdrMetadata};
use crate::util::{be_u32_at, be_u64_at};
use vstd::prelude::*;
use vstd::string::StringSliceAdditionalSpecFns;

verus! {

/// The result of a step of the metadata walk: a value, nothing usable, or
/// a truncated payload (the input ends inside a value it announces).
pub enum Outcome<T> {
    Got(T),
    Missing,
    Fault,
}

/// The bits of an AMF0 number value.
pub open spec fn number_bits(v: Seq<u8>) -> Option<u64> {
    if v.len() < 9 || v[0] != 0 {
        None
    } else {
        Some(be_u64_at(v, 1))
    }
}

/// The number in field `name` of the object or ECMA array `obj`.
pub open spec fn num_field(obj: Seq<u8>, name: Seq<u8>) -> Outcome<u64> {
    match spec_amf_lookup(obj, name) {
        AmfFind::Fault => Outcome::Fault,
        AmfFind::Missing => Outcome::Missing,
        AmfFind::Found(s, n) => match number_bits(obj.subrange(s, s + n)) {
            Some(b) => Outcome::Got(b),
            None => Outcome::Missing,
        },
    }
}

/// The first of fields `a`, `b`, `c` that holds a number.
pub open spec fn first_num(obj: Seq<u8>, a: Seq<u8>, b: Seq<u8>, c: Seq<u8>) -> Outcome<u64> {
    match num_field(obj, a) {
        Outcome::Missing => match num_field(obj, b) {
            Outcome::Missing => num_field(obj, c),
            other => other,
        },
        other => other,
    }
}

/// The colour fields of an AMF0 colour object, as number bits.
pub struct AmfColorBits {
    pub color_primaries: Option<u64>,
    pub transfer_characteristics: Option<u64>,
    pub matrix_coefficients: u64,
    pub full_range: Option<u64>,
}

pub open spec fn outcome_opt(o: Outcome<u64>) -> Option<u64> {
    match o {
        Outcome::Got(b) => Some(b),
        _ => None,
    }
}

/// The object that follows the leading string of an AMF0 metadata message:
/// (its offset, its marker), when the message starts with a string.
pub open spec fn metadata_object(d: Seq<u8>) -> Outcome<int> {
    match amf_value(d, 0) {
        AmfValue::Fault => Outcome::Fault,
        AmfValue::Invalid => Outcome::Missing,
        AmfValue::Value(m, _, _, consumed) => if m != 0x02 {
            Outcome::Missing
        } else {
            Outcome::Got(consumed as int)
        },
    }
}

/// The colour fields of an AMF0 colorInfo message: a string, then an
/// object or ECMA array whose "colorConfig" field (or the object itself)
/// holds colorPrimaries, transferCharacteristics, matrixCoefficients and
/// fullRange (also in PascalCase or snake_case); matrixCoefficients is
/// required.
pub open spec fn spec_amf_color_bits(d: Seq<u8>) -> Outcome<AmfColorBits> {
    match metadata_object(d) {
        Outcome::Fault => Outcome::Fault,
        Outcome::Missing => Outcome::Missing,
        Outcome::Got(consumed) => {
            let obj = d.subrange(consumed, d.len() as int);
            match amf_value(obj, 0) {
                AmfValue::Fault => Outcome::Fault,
                AmfValue::Invalid => Outcome::Missing,
                AmfValue::Value(om, _, _, _) => if om != 0x03 && om != 0x08 {
                    Outcome::Missing
                } else {
                    match spec_amf_lookup(obj, "colorConfig".spec_bytes()) {
                        AmfFind::Fault => Outcome::Fault,
                        found => {
                            let src = match found {
                                AmfFind::Found(s, n) => obj.subrange(s, s + n),
                                _ => obj,
                            };
                            let cp = first_num(
                                src,
                                "colorPrimaries".spec_bytes(),
                                "ColorPrimaries".spec_bytes(),
                                "color_primaries".spec_bytes(),
                            );
                            let tc = first_num(
                                src,
                                "transferCharacteristics".spec_bytes(),
                                "TransferCharacteristics".spec_bytes(),
                                "transfer_characteristics".spec_bytes(),
                            );
                            let mc = first_num(
                                src,
                                "matrixCoefficients".spec_bytes(),
                                "MatrixCoefficients".spec_bytes(),
                                "matrix_coefficients".spec_bytes(),
                            );
                            let fr = first_num(
                                src,
                                "fullRange".spec_bytes(),
                                "FullRange".spec_bytes(),
                                "full_range".spec_bytes(),
                            );
                            if cp is Fault || tc is Fault || mc is Fault {
                                Outcome::Fault
                            } else if mc is Missing {
                                Outcome::Missing
                            } else if fr is Fault {
                                Outcome::Fault
                            } else {
                                Outcome::Got(
                                    AmfColorBits {
                                        color_primaries: outcome_opt(cp),
                                        transfer_characteristics: outcome_opt(tc),
                                        matrix_coefficients: mc->Got_0,
                                        full_range: outcome_opt(fr),
                                    },
                                )
                            }
                        },
                    }
                },
            }
        },
    }
}

fn num_field_exec(obj: &[u8], name: &str) -> (r: Outcome<u64>)
    ensures
        r == num_field(obj@, name.spec_bytes()),
{
    let _len = obj.len();
    match lookup(obj, name.as_bytes()) {
        Found::At(s, n) => {
            let v = vstd::slice::slice_subrange(obj, s, s + n);
            if v.len() < 9 || v[0] != 0 {
                Outcome::Missing
            } else {
                let hi = ((v[1] as u32) << 24) | ((v[2] as u32) << 16) | ((v[3] as u32) << 8) | (
                v[4] as u32);
                let lo = ((v[5] as u32) << 24) | ((v[6] as u32) << 16) | ((v[7] as u32) << 8) | (
                v[8] as u32);
                Outcome::Got(((hi as u64) << 32) | (lo as u64))
            }
        },
        Found::Missing => Outcome::Missing,
        Found::Fault => Outcome::Fault,
    }
}

fn first_num_exec(obj: &[u8], a: &str, b: &str, c: &str) -> (r: Outcome<u64>)
    ensures
        r == first_num(obj@, a.spec_bytes(), b.spec_bytes(), c.spec_bytes()),
{
    match num_field_exec(obj, a) {
        Outcome::Missing => match num_field_exec(obj, b) {
            Outcome::Missing => num_field_exec(obj, c),
            other => other,
        },
        other => other,
    }
}

fn opt_of(o: &Outcome<u64>) -> (r: Option<u64>)
    ensures
        r == outcome_opt(*o),
{
    match o {
        Outcome::Got(b) => Some(*b),
        _ => None,
    }
}

fn metadata_object_exec(data: &[u8]) -> (r: Outcome<usize>)
    ensures
        match (r, metadata_object(data@)) {
            (Outcome::Got(x), Outcome::Got(y)) => x == y && x <= data@.len(),
            (Outcome::Missing, Outcome::Missing) => true,
            (Outcome::Fault, Outcome::Fault) => true,
            _ => false,
        },
{
    match read_value(data, 0) {
        AmfRead::Value(m, _, consumed) => if m != 0x02 {
            Outcome::Missing
        } else {
            Outcome::Got(consumed)
        },
        AmfRead::Invalid => Outcome::Missing,
        AmfRead::Fault => Outcome::Fault,
    }
}

fn amf_color_bits_exec(data: &[u8]) -> (r: Outcome<AmfColorBits>)
    ensures
        r == spec_amf_color_bits(data@),
{
    let consumed = match metadata_object_exec(data) {
        Outcome::Got(c) => c,
        Outcome::Missing => return Outcome::Missing,
        Outcome::Fault => return Outcome::Fault,
    };
    let obj = vstd::slice::slice_subrange(data, consumed, data.len());
    match read_value(obj, 0) {
        AmfRead::Value(om, _, _) => {
            if om != 0x03 && om != 0x08 {
                return Outcome::Missing;
            }
        },
        AmfRead::Invalid => return Outcome::Missing,
        AmfRead::Fault => return Outcome::Fault,
    }
    let _olen = obj.len();
    let src = match lookup(obj, "colorConfig".as_bytes()) {
        Found::At(s, n) => vstd::slice::slice_subrange(obj, s, s + n),
        Found::Missing => obj,
        Found::Fault => return Outcome::Fault,
    };
    let cp = first_num_exec(src, "colorPrimaries", "ColorPrimaries", "color_primaries");
    if let Outcome::Fault = cp {
        return Outcome::Fault;
    }
    let tc = first_num_exec(
        src,
        "transferCharacteristics",
        "TransferCharacteristics",
        "transfer_characteristics",
    );
    if let Outcome::Fault = tc {
        return Outcome::Fault;
    }
    let mc = match first_num_exec(
        src,
        "matrixCoefficients",
        "MatrixCoefficients",
        "matrix_coefficients",
    ) {
        Outcome::Got(b) => b,
        Outcome::Missing => return Outcome::Missing,
        Outcome::Fault => return Outcome::Fault,
    };
    let fr = first_num_exec(src, "fullRange", "FullRange", "full_range");
    if let Outcome::Fault = fr {
        return Outcome::Fault;
    }
    Outcome::Got(
        AmfColorBits {
            color_primaries: opt_of(&cp),
            transfer_characteristics: opt_of(&tc),
            matrix_coefficients: mc,
            full_range: opt_of(&fr),
        },
    )
}

/// The colour fields of an AMF0 colorInfo message as number bits; None
/// when the message is not one, is truncated, or has no matrixCoefficients.
pub fn amf_color_config_bits(data: &[u8]) -> (r: Option<AmfColorBits>)
    ensures
        match spec_amf_color_bits(data@) {
            Outcome::Got(b) => r == Some(b),
            _ => r is None,
        },
{
    match amf_color_bits_exec(data) {
        Outcome::Got(b) => Some(b),
        _ => None,
    }
}

// ── HDR metadata in AMF0 ─────────────────────────────────────────

/// The HDR fields of an AMF0 colorInfo message, as number bits: content
/// light levels, and the mastering display's R, G, B primaries, white point
/// and luminance range.
pub struct AmfHdrBits {
    pub max_cll: u64,
    pub max_fall: u64,
    pub primaries_x: [u64; 3],
    pub primaries_y: [u64; 3],
    pub white_point_x: u64,
    pub white_point_y: u64,
    pub max_luminance: u64,
    pub min_luminance: u64,
}

/// The value of field `name` of the object at the start of `obj`, else of
/// the value that follows the first one (`first_len` bytes in).
pub open spec fn hdr_section(obj: Seq<u8>, first_len: int, name: Seq<u8>) -> Outcome<Seq<u8>> {
    match spec_amf_lookup(obj, name) {
        AmfFind::Fault => Outcome::Fault,
        AmfFind::Found(s, n) => Outcome::Got(obj.subrange(s, s + n)),
        AmfFind::Missing => if first_len < obj.len() {
            let rest = obj.subrange(first_len, obj.len() as int);
            match spec_amf_lookup(rest, name) {
                AmfFind::Fault => Outcome::Fault,
                AmfFind::Found(s, n) => Outcome::Got(rest.subrange(s, s + n)),
                AmfFind::Missing => Outcome::Missing,
            }
        } else {
            Outcome::Missing
        },
    }
}

/// The number in field `a`, else in field `b`.
pub open spec fn num_either(obj: Seq<u8>, a: Seq<u8>, b: Seq<u8>) -> Outcome<u64> {
    match num_field(obj, a) {
        Outcome::Missing => num_field(obj, b),
        other => other,
    }
}

/// The number at byte `off` of an encoded strict array (an array that
/// ends before `off` is truncated).
pub open spec fn array_num(v: Seq<u8>, off: int) -> Outcome<u64> {
    if v.len() < off {
        Outcome::Fault
    } else {
        match number_bits(v.subrange(off, v.len() as int)) {
            Some(b) => Outcome::Got(b),
            None => Outcome::Missing,
        }
    }
}

pub open spec fn three(a: Outcome<u64>, b: Outcome<u64>, c: Outcome<u64>) -> Outcome<[u64; 3]> {
    match (a, b, c) {
        (Outcome::Fault, _, _) => Outcome::Fault,
        (Outcome::Missing, _, _) => Outcome::Missing,
        (Outcome::Got(_), Outcome::Fault, _) => Outcome::Fault,
        (Outcome::Got(_), Outcome::Missing, _) => Outcome::Missing,
        (Outcome::Got(x), Outcome::Got(y), c) => match c {
            Outcome::Got(z) => Outcome::Got([x, y, z]),
            Outcome::Missing => Outcome::Missing,
            Outcome::Fault => Outcome::Fault,
        },
    }
}

/// The R, G, B primaries on one axis: from the strict array
/// `displayPrimaries<axis>` (numbers at bytes 5, 14 and 23) when there is
/// one, else from fields `red<axis>`, `green<axis>`, `blue<axis>`.
pub open spec fn primaries(mdcv: Seq<u8>, array: Seq<u8>, r: Seq<u8>, g: Seq<u8>, b: Seq<u8>) -> Outcome<[u64; 3]> {
    match spec_amf_lookup(mdcv, array) {
        AmfFind::Fault => Outcome::Fault,
        AmfFind::Found(s, n) if n > 0 && mdcv[s] == 0x0A => {
            let v = mdcv.subrange(s, s + n);
            three(array_num(v, 5), array_num(v, 14), array_num(v, 23))
        },
        _ => three(num_field(mdcv, r), num_field(mdcv, g), num_field(mdcv, b)),
    }
}

pub open spec fn hdr_from_sections(cll: Seq<u8>, mdcv: Seq<u8>) -> Outcome<AmfHdrBits> {
    let max_cll = num_either(cll, "maxCll".spec_bytes(), "maxCLL".spec_bytes());
    let max_fall = num_field(cll, "maxFall".spec_bytes());
    let px = primaries(
        mdcv,
        "displayPrimariesX".spec_bytes(),
        "redX".spec_bytes(),
        "greenX".spec_bytes(),
        "blueX".spec_bytes(),
    );
    let py = primaries(
        mdcv,
        "displayPrimariesY".spec_bytes(),
        "redY".spec_bytes(),
        "greenY".spec_bytes(),
        "blueY".spec_bytes(),
    );
    let wx = num_field(mdcv, "whitePointX".spec_bytes());
    let wy = num_field(mdcv, "whitePointY".spec_bytes());
    let lmax = num_field(mdcv, "maxLuminance".spec_bytes());
    let lmin = num_field(mdcv, "minLuminance".spec_bytes());
    if max_cll is Fault {
        Outcome::Fault
    } else if max_cll is Missing {
        Outcome::Missing
    } else if max_fall is Fault {
        Outcome::Fault
    } else if max_fall is Missing {
        Outcome::Missing
    } else if px is Fault {
        Outcome::Fault
    } else if px is Missing {
        Outcome::Missing
    } else if py is Fault {
        Outcome::Fault
    } else if py is Missing {
        Outcome::Missing
    } else if wx is Fault {
        Outcome::Fault
    } else if wx is Missing {
        Outcome::Missing
    } else if wy is Fault {
        Outcome::Fault
    } else if wy is Missing {
        Outcome::Missing
    } else if lmax is Fault {
        Outcome::Fault
    } else if lmax is Missing {
        Outcome::Missing
    } else if lmin is Fault {
        Outcome::Fault
    } else if lmin is Missing {
        Outcome::Missing
    } else {
        Outcome::Got(
            AmfHdrBits {
                max_cll: max_cll->Got_0,
                max_fall: max_fall->Got_0,
                primaries_x: px->Got_0,
                primaries_y: py->Got_0,
                white_point_x: wx->Got_0,
                white_point_y: wy->Got_0,
                max_luminance: lmax->Got_0,
                min_luminance: lmin->Got_0,
            },
        )
    }
}

/// The HDR fields of an AMF0 colorInfo message: a string, then a value in
/// whose object (or in the value after it) the `hdrCll` and `hdrMdcv`
/// objects are found; every field is required.
pub open spec fn spec_amf_hdr_bits(d: Seq<u8>) -> Outcome<AmfHdrBits> {
    match metadata_object(d) {
        Outcome::Fault => Outcome::Fault,
        Outcome::Missing => Outcome::Missing,
        Outcome::Got(consumed) => {
            let obj = d.subrange(consumed, d.len() as int);
            match amf_value(obj, 0) {
                AmfValue::Fault => Outcome::Fault,
                AmfValue::Invalid => Outcome::Missing,
                AmfValue::Value(_, _, _, first_len) => {
                    let cll = hdr_section(obj, first_len as int, "hdrCll".spec_bytes());
                    match cll {
                        Outcome::Fault => Outcome::Fault,
                        Outcome::Missing => Outcome::Missing,
                        Outcome::Got(c) => {
                            match hdr_section(obj, first_len as int, "hdrMdcv".spec_bytes()) {
                                Outcome::Fault => Outcome::Fault,
                                Outcome::Missing => Outcome::Missing,
                                Outcome::Got(m) => hdr_from_sections(c, m),
                            }
                        },
                    }
                },
            }
        },
    }
}

fn hdr_section_exec<'a>(obj: &'a [u8], first_len: usize, name: &str) -> (r: Outcome<&'a [u8]>)
    ensures
        match (r, hdr_section(obj@, first_len as int, name.spec_bytes())) {
            (Outcome::Got(x), Outcome::Got(y)) => x@ == y,
            (Outcome::Missing, Outcome::Missing) => true,
            (Outcome::Fault, Outcome::Fault) => true,
            _ => false,
        },
{
    let _len = obj.len();
    match lookup(obj, name.as_bytes()) {
        Found::Fault => Outcome::Fault,
        Found::At(s, n) => Outcome::Got(vstd::slice::slice_subrange(obj, s, s + n)),
        Found::Missing => {
            if first_len < obj.len() {
                let rest = vstd::slice::slice_subrange(obj, first_len, obj.len());
                let _rlen = rest.len();
                match lookup(rest, name.as_bytes()) {
                    Found::Fault => Outcome::Fault,
                    Found::At(s, n) => Outcome::Got(vstd::slice::slice_subrange(rest, s, s + n)),
                    Found::Missing => Outcome::Missing,
                }
            } else {
                Outcome::Missing
            }
        },
    }
}

fn num_either_exec(obj: &[u8], a: &str, b: &str) -> (r: Outcome<u64>)
    ensures
        r == num_either(obj@, a.spec_bytes(), b.spec_bytes()),
{
    match num_field_exec(obj, a) {
        Outcome::Missing => num_field_exec(obj, b),
        other => other,
    }
}

fn array_num_exec(v: &[u8], off: usize) -> (r: Outcome<u64>)
    ensures
        r == array_num(v@, off as int),
{
    if v.len() < off {
        return Outcome::Fault;
    }
    let tail = vstd::slice::slice_subrange(v, off, v.len());
    if tail.len() < 9 || tail[0] != 0 {
        Outcome::Missing
    } else {
        let hi = ((tail[1] as u32) << 24) | ((tail[2] as u32) << 16) | ((tail[3] as u32) << 8) | (
        tail[4] as u32);
        let lo = ((tail[5] as u32) << 24) | ((tail[6] as u32) << 16) | ((tail[7] as u32) << 8) | (
        tail[8] as u32);
        Outcome::Got(((hi as u64) << 32) | (lo as u64))
    }
}

fn three_exec(a: Outcome<u64>, b: Outcome<u64>, c: Outcome<u64>) -> (r: Outcome<[u64; 3]>)
    ensures
        r == three(a, b, c),
{
    match (a, b, c) {
        (Outcome::Fault, _, _) => Outcome::Fault,
        (Outcome::Missing, _, _) => Outcome::Missing,
        (Outcome::Got(_), Outcome::Fault, _) => Outcome::Fault,
        (Outcome::Got(_), Outcome::Missing, _) => Outcome::Missing,
        (Outcome::Got(x), Outcome::Got(y), c) => match c {
            Outcome::Got(z) => Outcome::Got([x, y, z]),
            Outcome::Missing => Outcome::Missing,
            Outcome::Fault => Outcome::Fault,
        },
    }
}

fn primaries_exec(mdcv: &[u8], array: &str, r: &str, g: &str, b: &str) -> (res: Outcome<[u64; 3]>)
    ensures
        res == primaries(mdcv@, array.spec_bytes(), r.spec_bytes(), g.spec_bytes(), b.spec_bytes()),
{
    let _len = mdcv.len();
    match lookup(mdcv, array.as_bytes()) {
        Found::Fault => {
            return Outcome::Fault;
        },
        Found::At(s, n) => {
            if n > 0 && mdcv[s] == 0x0A {
                let v = vstd::slice::slice_subrange(mdcv, s, s + n);
                let a0 = array_num_exec(v, 5);
                let a1 = array_num_exec(v, 14);
                let a2 = array_num_exec(v, 23);
                return three_exec(a0, a1, a2);
            }
        },
        Found::Missing => {},
    }
    let x = num_field_exec(mdcv, r);
    let y = num_field_exec(mdcv, g);
    let z = num_field_exec(mdcv, b);
    three_exec(x, y, z)
}

fn hdr_from_sections_exec(cll: &[u8], mdcv: &[u8]) -> (r: Outcome<AmfHdrBits>)
    ensures
        r == hdr_from_sections(cll@, mdcv@),
{
    let max_cll = match num_either_exec(cll, "maxCll", "maxCLL") {
        Outcome::Got(v) => v,
        Outcome::Missing => return Outcome::Missing,
        Outcome::Fault => return Outcome::Fault,
    };
    let max_fall = match num_field_exec(cll, "maxFall") {
        Outcome::Got(v) => v,
        Outcome::Missing => return Outcome::Missing,
        Outcome::Fault => return Outcome::Fault,
    };
    let px = match primaries_exec(mdcv, "displayPrimariesX", "redX", "greenX", "blueX") {
        Outcome::Got(v) => v,
        Outcome::Missing => return Outcome::Missing,
        Outcome::Fault => return Outcome::Fault,
    };
    let py = match primaries_exec(mdcv, "displayPrimariesY", "redY", "greenY", "blueY") {
        Outcome::Got(v) => v,
        Outcome::Missing => return Outcome::Missing,
        Outcome::Fault => return Outcome::Fault,
    };
    let wx = match num_field_exec(mdcv, "whitePointX") {
        Outcome::Got(v) => v,
        Outcome::Missing => return Outcome::Missing,
        Outcome::Fault => return Outcome::Fault,
    };
    let wy = match num_field_exec(mdcv, "whitePointY") {
        Outcome::Got(v) => v,
        Outcome::Missing => return Outcome::Missing,
        Outcome::Fault => return Outcome::Fault,
    };
    let lmax = match num_field_exec(mdcv, "maxLuminance") {
        Outcome::Got(v) => v,
        Outcome::Missing => return Outcome::Missing,
        Outcome::Fault => return Outcome::Fault,
    };
    let lmin = match num_field_exec(mdcv, "minLuminance") {
        Outcome::Got(v) => v,
        Outcome::Missing => return Outcome::Missing,
        Outcome::Fault => return Outcome::Fault,
    };
    Outcome::Got(
        AmfHdrBits {
            max_cll,
            max_fall,
            primaries_x: px,
            primaries_y: py,
            white_point_x: wx,
            white_point_y: wy,
            max_luminance: lmax,
            min_luminance: lmin,
        },
    )
}

fn amf_hdr_bits_exec(data: &[u8]) -> (r: Outcome<AmfHdrBits>)
    ensures
        r == spec_amf_hdr_bits(data@),
{
    let consumed = match metadata_object_exec(data) {
        Outcome::Got(c) => c,
        Outcome::Missing => return Outcome::Missing,
        Outcome::Fault => return Outcome::Fault,
    };
    let obj = vstd::slice::slice_subrange(data, consumed, data.len());
    let first_len = match read_value(obj, 0) {
        AmfRead::Value(_, _, n) => n,
        AmfRead::Invalid => return Outcome::Missing,
        AmfRead::Fault => return Outcome::Fault,
    };
    let cll = match hdr_section_exec(obj, first_len, "hdrCll") {
        Outcome::Got(c) => c,
        Outcome::Missing => return Outcome::Missing,
        Outcome::Fault => return Outcome::Fault,
    };
    let mdcv = match hdr_section_exec(obj, first_len, "hdrMdcv") {
        Outcome::Got(m) => m,
        Outcome::Missing => return Outcome::Missing,
        Outcome::Fault => return Outcome::Fault,
    };
    hdr_from_sections_exec(cll, mdcv)
}

/// The HDR fields of an AMF0 colorInfo message as number bits; None when
/// the message is not one, is truncated, or lacks a field.
pub fn amf_hdr_metadata_bits(data: &[u8]) -> (r: Option<AmfHdrBits>)
    ensures
        match spec_amf_hdr_bits(data@) {
            Outcome::Got(b) => r == Some(b),
            _ => r is None,
        },
{
    match amf_hdr_bits_exec(data) {
        Outcome::Got(b) => Some(b),
        _ => None,
    }
}

// ── Numbers as integers ──────────────────────────────────────────

/// The unsigned integer a double (given by its IEEE-754 bits) converts to
/// with Rust's `as`: rounded toward zero, NaN and negative values to 0, and
/// values of `2^width` or more (infinity included) to `max`.
pub open spec fn double_bits_to_uint(bits: u64, width: u64, max: u64) -> u64 {
    let sign = bits >> 63u64;
    let exp = (bits >> 52u64) & 0x7FFu64;
    let frac = bits & 0xF_FFFF_FFFF_FFFFu64;
    if exp == 0x7FF {
        if frac != 0 || sign == 1 {
            0
        } else {
            max
        }
    } else if sign == 1 || exp < 1023 {
        0
    } else if exp - 1023 >= width {
        max
    } else {
        (frac | 0x10_0000_0000_0000u64) >> ((1075 - exp) as u64)
    }
}

fn double_to_uint(bits: u64, width: u64, max: u64) -> (r: u64)
    requires
        width <= 16,
    ensures
        r == double_bits_to_uint(bits, width, max),
{
    let sign = bits >> 63;
    let exp = (bits >> 52) & 0x7FF;
    let frac = bits & 0xF_FFFF_FFFF_FFFF;
    if exp == 0x7FF {
        if frac != 0 || sign == 1 {
            0
        } else {
            max
        }
    } else if sign == 1 || exp < 1023 {
        0
    } else if exp - 1023 >= width {
        max
    } else {
        (frac | 0x10_0000_0000_0000) >> (1075 - exp)
    }
}

pub open spec fn bits_or_zero(o: Option<u64>) -> u64 {
    match o {
        Some(b) => b,
        None => 0,
    }
}

/// The colour description carried by AMF0 colorInfo fields, each converted
/// with `as u16` (a missing field counts as 0.0); full range when `as u8` of
/// its value is nonzero.
pub open spec fn color_from_amf_bits(b: AmfColorBits) -> ColorConfig {
    ColorConfig {
        color_primaries: double_bits_to_uint(bits_or_zero(b.color_primaries), 16, 0xFFFF) as u16,
        transfer_characteristics: double_bits_to_uint(
            bits_or_zero(b.transfer_characteristics),
            16,
            0xFFFF,
        ) as u16,
        matrix_coefficients: double_bits_to_uint(b.matrix_coefficients, 16, 0xFFFF) as u16,
        full_range: double_bits_to_uint(bits_or_zero(b.full_range), 8, 0xFF) != 0,
    }
}

/// The colour description of an Enhanced RTMP metadata payload: from the
/// AMF0 colorInfo fields when there are any, else the binary layout.
pub open spec fn spec_enhanced_color_config(d: Seq<u8>) -> ColorConfig {
    match spec_amf_color_bits(d) {
        Outcome::Got(b) => color_from_amf_bits(b),
        _ => spec_binary_color_config(d),
    }
}

fn bits_or_zero_exec(o: Option<u64>) -> (r: u64)
    ensures
        r == bits_or_zero(o),
{
    match o {
        Some(b) => b,
        None => 0,
    }
}

fn color_from_bits(b: &AmfColorBits) -> (r: ColorConfig)
    ensures
        r == color_from_amf_bits(*b),
{
    let cp = double_to_uint(bits_or_zero_exec(b.color_primaries), 16, 0xFFFF);
    let tc = double_to_uint(bits_or_zero_exec(b.transfer_characteristics), 16, 0xFFFF);
    let mc = double_to_uint(b.matrix_coefficients, 16, 0xFFFF);
    let fr = double_to_uint(bits_or_zero_exec(b.full_range), 8, 0xFF);
    proof {
        lemma_uint_bound(bits_or_zero(b.color_primaries), 16, 0xFFFF);
        lemma_uint_bound(bits_or_zero(b.transfer_characteristics), 16, 0xFFFF);
        lemma_uint_bound(b.matrix_coefficients, 16, 0xFFFF);
    }
    ColorConfig {
        color_primaries: cp as u16,
        transfer_characteristics: tc as u16,
        matrix_coefficients: mc as u16,
        full_range: fr != 0,
    }
}

/// Reads the colour description of an Enhanced RTMP metadata payload, AMF0
/// first, the binary layout otherwise.
pub fn parse_enhanced_color_config(data: &[u8]) -> (r: ColorConfig)
    ensures
        r == spec_enhanced_color_config(data@),
{
    let o = amf_color_bits_exec(data);
    match o {
        Outcome::Got(b) => color_from_bits(&b),
        _ => parse_binary_color_config(data),
    }
}

proof fn lemma_uint_bound(bits: u64, width: u64, max: u64)
    requires
        width == 16,
        max == 0xFFFF,
    ensures
        double_bits_to_uint(bits, width, max) <= max,
{
    let exp = (bits >> 52u64) & 0x7FFu64;
    if exp != 0x7FF && exp >= 1023 && exp - 1023 < width {
        let sh = (1075 - exp) as u64;
        assert(((bits & 0xF_FFFF_FFFF_FFFFu64) | 0x10_0000_0000_0000u64) >> sh <= 0xFFFFu64)
            by (bit_vector)
            requires
                36 < sh <= 52,
        ;
    }
}

/// The colour description in the binary layout: primaries, transfer,
/// matrix and full-range flag in the first four bytes, with defaults
/// 1, 1, 1 and 0 for missing bytes.
pub open spec fn spec_binary_color_config(d: Seq<u8>) -> ColorConfig {
    ColorConfig {
        color_primaries: if d.len() > 0 {
            d[0] as u16
        } else {
            1
        },
        transfer_characteristics: if d.len() > 1 {
            d[1] as u16
        } else {
            1
        },
        matrix_coefficients: if d.len() > 2 {
            d[2] as u16
        } else {
            1
        },
        full_range: d.len() > 3 && d[3] != 0,
    }
}

/// Reads the binary colour description.
pub fn parse_binary_color_config(data: &[u8]) -> (r: ColorConfig)
    ensures
        r == spec_binary_color_config(data@),
{
    let cp = if data.len() > 0 {
        data[0]
    } else {
        1
    } as u16;
    let tc = if data.len() > 1 {
        data[1]
    } else {
        1
    } as u16;
    let mc = if data.len() > 2 {
        data[2]
    } else {
        1
    } as u16;
    let full_range = if data.len() > 3 {
        data[3]
    } else {
        0
    } != 0;
    ColorConfig {
        color_primaries: cp,
        transfer_characteristics: tc,
        matrix_coefficients: mc,
        full_range,
    }
}

pub open spec fn be16_at(d: Seq<u8>, off: int) -> u16 {
    (d[off] as u16 * 256 + d[off + 1] as u16) as u16
}

/// HDR metadata in the binary layout: after 4 bytes, a 32-bit length of 28,
/// then MaxCLL and MaxFALL, and the mastering display volume (primaries G,
/// B, R, white point, max and min luminance), stored back in R, G, B order.
/// None for a string marker first, or too short or mislabelled data.
pub open spec fn spec_binary_hdr_metadata(d: Seq<u8>) -> Option<HdrMetadata> {
    if d.len() > 0 && d[0] == 0x02 {
        None
    } else if d.len() < 36 || be_u32_at(d, 4) != 28 {
        None
    } else {
        let m = d.subrange(12, d.len() as int);
        Some(
            HdrMetadata {
                max_content_light_level: be16_at(d, 8),
                max_frame_average_light_level: be16_at(d, 10),
                display_primaries_x: [be16_at(m, 8), be16_at(m, 0), be16_at(m, 4)],
                display_primaries_y: [be16_at(m, 10), be16_at(m, 2), be16_at(m, 6)],
                white_point_x: be16_at(m, 12),
                white_point_y: be16_at(m, 14),
                max_luminance: be_u32_at(m, 16),
                min_luminance: be_u32_at(m, 20),
            },
        )
    }
}

fn u16_at(d: &[u8], off: usize) -> (r: u16)
    requires
        off + 2 <= d@.len(),
    ensures
        r == be16_at(d@, off as int),
{
    d[off] as u16 * 256 + d[off + 1] as u16
}

fn u32_at(d: &[u8], off: usize) -> (r: u32)
    requires
        off + 4 <= d@.len(),
    ensures
        r == be_u32_at(d@, off as int),
{
    ((d[off] as u32) << 24) | ((d[off + 1] as u32) << 16) | ((d[off + 2] as u32) << 8) | (d[off
        + 3] as u32)
}

/// Reads HDR metadata in the binary layout.
pub fn parse_binary_hdr_metadata(data: &[u8]) -> (r: Option<HdrMetadata>)
    ensures
        r == spec_binary_hdr_metadata(data@),
{
    if data.len() > 0 && data[0] == 0x02 {
        return None;
    }
    if data.len() < 36 {
        return None;
    }
    let hdr_len = u32_at(data, 4);
    if hdr_len != 28 {
        return None;
    }
    let m = vstd::slice::slice_subrange(data, 12, data.len());
    let h = HdrMetadata {
        max_content_light_level: u16_at(data, 8),
        max_frame_average_light_level: u16_at(data, 10),
        display_primaries_x: [u16_at(m, 8), u16_at(m, 0), u16_at(m, 4)],
        display_primaries_y: [u16_at(m, 10), u16_at(m, 2), u16_at(m, 6)],
        white_point_x: u16_at(m, 12),
        white_point_y: u16_at(m, 14),
        max_luminance: u32_at(m, 16),
        min_luminance: u32_at(m, 20),
    };
    Some(h)
}

} // verus!
