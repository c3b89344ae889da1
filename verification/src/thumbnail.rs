//! Thumbnail image formats, the ffmpeg filter graph that scales one frame
//! to every width, and finding the newest segment to take it from.
use crate::text::{chars_of, push_char, push_decimal, push_str, spec_decimal};
use vstd::prelude::*;

verus! {

/// The image formats thumbnails are encoded in, best first: JPEG XL and
/// AVIF when the encoder has them, PNG always.
pub open spec fn spec_available_formats(jxl: bool, avif: bool) -> Seq<Seq<char>> {
    (if jxl {
        seq!["jxl"@]
    } else {
        Seq::empty()
    }) + (if avif {
        seq!["avif"@]
    } else {
        Seq::empty()
    }) + seq!["png"@]
}

/// The thumbnail formats, given which optional encoders are available.
pub fn available_formats(jxl: bool, avif: bool) -> (r: Vec<&'static str>)
    ensures
        Seq::new(r@.len(), |i: int| r@[i]@) == spec_available_formats(jxl, avif),
{
    let mut fmts: Vec<&'static str> = Vec::new();
    if jxl {
        fmts.push("jxl");
    }
    if avif {
        fmts.push("avif");
    }
    fmts.push("png");
    assert(Seq::new(fmts@.len(), |i: int| fmts@[i]@) =~= spec_available_formats(jxl, avif));
    fmts
}


pub open spec fn split_labels(n: nat) -> Seq<char>
    decreases n,
{
    if n == 0 {
        Seq::empty()
    } else {
        split_labels((n - 1) as nat) + "[v"@ + spec_decimal((n - 1) as nat) + "]"@
    }
}

pub open spec fn scale_chains(widths: Seq<u32>, n: nat) -> Seq<char>
    decreases n,
{
    if n == 0 {
        Seq::empty()
    } else {
        scale_chains(widths, (n - 1) as nat) + ";"@ + "[v"@ + spec_decimal((n - 1) as nat) + "]scale="@
            + spec_decimal(widths[n - 1] as nat) + ":-1[s"@ + spec_decimal((n - 1) as nat) + "]"@
    }
}

/// The filter graph that decodes the source once and scales it to every
/// width: a split into `[v0]..[vN-1]`, then `[vi]scale=W:-1[si]` per width,
/// joined by semicolons.
pub open spec fn spec_filter_graph(widths: Seq<u32>) -> Seq<char> {
    "[0:v]split="@ + spec_decimal(widths.len()) + split_labels(widths.len()) + scale_chains(
        widths,
        widths.len(),
    )
}

/// Builds the filter graph for the given thumbnail widths.
pub fn filter_graph(widths: &[u32]) -> (r: String)
    ensures
        r@ == spec_filter_graph(widths@),
{
    let n = widths.len();
    let mut s = String::new();
    push_str(&mut s, "[0:v]split=");
    push_decimal(&mut s, n as u64);
    let ghost h = s@;
    let mut i: usize = 0;
    while i < n
        invariant
            i <= n == widths@.len(),
            s@ == h + split_labels(i as nat),
        decreases n - i,
    {
        push_str(&mut s, "[v");
        push_decimal(&mut s, i as u64);
        push_str(&mut s, "]");
        i += 1;
        assert(s@ =~= h + split_labels(i as nat));
    }
    let ghost h2 = s@;
    let mut j: usize = 0;
    while j < n
        invariant
            j <= n == widths@.len(),
            s@ == h2 + scale_chains(widths@, j as nat),
        decreases n - j,
    {
        push_str(&mut s, ";");
        push_str(&mut s, "[v");
        push_decimal(&mut s, j as u64);
        push_str(&mut s, "]scale=");
        push_decimal(&mut s, widths[j] as u64);
        push_str(&mut s, ":-1[s");
        push_decimal(&mut s, j as u64);
        push_str(&mut s, "]");
        j += 1;
        assert(s@ =~= h2 + scale_chains(widths@, j as nat));
    }
    assert(s@ =~= spec_filter_graph(widths@));
    s
}

pub open spec fn is_digit(c: char) -> bool {
    '0' <= c <= '9'
}

/// The value of a string of decimal digits.
pub open spec fn digits_value(s: Seq<char>) -> int
    decreases s.len(),
{
    if s.len() == 0 {
        0
    } else {
        digits_value(s.drop_last()) * 10 + (s.last() as int - '0' as int)
    }
}

/// The digits of a number after an optional `+`.
pub open spec fn unsigned_digits(s: Seq<char>) -> Seq<char> {
    if s.len() > 0 && s[0] == '+' {
        s.drop_first()
    } else {
        s
    }
}

/// A decimal number as the standard parser of an unsigned integer type
/// whose largest value is `max` reads it: an optional `+`, then at least
/// one digit, and no more than `max`.
pub open spec fn spec_parse_uint(s: Seq<char>, max: nat) -> Option<nat> {
    let body = unsigned_digits(s);
    if body.len() == 0 || exists|i: int| 0 <= i < body.len() && !is_digit(#[trigger] body[i]) {
        None
    } else if digits_value(body) > max {
        None
    } else {
        Some(digits_value(body) as nat)
    }
}

/// A decimal number as the standard `u32` parser reads it.
pub open spec fn spec_parse_u32(s: Seq<char>) -> Option<u32> {
    match spec_parse_uint(s, u32::MAX as nat) {
        Some(v) => Some(v as u32),
        None => None,
    }
}

/// A number the parser accepts is at most `max`.
pub proof fn lemma_parse_uint_bound(s: Seq<char>, max: nat)
    ensures
        spec_parse_uint(s, max) matches Some(v) ==> v <= max,
{
    let body = unsigned_digits(s);
    if spec_parse_uint(s, max) is Some {
        lemma_digits_value_nonneg(body);
    }
}

proof fn lemma_digits_value_nonneg(s: Seq<char>)
    requires
        forall|i: int| 0 <= i < s.len() ==> is_digit(#[trigger] s[i]),
    ensures
        digits_value(s) >= 0,
    decreases s.len(),
{
    if s.len() > 0 {
        lemma_digits_value_nonneg(s.drop_last());
    }
}

proof fn lemma_digits_value_monotone(s: Seq<char>, k: int)
    requires
        0 <= k <= s.len(),
        forall|i: int| 0 <= i < s.len() ==> is_digit(#[trigger] s[i]),
    ensures
        digits_value(s.subrange(0, k)) <= digits_value(s),
    decreases s.len() - k,
{
    if k < s.len() {
        lemma_digits_value_monotone(s, k + 1);
        let p = s.subrange(0, k + 1);
        assert(p.drop_last() =~= s.subrange(0, k));
        lemma_digits_value_nonneg(s.subrange(0, k));
    } else {
        assert(s.subrange(0, k) =~= s);
    }
}

/// Reads a decimal unsigned integer of at most `max` the way the standard
/// parser does.
pub fn parse_uint(cs: &[char], max: u64) -> (r: Option<u64>)
    ensures
        r matches Some(v) ==> spec_parse_uint(cs@, max as nat) == Some(v as nat) && v <= max,
        r is None ==> spec_parse_uint(cs@, max as nat) is None,
{
    let start: usize = if cs.len() > 0 && cs[0] == '+' {
        1
    } else {
        0
    };
    let ghost body = unsigned_digits(cs@);
    assert(body =~= cs@.subrange(start as int, cs@.len() as int));
    if start == cs.len() {
        return None;
    }
    let mut k: usize = start;
    while k < cs.len()
        invariant
            start <= k <= cs@.len(),
            body =~= cs@.subrange(start as int, cs@.len() as int),
            body == unsigned_digits(cs@),
            forall|i: int| start <= i < k ==> is_digit(#[trigger] cs@[i]),
        decreases cs.len() - k,
    {
        if !('0' <= cs[k] && cs[k] <= '9') {
            assert(body[k - start] == cs@[k as int]);
            assert(!is_digit(body[k - start]));
            assert(exists|i: int| 0 <= i < body.len() && !is_digit(#[trigger] body[i]));
            return None;
        }
        k += 1;
    }
    assert(forall|i: int| 0 <= i < body.len() ==> is_digit(#[trigger] body[i])) by {
        assert forall|i: int| 0 <= i < body.len() implies is_digit(#[trigger] body[i]) by {
            assert(body[i] == cs@[start + i]);
        }
    }
    let mut v: u64 = 0;
    let mut j: usize = start;
    while j < cs.len()
        invariant
            start <= j <= cs@.len(),
            body =~= cs@.subrange(start as int, cs@.len() as int),
            body == unsigned_digits(cs@),
            forall|i: int| 0 <= i < body.len() ==> is_digit(#[trigger] body[i]),
            v == digits_value(body.subrange(0, j - start)),
            v <= max,
        decreases cs.len() - j,
    {
        assert(body[j - start] == cs@[j as int]);
        assert(is_digit(body[j - start]));
        let d = (cs[j] as u32 - '0' as u32) as u128;
        let ghost p = body.subrange(0, j + 1 - start);
        assert(p.drop_last() =~= body.subrange(0, j - start));
        assert(p.last() == cs@[j as int]);
        assert(digits_value(p) == v * 10 + d);
        let nv: u128 = v as u128 * 10 + d;
        if nv > max as u128 {
            proof {
                lemma_digits_value_monotone(body, j + 1 - start);
                assert(!(exists|i: int| 0 <= i < body.len() && !is_digit(#[trigger] body[i])));
            }
            return None;
        }
        v = nv as u64;
        j += 1;
    }
    assert(body.subrange(0, body.len() as int) =~= body);
    Some(v)
}

/// Reads a decimal `u32` the way the standard parser does.
pub fn parse_u32(cs: &[char]) -> (r: Option<u32>)
    ensures
        r == spec_parse_u32(cs@),
{
    match parse_uint(cs, 0xFFFF_FFFF) {
        Some(v) => Some(v as u32),
        None => None,
    }
}

/// The index of a finished media segment file (`segment<index>.m4s`);
/// None for other names.
pub open spec fn spec_segment_index(name: Seq<char>) -> Option<u32> {
    if name.len() >= 11 && name.subrange(0, 7) == "segment"@ && name.subrange(
        name.len() - 4,
        name.len() as int,
    ) == ".m4s"@ {
        spec_parse_u32(name.subrange(7, name.len() - 4))
    } else {
        None
    }
}

pub fn segment_index(name: &str) -> (r: Option<u32>)
    ensures
        r == spec_segment_index(name@),
{
    let cs = chars_of(name);
    let prefix = chars_of("segment");
    let suffix = chars_of(".m4s");
    proof {
        reveal_strlit("segment");
        reveal_strlit(".m4s");
    }
    let n = cs.len();
    if n < 11 {
        return None;
    }
    let mut i: usize = 0;
    while i < 7
        invariant
            i <= 7,
            n == cs@.len() >= 11,
            prefix@ == "segment"@,
            prefix@.len() == 7,
            cs@ == name@,
            forall|k: int| 0 <= k < i ==> cs@[k] == prefix@[k],
        decreases 7 - i,
    {
        if cs[i] != prefix[i] {
            assert(cs@.subrange(0, 7)[i as int] == cs@[i as int]);
            assert(cs@.subrange(0, 7)[i as int] != "segment"@[i as int]);
            assert(name@.subrange(0, 7) != "segment"@);
            return None;
        }
        i += 1;
    }
    assert(cs@.subrange(0, 7) =~= "segment"@);
    let mut k: usize = 0;
    while k < 4
        invariant
            k <= 4,
            n == cs@.len() >= 11,
            suffix@ == ".m4s"@,
            suffix@.len() == 4,
            cs@ == name@,
            forall|q: int| 0 <= q < k ==> cs@[n - 4 + q] == suffix@[q],
        decreases 4 - k,
    {
        if cs[n - 4 + k] != suffix[k] {
            assert(cs@.subrange(n - 4, n as int)[k as int] == cs@[n - 4 + k]);
            assert(cs@.subrange(n - 4, n as int)[k as int] != ".m4s"@[k as int]);
            assert(name@.subrange(n - 4, n as int) != ".m4s"@);
            return None;
        }
        k += 1;
    }
    assert(cs@.subrange(n - 4, n as int) =~= ".m4s"@);
    parse_u32(vstd::slice::slice_subrange(cs.as_slice(), 7, n - 4))
}


/// The image formats a thumbnail is encoded in.
#[derive(Clone, Copy, Debug)]
pub enum ThumbnailFormat {
    Png,
    Jxl,
    Avif,
}

/// Whether two strings hold the same characters.
pub fn same_text(a: &str, b: &str) -> (r: bool)
    ensures
        r == (a@ == b@),
{
    let x = chars_of(a);
    let y = chars_of(b);
    if x.len() != y.len() {
        return false;
    }
    let mut i: usize = 0;
    while i < x.len()
        invariant
            i <= x@.len() == y@.len(),
            x@ == a@,
            y@ == b@,
            forall|k: int| 0 <= k < i ==> x@[k] == y@[k],
        decreases x.len() - i,
    {
        if x[i] != y[i] {
            assert(a@[i as int] != b@[i as int]);
            return false;
        }
        i += 1;
    }
    assert(x@ =~= y@);
    true
}

/// The format named by a file extension: "png", "jxl" or "avif".
pub open spec fn spec_thumbnail_format(name: Seq<char>) -> Option<ThumbnailFormat> {
    if name == "png"@ {
        Some(ThumbnailFormat::Png)
    } else if name == "jxl"@ {
        Some(ThumbnailFormat::Jxl)
    } else if name == "avif"@ {
        Some(ThumbnailFormat::Avif)
    } else {
        None
    }
}

pub fn thumbnail_format(name: &str) -> (r: Option<ThumbnailFormat>)
    ensures
        r == spec_thumbnail_format(name@),
{
    if same_text(name, "png") {
        Some(ThumbnailFormat::Png)
    } else if same_text(name, "jxl") {
        Some(ThumbnailFormat::Jxl)
    } else if same_text(name, "avif") {
        Some(ThumbnailFormat::Avif)
    } else {
        None
    }
}

/// The ffmpeg output options that encode a still image in a format: none
/// for PNG (the reference image is copied), JPEG XL at quality 90, AVIF
/// as a still picture at CRF 30.
pub open spec fn spec_encoder_args(f: ThumbnailFormat) -> Seq<Seq<char>> {
    match f {
        ThumbnailFormat::Png => Seq::empty(),
        ThumbnailFormat::Jxl => seq!["-c:v"@, "libjxl"@, "-q:v"@, "90"@, "-f"@, "image2"@],
        ThumbnailFormat::Avif => seq![
            "-c:v"@,
            "libaom-av1"@,
            "-crf"@,
            "30"@,
            "-still-picture"@,
            "1"@,
            "-f"@,
            "avif"@,
        ],
    }
}

pub fn encoder_args(f: ThumbnailFormat) -> (r: Vec<&'static str>)
    ensures
        Seq::new(r@.len(), |i: int| r@[i]@) == spec_encoder_args(f),
{
    let mut v: Vec<&'static str> = Vec::new();
    match f {
        ThumbnailFormat::Png => {},
        ThumbnailFormat::Jxl => {
            v.push("-c:v");
            v.push("libjxl");
            v.push("-q:v");
            v.push("90");
            v.push("-f");
            v.push("image2");
        },
        ThumbnailFormat::Avif => {
            v.push("-c:v");
            v.push("libaom-av1");
            v.push("-crf");
            v.push("30");
            v.push("-still-picture");
            v.push("1");
            v.push("-f");
            v.push("avif");
        },
    }
    assert(Seq::new(v@.len(), |i: int| v@[i]@) =~= spec_encoder_args(f));
    v
}

// ── When to regenerate ───────────────────────────────────────────

/// Whether a live thumbnail attempt may start at `now_s` (seconds): always
/// when none was made before, else once `rate_limit_s` seconds have passed
/// since the last one (a clock that went back counts as no time).
pub fn thumbnail_attempt_allowed(now_s: u64, last_s: Option<u64>, rate_limit_s: u32) -> (r: bool)
    ensures
        r == (last_s matches Some(l) ==> (if now_s >= l {
            now_s - l
        } else {
            0
        }) >= rate_limit_s),
{
    match last_s {
        Some(l) => {
            let passed = if now_s >= l {
                now_s - l
            } else {
                0
            };
            passed >= rate_limit_s as u64
        },
        None => true,
    }
}

/// Whether a thumbnail width needs regenerating: without live updates only
/// when its PNG is missing; with them when the PNG is at least
/// `interval_s` seconds old, or its age cannot be told (missing file,
/// unknown time).
pub fn thumbnail_needed(live_update: bool, png_exists: bool, age_s: Option<u64>, interval_s: u32) -> (r: bool)
    ensures
        r == if !live_update {
            !png_exists
        } else {
            match age_s {
                Some(a) => a >= interval_s,
                None => true,
            }
        },
{
    if !live_update {
        !png_exists
    } else {
        match age_s {
            Some(a) => a >= interval_s as u64,
            None => true,
        }
    }
}

} // verus!
