//! HTTP API helpers: thumbnail width selection, Host header parsing and the
//! recording listing entry.
use crate::text::{chars_of, string_of};
use std::collections::HashMap;
use vstd::prelude::*;

verus! {

/// The width used when none is configured.
pub open spec fn default_width(sizes: Seq<u32>) -> u32 {
    if sizes.len() > 0 {
        sizes[0]
    } else {
        480
    }
}

/// The thumbnail width served for a request: with no width requested, the
/// first configured size; otherwise the largest configured size not above
/// the request, or the first size when that is larger; 480 when no size is
/// configured.
pub fn closest_thumbnail_width(requested: Option<u32>, sizes: &[u32]) -> (r: u32)
    ensures
        requested is None ==> r == default_width(sizes@),
        requested matches Some(w) ==> {
            &&& r >= default_width(sizes@)
            &&& forall|i: int| 0 <= i < sizes@.len() && sizes@[i] <= w ==> sizes@[i] <= r
            &&& r == default_width(sizes@) || exists|i: int|
                0 <= i < sizes@.len() && sizes@[i] == r && r <= w
        },
{
    let first: u32 = if sizes.len() > 0 {
        sizes[0]
    } else {
        480
    };
    match requested {
        None => first,
        Some(w) => {
            let mut best = first;
            let mut i: usize = 0;
            while i < sizes.len()
                invariant
                    i <= sizes@.len(),
                    first == default_width(sizes@),
                    best >= first,
                    forall|k: int| 0 <= k < i && sizes@[k] <= w ==> sizes@[k] <= best,
                    best == first || exists|k: int|
                        0 <= k < sizes@.len() && sizes@[k] == best && best <= w,
                decreases sizes.len() - i,
            {
                let s = sizes[i];
                if s <= w && s > best {
                    best = s;
                }
                i += 1;
            }
            best
        },
    }
}

/// The characters of `s` before the first `c` (all of `s` without one).
pub open spec fn before_char(s: Seq<char>, c: char) -> Seq<char>
    decreases s.len(),
{
    if s.len() == 0 {
        Seq::empty()
    } else if s[0] == c {
        Seq::empty()
    } else {
        seq![s[0]] + before_char(s.drop_first(), c)
    }
}

/// The host of a Host header value: inside the brackets of an IPv6
/// literal such as "[::1]:8080", else before the first ':'.
pub open spec fn spec_extract_host(h: Seq<char>) -> Seq<char> {
    if h.len() > 0 && h[0] == '[' && h.drop_first().contains(']') {
        before_char(h.drop_first(), ']')
    } else {
        before_char(h, ':')
    }
}

proof fn lemma_before_char_step(s: Seq<char>, c: char, i: int)
    requires
        0 <= i < s.len(),
        forall|k: int| 0 <= k < i ==> s[k] != c,
    ensures
        before_char(s, c) == s.subrange(0, i) + before_char(s.subrange(i, s.len() as int), c),
    decreases i,
{
    if i > 0 {
        lemma_before_char_step(s.drop_first(), c, i - 1);
        assert(s.drop_first().subrange(0, i - 1) =~= s.subrange(1, i));
        assert(s.drop_first().subrange(i - 1, s.len() - 1) =~= s.subrange(i, s.len() as int));
        assert(s.subrange(0, i) =~= seq![s[0]] + s.subrange(1, i));
    } else {
        assert(s.subrange(0, 0) =~= Seq::<char>::empty());
        assert(s.subrange(0, s.len() as int) =~= s);
    }
}

/// The characters of `cs` from `start` up to the first `c`.
fn take_until(cs: &[char], start: usize, c: char) -> (r: Vec<char>)
    requires
        start <= cs@.len(),
    ensures
        r@ == before_char(cs@.subrange(start as int, cs@.len() as int), c),
{
    let ghost t = cs@.subrange(start as int, cs@.len() as int);
    let mut out: Vec<char> = Vec::new();
    let mut i: usize = start;
    while i < cs.len() && cs[i] != c
        invariant
            start <= i <= cs@.len(),
            t == cs@.subrange(start as int, cs@.len() as int),
            out@ == cs@.subrange(start as int, i as int),
            forall|k: int| start <= k < i ==> cs@[k] != c,
        decreases cs.len() - i,
    {
        out.push(cs[i]);
        i += 1;
        assert(out@ =~= cs@.subrange(start as int, i as int));
    }
    proof {
        let j = i - start;
        if j < t.len() {
            assert forall|k: int| 0 <= k < j implies t[k] != c by {
                assert(t[k] == cs@[start + k]);
            }
            lemma_before_char_step(t, c, j);
            assert(t.subrange(j, t.len() as int)[0] == c);
            assert(out@ =~= t.subrange(0, j));
        } else {
            assert(t.len() == j);
            assert forall|k: int| 0 <= k < j implies t[k] != c by {
                assert(t[k] == cs@[start + k]);
            }
            lemma_before_char_all(t, c);
            assert(out@ =~= t);
        }
    }
    out
}

proof fn lemma_before_char_all(s: Seq<char>, c: char)
    requires
        forall|k: int| 0 <= k < s.len() ==> s[k] != c,
    ensures
        before_char(s, c) == s,
    decreases s.len(),
{
    if s.len() > 0 {
        lemma_before_char_all(s.drop_first(), c);
        assert(seq![s[0]] + s.drop_first() =~= s);
    }
}

/// The host part of a Host header value.
pub fn extract_host(host_header: &str) -> (r: String)
    ensures
        r@ == spec_extract_host(host_header@),
{
    let cs = chars_of(host_header);
    if cs.len() > 0 && cs[0] == '[' {
        let mut j: usize = 1;
        while j < cs.len() && cs[j] != ']'
            invariant
                1 <= j <= cs@.len(),
                forall|k: int| 1 <= k < j ==> cs@[k] != ']',
            decreases cs.len() - j,
        {
            j += 1;
        }
        if j < cs.len() {
            proof {
                assert(cs@.drop_first()[j - 1] == ']');
            }
            let inner = take_until(cs.as_slice(), 1, ']');
            assert(cs@.subrange(1, cs@.len() as int) =~= cs@.drop_first());
            return string_of(inner.as_slice());
        }
        proof {
            assert(!cs@.drop_first().contains(']')) by {
                if cs@.drop_first().contains(']') {
                    let k = choose|k: int| 0 <= k < cs@.drop_first().len() && cs@.drop_first()[k] == ']';
                    assert(cs@[k + 1] == ']');
                }
            }
        }
    }
    let head = take_until(cs.as_slice(), 0, ':');
    assert(cs@.subrange(0, cs@.len() as int) =~= cs@);
    string_of(head.as_slice())
}

/// One recording in the API listing.
pub struct RecordingResponse {
    pub filename: String,
    pub stream_key: String,
    pub created_at: String,
    pub size_bytes: u64,
    pub duration_seconds: Option<u64>,
    pub url: String,
    pub thumbnail_url: String,
    pub thumbnails: HashMap<String, String>,
}

} // verus!
