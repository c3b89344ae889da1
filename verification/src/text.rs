//! Building strings: appending text, decimal and hexadecimal numbers.
use vstd::prelude::*;
use vstd::string::StringExecFns;

verus! {

/// Appends `t` to `s`.
pub(crate) fn push_str(s: &mut String, t: &str)
    ensures
        final(s)@ == old(s)@ + t@,
{
    s.append(t);
}

/// Appends the character `c` to `s`.
///
/// This calls `String::push`; the contract claims what its documentation
/// states: `c` is appended at the end.
#[verifier::external_body]
pub(crate) fn push_char(s: &mut String, c: char)
    ensures
        final(s)@ == old(s)@.push(c),
{
    s.push(c);
}

/// The character of the digit `d` (0..=15), upper- or lower-case for 10..=15.
pub open spec fn digit_char(d: int, upper: bool) -> char {
    if d < 10 {
        (48 + d) as char
    } else if upper {
        (55 + d) as char
    } else {
        (87 + d) as char
    }
}

/// `n` written in `base` (10 or 16) without leading zeros.
pub open spec fn spec_radix(n: nat, base: nat, upper: bool) -> Seq<char>
    decreases n,
{
    if n < base || base < 2 {
        seq![digit_char(n as int, upper)]
    } else {
        proof {
            assert(n / base < n) by (nonlinear_arith)
                requires
                    base >= 2,
                    n >= base,
            ;
        }
        spec_radix(n / base, base, upper).push(digit_char((n % base) as int, upper))
    }
}

/// `n` in decimal.
pub open spec fn spec_decimal(n: nat) -> Seq<char> {
    spec_radix(n, 10, false)
}

/// `n` in decimal, padded with zeros to at least two digits.
pub open spec fn spec_decimal2(n: nat) -> Seq<char> {
    if n < 10 {
        seq!['0'].push(digit_char(n as int, false))
    } else {
        spec_decimal(n)
    }
}

/// The two hexadecimal digits of a byte.
pub open spec fn spec_hex2(b: u8, upper: bool) -> Seq<char> {
    seq![digit_char((b / 16) as int, upper), digit_char((b % 16) as int, upper)]
}

fn digit(d: u64, upper: bool) -> (c: char)
    requires
        d < 16,
    ensures
        c == digit_char(d as int, upper),
{
    if d < 10 {
        ((48 + d) as u8) as char
    } else if upper {
        ((55 + d) as u8) as char
    } else {
        ((87 + d) as u8) as char
    }
}

/// Appends `n` written in `base` (10 or 16).
pub fn push_radix(s: &mut String, n: u64, base: u64, upper: bool)
    requires
        base == 10 || base == 16,
    ensures
        final(s)@ == old(s)@ + spec_radix(n as nat, base as nat, upper),
    decreases n,
{
    if n < base {
        push_char(s, digit(n, upper));
        assert(spec_radix(n as nat, base as nat, upper) == seq![digit_char(n as int, upper)]);
        assert(s@ =~= old(s)@ + spec_radix(n as nat, base as nat, upper));
    } else {
        push_radix(s, n / base, base, upper);
        push_char(s, digit(n % base, upper));
        assert(s@ =~= old(s)@ + spec_radix(n as nat, base as nat, upper));
    }
}

/// Appends `n` in decimal.
pub fn push_decimal(s: &mut String, n: u64)
    ensures
        final(s)@ == old(s)@ + spec_decimal(n as nat),
{
    push_radix(s, n, 10, false);
}

/// Appends `n` in decimal, zero-padded to two digits.
pub fn push_decimal2(s: &mut String, n: u64)
    ensures
        final(s)@ == old(s)@ + spec_decimal2(n as nat),
{
    if n < 10 {
        push_char(s, '0');
        push_char(s, digit(n, false));
        assert(s@ =~= old(s)@ + spec_decimal2(n as nat));
    } else {
        push_decimal(s, n);
    }
}

/// Appends the two hexadecimal digits of `b`.
pub fn push_hex2(s: &mut String, b: u8, upper: bool)
    ensures
        final(s)@ == old(s)@ + spec_hex2(b, upper),
{
    push_char(s, digit((b / 16) as u64, upper));
    push_char(s, digit((b % 16) as u64, upper));
    assert(s@ =~= old(s)@ + spec_hex2(b, upper));
}

/// The characters of `s`.
pub fn chars_of(s: &str) -> (v: Vec<char>)
    ensures
        v@ == s@,
{
    let mut v: Vec<char> = Vec::new();
    for c in it: s.chars()
        invariant
            v@ == it.seq().subrange(0, it.index() as int),
    {
        v.push(c);
        assert(v@ =~= it.seq().subrange(0, it.index() + 1));
    }
    v
}

/// A string of the given characters.
pub fn string_of(cs: &[char]) -> (s: String)
    ensures
        s@ == cs@,
{
    let mut s = String::new();
    let mut i: usize = 0;
    while i < cs.len()
        invariant
            i <= cs@.len(),
            s@ == cs@.subrange(0, i as int),
        decreases cs.len() - i,
    {
        push_char(&mut s, cs[i]);
        i += 1;
        assert(s@ =~= cs@.subrange(0, i as int));
    }
    assert(cs@.subrange(0, cs@.len() as int) =~= cs@);
    s
}


/// `n` in decimal, padded with leading zeros to at least `width` digits.
pub open spec fn spec_decimal_padded(n: nat, width: nat) -> Seq<char> {
    let d = spec_decimal(n);
    if d.len() < width {
        Seq::new((width - d.len()) as nat, |i: int| '0') + d
    } else {
        d
    }
}

/// Appends `n` in decimal, padded with zeros to at least `width` digits.
pub fn push_decimal_padded(s: &mut String, n: u64, width: usize)
    ensures
        final(s)@ == old(s)@ + spec_decimal_padded(n as nat, width as nat),
{
    let mut t = String::new();
    push_decimal(&mut t, n);
    let digits = chars_of(t.as_str());
    assert(digits@ =~= spec_decimal(n as nat));
    let ghost start = s@;
    if digits.len() < width {
        let pad = width - digits.len();
        let mut k: usize = 0;
        while k < pad
            invariant
                k <= pad,
                s@ == start + Seq::new(k as nat, |i: int| '0'),
            decreases pad - k,
        {
            push_char(s, '0');
            k += 1;
            assert(s@ =~= start + Seq::new(k as nat, |i: int| '0'));
        }
    }
    push_str(s, t.as_str());
    assert(s@ =~= start + spec_decimal_padded(n as nat, width as nat));
}

/// Milliseconds as seconds with three decimals.
pub open spec fn spec_millis(ms: nat) -> Seq<char> {
    spec_decimal(ms / 1000) + seq!['.'] + spec_decimal_padded(ms % 1000, 3)
}

/// Appends milliseconds as seconds with three decimals.
pub fn push_millis(s: &mut String, ms: u64)
    ensures
        final(s)@ == old(s)@ + spec_millis(ms as nat),
{
    let ghost start = s@;
    push_decimal(s, ms / 1000);
    push_char(s, '.');
    push_decimal_padded(s, ms % 1000, 3);
    assert(s@ =~= start + spec_millis(ms as nat));
}

} // verus!
