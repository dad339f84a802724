//! Decimal and hexadecimal rendering of unsigned integers, as `format!` does it.
use vstd::prelude::*;

verus! {

/// The character for a digit value below 16: `0`-`9`, then `a`-`f`.
pub open spec fn digit_char(d: nat) -> char {
    if d < 10 {
        (48 + d) as char
    } else {
        (87 + d) as char
    }
}

/// Digits of `n` in base `base`, most significant first, without leading zeros (`"0"` for zero).
pub open spec fn digits(n: nat, base: nat) -> Seq<char>
    decreases n,
{
    if base < 2 || n < base {
        seq![digit_char(n)]
    } else {
        proof {
            lemma_div_smaller(n, base);
        }
        digits(n / base, base) + seq![digit_char(n % base)]
    }
}

pub proof fn lemma_div_smaller(n: nat, base: nat)
    requires
        2 <= base <= n,
    ensures
        n / base < n,
{
    assert(n / base < n) by (nonlinear_arith)
        requires
            2 <= base <= n,
    ;
}

/// `{n}`: decimal rendering.
pub open spec fn decimal(n: nat) -> Seq<char> {
    digits(n, 10)
}

/// `{n:x}`: lowercase hexadecimal rendering.
pub open spec fn hex(n: nat) -> Seq<char> {
    digits(n, 16)
}

/// Left-pad `s` with `c` to at least `width` characters, as `{:0width}` does.
pub open spec fn pad_left(s: Seq<char>, width: nat, c: char) -> Seq<char> {
    if s.len() >= width {
        s
    } else {
        Seq::new((width - s.len()) as nat, |i: int| c) + s
    }
}

/// `{n:02}`.
pub open spec fn decimal_pad2(n: nat) -> Seq<char> {
    pad_left(decimal(n), 2, '0')
}

/// `{n:02x}`.
pub open spec fn hex_pad2(n: nat) -> Seq<char> {
    pad_left(hex(n), 2, '0')
}

/// `{n:08x}`.
pub open spec fn hex_pad8(n: nat) -> Seq<char> {
    pad_left(hex(n), 8, '0')
}

pub fn digit(d: u64) -> (c: char)
    requires
        d < 16,
    ensures
        c == digit_char(d as nat),
{
    if d < 10 {
        (48 + d as u8) as char
    } else {
        (87 + d as u8) as char
    }
}

/// Render `n` in base `base` (2 to 16).
pub fn to_digits(n: u64, base: u64) -> (v: Vec<char>)
    requires
        2 <= base <= 16,
    ensures
        v@ == digits(n as nat, base as nat),
        v@.len() >= 1,
    decreases n,
{
    if n < base {
        let mut v = Vec::new();
        v.push(digit(n));
        v
    } else {
        proof {
            lemma_div_smaller(n as nat, base as nat);
        }
        let mut v = to_digits(n / base, base);
        v.push(digit(n % base));
        v
    }
}

pub fn pad_to(s: Vec<char>, width: usize, c: char) -> (v: Vec<char>)
    ensures
        v@ == pad_left(s@, width as nat, c),
{
    if s.len() >= width {
        return s;
    }
    let mut v: Vec<char> = Vec::new();
    let fill = width - s.len();
    let mut i: usize = 0;
    while i < fill
        invariant
            i <= fill,
            v@ == Seq::new(i as nat, |k: int| c),
        decreases fill - i,
    {
        v.push(c);
        assert(v@ =~= Seq::new((i + 1) as nat, |k: int| c));
        i += 1;
    }
    let mut j: usize = 0;
    let ghost prefix = v@;
    while j < s.len()
        invariant
            j <= s.len(),
            v@ == prefix + s@.take(j as int),
        decreases s.len() - j,
    {
        v.push(s[j]);
        assert(s@.take(j + 1) == s@.take(j as int).push(s@[j as int]));
        j += 1;
    }
    assert(s@.take(s@.len() as int) == s@);
    v
}

pub fn decimal_chars(n: u64) -> (v: Vec<char>)
    ensures
        v@ == decimal(n as nat),
{
    to_digits(n, 10)
}

pub fn decimal_pad2_chars(n: u64) -> (v: Vec<char>)
    ensures
        v@ == decimal_pad2(n as nat),
{
    pad_to(to_digits(n, 10), 2, '0')
}

pub fn hex_pad2_chars(n: u64) -> (v: Vec<char>)
    ensures
        v@ == hex_pad2(n as nat),
{
    pad_to(to_digits(n, 16), 2, '0')
}

pub fn hex_pad8_chars(n: u64) -> (v: Vec<char>)
    ensures
        v@ == hex_pad8(n as nat),
{
    pad_to(to_digits(n, 16), 8, '0')
}

} // verus!
