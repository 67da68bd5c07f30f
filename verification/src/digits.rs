//! Decimal rendering of unsigned integers, with zero padding.

use vstd::prelude::*;

verus! {

/// The ASCII character of the decimal digit `d` (0..=9).
pub open spec fn digit_char(d: int) -> char {
    (d + 48) as char
}

/// The decimal digits of `n`, most significant first, without leading zeros
/// (zero itself is the single digit `0`).
pub open spec fn decimal(n: nat) -> Seq<char>
    decreases n,
{
    if n < 10 {
        seq![digit_char(n as int)]
    } else {
        decimal(n / 10).push(digit_char((n % 10) as int))
    }
}

/// `s` with `'0'` characters in front, so that it is at least `width` long.
pub open spec fn zero_pad(s: Seq<char>, width: nat) -> Seq<char> {
    if s.len() >= width {
        s
    } else {
        Seq::new((width - s.len()) as nat, |_i: int| '0') + s
    }
}

/// Rust's `{:0w}` rendering of an unsigned integer.
pub open spec fn padded_decimal(n: nat, width: nat) -> Seq<char> {
    zero_pad(decimal(n), width)
}

pub fn digit(d: u64) -> (c: char)
    requires
        d < 10,
    ensures
        c == digit_char(d as int),
{
    if d == 0 { '0' }
    else if d == 1 { '1' }
    else if d == 2 { '2' }
    else if d == 3 { '3' }
    else if d == 4 { '4' }
    else if d == 5 { '5' }
    else if d == 6 { '6' }
    else if d == 7 { '7' }
    else if d == 8 { '8' }
    else { '9' }
}

/// Appends the decimal digits of `n` to `out`.
pub fn push_decimal(out: &mut Vec<char>, n: u64)
    ensures
        final(out)@ == old(out)@ + decimal(n as nat),
    decreases n,
{
    if n < 10 {
        out.push(digit(n));
    } else {
        push_decimal(out, n / 10);
        out.push(digit(n % 10));
    }
}

/// Appends the decimal digits of `n`, zero-padded to `width`, to `out`.
pub fn push_padded(out: &mut Vec<char>, n: u64, width: usize)
    ensures
        final(out)@ == old(out)@ + padded_decimal(n as nat, width as nat),
{
    let mut digits: Vec<char> = Vec::new();
    push_decimal(&mut digits, n);
    assert(digits@ =~= decimal(n as nat));
    let len = digits.len();
    if len < width {
        let mut i: usize = 0;
        while i < width - len
            invariant
                i <= width - len,
                len == digits@.len(),
                len < width,
                out@ == old(out)@ + Seq::new(i as nat, |_j: int| '0'),
            decreases width - len - i,
        {
            out.push('0');
            i = i + 1;
            assert(out@ =~= old(out)@ + Seq::new(i as nat, |_j: int| '0'));
        }
    }
    let ghost before = out@;
    let mut k: usize = 0;
    while k < len
        invariant
            k <= len,
            len == digits@.len(),
            out@ == before + digits@.take(k as int),
        decreases len - k,
    {
        out.push(digits[k]);
        k = k + 1;
        assert(out@ =~= before + digits@.take(k as int));
    }
    assert(digits@.take(len as int) =~= digits@);
    assert(out@ =~= old(out)@ + padded_decimal(n as nat, width as nat));
}

/// The number that a text of decimal digits stands for, most significant digit first.
pub open spec fn digits_value(s: Seq<char>) -> int
    decreases s.len(),
{
    if s.len() == 0 {
        0
    } else {
        digits_value(s.drop_last()) * 10 + (s.last() as int - '0' as int)
    }
}

/// The digit characters are `'0'` to `'9'` in order.
pub proof fn law_digit_chars(d: int)
    requires
        0 <= d < 10,
    ensures
        digit_char(0) == '0',
        digit_char(9) == '9',
        '0' <= digit_char(d) <= '9',
        digit_char(d) as int - '0' as int == d,
{
}

/// The decimal text of `n` is made of digit characters, reads back as `n`, is at least `width`
/// long once padded, and starts with `0` only when `n` is zero or padding was added.
pub proof fn law_decimal_reads_back(n: nat, width: nat)
    ensures
        forall|k: int| 0 <= k < decimal(n).len() ==> '0' <= #[trigger] decimal(n)[k] <= '9',
        digits_value(decimal(n)) == n,
        n > 0 ==> decimal(n)[0] != '0',
        digits_value(padded_decimal(n, width)) == n,
        padded_decimal(n, width).len() >= width,
        padded_decimal(n, width).len() == if decimal(n).len() >= width { decimal(n).len() } else { width },
    decreases n,
{
    if n >= 10 {
        law_decimal_reads_back(n / 10, 0);
        let p = decimal(n / 10);
        assert(decimal(n) == p.push(digit_char((n % 10) as int)));
        assert(decimal(n).drop_last() =~= p);
        assert forall|k: int| 0 <= k < decimal(n).len() implies '0' <= #[trigger] decimal(n)[k] <= '9' by {
            if k < p.len() {
                assert(decimal(n)[k] == p[k]);
            }
        }
        assert(decimal(n)[0] == p[0]);
        law_digit_chars((n % 10) as int);
        assert(decimal(n).last() == digit_char((n % 10) as int));
        assert(digits_value(decimal(n)) == digits_value(p) * 10 + (n % 10));
        assert(n == (n / 10) * 10 + n % 10);
    } else {
        law_digit_chars(n as int);
        assert(decimal(n).drop_last() =~= Seq::<char>::empty());
        assert(decimal(n).last() == digit_char(n as int));
        assert(digits_value(decimal(n)) == digits_value(Seq::<char>::empty()) * 10 + n);
    }
    let d = decimal(n);
    if d.len() < width {
        let z = Seq::new((width - d.len()) as nat, |_i: int| '0');
        lemma_zeros_then_digits(z, d);
    }
}

proof fn lemma_zeros_then_digits(z: Seq<char>, d: Seq<char>)
    requires
        forall|k: int| 0 <= k < z.len() ==> z[k] == '0',
    ensures
        digits_value(z + d) == digits_value(d),
    decreases z.len() + d.len(),
{
    if d.len() > 0 {
        lemma_zeros_then_digits(z, d.drop_last());
        assert((z + d).drop_last() =~= z + d.drop_last());
    } else {
        assert(z + d =~= z);
        lemma_zeros_value(z);
    }
}

proof fn lemma_zeros_value(z: Seq<char>)
    requires
        forall|k: int| 0 <= k < z.len() ==> z[k] == '0',
    ensures
        digits_value(z) == 0,
    decreases z.len(),
{
    if z.len() > 0 {
        lemma_zeros_value(z.drop_last());
    }
}

/// The decimal text of a signed integer: a `-` in front of a negative one.
pub open spec fn signed_decimal(v: int) -> Seq<char> {
    if v < 0 {
        seq!['-'] + decimal((-v) as nat)
    } else {
        decimal(v as nat)
    }
}

/// Appends the decimal text of `v` to `out`.
pub fn push_signed(out: &mut Vec<char>, v: i64)
    ensures
        final(out)@ == old(out)@ + signed_decimal(v as int),
{
    if v < 0 {
        out.push('-');
        let ghost mid = out@;
        let magnitude: u64 = (0i128 - v as i128) as u64;
        push_decimal(out, magnitude);
        assert(out@ =~= old(out)@ + signed_decimal(v as int));
    } else {
        push_decimal(out, v as u64);
    }
}

} // verus!
