//! Decimal numerals.

use vstd::prelude::*;

verus! {

/// The character of a digit.
pub open spec fn digit(d: nat) -> char {
    (48 + d) as char
}

/// `n` written in decimal, without leading zeros.
pub open spec fn decimal(n: nat) -> Seq<char>
    decreases n,
{
    if n < 10 {
        seq![digit(n)]
    } else {
        decimal(n / 10).push(digit(n % 10))
    }
}

/// `count` times the digit zero.
pub open spec fn zeros(count: int) -> Seq<char> {
    Seq::new(if count > 0 { count as nat } else { 0 }, |i: int| '0')
}

/// `n` written in decimal with at least `width` digits, filled up with zeros in front.
pub open spec fn padded(n: nat, width: nat) -> Seq<char> {
    zeros(width - decimal(n).len()) + decimal(n)
}

fn digit_char(d: u64) -> (r: char)
    requires
        d < 10,
    ensures
        r == digit(d as nat),
{
    (48u8 + d as u8) as char
}

/// Appends `n` in decimal to `out`.
pub fn append_decimal(out: &mut String, n: u64)
    ensures
        final(out)@ == old(out)@ + decimal(n as nat),
    decreases n,
{
    if n >= 10 {
        append_decimal(out, n / 10);
    }
    out.push(digit_char(n % 10));
}

/// The number of digits of `n`.
fn digits(n: u64) -> (r: u64)
    ensures
        r == decimal(n as nat).len(),
        r <= n + 1,
    decreases n,
{
    if n < 10 {
        1
    } else {
        1 + digits(n / 10)
    }
}

/// Appends `n` in decimal to `out`, with at least `width` digits.
pub fn append_padded(out: &mut String, n: u64, width: u64)
    ensures
        final(out)@ == old(out)@ + padded(n as nat, width as nat),
{
    let have = digits(n);
    let ghost before = out@;
    let mut i: u64 = have;
    while i < width
        invariant
            i >= have,
            have < width ==> i <= width,
            have >= width ==> i == have,
            out@ == before + zeros(i - have),
        decreases width - i,
    {
        out.push('0');
        i += 1;
        assert(zeros(i - have) == zeros(i - have - 1).push('0'));
    }
    assert(zeros(width - have) == zeros(i - have));
    append_decimal(out, n);
}

/// The number that a row of digits stands for.
pub open spec fn number_of(digits: Seq<char>) -> int
    decreases digits.len(),
{
    if digits.len() == 0 {
        0
    } else {
        number_of(digits.drop_last()) * 10 + (digits.last() as int - 48)
    }
}

/// A numeral stands for its number.
pub proof fn lemma_number_of_decimal(n: nat)
    ensures
        number_of(decimal(n)) == n,
    decreases n,
{
    if n < 10 {
        assert(decimal(n).drop_last() == Seq::<char>::empty());
        assert(number_of(decimal(n).drop_last()) == 0);
    } else {
        lemma_number_of_decimal(n / 10);
        assert(decimal(n).drop_last() == decimal(n / 10));
    }
}

/// Zeros in front change nothing.
pub proof fn lemma_number_of_zeros(count: int, digits: Seq<char>)
    ensures
        number_of(zeros(count) + digits) == number_of(digits),
    decreases digits.len(), count,
{
    let all = zeros(count) + digits;
    if digits.len() > 0 {
        assert(all.drop_last() == zeros(count) + digits.drop_last());
        lemma_number_of_zeros(count, digits.drop_last());
    } else if count > 0 {
        assert(all.drop_last() == zeros(count - 1) + digits);
        lemma_number_of_zeros(count - 1, digits);
    } else {
        assert(all == digits);
    }
}

/// Two numbers that are written alike, with zeros in front, are the same.
pub proof fn law_padded_is_unique(a: nat, b: nat, width: nat)
    requires
        padded(a, width) == padded(b, width),
    ensures
        a == b,
{
    lemma_number_of_decimal(a);
    lemma_number_of_decimal(b);
    lemma_number_of_zeros(width - decimal(a).len(), decimal(a));
    lemma_number_of_zeros(width - decimal(b).len(), decimal(b));
}

} // verus!
