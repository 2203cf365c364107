//! Building text character by character, and numbers in decimal.

use vstd::prelude::*;

verus! {

/// `String::push` appends the given character to the end of the string and
/// leaves the rest of it as it was.
pub assume_specification[ String::push ](s: &mut String, ch: char)
    ensures
        final(s)@ == old(s)@.push(ch),
;

/// The character for a decimal digit.
pub open spec fn digit(d: nat) -> char {
    ('0' as u8 + d) as char
}

/// A natural number in decimal, without leading zeros.
pub open spec fn decimal(n: nat) -> Seq<char>
    decreases n,
{
    if n < 10 {
        seq![digit(n)]
    } else {
        decimal(n / 10).push(digit(n % 10))
    }
}

/// An integer in decimal, with a minus sign in front if it is negative.
pub open spec fn signed_decimal(i: int) -> Seq<char> {
    if i < 0 {
        seq!['-'] + decimal((-i) as nat)
    } else {
        decimal(i as nat)
    }
}

fn digit_of(d: u64) -> (c: char)
    requires
        d < 10,
    ensures
        c == digit(d as nat),
{
    ('0' as u8 + d as u8) as char
}

/// The digits of `n`, the last one first.
pub(crate) fn digits_reversed(n: u64) -> (digits: Vec<char>)
    ensures
        digits@.reverse() == decimal(n as nat),
{
    let mut digits: Vec<char> = Vec::new();
    let mut rest: u64 = n;
    digits.push(digit_of(rest % 10));
    rest = rest / 10;
    assert(digits@.reverse() =~= seq![digit((n % 10) as nat)]);
    while rest > 0
        invariant
            rest > 0 ==> decimal(n as nat) == decimal(rest as nat) + digits@.reverse(),
            rest == 0 ==> decimal(n as nat) == digits@.reverse(),
        decreases rest,
    {
        let ghost before = digits@;
        let ghost d = digit((rest % 10) as nat);
        digits.push(digit_of(rest % 10));
        assert(digits@.reverse() =~= seq![d] + before.reverse());
        assert(decimal(rest as nat) + before.reverse() =~= if rest < 10 {
            digits@.reverse()
        } else {
            decimal((rest / 10) as nat) + digits@.reverse()
        });
        rest = rest / 10;
    }
    digits
}

/// Appends the characters of `chars` to `out`, the last one first.
pub(crate) fn push_reversed(out: &mut String, chars: &Vec<char>)
    ensures
        final(out)@ == old(out)@ + chars@.reverse(),
{
    let mut left: usize = chars.len();
    while left > 0
        invariant
            left <= chars@.len(),
            out@ == old(out)@ + chars@.reverse().take(chars@.len() - left),
        decreases left,
    {
        left -= 1;
        out.push(chars[left]);
        assert(out@ =~= old(out)@ + chars@.reverse().take(chars@.len() - left));
    }
    assert(chars@.reverse().take(chars@.len() as int) =~= chars@.reverse());
}

/// Appends `n` in decimal to `out`.
pub fn push_decimal(out: &mut String, n: u64)
    ensures
        final(out)@ == old(out)@ + decimal(n as nat),
{
    let digits = digits_reversed(n);
    push_reversed(out, &digits);
}

} // verus!
