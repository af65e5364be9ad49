//! Decimal text of integers, as it appears in length prefixes and in
//! integer replies.

use vstd::prelude::*;

verus! {

/// The ASCII byte of the decimal digit `d`, for `d` below ten.
pub open spec fn digit(d: nat) -> u8 {
    (48 + d) as u8
}

/// The decimal text of `n`: no sign, no leading zero, `0` for zero.
pub open spec fn decimal(n: nat) -> Seq<u8>
    decreases n,
{
    if n < 10 {
        seq![digit(n)]
    } else {
        decimal(n / 10).push(digit(n % 10))
    }
}

/// The decimal text of `v`, with a leading `-` for a negative number.
pub open spec fn signed_decimal(v: int) -> Seq<u8> {
    if v < 0 {
        seq![45u8] + decimal((-v) as nat)
    } else {
        decimal(v as nat)
    }
}

/// Whether `text` is made of decimal digits, and of one at least.
pub open spec fn is_decimal(text: Seq<u8>) -> bool {
    text.len() > 0 && forall|i: int| 0 <= i < text.len() ==> 48 <= #[trigger] text[i] <= 57
}

/// The number that the decimal digits of `text` write.
pub open spec fn decimal_value(text: Seq<u8>) -> nat
    decreases text.len(),
{
    if text.len() == 0 {
        0
    } else {
        decimal_value(text.drop_last()) * 10 + (text.last() - 48) as nat
    }
}

/// The decimal text of a number is made of digits.
pub proof fn lemma_decimal_is_decimal(n: nat)
    ensures
        is_decimal(decimal(n)),
    decreases n,
{
    if n >= 10 {
        lemma_decimal_is_decimal(n / 10);
    }
}

/// Reading the decimal text of a number gives the number back.
pub proof fn lemma_decimal_value(n: nat)
    ensures
        decimal_value(decimal(n)) == n,
    decreases n,
{
    if n < 10 {
        assert(decimal(n).drop_last() =~= Seq::<u8>::empty());
        assert(decimal_value(decimal(n).drop_last()) == 0);
    } else {
        lemma_decimal_value(n / 10);
        assert(decimal(n).drop_last() =~= decimal(n / 10));
    }
}

/// Writes `n` in decimal.
pub fn decimal_bytes(n: u64) -> (text: Vec<u8>)
    ensures
        text@ == decimal(n as nat),
{
    let mut low_first: Vec<u8> = Vec::new();
    let mut rest: u64 = n;
    while rest >= 10
        invariant
            decimal(n as nat) == decimal(rest as nat) + low_first@.reverse(),
        decreases rest,
    {
        let d: u8 = (rest % 10) as u8;
        proof {
            let tail = low_first@.reverse();
            assert(low_first@.push((48 + d) as u8).reverse() =~= seq![(48 + d) as u8] + tail);
            assert(decimal(rest as nat) == decimal((rest / 10) as nat).push(digit((rest % 10) as nat)));
            assert(decimal((rest / 10) as nat).push((48 + d) as u8) + tail
                =~= decimal((rest / 10) as nat) + (seq![(48 + d) as u8] + tail));
        }
        low_first.push(48 + d);
        rest = rest / 10;
    }
    low_first.push(48 + (rest as u8));
    let mut text: Vec<u8> = Vec::new();
    let mut left: usize = low_first.len();
    while left > 0
        invariant
            left <= low_first.len(),
            text@ == low_first@.reverse().subrange(0, low_first.len() - left),
        decreases left,
    {
        left = left - 1;
        text.push(low_first[left]);
        assert(text@ =~= low_first@.reverse().subrange(0, low_first.len() - left));
    }
    proof {
        let earlier = low_first@.drop_last();
        assert(low_first@ =~= earlier.push(digit(rest as nat)));
        assert(low_first@.reverse() =~= seq![digit(rest as nat)] + earlier.reverse());
        assert(text@ =~= low_first@.reverse());
    }
    text
}

/// Writes `v` in decimal, with its sign where it is negative.
pub fn signed_decimal_bytes(v: i64) -> (text: Vec<u8>)
    ensures
        text@ == signed_decimal(v as int),
{
    if v >= 0 {
        decimal_bytes(v as u64)
    } else {
        let magnitude: u64 = (-(v + 1)) as u64 + 1;
        let mut text: Vec<u8> = Vec::new();
        text.push(45);
        let mut digits = decimal_bytes(magnitude);
        text.append(&mut digits);
        text
    }
}

} // verus!
