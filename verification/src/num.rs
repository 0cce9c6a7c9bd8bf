//! Decimal rendering of integers as ASCII byte strings, used by the
//! pagination footer and the latency reply.

use vstd::prelude::*;

verus! {

/// Decimal digits of `n`, most significant first, without a sign and
/// without leading zeroes (a single `'0'` for zero).
pub open spec fn dec_digits(n: nat) -> Seq<u8>
    decreases n,
{
    if n < 10 {
        seq![(48 + n) as u8]
    } else {
        dec_digits(n / 10) + seq![(48 + n % 10) as u8]
    }
}

/// Decimal digits of `n` padded with a leading `'0'` to at least two
/// digits, as a fractional part rendered to two places expects.
pub open spec fn dec_digits_pad2(n: nat) -> Seq<u8> {
    if n < 10 {
        seq![48u8] + dec_digits(n)
    } else {
        dec_digits(n)
    }
}

/// `n` rendered in decimal, per [`dec_digits`].
pub fn format_u64(n: u64) -> (r: Vec<u8>)
    ensures
        r@ == dec_digits(n as nat),
    decreases n,
{
    if n < 10 {
        let mut r: Vec<u8> = Vec::new();
        r.push(48 + (n as u8));
        assert(r@ =~= dec_digits(n as nat));
        r
    } else {
        let mut r: Vec<u8> = format_u64(n / 10);
        r.push(48 + ((n % 10) as u8));
        assert(r@ =~= dec_digits(n as nat));
        r
    }
}

/// `n` rendered in decimal with at least two digits, per
/// [`dec_digits_pad2`].
pub fn format_u64_pad2(n: u64) -> (r: Vec<u8>)
    ensures
        r@ == dec_digits_pad2(n as nat),
{
    if n < 10 {
        let mut r: Vec<u8> = Vec::new();
        r.push(48u8);
        r.push(48 + (n as u8));
        assert(r@ =~= dec_digits_pad2(n as nat));
        r
    } else {
        format_u64(n)
    }
}

} // verus!
