//! Decimal display of unsigned integers as byte strings.

use vstd::prelude::*;

verus! {

/// The ASCII decimal digits of `n`, most significant first.
pub open spec fn dec_digits(n: nat) -> Seq<u8>
    decreases n,
{
    if n < 10 {
        seq![(48 + n) as u8]
    } else {
        dec_digits(n / 10).push((48 + n % 10) as u8)
    }
}

/// Renders `v` in decimal.
pub fn u64_to_dec(v: u64) -> (r: Vec<u8>)
    ensures
        r@ == dec_digits(v as nat),
    decreases v,
{
    if v < 10 {
        let mut r: Vec<u8> = Vec::new();
        r.push(48 + (v as u8));
        proof {
            assert(r@ =~= dec_digits(v as nat));
        }
        r
    } else {
        let mut r = u64_to_dec(v / 10);
        r.push(48 + ((v % 10) as u8));
        r
    }
}

} // verus!
