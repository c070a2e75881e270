//! Canonical decimal text encoding of unsigned integers, used when a scalar
//! key value is embedded in a storage key.

use vstd::arithmetic::div_mod::lemma_fundamental_div_mod;
use vstd::prelude::*;

verus! {

/// The ASCII decimal digits of `v`, most significant first, no leading zeros
/// (`0` encodes as the single digit `0`).
pub open spec fn dec_bytes(v: nat) -> Seq<u8>
    decreases v,
{
    if v < 10 {
        seq![(48 + v) as u8]
    } else {
        dec_bytes(v / 10).push((48 + v % 10) as u8)
    }
}

/// The value a string of ASCII decimal digits denotes.
pub open spec fn dec_val(s: Seq<u8>) -> nat
    decreases s.len(),
{
    if s.len() == 0 {
        0
    } else {
        dec_val(s.drop_last()) * 10 + (s.last() - 48) as nat
    }
}

/// Reading the decimal digits of `v` back gives `v`.
pub proof fn lemma_dec_val_of_dec_bytes(v: nat)
    ensures
        dec_val(dec_bytes(v)) == v,
    decreases v,
{
    if v < 10 {
        let s = dec_bytes(v);
        assert(s =~= seq![(48 + v) as u8]);
        assert(s.drop_last() =~= Seq::<u8>::empty());
        assert(dec_val(s) == dec_val(s.drop_last()) * 10 + (s.last() - 48) as nat);
    } else {
        lemma_dec_val_of_dec_bytes(v / 10);
        let s = dec_bytes(v / 10);
        let d = (48 + v % 10) as u8;
        assert(dec_bytes(v) == s.push(d));
        assert(s.push(d).drop_last() =~= s);
        assert(s.push(d).last() == d);
        assert(dec_val(s.push(d)) == dec_val(s) * 10 + (d - 48) as nat);
        lemma_fundamental_div_mod(v as int, 10);
    }
}

/// Distinct values have distinct decimal encodings.
pub proof fn lemma_dec_bytes_injective(v1: nat, v2: nat)
    requires
        dec_bytes(v1) == dec_bytes(v2),
    ensures
        v1 == v2,
{
    lemma_dec_val_of_dec_bytes(v1);
    lemma_dec_val_of_dec_bytes(v2);
}

/// Every byte of a decimal encoding is an ASCII digit; in particular the
/// encoding is nonempty and never contains the key separator `:`.
pub proof fn lemma_dec_bytes_digits(v: nat)
    ensures
        dec_bytes(v).len() > 0,
        forall|i: int|
            0 <= i < dec_bytes(v).len() ==> 48 <= #[trigger] dec_bytes(v)[i] <= 57,
    decreases v,
{
    if v >= 10 {
        lemma_dec_bytes_digits(v / 10);
    }
}

/// Encodes `v` as ASCII decimal digits.
pub fn dec_encode(v: u128) -> (r: Vec<u8>)
    ensures
        r@ == dec_bytes(v as nat),
    decreases v,
{
    if v < 10 {
        let mut r = Vec::new();
        r.push(48 + (v as u8));
        proof {
            assert(r@ =~= dec_bytes(v as nat));
        }
        r
    } else {
        let mut r = dec_encode(v / 10);
        r.push(48 + ((v % 10) as u8));
        r
    }
}

} // verus!
