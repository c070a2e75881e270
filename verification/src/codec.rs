//! Byte codec: canonical encode/decode for the unsigned-integer primitive
//! kinds. Integers are stored fixed-width big-endian, with the width fixed by
//! the kind's bit width (1, 2, 4, 8 or 16 bytes).

use vstd::arithmetic::div_mod::lemma_fundamental_div_mod;
use vstd::arithmetic::mul::lemma_mul_inequality;
use vstd::prelude::*;

verus! {

/// The bit widths available for unsigned-integer newtypes.
#[derive(Clone, Copy, PartialEq, Eq, Structural, Debug)]
pub enum UintWidth {
    W8,
    W16,
    W32,
    W64,
    W128,
}

impl UintWidth {
    /// Number of bytes in the canonical encoding of a value of this width.
    pub open spec fn byte_len(self) -> nat {
        match self {
            UintWidth::W8 => 1,
            UintWidth::W16 => 2,
            UintWidth::W32 => 4,
            UintWidth::W64 => 8,
            UintWidth::W128 => 16,
        }
    }

    /// Executable counterpart of [`UintWidth::byte_len`].
    pub fn byte_count(self) -> (n: usize)
        ensures
            n as nat == self.byte_len(),
    {
        match self {
            UintWidth::W8 => 1,
            UintWidth::W16 => 2,
            UintWidth::W32 => 4,
            UintWidth::W64 => 8,
            UintWidth::W128 => 16,
        }
    }
}

/// The primitive kinds a newtype can wrap.
#[derive(Clone, Copy, PartialEq, Eq, Structural, Debug)]
pub enum PrimitiveKind {
    Uint(UintWidth),
    NonZeroUint(UintWidth),
    Text,
}

/// 256 raised to `n`: the number of distinct values an `n`-byte encoding holds.
pub open spec fn pow256(n: nat) -> nat
    decreases n,
{
    if n == 0 {
        1
    } else {
        256 * pow256((n - 1) as nat)
    }
}

/// Whether `v` fits in the canonical encoding for width `w`.
pub open spec fn fits_width(v: nat, w: UintWidth) -> bool {
    v < pow256(w.byte_len())
}

/// The canonical `n`-byte big-endian encoding of `v` (for `v < pow256(n)`).
pub open spec fn be_bytes(v: nat, n: nat) -> Seq<u8>
    decreases n,
{
    if n == 0 {
        Seq::empty()
    } else {
        be_bytes(v / 256, (n - 1) as nat).push((v % 256) as u8)
    }
}

/// The value a big-endian byte string denotes.
pub open spec fn be_val(s: Seq<u8>) -> nat
    decreases s.len(),
{
    if s.len() == 0 {
        0
    } else {
        be_val(s.drop_last()) * 256 + s.last() as nat
    }
}

pub proof fn lemma_be_bytes_len(v: nat, n: nat)
    ensures
        be_bytes(v, n).len() == n,
    decreases n,
{
    if n > 0 {
        lemma_be_bytes_len(v / 256, (n - 1) as nat);
    }
}

proof fn lemma_div_bound(v: nat, p: nat)
    requires
        v < 256 * p,
    ensures
        v / 256 < p,
{
    lemma_fundamental_div_mod(v as int, 256);
    if v / 256 >= p {
        lemma_mul_inequality(p as int, (v / 256) as int, 256);
    }
}

/// Decoding inverts encoding: the value denoted by `be_bytes(v, n)` is `v`.
pub proof fn lemma_be_val_of_be_bytes(v: nat, n: nat)
    requires
        v < pow256(n),
    ensures
        be_val(be_bytes(v, n)) == v,
    decreases n,
{
    if n == 0 {
    } else {
        lemma_div_bound(v, pow256((n - 1) as nat));
        lemma_be_val_of_be_bytes(v / 256, (n - 1) as nat);
        let s = be_bytes(v / 256, (n - 1) as nat);
        let d = (v % 256) as u8;
        assert(s.push(d).drop_last() =~= s);
        assert(s.push(d).last() == d);
        lemma_fundamental_div_mod(v as int, 256);
    }
}

/// Two distinct in-range values never share an encoding.
pub proof fn lemma_be_bytes_injective(v1: nat, v2: nat, n: nat)
    requires
        v1 < pow256(n),
        v2 < pow256(n),
        be_bytes(v1, n) == be_bytes(v2, n),
    ensures
        v1 == v2,
{
    lemma_be_val_of_be_bytes(v1, n);
    lemma_be_val_of_be_bytes(v2, n);
}

/// Every byte string denotes a value below `pow256` of its length.
pub proof fn lemma_be_val_bound(s: Seq<u8>)
    ensures
        be_val(s) < pow256(s.len()),
    decreases s.len(),
{
    if s.len() > 0 {
        lemma_be_val_bound(s.drop_last());
        let p = pow256((s.len() - 1) as nat);
        lemma_mul_inequality(be_val(s.drop_last()) as int + 1, p as int, 256);
    }
}

pub proof fn lemma_pow256_increases(a: nat, b: nat)
    requires
        a <= b,
    ensures
        pow256(a) <= pow256(b),
    decreases b,
{
    if a < b {
        lemma_pow256_increases(a, (b - 1) as nat);
    }
}

/// Encodes `v` as `n` big-endian bytes.
pub fn encode_be(v: u128, n: usize) -> (r: Vec<u8>)
    requires
        (v as nat) < pow256(n as nat),
    ensures
        r@ == be_bytes(v as nat, n as nat),
        r@.len() == n,
    decreases n,
{
    proof {
        lemma_be_bytes_len(v as nat, n as nat);
    }
    if n == 0 {
        Vec::new()
    } else {
        proof {
            lemma_div_bound(v as nat, pow256((n - 1) as nat));
        }
        let mut r = encode_be(v / 256, n - 1);
        r.push((v % 256) as u8);
        r
    }
}

/// Decodes a big-endian byte string of at most 16 bytes.
pub fn decode_be(bytes: &[u8]) -> (r: u128)
    requires
        bytes@.len() <= 16,
    ensures
        r as nat == be_val(bytes@),
{
    let n = bytes.len();
    let mut acc: u128 = 0;
    let mut i: usize = 0;
    proof {
        assert(bytes@.take(0) =~= Seq::<u8>::empty());
    }
    while i < n
        invariant
            i <= n,
            n == bytes@.len() <= 16,
            acc as nat == be_val(bytes@.take(i as int)),
        decreases n - i,
    {
        proof {
            lemma_be_val_bound(bytes@.take(i as int));
            lemma_pow256_increases(i as nat, 15);
            reveal_with_fuel(pow256, 17);
            assert(bytes@.take(i + 1).drop_last() =~= bytes@.take(i as int));
            assert(bytes@.take(i + 1).last() == bytes@[i as int]);
        }
        acc = acc * 256 + (bytes[i] as u128);
        i += 1;
    }
    proof {
        assert(bytes@.take(n as int) =~= bytes@);
    }
    acc
}

} // verus!
