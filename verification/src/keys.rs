//! Key derivation: every binding owns a key prefix derived from the type's
//! static identity (`{namespace}::{type_name}_{primitive_kind}`), and map
//! bindings extend it per call with `::` and the encoded key value.

use crate::codec::{PrimitiveKind, UintWidth};
use vstd::prelude::*;
use vstd::string::StrSliceExecFns;
use vstd::string::StringSliceAdditionalSpecFns;

verus! {

/// The `::` separator between the key components.
pub open spec fn separator() -> Seq<u8> {
    seq![58u8, 58u8]
}

/// The canonical name of an unsigned-integer kind (`u8` .. `u128`), as bytes.
pub open spec fn uint_kind_name(w: UintWidth) -> Seq<u8> {
    match w {
        UintWidth::W8 => seq![117u8, 56u8],
        UintWidth::W16 => seq![117u8, 49u8, 54u8],
        UintWidth::W32 => seq![117u8, 51u8, 50u8],
        UintWidth::W64 => seq![117u8, 54u8, 52u8],
        UintWidth::W128 => seq![117u8, 49u8, 50u8, 56u8],
    }
}

/// The canonical name of a primitive kind, embedded in every storage key:
/// `u64`, `non_zero_u64`, `string`, and so on.
pub open spec fn kind_name(kind: PrimitiveKind) -> Seq<u8> {
    match kind {
        PrimitiveKind::Uint(w) => uint_kind_name(w),
        PrimitiveKind::NonZeroUint(w) => seq![
            110u8,
            111u8,
            110u8,
            95u8,
            122u8,
            101u8,
            114u8,
            111u8,
            95u8,
        ] + uint_kind_name(w),
        PrimitiveKind::Text => seq![115u8, 116u8, 114u8, 105u8, 110u8, 103u8],
    }
}

/// The key prefix of a type identity: `namespace ++ "::" ++ type_name ++ "_"
/// ++ kind_name`. A singleton binding uses it as its whole key.
pub open spec fn key_prefix_of(ns: Seq<u8>, ty: Seq<u8>, kind: PrimitiveKind) -> Seq<u8> {
    ns + separator() + ty + seq![95u8] + kind_name(kind)
}

/// The full key of a map binding: the prefix, `::`, then the encoded key value.
pub open spec fn map_key_of(prefix: Seq<u8>, suffix: Seq<u8>) -> Seq<u8> {
    prefix + separator() + suffix
}

/// The static identity a binding is declared with: a namespace (such as a
/// module path), the newtype's name, and the primitive kind it wraps.
pub struct TypeIdentity {
    pub namespace: Vec<u8>,
    pub name: Vec<u8>,
    pub kind: PrimitiveKind,
}

impl TypeIdentity {
    /// The key prefix this identity derives.
    pub open spec fn key_prefix(&self) -> Seq<u8> {
        key_prefix_of(self.namespace@, self.name@, self.kind)
    }

    /// Builds an identity from textual names (stored as their UTF-8 bytes).
    pub fn new(namespace: &str, name: &str, kind: PrimitiveKind) -> (r: Self)
        ensures
            r.namespace@ == namespace.spec_bytes(),
            r.name@ == name.spec_bytes(),
            r.kind == kind,
    {
        TypeIdentity { namespace: namespace.as_bytes_vec(), name: name.as_bytes_vec(), kind }
    }

    /// Builds the key prefix as bytes.
    pub fn build_key_prefix(&self) -> (r: Vec<u8>)
        ensures
            r@ == self.key_prefix(),
    {
        let mut r: Vec<u8> = Vec::new();
        push_bytes(&mut r, self.namespace.as_slice());
        r.push(58);
        r.push(58);
        push_bytes(&mut r, self.name.as_slice());
        r.push(95);
        let kn = kind_name_bytes(self.kind);
        push_bytes(&mut r, kn.as_slice());
        proof {
            assert(r@ =~= self.key_prefix());
        }
        r
    }
}

/// Appends `src` to `dst`.
pub fn push_bytes(dst: &mut Vec<u8>, src: &[u8])
    ensures
        final(dst)@ == old(dst)@ + src@,
{
    let mut i: usize = 0;
    proof {
        assert(dst@ =~= old(dst)@ + src@.take(0));
    }
    while i < src.len()
        invariant
            i <= src@.len(),
            dst@ == old(dst)@ + src@.take(i as int),
        decreases src@.len() - i,
    {
        dst.push(src[i]);
        proof {
            assert(old(dst)@ + src@.take(i as int) + seq![src@[i as int]] =~= old(dst)@ + src@.take(
                i + 1,
            ));
        }
        i += 1;
    }
    proof {
        assert(src@.take(src@.len() as int) =~= src@);
    }
}

/// Executable counterpart of [`kind_name`].
pub fn kind_name_bytes(kind: PrimitiveKind) -> (r: Vec<u8>)
    ensures
        r@ == kind_name(kind),
{
    let mut r: Vec<u8> = Vec::new();
    match kind {
        PrimitiveKind::Uint(w) => {
            push_uint_kind_name(&mut r, w);
        },
        PrimitiveKind::NonZeroUint(w) => {
            // "non_zero_"
            r.push(110);
            r.push(111);
            r.push(110);
            r.push(95);
            r.push(122);
            r.push(101);
            r.push(114);
            r.push(111);
            r.push(95);
            push_uint_kind_name(&mut r, w);
        },
        PrimitiveKind::Text => {
            // "string"
            r.push(115);
            r.push(116);
            r.push(114);
            r.push(105);
            r.push(110);
            r.push(103);
        },
    }
    proof {
        assert(r@ =~= kind_name(kind));
    }
    r
}

fn push_uint_kind_name(r: &mut Vec<u8>, w: UintWidth)
    ensures
        final(r)@ == old(r)@ + uint_kind_name(w),
{
    match w {
        UintWidth::W8 => {
            r.push(117);
            r.push(56);
        },
        UintWidth::W16 => {
            r.push(117);
            r.push(49);
            r.push(54);
        },
        UintWidth::W32 => {
            r.push(117);
            r.push(51);
            r.push(50);
        },
        UintWidth::W64 => {
            r.push(117);
            r.push(54);
            r.push(52);
        },
        UintWidth::W128 => {
            r.push(117);
            r.push(49);
            r.push(50);
            r.push(56);
        },
    }
    proof {
        assert(r@ =~= old(r)@ + uint_kind_name(w));
    }
}

/// The lengths and the bytes at offsets 0 and 1 of a `u8` .. `u128` name.
proof fn lemma_uint_kind_name_shape(w: UintWidth)
    ensures
        2 <= uint_kind_name(w).len() <= 4,
        uint_kind_name(w)[0] == 117,
        uint_kind_name(w).len() == 2 <==> w == UintWidth::W8,
        uint_kind_name(w).len() == 4 <==> w == UintWidth::W128,
        w == UintWidth::W16 ==> uint_kind_name(w).len() == 3 && uint_kind_name(w)[1] == 49,
        w == UintWidth::W32 ==> uint_kind_name(w).len() == 3 && uint_kind_name(w)[1] == 51,
        w == UintWidth::W64 ==> uint_kind_name(w).len() == 3 && uint_kind_name(w)[1] == 54,
{
}

/// No byte string occurs twice among the `u8` .. `u128` names.
proof fn lemma_uint_kind_name_injective(w1: UintWidth, w2: UintWidth)
    requires
        uint_kind_name(w1) == uint_kind_name(w2),
    ensures
        w1 == w2,
{
    lemma_uint_kind_name_shape(w1);
    lemma_uint_kind_name_shape(w2);
    assert(uint_kind_name(w1).len() == uint_kind_name(w2).len());
    assert(uint_kind_name(w1)[1] == uint_kind_name(w2)[1]);
}

/// No byte string occurs twice among the kind names.
pub proof fn lemma_kind_name_injective(k1: PrimitiveKind, k2: PrimitiveKind)
    requires
        kind_name(k1) == kind_name(k2),
    ensures
        k1 == k2,
{
    let s1 = kind_name(k1);
    let s2 = kind_name(k2);
    assert(s1.len() == s2.len());
    assert(s1[0] == s2[0]);
    // The first byte separates the three categories: `u`, `n`, `s`.
    match (k1, k2) {
        (PrimitiveKind::Uint(w1), PrimitiveKind::Uint(w2)) => {
            lemma_uint_kind_name_injective(w1, w2);
        },
        (PrimitiveKind::NonZeroUint(w1), PrimitiveKind::NonZeroUint(w2)) => {
            assert(uint_kind_name(w1) =~= uint_kind_name(w2)) by {
                lemma_uint_kind_name_shape(w1);
                lemma_uint_kind_name_shape(w2);
                assert(s1.len() == 9 + uint_kind_name(w1).len());
                assert(s2.len() == 9 + uint_kind_name(w2).len());
                assert forall|i: int| 0 <= i < uint_kind_name(w1).len() implies uint_kind_name(
                    w1,
                )[i] == uint_kind_name(w2)[i] by {
                    assert(s1[9 + i] == uint_kind_name(w1)[i]);
                    assert(s2[9 + i] == uint_kind_name(w2)[i]);
                };
            };
            lemma_uint_kind_name_injective(w1, w2);
        },
        (PrimitiveKind::Text, PrimitiveKind::Text) => {
        },
        (PrimitiveKind::Uint(w1), _) => {
            lemma_uint_kind_name_shape(w1);
            assert(false);
        },
        (PrimitiveKind::NonZeroUint(w1), _) => {
            lemma_uint_kind_name_shape(w1);
            if let PrimitiveKind::Uint(w2) = k2 {
                lemma_uint_kind_name_shape(w2);
            }
            assert(false);
        },
        (PrimitiveKind::Text, _) => {
            if let PrimitiveKind::Uint(w2) = k2 {
                lemma_uint_kind_name_shape(w2);
            }
            if let PrimitiveKind::NonZeroUint(w2) = k2 {
                lemma_uint_kind_name_shape(w2);
            }
            assert(false);
        },
    }
}

/// Appending the same tail to distinct byte strings keeps them distinct.
pub proof fn lemma_append_ne_left(p1: Seq<u8>, p2: Seq<u8>, x: Seq<u8>)
    requires
        p1 != p2,
    ensures
        p1 + x != p2 + x,
{
    if p1.len() == p2.len() {
        assert(exists|i: int| 0 <= i < p1.len() && p1[i] != p2[i]) by {
            if forall|i: int| 0 <= i < p1.len() ==> p1[i] == p2[i] {
                assert(p1 =~= p2);
            }
        };
        let i = choose|i: int| 0 <= i < p1.len() && p1[i] != p2[i];
        assert((p1 + x)[i] == p1[i]);
        assert((p2 + x)[i] == p2[i]);
    } else {
        assert((p1 + x).len() != (p2 + x).len());
    }
}

/// Prepending the same head to distinct byte strings keeps them distinct.
pub proof fn lemma_append_ne_right(x: Seq<u8>, a: Seq<u8>, b: Seq<u8>)
    requires
        a != b,
    ensures
        x + a != x + b,
{
    if x + a == x + b {
        assert(a =~= b) by {
            assert((x + a).len() == x.len() + a.len());
            assert((x + b).len() == x.len() + b.len());
            assert(a.len() == b.len());
            assert forall|i: int| 0 <= i < a.len() implies a[i] == b[i] by {
                assert((x + a)[x.len() + i] == a[i]);
                assert((x + b)[x.len() + i] == b[i]);
            };
        };
    }
}

/// Key determinism: the derived key is a function of the identity and the
/// encoded key value alone, so equal inputs always give equal keys.
pub proof fn lemma_derive_key_deterministic(
    ns1: Seq<u8>,
    ty1: Seq<u8>,
    k1: PrimitiveKind,
    s1: Seq<u8>,
    ns2: Seq<u8>,
    ty2: Seq<u8>,
    k2: PrimitiveKind,
    s2: Seq<u8>,
)
    requires
        ns1 == ns2,
        ty1 == ty2,
        k1 == k2,
        s1 == s2,
    ensures
        key_prefix_of(ns1, ty1, k1) == key_prefix_of(ns2, ty2, k2),
        map_key_of(key_prefix_of(ns1, ty1, k1), s1) == map_key_of(key_prefix_of(ns2, ty2, k2), s2),
{
}

/// Distinct type identities derive distinct key prefixes, provided they
/// differ in only one of the three components. (Two identities that differ in
/// both the type name and the kind can collide: the name boundary inside the
/// suffix `type_name ++ "_" ++ kind_name` is not marked.)
pub proof fn lemma_key_prefixes_distinct(
    ns1: Seq<u8>,
    ty1: Seq<u8>,
    k1: PrimitiveKind,
    ns2: Seq<u8>,
    ty2: Seq<u8>,
    k2: PrimitiveKind,
)
    requires
        !(ns1 == ns2 && ty1 == ty2 && k1 == k2),
        (ns1 == ns2 && ty1 == ty2) || (ns1 == ns2 && k1 == k2) || (ty1 == ty2 && k1 == k2),
    ensures
        key_prefix_of(ns1, ty1, k1) != key_prefix_of(ns2, ty2, k2),
{
    if ns1 == ns2 && ty1 == ty2 {
        if kind_name(k1) == kind_name(k2) {
            lemma_kind_name_injective(k1, k2);
        }
        lemma_append_ne_right(ns1 + separator() + ty1 + seq![95u8], kind_name(k1), kind_name(k2));
    } else if ns1 == ns2 {
        lemma_append_ne_right(ns1 + separator(), ty1, ty2);
        lemma_append_ne_left(
            ns1 + separator() + ty1,
            ns1 + separator() + ty2,
            seq![95u8] + kind_name(k1),
        );
        assert(key_prefix_of(ns1, ty1, k1) =~= (ns1 + separator() + ty1) + (seq![95u8] + kind_name(
            k1,
        )));
        assert(key_prefix_of(ns2, ty2, k2) =~= (ns2 + separator() + ty2) + (seq![95u8] + kind_name(
            k2,
        )));
    } else {
        lemma_append_ne_left(ns1, ns2, separator() + ty1 + seq![95u8] + kind_name(k1));
        assert(key_prefix_of(ns1, ty1, k1) =~= ns1 + (separator() + ty1 + seq![95u8] + kind_name(
            k1,
        )));
        assert(key_prefix_of(ns2, ty2, k2) =~= ns2 + (separator() + ty2 + seq![95u8] + kind_name(
            k2,
        )));
    }
}

/// One type's map keys are distinct for distinct encoded key values.
pub proof fn lemma_map_keys_distinct(prefix: Seq<u8>, s1: Seq<u8>, s2: Seq<u8>)
    requires
        s1 != s2,
    ensures
        map_key_of(prefix, s1) != map_key_of(prefix, s2),
{
    lemma_append_ne_right(prefix + separator(), s1, s2);
}

/// Distinct key prefixes give distinct map keys for the same key value.
pub proof fn lemma_map_keys_distinct_prefix(p1: Seq<u8>, p2: Seq<u8>, s: Seq<u8>)
    requires
        p1 != p2,
    ensures
        map_key_of(p1, s) != map_key_of(p2, s),
{
    lemma_append_ne_left(p1, p2, separator() + s);
    assert(map_key_of(p1, s) =~= p1 + (separator() + s));
    assert(map_key_of(p2, s) =~= p2 + (separator() + s));
}

/// Distinct type identities address distinct map keys, even for the same key
/// value, under the same component condition as the prefixes themselves.
pub proof fn lemma_map_keys_distinct_types(
    ns1: Seq<u8>,
    ty1: Seq<u8>,
    k1: PrimitiveKind,
    ns2: Seq<u8>,
    ty2: Seq<u8>,
    k2: PrimitiveKind,
    s: Seq<u8>,
)
    requires
        !(ns1 == ns2 && ty1 == ty2 && k1 == k2),
        (ns1 == ns2 && ty1 == ty2) || (ns1 == ns2 && k1 == k2) || (ty1 == ty2 && k1 == k2),
    ensures
        map_key_of(key_prefix_of(ns1, ty1, k1), s) != map_key_of(key_prefix_of(ns2, ty2, k2), s),
{
    lemma_key_prefixes_distinct(ns1, ty1, k1, ns2, ty2, k2);
    lemma_map_keys_distinct_prefix(key_prefix_of(ns1, ty1, k1), key_prefix_of(ns2, ty2, k2), s);
}

/// A byte string with no `:` anywhere, so it cannot collide with a separator.
pub open spec fn colon_free(s: Seq<u8>) -> bool {
    forall|i: int| 0 <= i < s.len() ==> s[i] != 58
}

/// Joining components with `:` is injective while the first component stays
/// colon-free: the joined encoding determines both components.
pub proof fn lemma_joined_key_injective(a1: Seq<u8>, b1: Seq<u8>, a2: Seq<u8>, b2: Seq<u8>)
    requires
        colon_free(a1),
        colon_free(a2),
        a1 + seq![58u8] + b1 == a2 + seq![58u8] + b2,
    ensures
        a1 == a2,
        b1 == b2,
{
    let w = a1 + seq![58u8] + b1;
    let n1 = a1.len() as int;
    let n2 = a2.len() as int;
    assert(w[n1] == 58);
    assert(w[n2] == 58);
    if n1 < n2 {
        assert(w[n1] == a2[n1]);
    }
    if n2 < n1 {
        assert(w[n2] == a1[n2]);
    }
    assert(a1 =~= a2) by {
        assert forall|i: int| 0 <= i < n1 implies a1[i] == a2[i] by {
            assert(w[i] == a1[i]);
            assert(w[i] == a2[i]);
        };
    };
    assert(b1 =~= b2) by {
        assert((a1 + seq![58u8] + b1).len() == a1.len() + 1 + b1.len());
        assert((a2 + seq![58u8] + b2).len() == a2.len() + 1 + b2.len());
        assert(b1.len() == b2.len());
        assert forall|i: int| 0 <= i < b1.len() implies b1[i] == b2[i] by {
            assert(w[n1 + 1 + i] == b1[i]);
            assert(w[n1 + 1 + i] == b2[i]);
        };
    };
}

} // verus!
