//! Plain fixed-width unsigned-integer newtypes.

use crate::codec::{
    be_bytes, decode_be, encode_be, fits_width, lemma_be_bytes_injective, lemma_be_bytes_len,
    lemma_be_val_of_be_bytes, PrimitiveKind, UintWidth,
};
use crate::non_zero::NonZeroValue;
use crate::storable::Storable;
use crate::NonZeroEquivalent;
use vstd::pervasive::unreached;
use vstd::prelude::*;

verus! {

/// A fixed-width unsigned-integer newtype value.
#[derive(Clone, Copy, PartialEq, Eq, Structural, Debug)]
pub struct UintValue {
    pub width: UintWidth,
    pub value: u128,
}

impl NonZeroEquivalent for UintValue {
    type NonZeroEquivalent = NonZeroValue;
}

/// Accessors shared by plain unsigned-integer newtypes.
pub trait Newtype: Storable {
    /// The declared width.
    spec fn spec_width(&self) -> UintWidth;

    /// The wrapped value.
    spec fn spec_value(&self) -> nat;

    /// Unwraps the primitive value.
    fn get(self) -> (r: u128)
        ensures
            r as nat == self.spec_value(),
    ;

    /// The same value as a non-zero newtype, absent when it is zero.
    fn non_zero(self) -> (r: Option<NonZeroValue>)
        requires
            self.wf(),
        ensures
            r is Some <==> self.spec_value() != 0,
            r matches Some(v) ==> v.wf() && v.width == self.spec_width() && v.value as nat
                == self.spec_value(),
    ;
}

/// Direct construction by wrapping a primitive value.
pub trait New: Newtype {
    /// Wraps `value`.
    fn new(width: UintWidth, value: u128) -> (r: Self)
        requires
            fits_width(value as nat, width),
        ensures
            r.wf(),
            r.spec_width() == width,
            r.spec_value() == value as nat,
    ;
}

impl Storable for UintValue {
    open spec fn wf(&self) -> bool {
        fits_width(self.value as nat, self.width)
    }

    open spec fn kind(&self) -> PrimitiveKind {
        PrimitiveKind::Uint(self.width)
    }

    open spec fn encoding(&self) -> Seq<u8> {
        be_bytes(self.value as nat, self.width.byte_len())
    }

    fn to_owned_bytes(&self) -> (r: Vec<u8>) {
        encode_be(self.value, self.width.byte_count())
    }

    fn from_owned_bytes(bytes: Vec<u8>) -> (r: Self) {
        proof {
            let v = choose|v: UintValue| v.wf() && v.encoding() == bytes@;
            lemma_be_bytes_len(v.value as nat, v.width.byte_len());
            assert(bytes@.len() == 1 || bytes@.len() == 2 || bytes@.len() == 4 || bytes@.len() == 8
                || bytes@.len() == 16);
        }
        let width = match bytes.len() {
            1 => UintWidth::W8,
            2 => UintWidth::W16,
            4 => UintWidth::W32,
            8 => UintWidth::W64,
            16 => UintWidth::W128,
            _ => unreached(),
        };
        let value = decode_be(bytes.as_slice());
        let r = UintValue { width, value };
        proof {
            let v = choose|v: UintValue| v.wf() && v.encoding() == bytes@;
            lemma_be_bytes_len(v.value as nat, v.width.byte_len());
            lemma_be_val_of_be_bytes(v.value as nat, v.width.byte_len());
            assert(width == v.width);
            assert(value == v.value);
            assert forall|v2: UintValue| #[trigger]
                v2.wf() && v2.encoding() == bytes@ implies v2.kind() == r.kind() by {
                lemma_be_bytes_len(v2.value as nat, v2.width.byte_len());
            };
        }
        r
    }
}

impl Newtype for UintValue {
    open spec fn spec_width(&self) -> UintWidth {
        self.width
    }

    open spec fn spec_value(&self) -> nat {
        self.value as nat
    }

    fn get(self) -> (r: u128) {
        self.value
    }

    fn non_zero(self) -> (r: Option<NonZeroValue>) {
        if self.value == 0 {
            None
        } else {
            Some(NonZeroValue { width: self.width, value: self.value })
        }
    }
}

impl New for UintValue {
    fn new(width: UintWidth, value: u128) -> (r: Self) {
        UintValue { width, value }
    }
}

/// Round trip: the canonical encoding determines a well-formed value
/// completely, so decoding an encoded value gives the value back.
pub proof fn lemma_uint_encoding_injective(a: UintValue, b: UintValue)
    requires
        a.wf(),
        b.wf(),
        a.encoding() == b.encoding(),
    ensures
        a == b,
{
    lemma_be_bytes_len(a.value as nat, a.width.byte_len());
    lemma_be_bytes_len(b.value as nat, b.width.byte_len());
    assert(a.width == b.width);
    lemma_be_bytes_injective(a.value as nat, b.value as nat, a.width.byte_len());
}

} // verus!
