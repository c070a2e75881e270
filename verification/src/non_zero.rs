//! Non-zero unsigned-integer newtypes: the wrapped value is guaranteed to be
//! nonzero, and decoding a stored zero is an internal-consistency violation.

use crate::codec::{
    be_bytes, decode_be, encode_be, fits_width, lemma_be_bytes_injective, lemma_be_bytes_len,
    lemma_be_val_of_be_bytes, PrimitiveKind, UintWidth,
};
use crate::storable::Storable;
use crate::uint::UintValue;
use crate::Primitive;
use vstd::pervasive::unreached;
use vstd::prelude::*;

verus! {

/// A fixed-width non-zero unsigned-integer newtype value.
#[derive(Clone, Copy, PartialEq, Eq, Structural, Debug)]
pub struct NonZeroValue {
    pub width: UintWidth,
    pub value: u128,
}

impl Primitive for NonZeroValue {
    type Primative = UintValue;
}

/// Accessors shared by non-zero unsigned-integer newtypes.
pub trait Newtype: Storable {
    /// The declared width.
    spec fn spec_width(&self) -> UintWidth;

    /// The wrapped value.
    spec fn spec_value(&self) -> nat;

    /// Unwraps the value, keeping the nonzero guarantee.
    fn non_zero(self) -> (r: u128)
        requires
            self.wf(),
        ensures
            r as nat == self.spec_value(),
            r != 0,
    ;

    /// Unwraps the value as its plain primitive.
    fn get(self) -> (r: u128)
        requires
            self.wf(),
        ensures
            r as nat == self.spec_value(),
            r != 0,
    ;
}

/// Fallible construction from a plain primitive: absent exactly on zero.
pub trait CheckedNew: Newtype {
    /// Wraps `value` unless it is zero.
    fn checked_new(width: UintWidth, value: u128) -> (r: Option<Self>)
        requires
            fits_width(value as nat, width),
        ensures
            r is Some <==> value != 0,
            r matches Some(v) ==> v.wf() && v.spec_width() == width && v.spec_value()
                == value as nat,
    ;
}

/// Construction from an input already validated nonzero: always succeeds.
pub trait FromNonZero: Newtype {
    /// Wraps a value known to be nonzero.
    fn from_non_zero(width: UintWidth, value: u128) -> (r: Self)
        requires
            fits_width(value as nat, width),
            value != 0,
        ensures
            r.wf(),
            r.spec_width() == width,
            r.spec_value() == value as nat,
    ;
}

impl Storable for NonZeroValue {
    open spec fn wf(&self) -> bool {
        fits_width(self.value as nat, self.width) && self.value != 0
    }

    open spec fn kind(&self) -> PrimitiveKind {
        PrimitiveKind::NonZeroUint(self.width)
    }

    open spec fn encoding(&self) -> Seq<u8> {
        be_bytes(self.value as nat, self.width.byte_len())
    }

    fn to_owned_bytes(&self) -> (r: Vec<u8>) {
        encode_be(self.value, self.width.byte_count())
    }

    fn from_owned_bytes(bytes: Vec<u8>) -> (r: Self) {
        proof {
            let v = choose|v: NonZeroValue| v.wf() && v.encoding() == bytes@;
            lemma_be_bytes_len(v.value as nat, v.width.byte_len());
            assert(bytes@.len() == 1 || bytes@.len() == 2 || bytes@.len() == 4 || bytes@.len() == 8
                || bytes@.len() == 16);
        }
        let width = match bytes.len() {
            1 => UintWidth::W8,
            2 => UintWidth::W16,
            4 => UintWidth::W32,
            8 => UintWidth::W64,
            16 => UintWidth::W128,
            _ => unreached(),
        };
        let value = decode_be(bytes.as_slice());
        proof {
            let v = choose|v: NonZeroValue| v.wf() && v.encoding() == bytes@;
            lemma_be_bytes_len(v.value as nat, v.width.byte_len());
            lemma_be_val_of_be_bytes(v.value as nat, v.width.byte_len());
            assert(width == v.width);
            assert(value == v.value);
        }
        if value == 0 {
            unreached()
        } else {
            let r = NonZeroValue { width, value };
            proof {
                assert forall|v: NonZeroValue| #[trigger]
                    v.wf() && v.encoding() == bytes@ implies v.kind() == r.kind() by {
                    lemma_be_bytes_len(v.value as nat, v.width.byte_len());
                };
            }
            r
        }
    }
}

impl Newtype for NonZeroValue {
    open spec fn spec_width(&self) -> UintWidth {
        self.width
    }

    open spec fn spec_value(&self) -> nat {
        self.value as nat
    }

    fn non_zero(self) -> (r: u128) {
        self.value
    }

    fn get(self) -> (r: u128) {
        self.value
    }
}

impl CheckedNew for NonZeroValue {
    fn checked_new(width: UintWidth, value: u128) -> (r: Option<Self>) {
        if value == 0 {
            None
        } else {
            Some(NonZeroValue { width, value })
        }
    }
}

impl FromNonZero for NonZeroValue {
    fn from_non_zero(width: UintWidth, value: u128) -> (r: Self) {
        NonZeroValue { width, value }
    }
}

/// Round trip: the canonical encoding determines a well-formed non-zero value
/// completely, so decoding an encoded value gives the value back.
pub proof fn lemma_non_zero_encoding_injective(a: NonZeroValue, b: NonZeroValue)
    requires
        a.wf(),
        b.wf(),
        a.encoding() == b.encoding(),
    ensures
        a == b,
{
    lemma_be_bytes_len(a.value as nat, a.width.byte_len());
    lemma_be_bytes_len(b.value as nat, b.width.byte_len());
    assert(a.width == b.width);
    lemma_be_bytes_injective(a.value as nat, b.value as nat, a.width.byte_len());
}

} // verus!
