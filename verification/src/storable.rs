//! The bridge between newtype values and the byte codec: a storable value has
//! a primitive kind, a well-formedness predicate and a canonical byte
//! encoding, and can be encoded and decoded.

use crate::codec::PrimitiveKind;
use vstd::prelude::*;

verus! {

/// A value a binding can store: it encodes to canonical bytes and decodes
/// back from them.
pub trait Storable: Sized {
    /// Well-formedness of the value (the wrapped primitive is in range).
    spec fn wf(&self) -> bool;

    /// The primitive kind the value wraps.
    spec fn kind(&self) -> PrimitiveKind;

    /// The canonical byte encoding of the value.
    spec fn encoding(&self) -> Seq<u8>;

    /// Encodes the value to its canonical bytes.
    fn to_owned_bytes(&self) -> (r: Vec<u8>)
        requires
            self.wf(),
        ensures
            r@ == self.encoding(),
    ;

    /// Decodes previously encoded bytes. Bytes this layer would not itself
    /// have produced signal storage corruption; the precondition rules them
    /// out, so decoding previously encoded bytes always succeeds.
    fn from_owned_bytes(bytes: Vec<u8>) -> (r: Self)
        requires
            exists|v: Self| #[trigger] v.wf() && v.encoding() == bytes@,
        ensures
            r.wf(),
            r.encoding() == bytes@,
            forall|v: Self| #[trigger] v.wf() && v.encoding() == bytes@ ==> v.kind() == r.kind(),
    ;
}

/// The bytes are the canonical encoding of some well-formed value of this
/// type with the given kind.
pub open spec fn stored_as<V: Storable>(bytes: Seq<u8>, kind: PrimitiveKind) -> bool {
    exists|v: V| #[trigger] v.wf() && v.kind() == kind && v.encoding() == bytes
}

} // verus!
