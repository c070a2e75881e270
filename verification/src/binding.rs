//! The static configuration every declared binding carries: a derived key
//! prefix, the primitive kind it stores, and the capability chosen at
//! declaration time.

use crate::capability::Capability;
use crate::codec::PrimitiveKind;
use vstd::prelude::*;

verus! {

/// The static configuration of a declared binding.
pub trait Binding {
    /// The key prefix derived from the type's identity. A singleton binding
    /// uses it as its whole key; a map binding extends it per call.
    spec fn key_prefix(&self) -> Seq<u8>;

    /// The primitive kind of the stored values.
    spec fn value_kind(&self) -> PrimitiveKind;

    /// The capability the binding was declared with.
    spec fn capability(&self) -> Capability;
}

} // verus!
