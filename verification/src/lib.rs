//! Strongly-typed domain primitives bound to a byte-oriented key-value store.
//!
//! The crate wraps plain primitives (fixed-width unsigned integers, non-zero
//! unsigned integers, UTF-8 strings) in newtype values, encodes them to
//! canonical byte representations, derives deterministic storage keys from a
//! type's static identity, and composes a small set of mutually exclusive
//! storage capabilities (load, save, clear, always-present) onto bindings
//! against an abstract storage port.

use vstd::prelude::*;

pub mod binding;
pub mod capability;
pub mod codec;
pub mod decimal;
pub mod item;
pub mod keys;
pub mod map;
pub mod non_zero;
pub mod prelude;
pub mod storable;
pub mod storage;
pub mod string;
pub mod uint;

pub use storage::MemStorage;
pub use storage::MutableStorage;
pub use storage::ReadonlyStorage;

verus! {

/// Ties a plain unsigned-integer newtype to its non-zero counterpart.
pub trait NonZeroEquivalent {
    type NonZeroEquivalent;
}

/// Ties a non-zero unsigned-integer newtype back to its plain counterpart.
pub trait Primitive {
    type Primative;
}

} // verus!
