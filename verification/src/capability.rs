//! The capability set a binding is declared with. Baseline load/save is
//! implicit; `clearable` and `always-present` are optional and mutually
//! exclusive, and the conflict is rejected at declaration time, before any
//! storage call.

use vstd::prelude::*;

verus! {

/// The optional capability chosen when a binding is declared.
#[derive(Clone, Copy, PartialEq, Eq, Structural, Debug)]
pub enum Capability {
    /// Baseline load/save only.
    Neither,
    /// The binding may also clear its key.
    Clearable,
    /// The binding treats absence as an invariant violation.
    AlwaysPresent,
}

/// An error in a binding declaration.
#[derive(Clone, Copy, PartialEq, Eq, Structural, Debug)]
pub enum ConfigError {
    /// `clearable` and `always-present` were both requested.
    ConflictingCapabilities,
}

/// Validates a requested capability subset. The conflicting request is
/// rejected here, so no binding ever carries both capabilities.
pub fn capability_of(clearable: bool, always_present: bool) -> (r: Result<Capability, ConfigError>)
    ensures
        r is Err <==> clearable && always_present,
        r matches Ok(c) ==> c == (if clearable {
            Capability::Clearable
        } else if always_present {
            Capability::AlwaysPresent
        } else {
            Capability::Neither
        }),
        r matches Err(e) ==> e == ConfigError::ConflictingCapabilities,
{
    if clearable && always_present {
        Err(ConfigError::ConflictingCapabilities)
    } else if clearable {
        Ok(Capability::Clearable)
    } else if always_present {
        Ok(Capability::AlwaysPresent)
    } else {
        Ok(Capability::Neither)
    }
}

} // verus!
