//! Singleton bindings: one fixed storage key per type, independent of any
//! runtime value, with the capability operations selected at declaration.

use crate::binding::Binding;
use crate::capability::{capability_of, Capability, ConfigError};
use crate::codec::PrimitiveKind;
use crate::keys::TypeIdentity;
use crate::storable::{stored_as, Storable};
use crate::storage::{MutableStorage, ReadonlyStorage};
use vstd::pervasive::unreached;
use vstd::prelude::*;
use vstd::string::StringSliceAdditionalSpecFns;

verus! {

/// Baseline singleton operations: load and save.
pub trait Store: Binding + Sized {
    /// Loads the stored value; absence is a regular optional result.
    fn load<V: Storable, S: ReadonlyStorage>(&self, storage: &S) -> (r: Option<V>)
        requires
            storage.inv(),
            storage.store_view().contains_key(self.key_prefix()) ==> stored_as::<V>(
                storage.store_view()[self.key_prefix()],
                self.value_kind(),
            ),
        ensures
            r is Some <==> storage.store_view().contains_key(self.key_prefix()),
            r matches Some(v) ==> v.wf() && v.kind() == self.value_kind() && v.encoding()
                == storage.store_view()[self.key_prefix()],
    ;

    /// Saves a value at the binding's key, overwriting whatever was there.
    fn save<V: Storable, S: MutableStorage>(&self, value: &V, storage: &mut S)
        requires
            old(storage).inv(),
            value.wf(),
            value.kind() == self.value_kind(),
        ensures
            final(storage).inv(),
            final(storage).store_view() == old(storage).store_view().insert(
                self.key_prefix(),
                value.encoding(),
            ),
    ;
}

/// The clear capability: removes the binding's key; idempotent when absent.
pub trait Clear: Binding {
    /// Removes the binding's key.
    fn clear<S: MutableStorage>(&self, storage: &mut S)
        requires
            old(storage).inv(),
            self.capability() == Capability::Clearable,
        ensures
            final(storage).inv(),
            final(storage).store_view() == old(storage).store_view().remove(self.key_prefix()),
    ;
}

/// The always-present capability: absence is an invariant violation, ruled
/// out by the precondition, so the load always succeeds.
pub trait LoadAlways: Binding + Sized {
    /// Loads the value that is always present.
    fn load_always<V: Storable, S: ReadonlyStorage>(&self, storage: &S) -> (r: V)
        requires
            storage.inv(),
            self.capability() == Capability::AlwaysPresent,
            storage.store_view().contains_key(self.key_prefix()),
            stored_as::<V>(storage.store_view()[self.key_prefix()], self.value_kind()),
        ensures
            r.wf(),
            r.kind() == self.value_kind(),
            r.encoding() == storage.store_view()[self.key_prefix()],
    ;
}

/// A singleton binding: a type identity, one fixed key, and the capability
/// chosen when it was declared.
pub struct SingletonBinding {
    pub identity: TypeIdentity,
    pub capability: Capability,
}

impl SingletonBinding {
    /// Declares a singleton binding over the requested capability subset. The
    /// conflicting pair (clearable and always-present together) is rejected
    /// here, before any storage call.
    pub fn declare(
        namespace: &str,
        name: &str,
        kind: PrimitiveKind,
        clearable: bool,
        always_present: bool,
    ) -> (r: Result<Self, ConfigError>)
        ensures
            r is Err <==> clearable && always_present,
            r matches Err(e) ==> e == ConfigError::ConflictingCapabilities,
            r matches Ok(b) ==> b.identity.namespace@ == namespace.spec_bytes()
                && b.identity.name@ == name.spec_bytes() && b.identity.kind == kind && b.capability
                == (if clearable {
                Capability::Clearable
            } else if always_present {
                Capability::AlwaysPresent
            } else {
                Capability::Neither
            }),
    {
        let capability = match capability_of(clearable, always_present) {
            Ok(c) => c,
            Err(e) => {
                return Err(e);
            },
        };
        Ok(SingletonBinding { identity: TypeIdentity::new(namespace, name, kind), capability })
    }

    /// Builds the binding's storage key.
    pub fn key(&self) -> (r: Vec<u8>)
        ensures
            r@ == self.key_prefix(),
    {
        self.identity.build_key_prefix()
    }
}

impl Binding for SingletonBinding {
    open spec fn key_prefix(&self) -> Seq<u8> {
        self.identity.key_prefix()
    }

    open spec fn value_kind(&self) -> PrimitiveKind {
        self.identity.kind
    }

    open spec fn capability(&self) -> Capability {
        self.capability
    }
}

impl Store for SingletonBinding {
    fn load<V: Storable, S: ReadonlyStorage>(&self, storage: &S) -> (r: Option<V>) {
        let key = self.identity.build_key_prefix();
        match storage.get(key.as_slice()) {
            Some(bytes) => {
                proof {
                    let w = choose|v: V| #[trigger]
                        v.wf() && v.kind() == self.value_kind() && v.encoding()
                            == storage.store_view()[self.key_prefix()];
                    assert(w.wf() && w.encoding() == bytes@);
                }
                Some(V::from_owned_bytes(bytes))
            },
            None => None,
        }
    }

    fn save<V: Storable, S: MutableStorage>(&self, value: &V, storage: &mut S) {
        let key = self.identity.build_key_prefix();
        let bytes = value.to_owned_bytes();
        storage.set(key.as_slice(), bytes.as_slice());
    }
}

impl Clear for SingletonBinding {
    fn clear<S: MutableStorage>(&self, storage: &mut S) {
        let key = self.identity.build_key_prefix();
        storage.clear(key.as_slice());
    }
}

impl LoadAlways for SingletonBinding {
    fn load_always<V: Storable, S: ReadonlyStorage>(&self, storage: &S) -> (r: V) {
        match Store::load::<V, S>(self, storage) {
            Some(v) => v,
            None => unreached(),
        }
    }
}

} // verus!
