//! Map bindings: the storage key is computed per call from an auxiliary key
//! value — a scalar or an ordered tuple of scalars, each with a canonical
//! textual encoding, joined with `:` in declared order.

use crate::binding::Binding;
use crate::capability::{capability_of, Capability, ConfigError};
use crate::codec::PrimitiveKind;
use crate::decimal::{
    dec_bytes, dec_encode, lemma_dec_bytes_digits, lemma_dec_bytes_injective,
};
use crate::keys::{colon_free, lemma_joined_key_injective, lemma_map_keys_distinct, map_key_of,
    TypeIdentity};
use crate::non_zero::NonZeroValue;
use crate::storable::{stored_as, Storable};
use crate::storage::{MutableStorage, ReadonlyStorage};
use crate::string::StringValue;
use crate::uint::UintValue;
use vstd::pervasive::unreached;
use vstd::prelude::*;
use vstd::string::StringSliceAdditionalSpecFns;
use vstd::string::StrSliceExecFns;
use vstd::utf8::encode_utf8;

verus! {

/// A key value with a canonical encoding, usable to address a map binding.
pub trait IntoMapKey: Sized {
    /// The canonical encoding of the key value.
    spec fn map_key_spec(&self) -> Seq<u8>;

    /// Encodes the key value.
    fn into_map_key(self) -> (r: Vec<u8>)
        ensures
            r@ == self.map_key_spec(),
    ;
}

impl IntoMapKey for u8 {
    open spec fn map_key_spec(&self) -> Seq<u8> {
        dec_bytes(*self as nat)
    }

    fn into_map_key(self) -> (r: Vec<u8>) {
        dec_encode(self as u128)
    }
}

impl IntoMapKey for u16 {
    open spec fn map_key_spec(&self) -> Seq<u8> {
        dec_bytes(*self as nat)
    }

    fn into_map_key(self) -> (r: Vec<u8>) {
        dec_encode(self as u128)
    }
}

impl IntoMapKey for u32 {
    open spec fn map_key_spec(&self) -> Seq<u8> {
        dec_bytes(*self as nat)
    }

    fn into_map_key(self) -> (r: Vec<u8>) {
        dec_encode(self as u128)
    }
}

impl IntoMapKey for u64 {
    open spec fn map_key_spec(&self) -> Seq<u8> {
        dec_bytes(*self as nat)
    }

    fn into_map_key(self) -> (r: Vec<u8>) {
        dec_encode(self as u128)
    }
}

impl IntoMapKey for u128 {
    open spec fn map_key_spec(&self) -> Seq<u8> {
        dec_bytes(*self as nat)
    }

    fn into_map_key(self) -> (r: Vec<u8>) {
        dec_encode(self)
    }
}

impl IntoMapKey for usize {
    open spec fn map_key_spec(&self) -> Seq<u8> {
        dec_bytes(*self as nat)
    }

    fn into_map_key(self) -> (r: Vec<u8>) {
        dec_encode(self as u128)
    }
}

impl IntoMapKey for String {
    open spec fn map_key_spec(&self) -> Seq<u8> {
        encode_utf8(self@)
    }

    fn into_map_key(self) -> (r: Vec<u8>) {
        self.as_str().as_bytes_vec()
    }
}

impl IntoMapKey for UintValue {
    open spec fn map_key_spec(&self) -> Seq<u8> {
        dec_bytes(self.value as nat)
    }

    fn into_map_key(self) -> (r: Vec<u8>) {
        dec_encode(self.value)
    }
}

impl IntoMapKey for NonZeroValue {
    open spec fn map_key_spec(&self) -> Seq<u8> {
        dec_bytes(self.value as nat)
    }

    fn into_map_key(self) -> (r: Vec<u8>) {
        dec_encode(self.value)
    }
}

impl IntoMapKey for StringValue {
    open spec fn map_key_spec(&self) -> Seq<u8> {
        encode_utf8(self.text@)
    }

    fn into_map_key(self) -> (r: Vec<u8>) {
        self.text.as_str().as_bytes_vec()
    }
}

/// An ordered pair of key values encodes as the two encodings joined with
/// `:`; nesting pairs gives longer tuples, still in declared order.
impl<T1: IntoMapKey, T2: IntoMapKey> IntoMapKey for (T1, T2) {
    open spec fn map_key_spec(&self) -> Seq<u8> {
        self.0.map_key_spec() + seq![58u8] + self.1.map_key_spec()
    }

    fn into_map_key(self) -> (r: Vec<u8>) {
        let (a, b) = self;
        let ghost spec_a = a.map_key_spec();
        let ghost spec_b = b.map_key_spec();
        let mut r = a.into_map_key();
        r.push(58);
        let mut rb = b.into_map_key();
        r.append(&mut rb);
        proof {
            assert(r@ =~= spec_a + seq![58u8] + spec_b);
        }
        r
    }
}

/// Baseline map operations: load and save at a key value.
pub trait Store: Binding + Sized {
    /// Loads the value at `key`; absence is a regular optional result.
    fn load_at<V: Storable, K: IntoMapKey, S: ReadonlyStorage>(&self, storage: &S, key: K) -> (r:
        Option<V>)
        requires
            storage.inv(),
            storage.store_view().contains_key(
                map_key_of(self.key_prefix(), key.map_key_spec()),
            ) ==> stored_as::<V>(
                storage.store_view()[map_key_of(self.key_prefix(), key.map_key_spec())],
                self.value_kind(),
            ),
        ensures
            r is Some <==> storage.store_view().contains_key(
                map_key_of(self.key_prefix(), key.map_key_spec()),
            ),
            r matches Some(v) ==> v.wf() && v.kind() == self.value_kind() && v.encoding()
                == storage.store_view()[map_key_of(self.key_prefix(), key.map_key_spec())],
    ;

    /// Saves a value at `key`, overwriting whatever was there.
    fn save_at<V: Storable, K: IntoMapKey, S: MutableStorage>(
        &self,
        value: &V,
        storage: &mut S,
        key: K,
    )
        requires
            old(storage).inv(),
            value.wf(),
            value.kind() == self.value_kind(),
        ensures
            final(storage).inv(),
            final(storage).store_view() == old(storage).store_view().insert(
                map_key_of(self.key_prefix(), key.map_key_spec()),
                value.encoding(),
            ),
    ;
}

/// The clear capability: removes the key; idempotent when absent.
pub trait ClearAt: Binding {
    /// Removes the key derived from `key`.
    fn clear_at<K: IntoMapKey, S: MutableStorage>(&self, storage: &mut S, key: K)
        requires
            old(storage).inv(),
            self.capability() == Capability::Clearable,
        ensures
            final(storage).inv(),
            final(storage).store_view() == old(storage).store_view().remove(
                map_key_of(self.key_prefix(), key.map_key_spec()),
            ),
    ;
}

/// The always-present capability: absence at the addressed key is an
/// invariant violation, ruled out by the precondition.
pub trait LoadAlwaysAt: Binding + Sized {
    /// Loads the value that is always present at `key`.
    fn load_always_at<V: Storable, K: IntoMapKey, S: ReadonlyStorage>(
        &self,
        storage: &S,
        key: K,
    ) -> (r: V)
        requires
            storage.inv(),
            self.capability() == Capability::AlwaysPresent,
            storage.store_view().contains_key(map_key_of(self.key_prefix(), key.map_key_spec())),
            stored_as::<V>(
                storage.store_view()[map_key_of(self.key_prefix(), key.map_key_spec())],
                self.value_kind(),
            ),
        ensures
            r.wf(),
            r.kind() == self.value_kind(),
            r.encoding() == storage.store_view()[map_key_of(
                self.key_prefix(),
                key.map_key_spec(),
            )],
    ;
}

/// A map binding: a type identity, a per-call key suffix, and the capability
/// chosen when it was declared.
pub struct MapBinding {
    pub identity: TypeIdentity,
    pub capability: Capability,
}

impl MapBinding {
    /// Declares a map binding over the requested capability subset. The
    /// conflicting pair (clearable and always-present together) is rejected
    /// here, before any storage call.
    pub fn declare(
        namespace: &str,
        name: &str,
        kind: PrimitiveKind,
        clearable: bool,
        always_present: bool,
    ) -> (r: Result<Self, ConfigError>)
        ensures
            r is Err <==> clearable && always_present,
            r matches Err(e) ==> e == ConfigError::ConflictingCapabilities,
            r matches Ok(b) ==> b.identity.namespace@ == namespace.spec_bytes()
                && b.identity.name@ == name.spec_bytes() && b.identity.kind == kind && b.capability
                == (if clearable {
                Capability::Clearable
            } else if always_present {
                Capability::AlwaysPresent
            } else {
                Capability::Neither
            }),
    {
        let capability = match capability_of(clearable, always_present) {
            Ok(c) => c,
            Err(e) => {
                return Err(e);
            },
        };
        Ok(MapBinding { identity: TypeIdentity::new(namespace, name, kind), capability })
    }

    /// Builds the full storage key for `key`.
    pub fn map_key<K: IntoMapKey>(&self, key: K) -> (r: Vec<u8>)
        ensures
            r@ == map_key_of(self.key_prefix(), key.map_key_spec()),
    {
        let ghost suffix = key.map_key_spec();
        let mut r = self.identity.build_key_prefix();
        r.push(58);
        r.push(58);
        let mut kb = key.into_map_key();
        r.append(&mut kb);
        proof {
            assert(r@ =~= map_key_of(self.key_prefix(), suffix));
        }
        r
    }
}

impl Binding for MapBinding {
    open spec fn key_prefix(&self) -> Seq<u8> {
        self.identity.key_prefix()
    }

    open spec fn value_kind(&self) -> PrimitiveKind {
        self.identity.kind
    }

    open spec fn capability(&self) -> Capability {
        self.capability
    }
}

impl Store for MapBinding {
    fn load_at<V: Storable, K: IntoMapKey, S: ReadonlyStorage>(&self, storage: &S, key: K) -> (r:
        Option<V>) {
        let ghost full = map_key_of(self.key_prefix(), key.map_key_spec());
        let k = self.map_key(key);
        match storage.get(k.as_slice()) {
            Some(bytes) => {
                proof {
                    let w = choose|v: V| #[trigger]
                        v.wf() && v.kind() == self.value_kind() && v.encoding()
                            == storage.store_view()[full];
                    assert(w.wf() && w.encoding() == bytes@);
                }
                Some(V::from_owned_bytes(bytes))
            },
            None => None,
        }
    }

    fn save_at<V: Storable, K: IntoMapKey, S: MutableStorage>(
        &self,
        value: &V,
        storage: &mut S,
        key: K,
    ) {
        let k = self.map_key(key);
        let bytes = value.to_owned_bytes();
        storage.set(k.as_slice(), bytes.as_slice());
    }
}

impl ClearAt for MapBinding {
    fn clear_at<K: IntoMapKey, S: MutableStorage>(&self, storage: &mut S, key: K) {
        let k = self.map_key(key);
        storage.clear(k.as_slice());
    }
}

impl LoadAlwaysAt for MapBinding {
    fn load_always_at<V: Storable, K: IntoMapKey, S: ReadonlyStorage>(
        &self,
        storage: &S,
        key: K,
    ) -> (r: V) {
        match Store::load_at::<V, K, S>(self, storage, key) {
            Some(v) => v,
            None => unreached(),
        }
    }
}

/// Distinct scalar key values address distinct storage keys of one binding.
pub proof fn lemma_scalar_keys_distinct(prefix: Seq<u8>, k1: nat, k2: nat)
    requires
        k1 != k2,
    ensures
        map_key_of(prefix, dec_bytes(k1)) != map_key_of(prefix, dec_bytes(k2)),
{
    if dec_bytes(k1) == dec_bytes(k2) {
        lemma_dec_bytes_injective(k1, k2);
    }
    lemma_map_keys_distinct(prefix, dec_bytes(k1), dec_bytes(k2));
}

/// The decimal encoding of a scalar never contains the `:` separator.
pub proof fn lemma_dec_bytes_colon_free(v: nat)
    ensures
        colon_free(dec_bytes(v)),
{
    lemma_dec_bytes_digits(v);
}

/// Distinct (scalar, scalar) tuple key values address distinct storage keys
/// of one binding: the joined encoding determines both components.
pub proof fn lemma_pair_keys_distinct(prefix: Seq<u8>, a1: nat, b1: nat, a2: nat, b2: nat)
    requires
        !(a1 == a2 && b1 == b2),
    ensures
        map_key_of(prefix, dec_bytes(a1) + seq![58u8] + dec_bytes(b1)) != map_key_of(
            prefix,
            dec_bytes(a2) + seq![58u8] + dec_bytes(b2),
        ),
{
    let s1 = dec_bytes(a1) + seq![58u8] + dec_bytes(b1);
    let s2 = dec_bytes(a2) + seq![58u8] + dec_bytes(b2);
    if s1 == s2 {
        lemma_dec_bytes_colon_free(a1);
        lemma_dec_bytes_colon_free(a2);
        lemma_joined_key_injective(dec_bytes(a1), dec_bytes(b1), dec_bytes(a2), dec_bytes(b2));
        lemma_dec_bytes_injective(a1, a2);
        lemma_dec_bytes_injective(b1, b2);
    }
    lemma_map_keys_distinct(prefix, s1, s2);
}

} // verus!
