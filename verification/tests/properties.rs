use newtype_store::capability::{capability_of, Capability, ConfigError};
use newtype_store::codec::{decode_be, encode_be, PrimitiveKind, UintWidth};
use newtype_store::decimal::dec_encode;
use newtype_store::item::SingletonBinding;
use newtype_store::keys::{kind_name_bytes, TypeIdentity};
use newtype_store::map::MapBinding;
use newtype_store::non_zero::NonZeroValue;
use newtype_store::prelude::CheckedNew;
use newtype_store::prelude::Clear;
use newtype_store::prelude::ClearAt;
use newtype_store::prelude::IntoMapKey;
use newtype_store::prelude::ItemStore;
use newtype_store::prelude::MapStore;
use newtype_store::prelude::NewUintNewtype;
use newtype_store::prelude::NonZeroNewtype;
use newtype_store::prelude::Storable;
use newtype_store::prelude::StringNewtype;
use newtype_store::prelude::UintNewtype;
use newtype_store::string::StringValue;
use newtype_store::uint::UintValue;
use newtype_store::{MemStorage, MutableStorage, ReadonlyStorage};

#[test]
fn uint_codec_round_trip() {
    for value in [0u128, 1, 19, 255] {
        let v = UintValue::new(UintWidth::W8, value);
        let decoded = UintValue::from_owned_bytes(v.to_owned_bytes());
        assert_eq!(decoded, v);
    }
    let v = UintValue::new(UintWidth::W128, u128::MAX);
    assert_eq!(UintValue::from_owned_bytes(v.to_owned_bytes()), v);
    let v = UintValue::new(UintWidth::W64, 0);
    assert_eq!(UintValue::from_owned_bytes(v.to_owned_bytes()), v);
}

#[test]
fn non_zero_codec_round_trip() {
    let v = NonZeroValue::checked_new(UintWidth::W32, 77).unwrap();
    assert_eq!(NonZeroValue::from_owned_bytes(v.to_owned_bytes()), v);
    assert!(NonZeroValue::checked_new(UintWidth::W32, 0).is_none());
}

#[test]
fn string_codec_round_trip() {
    let v = StringValue::new("caf\u{e9} : con leche".to_string());
    let decoded = StringValue::from_owned_bytes(v.to_owned_bytes());
    assert_eq!(decoded.as_str(), "caf\u{e9} : con leche");
    let empty = StringValue::new(String::new());
    assert_eq!(StringValue::from_owned_bytes(empty.to_owned_bytes()).as_str(), "");
}

#[test]
fn big_endian_exact_bytes() {
    assert_eq!(encode_be(0x0102, 2), vec![1u8, 2]);
    assert_eq!(encode_be(19, 8), vec![0u8, 0, 0, 0, 0, 0, 0, 19]);
    assert_eq!(decode_be(&[1u8, 2]), 258);
    assert_eq!(decode_be(&[]), 0);
}

#[test]
fn decimal_exact_bytes() {
    assert_eq!(dec_encode(0), b"0".to_vec());
    assert_eq!(dec_encode(1234), b"1234".to_vec());
    assert_eq!(
        dec_encode(u128::MAX),
        b"340282366920938463463374607431768211455".to_vec()
    );
}

#[test]
fn kind_names_exact() {
    assert_eq!(kind_name_bytes(PrimitiveKind::Uint(UintWidth::W64)), b"u64".to_vec());
    assert_eq!(
        kind_name_bytes(PrimitiveKind::NonZeroUint(UintWidth::W128)),
        b"non_zero_u128".to_vec()
    );
    assert_eq!(kind_name_bytes(PrimitiveKind::Text), b"string".to_vec());
}

#[test]
fn tuple_key_composition() {
    // An ordered pair encodes component encodings joined with `:`.
    let suffix = (0u32, UintValue::new(UintWidth::W16, 1)).into_map_key();
    assert_eq!(suffix, b"0:1".to_vec());
    // Nesting pairs composes longer tuples, order-significant.
    let nested = ((0u32, 1u8), 2u16).into_map_key();
    assert_eq!(nested, b"0:1:2".to_vec());
    let text = ("left".to_string(), "right".to_string()).into_map_key();
    assert_eq!(text, b"left:right".to_vec());
}

#[test]
fn key_determinism() {
    let a = TypeIdentity::new("app", "counter", PrimitiveKind::Uint(UintWidth::W32));
    let b = TypeIdentity::new("app", "counter", PrimitiveKind::Uint(UintWidth::W32));
    assert_eq!(a.build_key_prefix(), b.build_key_prefix());

    let other_name = TypeIdentity::new("app", "gauge", PrimitiveKind::Uint(UintWidth::W32));
    assert_ne!(a.build_key_prefix(), other_name.build_key_prefix());

    let other_kind = TypeIdentity::new("app", "counter", PrimitiveKind::Uint(UintWidth::W64));
    assert_ne!(a.build_key_prefix(), other_kind.build_key_prefix());

    let other_namespace = TypeIdentity::new("lib", "counter", PrimitiveKind::Uint(UintWidth::W32));
    assert_ne!(a.build_key_prefix(), other_namespace.build_key_prefix());

    let map = MapBinding::declare("app", "cell", PrimitiveKind::Text, false, false).unwrap();
    assert_eq!(map.map_key(7u64), map.map_key(7u64));
    assert_ne!(map.map_key(7u64), map.map_key(8u64));
}

#[test]
fn mutual_exclusion_rejected_at_declaration() {
    assert_eq!(
        capability_of(true, true),
        Err(ConfigError::ConflictingCapabilities)
    );
    assert_eq!(capability_of(true, false), Ok(Capability::Clearable));
    assert_eq!(capability_of(false, true), Ok(Capability::AlwaysPresent));
    assert_eq!(capability_of(false, false), Ok(Capability::Neither));

    assert!(SingletonBinding::declare("it", "both", PrimitiveKind::Text, true, true).is_err());
    assert!(MapBinding::declare("it", "both", PrimitiveKind::Text, true, true).is_err());
}

#[test]
fn clear_is_idempotent() {
    let mut storage = MemStorage::new();
    let binding = SingletonBinding::declare(
        "it",
        "slot",
        PrimitiveKind::Uint(UintWidth::W16),
        true,
        false,
    )
    .unwrap();
    let v = UintValue::new(UintWidth::W16, 41);
    binding.save(&v, &mut storage);
    assert!(binding.load::<UintValue, _>(&storage).is_some());
    binding.clear(&mut storage);
    assert!(binding.load::<UintValue, _>(&storage).is_none());
    binding.clear(&mut storage);
    assert!(binding.load::<UintValue, _>(&storage).is_none());
}

#[test]
fn map_clear_at_is_idempotent_on_absent_key() {
    let mut storage = MemStorage::new();
    let binding = MapBinding::declare("it", "cell", PrimitiveKind::Text, true, false).unwrap();
    // Clearing a key that was never written is a no-op.
    binding.clear_at(&mut storage, 3u8);
    assert!(binding
        .load_at::<StringValue, _, _>(&storage, 3u8)
        .is_none());
}

#[test]
fn save_overwrites() {
    let mut storage = MemStorage::new();
    let binding = SingletonBinding::declare(
        "it",
        "slot",
        PrimitiveKind::Uint(UintWidth::W32),
        false,
        false,
    )
    .unwrap();
    binding.save(&UintValue::new(UintWidth::W32, 1), &mut storage);
    binding.save(&UintValue::new(UintWidth::W32, 2), &mut storage);
    let r: UintValue = binding.load(&storage).unwrap();
    assert_eq!(r.get(), 2);
}

#[test]
fn mem_storage_get_set_clear() {
    let mut storage = MemStorage::new();
    assert!(storage.get(b"missing").is_none());
    storage.set(b"a", b"1");
    storage.set(b"b", b"2");
    storage.set(b"a", b"3");
    assert_eq!(storage.get(b"a"), Some(b"3".to_vec()));
    assert_eq!(storage.get(b"b"), Some(b"2".to_vec()));
    storage.clear(b"a");
    assert!(storage.get(b"a").is_none());
    assert_eq!(storage.get(b"b"), Some(b"2".to_vec()));
}

#[test]
fn uint_non_zero_conversion() {
    let zero = UintValue::new(UintWidth::W64, 0);
    assert!(zero.non_zero().is_none());
    let nineteen = UintValue::new(UintWidth::W64, 19);
    let nz = nineteen.non_zero().unwrap();
    assert_eq!(nz.non_zero(), 19);
}

#[test]
fn string_newtype_accessors() {
    let v = StringValue::new("hello".to_string());
    assert_eq!(v.as_str(), "hello");
    assert_eq!(v.into_string(), "hello".to_string());
    let w: StringValue = newtype_store::prelude::NewStringNewtype::new("hi".to_string());
    assert_eq!(w.as_str(), "hi");
}

#[test]
fn distinct_types_distinct_keys_in_storage() {
    // Two bindings of the same shape but different names never collide.
    let mut storage = MemStorage::new();
    let a = SingletonBinding::declare("it", "left", PrimitiveKind::Uint(UintWidth::W8), false, false)
        .unwrap();
    let b =
        SingletonBinding::declare("it", "right", PrimitiveKind::Uint(UintWidth::W8), false, false)
            .unwrap();
    a.save(&UintValue::new(UintWidth::W8, 1), &mut storage);
    b.save(&UintValue::new(UintWidth::W8, 2), &mut storage);
    let ra: UintValue = a.load(&storage).unwrap();
    let rb: UintValue = b.load(&storage).unwrap();
    assert_eq!(ra.get(), 1);
    assert_eq!(rb.get(), 2);
}
