use newtype_store::codec::{PrimitiveKind, UintWidth};
use newtype_store::item::SingletonBinding;
use newtype_store::map::MapBinding;
use newtype_store::non_zero::NonZeroValue;
use newtype_store::prelude::CheckedNew;
use newtype_store::prelude::ClearAt;
use newtype_store::prelude::FromNonZero;
use newtype_store::prelude::ItemLoadAlways;
use newtype_store::prelude::ItemStore;
use newtype_store::prelude::LoadAlwaysAt;
use newtype_store::prelude::MapStore;
use newtype_store::prelude::NewUintNewtype;
use newtype_store::prelude::NonZeroNewtype;
use newtype_store::prelude::StringNewtype;
use newtype_store::prelude::{Clear, UintNewtype};
use newtype_store::string::StringValue;
use newtype_store::uint::UintValue;
use newtype_store::{MemStorage, ReadonlyStorage};

#[test]
fn uint_item_storage() {
    let mut storage = MemStorage::new();

    let binding = SingletonBinding::declare(
        "it",
        "foo_uint",
        PrimitiveKind::Uint(UintWidth::W64),
        false,
        true,
    )
    .unwrap();

    let x = UintValue::new(UintWidth::W64, 19u8 as u128);

    binding.save(&x, &mut storage);

    assert_eq!(String::from_utf8(binding.key()).unwrap(), "it::foo_uint_u64");
    assert!(storage.get(b"it::foo_uint_u64").is_some());

    let x: UintValue = binding.load_always(&storage);

    assert_eq!(x, UintValue::new(UintWidth::W64, 19));
    assert_eq!(x.get(), 19);
}

#[test]
fn non_zero_item_storage() {
    let mut storage = MemStorage::new();

    let binding = SingletonBinding::declare(
        "it",
        "foo_non_zero",
        PrimitiveKind::NonZeroUint(UintWidth::W128),
        true,
        false,
    )
    .unwrap();

    let x = NonZeroValue::checked_new(UintWidth::W128, 19u8 as u128).unwrap();

    binding.save(&x, &mut storage);

    assert_eq!(
        String::from_utf8(binding.key()).unwrap(),
        "it::foo_non_zero_non_zero_u128"
    );

    let x: NonZeroValue = binding.load(&storage).unwrap();

    assert_eq!(x, NonZeroValue::from_non_zero(UintWidth::W128, 19));

    binding.clear(&mut storage);

    assert!(binding.load::<NonZeroValue, _>(&storage).is_none());

    assert_eq!(NonZeroValue::from_non_zero(UintWidth::W128, 19).get(), 19);
}

#[test]
fn string_map_storage() {
    let mut storage = MemStorage::new();

    let bar = MapBinding::declare("it", "bar_string", PrimitiveKind::Text, true, false).unwrap();

    let x = StringValue::new("hello".to_string());

    bar.save_at(&x, &mut storage, (0u32, UintValue::new(UintWidth::W16, 1u8 as u128)));

    assert!(storage.get(b"it::bar_string_string::0:1").is_some());

    let x: StringValue = bar
        .load_at(&storage, (0u32, UintValue::new(UintWidth::W16, 1)))
        .unwrap();

    assert_eq!(x.as_str(), "hello");

    assert!(bar
        .load_at::<StringValue, _, _>(&storage, (1u32, UintValue::new(UintWidth::W16, 1)))
        .is_none());

    bar.clear_at(&mut storage, (0u32, UintValue::new(UintWidth::W16, 1)));

    assert!(bar
        .load_at::<StringValue, _, _>(&storage, (0u32, UintValue::new(UintWidth::W16, 1)))
        .is_none());

    let foo = MapBinding::declare("it", "foo_string", PrimitiveKind::Text, false, true).unwrap();

    let x = StringValue::new("world".to_string());

    foo.save_at(&x, &mut storage, "address".to_string());

    let x: StringValue = foo.load_always_at(&storage, "address".to_string());

    assert_eq!(x.as_str(), "world");
}
