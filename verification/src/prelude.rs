//! Convenient re-exports of the binding and newtype traits.

pub use crate::item::Clear;
pub use crate::item::LoadAlways as ItemLoadAlways;
pub use crate::item::Store as ItemStore;
pub use crate::map::ClearAt;
pub use crate::map::IntoMapKey;
pub use crate::map::LoadAlwaysAt;
pub use crate::map::Store as MapStore;
pub use crate::non_zero::CheckedNew;
pub use crate::non_zero::FromNonZero;
pub use crate::non_zero::Newtype as NonZeroNewtype;
pub use crate::storable::Storable;
pub use crate::string::New as NewStringNewtype;
pub use crate::string::Newtype as StringNewtype;
pub use crate::uint::New as NewUintNewtype;
pub use crate::uint::Newtype as UintNewtype;
