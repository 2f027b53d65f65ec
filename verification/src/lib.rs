//! The logic of a cross-platform Bluetooth LE library, central and peripheral
//! role, with its behaviour stated as contracts.
pub mod bits;
pub mod central;
pub mod error;
pub mod gatt;
pub mod l2cap;
pub mod peripheral;
pub mod platform;
pub mod plugin;
pub mod ready;
pub mod testing;
pub mod text;
pub mod time;
pub mod types;
pub mod util;
pub mod uuids;
