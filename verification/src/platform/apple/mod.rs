//! The Apple (CoreBluetooth) backend.
pub mod central;
pub mod l2cap;
pub mod peripheral;
