//! The Linux (BlueZ) backend.
pub mod l2cap;
pub mod peripheral;
