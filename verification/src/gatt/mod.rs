//! GATT services and their properties.
pub mod props;
pub mod service;
