//! The peripheral (advertiser and server) role.
pub mod backend;
pub mod types;
