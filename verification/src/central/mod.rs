//! The central (scanner and client) role.
pub mod backend;
pub mod types;
