//! What the platform backends decide and remember.
pub mod android;
pub mod apple;
pub mod linux;
