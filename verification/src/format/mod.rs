//! Text renderings of Management API payloads.
pub mod billing;
pub mod keys;
