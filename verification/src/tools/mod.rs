//! What the MCP tools decide: queries, request bodies, gates and replies.
pub mod audit;
pub mod billing;
pub mod keys;
pub mod query;
