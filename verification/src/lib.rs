//! Verified core of an MCP server for the xAI Management API.
pub mod api;
pub mod config;
pub mod format;
pub mod helpers;
pub mod sorting;
pub mod json;
pub mod params;
pub mod text;
pub mod tools;
pub mod util;
