//! Verified logic behind Warp's conversation usage popover and related agent
//! surfaces: per-model usage rows, chart colors, popover state transitions,
//! bootstrap-script assembly, bootstrap conversation reuse, conversation
//! tombstones and file-based MCP config discovery.

pub mod conversation;
pub mod text;
pub mod token_count;
pub mod lex;
pub mod usage_rows;
pub mod colors;
pub mod popover;
pub mod bootstrap;
pub mod bootstrap_snippets;
pub mod usage_text;
pub mod tombstone;
pub mod mcp;
pub mod mcp_parse;
pub mod env_vars;
