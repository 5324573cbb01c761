//! Verified core of a Nostr MCP server: remote-signer pairing with identity
//! hot-swap, note-content parsing, relay configuration, and the small pure
//! helpers the request handlers are built from.

pub mod blossom;
pub mod config;
pub mod content;
pub mod encoding;
pub mod identity;
pub mod mcp_apps;
pub mod notes;
pub mod pairing;
pub mod qr;
pub mod uri;
pub mod textutil;
pub mod ui_templates;
