//! Markup passes the library decides: Obsidian block-id markers and
//! co-located media references.
pub mod block_id;
pub mod media;
