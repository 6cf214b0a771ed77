//! A local-first bookmark store: bookmarks with tags, notes and reading
//! metadata are kept in a replicated document, queried through a filter and
//! sort engine, and reconciled with a remote peer by a small sync protocol.

pub mod bookmark;
pub mod commands;
pub mod config;
pub mod document;
pub mod errors;
pub mod extractor;
pub mod filter;
pub mod laws;
pub mod render;
pub mod repository;
pub mod sync;
pub mod text;
pub mod timestamp;
pub mod traits;
pub mod tui;
