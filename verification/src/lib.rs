//! A companion library for packwiz modpacks: the pack metadata, the index,
//! the mod list and its cache, the exported document, and the text the
//! command line renders.

pub mod text;
pub mod request;
pub mod parser;
pub mod cache;
pub mod app;
pub mod order;
pub mod config;
pub mod env;
pub mod error;
pub mod args;
pub mod format;
