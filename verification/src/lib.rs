//! Library behind a small game launcher: a key/value configuration format,
//! the launcher's own settings, and a resource-pack loader that reads a tar
//! archive into memory and extracts pack metadata from a `pack.meta` entry.

pub mod app;
pub mod config;
pub mod kv;
pub mod num;
pub mod resource_pack;
pub mod text;
