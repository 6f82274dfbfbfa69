//! A verified core for a bulk file-organizing tool: planned filesystem
//! mutations are executed as batches and recorded in a durable operation
//! log, recent history can be queried in batches, completed operations can
//! be undone, and duplicate files are detected by content digest.
//!
//! The library decides and records; the surrounding application performs
//! the actual filesystem and storage I/O and reports each outcome back.

pub mod operation;
pub mod codec;
pub mod store;
pub mod ids;
pub mod executor;
pub mod undo;
pub mod hasher;
pub mod dupes;
pub mod file_item;
pub mod category;
pub mod settings;
pub mod scan;
