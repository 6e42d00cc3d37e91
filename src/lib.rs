//! A command execution engine that runs SQL against named database
//! instances: the statement cache kept in step with its metadata rows, the
//! per-instance worker's command dispatch, deadline-bounded streaming of
//! results and the block codec used to persist an instance's file.

pub mod codec;
pub mod error;
pub mod engine;
pub mod metadata;
pub mod cache;
pub mod stream;
pub mod worker;
pub mod args;
pub mod commands;
